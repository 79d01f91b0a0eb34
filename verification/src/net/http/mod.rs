//! The HTTP surface, on the same port as the game.
pub mod admin;
pub mod command;
pub mod document;
pub mod exposition;
pub mod help;
pub mod pagelaws;
pub mod response;
pub mod route;
pub mod routelaws;
pub mod status;
pub mod time;
pub mod tracker;
