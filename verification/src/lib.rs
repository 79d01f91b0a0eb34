//! A multiworld room server's logic.
pub mod datastore;
pub mod json;
pub mod multidata;
pub mod net;
pub mod table;
pub mod text;
