//! The room on a network: who is sent what, what is bounded, and what is answered.
pub mod actor;
pub mod budget;
pub mod channel;
pub mod config;
pub mod dispatch;
pub mod fanout;
pub mod http;
pub mod journal;
pub mod laws;
pub mod mailbox;
pub mod metrics;
pub mod save;
pub mod server;
pub mod session;
pub mod shard;
pub mod tls;
