//! Shared data storage: the values clients keep in a room and the operations on them.
pub mod integer;
pub mod laws;
pub mod metrics;
pub mod oplaws;
pub mod ops;
pub mod opspec;
pub mod pyvalue;
pub mod render;
pub mod value;
