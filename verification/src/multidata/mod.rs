//! A typed model of a seed: slots, the location table, hints, versions and name tables.
pub mod collect;
pub mod datapackage;
pub mod error;
pub mod extract;
pub mod hint_blacklist;
pub mod item_flags;
pub mod laws;
pub mod locations;
pub mod multidata;
pub mod pyobj;
pub mod readtable;
pub mod types;
