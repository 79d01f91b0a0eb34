//! Where saves go, and in which steps one is made.
//!
//! A save is written beside its place and put there in one step, so that a reader sees the whole of
//! the old one or the whole of the new one.

use crate::net::actor::Saved;
use crate::net::metrics::{record_save, Counters, Metrics};
use crate::text::{dec, push_decimal};
use vstd::prelude::*;

verus! {

/// Where a save goes once it has been encoded.
pub trait SaveSink {
    /// Replaces what was saved, or says why it could not. It may take long.
    fn store(&self, bytes: &[u8]) -> Result<(), String>;
}

/// How a save ended, by what its sink said.
pub fn saved(said: &Result<(), String>) -> (r: Saved)
    ensures
        r == if *said is Ok {
            Saved::Stored
        } else {
            Saved::Failed
        },
{
    match said {
        Ok(_) => Saved::Stored,
        Err(_) => Saved::Failed,
    }
}

/// Hands a save to its sink.
pub fn hand_over<S: SaveSink>(sink: &S, bytes: &[u8]) -> (r: Saved)
    ensures
        exists|said: Result<(), String>| #[trigger]
            call_ensures(S::store, (sink, bytes), said) && (r == Saved::Stored <==> said is Ok) && (r
                == Saved::Failed <==> said is Err),
{
    let said = sink.store(bytes);
    saved(&said)
}

/// Notes a save that was made; one that was not is not noted.
pub fn note_save(how: Saved, m: &mut Metrics, micros: u64, bytes: usize, now: u64)
    ensures
        final(m)@ == if how == Saved::Stored {
            Counters { save_micros: micros, save_bytes: bytes as u64, save_at: now, ..old(m)@ }
        } else {
            old(m)@
        },
{
    if how == Saved::Stored {
        record_save(m, micros, bytes, now);
    }
}

/// What the current save is called.
pub const SAVE_NAME: &'static str = "room.save";

/// What the file is called whose lock is held as long as the room runs.
pub const LOCK_NAME: &'static str = "room.lock";

/// What a save is called while it is being written, by the number of the process.
pub fn temp_name(pid: u32) -> (r: String)
    ensures
        r@ == "."@ + SAVE_NAME@ + "."@ + dec(pid as nat) + ".tmp"@,
{
    let mut s = ".".to_string();
    s.append(SAVE_NAME);
    s.append(".");
    push_decimal(&mut s, pid as u64);
    s.append(".tmp");
    s
}

/// What is said when another process holds the lock.
pub fn busy_message(dir: &str) -> (r: String)
    ensures
        r@ == "another pahoa process is already serving "@ + dir@
            + "; refusing to share a save directory"@,
{
    let mut s = "another pahoa process is already serving ".to_string();
    s.append(dir);
    s.append("; refusing to share a save directory");
    s
}

/// A step of a save.
#[derive(Debug, Clone, Copy, PartialEq, Eq, Structural)]
pub enum StoreStep {
    CreateTemp,
    Write,
    SyncTemp,
    Rename,
    SyncDir,
}

/// What follows a step.
#[derive(Debug, Clone, Copy, PartialEq, Eq, Structural)]
pub enum StoreNext {
    Do(StoreStep),
    Done,
    /// Remove what was written beside the place, and report the failure.
    CleanUp,
}

/// What follows a step that went well or did not. The bytes are on the disk before the name is
/// changed, and the name is on the disk before the save counts as made.
pub fn store_next(at: StoreStep, ok: bool) -> (r: StoreNext)
    ensures
        r == if !ok {
            StoreNext::CleanUp
        } else {
            match at {
                StoreStep::CreateTemp => StoreNext::Do(StoreStep::Write),
                StoreStep::Write => StoreNext::Do(StoreStep::SyncTemp),
                StoreStep::SyncTemp => StoreNext::Do(StoreStep::Rename),
                StoreStep::Rename => StoreNext::Do(StoreStep::SyncDir),
                StoreStep::SyncDir => StoreNext::Done,
            }
        },
        r == StoreNext::Do(StoreStep::Rename) <==> at == StoreStep::SyncTemp && ok,
        r == StoreNext::Done <==> at == StoreStep::SyncDir && ok,
{
    if !ok {
        return StoreNext::CleanUp;
    }
    match at {
        StoreStep::CreateTemp => StoreNext::Do(StoreStep::Write),
        StoreStep::Write => StoreNext::Do(StoreStep::SyncTemp),
        StoreStep::SyncTemp => StoreNext::Do(StoreStep::Rename),
        StoreStep::Rename => StoreNext::Do(StoreStep::SyncDir),
        StoreStep::SyncDir => StoreNext::Done,
    }
}

} // verus!
