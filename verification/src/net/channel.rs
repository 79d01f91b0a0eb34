//! Handing messages to queues.
//!
//! What a queue says to a message depends on how far its reader has come. What was handed to which
//! queue does not, and a [`Handed`] or a [`Posted`] is the evidence of it: there is no way to one
//! but through the queue.

use tokio::sync::mpsc;
use vstd::prelude::*;

verus! {

/// `tokio::sync::mpsc::Sender`.
#[verifier::external_type_specification]
#[verifier::external_body]
#[verifier::reject_recursive_types(T)]
pub struct ExSender<T>(tokio::sync::mpsc::Sender<T>);

/// `tokio::sync::mpsc::UnboundedSender`.
#[verifier::external_type_specification]
#[verifier::external_body]
#[verifier::reject_recursive_types(T)]
pub struct ExUnboundedSender<T>(tokio::sync::mpsc::UnboundedSender<T>);

/// What a queue said to a message.
#[derive(Debug, Clone, Copy, PartialEq, Eq, Structural)]
pub enum Offer {
    Taken,
    Full,
    /// Nobody reads from the queue any more.
    Closed,
}

/// A message that was handed to a queue, and what the queue said.
#[verifier::reject_recursive_types(T)]
pub struct Handed<T> {
    said: Offer,
    to: Ghost<mpsc::Sender<T>>,
    what: Ghost<T>,
}

impl<T> Handed<T> {
    /// The queue.
    pub closed spec fn to(&self) -> mpsc::Sender<T> {
        self.to@
    }

    /// The message.
    pub closed spec fn what(&self) -> T {
        self.what@
    }

    /// What the queue said.
    pub closed spec fn answer(&self) -> Offer {
        self.said
    }

    /// What the queue said.
    pub fn said(&self) -> (r: Offer)
        ensures
            r == self.answer(),
    {
        self.said
    }
}

/// A message that was handed to a queue that is never full, and whether anybody still reads from
/// it.
#[verifier::reject_recursive_types(T)]
pub struct Posted<T> {
    heard: bool,
    to: Ghost<mpsc::UnboundedSender<T>>,
    what: Ghost<T>,
}

impl<T> Posted<T> {
    /// The queue.
    pub closed spec fn to(&self) -> mpsc::UnboundedSender<T> {
        self.to@
    }

    /// The message.
    pub closed spec fn what(&self) -> T {
        self.what@
    }

    /// Whether anybody still reads from the queue.
    pub closed spec fn answer(&self) -> bool {
        self.heard
    }

    /// Whether anybody still reads from the queue.
    pub fn heard(&self) -> (r: bool)
        ensures
            r == self.answer(),
    {
        self.heard
    }
}

/// Calls `tokio::sync::mpsc::Sender::try_send`, which never waits, with this message on this queue.
/// What comes back depends on how far the reader has come, so nothing is claimed of it.
#[verifier::external_body]
pub(crate) fn offer<T>(tx: &mpsc::Sender<T>, value: T) -> (r: Handed<T>)
    ensures
        r.to() == *tx,
        r.what() == value,
{
    let (to, what) = (Ghost(*tx), Ghost(value));
    let said = match tx.try_send(value) {
        Ok(()) => Offer::Taken,
        Err(mpsc::error::TrySendError::Full(_)) => Offer::Full,
        Err(mpsc::error::TrySendError::Closed(_)) => Offer::Closed,
    };
    Handed { said, to, what }
}

/// Calls `tokio::sync::mpsc::UnboundedSender::send` with this message on this queue, and notes
/// whether anybody still reads from it. Nothing is claimed of that.
#[verifier::external_body]
pub(crate) fn post<T>(tx: &mpsc::UnboundedSender<T>, value: T) -> (r: Posted<T>)
    ensures
        r.to() == *tx,
        r.what() == value,
{
    let (to, what) = (Ghost(*tx), Ghost(value));
    Posted { heard: tx.send(value).is_ok(), to, what }
}

} // verus!
