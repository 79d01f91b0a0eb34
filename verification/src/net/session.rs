//! One connection: what its writer does with what comes to it, and why its reader stops.
//!
//! The writer owns the socket's write half. It writes frames as they are, pings at intervals, and
//! stops at once when it is told to past its queue. The bytes of a frame stay on the books until
//! they are the kernel's, or until it is known that they never will be.

use crate::net::server::{Due, Keepalive, CLOSE_GOING_AWAY};
use vstd::prelude::*;

verus! {

/// What came to a writer.
#[derive(Debug, Clone, Copy, PartialEq, Eq)]
pub enum Arrival {
    /// A close past the queue.
    Signal,
    /// The keepalive is due, with so many pongs seen.
    Timer { now: u64, pongs: u64 },
    /// A frame of this many bytes was next in the queue.
    Frame { size: usize },
    /// A close was next in the queue.
    Close { reason: &'static str },
    /// Nobody queues anything any more.
    Ended,
    /// What was being written was written, or could not be.
    Wrote { ok: bool },
}

/// What a writer does next.
#[derive(Debug, Clone, Copy, PartialEq, Eq)]
pub enum Move {
    /// Wait for something to come; for a signal, while a frame is being written.
    Wait,
    WritePing,
    WriteFrame,
    /// Write a close with this code and reason, and nothing after it.
    WriteClose { code: u16, reason: &'static str },
    Stop,
}

/// What a writer is in the middle of.
#[derive(Debug, Clone, Copy, PartialEq, Eq, Structural)]
pub enum Doing {
    Nothing,
    Ping,
    /// A frame of this many bytes.
    Frame(usize),
    Goodbye,
    Stopped,
}

/// Where a writer stands.
#[derive(Debug, Clone, Copy, PartialEq, Eq)]
pub struct Writer {
    pub keepalive: Keepalive,
    pub doing: Doing,
}

/// What a writer does next, and how many bytes come off the books.
#[derive(Debug, Clone, Copy, PartialEq, Eq)]
pub struct Turn {
    pub next: Move,
    pub released: Option<usize>,
}

impl Writer {
    /// A writer that pings at intervals; never where the interval is zero.
    pub fn new(interval: u64, timeout: u64, now: u64) -> (r: Writer)
        ensures
            r.doing == Doing::Nothing,
            r.keepalive.interval == interval,
            r.keepalive.timeout == timeout,
            r.keepalive.judge_at is None,
            r.keepalive.next_ping == if interval == 0 {
                None
            } else {
                Some(crate::net::server::after(now, interval))
            },
    {
        Writer { keepalive: Keepalive::new(interval, timeout, now), doing: Doing::Nothing }
    }

    /// Where a writer stands once something came, and what it does. A signal is heeded while it
    /// waits and while a frame is being written, which a peer that has stopped reading can hold up
    /// for good.
    pub open spec fn turned(self, came: Arrival) -> (Writer, Turn) {
        let idle = Writer { doing: Doing::Nothing, ..self };
        let stopped = Writer { doing: Doing::Stopped, ..self };
        let stop = Turn { next: Move::Stop, released: None };
        match (self.doing, came) {
            (Doing::Nothing, Arrival::Signal) => (stopped, stop),
            (Doing::Nothing, Arrival::Ended) => (stopped, stop),
            (Doing::Nothing, Arrival::Timer { now, pongs }) => {
                let (keepalive, due) = self.keepalive.stepped(now, pongs);
                match due {
                    Due::Dead => (
                        Writer { keepalive, doing: Doing::Stopped },
                        stop,
                    ),
                    Due::Ping => (
                        Writer { keepalive, doing: Doing::Ping },
                        Turn { next: Move::WritePing, released: None },
                    ),
                    Due::Nothing => (
                        Writer { keepalive, doing: Doing::Nothing },
                        Turn { next: Move::Wait, released: None },
                    ),
                }
            },
            (Doing::Nothing, Arrival::Frame { size }) => (
                Writer { doing: Doing::Frame(size), ..self },
                Turn { next: Move::WriteFrame, released: None },
            ),
            (Doing::Nothing, Arrival::Close { reason }) => (
                Writer { doing: Doing::Goodbye, ..self },
                Turn {
                    next: Move::WriteClose { code: CLOSE_GOING_AWAY, reason },
                    released: None,
                },
            ),
            (Doing::Ping, Arrival::Wrote { ok }) => if ok {
                (idle, Turn { next: Move::Wait, released: None })
            } else {
                (stopped, stop)
            },
            (Doing::Frame(size), Arrival::Wrote { ok }) => if ok {
                (idle, Turn { next: Move::Wait, released: Some(size) })
            } else {
                (stopped, Turn { next: Move::Stop, released: Some(size) })
            },
            (Doing::Frame(size), Arrival::Signal) => (
                stopped,
                Turn { next: Move::Stop, released: Some(size) },
            ),
            (Doing::Goodbye, Arrival::Wrote { .. }) => (stopped, stop),
            (Doing::Stopped, _) => (self, stop),
            _ => (self, Turn { next: Move::Wait, released: None }),
        }
    }

    /// Takes what came. Only what a writer waits for is heeded.
    pub fn turn(&mut self, came: Arrival) -> (r: Turn)
        ensures
            (*final(self), r) == old(self).turned(came),
    {
        let stop = Turn { next: Move::Stop, released: None };
        match (self.doing, came) {
            (Doing::Nothing, Arrival::Signal) => {
                self.doing = Doing::Stopped;
                stop
            },
            (Doing::Nothing, Arrival::Ended) => {
                self.doing = Doing::Stopped;
                stop
            },
            (Doing::Nothing, Arrival::Timer { now, pongs }) => match self.keepalive.due(
                now,
                pongs,
            ) {
                Due::Dead => {
                    self.doing = Doing::Stopped;
                    stop
                },
                Due::Ping => {
                    self.doing = Doing::Ping;
                    Turn { next: Move::WritePing, released: None }
                },
                Due::Nothing => Turn { next: Move::Wait, released: None },
            },
            (Doing::Nothing, Arrival::Frame { size }) => {
                self.doing = Doing::Frame(size);
                Turn { next: Move::WriteFrame, released: None }
            },
            (Doing::Nothing, Arrival::Close { reason }) => {
                self.doing = Doing::Goodbye;
                Turn {
                    next: Move::WriteClose { code: CLOSE_GOING_AWAY, reason },
                    released: None,
                }
            },
            (Doing::Ping, Arrival::Wrote { ok }) => if ok {
                self.doing = Doing::Nothing;
                Turn { next: Move::Wait, released: None }
            } else {
                self.doing = Doing::Stopped;
                stop
            },
            (Doing::Frame(size), Arrival::Wrote { ok }) => if ok {
                self.doing = Doing::Nothing;
                Turn { next: Move::Wait, released: Some(size) }
            } else {
                self.doing = Doing::Stopped;
                Turn { next: Move::Stop, released: Some(size) }
            },
            (Doing::Frame(size), Arrival::Signal) => {
                self.doing = Doing::Stopped;
                Turn { next: Move::Stop, released: Some(size) }
            },
            (Doing::Goodbye, Arrival::Wrote { .. }) => {
                self.doing = Doing::Stopped;
                stop
            },
            (Doing::Stopped, _) => stop,
            _ => Turn { next: Move::Wait, released: None },
        }
    }
}

/// The bytes of the frame that is being written.
pub open spec fn in_hand(w: Writer) -> int {
    match w.doing {
        Doing::Frame(size) => size as int,
        _ => 0,
    }
}

/// Where a writer stands after everything that came, the bytes of the frames it began to write, and
/// the bytes that came off the books.
pub open spec fn written(w: Writer, came: Seq<Arrival>) -> (Writer, int, int)
    decreases came.len(),
{
    if came.len() == 0 {
        (w, 0, 0)
    } else {
        let (before, begun, released) = written(w, came.drop_last());
        let (now, turn) = before.turned(came.last());
        (
            now,
            begun + if turn.next == Move::WriteFrame {
                in_hand(now)
            } else {
                0
            },
            released + match turn.released {
                Some(n) => n as int,
                None => 0,
            },
        )
    }
}

/// No byte stays on the books for good and none comes off twice: whatever comes to a writer, what it
/// began to write has come off the books, but for the frame that is being written.
pub proof fn every_frame_is_released_once(w: Writer, came: Seq<Arrival>)
    ensures
        written(w, came).1 + in_hand(w) == written(w, came).2 + in_hand(written(w, came).0),
    decreases came.len(),
{
    if came.len() > 0 {
        every_frame_is_released_once(w, came.drop_last());
    }
}

/// A writer that was told to stop past its queue stops, whatever it was writing for the room; and
/// one that has stopped writes nothing more and releases nothing more.
pub proof fn a_signal_stops_a_writer(w: Writer, came: Arrival)
    ensures
        w.doing == Doing::Nothing || w.doing is Frame ==> w.turned(Arrival::Signal).0.doing
            == Doing::Stopped && w.turned(Arrival::Signal).1.next == Move::Stop,
        w.doing == Doing::Stopped ==> w.turned(came) == (w, Turn {
            next: Move::Stop,
            released: None,
        }),
{
}

/// Why the reader of a connection stops, besides what came in itself.
#[derive(Debug, Clone, PartialEq, Eq)]
pub enum Ending {
    /// The frames do not make a message; what is wrong with them.
    Protocol(String),
    /// The bytes do not make a frame; what is wrong with them.
    BadFrame(String),
    /// The writer has stopped, and both halves go together.
    Server,
    /// The peer sends nothing more.
    Peer,
    /// What came of reading.
    Failed(String),
}

/// Why the reader of a connection stopped, in words.
pub fn outcome(why: &Ending) -> (r: String)
    ensures
        r@ == match *why {
            Ending::Protocol(e) => "protocol error: "@ + e@,
            Ending::BadFrame(e) => "bad frame: "@ + e@,
            Ending::Server => "closed by the server"@,
            Ending::Peer => "peer closed"@,
            Ending::Failed(e) => "read failed: "@ + e@,
        },
{
    match why {
        Ending::Protocol(e) => {
            let mut s = "protocol error: ".to_string();
            s.append(e.as_str());
            s
        },
        Ending::BadFrame(e) => {
            let mut s = "bad frame: ".to_string();
            s.append(e.as_str());
            s
        },
        Ending::Server => "closed by the server".to_string(),
        Ending::Peer => "peer closed".to_string(),
        Ending::Failed(e) => {
            let mut s = "read failed: ".to_string();
            s.append(e.as_str());
            s
        },
    }
}

} // verus!
