//! What a listener and a connection decide.
//!
//! Times are milliseconds of a monotonic clock that the caller reads.

use crate::text::{dec, push_decimal};
use vstd::prelude::*;

verus! {

/// How long the last frames of a closing room may take to reach the wire.
pub const CLOSE_LINGER_MS: u64 = 250;

/// How long a listener waits after a connection could not be taken.
pub const ACCEPT_BACKOFF_MS: u64 = 50;

/// How many messages may wait for the room.
pub const MAILBOX_DEPTH: usize = 8192;

/// Threads for what blocks, which is saving.
pub const BLOCKING_THREADS: usize = 4;

pub const CLOSE_NORMAL: u16 = 1000;

pub const CLOSE_GOING_AWAY: u16 = 1001;

/// The first byte of a TLS handshake. No method of HTTP begins with it.
pub const CLIENT_HELLO: u8 = 0x16;

/// What the keepalive wants done.
#[derive(Debug, Clone, Copy, PartialEq, Eq, Structural)]
pub enum Due {
    /// Send a ping.
    Ping,
    /// The ping was not answered in time.
    Dead,
    Nothing,
}

/// The liveness of one connection.
#[derive(Debug, Clone, Copy, PartialEq, Eq)]
pub struct Keepalive {
    pub interval: u64,
    pub timeout: u64,
    pub next_ping: Option<u64>,
    /// When the ping that is out is judged, and how many pongs there had been when it was sent.
    pub judge_at: Option<(u64, u64)>,
}

/// A time after another, as far as the clock goes.
pub open spec fn after(now: u64, ms: u64) -> u64 {
    if now + ms > u64::MAX {
        u64::MAX
    } else {
        (now + ms) as u64
    }
}

impl Keepalive {
    /// A connection that is pinged at intervals; never where the interval is zero.
    pub fn new(interval: u64, timeout: u64, now: u64) -> (r: Keepalive)
        ensures
            r == (Keepalive {
                interval,
                timeout,
                next_ping: if interval == 0 {
                    None
                } else {
                    Some(after(now, interval))
                },
                judge_at: None,
            }),
    {
        Keepalive {
            interval,
            timeout,
            next_ping: if interval == 0 {
                None
            } else {
                Some(now.saturating_add(interval))
            },
            judge_at: None,
        }
    }

    /// When something is due; never where pings are off.
    pub open spec fn deadline(self) -> Option<u64> {
        match (self.next_ping, self.judge_at) {
            (None, None) => None,
            (Some(a), None) => Some(a),
            (None, Some((b, _))) => Some(b),
            (Some(a), Some((b, _))) => Some(
                if a < b {
                    a
                } else {
                    b
                },
            ),
        }
    }

    /// When something is due; never where pings are off.
    pub fn wait(&self) -> (r: Option<u64>)
        ensures
            r == self.deadline(),
    {
        match (self.next_ping, self.judge_at) {
            (None, None) => None,
            (Some(a), None) => Some(a),
            (None, Some((b, _))) => Some(b),
            (Some(a), Some((b, _))) => if a < b {
                Some(a)
            } else {
                Some(b)
            },
        }
    }

    /// The state and what is to be done at a time, with so many pongs seen. A ping that is out is
    /// judged before another is sent, and one that is not answered keeps its time to be judged.
    pub open spec fn stepped(self, now: u64, pongs: u64) -> (Keepalive, Due) {
        let judged = self.judge_at is Some && now >= (self.judge_at->0).0;
        if judged && pongs == (self.judge_at->0).1 {
            (Keepalive { judge_at: None, ..self }, Due::Dead)
        } else {
            let s = if judged {
                Keepalive { judge_at: None, ..self }
            } else {
                self
            };
            if s.next_ping is Some && now >= s.next_ping->0 {
                (
                    Keepalive {
                        next_ping: Some(after(now, s.interval)),
                        judge_at: if s.timeout == 0 || (s.judge_at matches Some((_, seen)) && seen
                            == pongs) {
                            s.judge_at
                        } else {
                            Some((after(now, s.timeout), pongs))
                        },
                        ..s
                    },
                    Due::Ping,
                )
            } else {
                (s, Due::Nothing)
            }
        }
    }

    /// What is to be done at a time, with so many pongs seen.
    pub fn due(&mut self, now: u64, pongs: u64) -> (r: Due)
        ensures
            (*final(self), r) == old(self).stepped(now, pongs),
    {
        if let Some((at, seen)) = self.judge_at {
            if now >= at {
                self.judge_at = None;
                if pongs == seen {
                    return Due::Dead;
                }
            }
        }
        if let Some(at) = self.next_ping {
            if now >= at {
                self.next_ping = Some(now.saturating_add(self.interval));
                let unanswered: bool = match self.judge_at {
                    Some((_, seen)) => seen == pongs,
                    None => false,
                };
                if self.timeout != 0 && !unanswered {
                    self.judge_at = Some((now.saturating_add(self.timeout), pongs));
                }
                return Due::Ping;
            }
        }
        Due::Nothing
    }
}

/// A ping that is sent to a peer that has answered so far is judged a timeout later.
pub proof fn a_ping_is_judged(k: Keepalive, now: u64, pongs: u64)
    requires
        k.next_ping == Some(now),
        k.judge_at matches Some((_, seen)) ==> seen != pongs,
        k.timeout > 0,
    ensures
        k.stepped(now, pongs).1 == Due::Ping,
        k.stepped(now, pongs).0.judge_at == Some((after(now, k.timeout), pongs)),
        k.stepped(now, pongs).0.next_ping == Some(after(now, k.interval)),
{
}

/// A peer that has gone silent is found dead when its ping is judged, and not before: until then
/// every look leaves the judgment as it stands, whatever else is due.
pub proof fn silence_is_found_out(k: Keepalive, judge: u64, now: u64, pongs: u64)
    requires
        k.judge_at == Some((judge, pongs)),
    ensures
        now >= judge ==> k.stepped(now, pongs).1 == Due::Dead,
        now < judge ==> k.stepped(now, pongs).1 != Due::Dead && k.stepped(now, pongs).0.judge_at
            == Some((judge, pongs)),
        k.deadline() is Some && k.deadline()->0 <= judge,
{
}

/// A connection after it was looked at at several times, with no pong in between.
pub open spec fn looked(k: Keepalive, times: Seq<u64>, pongs: u64) -> Keepalive
    decreases times.len(),
{
    if times.len() == 0 {
        k
    } else {
        looked(k, times.drop_last(), pongs).stepped(times.last(), pongs).0
    }
}

/// A peer that dies just after it answered is found dead an interval and a timeout later at the
/// latest: it is pinged when the interval is over, and however often the connection is looked at
/// after that, it is due by the time the ping is judged, and dead then.
pub proof fn silence_lasts_an_interval_and_a_timeout(
    k: Keepalive,
    answered: u64,
    times: Seq<u64>,
    pongs: u64,
)
    requires
        k.next_ping == Some(after(answered, k.interval)),
        k.judge_at is None,
        k.timeout > 0,
        forall|i: int|
            0 <= i < times.len() ==> (#[trigger] times[i]) < after(
                after(answered, k.interval),
                k.timeout,
            ),
    ensures
        ({
            let ping = after(answered, k.interval);
            let end = after(ping, k.timeout);
            let silent = looked(k.stepped(ping, pongs).0, times, pongs);
            &&& k.stepped(ping, pongs).1 == Due::Ping
            &&& silent.deadline() is Some
            &&& silent.deadline()->0 <= end
            &&& silent.stepped(end, pongs).1 == Due::Dead
        }),
{
    let ping = after(answered, k.interval);
    judgment_stands(k.stepped(ping, pongs).0, times, after(ping, k.timeout), pongs);
}

proof fn judgment_stands(k: Keepalive, times: Seq<u64>, judge: u64, pongs: u64)
    requires
        k.judge_at == Some((judge, pongs)),
        forall|i: int| 0 <= i < times.len() ==> (#[trigger] times[i]) < judge,
    ensures
        looked(k, times, pongs).judge_at == Some((judge, pongs)),
    decreases times.len(),
{
    if times.len() > 0 {
        judgment_stands(k, times.drop_last(), judge, pongs);
    }
}

/// A peer that answers is never found dead: a pong since the ping clears it.
pub proof fn an_answer_clears_a_ping(k: Keepalive, now: u64, pongs: u64)
    requires
        k.judge_at matches Some((_, seen)) ==> pongs != seen,
    ensures
        k.stepped(now, pongs).1 != Due::Dead,
{
}

/// Without a timeout no connection is dropped, and without an interval none is pinged.
pub proof fn zero_turns_it_off(k: Keepalive, now: u64, pongs: u64)
    requires
        k.judge_at is None,
    ensures
        k.timeout == 0 ==> k.stepped(now, pongs).0.judge_at is None && k.stepped(now, pongs).1
            != Due::Dead,
        k.next_ping is None ==> k.deadline() is None && k.stepped(now, pongs) == (k, Due::Nothing),
{
}

/// What is done with a connection, by its first byte.
#[derive(Debug, Clone, Copy, PartialEq, Eq, Structural)]
pub enum Scheme {
    /// Serve it over TLS.
    Tls,
    /// It wants TLS and there is no certificate: refuse the handshake.
    NoTls,
    /// It is not encrypted and has to be.
    RefusePlaintext,
    /// Serve it as it is.
    Plain,
}

/// What is done with a connection that begins with a byte, or was closed before it sent one.
pub fn scheme(first: Option<u8>, certificate: bool, allow_plaintext: bool) -> (r: Scheme)
    ensures
        r == match (first == Some(CLIENT_HELLO), certificate) {
            (true, true) => Scheme::Tls,
            (true, false) => Scheme::NoTls,
            (false, true) => if allow_plaintext {
                Scheme::Plain
            } else {
                Scheme::RefusePlaintext
            },
            (false, false) => Scheme::Plain,
        },
{
    let client_hello: bool = match first {
        Some(b) => b == CLIENT_HELLO,
        None => false,
    };
    if client_hello {
        if certificate {
            Scheme::Tls
        } else {
            Scheme::NoTls
        }
    } else if certificate && !allow_plaintext {
        Scheme::RefusePlaintext
    } else {
        Scheme::Plain
    }
}

/// What a request that is not encrypted is told when it has to be.
pub const UPGRADE_TO_TLS: &'static str =
    "HTTP/1.1 426 Upgrade Required\r\n\
     Upgrade: TLS/1.3, HTTP/1.1\r\n\
     Connection: close\r\n\
     Content-Length: 0\r\n\r\n";

/// What a connection that is not encrypted is told when it has to be. A client that asks for the
/// game is told nothing: it takes a reply that it cannot read as a reason to try again encrypted,
/// and one that it can read as a refusal.
pub fn refuse_plaintext(upgrade: bool) -> (r: Option<&'static str>)
    ensures
        r == if upgrade {
            None
        } else {
            Some(UPGRADE_TO_TLS)
        },
{
    if upgrade {
        None
    } else {
        Some(UPGRADE_TO_TLS)
    }
}

/// What to do with the head of a request so far.
#[derive(Debug, Clone, Copy, PartialEq, Eq, Structural)]
pub enum Head {
    Complete,
    TooLong,
    ReadMore,
}

/// What to do with the head of a request of a length so far.
pub fn read_head(complete: bool, len: usize, max: usize) -> (r: Head)
    ensures
        r == if complete {
            Head::Complete
        } else if len > max {
            Head::TooLong
        } else {
            Head::ReadMore
        },
{
    if complete {
        Head::Complete
    } else if len > max {
        Head::TooLong
    } else {
        Head::ReadMore
    }
}

/// What came in on a connection.
#[derive(Debug, Clone, PartialEq, Eq)]
pub enum Event {
    /// A text that spells packets.
    Packets,
    /// A text that does not.
    Undecodable,
    Binary,
    Ping,
    Pong,
    /// A close, with the code and the reason that it gave.
    Close(Option<(u16, String)>),
}

/// What is done about it.
#[derive(Debug, Clone, PartialEq, Eq)]
pub enum Reaction {
    /// Hand the packets to the room.
    Forward,
    /// Tell the room that the client speaks nonsense.
    Report,
    Ignore,
    /// Answer with the same payload.
    Pong,
    /// Count the answer.
    CountPong,
    /// Close with this code and reason.
    Echo(u16, String),
}

/// The model of a [`Reaction`].
pub enum Answered {
    Forward,
    Report,
    Ignore,
    Pong,
    CountPong,
    Echo(u16, Seq<char>),
}

impl View for Reaction {
    type V = Answered;

    open spec fn view(&self) -> Answered {
        match self {
            Reaction::Forward => Answered::Forward,
            Reaction::Report => Answered::Report,
            Reaction::Ignore => Answered::Ignore,
            Reaction::Pong => Answered::Pong,
            Reaction::CountPong => Answered::CountPong,
            Reaction::Echo(code, reason) => Answered::Echo(*code, reason@),
        }
    }
}

/// The code and the reason of a close.
pub open spec fn close_of(frame: Option<(u16, String)>) -> (u16, Seq<char>) {
    match frame {
        Some((code, reason)) => (code, reason@),
        None => (CLOSE_NORMAL, Seq::empty()),
    }
}

/// Why a connection has ended, if it has.
pub open spec fn end_of(event: Event, room_gone: bool) -> Option<Seq<char>> {
    match event {
        Event::Packets => if room_gone {
            Some("room stopped"@)
        } else {
            None
        },
        Event::Undecodable => Some("undecodable frame"@),
        Event::Close(frame) => Some("peer closed ("@ + dec(close_of(frame).0 as nat) + ")"@),
        _ => None,
    }
}

/// What is done about what came in. A close is answered with its own code.
pub fn handle_event(event: &Event) -> (r: Reaction)
    ensures
        r@ == match *event {
            Event::Packets => Answered::Forward,
            Event::Undecodable => Answered::Report,
            Event::Binary => Answered::Ignore,
            Event::Ping => Answered::Pong,
            Event::Pong => Answered::CountPong,
            Event::Close(frame) => Answered::Echo(close_of(frame).0, close_of(frame).1),
        },
{
    match event {
        Event::Packets => Reaction::Forward,
        Event::Undecodable => Reaction::Report,
        Event::Binary => Reaction::Ignore,
        Event::Ping => Reaction::Pong,
        Event::Pong => Reaction::CountPong,
        Event::Close(frame) => match frame {
            Some((code, reason)) => Reaction::Echo(*code, reason.clone()),
            None => Reaction::Echo(CLOSE_NORMAL, String::new()),
        },
    }
}

/// Why a connection has ended, if it has, given whether the room took what was handed to it.
pub fn ended(event: &Event, room_gone: bool) -> (r: Option<String>)
    ensures
        r.deep_view() == end_of(*event, room_gone),
{
    match event {
        Event::Packets => if room_gone {
            Some("room stopped".to_string())
        } else {
            None
        },
        Event::Undecodable => Some("undecodable frame".to_string()),
        Event::Close(frame) => {
            let code: u16 = match frame {
                Some((code, _)) => *code,
                None => CLOSE_NORMAL,
            };
            let mut s = "peer closed (".to_string();
            push_decimal(&mut s, code as u64);
            s.append(")");
            Some(s)
        },
        _ => None,
    }
}

/// A connection is pinged an interval after it came, and a ping is judged a timeout after it was
/// sent, neither sooner nor later, as far as the clock goes.
pub proof fn pings_keep_their_time(interval: u64, timeout: u64, now: u64, k: Keepalive, t: u64, pongs: u64)
    requires
        call_ensures(Keepalive::new, (interval, timeout, now), k),
        interval > 0,
        timeout > 0,
        now + interval <= u64::MAX,
        t + timeout <= u64::MAX,
    ensures
        k.deadline() == Some((now + interval) as u64),
        t < now + interval ==> k.stepped(t, pongs) == (k, Due::Nothing),
        t >= now + interval ==> k.stepped(t, pongs).1 == Due::Ping && k.stepped(
            t,
            pongs,
        ).0.judge_at == Some(((t + timeout) as u64, pongs)),
{
}

/// What is due next is the sooner of the next ping and the judgment of the one that is out.
pub proof fn the_sooner_is_due_first(k: Keepalive, ping: u64, judge: (u64, u64))
    requires
        k.next_ping == Some(ping),
        k.judge_at == Some(judge),
    ensures
        k.deadline() matches Some(d) && d <= ping && d <= judge.0 && (d == ping || d == judge.0),
{
}

/// What is encrypted is served so where there is a certificate and refused where there is none; what
/// is not is refused only where there is a certificate and plaintext is not allowed beside it.
pub proof fn plaintext_is_refused_only_beside_a_certificate(
    first: u8,
    certificate: bool,
    allow: bool,
    hello: Scheme,
    other: Scheme,
    closed: Scheme,
)
    requires
        call_ensures(scheme, (Some(0x16u8), certificate, allow), hello),
        call_ensures(scheme, (Some(first), certificate, allow), other),
        call_ensures(scheme, (None, certificate, allow), closed),
        first != 0x16,
    ensures
        hello == Scheme::Tls <==> certificate,
        hello == Scheme::NoTls <==> !certificate,
        other == Scheme::RefusePlaintext <==> certificate && !allow,
        other == Scheme::Plain <==> !certificate || allow,
        closed == other,
{
}

/// Each thing that comes in has its own reaction: packets go to the room, nonsense is reported, a
/// ping is answered, a pong is counted, a close is answered by its own code and reason, and anything
/// else is ignored.
pub proof fn each_event_has_its_reaction(
    code: u16,
    reason: String,
    a: Reaction,
    b: Reaction,
    c: Reaction,
    d: Reaction,
    e: Reaction,
    f: Reaction,
    g: Reaction,
)
    requires
        call_ensures(handle_event, (&Event::Packets,), a),
        call_ensures(handle_event, (&Event::Undecodable,), b),
        call_ensures(handle_event, (&Event::Binary,), c),
        call_ensures(handle_event, (&Event::Ping,), d),
        call_ensures(handle_event, (&Event::Pong,), e),
        call_ensures(handle_event, (&Event::Close(Some((code, reason))),), f),
        call_ensures(handle_event, (&Event::Close(None),), g),
    ensures
        a@ == Answered::Forward,
        b@ == Answered::Report,
        c@ == Answered::Ignore,
        d@ == Answered::Pong,
        e@ == Answered::CountPong,
        f@ == Answered::Echo(code, reason@),
        g@ == Answered::Echo(1000, Seq::empty()),
{
}

/// A connection goes on after packets as long as the room takes them, and after pings, pongs and
/// what is ignored; nonsense and a close end it.
pub proof fn what_ends_a_connection(code: u16, reason: String, gone: bool)
    ensures
        end_of(Event::Packets, false) is None,
        end_of(Event::Packets, true) is Some,
        end_of(Event::Undecodable, gone) is Some,
        end_of(Event::Close(Some((code, reason))), gone) is Some,
        end_of(Event::Close(None), gone) is Some,
        end_of(Event::Ping, gone) is None,
        end_of(Event::Pong, gone) is None,
        end_of(Event::Binary, gone) is None,
{
}

/// The head of a request is done with when it is complete, whatever its length, and is too long only
/// where it goes on past the limit.
pub proof fn a_head_is_too_long_past_its_limit(len: usize, max: usize, done: Head, open: Head)
    requires
        call_ensures(read_head, (true, len, max), done),
        call_ensures(read_head, (false, len, max), open),
    ensures
        done == Head::Complete,
        open == Head::TooLong <==> len > max,
        open == Head::ReadMore <==> len <= max,
{
}

} // verus!
