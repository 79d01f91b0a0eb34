//! The numbers that say how a room is doing.

use crate::net::budget::Ledger;
use crate::net::http::time::{padded, push_padded};
use crate::table::{bumped, count_in, entry, set_in, with_entry, wrapped, Table};
use crate::text::{
    blank_in_front, chars_of, dec, is_word, parse_unsigned, push_decimal, spaced, split_words,
    text_of, texts, trim, trim_text, unsigned_numbers_read_back, unsigned_text, words,
    words_read_back,
};
use vstd::prelude::*;

verus! {

/// A participant: team and slot.
pub type SlotKey = (u32, u32);

/// One row of the table of packets received. Without a slot, the packet came before the
/// connection had one.
#[derive(Debug, Clone, Copy, PartialEq, Eq, Hash)]
pub struct PacketKey {
    pub key: Option<SlotKey>,
    pub cmd: &'static str,
}

/// One row of the table of HTTP requests. The route is a template, never the path as sent.
#[derive(Debug, Clone, Copy, PartialEq, Eq, Hash)]
pub struct HttpKey {
    pub route: &'static str,
    pub method: &'static str,
    pub status: u16,
}

/// What was counted of one kind of HTTP request.
#[derive(Debug, Clone, Copy, PartialEq, Eq, Structural)]
pub struct Exchange {
    pub count: u64,
    pub request_bytes: u64,
    pub response_bytes: u64,
}

impl DeepView for Exchange {
    type V = Exchange;

    open spec fn deep_view(&self) -> Exchange {
        *self
    }
}

/// What was handed to the writers of one slot.
#[derive(Debug, Clone, Copy, PartialEq, Eq, Structural)]
pub struct Delivered {
    pub frames: u64,
    pub bytes: u64,
}

impl DeepView for Delivered {
    type V = Delivered;

    open spec fn deep_view(&self) -> Delivered {
        *self
    }
}

/// The table of packets received.
pub type Packets = Table<(Option<SlotKey>, &'static str), u64>;

/// The table of HTTP requests, by route, method and status.
pub type Requests = Table<((&'static str, &'static str), u16), Exchange>;

/// All counters of a room. Times are in seconds since the epoch; zero means never.
#[derive(Debug)]
pub struct Metrics {
    pub depth: usize,
    pub peak: usize,
    pub lagged: u64,
    pub save_micros: u64,
    pub save_bytes: u64,
    pub save_at: u64,
    pub message_at: u64,
    pub received: Packets,
    pub read: Table<Option<SlotKey>, u64>,
    pub produced: Table<String, u64>,
    pub delivered: Table<Option<SlotKey>, Delivered>,
    pub deflating: Table<(SlotKey, bool), u64>,
    pub requests: Requests,
    pub malformed: u64,
    pub unauthorized: u64,
    pub limited: u64,
    pub overflowed: u64,
    pub swept: u64,
}

/// The model of a room's counters.
#[verifier::ext_equal]
pub struct Counters {
    pub depth: usize,
    pub peak: usize,
    pub lagged: u64,
    pub save_micros: u64,
    pub save_bytes: u64,
    pub save_at: u64,
    pub message_at: u64,
    pub received: Seq<((Option<SlotKey>, Seq<char>), u64)>,
    pub read: Seq<(Option<SlotKey>, u64)>,
    pub produced: Seq<(Seq<char>, u64)>,
    pub delivered: Seq<(Option<SlotKey>, Delivered)>,
    pub deflating: Seq<((SlotKey, bool), u64)>,
    pub requests: Seq<(((Seq<char>, Seq<char>), u16), Exchange)>,
    pub malformed: u64,
    pub unauthorized: u64,
    pub limited: u64,
    pub overflowed: u64,
    pub swept: u64,
}

impl View for Metrics {
    type V = Counters;

    open spec fn view(&self) -> Counters {
        Counters {
            depth: self.depth,
            peak: self.peak,
            lagged: self.lagged,
            save_micros: self.save_micros,
            save_bytes: self.save_bytes,
            save_at: self.save_at,
            message_at: self.message_at,
            received: self.received.deep_view(),
            read: self.read.deep_view(),
            produced: self.produced.deep_view(),
            delivered: self.delivered.deep_view(),
            deflating: self.deflating.deep_view(),
            requests: self.requests.deep_view(),
            malformed: self.malformed,
            unauthorized: self.unauthorized,
            limited: self.limited,
            overflowed: self.overflowed,
            swept: self.swept,
        }
    }
}

impl Metrics {
    pub fn new() -> (r: Metrics)
        ensures
            r@ == (Counters {
                depth: 0,
                peak: 0,
                lagged: 0,
                save_micros: 0,
                save_bytes: 0,
                save_at: 0,
                message_at: 0,
                received: Seq::empty(),
                read: Seq::empty(),
                produced: Seq::empty(),
                delivered: Seq::empty(),
                deflating: Seq::empty(),
                requests: Seq::empty(),
                malformed: 0,
                unauthorized: 0,
                limited: 0,
                overflowed: 0,
                swept: 0,
            }),
    {
        Metrics {
            depth: 0,
            peak: 0,
            lagged: 0,
            save_micros: 0,
            save_bytes: 0,
            save_at: 0,
            message_at: 0,
            received: Table::new(),
            read: Table::new(),
            produced: Table::new(),
            delivered: Table::new(),
            deflating: Table::new(),
            requests: Table::new(),
            malformed: 0,
            unauthorized: 0,
            limited: 0,
            overflowed: 0,
            swept: 0,
        }
    }
}

/// Notes how many messages wait for the room.
pub fn record_mailbox_depth(m: &mut Metrics, depth: usize)
    ensures
        final(m)@ == (Counters {
            depth,
            peak: if depth > old(m)@.peak {
                depth
            } else {
                old(m)@.peak
            },
            ..old(m)@
        }),
        final(m)@.peak >= depth,
        final(m)@.peak >= old(m)@.peak,
{
    m.depth = depth;
    if depth > m.peak {
        m.peak = depth;
    }
}

pub fn mailbox_depth(m: &Metrics) -> (r: usize)
    ensures
        r == m@.depth,
{
    m.depth
}

/// The most messages that ever waited.
pub fn mailbox_peak(m: &Metrics) -> (r: usize)
    ensures
        r == m@.peak,
{
    m.peak
}

pub fn record_lag_disconnect(m: &mut Metrics)
    ensures
        final(m)@ == (Counters { lagged: wrapped(old(m)@.lagged, 1), ..old(m)@ }),
{
    m.lagged = m.lagged.wrapping_add(1);
}

pub fn lag_disconnects(m: &Metrics) -> (r: u64)
    ensures
        r == m@.lagged,
{
    m.lagged
}

/// Notes a completed save.
pub fn record_save(m: &mut Metrics, micros: u64, bytes: usize, now: u64)
    ensures
        final(m)@ == (Counters {
            save_micros: micros,
            save_bytes: bytes as u64,
            save_at: now,
            ..old(m)@
        }),
{
    m.save_micros = micros;
    m.save_bytes = bytes as u64;
    m.save_at = now;
}

/// Microseconds and bytes of the last save.
pub fn last_save(m: &Metrics) -> (r: (u64, u64))
    ensures
        r == (m@.save_micros, m@.save_bytes),
{
    (m.save_micros, m.save_bytes)
}

/// A time, where zero means never.
pub open spec fn time_or_never(at: u64) -> Option<u64> {
    if at == 0 {
        None
    } else {
        Some(at)
    }
}

/// When the last save completed.
pub fn last_save_at(m: &Metrics) -> (r: Option<u64>)
    ensures
        r == time_or_never(m@.save_at),
{
    if m.save_at == 0 {
        None
    } else {
        Some(m.save_at)
    }
}

/// Notes that a client said something.
pub fn record_client_message(m: &mut Metrics, now: u64)
    ensures
        final(m)@ == (Counters { message_at: now, ..old(m)@ }),
{
    m.message_at = now;
}

/// When a client last said something.
pub fn last_client_message_at(m: &Metrics) -> (r: Option<u64>)
    ensures
        r == time_or_never(m@.message_at),
{
    if m.message_at == 0 {
        None
    } else {
        Some(m.message_at)
    }
}

/// Counts one packet from a client.
pub fn record_packet(m: &mut Metrics, slot: Option<SlotKey>, cmd: &'static str)
    ensures
        final(m)@ == (Counters {
            received: bumped::<(Option<SlotKey>, &'static str)>(
                old(m)@.received,
                (slot.deep_view(), cmd@),
                1,
            ),
            ..old(m)@
        }),
{
    count_in(&mut m.received, (slot, cmd), 1);
}

/// Every slot and command seen, in order, with its count.
pub fn packets(m: &Metrics) -> (r: Vec<(PacketKey, u64)>)
    ensures
        r@.len() == m@.received.len(),
        forall|i: int|
            0 <= i < r@.len() ==> (#[trigger] r@[i]).0.key == m@.received[i].0.0 && r@[i].0.cmd@
                == m@.received[i].0.1 && r@[i].1 == m@.received[i].1,
{
    let ghost s = m.received.deep_view();
    let n: usize = m.received.len();
    let mut out: Vec<(PacketKey, u64)> = Vec::new();
    for i in 0..n
        invariant
            s == m.received.deep_view(),
            n == s.len(),
            out@.len() == i,
            forall|j: int|
                0 <= j < i ==> (#[trigger] out@[j]).0.key == s[j].0.0 && out@[j].0.cmd@ == s[j].0.1
                    && out@[j].1 == s[j].1,
    {
        let k = m.received.key_at(i);
        assert(k.0.deep_view() == k.0);
        out.push((PacketKey { key: k.0, cmd: k.1 }, *m.received.value_at(i)));
    }
    out
}

/// Counts the bytes of one message from a client.
pub fn record_bytes_in(m: &mut Metrics, slot: Option<SlotKey>, bytes: usize)
    ensures
        final(m)@ == (Counters {
            read: bumped::<Option<SlotKey>>(old(m)@.read, slot.deep_view(), bytes as u64),
            ..old(m)@
        }),
{
    count_in(&mut m.read, slot, bytes as u64);
}

/// The bytes that each slot has sent.
pub fn bytes_in(m: &Metrics) -> (r: &Table<Option<SlotKey>, u64>)
    ensures
        r.deep_view() == m@.read,
{
    &m.read
}

/// Counts one packet that the room emits.
pub fn record_packet_out(m: &mut Metrics, cmd: &str)
    ensures
        final(m)@ == (Counters { produced: bumped::<String>(old(m)@.produced, cmd@, 1), ..old(m)@ }),
{
    count_in(&mut m.produced, cmd.to_owned(), 1);
}

/// Every command that the room has emitted, with its count.
pub fn packets_out(m: &Metrics) -> (r: &Table<String, u64>)
    ensures
        r.deep_view() == m@.produced,
{
    &m.produced
}

/// What was handed over once one frame more is.
pub open spec fn delivered_more(
    s: Seq<(Option<SlotKey>, Delivered)>,
    slot: Option<SlotKey>,
    bytes: u64,
) -> Seq<(Option<SlotKey>, Delivered)> {
    let d = match entry::<Option<SlotKey>, Delivered>(s, slot) {
        Some(d) => d,
        None => Delivered { frames: 0, bytes: 0 },
    };
    with_entry::<Option<SlotKey>, Delivered>(
        s,
        slot,
        Delivered { frames: wrapped(d.frames, 1), bytes: wrapped(d.bytes, bytes) },
    )
}

/// Counts one frame handed to a connection's writer.
pub fn record_delivery(m: &mut Metrics, slot: Option<SlotKey>, bytes: usize)
    ensures
        final(m)@ == (Counters {
            delivered: delivered_more(old(m)@.delivered, slot, bytes as u64),
            ..old(m)@
        }),
{
    assert(slot.deep_view() == slot);
    let d: Delivered = match m.delivered.get(&slot) {
        Some(d) => *d,
        None => Delivered { frames: 0, bytes: 0 },
    };
    let next = Delivered {
        frames: d.frames.wrapping_add(1),
        bytes: d.bytes.wrapping_add(bytes as u64),
    };
    set_in(&mut m.delivered, slot, next);
}

/// What each slot's writers were handed.
pub fn deliveries(m: &Metrics) -> (r: &Table<Option<SlotKey>, Delivered>)
    ensures
        r.deep_view() == m@.delivered,
{
    &m.delivered
}

/// Counts one connection that reached a slot, and whether it compresses.
pub fn record_client_deflate(m: &mut Metrics, key: SlotKey, deflate: bool)
    ensures
        final(m)@ == (Counters {
            deflating: bumped::<(SlotKey, bool)>(old(m)@.deflating, (key, deflate), 1),
            ..old(m)@
        }),
{
    count_in(&mut m.deflating, (key, deflate), 1);
}

/// How many connections reached each slot, by whether they compress.
pub fn client_deflate(m: &Metrics) -> (r: &Table<(SlotKey, bool), u64>)
    ensures
        r.deep_view() == m@.deflating,
{
    &m.deflating
}

/// The label of a method: its name, or one label for all that are not known.
pub open spec fn method_label(method: Seq<char>) -> Seq<char> {
    if method == "GET"@ || method == "POST"@ || method == "PUT"@ || method == "PATCH"@ || method
        == "DELETE"@ || method == "HEAD"@ || method == "OPTIONS"@ {
        method
    } else {
        "other"@
    }
}

/// The label of a method. Verbs that are made up share one.
pub fn known_method(method: &str) -> (r: &'static str)
    ensures
        r@ == method_label(method@),
{
    if *method == *"GET" {
        "GET"
    } else if *method == *"POST" {
        "POST"
    } else if *method == *"PUT" {
        "PUT"
    } else if *method == *"PATCH" {
        "PATCH"
    } else if *method == *"DELETE" {
        "DELETE"
    } else if *method == *"HEAD" {
        "HEAD"
    } else if *method == *"OPTIONS" {
        "OPTIONS"
    } else {
        "other"
    }
}

/// What was counted once one request more is.
pub open spec fn requests_more(
    s: Seq<(((Seq<char>, Seq<char>), u16), Exchange)>,
    key: ((Seq<char>, Seq<char>), u16),
    request_bytes: u64,
    response_bytes: u64,
) -> Seq<(((Seq<char>, Seq<char>), u16), Exchange)> {
    let e = match entry::<((&'static str, &'static str), u16), Exchange>(s, key) {
        Some(e) => e,
        None => Exchange { count: 0, request_bytes: 0, response_bytes: 0 },
    };
    with_entry::<((&'static str, &'static str), u16), Exchange>(
        s,
        key,
        Exchange {
            count: wrapped(e.count, 1),
            request_bytes: wrapped(e.request_bytes, request_bytes),
            response_bytes: wrapped(e.response_bytes, response_bytes),
        },
    )
}

/// Counts one HTTP request and its answer.
pub fn record_http(
    m: &mut Metrics,
    route: &'static str,
    method: &str,
    status: u16,
    request_bytes: usize,
    response_bytes: usize,
)
    ensures
        final(m)@ == (Counters {
            requests: requests_more(
                old(m)@.requests,
                ((route@, method_label(method@)), status),
                request_bytes as u64,
                response_bytes as u64,
            ),
            ..old(m)@
        }),
{
    let key: ((&'static str, &'static str), u16) = ((route, known_method(method)), status);
    let e: Exchange = match m.requests.get(&key) {
        Some(e) => *e,
        None => Exchange { count: 0, request_bytes: 0, response_bytes: 0 },
    };
    let next = Exchange {
        count: e.count.wrapping_add(1),
        request_bytes: e.request_bytes.wrapping_add(request_bytes as u64),
        response_bytes: e.response_bytes.wrapping_add(response_bytes as u64),
    };
    set_in(&mut m.requests, key, next);
}

/// Every route, method and status seen, in order, with its count and bytes.
pub fn http(m: &Metrics) -> (r: Vec<(HttpKey, u64, u64, u64)>)
    ensures
        r@.len() == m@.requests.len(),
        forall|i: int|
            0 <= i < r@.len() ==> {
                let (k, e) = m@.requests[i];
                (#[trigger] r@[i]).0.route@ == k.0.0 && r@[i].0.method@ == k.0.1 && r@[i].0.status
                    == k.1 && r@[i].1 == e.count && r@[i].2 == e.request_bytes && r@[i].3
                    == e.response_bytes
            },
{
    let ghost s = m.requests.deep_view();
    let n: usize = m.requests.len();
    let mut out: Vec<(HttpKey, u64, u64, u64)> = Vec::new();
    for i in 0..n
        invariant
            s == m.requests.deep_view(),
            n == s.len(),
            out@.len() == i,
            forall|j: int|
                0 <= j < i ==> {
                    let (k, e) = s[j];
                    (#[trigger] out@[j]).0.route@ == k.0.0 && out@[j].0.method@ == k.0.1
                        && out@[j].0.status == k.1 && out@[j].1 == e.count && out@[j].2
                        == e.request_bytes && out@[j].3 == e.response_bytes
                },
    {
        let k = m.requests.key_at(i);
        let e = m.requests.value_at(i);
        out.push(
            (
                HttpKey { route: k.0.0, method: k.0.1, status: k.1 },
                e.count,
                e.request_bytes,
                e.response_bytes,
            ),
        );
    }
    out
}

/// Counts a frame that a shard's inbox had no room for.
pub fn record_shard_overflow(m: &mut Metrics)
    ensures
        final(m)@ == (Counters { overflowed: wrapped(old(m)@.overflowed, 1), ..old(m)@ }),
{
    m.overflowed = m.overflowed.wrapping_add(1);
}

/// Counts the connections of one shard having been closed together.
pub fn record_shard_sweep(m: &mut Metrics)
    ensures
        final(m)@ == (Counters { swept: wrapped(old(m)@.swept, 1), ..old(m)@ }),
{
    m.swept = m.swept.wrapping_add(1);
}

/// How often the connections of a shard were closed together.
pub fn shard_sweeps(m: &Metrics) -> (r: u64)
    ensures
        r == m@.swept,
{
    m.swept
}

pub fn shard_overflow(m: &Metrics) -> (r: u64)
    ensures
        r == m@.overflowed,
{
    m.overflowed
}

/// Counts a request that never parsed.
pub fn record_http_malformed(m: &mut Metrics)
    ensures
        final(m)@ == (Counters { malformed: wrapped(old(m)@.malformed, 1), ..old(m)@ }),
{
    m.malformed = m.malformed.wrapping_add(1);
}

/// Counts a wrong or missing admin token.
pub fn record_auth_failure(m: &mut Metrics)
    ensures
        final(m)@ == (Counters { unauthorized: wrapped(old(m)@.unauthorized, 1), ..old(m)@ }),
{
    m.unauthorized = m.unauthorized.wrapping_add(1);
}

/// Counts a request refused because its source had failed too often.
pub fn record_auth_rate_limited(m: &mut Metrics)
    ensures
        final(m)@ == (Counters { limited: wrapped(old(m)@.limited, 1), ..old(m)@ }),
{
    m.limited = m.limited.wrapping_add(1);
}

pub fn http_malformed(m: &Metrics) -> (r: u64)
    ensures
        r == m@.malformed,
{
    m.malformed
}

pub fn auth_failures(m: &Metrics) -> (r: u64)
    ensures
        r == m@.unauthorized,
{
    m.unauthorized
}

pub fn auth_rate_limited(m: &Metrics) -> (r: u64)
    ensures
        r == m@.limited,
{
    m.limited
}

/// The resident set size in bytes that the memory statistics of a process say: the second number
/// is in pages of 4096 bytes.
pub open spec fn resident_of(statm: Seq<char>) -> Option<int> {
    let w = words(statm);
    if w.len() < 2 {
        None
    } else {
        match unsigned_text(w[1]) {
            Some(pages) => if pages * 4096 > u64::MAX {
                None
            } else {
                Some(pages * 4096)
            },
            None => None,
        }
    }
}

/// The resident set size in bytes, from the contents of a process's memory statistics.
pub fn resident_bytes(statm: &str) -> (r: Option<u64>)
    ensures
        match resident_of(statm@) {
            Some(n) => r is Some && r->0 == n,
            None => r is None,
        },
{
    let w = split_words(statm);
    if w.len() < 2 {
        return None;
    }
    assert(texts(w@)[1] == w@[1]@);
    match parse_unsigned(w[1].as_str()) {
        Some(pages) => pages.checked_mul(4096),
        None => None,
    }
}

/// The last place before `n` at which a closing bracket stands.
pub open spec fn last_bracket(s: Seq<char>, n: int) -> Option<int>
    decreases n,
{
    if n <= 0 {
        None
    } else if s[n - 1] == ')' {
        Some(n - 1)
    } else {
        last_bracket(s, n - 1)
    }
}

/// The fields of a process's status line from the third on: the words behind the command's name,
/// which stands in brackets and may hold any character.
pub open spec fn stat_fields(s: Seq<char>) -> Option<Seq<Seq<char>>> {
    match last_bracket(s, s.len() as int) {
        None => None,
        Some(k) => Some(words(s.subrange(k + 1, s.len() as int))),
    }
}

/// The fields of a process's status line from the third on.
pub fn proc_stat_fields(stat: &str) -> (r: Option<Vec<String>>)
    ensures
        match stat_fields(stat@) {
            Some(f) => r matches Some(v) && texts(v@) == f,
            None => r is None,
        },
{
    let v = chars_of(stat);
    let n: usize = v.len();
    let mut i: usize = n;
    while i > 0
        invariant
            v@ == stat@,
            n == v@.len(),
            i <= n,
            last_bracket(stat@, n as int) == last_bracket(stat@, i as int),
        decreases i,
    {
        if v[i - 1] == ')' {
            let rest = text_of(&v, i, n);
            return Some(split_words(rest.as_str()));
        }
        i -= 1;
    }
    None
}

/// The number in a field of a process's status line, counted as the line's documentation counts.
pub open spec fn stat_number(s: Seq<char>, field: int) -> Option<int> {
    match stat_fields(s) {
        Some(f) => if 0 <= field - 3 < f.len() {
            unsigned_text(f[field - 3])
        } else {
            None
        },
        None => None,
    }
}

fn field_number(stat: &str, field: usize) -> (r: Option<u64>)
    requires
        field >= 3,
    ensures
        match stat_number(stat@, field as int) {
            Some(n) => r is Some && r->0 == n,
            None => r is None,
        },
{
    match proc_stat_fields(stat) {
        Some(f) => {
            if field - 3 < f.len() {
                assert(texts(f@)[field - 3] == f@[field - 3]@);
                parse_unsigned(f[field - 3].as_str())
            } else {
                None
            }
        },
        None => None,
    }
}

/// Processor time in hundredths of a second: user and system time.
pub open spec fn cpu_of(stat: Seq<char>) -> Option<int> {
    match (stat_number(stat, 14), stat_number(stat, 15)) {
        (Some(u), Some(s)) => if u + s > u64::MAX {
            None
        } else {
            Some(u + s)
        },
        _ => None,
    }
}

/// The processor time that the process has used, in hundredths of a second, from its status
/// line.
pub fn cpu_hundredths(stat: &str) -> (r: Option<u64>)
    ensures
        match cpu_of(stat@) {
            Some(n) => r is Some && r->0 == n,
            None => r is None,
        },
{
    match (field_number(stat, 14), field_number(stat, 15)) {
        (Some(u), Some(s)) => u.checked_add(s),
        _ => None,
    }
}

/// The end of the line that starts at `i`.
pub open spec fn line_end(s: Seq<char>, i: int) -> int
    decreases s.len() - i,
{
    if i >= s.len() || s[i] == '\n' {
        i
    } else {
        line_end(s, i + 1)
    }
}

/// The boot time that one line gives.
pub open spec fn boot_line(line: Seq<char>) -> Option<int> {
    if line.len() >= 6 && line.subrange(0, 6) == "btime "@ {
        unsigned_text(trim_text(line.subrange(6, line.len() as int)))
    } else {
        None
    }
}

/// The boot time that the first line from `i` on gives.
pub open spec fn boot_from(s: Seq<char>, i: int) -> Option<int>
    decreases s.len() - i,
{
    if i >= s.len() {
        None
    } else {
        let e = line_end(s, i);
        match boot_line(s.subrange(i, e)) {
            Some(n) => Some(n),
            None => if !(i <= e < s.len()) {
                None
            } else {
                boot_from(s, e + 1)
            },
        }
    }
}

/// When the machine was booted, in seconds since the epoch, from the contents of the kernel's
/// statistics.
pub fn boot_seconds(text: &str) -> (r: Option<u64>)
    ensures
        match boot_from(text@, 0) {
            Some(n) => r is Some && r->0 == n,
            None => r is None,
        },
{
    let v = chars_of(text);
    let n: usize = v.len();
    let mut i: usize = 0;
    while i < n
        invariant
            v@ == text@,
            n == v@.len(),
            i <= n,
            boot_from(text@, 0) == boot_from(text@, i as int),
        decreases n - i,
    {
        let mut e: usize = i;
        while e < n && v[e] != '\n'
            invariant
                v@ == text@,
                n == v@.len(),
                i <= e <= n,
                line_end(text@, i as int) == line_end(text@, e as int),
            decreases n - e,
        {
            e += 1;
        }
        let ghost line = text@.subrange(i as int, e as int);
        if e - i >= 6 {
            assert(line.subrange(0, 6) =~= text@.subrange(i as int, i + 6));
            assert(line.subrange(6, line.len() as int) =~= text@.subrange(i + 6, e as int));
            let head = text_of(&v, i, i + 6);
            if *head.as_str() == *"btime " {
                let rest = text_of(&v, i + 6, e);
                let number = trim(rest.as_str());
                if let Some(boot) = parse_unsigned(number.as_str()) {
                    return Some(boot);
                }
            }
        }
        assert(boot_line(line) is None);
        if e >= n {
            return None;
        }
        i = e + 1;
    }
    None
}

/// When the process started, in hundredths of a second since the epoch: its start in ticks since
/// boot, and the time of boot in seconds.
pub open spec fn start_of(stat: Seq<char>, boot: Option<u64>) -> Option<int> {
    match (stat_number(stat, 22), boot) {
        (Some(t), Some(b)) => if b * 100 + t > u64::MAX {
            None
        } else {
            Some(b * 100 + t)
        },
        _ => None,
    }
}

/// When the process started, in hundredths of a second since the epoch.
pub fn start_hundredths(stat: &str, boot: Option<u64>) -> (r: Option<u64>)
    ensures
        match start_of(stat@, boot) {
            Some(n) => r is Some && r->0 == n,
            None => r is None,
        },
{
    match (field_number(stat, 22), boot) {
        (Some(t), Some(b)) => match b.checked_mul(100) {
            Some(x) => x.checked_add(t),
            None => None,
        },
        _ => None,
    }
}

/// The decimals of a fraction of so many places, behind a point and without zeros at the end;
/// nothing where it is zero.
pub open spec fn decimals(n: nat, places: nat) -> Seq<char>
    decreases n,
{
    if n == 0 {
        Seq::empty()
    } else if n % 10 == 0 {
        decimals(n / 10, (places - 1) as nat)
    } else {
        "."@ + padded(n as int, places)
    }
}

/// A time in microseconds, in the greatest unit of which it holds one.
pub open spec fn duration_shown(micros: u64) -> Seq<char> {
    if micros >= 1_000_000 {
        dec((micros / 1_000_000) as nat) + decimals((micros % 1_000_000) as nat, 6) + "s"@
    } else if micros >= 1_000 {
        dec((micros / 1_000) as nat) + decimals((micros % 1_000) as nat, 3) + "ms"@
    } else if micros > 0 {
        dec(micros as nat) + "µs"@
    } else {
        "0ns"@
    }
}

fn push_decimals(out: &mut String, n: u64, places: usize)
    requires
        n == 0 || (places == 6 && n < 1_000_000) || (places == 3 && n < 1_000),
    ensures
        final(out)@ == old(out)@ + decimals(n as nat, places as nat),
{
    if n == 0 {
        assert(out@ =~= old(out)@ + decimals(0, places as nat));
        return;
    }
    let mut rest: u64 = n;
    let mut width: usize = places;
    while rest % 10 == 0
        invariant
            0 < rest < 1_000_000,
            1 <= width <= 6,
            width == 1 ==> rest < 10,
            width == 2 ==> rest < 100,
            width == 3 ==> rest < 1_000,
            width == 4 ==> rest < 10_000,
            width == 5 ==> rest < 100_000,
            decimals(n as nat, places as nat) == decimals(rest as nat, width as nat),
        decreases rest,
    {
        rest = rest / 10;
        width -= 1;
    }
    out.append(".");
    push_padded(out, rest as i64, width);
    assert(out@ =~= old(out)@ + decimals(n as nat, places as nat));
}

/// A time in microseconds, in the greatest unit of which it holds one.
pub fn duration_text(micros: u64) -> (r: String)
    ensures
        r@ == duration_shown(micros),
{
    let mut s = String::new();
    if micros >= 1_000_000 {
        push_decimal(&mut s, micros / 1_000_000);
        push_decimals(&mut s, micros % 1_000_000, 6);
        s.append("s");
    } else if micros >= 1_000 {
        push_decimal(&mut s, micros / 1_000);
        push_decimals(&mut s, micros % 1_000, 3);
        s.append("ms");
    } else if micros > 0 {
        push_decimal(&mut s, micros);
        s.append("µs");
    } else {
        s.append("0ns");
    }
    assert(s@ =~= duration_shown(micros));
    s
}

/// A one-line summary.
pub open spec fn summary_text(c: Counters, ledger: Ledger, compressions: u64, rss: Option<u64>) -> Seq<
    char,
> {
    "mailbox "@ + dec(c.depth as nat) + " (peak "@ + dec(c.peak as nat) + "), outbound "@ + dec(
        (ledger.queued / 1024) as nat,
    ) + " KiB (peak "@ + dec((ledger.peak / 1024) as nat) + " KiB), lag disconnects "@ + dec(
        c.lagged as nat,
    ) + ", compressions "@ + dec(compressions as nat) + ", last save "@ + duration_shown(
        c.save_micros,
    ) + "/"@ + dec((c.save_bytes / 1024) as nat) + " KiB, rss "@ + match rss {
        Some(b) => dec((b / 1_048_576) as nat) + " MiB"@,
        None => "?"@,
    }
}

/// A one-line summary of a room, with the compressions made and the resident set size.
pub fn summary(m: &Metrics, ledger: &Ledger, compressions: u64, rss: Option<u64>) -> (r: String)
    ensures
        r@ == summary_text(m@, *ledger, compressions, rss),
{
    let mut s = "mailbox ".to_string();
    push_decimal(&mut s, m.depth as u64);
    s.append(" (peak ");
    push_decimal(&mut s, m.peak as u64);
    s.append("), outbound ");
    push_decimal(&mut s, (ledger.queued / 1024) as u64);
    s.append(" KiB (peak ");
    push_decimal(&mut s, (ledger.peak / 1024) as u64);
    s.append(" KiB), lag disconnects ");
    push_decimal(&mut s, m.lagged);
    s.append(", compressions ");
    push_decimal(&mut s, compressions);
    s.append(", last save ");
    s.append(duration_text(m.save_micros).as_str());
    s.append("/");
    push_decimal(&mut s, m.save_bytes / 1024);
    s.append(" KiB, rss ");
    match rss {
        Some(b) => {
            let ghost before = s@;
            push_decimal(&mut s, b / 1_048_576);
            s.append(" MiB");
            assert(s@ =~= before + (dec((b / 1_048_576) as nat) + " MiB"@));
        },
        None => {
            s.append("?");
        },
    }
    s
}

/// The resident set is the second number of a process's memory statistics, in pages of four
/// kilobytes.
pub proof fn the_resident_set_is_the_second_number(ws: Seq<Seq<char>>, pages: nat)
    requires
        forall|i: int| 0 <= i < ws.len() ==> is_word(#[trigger] ws[i]),
        ws.len() >= 2,
        ws[1] == dec(pages),
        pages * 4096 <= u64::MAX,
    ensures
        resident_of(spaced(ws)) == Some((pages * 4096) as int),
{
    words_read_back(ws);
    unsigned_numbers_read_back(pages);
}

/// The fields of a status line are counted from the command's name in brackets, whatever stands in
/// it: behind it the twelfth and the thirteenth add up to the processor time, and the twentieth,
/// behind the boot of the machine, is when the process started.
pub proof fn the_fields_of_a_status_line(
    name: Seq<char>,
    ws: Seq<Seq<char>>,
    user: nat,
    system: nat,
    started: nat,
    boot: u64,
)
    requires
        forall|i: int| 0 <= i < ws.len() ==> is_word(#[trigger] ws[i]),
        forall|i: int, j: int|
            0 <= i < ws.len() && 0 <= j < ws[i].len() ==> #[trigger] ws[i][j] != ')',
        ws.len() >= 20,
        ws[11] == dec(user),
        ws[12] == dec(system),
        ws[19] == dec(started),
        user + system <= u64::MAX,
        boot * 100 + started <= u64::MAX,
    ensures
        ({
            let line = name + (seq![')'] + (seq![' '] + spaced(ws)));
            &&& stat_fields(line) == Some(ws)
            &&& cpu_of(line) == Some((user + system) as int)
            &&& start_of(line, Some(boot)) == Some(boot * 100 + started)
            &&& start_of(line, None) is None
        }),
{
    let tail = seq![' '] + spaced(ws);
    let line = name + (seq![')'] + tail);
    no_bracket(ws);
    assert forall|j: int| name.len() < j < line.len() implies #[trigger] line[j] != ')' by {
        let k = j - name.len() - 1;
        assert(line[j] == tail[k]);
        if k > 0 {
            assert(tail[k] == spaced(ws)[k - 1]);
        }
    }
    bracket_at(line, line.len() as int, name.len() as int);
    assert(line.subrange(name.len() as int + 1, line.len() as int) =~= tail);
    blank_in_front(spaced(ws));
    words_read_back(ws);
    unsigned_numbers_read_back(user);
    unsigned_numbers_read_back(system);
    unsigned_numbers_read_back(started);
}

proof fn bracket_at(s: Seq<char>, n: int, k: int)
    requires
        0 <= k < n <= s.len(),
        s[k] == ')',
        forall|j: int| k < j < n ==> #[trigger] s[j] != ')',
    ensures
        last_bracket(s, n) == Some(k),
    decreases n,
{
    if n - 1 > k {
        assert(s[n - 1] != ')');
        bracket_at(s, n - 1, k);
    }
}

proof fn no_bracket(ws: Seq<Seq<char>>)
    requires
        forall|i: int, j: int|
            0 <= i < ws.len() && 0 <= j < ws[i].len() ==> #[trigger] ws[i][j] != ')',
    ensures
        forall|j: int| 0 <= j < spaced(ws).len() ==> #[trigger] spaced(ws)[j] != ')',
    decreases ws.len(),
{
    if ws.len() == 1 {
        let w = ws[0];
        assert forall|j: int| 0 <= j < spaced(ws).len() implies #[trigger] spaced(ws)[j] != ')' by {
            assert(ws[0][j] != ')');
        }
    } else if ws.len() > 1 {
        let rest = ws.drop_first();
        assert forall|i: int, j: int| 0 <= i < rest.len() && 0 <= j < rest[i].len() implies
            #[trigger] rest[i][j] != ')' by {
            assert(ws[i + 1][j] != ')');
        }
        no_bracket(rest);
        let w = ws[0];
        assert forall|j: int| 0 <= j < spaced(ws).len() implies #[trigger] spaced(ws)[j] != ')' by {
            if j < w.len() {
                assert(ws[0][j] != ')');
                assert(spaced(ws)[j] == w[j]);
            } else if j > w.len() {
                assert(spaced(ws)[j] == spaced(rest)[j - w.len() - 1]);
            }
        }
    }
}

} // verus!
