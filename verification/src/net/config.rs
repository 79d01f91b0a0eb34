//! Runtime and transport sizing.

use crate::datastore::integer::Integer;
use crate::datastore::opspec::ceil_of;
use crate::datastore::pyvalue::{
    float_finite, float_fraction, float_negative, units_of, Num, PyNum,
};
use crate::text::{
    dec, dec_reads_back, is_digit, parse_signed, parse_unsigned, signed_text, split_words, texts,
    trim, trim_text, unsigned_text, words,
};
use vstd::prelude::*;

verus! {

/// What a shard's inbox holds when nothing sizes it, and the least a derived depth is.
pub const DEFAULT_SHARD_QUEUE_DEPTH: usize = 4096;

/// The widest fan-out worth asking for.
pub const MAX_SHARDS: usize = 32;

/// The deepest inbox worth asking for.
pub const MAX_SHARD_QUEUE_DEPTH: usize = 65_536;

/// Connections that one slot is expected to bring: a game, a text client and a tracker.
pub const CONNECTIONS_PER_SLOT: usize = 3;

/// What one message in a shard's inbox is reckoned at. It is the documented figure, by which a room
/// and whoever sizes a container for it agree, and not the size of a type here.
pub const SHARD_MESSAGE_BYTES: usize = 72;

/// The share of a connection in a room whose data package is small.
pub const PER_CONNECTION_FLOOR: usize = 262_144;

/// A product that stops at the largest machine word.
pub open spec fn capped_product(a: int, b: int) -> int {
    if a * b > usize::MAX {
        usize::MAX as int
    } else {
        a * b
    }
}

/// `n / d` rounded up.
pub open spec fn ceil_div(n: int, d: int) -> int {
    if n % d == 0 {
        n / d
    } else {
        n / d + 1
    }
}

/// The nearest number to `n` within bounds.
pub open spec fn clamped(n: int, low: int, high: int) -> int {
    if n < low {
        low
    } else if n > high {
        high
    } else {
        n
    }
}

/// The larger of two numbers.
pub open spec fn larger(a: int, b: int) -> int {
    if a > b {
        a
    } else {
        b
    }
}

fn product(a: usize, b: usize) -> (r: usize)
    ensures
        r == capped_product(a as int, b as int),
{
    match a.checked_mul(b) {
        Some(p) => p,
        None => usize::MAX,
    }
}

fn rounded_up(n: usize, d: usize) -> (r: usize)
    requires
        d > 0,
    ensures
        r == ceil_div(n as int, d as int),
{
    let q: usize = n / d;
    assert(n % d != 0 ==> q < usize::MAX) by (nonlinear_arith)
        requires
            q == n / d,
            d > 0,
            n <= usize::MAX,
    ;
    if n % d == 0 {
        q
    } else {
        q + 1
    }
}

fn between(n: usize, low: usize, high: usize) -> (r: usize)
    ensures
        r == clamped(n as int, low as int, high as int),
{
    if n < low {
        low
    } else if n > high {
        high
    } else {
        n
    }
}

/// The outbound budget in bytes for a room of this many slots.
pub open spec fn outbound_budget(slots: int) -> int {
    larger(capped_product(capped_product(slots, 3), 98_304), 67_108_864)
}

/// The outbound budget for a room of this many slots: three connections each, with less than a
/// connection's own share so that the global cap binds first, and never below a floor.
pub fn outbound_budget_for(slots: usize) -> (r: usize)
    ensures
        r == outbound_budget(slots as int),
{
    let n: usize = product(product(slots, CONNECTIONS_PER_SLOT), 98_304);
    if n > 67_108_864 {
        n
    } else {
        67_108_864
    }
}

/// The share of one connection in a room whose whole data package has this many bytes: a client
/// fetches it in pieces and must be able to hold them all.
pub fn per_connection_budget_for(package: usize) -> (r: usize)
    ensures
        r == larger(package as int, PER_CONNECTION_FLOOR as int),
{
    if package > PER_CONNECTION_FLOOR {
        package
    } else {
        PER_CONNECTION_FLOOR
    }
}

/// The fan-out width for a room of this many slots.
pub open spec fn shard_count(slots: int) -> int {
    clamped(ceil_div(capped_product(slots, 3), 512), 2, MAX_SHARDS as int)
}

/// The fan-out width for a room of this many slots: enough that a dropped broadcast closes at
/// most about five hundred connections.
pub fn shards_for(slots: usize) -> (r: usize)
    ensures
        r == shard_count(slots as int),
{
    between(rounded_up(product(slots, CONNECTIONS_PER_SLOT), 512), 2, MAX_SHARDS)
}

/// The inbox depth for a room of this many slots at this width.
pub open spec fn queue_depth(slots: int, shards: int) -> int {
    clamped(
        larger(
            capped_product(ceil_div(capped_product(slots, 3), larger(shards, 1)), 8),
            capped_product(slots, 16),
        ),
        DEFAULT_SHARD_QUEUE_DEPTH as int,
        MAX_SHARD_QUEUE_DEPTH as int,
    )
}

/// The inbox depth for a room of this many slots at this width: the larger of what a reconnect
/// storm puts into one shard and of what the tail of sixteen releases puts into every shard.
pub fn shard_queue_depth_for(slots: usize, shards: usize) -> (r: usize)
    ensures
        r == queue_depth(slots as int, shards as int),
{
    let width: usize = if shards > 1 {
        shards
    } else {
        1
    };
    let storm: usize = product(rounded_up(product(slots, CONNECTIONS_PER_SLOT), width), 8);
    let tail: usize = product(slots, 16);
    let most: usize = if storm > tail {
        storm
    } else {
        tail
    };
    between(most, DEFAULT_SHARD_QUEUE_DEPTH, MAX_SHARD_QUEUE_DEPTH)
}

/// Memory that the shard inboxes are reckoned at, which the outbound budget does not count.
pub fn shard_queue_bytes(shards: usize, depth: usize) -> (r: usize)
    ensures
        r == capped_product(
            capped_product(shards as int, depth as int),
            SHARD_MESSAGE_BYTES as int,
        ),
{
    product(product(shards, depth), SHARD_MESSAGE_BYTES)
}

/// The worker count from the CPU quota, or from the host's parallelism where there is none.
pub fn detect_worker_threads(quota: Option<usize>, host: usize) -> (r: usize)
    ensures
        r == clamped(
            match quota {
                Some(q) => q as int,
                None => host as int,
            },
            2,
            32,
        ),
{
    match quota {
        Some(q) => between(q, 2, 32),
        None => between(host, 2, 32),
    }
}

/// The contents of an optional text.
pub open spec fn opt_text(s: Option<String>) -> Option<Seq<char>> {
    match s {
        Some(t) => Some(t@),
        None => None,
    }
}

/// A number of CPUs, at least one and at most what a machine word holds.
pub open spec fn cpu_count(n: int) -> usize {
    clamped(n, 1, usize::MAX as int) as usize
}

/// Whole CPUs that a double is, rounded up. What is not a number counts as one.
pub open spec fn cpus_of_double(bits: u64) -> usize {
    if float_finite(bits) {
        cpu_count(ceil_of(Num::Float(bits)))
    } else if float_fraction(bits) != 0 || float_negative(bits) {
        1
    } else {
        usize::MAX
    }
}

/// Whole CPUs that a double is, rounded up.
pub fn double_cpus(bits: u64) -> (r: usize)
    ensures
        r == cpus_of_double(bits),
{
    if (bits / 0x10_0000_0000_0000) % 2048 == 2047 {
        if bits % 0x10_0000_0000_0000 != 0 || bits >= 0x8000_0000_0000_0000 {
            return 1;
        }
        return usize::MAX;
    }
    let units = units_of(&PyNum::Float(bits));
    let minus = Integer::from_i64(-1);
    let negated = minus.times(&units);
    let floored = negated.shifted_right(1074);
    let whole = minus.times(&floored);
    assert(negated@ == -units@) by (nonlinear_arith)
        requires
            negated@ == -1 * units@,
    ;
    assert(whole@ == -floored@) by (nonlinear_arith)
        requires
            whole@ == -1 * floored@,
    ;
    if whole.is_negative() {
        return 1;
    }
    match whole.to_u64() {
        Some(n) => if n < 1 {
            1
        } else if n > usize::MAX as u64 {
            usize::MAX
        } else {
            n as usize
        },
        None => usize::MAX,
    }
}

/// The whole number that a text denotes, where a double holds every number up to it. The quotient of
/// two such numbers is less than a whole number by more than a double rounds it.
pub open spec fn exact_number(s: Seq<char>) -> Option<int> {
    match unsigned_text(s) {
        Some(n) => if n < 0x20_0000_0000_0000 {
            Some(n)
        } else {
            None
        },
        None => None,
    }
}

fn parse_exact(s: &str) -> (r: Option<u64>)
    ensures
        r is Some <==> exact_number(s@) is Some,
        r matches Some(n) ==> Some(n as int) == exact_number(s@),
{
    match parse_unsigned(s) {
        Some(n) => if n < 0x20_0000_0000_0000 {
            Some(n)
        } else {
            None
        },
        None => None,
    }
}

/// Whether this is how many CPUs a quota over a period is, rounded up and at least one. Of whole
/// numbers that a double holds exactly, it is their quotient rounded up. Of any others it is the
/// quotient of the doubles that they read as; none where they are not both numbers or the period is
/// not positive.
pub open spec fn is_share<D: Fn(&str, &str) -> Option<u64>>(
    quota: Seq<char>,
    period: Seq<char>,
    divide: D,
    r: Option<usize>,
) -> bool {
    match (exact_number(quota), exact_number(period)) {
        (Some(q), Some(p)) => r == if p > 0 {
            Some(cpu_count(ceil_div(q, p)))
        } else {
            None
        },
        _ => exists|a: &str, b: &str, said: Option<u64>|
            {
                &&& a@ == quota
                &&& b@ == period
                &&& #[trigger] divide.ensures((a, b), said)
                &&& r == match said {
                    Some(bits) => Some(cpus_of_double(bits)),
                    None => None,
                }
            },
    }
}

fn share<D: Fn(&str, &str) -> Option<u64>>(quota: &str, period: &str, divide: &D) -> (r: Option<
    usize,
>)
    requires
        forall|a: &str, b: &str| #[trigger] divide.requires((a, b)),
    ensures
        is_share(quota@, period@, *divide, r),
{
    match (parse_exact(quota), parse_exact(period)) {
        (Some(q), Some(p)) => {
            if p == 0 {
                return None;
            }
            let n: u64 = if q % p == 0 {
                q / p
            } else {
                assert(q / p <= q) by (nonlinear_arith)
                    requires
                        p > 0,
                ;
                q / p + 1
            };
            Some(
                if n < 1 {
                    1
                } else if n > usize::MAX as u64 {
                    usize::MAX
                } else {
                    n as usize
                },
            )
        },
        _ => match divide(quota, period) {
            Some(bits) => Some(double_cpus(bits)),
            None => None,
        },
    }
}

/// Whether this is what the control group's files allow. The version-two file decides where it could
/// be read: `<quota> <period>`, or `max <period>` for no quota. Else both version-one files do, and a
/// quota that is not positive is none.
pub open spec fn is_cpu_quota<D: Fn(&str, &str) -> Option<u64>>(
    v2: Option<Seq<char>>,
    v1_quota: Option<Seq<char>>,
    v1_period: Option<Seq<char>>,
    divide: D,
    r: Option<usize>,
) -> bool {
    match v2 {
        Some(s) => {
            let w = words(s);
            if w.len() < 2 || w[0] == "max"@ {
                r is None
            } else {
                is_share(w[0], w[1], divide, r)
            }
        },
        None => match (v1_quota, v1_period) {
            (Some(q), Some(p)) => match (signed_text(trim_text(q)), signed_text(trim_text(p))) {
                (Some(a), Some(b)) => if a <= 0 || b <= 0 {
                    r is None
                } else {
                    is_share(trim_text(q), trim_text(p), divide, r)
                },
                _ => r is None,
            },
            _ => r is None,
        },
    }
}

/// Whole CPUs available to this control group, rounded up, from the contents of its files as far as
/// they could be read. Two texts that are not whole numbers that a double holds exactly are divided
/// as doubles by `divide`, which gives the quotient by its bit pattern, or nothing where they are
/// not both numbers or the second is not positive.
pub fn cgroup_cpu_quota<D: Fn(&str, &str) -> Option<u64>>(
    v2: &Option<String>,
    v1_quota: &Option<String>,
    v1_period: &Option<String>,
    divide: D,
) -> (r: Option<usize>)
    requires
        forall|a: &str, b: &str| #[trigger] divide.requires((a, b)),
    ensures
        is_cpu_quota(opt_text(*v2), opt_text(*v1_quota), opt_text(*v1_period), divide, r),
{
    if let Some(s) = v2 {
        let parts = split_words(s.as_str());
        if parts.len() < 2 {
            return None;
        }
        assert(texts(parts@)[0] == parts@[0]@ && texts(parts@)[1] == parts@[1]@);
        if *parts[0].as_str() == *"max" {
            return None;
        }
        return share(parts[0].as_str(), parts[1].as_str(), &divide);
    }
    match (v1_quota, v1_period) {
        (Some(q), Some(p)) => {
            let quota = trim(q.as_str());
            let period = trim(p.as_str());
            match (parse_signed(quota.as_str()), parse_signed(period.as_str())) {
                (Some(a), Some(b)) => if a <= 0 || b <= 0 {
                    None
                } else {
                    share(quota.as_str(), period.as_str(), &divide)
                },
                _ => None,
            }
        },
        _ => None,
    }
}

/// Bytes that the control group's files allow. The version-two file decides where it could be
/// read; in the version-one file a number past a petabyte means that there is no limit.
pub open spec fn memory_limit(v2: Option<Seq<char>>, v1: Option<Seq<char>>) -> Option<int> {
    match v2 {
        Some(s) => unsigned_text(trim_text(s)),
        None => match v1 {
            Some(s) => match unsigned_text(trim_text(s)) {
                Some(n) => if n < 1_125_899_906_842_624 {
                    Some(n)
                } else {
                    None
                },
                None => None,
            },
            None => None,
        },
    }
}

/// Bytes this control group may use, if it is capped, from the contents of its files as far as
/// they could be read.
pub fn cgroup_memory_limit(v2: &Option<String>, v1: &Option<String>) -> (r: Option<u64>)
    ensures
        match memory_limit(opt_text(*v2), opt_text(*v1)) {
            Some(n) => r is Some && r->0 == n,
            None => r is None,
        },
{
    if let Some(s) = v2 {
        let t = trim(s.as_str());
        return parse_unsigned(t.as_str());
    }
    match v1 {
        Some(s) => {
            let t = trim(s.as_str());
            match parse_unsigned(t.as_str()) {
                Some(n) => if n < 1_125_899_906_842_624 {
                    Some(n)
                } else {
                    None
                },
                None => None,
            }
        },
        None => None,
    }
}

/// Where the certificate chain and its key are.
#[derive(Debug, Clone, PartialEq, Eq)]
pub struct TlsPaths {
    pub cert: String,
    pub key: String,
}

/// What compression of messages is offered.
#[derive(Debug, Clone, Copy, PartialEq, Eq, Structural)]
pub struct DeflateConfig {
    pub enabled: bool,
    /// The largest window offered, as a power of two.
    pub window_bits: u8,
}

impl Default for DeflateConfig {
    fn default() -> (r: DeflateConfig)
        ensures
            r == (DeflateConfig { enabled: true, window_bits: 11 }),
    {
        DeflateConfig { enabled: true, window_bits: 11 }
    }
}

/// What accepting a connection is bounded by.
#[derive(Debug, Clone, Copy, PartialEq, Eq, Structural)]
pub struct AcceptConfig {
    pub deflate: DeflateConfig,
    pub max_headers: usize,
    pub timeout_ms: u64,
    pub max_message: usize,
    pub max_body: usize,
}

/// How a room is served. Times are in milliseconds.
#[derive(Debug)]
pub struct NetConfig {
    pub bind: String,
    pub port: u16,
    /// Worker threads; `None` takes what was detected.
    pub worker_threads: Option<usize>,
    /// Fan-out shards; `None` takes the worker count.
    pub shards: Option<usize>,
    /// Messages one shard's inbox holds; `None` takes the default.
    pub shard_queue_depth: Option<usize>,
    /// Bytes that may be queued across all connections.
    pub outbound_budget_bytes: usize,
    pub per_connection_budget_bytes: usize,
    pub max_frame_bytes: usize,
    pub handshake_timeout_ms: u64,
    /// How often each connection is pinged; zero never.
    pub ping_interval_ms: u64,
    /// How long a pong is waited for; zero does not judge.
    pub ping_timeout_ms: u64,
    pub deflate: DeflateConfig,
    pub compression_level: u32,
    pub max_message_bytes: usize,
    pub max_header_bytes: usize,
    pub max_body_bytes: usize,
    pub tls: Option<TlsPaths>,
    /// Keeps plaintext on the port although a certificate is configured.
    pub allow_plaintext: bool,
    /// A second listener that serves the scoped feed.
    pub filtered_port: Option<u16>,
    /// Serves the tracker without a token although one is configured.
    pub open_tracker: bool,
    /// The token of the admin surface; without one there is none.
    pub admin_token: Option<String>,
}

impl Default for NetConfig {
    fn default() -> (r: NetConfig)
        ensures
            r.bind@ == "0.0.0.0"@,
            r.port == 38281,
            r.worker_threads is None,
            r.shards is None,
            r.shard_queue_depth is None,
            r.outbound_budget_bytes == 536_870_912,
            r.per_connection_budget_bytes == 262_144,
            r.max_frame_bytes == 1_048_576,
            r.handshake_timeout_ms == 30_000,
            r.ping_interval_ms == 20_000,
            r.ping_timeout_ms == 20_000,
            r.deflate == (DeflateConfig { enabled: true, window_bits: 11 }),
            r.compression_level == 6,
            r.max_message_bytes == 4_194_304,
            r.max_header_bytes == 16_384,
            r.max_body_bytes == 65_536,
            r.tls is None,
            !r.allow_plaintext,
            r.filtered_port is None,
            !r.open_tracker,
            r.admin_token is None,
    {
        NetConfig {
            bind: "0.0.0.0".to_string(),
            port: 38281,
            worker_threads: None,
            shards: None,
            shard_queue_depth: None,
            outbound_budget_bytes: 536_870_912,
            per_connection_budget_bytes: 262_144,
            max_frame_bytes: 1_048_576,
            handshake_timeout_ms: 30_000,
            ping_interval_ms: 20_000,
            ping_timeout_ms: 20_000,
            deflate: DeflateConfig::default(),
            compression_level: 6,
            max_message_bytes: 4_194_304,
            max_header_bytes: 16_384,
            max_body_bytes: 65_536,
            tls: None,
            allow_plaintext: false,
            filtered_port: None,
            open_tracker: false,
            admin_token: None,
        }
    }
}

impl NetConfig {
    /// The worker count, given what was detected.
    pub fn worker_threads_resolved(&self, detected: usize) -> (r: usize)
        ensures
            r == match self.worker_threads {
                Some(n) => n,
                None => detected,
            },
    {
        match self.worker_threads {
            Some(n) => n,
            None => detected,
        }
    }

    /// The fan-out width: never zero, which would drop every broadcast.
    pub fn shards_resolved(&self, detected: usize) -> (r: usize)
        ensures
            r == larger(
                match self.shards {
                    Some(n) => n as int,
                    None => match self.worker_threads {
                        Some(n) => n as int,
                        None => detected as int,
                    },
                },
                1,
            ),
    {
        let n: usize = match self.shards {
            Some(n) => n,
            None => self.worker_threads_resolved(detected),
        };
        if n > 1 {
            n
        } else {
            1
        }
    }

    /// The inbox depth: never zero, which would refuse every send.
    pub fn shard_queue_depth_resolved(&self) -> (r: usize)
        ensures
            r == larger(
                match self.shard_queue_depth {
                    Some(n) => n as int,
                    None => DEFAULT_SHARD_QUEUE_DEPTH as int,
                },
                1,
            ),
    {
        let n: usize = match self.shard_queue_depth {
            Some(n) => n,
            None => DEFAULT_SHARD_QUEUE_DEPTH,
        };
        if n > 1 {
            n
        } else {
            1
        }
    }

    pub fn accept_config(&self) -> (r: AcceptConfig)
        ensures
            r == (AcceptConfig {
                deflate: self.deflate,
                max_headers: self.max_header_bytes,
                timeout_ms: self.handshake_timeout_ms,
                max_message: self.max_message_bytes,
                max_body: self.max_body_bytes,
            }),
    {
        AcceptConfig {
            deflate: self.deflate,
            max_headers: self.max_header_bytes,
            timeout_ms: self.handshake_timeout_ms,
            max_message: self.max_message_bytes,
            max_body: self.max_body_bytes,
        }
    }

    /// How many frames one connection's queue holds, so that it is never a tighter bound than
    /// the byte budget.
    pub fn writer_queue_depth(&self) -> (r: usize)
        ensures
            r == larger(self.per_connection_budget_bytes as int / 64, 256),
    {
        let n: usize = self.per_connection_budget_bytes / 64;
        if n > 256 {
            n
        } else {
            256
        }
    }
}

/// Widening the fan-out never takes broadcast headroom away: whatever the width, sixteen
/// releases of one broadcast per slot fit into the inbox, up to its greatest depth.
pub proof fn headroom_does_not_fall_with_width(slots: int, shards: int)
    requires
        slots >= 0,
    ensures
        queue_depth(slots, shards) >= if slots * 16 > MAX_SHARD_QUEUE_DEPTH {
            MAX_SHARD_QUEUE_DEPTH as int
        } else {
            slots * 16
        },
        DEFAULT_SHARD_QUEUE_DEPTH <= queue_depth(slots, shards) <= MAX_SHARD_QUEUE_DEPTH,
{
}

/// A dropped broadcast closes at most 512 connections, until the greatest width is reached.
pub proof fn width_bounds_the_blast(slots: int)
    requires
        0 <= slots,
        slots * 3 <= 512 * MAX_SHARDS,
    ensures
        slots * 3 <= 512 * shard_count(slots),
        2 <= shard_count(slots) <= MAX_SHARDS,
{
}

/// More slots never get a smaller budget, a narrower fan-out or a shallower inbox.
pub proof fn sizing_is_monotone(a: int, b: int, shards: int)
    requires
        0 <= a <= b,
        shards >= 1,
    ensures
        outbound_budget(a) <= outbound_budget(b),
        shard_count(a) <= shard_count(b),
        queue_depth(a, shards) <= queue_depth(b, shards),
{
    let x = capped_product(a, 3);
    let y = capped_product(b, 3);
    assert(x <= y);
    vstd::arithmetic::div_mod::lemma_div_is_ordered(x, y, shards);
    vstd::arithmetic::div_mod::lemma_fundamental_div_mod(x, shards);
    vstd::arithmetic::div_mod::lemma_fundamental_div_mod(y, shards);
    if x / shards == y / shards {
        assert(x % shards <= y % shards);
    }
    assert(ceil_div(x, shards) <= ceil_div(y, shards));
    assert(ceil_div(x, 512) <= ceil_div(y, 512));
}

/// The inboxes of the widest fan-out at the greatest depth are reckoned at less than 160 MiB.
pub proof fn inboxes_are_bounded(shards: int, depth: int)
    requires
        0 <= shards <= MAX_SHARDS,
        0 <= depth <= MAX_SHARD_QUEUE_DEPTH,
    ensures
        capped_product(capped_product(shards, depth), SHARD_MESSAGE_BYTES as int) <= 167_772_160,
{
    assert(shards * depth <= 2_097_152) by (nonlinear_arith)
        requires
            0 <= shards <= 32,
            0 <= depth <= 65_536,
    ;
}

/// The outbound budget has ninety-six kilobytes for each of three connections of every slot, or
/// sixty-four megabytes where that is more, and nothing beyond.
pub proof fn the_budget_is_for_every_connection(slots: int)
    requires
        0 <= slots,
        slots * 3 * 98_304 <= usize::MAX,
    ensures
        outbound_budget(slots) >= slots * 3 * 98_304,
        outbound_budget(slots) >= 67_108_864,
        outbound_budget(slots) == slots * 3 * 98_304 || outbound_budget(slots) == 67_108_864,
{
}

/// The fan-out is no wider than it has to be: with one shard less, a dropped broadcast would close
/// more than 512 connections.
pub proof fn the_width_is_the_least(slots: int)
    requires
        0 <= slots,
        slots * 3 <= 512 * MAX_SHARDS,
        shard_count(slots) > 2,
    ensures
        512 * (shard_count(slots) - 1) < slots * 3,
{
}

/// The depth of an inbox is what a reconnect of every connection of a shard takes eight times over,
/// or what sixteen messages of every slot take, whichever is more, within its bounds.
pub proof fn the_depth_is_for_a_storm_or_a_tail(slots: int, shards: int)
    requires
        0 <= slots,
        1 <= shards,
        slots * 24 + 8 <= usize::MAX,
        DEFAULT_SHARD_QUEUE_DEPTH < queue_depth(slots, shards) < MAX_SHARD_QUEUE_DEPTH,
    ensures
        queue_depth(slots, shards) * shards >= slots * 3 * 8,
        queue_depth(slots, shards) >= slots * 16,
        queue_depth(slots, shards) == slots * 16 || (queue_depth(slots, shards) - 8) * shards < slots
            * 3 * 8,
{
    let x = capped_product(slots, 3);
    let q = x / shards;
    let c = ceil_div(x, shards);
    vstd::arithmetic::div_mod::lemma_fundamental_div_mod(x, shards);
    assert(x == slots * 3);
    assert(q <= x) by (nonlinear_arith)
        requires
            x == shards * q + x % shards,
            0 <= x % shards,
            shards >= 1,
            x >= 0,
            q == x / shards,
    ;
    assert(c * shards >= x && (c - 1) * shards < x) by (nonlinear_arith)
        requires
            x == shards * q + x % shards,
            0 <= x % shards < shards,
            c == if x % shards == 0 {
                q
            } else {
                q + 1
            },
            shards >= 1,
    ;
    let d = queue_depth(slots, shards);
    if d == c * 8 {
        assert(d * shards >= x * 8 && (d - 8) * shards < x * 8) by (nonlinear_arith)
            requires
                d == c * 8,
                c * shards >= x,
                (c - 1) * shards < x,
        ;
    } else {
        assert(d * shards >= x * 8) by (nonlinear_arith)
            requires
                d >= c * 8,
                c * shards >= x,
                shards >= 1,
        ;
    }
}

/// A room works with as many threads as its quota has, or as the host has where there is no quota,
/// but never with fewer than two or more than thirty-two.
pub proof fn a_quota_comes_before_the_host(quota: usize, host: usize, r: usize, s: usize)
    requires
        call_ensures(detect_worker_threads, (Some(quota), host), r),
        call_ensures(detect_worker_threads, (None, host), s),
    ensures
        2 <= r <= 32 && 2 <= s <= 32,
        2 <= quota <= 32 ==> r == quota,
        quota < 2 ==> r == 2,
        quota > 32 ==> r == 32,
        2 <= host <= 32 ==> s == host,
        host < 2 ==> s == 2,
        host > 32 ==> s == 32,
{
}

/// The share of a connection holds the whole data package, and never less than a quarter of a
/// megabyte; nothing more.
pub proof fn a_share_holds_the_package(package: usize, r: usize)
    requires
        call_ensures(per_connection_budget_for, (package,), r),
    ensures
        r >= package && r >= 262_144,
        r == package || r == 262_144,
{
}

/// What is configured comes before what was detected: the width is the one given, else the workers
/// given, else those detected, and never none.
pub proof fn what_is_configured_comes_first(
    c: NetConfig,
    detected: usize,
    workers: usize,
    shards: usize,
    depth: usize,
)
    requires
        call_ensures(NetConfig::worker_threads_resolved, (&c, detected), workers),
        call_ensures(NetConfig::shards_resolved, (&c, detected), shards),
        call_ensures(NetConfig::shard_queue_depth_resolved, (&c,), depth),
    ensures
        c.worker_threads matches Some(n) ==> workers == n,
        c.worker_threads is None ==> workers == detected,
        c.shards matches Some(n) && n > 0 ==> shards == c.shards->0,
        c.shards is None && workers > 0 ==> shards == workers,
        shards > 0 && depth > 0,
        c.shard_queue_depth matches Some(n) && n > 0 ==> depth == c.shard_queue_depth->0,
        c.shard_queue_depth is None ==> depth == DEFAULT_SHARD_QUEUE_DEPTH,
{
}

/// A connection is accepted by the limits that are configured for it, each in its own place.
pub proof fn accepting_goes_by_the_limits(c: NetConfig, r: AcceptConfig)
    requires
        call_ensures(NetConfig::accept_config, (&c,), r),
    ensures
        r.deflate == c.deflate,
        r.max_headers == c.max_header_bytes,
        r.timeout_ms == c.handshake_timeout_ms,
        r.max_message == c.max_message_bytes,
        r.max_body == c.max_body_bytes,
{
}

/// A quota over a period is rounded up to whole CPUs, at least one.
pub proof fn a_share_is_rounded_up<D: Fn(&str, &str) -> Option<u64>>(
    quota: nat,
    period: nat,
    divide: D,
    r: Option<usize>,
)
    requires
        quota < 0x20_0000_0000_0000,
        0 < period < 0x20_0000_0000_0000,
        usize::MAX >= 0x20_0000_0000_0000,
        is_share(dec(quota), dec(period), divide, r),
    ensures
        r matches Some(n) && n >= 1 && n * period >= quota && (n > 1 ==> (n - 1) * period < quota),
{
    dec_reads_back(quota);
    dec_reads_back(period);
    assert(is_digit(dec(quota)[0]) && is_digit(dec(period)[0]));
    let q = quota as int;
    let p = period as int;
    vstd::arithmetic::div_mod::lemma_fundamental_div_mod(q, p);
    let d = q / p;
    let c = ceil_div(q, p);
    assert(c * p >= q && (c - 1) * p < q && c <= q) by (nonlinear_arith)
        requires
            q == p * d + q % p,
            0 <= q % p < p,
            c == if q % p == 0 {
                d
            } else {
                d + 1
            },
            p >= 1,
            q >= 0,
            d >= 0,
    ;
    assert(1 * p >= q || c >= 1) by (nonlinear_arith)
        requires
            c * p >= q,
            p >= 1,
    ;
    if c < 1 {
        assert(c * p <= 0) by (nonlinear_arith)
            requires
                c < 1,
                p >= 1,
        ;
    }
}

/// The limit of memory is that of the newer file where it could be read, whatever the older says; in
/// the older a petabyte or more is no limit.
pub proof fn the_newer_limit_counts(n: nat, older: Option<Seq<char>>)
    requires
        n <= u64::MAX,
    ensures
        memory_limit(Some(dec(n)), older) == Some(n as int),
        n < 1_125_899_906_842_624 ==> memory_limit(None, Some(dec(n))) == Some(n as int),
        n >= 1_125_899_906_842_624 ==> memory_limit(None, Some(dec(n))) is None,
        memory_limit(None, None) is None,
{
    dec_reads_back(n);
    let d = dec(n);
    assert(is_digit(d[0]) && is_digit(d[d.len() - 1]));
}

} // verus!
