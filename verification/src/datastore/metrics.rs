//! What data storage costs: failures by operation, and time spent applying.

use crate::datastore::ops::OpError;
use crate::datastore::opspec::Fault;
use crate::datastore::value::Value;
use crate::json::{encode, json_text};
use crate::table::{bumped, count_in, wrapped, Table};
use vstd::prelude::*;
use vstd::utf8::encode_utf8;

verus! {

/// How much time was spent applying operations, in nanoseconds.
#[derive(Debug, Clone, Copy, PartialEq, Eq)]
pub struct ApplyStats {
    /// Sequences applied, successful or not.
    pub applied: u64,
    pub total: u64,
    /// The worst single sequence so far.
    pub max: u64,
}

impl Default for ApplyStats {
    fn default() -> (r: ApplyStats)
        ensures
            r == (ApplyStats { applied: 0, total: 0, max: 0 }),
    {
        ApplyStats { applied: 0, total: 0, max: 0 }
    }
}

/// The counters of data storage.
#[derive(Debug)]
pub struct StoreMetrics {
    /// Failures by operation. An operation that never failed has no entry.
    pub failed: Table<String, u64>,
    pub stats: ApplyStats,
}

impl StoreMetrics {
    pub fn new() -> (r: StoreMetrics)
        ensures
            r.failed.deep_view() == Seq::<(Seq<char>, u64)>::empty(),
            r.stats == (ApplyStats { applied: 0, total: 0, max: 0 }),
    {
        StoreMetrics { failed: Table::new(), stats: ApplyStats::default() }
    }
}

/// Counts one failed sequence against the operation that failed it.
pub fn record_failure(metrics: &mut StoreMetrics, op: &str)
    ensures
        final(metrics).failed.deep_view() == bumped::<String>(
            old(metrics).failed.deep_view(),
            op@,
            1,
        ),
        final(metrics).stats == old(metrics).stats,
{
    count_in(&mut metrics.failed, op.to_owned(), 1);
}

/// Every operation that has ever failed, with its count.
pub fn failures(metrics: &StoreMetrics) -> (r: &Table<String, u64>)
    ensures
        r.deep_view() == metrics.failed.deep_view(),
{
    &metrics.failed
}

/// The statistics after one more sequence of this many nanoseconds. Sums wrap around as machine
/// words do.
pub open spec fn after_apply(s: ApplyStats, nanos: u128) -> ApplyStats {
    let n = if nanos > u64::MAX {
        u64::MAX
    } else {
        nanos as u64
    };
    ApplyStats {
        applied: wrapped(s.applied, 1),
        total: wrapped(s.total, n),
        max: if n > s.max {
            n
        } else {
            s.max
        },
    }
}

/// Records what applying one sequence cost.
pub fn record_apply(metrics: &mut StoreMetrics, nanos: u128)
    ensures
        final(metrics).stats == after_apply(old(metrics).stats, nanos),
        final(metrics).failed == old(metrics).failed,
{
    let n: u64 = if nanos > u64::MAX as u128 {
        u64::MAX
    } else {
        nanos as u64
    };
    metrics.stats.applied = metrics.stats.applied.wrapping_add(1);
    metrics.stats.total = metrics.stats.total.wrapping_add(n);
    if n > metrics.stats.max {
        metrics.stats.max = n;
    }
}

/// How much time was spent applying operations.
pub fn apply_stats(metrics: &StoreMetrics) -> (r: ApplyStats)
    ensures
        r == metrics.stats,
{
    metrics.stats
}

/// The name under which a failure is counted: the operation's, or `unknown` for a name that is
/// no operation's, which a client may have made up.
pub open spec fn failure_name(op: Seq<char>, f: Fault) -> Seq<char> {
    if f is UnknownOperation {
        "unknown"@
    } else {
        op
    }
}

/// The name under which the failure of `op` is counted.
pub fn failure_label(op: &str, error: &OpError) -> (r: String)
    ensures
        r@ == failure_name(op@, error@),
{
    match error {
        OpError::UnknownOperation(_) => "unknown".to_string(),
        _ => op.to_owned(),
    }
}

/// The length in bytes of a value's compact JSON text.
pub fn json_len(value: &Value) -> (n: usize)
    ensures
        n == encode_utf8(json_text(value@)).len(),
{
    let text = encode(value);
    text.as_str().as_bytes().len()
}

} // verus!
