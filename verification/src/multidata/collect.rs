//! Reading every element of a sequence, up to the first that cannot be read.

use crate::multidata::error::Problem;
use crate::multidata::pyobj::Py;
use vstd::prelude::*;

verus! {

/// The readings of the first `n` items, or the first problem among them.
pub open spec fn collect<A>(
    items: Seq<Py>,
    f: spec_fn(int, Py) -> Result<A, Problem>,
    n: nat,
) -> Result<Seq<A>, Problem>
    decreases n,
{
    if n == 0 {
        Ok(Seq::empty())
    } else {
        match collect(items, f, (n - 1) as nat) {
            Err(e) => Err(e),
            Ok(s) => match f(n - 1, items[n - 1]) {
                Err(e) => Err(e),
                Ok(a) => Ok(s.push(a)),
            },
        }
    }
}

/// The readings of the first `n` pairs, or the first problem among them.
pub open spec fn collect_pairs<A>(
    pairs: Seq<(Py, Py)>,
    f: spec_fn(Py, Py) -> Result<A, Problem>,
    n: nat,
) -> Result<Seq<A>, Problem>
    decreases n,
{
    if n == 0 {
        Ok(Seq::empty())
    } else {
        match collect_pairs(pairs, f, (n - 1) as nat) {
            Err(e) => Err(e),
            Ok(s) => match f(pairs[n - 1].0, pairs[n - 1].1) {
                Err(e) => Err(e),
                Ok(a) => Ok(s.push(a)),
            },
        }
    }
}

/// A problem among the first items is the problem of all.
pub proof fn collect_stops<A>(
    items: Seq<Py>,
    f: spec_fn(int, Py) -> Result<A, Problem>,
    n: nat,
    m: nat,
)
    requires
        n <= m,
        collect(items, f, n) is Err,
    ensures
        collect(items, f, m) == collect(items, f, n),
    decreases m,
{
    if n < m {
        collect_stops(items, f, n, (m - 1) as nat);
    }
}

/// A problem among the first pairs is the problem of all.
pub proof fn collect_pairs_stops<A>(
    pairs: Seq<(Py, Py)>,
    f: spec_fn(Py, Py) -> Result<A, Problem>,
    n: nat,
    m: nat,
)
    requires
        n <= m,
        collect_pairs(pairs, f, n) is Err,
    ensures
        collect_pairs(pairs, f, m) == collect_pairs(pairs, f, n),
    decreases m,
{
    if n < m {
        collect_pairs_stops(pairs, f, n, (m - 1) as nat);
    }
}

} // verus!
