//! Laws of data storage.

use crate::datastore::integer::{integer_text_value, is_integer_text, width};
use crate::datastore::metrics::failure_name;
use crate::datastore::opspec::{
    absorb, apply_step, int_step, put, put_all, run_from, Fault, Run, Step, MAX_INT_BITS,
};
use crate::datastore::pyvalue::{
    first_key, first_key_properties, floor_mod, num_of, order_data, same, Num,
};
use crate::datastore::value::Datum;
use crate::text::{dec, dec_int, dec_reads_back, order_int, Order};
use vstd::prelude::*;

verus! {

/// A remainder lies between zero and the divisor and has the divisor's sign, and the dividend
/// less the remainder is a multiple of the divisor.
pub proof fn floor_mod_follows_the_divisor(a: int, b: int)
    requires
        b != 0,
    ensures
        b > 0 ==> 0 <= floor_mod(a, b) < b,
        b < 0 ==> b < floor_mod(a, b) <= 0,
        exists|q: int| a == #[trigger] (q * b) + floor_mod(a, b),
{
    if b > 0 {
        vstd::arithmetic::div_mod::lemma_fundamental_div_mod(a, b);
        let q = a / b;
        assert(a == q * b + floor_mod(a, b)) by (nonlinear_arith)
            requires
                a == b * q + a % b,
                floor_mod(a, b) == a % b,
        ;
    } else {
        vstd::arithmetic::div_mod::lemma_fundamental_div_mod(-a, -b);
        let q = (-a) / (-b);
        assert(a == q * b + floor_mod(a, b)) by (nonlinear_arith)
            requires
                -a == (-b) * q + (-a) % (-b),
                floor_mod(a, b) == -((-a) % (-b)),
        ;
    }
}

/// An integer written as text reads back as itself.
pub proof fn integer_text_reads_back(v: int)
    ensures
        is_integer_text(dec_int(v)),
        integer_text_value(dec_int(v)) == v,
{
    if v < 0 {
        dec_reads_back((-v) as nat);
        assert(dec_int(v).drop_first() =~= dec((-v) as nat));
    } else {
        dec_reads_back(v as nat);
        assert(dec(v as nat)[0] != '-');
    }
}

/// What an operation stores as an integer is the number that it computed, at most as wide as
/// the cap.
pub proof fn stored_integers_are_exact(v: int, d: Datum)
    requires
        int_step(v) == Step::Value(d),
    ensures
        num_of(d) == Some(Num::Int(v)),
        width(v) <= MAX_INT_BITS,
{
    integer_text_reads_back(v);
}

/// A sequence of operations can be cut anywhere: where the first part succeeds, the whole comes
/// to what the second part makes of its result.
pub proof fn sequences_compose(v: Datum, ops: Seq<(Seq<char>, Datum)>, i: int, k: int, w: Datum)
    requires
        0 <= i <= k <= ops.len(),
        run_from(v, ops.take(k), i) == Run::Done(w),
    ensures
        run_from(v, ops, i) == run_from(w, ops, k),
    decreases k - i,
{
    if i < k {
        assert(ops.take(k)[i] == ops[i]);
        match apply_step(ops[i].0, v, ops[i].1) {
            Step::Value(u) => {
                sequences_compose(u, ops, i + 1, k, w);
            },
            _ => {},
        }
    }
}

/// A sequence whose first part fails fails there: nothing of it is stored.
pub proof fn a_failed_sequence_stores_nothing(
    v: Datum,
    ops: Seq<(Seq<char>, Datum)>,
    i: int,
    k: int,
    at: int,
    f: Fault,
)
    requires
        0 <= i <= k <= ops.len(),
        run_from(v, ops.take(k), i) == Run::Failed(at, f),
    ensures
        run_from(v, ops, i) == Run::Failed(at, f),
    decreases k - i,
{
    if i < k {
        assert(ops.take(k)[i] == ops[i]);
        match apply_step(ops[i].0, v, ops[i].1) {
            Step::Value(u) => {
                a_failed_sequence_stores_nothing(u, ops, i + 1, k, at, f);
            },
            _ => {},
        }
    }
}

/// No key stands twice among the members.
pub open spec fn keys_distinct(m: Seq<(Seq<char>, Datum)>) -> bool {
    forall|i: int, j: int| 0 <= i < j < m.len() ==> (#[trigger] m[i]).0 != (#[trigger] m[j]).0
}

/// Setting a member keeps the keys distinct, gives the key the new value, and leaves every
/// other key's place alone.
pub proof fn put_sets_one_key(m: Seq<(Seq<char>, Datum)>, key: Seq<char>, v: Datum)
    requires
        keys_distinct(m),
    ensures
        keys_distinct(put(m, key, v)),
        exists|i: int| 0 <= i < put(m, key, v).len() && #[trigger] put(m, key, v)[i] == (key, v),
        forall|i: int|
            0 <= i < m.len() && (#[trigger] m[i]).0 != key ==> put(m, key, v)[i] == m[i],
{
    first_key_properties(m, key, 0);
    let k = first_key(m, key, 0);
    if k < m.len() {
        assert(put(m, key, v)[k] == (key, v));
    } else {
        assert(put(m, key, v)[m.len() as int] == (key, v));
    }
}

/// Merging objects keeps the keys distinct.
pub proof fn merging_keeps_keys_distinct(
    m: Seq<(Seq<char>, Datum)>,
    entries: Seq<(Seq<char>, Datum)>,
)
    requires
        keys_distinct(m),
    ensures
        keys_distinct(put_all(m, entries)),
    decreases entries.len(),
{
    if entries.len() > 0 {
        merging_keeps_keys_distinct(m, entries.drop_last());
        put_sets_one_key(put_all(m, entries.drop_last()), entries.last().0, entries.last().1);
    }
}

/// Updating a list never takes anything away: its items stay in front, in order.
pub proof fn update_only_appends(
    original: Seq<Datum>,
    items: Seq<Datum>,
    entries: Seq<Datum>,
    i: int,
    out: Seq<Datum>,
)
    requires
        0 <= i <= entries.len(),
        absorb(original, items, entries, i) == Step::Value(Datum::List(out)),
    ensures
        items.len() <= out.len(),
        out.take(items.len() as int) =~= items,
    decreases entries.len() - i,
{
    if i < entries.len() {
        if crate::datastore::pyvalue::holds(original, entries[i]) {
            update_only_appends(original, items, entries, i + 1, out);
        } else {
            update_only_appends(original, items.push(entries[i]), entries, i + 1, out);
            assert(out.take(items.len() as int) =~= out.take((items.len() + 1) as int).take(
                items.len() as int,
            ));
            assert(items.push(entries[i]).take(items.len() as int) =~= items);
        }
    }
}

/// The names under which operations are counted.
pub open spec fn operation_names() -> Seq<Seq<char>> {
    seq![
        "replace"@,
        "default"@,
        "add"@,
        "mul"@,
        "pow"@,
        "mod"@,
        "floor"@,
        "ceil"@,
        "max"@,
        "min"@,
        "xor"@,
        "or"@,
        "and"@,
        "left_shift"@,
        "right_shift"@,
        "remove"@,
        "pop"@,
        "update"@,
    ]
}

/// A client cannot make up a counter: every failure is counted under the name of one of the
/// eighteen operations, or as unknown.
pub proof fn failure_names_are_bounded(op: Seq<char>, a: Datum, b: Datum, f: Fault)
    requires
        apply_step(op, a, b) == Step::Fault(f),
    ensures
        failure_name(op, f) == "unknown"@ || operation_names().contains(failure_name(op, f)),
{
    let n = operation_names();
    assert(n[0] == "replace"@ && n[1] == "default"@ && n[2] == "add"@ && n[3] == "mul"@ && n[4]
        == "pow"@ && n[5] == "mod"@ && n[6] == "floor"@ && n[7] == "ceil"@ && n[8] == "max"@
        && n[9] == "min"@ && n[10] == "xor"@ && n[11] == "or"@ && n[12] == "and"@ && n[13]
        == "left_shift"@ && n[14] == "right_shift"@ && n[15] == "remove"@ && n[16] == "pop"@
        && n[17] == "update"@);
}

/// Python's equality between numbers is an equivalence that crosses their types.
pub proof fn number_equality_is_by_value(a: Datum, b: Datum, c: Datum)
    requires
        num_of(a) is Some,
        num_of(b) is Some,
        num_of(c) is Some,
    ensures
        same(a, a),
        same(a, b) == same(b, a),
        same(a, b) && same(b, c) ==> same(a, c),
        same(a, b) <==> order_data(a, b) == Some(Order::Equal),
{
}

/// Integers compare exactly, whatever their width, and booleans as one and zero.
pub proof fn integers_compare_exactly(p: int, q: int, a: Datum, b: Datum)
    requires
        num_of(a) == Some(Num::Int(p)),
        num_of(b) == Some(Num::Int(q)),
    ensures
        same(a, b) == (p == q),
        order_data(a, b) == Some(order_int(p, q)),
{
    let u = vstd::arithmetic::power2::pow2(1074) as int;
    vstd::arithmetic::power2::lemma_pow2_pos(1074);
    assert((p * u == q * u) == (p == q)) by (nonlinear_arith)
        requires
            u > 0,
    ;
    assert((p * u < q * u) == (p < q)) by (nonlinear_arith)
        requires
            u > 0,
    ;
}

} // verus!
