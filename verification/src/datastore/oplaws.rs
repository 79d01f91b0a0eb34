//! Laws of the single operations: what each result is, in terms of the operands.

use crate::datastore::integer::{int_bit, is_integer_text, magnitude, width};
use crate::datastore::laws::{
    floor_mod_follows_the_divisor, integer_text_reads_back, keys_distinct, operation_names,
};
use crate::datastore::metrics::{after_apply, failure_name, ApplyStats};
use crate::datastore::ops::{apply, finish, step_of, OpError, Outcome};
use crate::datastore::opspec::{
    absorb, absorb_pairs, add_step, apply_step, bit_result, bitwise_of, bitwise_step, first_same,
    is_bitwise, iterated, mod_step, mul_step, or_step, pick_step, pop_step, pow_step, put, put_all,
    remove_step, repeated, round_step, run_from, shift_step, type_text, update_step, BitOp, Fault,
    FloatOp, Run, Step,
};
use crate::datastore::pyvalue::{
    first_key, first_key_properties, floor_mod, hashable, holds, num_of, num_units, order_data,
    order_lists, py_cmp, py_eq, same, Num,
};
use crate::datastore::value::{Datum, Number, Value};
use crate::text::{order_text_from, Order};
use vstd::arithmetic::power::pow;
use vstd::arithmetic::power2::pow2;
use vstd::prelude::*;
use vstd::utf8::encode_utf8;

verus! {

/// No two operations share a name, so each is reached by its own.
proof fn reached(a: Datum, b: Datum)
    ensures
        apply_step("replace"@, a, b) == Step::Value(b),
        apply_step("default"@, a, b) == Step::Value(a),
        apply_step("add"@, a, b) == add_step(a, b),
        apply_step("mul"@, a, b) == mul_step(a, b),
        apply_step("pow"@, a, b) == pow_step(a, b),
        apply_step("mod"@, a, b) == mod_step(a, b),
        apply_step("floor"@, a, b) == round_step(a, false),
        apply_step("ceil"@, a, b) == round_step(a, true),
        apply_step("max"@, a, b) == pick_step("max"@, a, b, Order::Less),
        apply_step("min"@, a, b) == pick_step("min"@, a, b, Order::Greater),
        apply_step("xor"@, a, b) == bitwise_step(BitOp::Xor, a, b),
        apply_step("or"@, a, b) == or_step(a, b),
        apply_step("and"@, a, b) == bitwise_step(BitOp::And, a, b),
        apply_step("left_shift"@, a, b) == shift_step(a, b, true),
        apply_step("right_shift"@, a, b) == shift_step(a, b, false),
        apply_step("remove"@, a, b) == remove_step(a, b),
        apply_step("pop"@, a, b) == pop_step(a, b),
        apply_step("update"@, a, b) == update_step(a, b),
{
    names_differ();
}

/// No two operations share a name.
proof fn names_differ()
    ensures
        "default"@ != "replace"@,
        "add"@ != "replace"@ && "add"@ != "default"@,
        "mul"@ != "replace"@ && "mul"@ != "default"@ && "mul"@ != "add"@,
        "pow"@ != "replace"@ && "pow"@ != "default"@ && "pow"@ != "add"@ && "pow"@ != "mul"@,
        "mod"@ != "replace"@ && "mod"@ != "default"@ && "mod"@ != "add"@ && "mod"@ != "mul"@
            && "mod"@ != "pow"@,
        "floor"@ != "replace"@ && "floor"@ != "default"@ && "floor"@ != "add"@
            && "floor"@ != "mul"@ && "floor"@ != "pow"@ && "floor"@ != "mod"@,
        "ceil"@ != "replace"@ && "ceil"@ != "default"@ && "ceil"@ != "add"@ && "ceil"@ != "mul"@
            && "ceil"@ != "pow"@ && "ceil"@ != "mod"@ && "ceil"@ != "floor"@,
        "max"@ != "replace"@ && "max"@ != "default"@ && "max"@ != "add"@ && "max"@ != "mul"@
            && "max"@ != "pow"@ && "max"@ != "mod"@ && "max"@ != "floor"@ && "max"@ != "ceil"@,
        "min"@ != "replace"@ && "min"@ != "default"@ && "min"@ != "add"@ && "min"@ != "mul"@
            && "min"@ != "pow"@ && "min"@ != "mod"@ && "min"@ != "floor"@ && "min"@ != "ceil"@
            && "min"@ != "max"@,
        "xor"@ != "replace"@ && "xor"@ != "default"@ && "xor"@ != "add"@ && "xor"@ != "mul"@
            && "xor"@ != "pow"@ && "xor"@ != "mod"@ && "xor"@ != "floor"@ && "xor"@ != "ceil"@
            && "xor"@ != "max"@ && "xor"@ != "min"@,
        "or"@ != "replace"@ && "or"@ != "default"@ && "or"@ != "add"@ && "or"@ != "mul"@
            && "or"@ != "pow"@ && "or"@ != "mod"@ && "or"@ != "floor"@ && "or"@ != "ceil"@
            && "or"@ != "max"@ && "or"@ != "min"@ && "or"@ != "xor"@,
        "and"@ != "replace"@ && "and"@ != "default"@ && "and"@ != "add"@ && "and"@ != "mul"@
            && "and"@ != "pow"@ && "and"@ != "mod"@ && "and"@ != "floor"@ && "and"@ != "ceil"@
            && "and"@ != "max"@ && "and"@ != "min"@ && "and"@ != "xor"@ && "and"@ != "or"@,
        "left_shift"@ != "replace"@ && "left_shift"@ != "default"@ && "left_shift"@ != "add"@
            && "left_shift"@ != "mul"@ && "left_shift"@ != "pow"@ && "left_shift"@ != "mod"@
            && "left_shift"@ != "floor"@ && "left_shift"@ != "ceil"@ && "left_shift"@ != "max"@
            && "left_shift"@ != "min"@ && "left_shift"@ != "xor"@ && "left_shift"@ != "or"@
            && "left_shift"@ != "and"@,
        "right_shift"@ != "replace"@ && "right_shift"@ != "default"@ && "right_shift"@ != "add"@
            && "right_shift"@ != "mul"@ && "right_shift"@ != "pow"@ && "right_shift"@ != "mod"@
            && "right_shift"@ != "floor"@ && "right_shift"@ != "ceil"@ && "right_shift"@ != "max"@
            && "right_shift"@ != "min"@ && "right_shift"@ != "xor"@ && "right_shift"@ != "or"@
            && "right_shift"@ != "and"@ && "right_shift"@ != "left_shift"@,
        "remove"@ != "replace"@ && "remove"@ != "default"@ && "remove"@ != "add"@
            && "remove"@ != "mul"@ && "remove"@ != "pow"@ && "remove"@ != "mod"@
            && "remove"@ != "floor"@ && "remove"@ != "ceil"@ && "remove"@ != "max"@
            && "remove"@ != "min"@ && "remove"@ != "xor"@ && "remove"@ != "or"@
            && "remove"@ != "and"@ && "remove"@ != "left_shift"@ && "remove"@ != "right_shift"@,
        "pop"@ != "replace"@ && "pop"@ != "default"@ && "pop"@ != "add"@ && "pop"@ != "mul"@
            && "pop"@ != "pow"@ && "pop"@ != "mod"@ && "pop"@ != "floor"@ && "pop"@ != "ceil"@
            && "pop"@ != "max"@ && "pop"@ != "min"@ && "pop"@ != "xor"@ && "pop"@ != "or"@
            && "pop"@ != "and"@ && "pop"@ != "left_shift"@ && "pop"@ != "right_shift"@
            && "pop"@ != "remove"@,
        "update"@ != "replace"@ && "update"@ != "default"@ && "update"@ != "add"@
            && "update"@ != "mul"@ && "update"@ != "pow"@ && "update"@ != "mod"@
            && "update"@ != "floor"@ && "update"@ != "ceil"@ && "update"@ != "max"@
            && "update"@ != "min"@ && "update"@ != "xor"@ && "update"@ != "or"@
            && "update"@ != "and"@ && "update"@ != "left_shift"@ && "update"@ != "right_shift"@
            && "update"@ != "remove"@ && "update"@ != "pop"@,
{
    reveal_strlit("replace");
    reveal_strlit("default");
    reveal_strlit("add");
    reveal_strlit("mul");
    reveal_strlit("pow");
    reveal_strlit("mod");
    reveal_strlit("floor");
    reveal_strlit("ceil");
    reveal_strlit("max");
    reveal_strlit("min");
    reveal_strlit("xor");
    reveal_strlit("or");
    reveal_strlit("and");
    reveal_strlit("left_shift");
    reveal_strlit("right_shift");
    reveal_strlit("remove");
    reveal_strlit("pop");
    reveal_strlit("update");
    assert("replace"@.len() == 7 && "default"@.len() == 7 && "add"@.len() == 3
        && "mul"@.len() == 3 && "pow"@.len() == 3 && "mod"@.len() == 3 && "floor"@.len() == 5
        && "ceil"@.len() == 4 && "max"@.len() == 3 && "min"@.len() == 3 && "xor"@.len() == 3
        && "or"@.len() == 2 && "and"@.len() == 3 && "left_shift"@.len() == 10
        && "right_shift"@.len() == 11 && "remove"@.len() == 6 && "pop"@.len() == 3
        && "update"@.len() == 6);
    assert("default"@[0] == 'd' && "replace"@[0] == 'r');
    assert("add"@[1] == 'd' && "mul"@[1] == 'u' && "mod"@[1] == 'o' && "max"@[1] == 'a' && "min"@[1]
        == 'i' && "xor"@[1] == 'o' && "and"@[1] == 'n' && "pop"@[1] == 'o' && "pow"@[1] == 'o');
    assert("mod"@[2] == 'd' && "xor"@[2] == 'r' && "pop"@[2] == 'p' && "pow"@[2] == 'w');
    assert("remove"@[0] == 'r' && "update"@[0] == 'u');
}

/// Replacing stores the argument whatever was there; a default leaves what was there.
pub proof fn replace_takes_the_argument_and_default_does_not(a: Datum, b: Datum)
    ensures
        apply_step("replace"@, a, b) == Step::Value(b),
        apply_step("default"@, a, b) == Step::Value(a),
{
    reached(a, b);
}

/// Of two numbers, integers or doubles, `max` keeps one that is not below either, `min` one
/// that is not above either; of equal ones both keep the current value.
pub proof fn max_and_min_of_numbers(a: Datum, b: Datum, x: Num, y: Num)
    requires
        num_of(a) == Some(x),
        num_of(b) == Some(y),
    ensures
        apply_step("max"@, a, b) matches Step::Value(r) && (r == a || r == b) && num_of(r) is Some
            && num_units(num_of(r)->0) >= num_units(x) && num_units(num_of(r)->0) >= num_units(y),
        apply_step("min"@, a, b) matches Step::Value(r) && (r == a || r == b) && num_of(r) is Some
            && num_units(num_of(r)->0) <= num_units(x) && num_units(num_of(r)->0) <= num_units(y),
        num_units(x) == num_units(y) ==> apply_step("max"@, a, b) == Step::Value(a) && apply_step(
            "min"@,
            a,
            b,
        ) == Step::Value(a),
{
    reached(a, b);
}

/// The greater and the lesser of two integers, exactly, whatever their width.
pub proof fn max_and_min_of_integers(a: Datum, b: Datum, p: int, q: int)
    requires
        num_of(a) == Some(Num::Int(p)),
        num_of(b) == Some(Num::Int(q)),
    ensures
        apply_step("max"@, a, b) matches Step::Value(r) && (r == a || r == b) && (num_of(r) == Some(
            Num::Int(p),
        ) || num_of(r) == Some(Num::Int(q))) && num_of(r)->0->Int_0 >= p && num_of(r)->0->Int_0
            >= q,
        apply_step("min"@, a, b) matches Step::Value(r) && (r == a || r == b) && (num_of(r) == Some(
            Num::Int(p),
        ) || num_of(r) == Some(Num::Int(q))) && num_of(r)->0->Int_0 <= p && num_of(r)->0->Int_0
            <= q,
{
    reached(a, b);
    crate::datastore::laws::integers_compare_exactly(p, q, a, b);
}

/// Of two texts, `max` takes the argument exactly where the two agree up to some place and
/// there the current text ends or has the lesser character, and `min` where it is the
/// argument that does.
pub proof fn max_and_min_of_texts(s: Seq<char>, t: Seq<char>, i: int)
    requires
        0 <= i <= s.len(),
        i < t.len(),
        s.take(i) == t.take(i),
        i < s.len() ==> (s[i] as int) < (t[i] as int),
    ensures
        apply_step("max"@, Datum::Text(s), Datum::Text(t)) == Step::Value(Datum::Text(t)),
        apply_step("max"@, Datum::Text(t), Datum::Text(s)) == Step::Value(Datum::Text(t)),
        apply_step("min"@, Datum::Text(s), Datum::Text(t)) == Step::Value(Datum::Text(s)),
        apply_step("min"@, Datum::Text(t), Datum::Text(s)) == Step::Value(Datum::Text(s)),
{
    reached(Datum::Text(s), Datum::Text(t));
    reached(Datum::Text(t), Datum::Text(s));
    assert forall|j: int| 0 <= j < i implies s[j] == t[j] by {
        assert(s.take(i)[j] == s[j] && t.take(i)[j] == t[j]);
    }
    agreeing_texts(s, t, 0, i);
    agreeing_texts(t, s, 0, i);
}

/// The order of two texts that agree up to a place is decided there.
proof fn agreeing_texts(s: Seq<char>, t: Seq<char>, k: int, i: int)
    requires
        0 <= k <= i <= s.len(),
        i <= t.len(),
        forall|j: int| 0 <= j < i ==> s[j] == t[j],
    ensures
        order_text_from(s, t, k) == order_text_from(s, t, i),
    decreases i - k,
{
    if k < i {
        agreeing_texts(s, t, k + 1, i);
    }
}

/// Of two lists that agree on numbers up to some place, the one with the greater number there
/// is the greater, and so is the one that goes on where the other ends.
pub proof fn max_and_min_of_lists(x: Seq<Datum>, y: Seq<Datum>, i: int)
    requires
        0 <= i <= x.len(),
        i < y.len(),
        forall|j: int|
            0 <= j < i ==> num_of(#[trigger] x[j]) is Some && num_of(y[j]) is Some && num_units(
                num_of(x[j])->0,
            ) == num_units(num_of(y[j])->0),
        i < x.len() ==> num_of(x[i]) is Some && num_of(y[i]) is Some && num_units(num_of(x[i])->0)
            < num_units(num_of(y[i])->0),
    ensures
        apply_step("max"@, Datum::List(x), Datum::List(y)) == Step::Value(Datum::List(y)),
        apply_step("max"@, Datum::List(y), Datum::List(x)) == Step::Value(Datum::List(y)),
        apply_step("min"@, Datum::List(x), Datum::List(y)) == Step::Value(Datum::List(x)),
        apply_step("min"@, Datum::List(y), Datum::List(x)) == Step::Value(Datum::List(x)),
{
    reached(Datum::List(x), Datum::List(y));
    reached(Datum::List(y), Datum::List(x));
    agreeing_lists(x, y, 0, i);
    assert forall|j: int| 0 <= j < i implies num_of(#[trigger] y[j]) is Some && num_of(x[j]) is Some
        && num_units(num_of(y[j])->0) == num_units(num_of(x[j])->0) by {
        let v = x[j];
    }
    agreeing_lists(y, x, 0, i);
    if i < x.len() {
        assert(order_data(x[i], y[i]) == Some(Order::Less));
        assert(order_data(y[i], x[i]) == Some(Order::Greater));
    }
    assert(order_lists(x, y, i) == Some(Order::Less));
    assert(order_lists(y, x, i) == Some(Order::Greater));
}

/// The order of two lists that agree on numbers up to a place is decided there.
proof fn agreeing_lists(x: Seq<Datum>, y: Seq<Datum>, k: int, i: int)
    requires
        0 <= k <= i <= x.len(),
        i <= y.len(),
        forall|j: int|
            0 <= j < i ==> num_of(#[trigger] x[j]) is Some && num_of(y[j]) is Some && num_units(
                num_of(x[j])->0,
            ) == num_units(num_of(y[j])->0),
    ensures
        order_lists(x, y, k) == order_lists(x, y, i),
    decreases i - k,
{
    if k < i {
        assert(order_data(x[k], y[k]) == Some(Order::Equal));
        agreeing_lists(x, y, k + 1, i);
    }
}

/// Two integers add up to the integer that is their sum, in either order; the result is
/// refused only where it, or an operand, is wider than 65,536 bits.
pub proof fn adding_integers_is_exact(a: Datum, b: Datum, p: int, q: int)
    requires
        num_of(a) == Some(Num::Int(p)),
        num_of(b) == Some(Num::Int(q)),
    ensures
        width(p) <= 65_536 && width(q) <= 65_536 && width(p + q) <= 65_536 ==> (apply_step(
            "add"@,
            a,
            b,
        ) matches Step::Value(r) && num_of(r) == Some(Num::Int(p + q))),
        width(p) > 65_536 || width(q) > 65_536 || width(p + q) > 65_536 ==> apply_step("add"@, a, b)
            == Step::Fault(Fault::IntegerTooWide),
        apply_step("add"@, a, b) == apply_step("add"@, b, a),
{
    reached(a, b);
    reached(b, a);
    integer_text_reads_back(p + q);
}

/// What is added can be taken off again.
pub proof fn adding_can_be_undone(a: Datum, b: Datum, c: Datum, q: int, sum: Datum)
    requires
        num_of(a) matches Some(Num::Int(_)),
        num_of(b) == Some(Num::Int(q)),
        num_of(c) == Some(Num::Int(-q)),
        apply_step("add"@, a, b) == Step::Value(sum),
    ensures
        apply_step("add"@, sum, c) matches Step::Value(r) && num_of(r) == num_of(a),
{
    let p = num_of(a)->0->Int_0;
    reached(a, b);
    reached(sum, c);
    integer_text_reads_back(p + q);
    integer_text_reads_back(p);
    assert(p + q - q == p);
    assert(magnitude(q) == magnitude(-q));
}

/// Adding two texts, or two lists, puts the argument behind the current value.
pub proof fn adding_sequences_joins_them(
    s: Seq<char>,
    t: Seq<char>,
    x: Seq<Datum>,
    y: Seq<Datum>,
    out: Seq<char>,
    list: Seq<Datum>,
)
    ensures
        apply_step("add"@, Datum::Text(s), Datum::Text(t)) == Step::Value(Datum::Text(out)) ==> {
            &&& out.len() == s.len() + t.len()
            &&& out.take(s.len() as int) == s
            &&& out.skip(s.len() as int) == t
        },
        encode_utf8(s).len() + encode_utf8(t).len() <= 16_777_216 <==> apply_step(
            "add"@,
            Datum::Text(s),
            Datum::Text(t),
        ) is Value,
        apply_step("add"@, Datum::List(x), Datum::List(y)) == Step::Value(Datum::List(list)) ==> {
            &&& list.len() == x.len() + y.len()
            &&& list.take(x.len() as int) == x
            &&& list.skip(x.len() as int) == y
        },
        x.len() + y.len() <= 16_777_216 <==> apply_step(
            "add"@,
            Datum::List(x),
            Datum::List(y),
        ) is Value,
{
    reached(Datum::Text(s), Datum::Text(t));
    reached(Datum::List(x), Datum::List(y));
    assert((s + t).take(s.len() as int) =~= s);
    assert((s + t).skip(s.len() as int) =~= t);
    assert((x + y).take(x.len() as int) =~= x);
    assert((x + y).skip(x.len() as int) =~= y);
}

/// Two integers multiply to the integer that is their product, in either order, or are refused
/// as too wide.
pub proof fn multiplying_integers_is_exact(a: Datum, b: Datum, p: int, q: int)
    requires
        num_of(a) == Some(Num::Int(p)),
        num_of(b) == Some(Num::Int(q)),
    ensures
        width(p) + width(q) <= 65_536 && width(p * q) <= 65_536 ==> (apply_step(
            "mul"@,
            a,
            b,
        ) matches Step::Value(r) && num_of(r) == Some(Num::Int(p * q))),
        width(p) + width(q) > 65_536 ==> apply_step("mul"@, a, b) == Step::Fault(
            Fault::IntegerTooWide,
        ),
        apply_step("mul"@, a, b) == apply_step("mul"@, b, a),
{
    reached(a, b);
    reached(b, a);
    assert(p * q == q * p) by (nonlinear_arith);
    integer_text_reads_back(p * q);
}

/// Multiplying a list by an integer repeats it, whichever side the list stands on: item `i` of
/// the result is item `i` of the list counted round. A negative count empties it.
pub proof fn multiplying_a_list_repeats_it(x: Seq<Datum>, b: Datum, n: int, out: Seq<Datum>, i: int)
    requires
        num_of(b) == Some(Num::Int(n)),
        apply_step("mul"@, Datum::List(x), b) == Step::Value(Datum::List(out)),
    ensures
        apply_step("mul"@, b, Datum::List(x)) == Step::Value(Datum::List(out)),
        n <= 0 ==> out.len() == 0,
        n > 0 ==> out.len() == x.len() * n,
        0 <= i < out.len() ==> x.len() > 0 && out[i] == x[i % x.len() as int],
{
    reached(Datum::List(x), b);
    reached(b, Datum::List(x));
    let k = if n < 0 {
        0nat
    } else {
        n as nat
    };
    repetition(x, k, i);
}

/// Multiplying a text by an integer repeats it in the same way.
pub proof fn multiplying_a_text_repeats_it(s: Seq<char>, b: Datum, n: int, out: Seq<char>, i: int)
    requires
        num_of(b) == Some(Num::Int(n)),
        apply_step("mul"@, Datum::Text(s), b) == Step::Value(Datum::Text(out)),
    ensures
        apply_step("mul"@, b, Datum::Text(s)) == Step::Value(Datum::Text(out)),
        n <= 0 ==> out.len() == 0,
        n > 0 ==> out.len() == s.len() * n,
        0 <= i < out.len() ==> s.len() > 0 && out[i] == s[i % s.len() as int],
{
    reached(Datum::Text(s), b);
    reached(b, Datum::Text(s));
    let k = if n < 0 {
        0nat
    } else {
        n as nat
    };
    repetition(s, k, i);
}

/// Place `i` of a repetition.
proof fn repetition<A>(s: Seq<A>, n: nat, i: int)
    ensures
        repeated(s, n).len() == s.len() * n,
        0 <= i < repeated(s, n).len() ==> s.len() > 0 && repeated(s, n)[i] == s[i % s.len() as int],
    decreases n,
{
    if n == 0 {
        assert(s.len() * 0 == 0);
    } else {
        let m = (n - 1) as nat;
        repetition(s, m, i);
        let l = s.len() as int;
        assert(l * n == l * m + l) by (nonlinear_arith)
            requires
                n == m + 1,
        ;
        if l * m <= i < l * n {
            let r = i - l * m;
            vstd::arithmetic::div_mod::lemma_mod_multiples_vanish(m as int, r, l);
            assert(l * (m as int) + r == i);
            vstd::arithmetic::div_mod::lemma_small_mod(r as nat, l as nat);
        } else if l == 0 {
            assert(l * m == 0) by (nonlinear_arith)
                requires
                    l == 0,
            ;
        }
    }
}

/// Raising the current integer to a power that is not negative multiplies it by itself that
/// many times: to the power of zero it is one, and each further power is one more factor.
pub proof fn a_power_is_a_repeated_product(
    a: Datum,
    b: Datum,
    c: Datum,
    p: int,
    q: int,
    r: Datum,
    s: Datum,
)
    requires
        num_of(a) == Some(Num::Int(p)),
        num_of(b) == Some(Num::Int(q)),
        num_of(c) == Some(Num::Int(q + 1)),
        q >= 0,
        apply_step("pow"@, a, b) == Step::Value(r),
        apply_step("pow"@, a, c) == Step::Value(s),
    ensures
        num_of(r) matches Some(Num::Int(v)) && num_of(s) == Some(Num::Int(p * v)),
        q == 0 ==> num_of(r) == Some(Num::Int(1)),
{
    reached(a, b);
    reached(a, c);
    reveal(pow);
    integer_text_reads_back(pow(p, q as nat));
    integer_text_reads_back(pow(p, (q + 1) as nat));
}

/// A remainder of integers lies between zero and the divisor, on the divisor's side, and
/// differs from the current value by a multiple of the divisor. Dividing by zero is refused.
pub proof fn a_remainder_is_of_the_current_value(a: Datum, b: Datum, p: int, q: int)
    requires
        num_of(a) == Some(Num::Int(p)),
        num_of(b) == Some(Num::Int(q)),
        width(p) <= 65_536,
        width(q) <= 65_536,
    ensures
        q == 0 ==> apply_step("mod"@, a, b) == Step::Fault(Fault::ZeroDivisionError),
        q != 0 ==> (apply_step("mod"@, a, b) matches Step::Value(r) && num_of(r) matches Some(
            Num::Int(v),
        ) && (q > 0 ==> 0 <= v < q) && (q < 0 ==> q < v <= 0) && exists|k: int|
            p == #[trigger] (k * q) + v),
{
    reached(a, b);
    if q != 0 {
        floor_mod_follows_the_divisor(p, q);
        integer_text_reads_back(floor_mod(p, q));
        narrower(floor_mod(p, q), q);
    }
}

/// What is no greater in magnitude is no wider.
proof fn narrower(v: int, w: int)
    requires
        magnitude(v) <= magnitude(w),
    ensures
        width(v) <= width(w),
{
    fewer_digits(magnitude(v), magnitude(w));
}

proof fn fewer_digits(m: nat, n: nat)
    requires
        m <= n,
    ensures
        crate::datastore::integer::binary_digits(m) <= crate::datastore::integer::binary_digits(n),
    decreases m,
{
    if m > 0 {
        fewer_digits(m / 2, n / 2);
    }
}

/// Rounding down gives the integer at or just below the number, rounding up the one at or just
/// above it; the argument plays no part.
pub proof fn rounding_is_to_the_nearest_side(a: Datum, b: Datum, c: Datum, n: Num, r: Datum)
    requires
        num_of(a) == Some(n),
    ensures
        apply_step("floor"@, a, b) == apply_step("floor"@, a, c),
        apply_step("ceil"@, a, b) == apply_step("ceil"@, a, c),
        apply_step("floor"@, a, b) == Step::Value(r) ==> (num_of(r) matches Some(Num::Int(v)) && v
            * pow2(1074) <= num_units(n) < (v + 1) * pow2(1074)),
        apply_step("ceil"@, a, b) == Step::Value(r) ==> (num_of(r) matches Some(Num::Int(v)) && (v
            - 1) * pow2(1074) < num_units(n) <= v * pow2(1074)),
{
    reached(a, b);
    reached(a, c);
    let u = num_units(n);
    let d = pow2(1074) as int;
    vstd::arithmetic::power2::lemma_pow2_pos(1074);
    vstd::arithmetic::div_mod::lemma_fundamental_div_mod(u, d);
    vstd::arithmetic::div_mod::lemma_fundamental_div_mod(-u, d);
    let f = u / d;
    let g = (-u) / d;
    assert(f * d <= u < (f + 1) * d) by (nonlinear_arith)
        requires
            u == d * f + u % d,
            0 <= u % d < d,
    ;
    assert((-g - 1) * d < u <= (-g) * d) by (nonlinear_arith)
        requires
            -u == d * g + (-u) % d,
            0 <= (-u) % d < d,
    ;
    integer_text_reads_back(f);
    integer_text_reads_back(-g);
}

/// The lowest bit of an integer, and the bits above it, which are those of its half.
proof fn bits_of_half(v: int, i: nat)
    ensures
        int_bit(v, 0) == (v % 2 == 1),
        int_bit(v, i + 1) == int_bit(v / 2, i),
{
    vstd::arithmetic::power2::lemma2_to64();
    vstd::arithmetic::power2::lemma_pow2_unfold(i + 1);
    vstd::arithmetic::power2::lemma_pow2_pos(i);
    let d = pow2(i) as int;
    let h = v / 2;
    vstd::arithmetic::div_mod::lemma_fundamental_div_mod(h, d);
    let a = h / d;
    let low = 2 * (h % d) + v % 2;
    assert(v == a * (2 * d) + low) by (nonlinear_arith)
        requires
            v == 2 * h + v % 2,
            h == d * a + h % d,
            low == 2 * (h % d) + v % 2,
    ;
    vstd::arithmetic::div_mod::lemma_fundamental_div_mod_converse(v, 2 * d, a, low);
}

/// An integer whose bits are all alike.
proof fn bits_alike(i: nat)
    ensures
        !int_bit(0, i),
        int_bit(-1, i),
    decreases i,
{
    bits_of_half(0, (i - 1) as nat);
    bits_of_half(-1, (i - 1) as nat);
    if i > 0 {
        bits_alike((i - 1) as nat);
    }
}

/// Every bitwise operation has a result.
proof fn bitwise_exists(op: BitOp, p: int, q: int) -> (r: int)
    ensures
        is_bitwise(op, p, q, r),
    decreases magnitude(p) + magnitude(q),
{
    if (p == 0 || p == -1) && (q == 0 || q == -1) {
        let r = if bit_result(op, p == -1, q == -1) {
            -1int
        } else {
            0int
        };
        assert forall|i: nat| #[trigger]
            int_bit(r, i) == bit_result(op, int_bit(p, i), int_bit(q, i)) by {
            bits_alike(i);
        }
        r
    } else {
        let h = bitwise_exists(op, p / 2, q / 2);
        let r = 2 * h + if bit_result(op, p % 2 == 1, q % 2 == 1) {
            1int
        } else {
            0int
        };
        assert forall|i: nat| #[trigger]
            int_bit(r, i) == bit_result(op, int_bit(p, i), int_bit(q, i)) by {
            if i == 0 {
                bits_of_half(r, 0);
                bits_of_half(p, 0);
                bits_of_half(q, 0);
            } else {
                let j = (i - 1) as nat;
                bits_of_half(r, j);
                bits_of_half(p, j);
                bits_of_half(q, j);
                assert(r / 2 == h);
                assert(int_bit(h, j) == bit_result(op, int_bit(p / 2, j), int_bit(q / 2, j)));
            }
        }
        r
    }
}

/// Bit for bit: `and` has a bit where both operands have it, `or` where one has it, `xor` where
/// just one has it.
pub proof fn bitwise_operations_go_bit_by_bit(
    a: Datum,
    b: Datum,
    p: int,
    q: int,
    and: Datum,
    or: Datum,
    xor: Datum,
    i: nat,
)
    requires
        num_of(a) == Some(Num::Int(p)),
        num_of(b) == Some(Num::Int(q)),
        !(a is Bool && b is Bool),
        apply_step("and"@, a, b) == Step::Value(and),
        apply_step("or"@, a, b) == Step::Value(or),
        apply_step("xor"@, a, b) == Step::Value(xor),
    ensures
        num_of(and) matches Some(Num::Int(v)) && int_bit(v, i) == (int_bit(p, i) && int_bit(q, i)),
        num_of(or) matches Some(Num::Int(v)) && int_bit(v, i) == (int_bit(p, i) || int_bit(q, i)),
        num_of(xor) matches Some(Num::Int(v)) && int_bit(v, i) == (int_bit(p, i) != int_bit(q, i)),
{
    reached(a, b);
    let r = bitwise_exists(BitOp::And, p, q);
    integer_text_reads_back(bitwise_of(BitOp::And, p, q));
    assert(is_bitwise(BitOp::And, p, q, bitwise_of(BitOp::And, p, q)));
    let r = bitwise_exists(BitOp::Or, p, q);
    integer_text_reads_back(bitwise_of(BitOp::Or, p, q));
    assert(is_bitwise(BitOp::Or, p, q, bitwise_of(BitOp::Or, p, q)));
    let r = bitwise_exists(BitOp::Xor, p, q);
    integer_text_reads_back(bitwise_of(BitOp::Xor, p, q));
    assert(is_bitwise(BitOp::Xor, p, q, bitwise_of(BitOp::Xor, p, q)));
}

/// Of two booleans the bitwise operations give a boolean: both, either, just one.
pub proof fn bitwise_operations_on_booleans(p: bool, q: bool)
    ensures
        apply_step("and"@, Datum::Bool(p), Datum::Bool(q)) == Step::Value(Datum::Bool(p && q)),
        apply_step("or"@, Datum::Bool(p), Datum::Bool(q)) == Step::Value(Datum::Bool(p || q)),
        apply_step("xor"@, Datum::Bool(p), Datum::Bool(q)) == Step::Value(Datum::Bool(p != q)),
{
    reached(Datum::Bool(p), Datum::Bool(q));
}

/// A shift to the left doubles the current value once for each place, a shift to the right
/// halves it, rounding down; a negative count is refused.
pub proof fn shifts_double_and_halve(a: Datum, b: Datum, p: int, q: int, l: Datum, r: Datum)
    requires
        num_of(a) == Some(Num::Int(p)),
        num_of(b) == Some(Num::Int(q)),
    ensures
        apply_step("left_shift"@, a, b) == Step::Value(l) ==> q >= 0 && num_of(l) == Some(
            Num::Int(p * pow2(q as nat)),
        ),
        apply_step("right_shift"@, a, b) == Step::Value(r) ==> q >= 0 && (num_of(r) matches Some(
            Num::Int(v),
        ) && v * pow2(q as nat) <= p < (v + 1) * pow2(q as nat)),
        q < 0 && width(p) <= 65_536 && width(q) <= 65_536 ==> apply_step("left_shift"@, a, b)
            == Step::Fault(Fault::ValueError("negative shift count"@)) && apply_step(
            "right_shift"@,
            a,
            b,
        ) == Step::Fault(Fault::ValueError("negative shift count"@)),
{
    reached(a, b);
    if q >= 0 {
        let d = pow2(q as nat) as int;
        let v = p / d;
        vstd::arithmetic::power2::lemma_pow2_pos(q as nat);
        vstd::arithmetic::div_mod::lemma_fundamental_div_mod(p, d);
        assert(v * d <= p < (v + 1) * d) by (nonlinear_arith)
            requires
                p == d * v + p % d,
                0 <= p % d < d,
        ;
        integer_text_reads_back(v);
        integer_text_reads_back(p * d);
    }
}

/// Shifting to the right undoes a shift to the left by as much.
pub proof fn a_left_shift_can_be_undone(a: Datum, b: Datum, l: Datum)
    requires
        num_of(a) matches Some(Num::Int(_)),
        num_of(b) matches Some(Num::Int(_)),
        apply_step("left_shift"@, a, b) == Step::Value(l),
    ensures
        apply_step("right_shift"@, l, b) matches Step::Value(r) && num_of(r) == num_of(a),
{
    let p = num_of(a)->0->Int_0;
    let q = num_of(b)->0->Int_0;
    let d = pow2(q as nat) as int;
    reached(a, b);
    reached(l, b);
    integer_text_reads_back(p * d);
    integer_text_reads_back(p);
    vstd::arithmetic::power2::lemma_pow2_pos(q as nat);
    vstd::arithmetic::div_mod::lemma_div_multiples_vanish(p, d);
    assert(p * d == d * p) by (nonlinear_arith);
}

/// Where the first equal item stands.
proof fn first_same_properties(items: Seq<Datum>, needle: Datum, i: int)
    requires
        0 <= i <= items.len(),
    ensures
        i <= first_same(items, needle, i) <= items.len(),
        first_same(items, needle, i) < items.len() ==> same(
            items[first_same(items, needle, i)],
            needle,
        ),
        forall|j: int|
            i <= j < first_same(items, needle, i) ==> !same(#[trigger] items[j], needle),
    decreases items.len() - i,
{
    if i < items.len() && !same(items[i], needle) {
        first_same_properties(items, needle, i + 1);
    }
}

/// Removing a value from a list takes out one item, the first that equals it, and leaves the
/// others in order; a list without such an item stays as it is.
pub proof fn remove_takes_out_the_first_equal(items: Seq<Datum>, b: Datum, k: int)
    requires
        0 <= k <= items.len(),
        forall|j: int| 0 <= j < k ==> !same(#[trigger] items[j], b),
        k < items.len() ==> same(items[k], b),
    ensures
        apply_step("remove"@, Datum::List(items), b) == Step::Value(
            Datum::List(
                if k < items.len() {
                    items.take(k) + items.skip(k + 1)
                } else {
                    items
                },
            ),
        ),
{
    reached(Datum::List(items), b);
    first_same_properties(items, b, 0);
    let f = first_same(items, b, 0);
    if f < k {
        assert(!same(items[f], b));
    }
    if k < f {
        assert(!same(items[k], b));
    }
    if k < items.len() {
        assert(items.remove(k) =~= items.take(k) + items.skip(k + 1));
    }
}

/// Popping a list takes out the item at the index, counted from the end where it is negative;
/// an index past the end changes nothing and one before the start is refused.
pub proof fn pop_takes_out_the_item_at_the_index(items: Seq<Datum>, b: Datum, i: int)
    requires
        num_of(b) == Some(Num::Int(i)),
    ensures
        0 <= i < items.len() ==> apply_step("pop"@, Datum::List(items), b) == Step::Value(
            Datum::List(items.take(i) + items.skip(i + 1)),
        ),
        i >= items.len() ==> apply_step("pop"@, Datum::List(items), b) == Step::Value(
            Datum::List(items),
        ),
        -(items.len() as int) <= i < 0 ==> apply_step("pop"@, Datum::List(items), b) == Step::Value(
            Datum::List(items.take(items.len() + i) + items.skip(items.len() + i + 1)),
        ),
        i < -(items.len() as int) ==> apply_step("pop"@, Datum::List(items), b) == Step::Fault(
            Fault::IndexError,
        ),
{
    reached(Datum::List(items), b);
    if 0 <= i < items.len() {
        assert(items.remove(i) =~= items.take(i) + items.skip(i + 1));
    }
    let k = items.len() + i;
    if 0 <= k < items.len() {
        assert(items.remove(k) =~= items.take(k) + items.skip(k + 1));
    }
}

/// Popping a key from an object takes out that member alone; no member has the key afterwards.
pub proof fn pop_takes_out_the_member(
    m: Seq<(Seq<char>, Datum)>,
    key: Seq<char>,
    out: Seq<(Seq<char>, Datum)>,
    e: (Seq<char>, Datum),
)
    requires
        keys_distinct(m),
        apply_step("pop"@, Datum::Dict(m), Datum::Text(key)) == Step::Value(Datum::Dict(out)),
    ensures
        out.contains(e) <==> m.contains(e) && e.0 != key,
{
    reached(Datum::Dict(m), Datum::Text(key));
    first_key_properties(m, key, 0);
    let k = first_key(m, key, 0);
    if k < m.len() {
        assert forall|j: int| 0 <= j < m.len() && j != k implies (#[trigger] m[j]).0 != key by {}
        if out.contains(e) {
            let j = choose|j: int| 0 <= j < out.len() && out[j] == e;
            if j < k {
                assert(m[j] == e);
            } else {
                assert(m[j + 1] == e);
            }
        }
        if m.contains(e) && e.0 != key {
            let j = choose|j: int| 0 <= j < m.len() && m[j] == e;
            if j < k {
                assert(out[j] == e);
            } else {
                assert(out[j - 1] == e);
            }
        }
    } else {
        assert forall|j: int| 0 <= j < m.len() implies (#[trigger] m[j]).0 != key by {}
    }
}

/// Merging objects, by `or` or by `update`: a key of the argument has the argument's value, any
/// other key the value that it had, and no further key is there.
pub proof fn merged_members_are_the_arguments(
    m: Seq<(Seq<char>, Datum)>,
    n: Seq<(Seq<char>, Datum)>,
    e: (Seq<char>, Datum),
)
    requires
        keys_distinct(m),
        keys_distinct(n),
    ensures
        apply_step("or"@, Datum::Dict(m), Datum::Dict(n)) == apply_step(
            "update"@,
            Datum::Dict(m),
            Datum::Dict(n),
        ),
        apply_step("or"@, Datum::Dict(m), Datum::Dict(n)) matches Step::Value(Datum::Dict(out)) && (
        out.contains(e) <==> n.contains(e) || (m.contains(e) && forall|j: int|
            0 <= j < n.len() ==> (#[trigger] n[j]).0 != e.0)),
{
    reached(Datum::Dict(m), Datum::Dict(n));
    merged_members(m, n, e);
}

proof fn merged_members(
    m: Seq<(Seq<char>, Datum)>,
    n: Seq<(Seq<char>, Datum)>,
    e: (Seq<char>, Datum),
)
    requires
        keys_distinct(m),
        keys_distinct(n),
    ensures
        put_all(m, n).contains(e) <==> n.contains(e) || (m.contains(e) && forall|j: int|
            0 <= j < n.len() ==> (#[trigger] n[j]).0 != e.0),
        keys_distinct(put_all(m, n)),
    decreases n.len(),
{
    crate::datastore::laws::merging_keeps_keys_distinct(m, n);
    if n.len() > 0 {
        let rest = n.drop_last();
        let last = n.last();
        assert forall|i: int, j: int| 0 <= i < j < rest.len() implies (#[trigger] rest[i]).0 != (
        #[trigger] rest[j]).0 by {
            assert(n[i].0 != n[j].0);
        }
        merged_members(m, rest, e);
        put_holds(put_all(m, rest), last.0, last.1, e);
        assert(n =~= rest.push(last));
        assert(rest.contains(e) ==> e.0 != last.0) by {
            if rest.contains(e) {
                let j = choose|j: int| 0 <= j < rest.len() && rest[j] == e;
                assert(n[j].0 != n[n.len() - 1].0);
            }
        }
        assert(n.contains(e) <==> rest.contains(e) || e == last) by {
            if n.contains(e) {
                let j = choose|j: int| 0 <= j < n.len() && n[j] == e;
                if j < rest.len() {
                    assert(rest[j] == e);
                }
            }
            if rest.contains(e) {
                let j = choose|j: int| 0 <= j < rest.len() && rest[j] == e;
                assert(n[j] == e);
            }
            assert(n[n.len() - 1] == last);
        }
        if forall|j: int| 0 <= j < n.len() ==> (#[trigger] n[j]).0 != e.0 {
            assert(n[n.len() - 1].0 != e.0);
            assert forall|j: int| 0 <= j < rest.len() implies (#[trigger] rest[j]).0 != e.0 by {
                assert(n[j].0 != e.0);
            }
        }
        if (forall|j: int| 0 <= j < rest.len() ==> (#[trigger] rest[j]).0 != e.0) && last.0 != e.0 {
            assert forall|j: int| 0 <= j < n.len() implies (#[trigger] n[j]).0 != e.0 by {
                if j < rest.len() {
                    assert(rest[j].0 != e.0);
                }
            }
        }
    }
}

/// What an object holds after one member was set.
proof fn put_holds(m: Seq<(Seq<char>, Datum)>, key: Seq<char>, v: Datum, e: (Seq<char>, Datum))
    requires
        keys_distinct(m),
    ensures
        put(m, key, v).contains(e) <==> e == (key, v) || (m.contains(e) && e.0 != key),
{
    first_key_properties(m, key, 0);
    let k = first_key(m, key, 0);
    let out = put(m, key, v);
    assert forall|j: int| 0 <= j < m.len() && j != k implies (#[trigger] m[j]).0 != key by {}
    if k < m.len() {
        assert(out[k] == (key, v));
    } else {
        assert(out[m.len() as int] == (key, v));
    }
    if m.contains(e) && e.0 != key {
        let j = choose|j: int| 0 <= j < m.len() && m[j] == e;
        assert(out[j] == e);
    }
    if out.contains(e) && e != (key, v) {
        let j = choose|j: int| 0 <= j < out.len() && out[j] == e;
        assert(j < m.len() && m[j] == e);
    }
}

/// Updating a list adds those entries that the list did not hold, and nothing else; it succeeds
/// on entries that can be members of a set where the result cannot grow too long.
pub proof fn update_adds_what_was_missing(
    items: Seq<Datum>,
    entries: Seq<Datum>,
    out: Seq<Datum>,
    d: Datum,
)
    ensures
        apply_step("update"@, Datum::List(items), Datum::List(entries)) == Step::Value(
            Datum::List(out),
        ) ==> (out.contains(d) <==> items.contains(d) || (entries.contains(d) && forall|j: int|
            0 <= j < items.len() ==> !same(#[trigger] items[j], d))),
        (forall|j: int| 0 <= j < items.len() ==> !((#[trigger] items[j]) is List) && !(
        items[j] is Dict)) && (forall|j: int|
            0 <= j < entries.len() ==> !((#[trigger] entries[j]) is List) && !(entries[j] is Dict))
            && items.len() + entries.len() <= 16_777_216 ==> apply_step(
            "update"@,
            Datum::List(items),
            Datum::List(entries),
        ) is Value,
{
    reached(Datum::List(items), Datum::List(entries));
    absorbed(items, items, entries, 0, d);
    assert(entries.skip(0) =~= entries);
    if apply_step("update"@, Datum::List(items), Datum::List(entries)) is Value {
        let o = absorb(items, items, entries, 0)->Value_0->List_0;
        assert(holds(items, d) <==> !(forall|j: int|
            0 <= j < items.len() ==> !same(#[trigger] items[j], d)));
    }
    if forall|j: int|
        0 <= j < entries.len() ==> !((#[trigger] entries[j]) is List) && !(entries[j] is Dict) {
        assert forall|j: int| 0 <= j < entries.len() implies hashable(#[trigger] entries[j]) by {}
    }
}

proof fn absorbed(original: Seq<Datum>, items: Seq<Datum>, entries: Seq<Datum>, i: int, d: Datum)
    requires
        0 <= i <= entries.len(),
    ensures
        absorb(original, items, entries, i) is Value ==> {
            &&& absorb(original, items, entries, i)->Value_0 is List
            &&& absorb(original, items, entries, i)->Value_0->List_0.contains(d) <==> (
            items.contains(d) || (entries.skip(i).contains(d) && !holds(original, d)))
        },
        (forall|j: int| i <= j < entries.len() ==> hashable(#[trigger] entries[j])) && items.len()
            + entries.len() - i <= 16_777_216 ==> absorb(original, items, entries, i) is Value,
    decreases entries.len() - i,
{
    if i < entries.len() {
        let e = entries[i];
        let rest = entries.skip(i + 1);
        assert(entries.skip(i) =~= seq![e] + rest);
        assert(entries.skip(i).contains(d) <==> e == d || rest.contains(d)) by {
            assert(entries.skip(i)[0] == e);
            if rest.contains(d) {
                let j = choose|j: int| 0 <= j < rest.len() && rest[j] == d;
                assert(entries.skip(i)[j + 1] == d);
            }
            if entries.skip(i).contains(d) {
                let j = choose|j: int| 0 <= j < entries.skip(i).len() && entries.skip(i)[j] == d;
                if j > 0 {
                    assert(rest[j - 1] == d);
                }
            }
        }
        assert(items.push(e).contains(d) <==> items.contains(d) || e == d) by {
            assert(items.push(e)[items.len() as int] == e);
            if items.contains(d) {
                let j = choose|j: int| 0 <= j < items.len() && items[j] == d;
                assert(items.push(e)[j] == d);
            }
        }
        absorbed(original, items, entries, i + 1, d);
        absorbed(original, items.push(e), entries, i + 1, d);
    }
}

/// Updating a list by a text adds its characters, by an object its keys.
pub proof fn update_iterates_its_argument(
    items: Seq<Datum>,
    s: Seq<char>,
    m: Seq<(Seq<char>, Datum)>,
    chars: Seq<Datum>,
    keys: Seq<Datum>,
)
    requires
        chars.len() == s.len(),
        forall|i: int| 0 <= i < s.len() ==> #[trigger] chars[i] == Datum::Text(seq![s[i]]),
        keys.len() == m.len(),
        forall|i: int| 0 <= i < m.len() ==> #[trigger] keys[i] == Datum::Text(m[i].0),
    ensures
        apply_step("update"@, Datum::List(items), Datum::Text(s)) == apply_step(
            "update"@,
            Datum::List(items),
            Datum::List(chars),
        ),
        apply_step("update"@, Datum::List(items), Datum::Dict(m)) == apply_step(
            "update"@,
            Datum::List(items),
            Datum::List(keys),
        ),
{
    reached(Datum::List(items), Datum::Text(s));
    reached(Datum::List(items), Datum::List(chars));
    reached(Datum::List(items), Datum::Dict(m));
    reached(Datum::List(items), Datum::List(keys));
    assert(iterated(Datum::Text(s))->0 =~= chars);
    assert(iterated(Datum::Dict(m))->0 =~= keys);
}

/// Updating an object by a list of pairs is updating it by the object of those members.
pub proof fn update_by_pairs_is_update_by_members(
    m: Seq<(Seq<char>, Datum)>,
    n: Seq<(Seq<char>, Datum)>,
    pairs: Seq<Datum>,
)
    requires
        pairs.len() == n.len(),
        forall|i: int|
            0 <= i < n.len() ==> #[trigger] pairs[i] == Datum::List(
                seq![Datum::Text(n[i].0), n[i].1],
            ),
    ensures
        apply_step("update"@, Datum::Dict(m), Datum::List(pairs)) == apply_step(
            "update"@,
            Datum::Dict(m),
            Datum::Dict(n),
        ),
{
    reached(Datum::Dict(m), Datum::List(pairs));
    reached(Datum::Dict(m), Datum::Dict(n));
    assert(n.take(0) =~= Seq::empty());
    pairs_absorbed(m, n, pairs, 0);
}

proof fn pairs_absorbed(
    m: Seq<(Seq<char>, Datum)>,
    n: Seq<(Seq<char>, Datum)>,
    pairs: Seq<Datum>,
    i: int,
)
    requires
        pairs.len() == n.len(),
        0 <= i <= n.len(),
        forall|j: int|
            0 <= j < n.len() ==> #[trigger] pairs[j] == Datum::List(
                seq![Datum::Text(n[j].0), n[j].1],
            ),
    ensures
        absorb_pairs(put_all(m, n.take(i)), pairs, i) == Step::Value(Datum::Dict(put_all(m, n))),
    decreases n.len() - i,
{
    if i < n.len() {
        assert(n.take(i + 1).drop_last() =~= n.take(i));
        assert(n.take(i + 1).last() == n[i]);
        let kv = seq![Datum::Text(n[i].0), n[i].1];
        assert(iterated(pairs[i]) == Some(kv));
        assert(kv[0] == Datum::Text(n[i].0) && kv[1] == n[i].1);
        pairs_absorbed(m, n, pairs, i + 1);
    } else {
        assert(n.take(i) =~= n);
    }
}

/// Where an operand is a double, arithmetic is on doubles, with the current value in front; an
/// integer too large for a double is refused.
pub proof fn doubles_are_computed_with_in_order(a: Datum, b: Datum, x: Num, y: Num)
    requires
        num_of(a) == Some(x),
        num_of(b) == Some(y),
        x is Float || y is Float,
        x matches Num::Int(v) ==> width(v) <= 1023,
        y matches Num::Int(v) ==> width(v) <= 1023,
    ensures
        apply_step("add"@, a, b) == Step::Float(FloatOp::Add, x, y),
        apply_step("mul"@, a, b) == Step::Float(FloatOp::Mul, x, y),
        apply_step("pow"@, a, b) == Step::Float(FloatOp::Pow, x, y),
        num_units(y) != 0 ==> apply_step("mod"@, a, b) == Step::Float(FloatOp::Mod, x, y),
        num_units(y) == 0 ==> apply_step("mod"@, a, b) == Step::Fault(Fault::ZeroDivisionError),
{
    reached(a, b);
    let z = if x is Int {
        x->Int_0
    } else if y is Int {
        y->Int_0
    } else {
        0
    };
    crate::datastore::ops::width_bounds(z);
    let w = if width(z) <= 1023 {
        width(z)
    } else {
        0
    };
    if w < 1023 {
        vstd::arithmetic::power2::lemma_pow2_strictly_increases(w, 1023);
    }
    vstd::arithmetic::power2::lemma_pow2_adds(53, 970);
    vstd::arithmetic::power2::lemma2_to64_rest();
    vstd::arithmetic::power2::lemma_pow2_pos(970);
    assert(0x20_0000_0000_0000 * pow2(970) < 0x3f_ffff_ffff_ffff * pow2(970)) by (nonlinear_arith)
        requires
            pow2(970) > 0,
    ;
    if z == 0 {
        assert(magnitude(0) == 0);
    }
}

/// True counts as one and false as zero; null, texts, lists and objects are no numbers, and
/// arithmetic on them is refused.
pub proof fn what_counts_as_a_number(d: Datum, b: Datum)
    ensures
        num_of(Datum::Bool(true)) == Some(Num::Int(1)),
        num_of(Datum::Bool(false)) == Some(Num::Int(0)),
        d is Null || d is Text || d is List || d is Dict ==> num_of(d) is None,
        d is Null || d is Dict ==> apply_step("add"@, d, b) is Fault && apply_step(
            "pow"@,
            d,
            b,
        ) is Fault && apply_step("mod"@, d, b) is Fault && apply_step("floor"@, d, b) is Fault
            && apply_step("ceil"@, d, b) is Fault && apply_step("and"@, d, b) is Fault
            && apply_step("xor"@, d, b) is Fault && apply_step("left_shift"@, d, b) is Fault
            && apply_step("right_shift"@, d, b) is Fault && apply_step("max"@, d, b) is Fault
            && apply_step("min"@, d, b) is Fault && apply_step("remove"@, d, b) is Fault,
        d is Null ==> apply_step("mul"@, d, b) is Fault && apply_step("or"@, d, b) is Fault
            && apply_step("pop"@, d, b) is Fault && apply_step("update"@, d, b) is Fault,
{
    reached(d, b);
}

/// A double with exponent field 1023 + k and no fraction is two to the power of `k`: it equals
/// that integer, and with the sign bit set its negative.
pub proof fn powers_of_two_equal_their_doubles(k: nat, bits: u64, text: Seq<char>, a: Datum)
    requires
        k <= 1023,
        bits == (1023 + k) * 0x10_0000_0000_0000,
        !is_integer_text(text),
        num_of(a) == Some(Num::Int(pow2(k) as int)),
    ensures
        same(a, Datum::Number(text, Some(bits))),
        num_units(Num::Float((bits + 0x8000_0000_0000_0000) as u64)) == -num_units(
            Num::Float(bits),
        ),
{
    let n = (1023 + k) as int;
    assert(n * 0x10_0000_0000_0000 / 0x10_0000_0000_0000 == n);
    assert((n * 0x10_0000_0000_0000) % 0x10_0000_0000_0000 == 0);
    assert(n % 2048 == n);
    let m = n + 2048;
    assert(bits + 0x8000_0000_0000_0000 == m * 0x10_0000_0000_0000);
    assert(m * 0x10_0000_0000_0000 / 0x10_0000_0000_0000 == m);
    assert((m * 0x10_0000_0000_0000) % 0x10_0000_0000_0000 == 0);
    assert(m % 2048 == n);
    vstd::arithmetic::power2::lemma2_to64_rest();
    vstd::arithmetic::power2::lemma_pow2_adds(52, (1022 + k) as nat);
    vstd::arithmetic::power2::lemma_pow2_adds(1074, k);
    let s = pow2((1022 + k) as nat) as int;
    assert((-0x10_0000_0000_0000) * s == -(0x10_0000_0000_0000 * s)) by (nonlinear_arith);
    assert(pow2(k) * pow2(1074) == pow2(1074) * pow2(k)) by (nonlinear_arith);
}

/// Lists are equal item by item, texts character by character; a text is never equal to a
/// number, nor null to anything but null.
pub proof fn containers_equal_by_contents(x: Seq<Datum>, y: Seq<Datum>, s: Seq<char>, d: Datum)
    ensures
        same(Datum::List(x), Datum::List(y)) <==> x.len() == y.len() && forall|i: int|
            0 <= i < x.len() ==> same(#[trigger] x[i], y[i]),
        same(Datum::Text(s), d) <==> d == Datum::Text(s),
        same(Datum::Null, d) <==> d == Datum::Null,
        num_of(d) is Some ==> !same(d, Datum::Text(s)) && !same(d, Datum::List(x)),
{
}

/// A sequence with no operation leaves the value; one operation gives what it gives alone.
pub proof fn a_sequence_of_one_is_its_operation(v: Datum, op: Seq<char>, b: Datum)
    ensures
        run_from(v, Seq::empty(), 0) == Run::Done(v),
        apply_step(op, v, b) matches Step::Value(w) ==> run_from(v, seq![(op, b)], 0) == Run::Done(
            w,
        ),
        apply_step(op, v, b) matches Step::Fault(f) ==> run_from(v, seq![(op, b)], 0)
            == Run::Failed(0, f),
        apply_step(op, v, b) matches Step::Float(o, x, y) ==> run_from(v, seq![(op, b)], 0)
            == Run::Float(0, o, x, y),
{
    let one = seq![(op, b)];
    assert(one[0] == (op, b) && one.len() == 1);
    reveal_with_fuel(run_from, 3);
}

/// A failure is counted under the operation's own name where it is one of the eighteen, and as
/// unknown where it is none of them.
pub proof fn failures_are_counted_by_name(op: Seq<char>, a: Datum, b: Datum, f: Fault)
    requires
        apply_step(op, a, b) == Step::Fault(f),
    ensures
        operation_names().contains(op) ==> failure_name(op, f) == op,
        !operation_names().contains(op) ==> f == Fault::UnknownOperation(op) && failure_name(op, f)
            == "unknown"@,
{
    let n = operation_names();
    assert(n[0] == "replace"@ && n[1] == "default"@ && n[2] == "add"@ && n[3] == "mul"@ && n[4]
        == "pow"@ && n[5] == "mod"@ && n[6] == "floor"@ && n[7] == "ceil"@ && n[8] == "max"@
        && n[9] == "min"@ && n[10] == "xor"@ && n[11] == "or"@ && n[12] == "and"@ && n[13]
        == "left_shift"@ && n[14] == "right_shift"@ && n[15] == "remove"@ && n[16] == "pop"@
        && n[17] == "update"@);
    names_differ();
    if n.contains(op) {
        reached(a, b);
        known_operations_are_known(a, b);
    }
}

/// No operation complains that it is unknown.
proof fn known_operations_are_known(a: Datum, b: Datum)
    ensures
        !(update_step(a, b) matches Step::Fault(Fault::UnknownOperation(_))),
{
    match (a, b) {
        (Datum::List(items), _) => match iterated(b) {
            Some(entries) => absorbing_is_known(items, items, entries, 0),
            None => {},
        },
        (Datum::Dict(m), _) => match iterated(b) {
            Some(elements) => pairing_is_known(m, elements, 0),
            None => {},
        },
        _ => {},
    }
}

proof fn absorbing_is_known(original: Seq<Datum>, items: Seq<Datum>, entries: Seq<Datum>, i: int)
    ensures
        !(absorb(original, items, entries, i) matches Step::Fault(Fault::UnknownOperation(_))),
    decreases entries.len() - i,
{
    if i < entries.len() {
        absorbing_is_known(original, items, entries, i + 1);
        absorbing_is_known(original, items.push(entries[i]), entries, i + 1);
    }
}

proof fn pairing_is_known(m: Seq<(Seq<char>, Datum)>, elements: Seq<Datum>, i: int)
    ensures
        !(absorb_pairs(m, elements, i) matches Step::Fault(Fault::UnknownOperation(_))),
    decreases elements.len() - i,
{
    if i < elements.len() {
        match iterated(elements[i]) {
            Some(kv) => match kv[0] {
                Datum::Text(key) => pairing_is_known(put(m, key, kv[1]), elements, i + 1),
                _ => {},
            },
            None => {},
        }
    }
}

/// Counting one more sequence: one more was applied, its time is added, and the worst is the
/// greater of the worst so far and this one.
pub proof fn one_more_sequence_is_counted(s: ApplyStats, nanos: u128)
    requires
        s.applied < u64::MAX,
        s.total + nanos <= u64::MAX,
    ensures
        after_apply(s, nanos).applied == s.applied + 1,
        after_apply(s, nanos).total == s.total + nanos,
        after_apply(s, nanos).max >= s.max,
        after_apply(s, nanos).max >= nanos,
        after_apply(s, nanos).max == s.max || after_apply(s, nanos).max == nanos,
{
}

/// Whether an object has a member with an equal value under the same key.
pub open spec fn has_equal(y: Seq<(Seq<char>, Datum)>, m: (Seq<char>, Datum)) -> bool {
    exists|j: int| 0 <= j < y.len() && (#[trigger] y[j]).0 == m.0 && same(m.1, y[j].1)
}

/// Objects are equal where they have as many members and each key of one is in the other with an
/// equal value, in whatever order.
pub proof fn objects_equal_whatever_their_order(
    x: Seq<(Seq<char>, Datum)>,
    y: Seq<(Seq<char>, Datum)>,
)
    requires
        keys_distinct(y),
    ensures
        same(Datum::Dict(x), Datum::Dict(y)) <==> x.len() == y.len() && forall|i: int|
            0 <= i < x.len() ==> has_equal(y, #[trigger] x[i]),
{
    assert forall|i: int| 0 <= i < x.len() implies (has_equal(y, #[trigger] x[i]) <==> {
        let k = first_key(y, x[i].0, 0);
        k < y.len() && same(x[i].1, y[k].1)
    }) by {
        let m = x[i];
        first_key_properties(y, m.0, 0);
        let k = first_key(y, m.0, 0);
        if has_equal(y, m) {
            let j = choose|j: int|
                0 <= j < y.len() && (#[trigger] y[j]).0 == m.0 && same(m.1, y[j].1);
            if j < k {
                assert(y[j].0 != m.0);
            } else if k < j {
                assert(y[k].0 != y[j].0);
            }
        }
        if k < y.len() && same(m.1, y[k].1) {
            assert(y[k].0 == m.0);
        }
    }
}

/// Arithmetic that is refused names the operation by its sign, and the types of the current value and
/// of the argument in that order.
pub proof fn a_refusal_names_both_types(a: Datum, b: Datum)
    requires
        num_of(a) is None,
        !(a is Text) && !(a is List) && !(a is Dict),
    ensures
        ({
            let t = type_text(a);
            let u = type_text(b);
            &&& apply_step("add"@, a, b) == Step::Fault(Fault::TypeError("+"@, t, u))
            &&& apply_step("pow"@, a, b) == Step::Fault(Fault::TypeError("**"@, t, u))
            &&& apply_step("mod"@, a, b) == Step::Fault(Fault::TypeError("%"@, t, u))
            &&& apply_step("and"@, a, b) == Step::Fault(Fault::TypeError("&"@, t, u))
            &&& apply_step("or"@, a, b) == Step::Fault(Fault::TypeError("|"@, t, u))
            &&& apply_step("xor"@, a, b) == Step::Fault(Fault::TypeError("^"@, t, u))
            &&& apply_step("left_shift"@, a, b) == Step::Fault(Fault::TypeError("<<"@, t, u))
            &&& apply_step("right_shift"@, a, b) == Step::Fault(Fault::TypeError(">>"@, t, u))
            &&& apply_step("max"@, a, b) == Step::Fault(Fault::TypeError("max"@, t, u))
            &&& apply_step("min"@, a, b) == Step::Fault(Fault::TypeError("min"@, t, u))
            &&& apply_step("remove"@, a, b) == Step::Fault(Fault::TypeError("remove"@, t, u))
            &&& apply_step("pop"@, a, b) == Step::Fault(Fault::TypeError("pop"@, t, u))
            &&& apply_step("update"@, a, b) == Step::Fault(Fault::TypeError("update"@, t, u))
        }),
        a is Null ==> type_text(a) == "None"@,
        a is Number ==> type_text(a) == "number"@,
        b is Null ==> type_text(b) == "None"@,
        b is Bool ==> type_text(b) == "bool"@,
        b is Number ==> type_text(b) == "number"@,
        b is Text ==> type_text(b) == "str"@,
        b is List ==> type_text(b) == "list"@,
        b is Dict ==> type_text(b) == "dict"@,
{
    reached(a, b);
}

/// What is refused for its size: a shift that would make an integer wider than 65,536 bits, a power
/// whose width would be, and a repetition of more than sixteen million items.
pub proof fn what_is_too_large_is_refused(a: Datum, b: Datum, x: Seq<Datum>, p: int, q: int)
    requires
        num_of(a) == Some(Num::Int(p)),
        num_of(b) == Some(Num::Int(q)),
        width(p) <= 65_536,
        width(q) <= 65_536,
        q >= 0,
    ensures
        width(p) + q > 65_536 ==> apply_step("left_shift"@, a, b) == Step::Fault(Fault::Overflow),
        width(p) > 1 && width(p) * q > 65_536 ==> apply_step("pow"@, a, b) == Step::Fault(
            Fault::Overflow,
        ),
        q <= i64::MAX && x.len() * q > 16_777_216 ==> apply_step("mul"@, Datum::List(x), b)
            == Step::Fault(Fault::ResultTooLarge),
        q <= i64::MAX && x.len() * q <= 16_777_216 ==> apply_step("mul"@, Datum::List(x), b) is Value,
{
    reached(a, b);
    reached(Datum::List(x), b);
}

/// What the operations give back as values is what they come to: of two integers `max` gives back the
/// greater and `min` the lesser, and `add` and `mul` their sum and their product.
pub proof fn integers_come_back_as_values(
    op: &str,
    current: Value,
    arg: &Value,
    p: int,
    q: int,
    r: Result<Outcome, OpError>,
)
    requires
        call_ensures(apply, (op, current, arg), r),
        num_of(current@) == Some(Num::Int(p)),
        num_of(arg@) == Some(Num::Int(q)),
        width(p) + width(q) <= 65_536,
        width(p + q) <= 65_536,
        width(p * q) <= 65_536,
    ensures
        op@ == "max"@ || op@ == "min"@ || op@ == "add"@ || op@ == "mul"@ ==> (r matches Ok(
            Outcome::Value(_),
        )),
        op@ == "max"@ ==> (r matches Ok(Outcome::Value(v)) && num_of(v@) == Some(
            Num::Int(
                if p >= q {
                    p
                } else {
                    q
                },
            ),
        )),
        op@ == "min"@ ==> (r matches Ok(Outcome::Value(v)) && num_of(v@) == Some(
            Num::Int(
                if p <= q {
                    p
                } else {
                    q
                },
            ),
        )),
        op@ == "add"@ ==> (r matches Ok(Outcome::Value(v)) && num_of(v@) == Some(Num::Int(p + q))),
        op@ == "mul"@ ==> (r matches Ok(Outcome::Value(v)) && num_of(v@) == Some(Num::Int(p * q))),
{
    max_and_min_of_integers(current@, arg@, p, q);
    adding_integers_is_exact(current@, arg@, p, q);
    multiplying_integers_is_exact(current@, arg@, p, q);
    assert(step_of(r) == apply_step(op@, current@, arg@));
}

/// Values that are stored and compared: replacing gives back the argument, a default the current
/// value, and of two integers the order is theirs.
pub proof fn values_come_back_as_they_are(
    current: Value,
    arg: &Value,
    p: int,
    q: int,
    r: Result<Outcome, OpError>,
    s: Result<Outcome, OpError>,
    o: Option<std::cmp::Ordering>,
    e: bool,
)
    requires
        call_ensures(apply, ("replace", current, arg), r),
        call_ensures(apply, ("default", current, arg), s),
        call_ensures(py_cmp, (&current, arg), o),
        call_ensures(py_eq, (&current, arg), e),
        num_of(current@) == Some(Num::Int(p)),
        num_of(arg@) == Some(Num::Int(q)),
    ensures
        r matches Ok(Outcome::Value(v)) && v@ == arg@,
        s matches Ok(Outcome::Value(v)) && v@ == current@,
        o == Some(std::cmp::Ordering::Less) <==> p < q,
        o == Some(std::cmp::Ordering::Equal) <==> p == q,
        o == Some(std::cmp::Ordering::Greater) <==> p > q,
        e <==> p == q,
{
    replace_takes_the_argument_and_default_does_not(current@, arg@);
    crate::datastore::laws::integers_compare_exactly(p, q, current@, arg@);
    assert(step_of(r) == apply_step("replace"@, current@, arg@));
    assert(step_of(s) == apply_step("default"@, current@, arg@));
}

/// A double that was computed is stored as it was written; one that is not finite is refused, and
/// the sequence fails at the operation that wanted it.
pub proof fn a_computed_double_is_stored_or_refused(
    n: Number,
    r: Result<Value, OpError>,
    s: Result<Value, OpError>,
)
    requires
        call_ensures(finish, (Some(n),), r),
        call_ensures(finish, (None,), s),
    ensures
        n.float is Some ==> (r matches Ok(v) && v@ == Datum::Number(n.text@, n.float)),
        n.float is None ==> (r matches Err(e) && e@ == Fault::NotFinite),
        s matches Err(e) && e@ == Fault::NotFinite,
{
}

} // verus!
