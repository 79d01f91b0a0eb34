//! What each data-storage operation means, over the models of its operands.

use crate::datastore::integer::{int_bit, magnitude, width};
use crate::datastore::pyvalue::{
    first_key, floor_mod, hashable, holds, num_of, num_units, order_data, same, Num,
};
use crate::datastore::value::Datum;
use crate::text::{dec, dec_int, Order};
use vstd::arithmetic::power::pow;
use vstd::arithmetic::power2::pow2;
use vstd::prelude::*;
use vstd::utf8::encode_utf8;

verus! {

/// Cap on the strings (in bytes) and arrays (in items) that an operation produces.
pub const MAX_RESULT_LEN: usize = 16_777_216;

/// Cap on the width in bits of an integer that an operation accepts or produces.
///
/// A wider value can still be stored and read back; it is only not computed with.
pub const MAX_INT_BITS: u64 = 65_536;

/// The model of an operation's failure.
pub enum Fault {
    TypeError(Seq<char>, Seq<char>, Seq<char>),
    ValueError(Seq<char>),
    IndexError,
    KeyError,
    ZeroDivisionError,
    Unhashable,
    UnknownOperation(Seq<char>),
    Overflow,
    IntegerTooWide,
    ResultTooLarge,
    NotFinite,
    StringFormatting,
}

/// A computation on two doubles that an operation comes down to.
#[derive(Debug, Clone, Copy, PartialEq, Eq, Structural)]
pub enum FloatOp {
    Add,
    Mul,
    Pow,
    Mod,
}

/// The model of what one operation comes to: a value, a failure, or one computation on
/// doubles that is still to be made.
pub enum Step {
    Value(Datum),
    Float(FloatOp, Num, Num),
    Fault(Fault),
}

/// The name of a value's type in error messages.
pub open spec fn type_text(d: Datum) -> Seq<char> {
    match d {
        Datum::Null => "None"@,
        Datum::Bool(_) => "bool"@,
        Datum::Number(_, _) => "number"@,
        Datum::Text(_) => "str"@,
        Datum::List(_) => "list"@,
        Datum::Dict(_) => "dict"@,
    }
}

/// The type error of a binary operation.
pub open spec fn type_fault(op: Seq<char>, a: Datum, b: Datum) -> Step {
    Step::Fault(Fault::TypeError(op, type_text(a), type_text(b)))
}

/// An integer result: refused where it is wider than the cap.
pub open spec fn int_step(v: int) -> Step {
    if width(v) > MAX_INT_BITS {
        Step::Fault(Fault::IntegerTooWide)
    } else {
        Step::Value(Datum::Number(dec_int(v), None))
    }
}

/// Whether a number is an integer wider than the cap.
pub open spec fn too_wide(n: Num) -> bool {
    n matches Num::Int(v) && width(v) > MAX_INT_BITS
}

/// Whether an integer rounds to a finite double.
pub open spec fn fits_float(v: int) -> bool {
    magnitude(v) < 0x3f_ffff_ffff_ffff * pow2(970)
}

/// Whether a number can take part in a computation on doubles.
pub open spec fn floatable(n: Num) -> bool {
    n matches Num::Int(v) ==> fits_float(v)
}

/// A computation on doubles: refused where an operand is too large to become one.
pub open spec fn float_step(op: FloatOp, x: Num, y: Num) -> Step {
    if floatable(x) && floatable(y) {
        Step::Float(op, x, y)
    } else {
        Step::Fault(Fault::Overflow)
    }
}

/// What a binary arithmetic operation does with operands that must be numbers.
pub open spec fn with_nums(op: Seq<char>, a: Datum, b: Datum, f: spec_fn(Num, Num) -> Step) -> Step {
    match (num_of(a), num_of(b)) {
        (Some(x), Some(y)) => if too_wide(x) || too_wide(y) {
            Step::Fault(Fault::IntegerTooWide)
        } else {
            f(x, y)
        },
        _ => type_fault(op, a, b),
    }
}

pub open spec fn add_step(a: Datum, b: Datum) -> Step {
    match (a, b) {
        (Datum::Text(x), Datum::Text(y)) => if encode_utf8(x).len() + encode_utf8(y).len()
            > MAX_RESULT_LEN {
            Step::Fault(Fault::ResultTooLarge)
        } else {
            Step::Value(Datum::Text(x + y))
        },
        (Datum::List(x), Datum::List(y)) => if x.len() + y.len() > MAX_RESULT_LEN {
            Step::Fault(Fault::ResultTooLarge)
        } else {
            Step::Value(Datum::List(x + y))
        },
        _ => with_nums(
            "+"@,
            a,
            b,
            |x: Num, y: Num|
                match (x, y) {
                    (Num::Int(p), Num::Int(q)) => int_step(p + q),
                    _ => float_step(FloatOp::Add, x, y),
                },
        ),
    }
}

/// A sequence repeated `n` times.
pub open spec fn repeated<A>(s: Seq<A>, n: nat) -> Seq<A>
    decreases n,
{
    if n == 0 {
        Seq::empty()
    } else {
        repeated(s, (n - 1) as nat) + s
    }
}

/// Whether a value is a string or a list.
pub open spec fn is_sequence(d: Datum) -> bool {
    d is Text || d is List
}

/// A string or list repeated; a count that is not positive empties it.
pub open spec fn repeat_step(seq: Datum, count: int) -> Step {
    let n = if count < 0 {
        0
    } else {
        count as nat
    };
    if !(i64::MIN <= count <= i64::MAX) {
        Step::Fault(Fault::Overflow)
    } else {
        match seq {
            Datum::Text(s) => if encode_utf8(s).len() * n > MAX_RESULT_LEN {
                Step::Fault(Fault::ResultTooLarge)
            } else {
                Step::Value(Datum::Text(repeated(s, n)))
            },
            Datum::List(s) => if s.len() * n > MAX_RESULT_LEN {
                Step::Fault(Fault::ResultTooLarge)
            } else {
                Step::Value(Datum::List(repeated(s, n)))
            },
            _ => arbitrary(),
        }
    }
}

pub open spec fn mul_step(a: Datum, b: Datum) -> Step {
    if is_sequence(a) && num_of(b) matches Some(Num::Int(n)) {
        repeat_step(a, num_of(b)->0->Int_0)
    } else if is_sequence(b) && num_of(a) matches Some(Num::Int(n)) {
        repeat_step(b, num_of(a)->0->Int_0)
    } else {
        with_nums(
            "*"@,
            a,
            b,
            |x: Num, y: Num|
                match (x, y) {
                    (Num::Int(p), Num::Int(q)) => if width(p) + width(q) > MAX_INT_BITS {
                        Step::Fault(Fault::IntegerTooWide)
                    } else {
                        int_step(p * q)
                    },
                    _ => float_step(FloatOp::Mul, x, y),
                },
        )
    }
}

/// An integer to a power that is not negative. The bases zero, one and minus one have an
/// answer whatever the exponent; any other is refused where its width times the exponent is
/// over the cap.
pub open spec fn int_pow_step(p: int, q: int) -> Step {
    if width(p) > 1 && (q > u32::MAX || width(p) * q > MAX_INT_BITS) {
        Step::Fault(Fault::Overflow)
    } else {
        int_step(pow(p, q as nat))
    }
}

pub open spec fn pow_step(a: Datum, b: Datum) -> Step {
    with_nums(
        "**"@,
        a,
        b,
        |x: Num, y: Num|
            match (x, y) {
                (Num::Int(p), Num::Int(q)) => if q >= 0 {
                    int_pow_step(p, q)
                } else {
                    float_step(FloatOp::Pow, x, y)
                },
                _ => float_step(FloatOp::Pow, x, y),
            },
    )
}

pub open spec fn mod_step(a: Datum, b: Datum) -> Step {
    if a is Text {
        Step::Fault(Fault::StringFormatting)
    } else {
        with_nums(
            "%"@,
            a,
            b,
            |x: Num, y: Num|
                match (x, y) {
                    (Num::Int(p), Num::Int(q)) => if q == 0 {
                        Step::Fault(Fault::ZeroDivisionError)
                    } else {
                        int_step(floor_mod(p, q))
                    },
                    _ => if !(floatable(x) && floatable(y)) {
                        Step::Fault(Fault::Overflow)
                    } else if num_units(y) == 0 {
                        Step::Fault(Fault::ZeroDivisionError)
                    } else {
                        Step::Float(FloatOp::Mod, x, y)
                    },
                },
        )
    }
}

/// The greatest integer not above a number.
pub open spec fn floor_of(n: Num) -> int {
    num_units(n) / (pow2(1074) as int)
}

/// The least integer not below a number.
pub open spec fn ceil_of(n: Num) -> int {
    -((-num_units(n)) / (pow2(1074) as int))
}

pub open spec fn round_step(a: Datum, up: bool) -> Step {
    match num_of(a) {
        Some(n) => int_step(
            if up {
                ceil_of(n)
            } else {
                floor_of(n)
            },
        ),
        None => Step::Fault(Fault::TypeError("floor/ceil"@, type_text(a), "None"@)),
    }
}

/// `max` and `min`: the argument is taken only where the current value stands to it as
/// `worse` says, so the first of two equal values is kept.
pub open spec fn pick_step(op: Seq<char>, a: Datum, b: Datum, worse: Order) -> Step {
    match order_data(a, b) {
        Some(o) => Step::Value(
            if o == worse {
                b
            } else {
                a
            },
        ),
        None => type_fault(op, a, b),
    }
}

/// A bitwise operation.
#[derive(Debug, Clone, Copy, PartialEq, Eq, Structural)]
pub enum BitOp {
    And,
    Or,
    Xor,
}

/// What a bitwise operation does with one bit.
pub open spec fn bit_result(op: BitOp, p: bool, q: bool) -> bool {
    match op {
        BitOp::And => p && q,
        BitOp::Or => p || q,
        BitOp::Xor => p != q,
    }
}

/// Whether `r` is the bitwise result on two's complement with unbounded sign extension.
pub open spec fn is_bitwise(op: BitOp, p: int, q: int, r: int) -> bool {
    forall|i: nat| #[trigger] int_bit(r, i) == bit_result(op, int_bit(p, i), int_bit(q, i))
}

/// The bitwise result.
pub open spec fn bitwise_of(op: BitOp, p: int, q: int) -> int {
    choose|r: int| is_bitwise(op, p, q, r)
}

/// The sign under which a bitwise operation appears in error messages.
pub open spec fn bit_text(op: BitOp) -> Seq<char> {
    match op {
        BitOp::And => "&"@,
        BitOp::Or => "|"@,
        BitOp::Xor => "^"@,
    }
}

pub open spec fn bitwise_step(op: BitOp, a: Datum, b: Datum) -> Step {
    match (a, b) {
        (Datum::Bool(p), Datum::Bool(q)) => Step::Value(Datum::Bool(bit_result(op, p, q))),
        _ => with_nums(
            bit_text(op),
            a,
            b,
            |x: Num, y: Num|
                match (x, y) {
                    (Num::Int(p), Num::Int(q)) => int_step(bitwise_of(op, p, q)),
                    _ => type_fault(bit_text(op), a, b),
                },
        ),
    }
}

/// An object with a member set: replaced in place where the key is there, else added last.
pub open spec fn put(m: Seq<(Seq<char>, Datum)>, key: Seq<char>, v: Datum) -> Seq<(Seq<char>, Datum)> {
    let k = first_key(m, key, 0);
    if k < m.len() {
        m.update(k, (m[k].0, v))
    } else {
        m.push((key, v))
    }
}

/// An object with all of `entries` set, in order.
pub open spec fn put_all(
    m: Seq<(Seq<char>, Datum)>,
    entries: Seq<(Seq<char>, Datum)>,
) -> Seq<(Seq<char>, Datum)>
    decreases entries.len(),
{
    if entries.len() == 0 {
        m
    } else {
        put(put_all(m, entries.drop_last()), entries.last().0, entries.last().1)
    }
}

pub open spec fn or_step(a: Datum, b: Datum) -> Step {
    match (a, b) {
        (Datum::Dict(x), Datum::Dict(y)) => Step::Value(Datum::Dict(put_all(x, y))),
        _ => bitwise_step(BitOp::Or, a, b),
    }
}

pub open spec fn shift_text(left: bool) -> Seq<char> {
    if left {
        "<<"@
    } else {
        ">>"@
    }
}

pub open spec fn shift_step(a: Datum, b: Datum, left: bool) -> Step {
    with_nums(
        shift_text(left),
        a,
        b,
        |x: Num, y: Num|
            match (x, y) {
                (Num::Int(p), Num::Int(q)) => if q < 0 {
                    Step::Fault(Fault::ValueError("negative shift count"@))
                } else if left {
                    if width(p) + q > MAX_INT_BITS {
                        Step::Fault(Fault::Overflow)
                    } else {
                        int_step(p * pow2(q as nat))
                    }
                } else {
                    int_step(p / (pow2(q as nat) as int))
                },
                _ => type_fault(shift_text(left), a, b),
            },
    )
}

/// The first position from `i` on whose item equals the value, or the length.
pub open spec fn first_same(items: Seq<Datum>, needle: Datum, i: int) -> int
    decreases items.len() - i,
{
    if i >= items.len() || same(items[i], needle) {
        i
    } else {
        first_same(items, needle, i + 1)
    }
}

pub open spec fn remove_step(a: Datum, b: Datum) -> Step {
    match a {
        Datum::List(items) => {
            let k = first_same(items, b, 0);
            Step::Value(
                Datum::List(
                    if k < items.len() {
                        items.remove(k)
                    } else {
                        items
                    },
                ),
            )
        },
        _ => type_fault("remove"@, a, b),
    }
}

pub open spec fn pop_step(a: Datum, b: Datum) -> Step {
    match a {
        Datum::List(items) => match num_of(b) {
            Some(Num::Int(i)) => if i >= items.len() {
                Step::Value(a)
            } else if i >= 0 {
                Step::Value(Datum::List(items.remove(i)))
            } else if items.len() + i < 0 {
                Step::Fault(Fault::IndexError)
            } else {
                Step::Value(Datum::List(items.remove(items.len() + i)))
            },
            _ => Step::Fault(Fault::TypeError("pop"@, "list"@, type_text(b))),
        },
        Datum::Dict(m) => match b {
            Datum::Text(key) => {
                let k = first_key(m, key, 0);
                Step::Value(
                    Datum::Dict(
                        if k < m.len() {
                            m.remove(k)
                        } else {
                            m
                        },
                    ),
                )
            },
            Datum::List(_) => Step::Fault(Fault::TypeError("pop"@, "dict"@, type_text(b))),
            Datum::Dict(_) => Step::Fault(Fault::TypeError("pop"@, "dict"@, type_text(b))),
            _ => Step::Value(a),
        },
        _ => type_fault("pop"@, a, b),
    }
}

/// What Python gets when it iterates a value: a string's characters, an object's keys.
pub open spec fn iterated(d: Datum) -> Option<Seq<Datum>> {
    match d {
        Datum::List(items) => Some(items),
        Datum::Text(s) => Some(Seq::new(s.len(), |i: int| Datum::Text(seq![s[i]]))),
        Datum::Dict(m) => Some(Seq::new(m.len(), |i: int| Datum::Text(m[i].0))),
        _ => None,
    }
}

/// A list extended by those of `entries`, from position `i` on, that are not in `original`.
pub open spec fn absorb(
    original: Seq<Datum>,
    items: Seq<Datum>,
    entries: Seq<Datum>,
    i: int,
) -> Step
    decreases entries.len() - i,
{
    if i >= entries.len() {
        Step::Value(Datum::List(items))
    } else if !hashable(entries[i]) {
        Step::Fault(Fault::Unhashable)
    } else if holds(original, entries[i]) {
        absorb(original, items, entries, i + 1)
    } else if items.len() >= MAX_RESULT_LEN {
        Step::Fault(Fault::ResultTooLarge)
    } else {
        absorb(original, items.push(entries[i]), entries, i + 1)
    }
}

/// The complaint about an element of the wrong length among pairs.
pub open spec fn pair_text(i: int, len: nat) -> Seq<char> {
    "dictionary update sequence element #"@ + dec_int(i) + " has length "@ + dec(len)
        + "; 2 is required"@
}

/// An object extended by the pairs among `elements`, from position `i` on.
pub open spec fn absorb_pairs(
    m: Seq<(Seq<char>, Datum)>,
    elements: Seq<Datum>,
    i: int,
) -> Step
    decreases elements.len() - i,
{
    if i >= elements.len() {
        Step::Value(Datum::Dict(m))
    } else {
        match iterated(elements[i]) {
            None => Step::Fault(Fault::TypeError("update"@, "dict"@, type_text(elements[i]))),
            Some(kv) => if kv.len() != 2 {
                Step::Fault(Fault::ValueError(pair_text(i, kv.len())))
            } else {
                match kv[0] {
                    Datum::Text(key) => absorb_pairs(put(m, key, kv[1]), elements, i + 1),
                    _ => Step::Fault(Fault::TypeError("update"@, "dict key"@, type_text(kv[0]))),
                }
            },
        }
    }
}

pub open spec fn update_step(a: Datum, b: Datum) -> Step {
    match (a, b) {
        (Datum::List(items), _) => match iterated(b) {
            None => Step::Fault(Fault::TypeError("update"@, "list"@, type_text(b))),
            Some(entries) => if exists|i: int| 0 <= i < items.len() && !hashable(#[trigger] items[i]) {
                Step::Fault(Fault::Unhashable)
            } else {
                absorb(items, items, entries, 0)
            },
        },
        (Datum::Dict(m), Datum::Dict(entries)) => Step::Value(Datum::Dict(put_all(m, entries))),
        (Datum::Dict(m), _) => match iterated(b) {
            None => Step::Fault(Fault::TypeError("update"@, "dict"@, type_text(b))),
            Some(elements) => absorb_pairs(m, elements, 0),
        },
        _ => type_fault("update"@, a, b),
    }
}

/// What an operation comes to.
pub open spec fn apply_step(op: Seq<char>, a: Datum, b: Datum) -> Step {
    if op == "replace"@ {
        Step::Value(b)
    } else if op == "default"@ {
        Step::Value(a)
    } else if op == "add"@ {
        add_step(a, b)
    } else if op == "mul"@ {
        mul_step(a, b)
    } else if op == "pow"@ {
        pow_step(a, b)
    } else if op == "mod"@ {
        mod_step(a, b)
    } else if op == "floor"@ {
        round_step(a, false)
    } else if op == "ceil"@ {
        round_step(a, true)
    } else if op == "max"@ {
        pick_step("max"@, a, b, Order::Less)
    } else if op == "min"@ {
        pick_step("min"@, a, b, Order::Greater)
    } else if op == "xor"@ {
        bitwise_step(BitOp::Xor, a, b)
    } else if op == "or"@ {
        or_step(a, b)
    } else if op == "and"@ {
        bitwise_step(BitOp::And, a, b)
    } else if op == "left_shift"@ {
        shift_step(a, b, true)
    } else if op == "right_shift"@ {
        shift_step(a, b, false)
    } else if op == "remove"@ {
        remove_step(a, b)
    } else if op == "pop"@ {
        pop_step(a, b)
    } else if op == "update"@ {
        update_step(a, b)
    } else {
        Step::Fault(Fault::UnknownOperation(op))
    }
}

/// What the double computed for a float step comes to. The result is `None` where it is not
/// finite.
pub open spec fn float_result(computed: Option<(Seq<char>, u64)>) -> Step {
    match computed {
        Some((text, bits)) => Step::Value(Datum::Number(text, Some(bits))),
        None => Step::Fault(Fault::NotFinite),
    }
}

/// The model of what a sequence of operations comes to: a value, the first failure with the
/// position of its operation, or the first computation on doubles with its position.
pub enum Run {
    Done(Datum),
    Failed(int, Fault),
    Float(int, FloatOp, Num, Num),
}

/// What the operations from position `i` on come to, each applied to what the one before gave.
pub open spec fn run_from(v: Datum, ops: Seq<(Seq<char>, Datum)>, i: int) -> Run
    decreases ops.len() - i, 1nat,
{
    if i >= ops.len() {
        Run::Done(v)
    } else {
        after_step(apply_step(ops[i].0, v, ops[i].1), ops, i)
    }
}

/// How a sequence goes on after the operation at position `i` came to `step`.
pub open spec fn after_step(step: Step, ops: Seq<(Seq<char>, Datum)>, i: int) -> Run
    decreases ops.len() - i, 0nat,
    when i < ops.len()
{
    match step {
        Step::Value(w) => run_from(w, ops, i + 1),
        Step::Fault(f) => Run::Failed(i, f),
        Step::Float(op, x, y) => Run::Float(i, op, x, y),
    }
}

} // verus!
