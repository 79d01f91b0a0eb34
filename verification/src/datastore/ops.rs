//! The eighteen data-storage operations.
//!
//! Each is a Python expression applied to values that clients send. Integers are of arbitrary
//! precision, bounded in width; sequences are bounded in length; a result that is not a finite
//! number is refused; and a sequence of operations that fails changes nothing.
//!
//! Where an operation comes down to one computation on doubles, [`apply`] hands it back as a
//! [`FloatCall`]: the caller computes it and [`finish`] says what it comes to.

use crate::datastore::integer::{binary_digits, int_bit, magnitude, width, Integer};
use crate::datastore::opspec::{
    absorb, absorb_pairs, add_step, after_step, apply_step, bitwise_of, bitwise_step, ceil_of,
    first_same, float_result, float_step, floatable, floor_of, int_pow_step, int_step, is_bitwise,
    is_sequence, iterated, mod_step, mul_step, or_step, pair_text, pick_step, pop_step, pow_step,
    put, put_all, remove_step, repeat_step, repeated, round_step, shift_step, too_wide, type_fault,
    type_text, update_step, with_nums, run_from, BitOp, Fault, FloatOp, Run, Step, MAX_INT_BITS,
    MAX_RESULT_LEN,
};
use crate::datastore::pyvalue::{
    as_num, compare_values, find_key, floor_mod_big, float_finite, hashable, is_hashable, num_of,
    num_units, py_contains, py_eq, units_of, Num, PyNum,
};
use crate::datastore::value::{dict_model, list_model, Datum, Number, Value};
use crate::text::{chars_of, dec, dec_int, push_decimal, Order};
use vstd::arithmetic::power;
use vstd::arithmetic::power2::pow2;
use vstd::prelude::*;
use vstd::utf8::encode_utf8;

verus! {

/// Failure modes, named after the Python exception they stand in for.
#[derive(Debug, Clone, PartialEq, Eq)]
pub enum OpError {
    TypeError { op: &'static str, left: &'static str, right: &'static str },
    ValueError(String),
    IndexError,
    KeyError,
    ZeroDivisionError,
    Unhashable,
    UnknownOperation(String),
    /// An integer too large to become a float, or one whose width is refused before it is
    /// built.
    Overflow,
    /// An operand or a result is wider than [`MAX_INT_BITS`].
    IntegerTooWide,
    ResultTooLarge,
    NotFinite,
    /// `%` on a string is formatting in Python; it is refused outright.
    StringFormatting,
}

impl OpError {
    pub open spec fn view(&self) -> Fault {
        match self {
            OpError::TypeError { op, left, right } => Fault::TypeError(op@, left@, right@),
            OpError::ValueError(s) => Fault::ValueError(s@),
            OpError::IndexError => Fault::IndexError,
            OpError::KeyError => Fault::KeyError,
            OpError::ZeroDivisionError => Fault::ZeroDivisionError,
            OpError::Unhashable => Fault::Unhashable,
            OpError::UnknownOperation(s) => Fault::UnknownOperation(s@),
            OpError::Overflow => Fault::Overflow,
            OpError::IntegerTooWide => Fault::IntegerTooWide,
            OpError::ResultTooLarge => Fault::ResultTooLarge,
            OpError::NotFinite => Fault::NotFinite,
            OpError::StringFormatting => Fault::StringFormatting,
        }
    }
}

/// One computation on doubles: the operation and its operands, each of which has a finite
/// double nearest to it.
#[derive(Debug, Clone, PartialEq, Eq)]
pub struct FloatCall {
    pub op: FloatOp,
    pub left: PyNum,
    pub right: PyNum,
}

/// What an operation gave: a value, or a computation on doubles that is still to be made.
#[derive(Debug)]
pub enum Outcome {
    Value(Value),
    Float(FloatCall),
}

/// The model of an operation's result.
pub open spec fn step_of(r: Result<Outcome, OpError>) -> Step {
    match r {
        Ok(Outcome::Value(v)) => Step::Value(v@),
        Ok(Outcome::Float(call)) => Step::Float(call.op, call.left@, call.right@),
        Err(e) => Step::Fault(e@),
    }
}

fn kind_name(v: &Value) -> (r: &'static str)
    ensures
        r@ == type_text(v@),
{
    match v {
        Value::Null => "None",
        Value::Bool(_) => "bool",
        Value::Number(_) => "number",
        Value::String(_) => "str",
        Value::Array(_) => "list",
        Value::Object(_) => "dict",
    }
}

fn type_error(op: &'static str, a: &Value, b: &Value) -> (r: OpError)
    ensures
        Step::Fault(r@) == type_fault(op@, a@, b@),
{
    OpError::TypeError { op, left: kind_name(a), right: kind_name(b) }
}

/// What Python gets when it iterates a value.
fn iterate(v: &Value) -> (r: Option<Vec<Value>>)
    ensures
        r is Some <==> iterated(v@) is Some,
        r matches Some(items) ==> Some(list_model(items@)) == iterated(v@),
{
    match v {
        Value::Array(items) => {
            let mut out: Vec<Value> = Vec::new();
            for i in 0..items.len()
                invariant
                    out@.len() == i,
                    forall|j: int| 0 <= j < i ==> (#[trigger] out@[j])@ == items@[j]@,
            {
                out.push(items[i].dup());
            }
            assert(list_model(out@) =~= list_model(items@));
            Some(out)
        },
        Value::String(s) => {
            let chars = chars_of(s.as_str());
            let mut out: Vec<Value> = Vec::new();
            for i in 0..chars.len()
                invariant
                    out@.len() == i,
                    chars@ == s@,
                    forall|j: int|
                        0 <= j < i ==> (#[trigger] out@[j])@ == Datum::Text(seq![s@[j]]),
            {
                let mut one = String::new();
                one.push(chars[i]);
                assert(one@ =~= seq![s@[i as int]]);
                out.push(Value::String(one));
            }
            assert(list_model(out@) =~= iterated(v@)->0);
            Some(out)
        },
        Value::Object(members) => {
            let mut out: Vec<Value> = Vec::new();
            for i in 0..members.len()
                invariant
                    out@.len() == i,
                    forall|j: int|
                        0 <= j < i ==> (#[trigger] out@[j])@ == Datum::Text(
                            dict_model(members@)[j].0,
                        ),
            {
                out.push(Value::String(members[i].0.clone()));
            }
            assert(list_model(out@) =~= iterated(v@)->0);
            Some(out)
        },
        _ => None,
    }
}

/// The integer as a value.
fn integer_value(v: &Integer) -> (r: Value)
    ensures
        r@ == Datum::Number(dec_int(v@), None),
{
    Value::Number(Number { text: v.to_text(), float: None })
}

/// Hands back an integer result, refusing one that is wider than the cap.
fn int_value(v: Integer) -> (r: Result<Outcome, OpError>)
    ensures
        step_of(r) == int_step(v@),
{
    if v.bits() > MAX_INT_BITS {
        return Err(OpError::IntegerTooWide);
    }
    Ok(Outcome::Value(integer_value(&v)))
}

/// Whether the number has a finite double nearest to it.
fn is_floatable(n: &PyNum) -> (r: bool)
    ensures
        r == floatable(n@),
{
    match n {
        PyNum::Int(v) => {
            let bound = Integer::from_i64(0x3f_ffff_ffff_ffff).shifted_left(970);
            let low = Integer::from_i64(-0x3f_ffff_ffff_ffff).shifted_left(970);
            assert(low@ == -bound@) by (nonlinear_arith)
                requires
                    low@ == (-0x3f_ffff_ffff_ffff) * pow2(970),
                    bound@ == 0x3f_ffff_ffff_ffff * pow2(970),
            ;
            v.less(&bound) && low.less(v)
        },
        PyNum::Float(_) => true,
    }
}

/// A computation on doubles from two operands that Python would have converted.
fn float_value(op: FloatOp, x: PyNum, y: PyNum) -> (r: Result<Outcome, OpError>)
    ensures
        step_of(r) == float_step(op, x@, y@),
{
    if is_floatable(&x) && is_floatable(&y) {
        Ok(Outcome::Float(FloatCall { op, left: x, right: y }))
    } else {
        Err(OpError::Overflow)
    }
}

/// The operands as numbers, neither wider than the cap.
fn need_nums(op: &'static str, a: &Value, b: &Value) -> (r: Result<(PyNum, PyNum), OpError>)
    ensures
        match r {
            Ok((x, y)) => {
                &&& num_of(a@) == Some(x@)
                &&& num_of(b@) == Some(y@)
                &&& !too_wide(x@)
                &&& !too_wide(y@)
            },
            Err(e) => forall|f: spec_fn(Num, Num) -> Step| #[trigger]
                with_nums(op@, a@, b@, f) == Step::Fault(e@),
        },
{
    let x = as_num(a);
    let y = as_num(b);
    if x.is_none() || y.is_none() {
        return Err(type_error(op, a, b));
    }
    let x = x.unwrap();
    let y = y.unwrap();
    if let PyNum::Int(n) = &x {
        if n.bits() > MAX_INT_BITS {
            return Err(OpError::IntegerTooWide);
        }
    }
    if let PyNum::Int(n) = &y {
        if n.bits() > MAX_INT_BITS {
            return Err(OpError::IntegerTooWide);
        }
    }
    Ok((x, y))
}

/// The length of a text in bytes.
fn byte_len(s: &str) -> (n: usize)
    ensures
        n == encode_utf8(s@).len(),
{
    s.as_bytes().len()
}

/// `+`: numeric addition, string concatenation, or list extension.
fn add(current: Value, arg: &Value) -> (r: Result<Outcome, OpError>)
    ensures
        step_of(r) == add_step(current@, arg@),
{
    match (&current, arg) {
        (Value::String(a), Value::String(b)) => {
            let m: usize = byte_len(a.as_str());
            let n: usize = byte_len(b.as_str());
            if m > MAX_RESULT_LEN || n > MAX_RESULT_LEN - m {
                return Err(OpError::ResultTooLarge);
            }
            let mut out = a.clone();
            out.append(b.as_str());
            Ok(Outcome::Value(Value::String(out)))
        },
        (Value::Array(a), Value::Array(b)) => {
            if a.len() > MAX_RESULT_LEN || b.len() > MAX_RESULT_LEN - a.len() {
                return Err(OpError::ResultTooLarge);
            }
            let mut out: Vec<Value> = Vec::new();
            extend(&mut out, a);
            extend(&mut out, b);
            assert(list_model(out@) =~= list_model(a@) + list_model(b@));
            Ok(Outcome::Value(Value::Array(out)))
        },
        _ => {
            let (x, y) = match need_nums("+", &current, arg) {
                Ok(p) => p,
                Err(e) => {
                    return Err(e);
                },
            };
            match (&x, &y) {
                (PyNum::Int(a), PyNum::Int(b)) => int_value(a.plus(b)),
                _ => float_value(FloatOp::Add, x, y),
            }
        },
    }
}

/// Appends copies of all of `items`.
fn extend(out: &mut Vec<Value>, items: &Vec<Value>)
    ensures
        list_model(final(out)@) == list_model(old(out)@) + list_model(items@),
        final(out)@.len() == old(out)@.len() + items@.len(),
{
    for i in 0..items.len()
        invariant
            out@.len() == old(out)@.len() + i,
            forall|j: int| 0 <= j < old(out)@.len() ==> (#[trigger] out@[j])@ == old(out)@[j]@,
            forall|j: int|
                old(out)@.len() <= j < out@.len() ==> (#[trigger] out@[j])@ == items@[j
                    - old(out)@.len()]@,
    {
        out.push(items[i].dup());
    }
    assert(list_model(out@) =~= list_model(old(out)@) + list_model(items@));
}

/// A repetition of nothing is nothing, and none of anything is nothing.
proof fn repeated_nothing<A>(s: Seq<A>, n: nat)
    ensures
        s.len() == 0 ==> repeated(s, n) =~= Seq::<A>::empty(),
        repeated(s, 0) =~= Seq::<A>::empty(),
    decreases n,
{
    if n > 0 {
        repeated_nothing(s, (n - 1) as nat);
    }
}

/// Whether `len` things `n` times are more than the cap.
fn exceeds_cap(len: usize, n: u64) -> (r: bool)
    ensures
        r == (len * n > MAX_RESULT_LEN),
        !r && len > 0 ==> n <= MAX_RESULT_LEN,
{
    if len == 0 {
        return false;
    }
    let most: u64 = MAX_RESULT_LEN as u64 / len as u64;
    assert((n > most) == (len * n > MAX_RESULT_LEN)) by (nonlinear_arith)
        requires
            len > 0,
            most == MAX_RESULT_LEN as u64 / len as u64,
            MAX_RESULT_LEN == 16_777_216,
    ;
    assert(most <= MAX_RESULT_LEN) by (nonlinear_arith)
        requires
            len > 0,
            most == MAX_RESULT_LEN as u64 / len as u64,
            MAX_RESULT_LEN == 16_777_216,
    ;
    n > most
}

/// Repeats a string or list, where the count is an integer.
fn repeat(seq: &Value, count: &Integer) -> (r: Result<Outcome, OpError>)
    requires
        is_sequence(seq@),
    ensures
        step_of(r) == repeat_step(seq@, count@),
{
    let n: u64 = match count.to_i64() {
        None => {
            return Err(OpError::Overflow);
        },
        Some(n) => if n < 0 {
            0
        } else {
            n as u64
        },
    };
    match seq {
        Value::String(s) => {
            let len: usize = byte_len(s.as_str());
            if exceeds_cap(len, n) {
                return Err(OpError::ResultTooLarge);
            }
            let mut out = String::new();
            proof {
                repeated_nothing(s@, n as nat);
                if len == 0 {
                    nothing_encodes_to_nothing(s@);
                }
            }
            if len > 0 {
                let mut i: u64 = 0;
                while i < n
                    invariant
                        i <= n,
                        out@ =~= repeated(s@, i as nat),
                    decreases n - i,
                {
                    out.append(s.as_str());
                    i += 1;
                }
            }
            Ok(Outcome::Value(Value::String(out)))
        },
        Value::Array(items) => {
            if exceeds_cap(items.len(), n) {
                return Err(OpError::ResultTooLarge);
            }
            let mut out: Vec<Value> = Vec::new();
            proof {
                repeated_nothing(list_model(items@), n as nat);
            }
            assert(list_model(out@) =~= Seq::<Datum>::empty());
            if items.len() > 0 {
                let mut i: u64 = 0;
                while i < n
                    invariant
                        i <= n,
                        list_model(out@) == repeated(list_model(items@), i as nat),
                    decreases n - i,
                {
                    extend(&mut out, items);
                    i += 1;
                }
            }
            Ok(Outcome::Value(Value::Array(out)))
        },
        _ => Err(OpError::KeyError),
    }
}

/// A text of no bytes has no characters.
proof fn nothing_encodes_to_nothing(s: Seq<char>)
    requires
        encode_utf8(s).len() == 0,
    ensures
        s.len() == 0,
{
    if s.len() > 0 {
        reveal_with_fuel(encode_utf8, 2);
    }
}

/// `*`: numeric multiplication, or repetition of a sequence, in either order.
fn mul(current: Value, arg: &Value) -> (r: Result<Outcome, OpError>)
    ensures
        step_of(r) == mul_step(current@, arg@),
{
    let x = as_num(&current);
    let y = as_num(arg);
    match &current {
        Value::String(_) | Value::Array(_) => {
            if let Some(PyNum::Int(n)) = &y {
                return repeat(&current, n);
            }
        },
        _ => {},
    }
    match arg {
        Value::String(_) | Value::Array(_) => {
            if let Some(PyNum::Int(n)) = &x {
                return repeat(arg, n);
            }
        },
        _ => {},
    }
    let (x, y) = match need_nums("*", &current, arg) {
        Ok(p) => p,
        Err(e) => {
            return Err(e);
        },
    };
    match (&x, &y) {
        (PyNum::Int(a), PyNum::Int(b)) => {
            if a.bits() + b.bits() > MAX_INT_BITS {
                return Err(OpError::IntegerTooWide);
            }
            int_value(a.times(b))
        },
        _ => float_value(FloatOp::Mul, x, y),
    }
}

/// The powers of zero, one and minus one.
proof fn unit_powers(n: nat)
    ensures
        n > 0 ==> power::pow(0, n) == 0,
        power::pow(1, n) == 1,
        power::pow(-1, n) == if n % 2 == 0 {
            1int
        } else {
            -1
        },
    decreases n,
{
    reveal(power::pow);
    if n > 0 {
        unit_powers((n - 1) as nat);
    }
}

/// The widths of zero, one and minus one, and that nothing else is as narrow.
proof fn unit_widths(v: int)
    ensures
        width(v) == 0 <==> v == 0,
        width(v) == 1 <==> v == 1 || v == -1,
{
    reveal_with_fuel(binary_digits, 3);
}

fn pow(current: &Value, arg: &Value) -> (r: Result<Outcome, OpError>)
    ensures
        step_of(r) == pow_step(current@, arg@),
{
    let (x, y) = match need_nums("**", current, arg) {
        Ok(p) => p,
        Err(e) => {
            return Err(e);
        },
    };
    if let (PyNum::Int(a), PyNum::Int(b)) = (&x, &y) {
        if !b.is_negative() {
            return int_pow(a, b);
        }
    }
    float_value(FloatOp::Pow, x, y)
}

/// An integer to a power that is not negative.
fn int_pow(a: &Integer, b: &Integer) -> (r: Result<Outcome, OpError>)
    requires
        b@ >= 0,
        width(a@) <= MAX_INT_BITS,
    ensures
        step_of(r) == int_pow_step(a@, b@),
{
    proof {
        unit_widths(a@);
        unit_powers(b@ as nat);
    }
    let bits: u64 = a.bits();
    let exp: u64 = match b.to_u64() {
        Some(n) if n <= 0xffff_ffff => n,
        _ => {
            if bits > 1 {
                return Err(OpError::Overflow);
            }
            if bits == 0 {
                return int_value(Integer::from_i64(0));
            }
            assert(int_bit(b@, 0) == (b@ % 2 == 1)) by {
                vstd::arithmetic::power2::lemma2_to64();
            }
            if a.is_negative() && b.bit(0) {
                return int_value(Integer::from_i64(-1));
            }
            return int_value(Integer::from_i64(1));
        },
    };
    if bits > 1 {
        assert(bits * exp <= 0x1_0000 * 0xffff_ffff) by (nonlinear_arith)
            requires
                bits <= 0x1_0000,
                exp <= 0xffff_ffff,
        ;
        if bits * exp > MAX_INT_BITS {
            return Err(OpError::Overflow);
        }
    }
    int_value(a.power(exp as u32))
}

fn modulo(current: &Value, arg: &Value) -> (r: Result<Outcome, OpError>)
    ensures
        step_of(r) == mod_step(current@, arg@),
{
    if let Value::String(_) = current {
        return Err(OpError::StringFormatting);
    }
    let (x, y) = match need_nums("%", current, arg) {
        Ok(p) => p,
        Err(e) => {
            return Err(e);
        },
    };
    if let (PyNum::Int(a), PyNum::Int(b)) = (&x, &y) {
        return match floor_mod_big(a, b) {
            Some(m) => int_value(m),
            None => Err(OpError::ZeroDivisionError),
        };
    }
    if is_floatable(&x) && is_floatable(&y) && is_zero(&y) {
        return Err(OpError::ZeroDivisionError);
    }
    float_value(FloatOp::Mod, x, y)
}

/// Whether the number is zero.
fn is_zero(n: &PyNum) -> (r: bool)
    requires
        n@ matches Num::Float(bits) ==> float_finite(bits),
    ensures
        r == (num_units(n@) == 0),
{
    units_of(n).equals(&Integer::from_i64(0))
}

/// `floor` and `ceil` ignore the argument and return an integer.
fn round(current: &Value, up: bool) -> (r: Result<Outcome, OpError>)
    ensures
        step_of(r) == round_step(current@, up),
{
    let n = match as_num(current) {
        Some(n) => n,
        None => {
            return Err(
                OpError::TypeError { op: "floor/ceil", left: kind_name(current), right: "None" },
            );
        },
    };
    let units = units_of(&n);
    if up {
        let minus = Integer::from_i64(-1);
        let negated = minus.times(&units);
        let floored = negated.shifted_right(1074);
        let result = minus.times(&floored);
        assert(negated@ == -units@) by (nonlinear_arith)
            requires
                negated@ == -1 * units@,
        ;
        assert(result@ == -floored@) by (nonlinear_arith)
            requires
                result@ == -1 * floored@,
        ;
        int_value(result)
    } else {
        int_value(units.shifted_right(1074))
    }
}

/// An integer is its own floor and ceiling.
pub proof fn integers_are_whole(v: int)
    ensures
        floor_of(Num::Int(v)) == v,
        ceil_of(Num::Int(v)) == v,
{
    let p = pow2(1074) as int;
    vstd::arithmetic::power2::lemma_pow2_pos(1074);
    vstd::arithmetic::div_mod::lemma_div_multiples_vanish(v, p);
    vstd::arithmetic::div_mod::lemma_div_multiples_vanish(-v, p);
    assert(v * p == p * v) by (nonlinear_arith);
    assert(-(v * p) == p * (-v)) by (nonlinear_arith);
}

/// `max` and `min`: the first of two equal values is kept; values that Python cannot order are
/// refused.
fn pick(op: &'static str, current: Value, arg: &Value, worse: Order) -> (r: Result<
    Outcome,
    OpError,
>)
    ensures
        step_of(r) == pick_step(op@, current@, arg@, worse),
{
    match compare_values(&current, arg) {
        Some(o) => if o == worse {
            Ok(Outcome::Value(arg.dup()))
        } else {
            Ok(Outcome::Value(current))
        },
        None => Err(type_error(op, &current, arg)),
    }
}

/// The remainder by twice a number, from the quotient and remainder by the number.
proof fn mod_twice(a: int, p: int)
    requires
        p > 0,
    ensures
        a % (2 * p) == p * ((a / p) % 2) + a % p,
{
    let q = a / p;
    let r = a % p;
    vstd::arithmetic::div_mod::lemma_fundamental_div_mod(a, p);
    let h = q / 2;
    let l = q % 2;
    assert(q == 2 * h + l);
    assert(a == (2 * p) * h + (p * l + r)) by (nonlinear_arith)
        requires
            a == p * q + r,
            q == 2 * h + l,
    ;
    assert(0 <= p * l + r < 2 * p) by (nonlinear_arith)
        requires
            0 <= r < p,
            l == 0 || l == 1,
    ;
    vstd::arithmetic::div_mod::lemma_fundamental_div_mod_converse(a, 2 * p, h, p * l + r);
}

/// Two integers with the same bits agree modulo every power of two.
proof fn same_bits_same_residue(a: int, b: int, k: nat)
    requires
        forall|i: nat| #[trigger] int_bit(a, i) == int_bit(b, i),
    ensures
        a % (pow2(k) as int) == b % (pow2(k) as int),
    decreases k,
{
    vstd::arithmetic::power2::lemma_pow2_pos(k);
    if k == 0 {
        vstd::arithmetic::power2::lemma2_to64();
    } else {
        let j = (k - 1) as nat;
        same_bits_same_residue(a, b, j);
        vstd::arithmetic::power2::lemma_pow2_pos(j);
        vstd::arithmetic::power2::lemma_pow2_unfold(k);
        let p = pow2(j) as int;
        mod_twice(a, p);
        mod_twice(b, p);
        assert(int_bit(a, j) == int_bit(b, j));
        assert((a / p) % 2 == (b / p) % 2);
    }
}

/// An integer is determined by its bits.
pub proof fn bits_determine(a: int, b: int)
    requires
        forall|i: nat| #[trigger] int_bit(a, i) == int_bit(b, i),
    ensures
        a == b,
{
    let d = magnitude(a - b);
    let k = width(a - b);
    width_bounds(a - b);
    same_bits_same_residue(a, b, k);
    let p = pow2(k) as int;
    vstd::arithmetic::power2::lemma_pow2_pos(k);
    vstd::arithmetic::div_mod::lemma_fundamental_div_mod(a, p);
    vstd::arithmetic::div_mod::lemma_fundamental_div_mod(b, p);
    let q = a / p - b / p;
    assert(a - b == p * q) by (nonlinear_arith)
        requires
            a == p * (a / p) + a % p,
            b == p * (b / p) + b % p,
            a % p == b % p,
            q == a / p - b / p,
    ;
    assert(q == 0) by (nonlinear_arith)
        requires
            a - b == p * q,
            p > 0,
            -p < a - b < p,
    ;
}

/// The magnitude of an integer is below two to the power of its width.
pub proof fn width_bounds(v: int)
    ensures
        magnitude(v) < pow2(width(v)),
{
    digits_bound(magnitude(v));
}

proof fn digits_bound(n: nat)
    ensures
        n < pow2(binary_digits(n)),
    decreases n,
{
    if n == 0 {
        vstd::arithmetic::power2::lemma2_to64();
    } else {
        digits_bound(n / 2);
        vstd::arithmetic::power2::lemma_pow2_unfold(binary_digits(n));
    }
}

/// `&`, `|` and `^` over Python's integers; of two booleans they give a boolean.
fn bitwise(op: BitOp, current: &Value, arg: &Value) -> (r: Result<Outcome, OpError>)
    ensures
        step_of(r) == bitwise_step(op, current@, arg@),
{
    if let (Value::Bool(p), Value::Bool(q)) = (current, arg) {
        let b: bool = match op {
            BitOp::And => *p && *q,
            BitOp::Or => *p || *q,
            BitOp::Xor => *p != *q,
        };
        return Ok(Outcome::Value(Value::Bool(b)));
    }
    let sign: &'static str = match op {
        BitOp::And => "&",
        BitOp::Or => "|",
        BitOp::Xor => "^",
    };
    let (x, y) = match need_nums(sign, current, arg) {
        Ok(p) => p,
        Err(e) => {
            return Err(e);
        },
    };
    match (&x, &y) {
        (PyNum::Int(a), PyNum::Int(b)) => {
            let v = match op {
                BitOp::And => a.bit_and(b),
                BitOp::Or => a.bit_or(b),
                BitOp::Xor => a.bit_xor(b),
            };
            proof {
                assert(is_bitwise(op, a@, b@, v@));
                let w = bitwise_of(op, a@, b@);
                assert(is_bitwise(op, a@, b@, w));
                bits_determine(v@, w);
            }
            int_value(v)
        },
        _ => Err(type_error(sign, current, arg)),
    }
}

/// Sets a member of an object.
fn put_member(members: &mut Vec<(String, Value)>, key: String, v: Value)
    ensures
        dict_model(final(members)@) == put(dict_model(old(members)@), key@, v@),
{
    let k: usize = find_key(members, key.as_str());
    if k < members.len() {
        let kept = members[k].0.clone();
        members.set(k, (kept, v));
        assert(dict_model(members@) =~= put(dict_model(old(members)@), key@, v@));
    } else {
        members.push((key, v));
        assert(dict_model(members@) =~= put(dict_model(old(members)@), key@, v@));
    }
}

/// Sets all of `entries`, in order.
fn put_members(members: &mut Vec<(String, Value)>, entries: &Vec<(String, Value)>)
    ensures
        dict_model(final(members)@) == put_all(dict_model(old(members)@), dict_model(entries@)),
{
    for i in 0..entries.len()
        invariant
            dict_model(members@) == put_all(
                dict_model(old(members)@),
                dict_model(entries@).take(i as int),
            ),
    {
        let ghost now = dict_model(entries@).take(i + 1);
        assert(now.drop_last() =~= dict_model(entries@).take(i as int));
        put_member(members, entries[i].0.clone(), entries[i].1.dup());
    }
    assert(dict_model(entries@).take(entries@.len() as int) =~= dict_model(entries@));
}

/// A copy of an object's members.
fn dup_members(members: &Vec<(String, Value)>) -> (r: Vec<(String, Value)>)
    ensures
        dict_model(r@) == dict_model(members@),
{
    let mut out: Vec<(String, Value)> = Vec::new();
    for i in 0..members.len()
        invariant
            out@.len() == i,
            forall|j: int|
                0 <= j < i ==> (#[trigger] out@[j]).0@ == members@[j].0@ && out@[j].1@
                    == members@[j].1@,
    {
        out.push((members[i].0.clone(), members[i].1.dup()));
    }
    assert(dict_model(out@) =~= dict_model(members@));
    out
}

/// `|`: bitwise or on integers, the merge of two objects.
fn or(current: Value, arg: &Value) -> (r: Result<Outcome, OpError>)
    ensures
        step_of(r) == or_step(current@, arg@),
{
    if let (Value::Object(a), Value::Object(b)) = (&current, arg) {
        let mut merged = dup_members(a);
        put_members(&mut merged, b);
        return Ok(Outcome::Value(Value::Object(merged)));
    }
    bitwise(BitOp::Or, &current, arg)
}

/// Dividing by a power of two above the width leaves zero, or minus one.
proof fn shifted_out(p: int, q: nat)
    requires
        q >= width(p),
    ensures
        p / (pow2(q) as int) == if p < 0 {
            -1int
        } else {
            0
        },
{
    width_bounds(p);
    if q > width(p) {
        vstd::arithmetic::power2::lemma_pow2_strictly_increases(width(p), q);
    }
    vstd::arithmetic::power2::lemma_pow2_pos(q);
    let d = pow2(q) as int;
    if p < 0 {
        vstd::arithmetic::div_mod::lemma_fundamental_div_mod_converse(p, d, -1, p + d);
    } else {
        vstd::arithmetic::div_mod::lemma_basic_div(p, d);
    }
}

/// `<<` and `>>`; the latter is arithmetic.
fn shift(current: &Value, arg: &Value, left: bool) -> (r: Result<Outcome, OpError>)
    ensures
        step_of(r) == shift_step(current@, arg@, left),
{
    let sign: &'static str = if left {
        "<<"
    } else {
        ">>"
    };
    let (x, y) = match need_nums(sign, current, arg) {
        Ok(p) => p,
        Err(e) => {
            return Err(e);
        },
    };
    match (&x, &y) {
        (PyNum::Int(a), PyNum::Int(b)) => {
            if b.is_negative() {
                return Err(OpError::ValueError("negative shift count".to_string()));
            }
            match b.to_u64() {
                None => if left {
                    Err(OpError::Overflow)
                } else {
                    proof {
                        shifted_out(a@, b@ as nat);
                    }
                    if a.is_negative() {
                        int_value(Integer::from_i64(-1))
                    } else {
                        int_value(Integer::from_i64(0))
                    }
                },
                Some(count) => if left {
                    if count > MAX_INT_BITS || a.bits() + count > MAX_INT_BITS {
                        return Err(OpError::Overflow);
                    }
                    int_value(a.shifted_left(count))
                } else {
                    int_value(a.shifted_right(count))
                },
            }
        },
        _ => Err(type_error(sign, current, arg)),
    }
}

/// `list.remove`: drops the first equal item; an absent value changes nothing.
fn remove(current: Value, arg: &Value) -> (r: Result<Outcome, OpError>)
    ensures
        step_of(r) == remove_step(current@, arg@),
{
    match current {
        Value::Array(mut items) => {
            let mut i: usize = 0;
            while i < items.len() && !py_eq(&items[i], arg)
                invariant
                    i <= items@.len(),
                    first_same(list_model(items@), arg@, 0) == first_same(
                        list_model(items@),
                        arg@,
                        i as int,
                    ),
                decreases items@.len() - i,
            {
                i += 1;
            }
            if i < items.len() {
                let ghost before = list_model(items@);
                items.remove(i);
                assert(list_model(items@) =~= before.remove(i as int));
            }
            Ok(Outcome::Value(Value::Array(items)))
        },
        other => Err(type_error("remove", &other, arg)),
    }
}

/// `container.pop`: an index at or beyond the length and a missing key change nothing, while a
/// negative index out of range is an error.
fn pop(current: Value, arg: &Value) -> (r: Result<Outcome, OpError>)
    ensures
        step_of(r) == pop_step(current@, arg@),
{
    match current {
        Value::Array(mut items) => {
            let i = match as_num(arg) {
                Some(PyNum::Int(i)) => i,
                _ => {
                    return Err(
                        OpError::TypeError { op: "pop", left: "list", right: kind_name(arg) },
                    );
                },
            };
            let ghost before = list_model(items@);
            let len = Integer::from_i64(0).plus(&length(items.len()));
            if !i.less(&len) {
                return Ok(Outcome::Value(Value::Array(items)));
            }
            let at = if i.is_negative() {
                len.plus(&i)
            } else {
                i
            };
            match at.to_u64() {
                None => Err(OpError::IndexError),
                Some(k) => {
                    items.remove(k as usize);
                    assert(list_model(items@) =~= before.remove(at@));
                    Ok(Outcome::Value(Value::Array(items)))
                },
            }
        },
        Value::Object(mut members) => {
            match arg {
                Value::String(key) => {
                    let ghost before = dict_model(members@);
                    let k: usize = find_key(&members, key.as_str());
                    if k < members.len() {
                        members.remove(k);
                        assert(dict_model(members@) =~= before.remove(k as int));
                    }
                    Ok(Outcome::Value(Value::Object(members)))
                },
                Value::Array(_) | Value::Object(_) => Err(
                    OpError::TypeError { op: "pop", left: "dict", right: kind_name(arg) },
                ),
                _ => Ok(Outcome::Value(Value::Object(members))),
            }
        },
        other => Err(type_error("pop", &other, arg)),
    }
}

/// A length as an integer.
fn length(n: usize) -> (r: Integer)
    ensures
        r@ == n,
{
    let high: i64 = (n / 2) as i64;
    let low: i64 = (n % 2) as i64;
    Integer::from_i64(high).plus(&Integer::from_i64(high)).plus(&Integer::from_i64(low))
}

/// `update` on a list: appends the entries that are not among the original items.
fn update_list(start: Vec<Value>, arg: &Value) -> (r: Result<Outcome, OpError>)
    ensures
        step_of(r) == update_step(Datum::List(list_model(start@)), arg@),
{
    let ghost original = list_model(start@);
    let mut items = start;
    let entries = match iterate(arg) {
        Some(entries) => entries,
        None => {
            return Err(OpError::TypeError { op: "update", left: "list", right: kind_name(arg) });
        },
    };
    for i in 0..items.len()
        invariant
            original == list_model(start@),
            original == list_model(items@),
            iterated(arg@) == Some(list_model(entries@)),
            forall|j: int| 0 <= j < i ==> hashable(#[trigger] original[j]),
    {
        assert(original[i as int] == items@[i as int]@);
        if !is_hashable(&items[i]) {
            return Err(OpError::Unhashable);
        }
    }
    let mut before: Vec<Value> = Vec::new();
    extend(&mut before, &items);
    assert(list_model(before@) =~= original);
    let ghost result = absorb(original, original, list_model(entries@), 0);
    for i in 0..entries.len()
        invariant
            original == list_model(start@),
            list_model(before@) == original,
            result == absorb(original, list_model(items@), list_model(entries@), i as int),
            result == update_step(Datum::List(original), arg@),
    {
        assert(list_model(entries@)[i as int] == entries@[i as int]@);
        if !is_hashable(&entries[i]) {
            return Err(OpError::Unhashable);
        }
        if !py_contains(&before, &entries[i]) {
            if items.len() >= MAX_RESULT_LEN {
                return Err(OpError::ResultTooLarge);
            }
            let ghost was = list_model(items@);
            items.push(entries[i].dup());
            assert(list_model(items@) =~= was.push(list_model(entries@)[i as int]));
        }
    }
    Ok(Outcome::Value(Value::Array(items)))
}

/// The complaint about an element of the wrong length among pairs.
fn pair_error(i: usize, len: usize) -> (r: OpError)
    ensures
        r@ == Fault::ValueError(pair_text(i as int, len as nat)),
{
    let mut s = "dictionary update sequence element #".to_string();
    push_decimal(&mut s, i as u64);
    s.append(" has length ");
    push_decimal(&mut s, len as u64);
    s.append("; 2 is required");
    OpError::ValueError(s)
}

/// `update` on an object from an iterable of pairs.
fn update_pairs(start: Vec<(String, Value)>, arg: &Value) -> (r: Result<Outcome, OpError>)
    requires
        !(arg@ is Dict),
    ensures
        step_of(r) == update_step(Datum::Dict(dict_model(start@)), arg@),
{
    let ghost original = dict_model(start@);
    let mut members = start;
    let elements = match iterate(arg) {
        Some(elements) => elements,
        None => {
            return Err(OpError::TypeError { op: "update", left: "dict", right: kind_name(arg) });
        },
    };
    let ghost result = absorb_pairs(original, list_model(elements@), 0);
    for i in 0..elements.len()
        invariant
            result == update_step(Datum::Dict(dict_model(start@)), arg@),
            result == absorb_pairs(dict_model(members@), list_model(elements@), i as int),
    {
        assert(list_model(elements@)[i as int] == elements@[i as int]@);
        let kv = match iterate(&elements[i]) {
            Some(kv) => kv,
            None => {
                return Err(
                    OpError::TypeError {
                        op: "update",
                        left: "dict",
                        right: kind_name(&elements[i]),
                    },
                );
            },
        };
        if kv.len() != 2 {
            return Err(pair_error(i, kv.len()));
        }
        assert(list_model(kv@)[0] == kv@[0]@ && list_model(kv@)[1] == kv@[1]@);
        match &kv[0] {
            Value::String(key) => {
                put_member(&mut members, key.clone(), kv[1].dup());
            },
            other => {
                return Err(
                    OpError::TypeError { op: "update", left: "dict key", right: kind_name(other) },
                );
            },
        }
    }
    Ok(Outcome::Value(Value::Object(members)))
}

/// `update`: append-if-absent for lists, `dict.update` for objects.
fn update(current: Value, arg: &Value) -> (r: Result<Outcome, OpError>)
    ensures
        step_of(r) == update_step(current@, arg@),
{
    match current {
        Value::Array(items) => update_list(items, arg),
        Value::Object(mut members) => {
            if let Value::Object(entries) = arg {
                put_members(&mut members, entries);
                return Ok(Outcome::Value(Value::Object(members)));
            }
            update_pairs(members, arg)
        },
        other => Err(type_error("update", &other, arg)),
    }
}

/// Applies one operation.
pub fn apply(op: &str, current: Value, arg: &Value) -> (r: Result<Outcome, OpError>)
    ensures
        step_of(r) == apply_step(op@, current@, arg@),
{
    if *op == *"replace" {
        Ok(Outcome::Value(arg.dup()))
    } else if *op == *"default" {
        Ok(Outcome::Value(current))
    } else if *op == *"add" {
        self::add(current, arg)
    } else if *op == *"mul" {
        self::mul(current, arg)
    } else if *op == *"pow" {
        pow(&current, arg)
    } else if *op == *"mod" {
        modulo(&current, arg)
    } else if *op == *"floor" {
        round(&current, false)
    } else if *op == *"ceil" {
        round(&current, true)
    } else if *op == *"max" {
        pick("max", current, arg, Order::Less)
    } else if *op == *"min" {
        pick("min", current, arg, Order::Greater)
    } else if *op == *"xor" {
        bitwise(BitOp::Xor, &current, arg)
    } else if *op == *"or" {
        or(current, arg)
    } else if *op == *"and" {
        bitwise(BitOp::And, &current, arg)
    } else if *op == *"left_shift" {
        shift(&current, arg, true)
    } else if *op == *"right_shift" {
        shift(&current, arg, false)
    } else if *op == *"remove" {
        remove(current, arg)
    } else if *op == *"pop" {
        pop(current, arg)
    } else if *op == *"update" {
        update(current, arg)
    } else {
        Err(OpError::UnknownOperation(op.to_owned()))
    }
}

/// The model of a computed double.
pub open spec fn computed_model(c: Option<Number>) -> Option<(Seq<char>, u64)> {
    match c {
        Some(Number { text, float: Some(bits) }) => Some((text@, bits)),
        _ => None,
    }
}

/// What the double computed for a [`FloatCall`] comes to. `computed` holds the double and the
/// text that it is written as, or nothing where it is not finite.
pub fn finish(computed: Option<Number>) -> (r: Result<Value, OpError>)
    ensures
        match r {
            Ok(v) => Step::Value(v@),
            Err(e) => Step::Fault(e@),
        } == float_result(computed_model(computed)),
{
    match computed {
        Some(n) => match n.float {
            Some(bits) => Ok(Value::Number(Number { text: n.text, float: Some(bits) })),
            None => Err(OpError::NotFinite),
        },
        None => Err(OpError::NotFinite),
    }
}

/// What a sequence of operations gave.
#[derive(Debug)]
pub enum Progress {
    /// Every operation succeeded.
    Done(Value),
    /// The operation at this position failed; nothing is to be stored.
    Failed(usize, OpError),
    /// The operation at this position comes down to a computation on doubles.
    Float(usize, FloatCall),
}

/// The model of what a sequence of operations gave.
pub open spec fn run_of(p: Progress) -> Run {
    match p {
        Progress::Done(v) => Run::Done(v@),
        Progress::Failed(i, e) => Run::Failed(i as int, e@),
        Progress::Float(i, call) => Run::Float(i as int, call.op, call.left@, call.right@),
    }
}

/// Applies the operations from position `start` on, each to what the one before gave.
fn apply_from(value: Value, operations: &Vec<(String, Value)>, start: usize) -> (r: Progress)
    requires
        start <= operations@.len(),
    ensures
        run_of(r) == run_from(value@, dict_model(operations@), start as int),
{
    let ghost ops = dict_model(operations@);
    let mut current = value;
    let mut i: usize = start;
    while i < operations.len()
        invariant
            i <= operations@.len(),
            ops == dict_model(operations@),
            run_from(value@, ops, start as int) == run_from(current@, ops, i as int),
        decreases operations@.len() - i,
    {
        assert(ops[i as int] == (operations@[i as int].0@, operations@[i as int].1@));
        match apply(operations[i].0.as_str(), current, &operations[i].1) {
            Ok(Outcome::Value(v)) => {
                current = v;
            },
            Ok(Outcome::Float(call)) => {
                return Progress::Float(i, call);
            },
            Err(e) => {
                return Progress::Failed(i, e);
            },
        }
        i += 1;
    }
    Progress::Done(current)
}

/// Applies a whole sequence. The value is given back only where every operation succeeds.
pub fn apply_all(value: Value, operations: &Vec<(String, Value)>) -> (r: Progress)
    ensures
        run_of(r) == run_from(value@, dict_model(operations@), 0),
{
    apply_from(value, operations, 0)
}

/// Goes on with a sequence whose operation at position `index` came down to a computation on
/// doubles, now made.
pub fn resume(operations: &Vec<(String, Value)>, index: usize, computed: Option<Number>) -> (r:
    Progress)
    requires
        index < operations@.len(),
    ensures
        run_of(r) == after_step(
            float_result(computed_model(computed)),
            dict_model(operations@),
            index as int,
        ),
{
    let count: usize = operations.len();
    assert(index < count);
    match finish(computed) {
        Ok(v) => apply_from(v, operations, index + 1),
        Err(e) => Progress::Failed(index, e),
    }
}

/// A text as Rust's `{:?}` writes it: in quotes, with its special characters escaped.
pub uninterp spec fn debug_quoted(s: Seq<char>) -> Seq<char>;

/// `format!` with `{:?}` on a string.
#[verifier::external_body]
pub(crate) fn debug_text(s: &str) -> (r: String)
    ensures
        r@ == debug_quoted(s@),
{
    format!("{s:?}")
}

/// The message of a failure.
pub open spec fn fault_text(f: Fault) -> Seq<char> {
    match f {
        Fault::TypeError(op, left, right) => "unsupported operand type(s) for "@ + op + ": "@ + left
            + " and "@ + right,
        Fault::ValueError(s) => s,
        Fault::IndexError => "list index out of range"@,
        Fault::KeyError => "key not found"@,
        Fault::ZeroDivisionError => "division or modulo by zero"@,
        Fault::Unhashable => "unhashable type in container"@,
        Fault::UnknownOperation(s) => "unknown data storage operation "@ + debug_quoted(s),
        Fault::Overflow => "integer too large to convert to a float"@,
        Fault::IntegerTooWide => "integer wider than "@ + dec(MAX_INT_BITS as nat) + " bits"@,
        Fault::ResultTooLarge => "result would exceed "@ + dec(MAX_RESULT_LEN as nat) + " bytes"@,
        Fault::NotFinite => "result is not a finite number"@,
        Fault::StringFormatting =>
            "string formatting via `mod` is not supported (see OpError docs)"@,
    }
}

impl OpError {
    /// The message.
    pub fn message(&self) -> (r: String)
        ensures
            r@ == fault_text(self@),
    {
        match self {
            OpError::TypeError { op, left, right } => {
                let mut s = "unsupported operand type(s) for ".to_string();
                s.append(op);
                s.append(": ");
                s.append(left);
                s.append(" and ");
                s.append(right);
                s
            },
            OpError::ValueError(s) => s.clone(),
            OpError::IndexError => "list index out of range".to_string(),
            OpError::KeyError => "key not found".to_string(),
            OpError::ZeroDivisionError => "division or modulo by zero".to_string(),
            OpError::Unhashable => "unhashable type in container".to_string(),
            OpError::UnknownOperation(name) => {
                let mut s = "unknown data storage operation ".to_string();
                s.append(debug_text(name.as_str()).as_str());
                s
            },
            OpError::Overflow => "integer too large to convert to a float".to_string(),
            OpError::IntegerTooWide => {
                let mut s = "integer wider than ".to_string();
                push_decimal(&mut s, MAX_INT_BITS);
                s.append(" bits");
                s
            },
            OpError::ResultTooLarge => {
                let mut s = "result would exceed ".to_string();
                push_decimal(&mut s, MAX_RESULT_LEN as u64);
                s.append(" bytes");
                s
            },
            OpError::NotFinite => "result is not a finite number".to_string(),
            OpError::StringFormatting =>
                "string formatting via `mod` is not supported (see OpError docs)".to_string(),
        }
    }
}

} // verus!
