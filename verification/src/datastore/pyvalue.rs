//! Python value semantics over JSON.
//!
//! Booleans are the integers one and zero, `%` is floored, and equality and order compare
//! numbers by value whatever their type.

use crate::datastore::integer::{integer_text_value, is_integer_text, magnitude, Integer};
use crate::datastore::value::{dict_model, list_model, Datum, Value};
use crate::text::{compare_text, order_int, order_text, Order};
use std::cmp::Ordering;
use vstd::arithmetic::power2::pow2;
use vstd::prelude::*;

verus! {

/// A number as Python sees it: an exact integer, or a double by its bit pattern.
#[derive(Debug, Clone, PartialEq, Eq)]
pub enum PyNum {
    Int(Integer),
    Float(u64),
}

/// The mathematical model of a [`PyNum`].
pub enum Num {
    Int(int),
    Float(u64),
}

impl PyNum {
    pub open spec fn view(&self) -> Num {
        match self {
            PyNum::Int(n) => Num::Int(n@),
            PyNum::Float(bits) => Num::Float(*bits),
        }
    }
}

/// The biased exponent field of a double.
pub open spec fn float_exponent(bits: u64) -> int {
    (bits as int / 0x10_0000_0000_0000) % 2048
}

/// The fraction field of a double.
pub open spec fn float_fraction(bits: u64) -> int {
    bits as int % 0x10_0000_0000_0000
}

/// Whether the sign bit of a double is set.
pub open spec fn float_negative(bits: u64) -> bool {
    bits >= 0x8000_0000_0000_0000
}

/// Whether a double is neither infinite nor a NaN.
pub open spec fn float_finite(bits: u64) -> bool {
    float_exponent(bits) != 2047
}

/// The significand of a finite double, with its sign.
pub open spec fn float_significand(bits: u64) -> int {
    let m = if float_exponent(bits) == 0 {
        float_fraction(bits)
    } else {
        float_fraction(bits) + 0x10_0000_0000_0000
    };
    if float_negative(bits) {
        -m
    } else {
        m
    }
}

/// By how many bits the significand of a finite double is scaled above the smallest double.
pub open spec fn float_scale(bits: u64) -> nat {
    if float_exponent(bits) == 0 {
        0
    } else {
        (float_exponent(bits) - 1) as nat
    }
}

/// The value of a finite double in units of the smallest positive one, which is two to the
/// power of minus 1074. Every finite double is a whole number of them.
pub open spec fn float_units(bits: u64) -> int {
    float_significand(bits) * pow2(float_scale(bits))
}

/// The value of a number in units of the smallest positive double.
pub open spec fn num_units(n: Num) -> int {
    match n {
        Num::Int(v) => v * pow2(1074),
        Num::Float(bits) => float_units(bits),
    }
}

/// The number a value is, if it is one. A number whose text is not an integer literal and
/// that is too large for a finite double is none.
pub open spec fn num_of(d: Datum) -> Option<Num> {
    match d {
        Datum::Bool(b) => Some(
            Num::Int(
                if b {
                    1
                } else {
                    0
                },
            ),
        ),
        Datum::Number(text, float) => if is_integer_text(text) {
            Some(Num::Int(integer_text_value(text)))
        } else {
            match float {
                Some(bits) => if float_finite(bits) {
                    Some(Num::Float(bits))
                } else {
                    None
                },
                None => None,
            }
        },
        _ => None,
    }
}

/// The first position from `i` on at which the key stands, or the length.
pub open spec fn first_key(members: Seq<(Seq<char>, Datum)>, key: Seq<char>, i: int) -> int
    decreases members.len() - i,
{
    if i >= members.len() || members[i].0 == key {
        i
    } else {
        first_key(members, key, i + 1)
    }
}

/// Python's `==` over the models.
pub open spec fn same(a: Datum, b: Datum) -> bool
    decreases a,
{
    match (num_of(a), num_of(b)) {
        (Some(x), Some(y)) => num_units(x) == num_units(y),
        (None, None) => match (a, b) {
            (Datum::Text(x), Datum::Text(y)) => x == y,
            (Datum::Null, Datum::Null) => true,
            (Datum::List(x), Datum::List(y)) => {
                &&& x.len() == y.len()
                &&& forall|i: int| 0 <= i < x.len() ==> same(#[trigger] x[i], y[i])
            },
            (Datum::Dict(x), Datum::Dict(y)) => {
                &&& x.len() == y.len()
                &&& forall|i: int|
                    0 <= i < x.len() ==> {
                        let k = first_key(y, (#[trigger] x[i]).0, 0);
                        k < y.len() && same(x[i].1, y[k].1)
                    }
            },
            _ => false,
        },
        _ => false,
    }
}

/// Python's order over the models from list position `i` on.
pub open spec fn order_lists(x: Seq<Datum>, y: Seq<Datum>, i: int) -> Option<Order>
    decreases x, x.len() - i,
{
    if i < 0 || i >= x.len() || i >= y.len() {
        Some(order_int(x.len() as int, y.len() as int))
    } else {
        match order_data(x[i], y[i]) {
            Some(Order::Equal) => order_lists(x, y, i + 1),
            other => other,
        }
    }
}

/// Python's order over the models, where it is defined.
pub open spec fn order_data(a: Datum, b: Datum) -> Option<Order>
    decreases a, 0int,
{
    match (num_of(a), num_of(b)) {
        (Some(x), Some(y)) => Some(order_int(num_units(x), num_units(y))),
        _ => match (a, b) {
            (Datum::Text(x), Datum::Text(y)) => Some(order_text(x, y)),
            (Datum::List(x), Datum::List(y)) => order_lists(x, y, 0),
            _ => None,
        },
    }
}

/// `a % b` with the sign of the divisor.
pub open spec fn floor_mod(a: int, b: int) -> int {
    if b > 0 {
        a % b
    } else {
        -((-a) % (-b))
    }
}

/// The value of a finite double in units of the smallest positive one.
fn units_of_float(bits: u64) -> (r: Integer)
    requires
        float_finite(bits),
    ensures
        r@ == float_units(bits),
{
    let exponent: u64 = (bits / 0x10_0000_0000_0000) % 2048;
    let fraction: u64 = bits % 0x10_0000_0000_0000;
    let m: u64 = if exponent == 0 {
        fraction
    } else {
        fraction + 0x10_0000_0000_0000
    };
    let scale: u64 = if exponent == 0 {
        0
    } else {
        exponent - 1
    };
    let signed: i64 = if bits >= 0x8000_0000_0000_0000 {
        -(m as i64)
    } else {
        m as i64
    };
    Integer::from_i64(signed).shifted_left(scale)
}

/// The value of a number in units of the smallest positive double.
pub fn units_of(n: &PyNum) -> (r: Integer)
    requires
        n@ matches Num::Float(bits) ==> float_finite(bits),
    ensures
        r@ == num_units(n@),
{
    match n {
        PyNum::Int(v) => v.shifted_left(1074),
        PyNum::Float(bits) => units_of_float(*bits),
    }
}

/// Interprets a value as a number, booleans as integers.
pub fn as_num(v: &Value) -> (r: Option<PyNum>)
    ensures
        r is Some <==> num_of(v@) is Some,
        r matches Some(n) ==> Some(n@) == num_of(v@),
{
    match v {
        Value::Bool(b) => Some(
            PyNum::Int(
                Integer::from_i64(
                    if *b {
                        1
                    } else {
                        0
                    },
                ),
            ),
        ),
        Value::Number(n) => {
            match Integer::from_text(n.text.as_str()) {
                Some(i) => Some(PyNum::Int(i)),
                None => match n.float {
                    Some(bits) => {
                        if (bits / 0x10_0000_0000_0000) % 2048 != 2047 {
                            Some(PyNum::Float(bits))
                        } else {
                            None
                        }
                    },
                    None => None,
                },
            }
        },
        _ => None,
    }
}

/// Orders two numbers by value.
fn compare_nums(x: &PyNum, y: &PyNum) -> (r: Order)
    requires
        x@ matches Num::Float(bits) ==> float_finite(bits),
        y@ matches Num::Float(bits) ==> float_finite(bits),
    ensures
        r == order_int(num_units(x@), num_units(y@)),
{
    let a = units_of(x);
    let b = units_of(y);
    if a.less(&b) {
        Order::Less
    } else if b.less(&a) {
        Order::Greater
    } else {
        Order::Equal
    }
}

/// The position of a key among members, or their number where it is absent.
pub fn find_key(members: &Vec<(String, Value)>, key: &str) -> (r: usize)
    ensures
        r == first_key(dict_model(members@), key@, 0),
        r <= members@.len(),
{
    let mut i: usize = 0;
    while i < members.len()
        invariant
            i <= members@.len(),
            first_key(dict_model(members@), key@, 0) == first_key(
                dict_model(members@),
                key@,
                i as int,
            ),
        decreases members@.len() - i,
    {
        assert(dict_model(members@)[i as int].0 == members@[i as int].0@);
        if *members[i].0.as_str() == *key {
            return i;
        }
        i += 1;
    }
    i
}

/// The search for a key ends within the members or just behind them, at the first place where
/// the key stands.
pub proof fn first_key_properties(members: Seq<(Seq<char>, Datum)>, key: Seq<char>, i: int)
    requires
        0 <= i <= members.len(),
    ensures
        i <= first_key(members, key, i) <= members.len(),
        first_key(members, key, i) < members.len() ==> members[first_key(members, key, i)].0 == key,
        forall|j: int| i <= j < first_key(members, key, i) ==> (#[trigger] members[j]).0 != key,
    decreases members.len() - i,
{
    if i < members.len() && members[i].0 != key {
        first_key_properties(members, key, i + 1);
    }
}

/// Python's `==`: numbers compare by value whatever their type, containers by their contents.
pub fn py_eq(a: &Value, b: &Value) -> (r: bool)
    ensures
        r == same(a@, b@),
    decreases a,
{
    let x = as_num(a);
    let y = as_num(b);
    if x.is_some() && y.is_some() {
        return compare_nums(&x.unwrap(), &y.unwrap()) == Order::Equal;
    }
    if x.is_some() || y.is_some() {
        return false;
    }
    match (a, b) {
        (Value::String(p), Value::String(q)) => *p.as_str() == *q.as_str(),
        (Value::Null, Value::Null) => true,
        (Value::Array(p), Value::Array(q)) => {
            if p.len() != q.len() {
                return false;
            }
            assert(decreases_to!(*a => a->Array_0));
            for i in 0..p.len()
                invariant
                    *a == Value::Array(*p),
                    *b == Value::Array(*q),
                    decreases_to!(*a => *p),
                    p@.len() == q@.len(),
                    num_of(a@) is None,
                    num_of(b@) is None,
                    forall|j: int|
                        0 <= j < i ==> same(
                            #[trigger] list_model(p@)[j],
                            list_model(q@)[j],
                        ),
            {
                assert(decreases_to!(*p => p[i as int]));
                assert(list_model(p@)[i as int] == p@[i as int]@);
                assert(list_model(q@)[i as int] == q@[i as int]@);
                if !py_eq(&p[i], &q[i]) {
                    return false;
                }
            }
            assert(a@ == Datum::List(list_model(p@)));
            assert(b@ == Datum::List(list_model(q@)));
            true
        },
        (Value::Object(p), Value::Object(q)) => {
            if p.len() != q.len() {
                return false;
            }
            assert(decreases_to!(*a => a->Object_0));
            for i in 0..p.len()
                invariant
                    *a == Value::Object(*p),
                    *b == Value::Object(*q),
                    decreases_to!(*a => *p),
                    p@.len() == q@.len(),
                    num_of(a@) is None,
                    num_of(b@) is None,
                    forall|j: int|
                        0 <= j < i ==> {
                            let k = first_key(dict_model(q@), (#[trigger] dict_model(p@)[j]).0, 0);
                            k < q@.len() && same(dict_model(p@)[j].1, dict_model(q@)[k].1)
                        },
            {
                assert(decreases_to!(*p => p[i as int]));
                assert(decreases_to!(p[i as int] => p[i as int].1));
                assert(dict_model(p@)[i as int] == (p@[i as int].0@, p@[i as int].1@));
                let k: usize = find_key(q, p[i].0.as_str());
                if k >= q.len() {
                    return false;
                }
                assert(dict_model(q@)[k as int].1 == q@[k as int].1@);
                if !py_eq(&p[i].1, &q[k].1) {
                    return false;
                }
            }
            assert(a@ == Datum::Dict(dict_model(p@)));
            assert(b@ == Datum::Dict(dict_model(q@)));
            true
        },
        _ => false,
    }
}

/// Python's order where it is defined; `None` for comparisons that Python refuses.
pub fn compare_values(a: &Value, b: &Value) -> (r: Option<Order>)
    ensures
        r == order_data(a@, b@),
    decreases a,
{
    let x = as_num(a);
    let y = as_num(b);
    if x.is_some() && y.is_some() {
        return Some(compare_nums(&x.unwrap(), &y.unwrap()));
    }
    match (a, b) {
        (Value::String(p), Value::String(q)) => Some(compare_text(p.as_str(), q.as_str())),
        (Value::Array(p), Value::Array(q)) => {
            assert(decreases_to!(*a => a->Array_0));
            let mut i: usize = 0;
            while i < p.len() && i < q.len()
                invariant
                    *a == Value::Array(*p),
                    *b == Value::Array(*q),
                    decreases_to!(*a => *p),
                    i <= p@.len(),
                    i <= q@.len(),
                    order_data(a@, b@) == order_lists(list_model(p@), list_model(q@), i as int),
                decreases p@.len() - i,
            {
                assert(decreases_to!(*p => p[i as int]));
                assert(list_model(p@)[i as int] == p@[i as int]@);
                assert(list_model(q@)[i as int] == q@[i as int]@);
                match compare_values(&p[i], &q[i]) {
                    Some(Order::Equal) => {},
                    other => {
                        return other;
                    },
                }
                i += 1;
            }
            if p.len() < q.len() {
                Some(Order::Less)
            } else if p.len() == q.len() {
                Some(Order::Equal)
            } else {
                Some(Order::Greater)
            }
        },
        _ => None,
    }
}

/// An [`Order`] as the standard library writes it.
pub open spec fn as_ordering(o: Order) -> Ordering {
    match o {
        Order::Less => Ordering::Less,
        Order::Equal => Ordering::Equal,
        Order::Greater => Ordering::Greater,
    }
}

/// Python's order as a standard library ordering, where it is defined.
pub fn py_cmp(a: &Value, b: &Value) -> (r: Option<Ordering>)
    ensures
        r is Some <==> order_data(a@, b@) is Some,
        r matches Some(o) ==> o == as_ordering(order_data(a@, b@)->0),
{
    match compare_values(a, b) {
        Some(Order::Less) => Some(Ordering::Less),
        Some(Order::Equal) => Some(Ordering::Equal),
        Some(Order::Greater) => Some(Ordering::Greater),
        None => None,
    }
}

/// Whether some item of the list equals the value.
pub open spec fn holds(items: Seq<Datum>, needle: Datum) -> bool {
    exists|i: int| 0 <= i < items.len() && same(#[trigger] items[i], needle)
}

/// Whether `needle` is in `haystack` under Python's equality.
pub fn py_contains(haystack: &Vec<Value>, needle: &Value) -> (r: bool)
    ensures
        r == holds(list_model(haystack@), needle@),
{
    for i in 0..haystack.len()
        invariant
            forall|j: int| 0 <= j < i ==> !same(#[trigger] list_model(haystack@)[j], needle@),
    {
        assert(list_model(haystack@)[i as int] == haystack@[i as int]@);
        if py_eq(&haystack[i], needle) {
            return true;
        }
    }
    false
}

/// Whether a value can be a member of a Python set: containers cannot.
pub open spec fn hashable(d: Datum) -> bool {
    !(d is List) && !(d is Dict)
}

pub fn is_hashable(v: &Value) -> (r: bool)
    ensures
        r == hashable(v@),
{
    match v {
        Value::Array(_) => false,
        Value::Object(_) => false,
        _ => true,
    }
}

/// How the remainder of a negated number relates to that of the number.
proof fn mod_of_negation(a: int, d: int)
    requires
        d > 0,
    ensures
        (-a) % d == if a % d == 0 {
            0
        } else {
            d - a % d
        },
{
    let q = a / d;
    let r = a % d;
    vstd::arithmetic::div_mod::lemma_fundamental_div_mod(a, d);
    if r == 0 {
        assert(-a == d * (-q)) by (nonlinear_arith)
            requires
                a == d * q,
        ;
        vstd::arithmetic::div_mod::lemma_fundamental_div_mod_converse(-a, d, -q, 0);
    } else {
        assert(-a == d * (-q - 1) + (d - r)) by (nonlinear_arith)
            requires
                a == d * q + r,
        ;
        vstd::arithmetic::div_mod::lemma_fundamental_div_mod_converse(-a, d, -q - 1, d - r);
    }
}

/// The magnitude of `n`.
fn absolute(n: i64) -> (r: u64)
    ensures
        r == magnitude(n as int),
{
    if n >= 0 {
        n as u64
    } else {
        (-(n as i128)) as u64
    }
}

/// `a % b` with the sign of the divisor; `None` for a zero divisor.
pub fn floor_mod_i64(a: i64, b: i64) -> (r: Option<i64>)
    ensures
        r is Some <==> b != 0,
        r matches Some(m) ==> m == floor_mod(a as int, b as int),
{
    if b == 0 {
        return None;
    }
    let d: u64 = absolute(b);
    let n: u64 = absolute(a);
    let m: u64 = n % d;
    proof {
        mod_of_negation(n as int, d as int);
    }
    assert(floor_mod(a as int, b as int) == if (a < 0) == (b < 0) {
        if b > 0 { m as int } else { -(m as int) }
    } else if m == 0 {
        0int
    } else if b > 0 {
        d - m
    } else {
        m - d
    });
    let size: u64 = if m == 0 || (a < 0) == (b < 0) {
        m
    } else {
        d - m
    };
    if b > 0 {
        Some(size as i64)
    } else {
        Some(-(size as i64))
    }
}

/// `a % b` with the sign of the divisor on integers of any width; `None` for a zero divisor.
pub fn floor_mod_big(a: &Integer, b: &Integer) -> (r: Option<Integer>)
    ensures
        r is Some <==> b@ != 0,
        r matches Some(m) ==> m@ == floor_mod(a@, b@),
{
    let zero = Integer::from_i64(0);
    if b.equals(&zero) {
        return None;
    }
    let m = a.remainder(b);
    proof {
        mod_of_negation(a@, magnitude(b@) as int);
        mod_of_negation(-a@, magnitude(b@) as int);
    }
    if !m.equals(&zero) && m.is_negative() != b.is_negative() {
        Some(m.plus(b))
    } else {
        Some(m)
    }
}

} // verus!
