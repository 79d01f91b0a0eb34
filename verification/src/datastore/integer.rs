//! Integers of arbitrary width.
//!
//! A value is held as its two's-complement bytes, least significant first. The arithmetic is
//! that of the `num-bigint` crate: each function here that is marked as trusted converts the
//! bytes, makes one call, and converts back.

use crate::text::{all_digits, dec_int, digits_value};
use num_traits::{Num, ToPrimitive};
use vstd::arithmetic::power::pow;
use vstd::arithmetic::power2::pow2;
use vstd::prelude::*;

verus! {

/// The value of bytes read as an unsigned number, least significant first.
pub open spec fn unsigned_le(b: Seq<u8>) -> int
    decreases b.len(),
{
    if b.len() == 0 {
        0
    } else {
        b[0] + 256 * unsigned_le(b.drop_first())
    }
}

/// The value of bytes read as a two's-complement number, least significant first.
pub open spec fn signed_le(b: Seq<u8>) -> int {
    if b.len() > 0 && b.last() >= 128 {
        unsigned_le(b) - pow2((8 * b.len()) as nat)
    } else {
        unsigned_le(b)
    }
}

/// The magnitude of an integer.
pub open spec fn magnitude(v: int) -> nat {
    if v < 0 {
        (-v) as nat
    } else {
        v as nat
    }
}

/// How many binary digits the natural number has; none for zero.
pub open spec fn binary_digits(n: nat) -> nat
    decreases n,
{
    if n == 0 {
        0
    } else {
        1 + binary_digits(n / 2)
    }
}

/// The width of an integer in bits: that of its magnitude.
pub open spec fn width(v: int) -> nat {
    binary_digits(magnitude(v))
}

/// Bit `i` of an integer in two's complement with unbounded sign extension.
pub open spec fn int_bit(v: int, i: nat) -> bool {
    (v / (pow2(i) as int)) % 2 == 1
}

/// The remainder that truncating division leaves: it has the dividend's sign.
pub open spec fn truncated_rem(a: int, b: int) -> int {
    if a < 0 {
        -((-a) % (magnitude(b) as int))
    } else {
        a % (magnitude(b) as int)
    }
}

/// A decimal integer literal: an optional minus sign and digits.
pub open spec fn is_integer_text(s: Seq<char>) -> bool {
    if s.len() > 0 && s[0] == '-' {
        all_digits(s.drop_first())
    } else {
        all_digits(s)
    }
}

/// The value of a decimal integer literal.
pub open spec fn integer_text_value(s: Seq<char>) -> int {
    if s.len() > 0 && s[0] == '-' {
        -digits_value(s.drop_first())
    } else {
        digits_value(s)
    }
}

/// An integer of any width.
#[derive(Debug, Clone, PartialEq, Eq)]
pub struct Integer {
    bytes: Vec<u8>,
}

impl View for Integer {
    type V = int;

    closed spec fn view(&self) -> int {
        signed_le(self.bytes@)
    }
}

/// `BigInt::from` an `i64` is that number.
#[verifier::external_body]
fn big_from(n: i64) -> (r: Integer)
    ensures
        r@ == n,
{
    Integer { bytes: num_bigint::BigInt::from(n).to_signed_bytes_le() }
}

/// `BigInt::from_str_radix` at radix ten reads a decimal literal.
#[verifier::external_body]
fn big_from_text(s: &str) -> (r: Integer)
    requires
        is_integer_text(s@),
    ensures
        r@ == integer_text_value(s@),
{
    let n = num_bigint::BigInt::from_str_radix(s, 10).expect("a decimal literal");
    Integer { bytes: n.to_signed_bytes_le() }
}

/// `BigInt::to_str_radix` at radix ten writes decimal digits after an optional minus sign.
#[verifier::external_body]
fn big_to_text(a: &Integer) -> (r: String)
    ensures
        r@ == dec_int(a@),
{
    num_bigint::BigInt::from_signed_bytes_le(&a.bytes).to_str_radix(10)
}

/// `+` of `BigInt` is addition.
#[verifier::external_body]
fn big_add(a: &Integer, b: &Integer) -> (r: Integer)
    ensures
        r@ == a@ + b@,
{
    let x = num_bigint::BigInt::from_signed_bytes_le(&a.bytes);
    let y = num_bigint::BigInt::from_signed_bytes_le(&b.bytes);
    Integer { bytes: (x + y).to_signed_bytes_le() }
}

/// `*` of `BigInt` is multiplication.
#[verifier::external_body]
fn big_mul(a: &Integer, b: &Integer) -> (r: Integer)
    ensures
        r@ == a@ * b@,
{
    let x = num_bigint::BigInt::from_signed_bytes_le(&a.bytes);
    let y = num_bigint::BigInt::from_signed_bytes_le(&b.bytes);
    Integer { bytes: (x * y).to_signed_bytes_le() }
}

/// `BigInt::pow` is exponentiation. The bound keeps the result within memory.
#[verifier::external_body]
fn big_pow(a: &Integer, exp: u32) -> (r: Integer)
    requires
        width(a@) <= 1 || width(a@) * exp <= 0x1_0000_0000,
    ensures
        r@ == pow(a@, exp as nat),
{
    let x = num_bigint::BigInt::from_signed_bytes_le(&a.bytes);
    Integer { bytes: x.pow(exp).to_signed_bytes_le() }
}

/// `%` of `BigInt` truncates: the remainder has the dividend's sign. It panics on a zero
/// divisor.
#[verifier::external_body]
fn big_rem(a: &Integer, b: &Integer) -> (r: Integer)
    requires
        b@ != 0,
    ensures
        r@ == truncated_rem(a@, b@),
{
    let x = num_bigint::BigInt::from_signed_bytes_le(&a.bytes);
    let y = num_bigint::BigInt::from_signed_bytes_le(&b.bytes);
    Integer { bytes: (x % y).to_signed_bytes_le() }
}

/// `&` of `BigInt` works on two's complement with unbounded sign extension.
#[verifier::external_body]
fn big_and(a: &Integer, b: &Integer) -> (r: Integer)
    ensures
        forall|i: nat| #[trigger] int_bit(r@, i) == (int_bit(a@, i) && int_bit(b@, i)),
{
    let x = num_bigint::BigInt::from_signed_bytes_le(&a.bytes);
    let y = num_bigint::BigInt::from_signed_bytes_le(&b.bytes);
    Integer { bytes: (x & y).to_signed_bytes_le() }
}

/// `|` of `BigInt` works on two's complement with unbounded sign extension.
#[verifier::external_body]
fn big_or(a: &Integer, b: &Integer) -> (r: Integer)
    ensures
        forall|i: nat| #[trigger] int_bit(r@, i) == (int_bit(a@, i) || int_bit(b@, i)),
{
    let x = num_bigint::BigInt::from_signed_bytes_le(&a.bytes);
    let y = num_bigint::BigInt::from_signed_bytes_le(&b.bytes);
    Integer { bytes: (x | y).to_signed_bytes_le() }
}

/// `^` of `BigInt` works on two's complement with unbounded sign extension.
#[verifier::external_body]
fn big_xor(a: &Integer, b: &Integer) -> (r: Integer)
    ensures
        forall|i: nat| #[trigger] int_bit(r@, i) == (int_bit(a@, i) != int_bit(b@, i)),
{
    let x = num_bigint::BigInt::from_signed_bytes_le(&a.bytes);
    let y = num_bigint::BigInt::from_signed_bytes_le(&b.bytes);
    Integer { bytes: (x ^ y).to_signed_bytes_le() }
}

/// `<<` of `BigInt` multiplies by a power of two. The bound keeps the result within memory.
#[verifier::external_body]
fn big_shl(a: &Integer, count: u64) -> (r: Integer)
    requires
        count <= 0x1_0000_0000,
    ensures
        r@ == a@ * pow2(count as nat),
{
    let x = num_bigint::BigInt::from_signed_bytes_le(&a.bytes);
    Integer { bytes: (x << count).to_signed_bytes_le() }
}

/// `>>` of `BigInt` divides by a power of two, rounding towards negative infinity.
#[verifier::external_body]
fn big_shr(a: &Integer, count: u64) -> (r: Integer)
    ensures
        r@ == a@ / (pow2(count as nat) as int),
{
    let x = num_bigint::BigInt::from_signed_bytes_le(&a.bytes);
    Integer { bytes: (x >> count).to_signed_bytes_le() }
}

/// `BigInt::bits` is the width of the magnitude.
#[verifier::external_body]
fn big_bits(a: &Integer) -> (r: u64)
    ensures
        r == width(a@),
{
    num_bigint::BigInt::from_signed_bytes_le(&a.bytes).bits()
}

/// `BigInt::bit` reads one bit of the two's complement.
#[verifier::external_body]
fn big_bit(a: &Integer, i: u64) -> (r: bool)
    ensures
        r == int_bit(a@, i as nat),
{
    num_bigint::BigInt::from_signed_bytes_le(&a.bytes).bit(i)
}

/// `<` of `BigInt` orders by value.
#[verifier::external_body]
fn big_less(a: &Integer, b: &Integer) -> (r: bool)
    ensures
        r == (a@ < b@),
{
    let x = num_bigint::BigInt::from_signed_bytes_le(&a.bytes);
    let y = num_bigint::BigInt::from_signed_bytes_le(&b.bytes);
    x < y
}

/// `BigInt::to_i64` gives the value where it fits.
#[verifier::external_body]
fn big_to_i64(a: &Integer) -> (r: Option<i64>)
    ensures
        r is Some <==> i64::MIN <= a@ <= i64::MAX,
        r matches Some(n) ==> n == a@,
{
    num_bigint::BigInt::from_signed_bytes_le(&a.bytes).to_i64()
}

/// `BigInt::to_u64` gives the value where it fits.
#[verifier::external_body]
fn big_to_u64(a: &Integer) -> (r: Option<u64>)
    ensures
        r is Some <==> 0 <= a@ <= u64::MAX,
        r matches Some(n) ==> n == a@,
{
    num_bigint::BigInt::from_signed_bytes_le(&a.bytes).to_u64()
}

impl Integer {
    /// The integer with the value of `n`.
    pub fn from_i64(n: i64) -> (r: Integer)
        ensures
            r@ == n,
    {
        big_from(n)
    }

    /// Reads a decimal literal; `None` where the text is not one.
    pub fn from_text(s: &str) -> (r: Option<Integer>)
        ensures
            r is Some <==> is_integer_text(s@),
            r matches Some(n) ==> n@ == integer_text_value(s@),
    {
        let mut first: bool = true;
        let mut signed: bool = false;
        let mut digits: bool = false;
        for c in it: s.chars()
            invariant
                it.seq() == s@,
                first == (it.index() == 0),
                signed == (it.index() > 0 && s@[0] == '-'),
                digits == (it.index() > (if signed {
                    1int
                } else {
                    0int
                })),
                forall|j: int|
                    (if signed {
                        1int
                    } else {
                        0int
                    }) <= j < it.index() ==> crate::text::is_digit(#[trigger] s@[j]),
        {
            if first && c == '-' {
                signed = true;
            } else if '0' <= c && c <= '9' {
                digits = true;
            } else {
                assert(!is_integer_text(s@)) by {
                    let k = it.index() as int;
                    if s@[0] == '-' {
                        assert(s@.drop_first()[k - 1] == c);
                    } else {
                        assert(s@[k] == c);
                    }
                }
                return None;
            }
            first = false;
        }
        if !digits {
            return None;
        }
        assert(is_integer_text(s@)) by {
            if s@[0] == '-' {
                assert forall|j: int| 0 <= j < s@.drop_first().len() implies crate::text::is_digit(
                    #[trigger] s@.drop_first()[j],
                ) by {
                    assert(s@.drop_first()[j] == s@[j + 1]);
                }
            }
        }
        Some(big_from_text(s))
    }

    /// The decimal text.
    pub fn to_text(&self) -> (r: String)
        ensures
            r@ == dec_int(self@),
    {
        big_to_text(self)
    }

    /// A copy with the same value.
    pub fn copied(&self) -> (r: Integer)
        ensures
            r@ == self@,
    {
        Integer { bytes: self.bytes.clone() }
    }

    pub fn plus(&self, other: &Integer) -> (r: Integer)
        ensures
            r@ == self@ + other@,
    {
        big_add(self, other)
    }

    pub fn times(&self, other: &Integer) -> (r: Integer)
        ensures
            r@ == self@ * other@,
    {
        big_mul(self, other)
    }

    pub fn power(&self, exp: u32) -> (r: Integer)
        requires
            width(self@) <= 1 || width(self@) * exp <= 0x1_0000_0000,
        ensures
            r@ == pow(self@, exp as nat),
    {
        big_pow(self, exp)
    }

    pub fn remainder(&self, other: &Integer) -> (r: Integer)
        requires
            other@ != 0,
        ensures
            r@ == truncated_rem(self@, other@),
    {
        big_rem(self, other)
    }

    pub fn bit_and(&self, other: &Integer) -> (r: Integer)
        ensures
            forall|i: nat| #[trigger] int_bit(r@, i) == (int_bit(self@, i) && int_bit(other@, i)),
    {
        big_and(self, other)
    }

    pub fn bit_or(&self, other: &Integer) -> (r: Integer)
        ensures
            forall|i: nat| #[trigger] int_bit(r@, i) == (int_bit(self@, i) || int_bit(other@, i)),
    {
        big_or(self, other)
    }

    pub fn bit_xor(&self, other: &Integer) -> (r: Integer)
        ensures
            forall|i: nat| #[trigger] int_bit(r@, i) == (int_bit(self@, i) != int_bit(other@, i)),
    {
        big_xor(self, other)
    }

    pub fn shifted_left(&self, count: u64) -> (r: Integer)
        requires
            count <= 0x1_0000_0000,
        ensures
            r@ == self@ * pow2(count as nat),
    {
        big_shl(self, count)
    }

    pub fn shifted_right(&self, count: u64) -> (r: Integer)
        ensures
            r@ == self@ / (pow2(count as nat) as int),
    {
        big_shr(self, count)
    }

    /// The width of the magnitude in bits.
    pub fn bits(&self) -> (r: u64)
        ensures
            r == width(self@),
    {
        big_bits(self)
    }

    pub fn bit(&self, i: u64) -> (r: bool)
        ensures
            r == int_bit(self@, i as nat),
    {
        big_bit(self, i)
    }

    pub fn less(&self, other: &Integer) -> (r: bool)
        ensures
            r == (self@ < other@),
    {
        big_less(self, other)
    }

    pub fn equals(&self, other: &Integer) -> (r: bool)
        ensures
            r == (self@ == other@),
    {
        !big_less(self, other) && !big_less(other, self)
    }

    pub fn is_negative(&self) -> (r: bool)
        ensures
            r == (self@ < 0),
    {
        big_less(self, &big_from(0))
    }

    pub fn to_i64(&self) -> (r: Option<i64>)
        ensures
            r is Some <==> i64::MIN <= self@ <= i64::MAX,
            r matches Some(n) ==> n == self@,
    {
        big_to_i64(self)
    }

    pub fn to_u64(&self) -> (r: Option<u64>)
        ensures
            r is Some <==> 0 <= self@ <= u64::MAX,
            r matches Some(n) ==> n == self@,
    {
        big_to_u64(self)
    }
}

} // verus!
