//! How a computed double is written: the layout that CPython's `repr` uses.
//!
//! The shortest digits that read back come from whoever computed the double; what is decided
//! here is when the exponent form is used and how its exponent is written.

use crate::text::{chars_of, text_of};
use vstd::prelude::*;

verus! {

/// The bit pattern of the double nearest to one ten-thousandth.
pub const TEN_THOUSANDTH: u64 = 0x3F1A_36E2_EB1C_432D;

/// Whether a finite double is written in exponent form for being small: it is not zero and its
/// magnitude is below one ten-thousandth. Patterns without the sign bit are ordered as the
/// doubles are.
pub open spec fn small(bits: u64) -> bool {
    0 < bits % 0x8000_0000_0000_0000 < TEN_THOUSANDTH
}

pub fn wants_exponent(bits: u64) -> (r: bool)
    ensures
        r == small(bits),
{
    let m: u64 = bits % 0x8000_0000_0000_0000;
    0 < m && m < TEN_THOUSANDTH
}

/// Where the exponent mark stands, or the length.
pub open spec fn mark(s: Seq<char>, i: int) -> int
    decreases s.len() - i,
{
    if i >= s.len() || s[i] == 'e' {
        i
    } else {
        mark(s, i + 1)
    }
}

/// The digits of an exponent: what follows any plus signs in front.
pub open spec fn without_plus(s: Seq<char>) -> Seq<char>
    decreases s.len(),
{
    if s.len() > 0 && s[0] == '+' {
        without_plus(s.drop_first())
    } else {
        s
    }
}

/// At least two digits, filled with zeros in front.
pub open spec fn two_digits(s: Seq<char>) -> Seq<char> {
    if s.len() == 0 {
        seq!['0', '0']
    } else if s.len() == 1 {
        seq!['0'] + s
    } else {
        s
    }
}

/// A number's text with its exponent written with a sign and at least two digits. A text
/// without an exponent stays as it is.
pub open spec fn with_padded_exponent(s: Seq<char>) -> Seq<char> {
    let k = mark(s, 0);
    if k >= s.len() {
        s
    } else {
        let e = s.subrange(k + 1, s.len() as int);
        if e.len() > 0 && e[0] == '-' {
            s.subrange(0, k) + seq!['e', '-'] + two_digits(e.drop_first())
        } else {
            s.subrange(0, k) + seq!['e', '+'] + two_digits(without_plus(e))
        }
    }
}

/// Writes the exponent of a number's text with a sign and at least two digits.
pub fn pad_exponent(s: &str) -> (r: String)
    ensures
        r@ == with_padded_exponent(s@),
{
    let chars = chars_of(s);
    let n: usize = chars.len();
    let mut k: usize = 0;
    while k < n && chars[k] != 'e'
        invariant
            n == chars@.len(),
            chars@ == s@,
            k <= n,
            mark(s@, 0) == mark(s@, k as int),
        decreases n - k,
    {
        k += 1;
    }
    if k >= n {
        return s.to_owned();
    }
    let ghost e = s@.subrange(k + 1, n as int);
    let mut out = text_of(&chars, 0, k);
    out.push('e');
    let mut i: usize = k + 1;
    if i < n && chars[i] == '-' {
        assert(e[0] == '-');
        out.push('-');
        i += 1;
        assert(s@.subrange(i as int, n as int) =~= e.drop_first());
        assert(out@ =~= s@.subrange(0, k as int) + seq!['e', '-']);
    } else {
        assert(e.len() > 0 ==> e[0] == chars@[i as int]);
        out.push('+');
        while i < n && chars[i] == '+'
            invariant
                n == chars@.len(),
                chars@ == s@,
                k < i <= n,
                without_plus(e) == without_plus(s@.subrange(i as int, n as int)),
            decreases n - i,
        {
            assert(s@.subrange(i as int, n as int).drop_first() =~= s@.subrange(i + 1, n as int));
            i += 1;
        }
        assert(without_plus(e) == s@.subrange(i as int, n as int));
        assert(out@ =~= s@.subrange(0, k as int) + seq!['e', '+']);
    }
    let ghost head = out@;
    let ghost digits = s@.subrange(i as int, n as int);
    if n - i == 0 {
        out.push('0');
    }
    if n - i <= 1 {
        out.push('0');
    }
    let rest = text_of(&chars, i, n);
    out.append(rest.as_str());
    assert(out@ =~= head + two_digits(digits));
    out
}

/// An exponent is written with its sign and at least two digits, and nothing else of a number
/// changes; a number without one stays as it is.
pub proof fn an_exponent_has_a_sign_and_two_digits(m: Seq<char>, digits: Seq<char>)
    requires
        forall|i: int| 0 <= i < m.len() ==> (#[trigger] m[i]) != 'e',
        digits.len() > 0,
        digits[0] != '-',
        digits[0] != '+',
    ensures
        with_padded_exponent(m) == m,
        digits.len() == 1 ==> with_padded_exponent(m + (seq!['e'] + digits)) == m + (seq![
            'e',
            '+',
            '0',
        ] + digits),
        digits.len() == 1 ==> with_padded_exponent(m + (seq!['e', '-'] + digits)) == m + (seq![
            'e',
            '-',
            '0',
        ] + digits),
        digits.len() > 1 ==> with_padded_exponent(m + (seq!['e'] + digits)) == m + (seq!['e', '+']
            + digits),
        digits.len() > 1 ==> with_padded_exponent(m + (seq!['e', '-'] + digits)) == m + (seq![
            'e',
            '-',
        ] + digits),
{
    let n = m.len() as int;
    let s = m + (seq!['e'] + digits);
    let t = m + (seq!['e', '-'] + digits);
    mark_at(m, 0, n);
    mark_at(s, 0, n);
    mark_at(t, 0, n);
    assert(s.subrange(0, n) =~= m);
    assert(t.subrange(0, n) =~= m);
    let e = s.subrange(n + 1, s.len() as int);
    let f = t.subrange(n + 1, t.len() as int);
    assert(e =~= digits);
    assert(f =~= seq!['-'] + digits);
    assert(f.drop_first() =~= digits);
    assert(with_padded_exponent(s) == m + seq!['e', '+'] + two_digits(digits));
    assert(with_padded_exponent(t) == m + seq!['e', '-'] + two_digits(digits));
    if digits.len() == 1 {
        assert(m + seq!['e', '+'] + (seq!['0'] + digits) =~= m + (seq!['e', '+', '0'] + digits));
        assert(m + seq!['e', '-'] + (seq!['0'] + digits) =~= m + (seq!['e', '-', '0'] + digits));
    } else {
        assert(m + seq!['e', '+'] + digits =~= m + (seq!['e', '+'] + digits));
        assert(m + seq!['e', '-'] + digits =~= m + (seq!['e', '-'] + digits));
    }
}

proof fn mark_at(s: Seq<char>, i: int, k: int)
    requires
        0 <= i <= k <= s.len(),
        k < s.len() ==> s[k] == 'e',
        forall|j: int| i <= j < k ==> (#[trigger] s[j]) != 'e',
    ensures
        mark(s, i) == k,
    decreases k - i,
{
    if i < k {
        mark_at(s, i + 1, k);
    }
}

} // verus!
