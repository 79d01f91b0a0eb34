//! Text as sequences of characters: decimal rendering, searching and cutting.

use vstd::prelude::*;

verus! {

/// `String::push` from the standard library appends one character.
pub assume_specification[ std::string::String::push ](s: &mut std::string::String, c: char)
    ensures
        final(s)@ == old(s)@.push(c),
;

/// `==` on string slices compares their characters, as the standard library documents.
pub assume_specification[ <str as PartialEq<str>>::eq ](a: &str, b: &str) -> (r: bool)
    ensures
        r == (a@ == b@),
;

/// The character for one decimal digit.
pub open spec fn digit_char(d: int) -> char {
    (48 + d) as char
}

/// A natural number in decimal, without leading zeros.
pub open spec fn dec(n: nat) -> Seq<char>
    decreases n,
{
    if n < 10 {
        seq![digit_char(n as int)]
    } else {
        dec(n / 10).push(digit_char((n % 10) as int))
    }
}

/// An integer in decimal, with a minus sign where it is negative.
pub open spec fn dec_int(n: int) -> Seq<char> {
    if n < 0 {
        seq!['-'] + dec((-n) as nat)
    } else {
        dec(n as nat)
    }
}

/// Whether a character is an ASCII decimal digit.
pub open spec fn is_digit(c: char) -> bool {
    '0' <= c <= '9'
}

/// The value of a run of decimal digits.
pub open spec fn digits_value(s: Seq<char>) -> int
    decreases s.len(),
{
    if s.len() == 0 {
        0
    } else {
        10 * digits_value(s.drop_last()) + (s.last() as int - 48)
    }
}

/// Every character of `s` is a decimal digit, and there is at least one.
pub open spec fn all_digits(s: Seq<char>) -> bool {
    s.len() > 0 && forall|i: int| 0 <= i < s.len() ==> is_digit(#[trigger] s[i])
}

/// What [`dec`] writes is digits only, and reads back as the number.
pub proof fn dec_reads_back(n: nat)
    ensures
        all_digits(dec(n)),
        digits_value(dec(n)) == n,
    decreases n,
{
    if n < 10 {
        let s = dec(n);
        assert(s.drop_last() =~= Seq::<char>::empty());
        assert(digits_value(s.drop_last()) == 0);
    } else {
        dec_reads_back(n / 10);
        let s = dec(n);
        assert(s.drop_last() =~= dec(n / 10));
        assert(is_digit(s.last()));
    }
}

/// Two numbers that [`dec`] writes alike are equal.
pub proof fn dec_injective(a: nat, b: nat)
    requires
        dec(a) == dec(b),
    ensures
        a == b,
{
    dec_reads_back(a);
    dec_reads_back(b);
}

/// The digit character of a number below ten.
fn digit(d: u8) -> (c: char)
    requires
        d < 10,
    ensures
        c == digit_char(d as int),
{
    (48u8 + d) as char
}

/// Appends `n` in decimal.
pub fn push_decimal(s: &mut String, n: u64)
    ensures
        final(s)@ == old(s)@ + dec(n as nat),
    decreases n,
{
    if n >= 10 {
        push_decimal(s, n / 10);
    }
    let ghost before = s@;
    s.push(digit((n % 10) as u8));
    assert(n >= 10 ==> s@ =~= old(s)@ + dec((n / 10) as nat).push(digit_char((n % 10) as int)));
}

/// `n` in decimal.
pub fn decimal(n: u64) -> (s: String)
    ensures
        s@ == dec(n as nat),
{
    let mut s = String::new();
    push_decimal(&mut s, n);
    assert(s@ =~= dec(n as nat));
    s
}

/// Appends `n` in decimal, with its sign.
pub fn push_signed(s: &mut String, n: i64)
    ensures
        final(s)@ == old(s)@ + dec_int(n as int),
{
    if n < 0 {
        s.push('-');
        let m: u64 = if n == i64::MIN {
            9_223_372_036_854_775_808
        } else {
            (-n) as u64
        };
        push_decimal(s, m);
        assert(s@ =~= old(s)@ + dec_int(n as int));
    } else {
        push_decimal(s, n as u64);
    }
}

/// `n` in decimal, with its sign.
pub fn signed_decimal(n: i64) -> (s: String)
    ensures
        s@ == dec_int(n as int),
{
    let mut s = String::new();
    push_signed(&mut s, n);
    assert(s@ =~= dec_int(n as int));
    s
}

/// The characters of a text, as a vector.
pub fn chars_of(s: &str) -> (v: Vec<char>)
    ensures
        v@ == s@,
{
    let mut v: Vec<char> = Vec::new();
    for c in it: s.chars()
        invariant
            it.seq() == s@,
            v@ =~= s@.take(it.index() as int),
    {
        v.push(c);
    }
    assert(v@ =~= s@);
    v
}

/// The text made of `v[from..to]`.
pub fn text_of(v: &Vec<char>, from: usize, to: usize) -> (s: String)
    requires
        from <= to <= v@.len(),
    ensures
        s@ == v@.subrange(from as int, to as int),
{
    let mut s = String::new();
    for i in from..to
        invariant
            from <= to <= v@.len(),
            s@ =~= v@.subrange(from as int, i as int),
    {
        s.push(v[i]);
    }
    s
}

/// How two things that can be ordered stand to each other.
#[derive(Debug, Clone, Copy, PartialEq, Eq, Structural)]
pub enum Order {
    Less,
    Equal,
    Greater,
}

/// The order of two integers.
pub open spec fn order_int(a: int, b: int) -> Order {
    if a < b {
        Order::Less
    } else if a == b {
        Order::Equal
    } else {
        Order::Greater
    }
}

/// The lexicographic order of two texts from position `i` on.
pub open spec fn order_text_from(a: Seq<char>, b: Seq<char>, i: int) -> Order
    decreases a.len() - i,
{
    if i >= a.len() || i >= b.len() {
        order_int(a.len() as int, b.len() as int)
    } else if a[i] == b[i] {
        order_text_from(a, b, i + 1)
    } else {
        order_int(a[i] as int, b[i] as int)
    }
}

/// The lexicographic order of two texts, by code point.
pub open spec fn order_text(a: Seq<char>, b: Seq<char>) -> Order {
    order_text_from(a, b, 0)
}

/// Compares two texts lexicographically by code point.
pub fn compare_text(a: &str, b: &str) -> (r: Order)
    ensures
        r == order_text(a@, b@),
{
    let x = chars_of(a);
    let y = chars_of(b);
    let mut i: usize = 0;
    while i < x.len() && i < y.len()
        invariant
            x@ == a@,
            y@ == b@,
            i <= x@.len(),
            i <= y@.len(),
            order_text(a@, b@) == order_text_from(a@, b@, i as int),
        decreases x@.len() - i,
    {
        if x[i] < y[i] {
            return Order::Less;
        }
        if y[i] < x[i] {
            return Order::Greater;
        }
        i += 1;
    }
    if x.len() < y.len() {
        Order::Less
    } else if x.len() == y.len() {
        Order::Equal
    } else {
        Order::Greater
    }
}

/// Whether a character is white space, as Unicode lists them.
pub open spec fn is_space(c: char) -> bool {
    let n = c as int;
    ||| 9 <= n <= 13
    ||| n == 32
    ||| n == 0x85
    ||| n == 0xa0
    ||| n == 0x1680
    ||| 0x2000 <= n <= 0x200a
    ||| n == 0x2028
    ||| n == 0x2029
    ||| n == 0x202f
    ||| n == 0x205f
    ||| n == 0x3000
}

pub fn space(c: char) -> (r: bool)
    ensures
        r == is_space(c),
{
    let n: u32 = c as u32;
    (9 <= n && n <= 13) || n == 32 || n == 0x85 || n == 0xa0 || n == 0x1680 || (0x2000 <= n && n
        <= 0x200a) || n == 0x2028 || n == 0x2029 || n == 0x202f || n == 0x205f || n == 0x3000
}

/// A text without the white space in front.
pub open spec fn trim_front(s: Seq<char>) -> Seq<char>
    decreases s.len(),
{
    if s.len() > 0 && is_space(s[0]) {
        trim_front(s.drop_first())
    } else {
        s
    }
}

/// A text without the white space behind.
pub open spec fn trim_back(s: Seq<char>) -> Seq<char>
    decreases s.len(),
{
    if s.len() > 0 && is_space(s.last()) {
        trim_back(s.drop_last())
    } else {
        s
    }
}

/// A text without the white space around it.
pub open spec fn trim_text(s: Seq<char>) -> Seq<char> {
    trim_back(trim_front(s))
}

/// A text without the white space around it.
pub fn trim(s: &str) -> (r: String)
    ensures
        r@ == trim_text(s@),
{
    let v = chars_of(s);
    let n: usize = v.len();
    let mut i: usize = 0;
    assert(v@.subrange(0, n as int) =~= s@);
    while i < n && space(v[i])
        invariant
            n == v@.len(),
            v@ == s@,
            i <= n,
            trim_front(s@) == trim_front(s@.subrange(i as int, n as int)),
        decreases n - i,
    {
        assert(s@.subrange(i as int, n as int).drop_first() =~= s@.subrange(i + 1, n as int));
        i += 1;
    }
    let ghost front = s@.subrange(i as int, n as int);
    assert(trim_front(s@) == front);
    let mut j: usize = n;
    while i < j && space(v[j - 1])
        invariant
            n == v@.len(),
            v@ == s@,
            i <= j <= n,
            trim_back(front) == trim_back(s@.subrange(i as int, j as int)),
        decreases j,
    {
        assert(s@.subrange(i as int, j as int).drop_last() =~= s@.subrange(i as int, j - 1));
        j -= 1;
    }
    text_of(&v, i, j)
}

/// The words of a text from position `i` on, where `start` is where the current word began, or
/// `None` between words.
pub open spec fn words_from(s: Seq<char>, i: int, start: Option<int>) -> Seq<Seq<char>>
    decreases s.len() - i,
{
    if i >= s.len() {
        match start {
            Some(b) => seq![s.subrange(b, s.len() as int)],
            None => Seq::empty(),
        }
    } else if is_space(s[i]) {
        match start {
            Some(b) => seq![s.subrange(b, i)] + words_from(s, i + 1, None),
            None => words_from(s, i + 1, None),
        }
    } else {
        words_from(
            s,
            i + 1,
            match start {
                Some(b) => Some(b),
                None => Some(i),
            },
        )
    }
}

/// The words of a text: its runs of characters that are not white space.
pub open spec fn words(s: Seq<char>) -> Seq<Seq<char>> {
    words_from(s, 0, None)
}

/// The contents of a list of texts.
pub open spec fn texts(v: Seq<String>) -> Seq<Seq<char>> {
    Seq::new(v.len(), |i: int| v[i]@)
}

/// The words of a text.
pub fn split_words(s: &str) -> (r: Vec<String>)
    ensures
        texts(r@) == words(s@),
{
    let v = chars_of(s);
    let n: usize = v.len();
    let mut out: Vec<String> = Vec::new();
    let mut start: Option<usize> = None;
    let mut i: usize = 0;
    assert(texts(out@) + words_from(s@, 0, None) =~= words(s@));
    while i < n
        invariant
            n == v@.len(),
            v@ == s@,
            i <= n,
            start matches Some(b) ==> b <= i,
            texts(out@) + words_from(
                s@,
                i as int,
                match start {
                    Some(b) => Some(b as int),
                    None => None,
                },
            ) == words(s@),
        decreases n - i,
    {
        let ghost was = texts(out@);
        if space(v[i]) {
            if let Some(b) = start {
                out.push(text_of(&v, b, i));
                assert(texts(out@) =~= was.push(s@.subrange(b as int, i as int)));
                assert(was + (seq![s@.subrange(b as int, i as int)] + words_from(
                    s@,
                    i + 1,
                    None,
                )) =~= texts(out@) + words_from(s@, i + 1, None));
            }
            start = None;
        } else if start.is_none() {
            start = Some(i);
        }
        i += 1;
    }
    let ghost was = texts(out@);
    if let Some(b) = start {
        out.push(text_of(&v, b, n));
        assert(texts(out@) =~= was + seq![s@.subrange(b as int, n as int)]);
    }
    assert(texts(out@) =~= words(s@));
    out
}

/// The number a text denotes when read as an unsigned machine word of 64 bits: digits after an
/// optional plus sign.
pub open spec fn unsigned_text(s: Seq<char>) -> Option<int> {
    let d = if s.len() > 0 && s[0] == '+' {
        s.drop_first()
    } else {
        s
    };
    if all_digits(d) && digits_value(d) <= u64::MAX {
        Some(digits_value(d))
    } else {
        None
    }
}

/// The number a text denotes when read as a signed machine word of 64 bits: digits after an
/// optional sign.
pub open spec fn signed_text(s: Seq<char>) -> Option<int> {
    let d = if s.len() > 0 && (s[0] == '+' || s[0] == '-') {
        s.drop_first()
    } else {
        s
    };
    let v = if s.len() > 0 && s[0] == '-' {
        -digits_value(d)
    } else {
        digits_value(d)
    };
    if all_digits(d) && i64::MIN <= v <= i64::MAX {
        Some(v)
    } else {
        None
    }
}

/// More digits never make a number smaller.
pub proof fn digits_grow(s: Seq<char>, k: int)
    requires
        0 <= k <= s.len(),
        forall|i: int| 0 <= i < s.len() ==> is_digit(#[trigger] s[i]),
    ensures
        0 <= digits_value(s.take(k)) <= digits_value(s),
    decreases s.len(),
{
    if k == s.len() {
        assert(s.take(k) =~= s);
        if k > 0 {
            digits_grow(s.drop_last(), k - 1);
        }
    } else {
        assert(s.drop_last().take(k) =~= s.take(k));
        digits_grow(s.drop_last(), k);
    }
}

/// Reads `v[from..]` as digits; `None` where a character is not one, where there is none, or
/// where the number does not fit.
fn read_digits(v: &Vec<char>, from: usize) -> (r: Option<u64>)
    requires
        from <= v@.len(),
    ensures
        r is Some <==> all_digits(v@.skip(from as int)) && digits_value(v@.skip(from as int))
            <= u64::MAX,
        r matches Some(n) ==> n == digits_value(v@.skip(from as int)),
{
    let ghost d = v@.skip(from as int);
    let mut n: u64 = 0;
    let mut i: usize = from;
    assert(d.take(0) =~= Seq::<char>::empty());
    while i < v.len()
        invariant
            from <= i <= v@.len(),
            d == v@.skip(from as int),
            forall|j: int| 0 <= j < i - from ==> is_digit(#[trigger] d[j]),
            n == digits_value(d.take(i - from)),
        decreases v@.len() - i,
    {
        let c = v[i];
        assert(d[i - from] == c);
        if !('0' <= c && c <= '9') {
            return None;
        }
        let k: u64 = (c as u32 - 48) as u64;
        assert(d.take(i - from + 1).drop_last() =~= d.take(i - from));
        assert(digits_value(d.take(i - from + 1)) == 10 * n + k);
        let next: u128 = 10 * (n as u128) + k as u128;
        if next > u64::MAX as u128 {
            proof {
                if all_digits(d) {
                    digits_grow(d, i - from + 1);
                }
            }
            return None;
        }
        n = next as u64;
        i += 1;
    }
    assert(d.take(v@.len() - from) =~= d);
    if from == v.len() {
        return None;
    }
    Some(n)
}

/// Reads an unsigned number.
pub fn parse_unsigned(s: &str) -> (r: Option<u64>)
    ensures
        r is Some <==> unsigned_text(s@) is Some,
        r matches Some(n) ==> Some(n as int) == unsigned_text(s@),
{
    let v = chars_of(s);
    if v.len() > 0 && v[0] == '+' {
        assert(v@.skip(1) =~= s@.drop_first());
        read_digits(&v, 1)
    } else {
        assert(v@.skip(0) =~= s@);
        read_digits(&v, 0)
    }
}

/// Reads a signed number.
pub fn parse_signed(s: &str) -> (r: Option<i64>)
    ensures
        r is Some <==> signed_text(s@) is Some,
        r matches Some(n) ==> Some(n as int) == signed_text(s@),
{
    let v = chars_of(s);
    let negative: bool = v.len() > 0 && v[0] == '-';
    let from: usize = if v.len() > 0 && (v[0] == '+' || v[0] == '-') {
        1
    } else {
        0
    };
    proof {
        assert(from == 1 ==> v@.skip(1) =~= s@.drop_first());
        assert(from == 0 ==> v@.skip(0) =~= s@);
        let d = v@.skip(from as int);
        if all_digits(d) {
            digits_grow(d, 0);
        }
    }
    match read_digits(&v, from) {
        None => None,
        Some(n) => if negative {
            if n <= 9_223_372_036_854_775_808 {
                Some((-(n as i128)) as i64)
            } else {
                None
            }
        } else if n <= 9_223_372_036_854_775_807 {
            Some(n as i64)
        } else {
            None
        },
    }
}

/// Words with a blank between two.
pub open spec fn spaced(ws: Seq<Seq<char>>) -> Seq<char>
    decreases ws.len(),
{
    if ws.len() == 0 {
        Seq::empty()
    } else if ws.len() == 1 {
        ws[0]
    } else {
        ws[0] + (seq![' '] + spaced(ws.drop_first()))
    }
}

/// Whether a text is a word: there is something of it, and no white space.
pub open spec fn is_word(w: Seq<char>) -> bool {
    w.len() > 0 && forall|i: int| 0 <= i < w.len() ==> !is_space(#[trigger] w[i])
}

/// The words of a text do not depend on what stands before it.
proof fn words_shift(p: Seq<char>, t: Seq<char>, i: int, start: Option<int>)
    requires
        0 <= i <= t.len(),
        start matches Some(b) ==> 0 <= b <= i,
    ensures
        words_from(
            p + t,
            p.len() + i,
            match start {
                Some(b) => Some(p.len() + b),
                None => None,
            },
        ) == words_from(t, i, start),
    decreases t.len() - i,
{
    let s = p + t;
    if i < t.len() {
        assert(s[p.len() + i] == t[i]);
        if is_space(t[i]) {
            words_shift(p, t, i + 1, None);
            if let Some(b) = start {
                assert(s.subrange(p.len() + b, p.len() + i) =~= t.subrange(b, i));
            }
        } else {
            words_shift(
                p,
                t,
                i + 1,
                match start {
                    Some(b) => Some(b),
                    None => Some(i),
                },
            );
        }
    } else if let Some(b) = start {
        assert(s.subrange(p.len() + b, s.len() as int) =~= t.subrange(b, t.len() as int));
    }
}

/// A word is read up to its end.
proof fn word_ends(s: Seq<char>, i: int, b: int, e: int)
    requires
        0 <= b <= i <= e <= s.len(),
        b < e,
        forall|j: int| i <= j < e ==> !is_space(#[trigger] s[j]),
        e < s.len() ==> is_space(s[e]),
    ensures
        words_from(s, i, Some(b)) == if e < s.len() {
            seq![s.subrange(b, e)] + words_from(s, e + 1, None)
        } else {
            seq![s.subrange(b, e)]
        },
    decreases e - i,
{
    if i < e {
        word_ends(s, i + 1, b, e);
    }
}

/// The words of a text that is made of words are those words.
pub proof fn words_read_back(ws: Seq<Seq<char>>)
    requires
        forall|i: int| 0 <= i < ws.len() ==> is_word(#[trigger] ws[i]),
    ensures
        words(spaced(ws)) == ws,
    decreases ws.len(),
{
    let s = spaced(ws);
    if ws.len() > 0 {
        let w = ws[0];
        let e = w.len() as int;
        assert(is_word(w));
        assert forall|j: int| 0 <= j < e implies !is_space(#[trigger] s[j]) by {
            assert(s[j] == w[j]);
        }
        word_ends(s, 1, 0, e);
        assert(s.subrange(0, e) =~= w);
        if ws.len() > 1 {
            let rest = ws.drop_first();
            assert forall|i: int| 0 <= i < rest.len() implies is_word(#[trigger] rest[i]) by {
                assert(is_word(ws[i + 1]));
            }
            words_read_back(rest);
            let front = w + seq![' '];
            assert(s =~= front + spaced(rest));
            words_shift(front, spaced(rest), 0, None);
            assert(s[e] == ' ');
            assert(seq![w] + rest =~= ws);
        } else {
            assert(seq![w] =~= ws);
        }
    } else {
        assert(words(s) =~= ws);
    }
}

/// White space around a text is taken off it, and nothing else.
pub proof fn trimming_takes_white_space_off(before: Seq<char>, s: Seq<char>, after: Seq<char>)
    requires
        forall|i: int| 0 <= i < before.len() ==> is_space(#[trigger] before[i]),
        forall|i: int| 0 <= i < after.len() ==> is_space(#[trigger] after[i]),
        s.len() > 0,
        !is_space(s[0]),
        !is_space(s.last()),
    ensures
        trim_text(before + (s + after)) == s,
    decreases before.len() + after.len(),
{
    let t = before + (s + after);
    if before.len() > 0 {
        assert(t[0] == before[0]);
        assert(is_space(before[0]));
        let fewer = before.drop_first();
        assert forall|i: int| 0 <= i < fewer.len() implies is_space(#[trigger] fewer[i]) by {
            assert(is_space(before[i + 1]));
        }
        assert(t.drop_first() =~= fewer + (s + after));
        trimming_takes_white_space_off(fewer, s, after);
    } else {
        assert(t =~= s + after);
        assert(t[0] == s[0]);
        back_is_trimmed(s, after);
    }
}

proof fn back_is_trimmed(s: Seq<char>, after: Seq<char>)
    requires
        forall|i: int| 0 <= i < after.len() ==> is_space(#[trigger] after[i]),
        s.len() > 0,
        !is_space(s.last()),
    ensures
        trim_back(s + after) == s,
    decreases after.len(),
{
    let t = s + after;
    if after.len() > 0 {
        assert(t.last() == after[after.len() - 1]);
        let fewer = after.drop_last();
        assert forall|i: int| 0 <= i < fewer.len() implies is_space(#[trigger] fewer[i]) by {
            assert(is_space(after[i]));
        }
        assert(t.drop_last() =~= s + fewer);
        back_is_trimmed(s, fewer);
    } else {
        assert(t =~= s);
    }
}

/// A number in decimal reads as itself, also with a plus sign in front.
pub proof fn unsigned_numbers_read_back(n: nat)
    requires
        n <= u64::MAX,
    ensures
        unsigned_text(dec(n)) == Some(n as int),
        unsigned_text(seq!['+'] + dec(n)) == Some(n as int),
        is_word(dec(n)),
{
    dec_reads_back(n);
    assert(is_digit(dec(n)[0]));
    assert((seq!['+'] + dec(n)).drop_first() =~= dec(n));
    assert forall|i: int| 0 <= i < dec(n).len() implies !is_space(#[trigger] dec(n)[i]) by {
        assert(is_digit(dec(n)[i]));
    }
}

/// A blank in front of a text changes nothing of its words.
pub proof fn blank_in_front(t: Seq<char>)
    ensures
        words(seq![' '] + t) == words(t),
{
    let s = seq![' '] + t;
    assert(s[0] == ' ');
    words_shift(seq![' '], t, 0, None);
}

} // verus!
