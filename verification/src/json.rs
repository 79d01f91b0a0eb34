//! Compact JSON text.

use crate::datastore::value::{dict_model, list_model, Datum, Value};
use crate::text::{dec, dec_int, dec_reads_back, is_digit};
use vstd::prelude::*;

verus! {

/// The lower-case hexadecimal digit of a number below sixteen.
pub open spec fn hex_char(d: int) -> char {
    if d < 10 {
        (48 + d) as char
    } else {
        (87 + d) as char
    }
}

/// How a character stands inside a JSON string.
pub open spec fn escaped_char(c: char) -> Seq<char> {
    if c == '"' {
        seq!['\\', '"']
    } else if c == '\\' {
        seq!['\\', '\\']
    } else if c == '\u{8}' {
        seq!['\\', 'b']
    } else if c == '\u{c}' {
        seq!['\\', 'f']
    } else if c == '\n' {
        seq!['\\', 'n']
    } else if c == '\r' {
        seq!['\\', 'r']
    } else if c == '\t' {
        seq!['\\', 't']
    } else if (c as int) < 32 {
        seq!['\\', 'u', '0', '0', hex_char(c as int / 16), hex_char(c as int % 16)]
    } else {
        seq![c]
    }
}

/// The characters of `s`, each as it stands inside a JSON string.
pub open spec fn escaped(s: Seq<char>) -> Seq<char>
    decreases s.len(),
{
    if s.len() == 0 {
        Seq::empty()
    } else {
        escaped(s.drop_last()) + escaped_char(s.last())
    }
}

/// A JSON string.
pub open spec fn quoted(s: Seq<char>) -> Seq<char> {
    seq!['"'] + escaped(s) + seq!['"']
}

/// The items from the first to before position `n`, separated by commas.
pub open spec fn items_text(items: Seq<Datum>, n: nat) -> Seq<char>
    decreases items, n,
{
    if n == 0 || n > items.len() {
        Seq::empty()
    } else if n == 1 {
        json_text(items[0])
    } else {
        items_text(items, (n - 1) as nat) + seq![','] + json_text(items[n - 1])
    }
}

/// The members from the first to before position `n`, separated by commas.
pub open spec fn members_text(members: Seq<(Seq<char>, Datum)>, n: nat) -> Seq<char>
    decreases members, n,
{
    if n == 0 || n > members.len() {
        Seq::empty()
    } else {
        let m = members[n - 1];
        let this = quoted(m.0) + seq![':'] + json_text(m.1);
        if n == 1 {
            this
        } else {
            members_text(members, (n - 1) as nat) + seq![','] + this
        }
    }
}

/// The compact JSON text of a value.
pub open spec fn json_text(d: Datum) -> Seq<char>
    decreases d, 0nat,
{
    match d {
        Datum::Null => "null"@,
        Datum::Bool(b) => if b {
            "true"@
        } else {
            "false"@
        },
        Datum::Number(text, _) => text,
        Datum::Text(s) => quoted(s),
        Datum::List(items) => seq!['['] + items_text(items, items.len()) + seq![']'],
        Datum::Dict(members) => seq!['{'] + members_text(members, members.len()) + seq!['}'],
    }
}

/// The lower-case hexadecimal digit of a number below sixteen.
pub fn hex_digit(d: u8) -> (c: char)
    requires
        d < 16,
    ensures
        c == hex_char(d as int),
{
    if d < 10 {
        (48 + d) as char
    } else {
        (87 + d) as char
    }
}

/// Appends one character as it stands inside a JSON string.
fn push_escaped_char(out: &mut String, c: char)
    ensures
        final(out)@ == old(out)@ + escaped_char(c),
{
    if c == '"' {
        out.push('\\');
        out.push('"');
    } else if c == '\\' {
        out.push('\\');
        out.push('\\');
    } else if c == '\u{8}' {
        out.push('\\');
        out.push('b');
    } else if c == '\u{c}' {
        out.push('\\');
        out.push('f');
    } else if c == '\n' {
        out.push('\\');
        out.push('n');
    } else if c == '\r' {
        out.push('\\');
        out.push('r');
    } else if c == '\t' {
        out.push('\\');
        out.push('t');
    } else if (c as u32) < 32 {
        let code: u8 = c as u8;
        out.push('\\');
        out.push('u');
        out.push('0');
        out.push('0');
        out.push(hex_digit(code / 16));
        out.push(hex_digit(code % 16));
    } else {
        out.push(c);
    }
    assert(out@ =~= old(out)@ + escaped_char(c));
}

/// Appends a text as it stands inside a JSON string.
pub fn push_escaped(out: &mut String, s: &str)
    ensures
        final(out)@ == old(out)@ + escaped(s@),
{
    assert(out@ =~= old(out)@ + escaped(s@.take(0)));
    for c in it: s.chars()
        invariant
            it.seq() == s@,
            out@ == old(out)@ + escaped(s@.take(it.index() as int)),
    {
        let ghost k = it.index() as int;
        assert(s@.take(k + 1).drop_last() =~= s@.take(k));
        push_escaped_char(out, c);
        assert(out@ =~= old(out)@ + escaped(s@.take(k + 1)));
    }
    assert(s@.take(s@.len() as int) =~= s@);
}

/// Appends a JSON string.
pub fn push_quoted(out: &mut String, s: &str)
    ensures
        final(out)@ == old(out)@ + quoted(s@),
{
    out.push('"');
    push_escaped(out, s);
    out.push('"');
    assert(out@ =~= old(out)@ + quoted(s@));
}

/// Appends the compact JSON text of a value.
pub fn push_json(out: &mut String, v: &Value)
    ensures
        final(out)@ == old(out)@ + json_text(v@),
    decreases v,
{
    match v {
        Value::Null => out.append("null"),
        Value::Bool(b) => if *b {
            out.append("true");
        } else {
            out.append("false");
        },
        Value::Number(n) => out.append(n.text.as_str()),
        Value::String(s) => push_quoted(out, s.as_str()),
        Value::Array(items) => {
            out.push('[');
            let ghost start = out@;
            assert(start =~= start + items_text(list_model(items@), 0));
            assert(decreases_to!(*v => v->Array_0));
            for i in 0..items.len()
                invariant
                    decreases_to!(*v => *items),
                    out@ == start + items_text(list_model(items@), i as nat),
            {
                assert(decreases_to!(*items => items[i as int]));
                assert(list_model(items@)[i as int] == items@[i as int]@);
                if i > 0 {
                    out.push(',');
                }
                push_json(out, &items[i]);
                assert(out@ =~= start + items_text(list_model(items@), (i + 1) as nat));
            }
            out.push(']');
            assert(v@ == Datum::List(list_model(items@)));
            assert(out@ =~= old(out)@ + json_text(v@));
        },
        Value::Object(members) => {
            out.push('{');
            let ghost start = out@;
            assert(start =~= start + members_text(dict_model(members@), 0));
            assert(decreases_to!(*v => v->Object_0));
            for i in 0..members.len()
                invariant
                    decreases_to!(*v => *members),
                    out@ == start + members_text(dict_model(members@), i as nat),
            {
                assert(decreases_to!(*members => members[i as int]));
                assert(decreases_to!(members[i as int] => members[i as int].1));
                assert(dict_model(members@)[i as int] == (
                    members@[i as int].0@,
                    members@[i as int].1@,
                ));
                if i > 0 {
                    out.push(',');
                }
                push_quoted(out, members[i].0.as_str());
                out.push(':');
                push_json(out, &members[i].1);
                assert(out@ =~= start + members_text(dict_model(members@), (i + 1) as nat));
            }
            out.push('}');
            assert(v@ == Datum::Dict(dict_model(members@)));
            assert(out@ =~= old(out)@ + json_text(v@));
        },
    }
}

/// The compact JSON text of a value.
pub fn encode(v: &Value) -> (r: String)
    ensures
        r@ == json_text(v@),
{
    let mut out = String::new();
    push_json(&mut out, v);
    assert(out@ =~= json_text(v@));
    out
}

/// The number of a lower-case hexadecimal digit.
pub open spec fn hex_value(c: char) -> int {
    if (c as int) < 58 {
        c as int - 48
    } else {
        c as int - 87
    }
}

/// The character that a text inside quotes spells first, and how many characters spell it; none
/// where what stands there spells nothing. A quote, a backslash and a control character do not
/// stand for themselves.
pub open spec fn spelled(t: Seq<char>) -> Option<(char, int)> {
    if t.len() == 0 {
        None
    } else if t[0] == '\\' {
        if t.len() < 2 {
            None
        } else if t[1] == '"' || t[1] == '\\' {
            Some((t[1], 2int))
        } else if t[1] == 'b' {
            Some(('\u{8}', 2int))
        } else if t[1] == 'f' {
            Some(('\u{c}', 2int))
        } else if t[1] == 'n' {
            Some(('\n', 2int))
        } else if t[1] == 'r' {
            Some(('\r', 2int))
        } else if t[1] == 't' {
            Some(('\t', 2int))
        } else if t[1] == 'u' && t.len() >= 6 && t[2] == '0' && t[3] == '0' {
            Some(((16 * hex_value(t[4]) + hex_value(t[5])) as char, 6int))
        } else {
            None
        }
    } else if t[0] == '"' || (t[0] as int) < 32 {
        None
    } else {
        Some((t[0], 1int))
    }
}

/// What a text inside quotes spells.
pub open spec fn read_inside(t: Seq<char>) -> Option<Seq<char>>
    decreases t.len(),
{
    if t.len() == 0 {
        Some(Seq::empty())
    } else {
        match spelled(t) {
            Some((c, n)) => if 0 < n <= t.len() {
                match read_inside(t.skip(n)) {
                    Some(rest) => Some(seq![c] + rest),
                    None => None,
                }
            } else {
                None
            },
            None => None,
        }
    }
}

/// A spelling of a character is read as that character, whatever stands behind it.
pub proof fn spelling_is_read(spelling: Seq<char>, c: char, rest: Seq<char>)
    requires
        spelled(spelling + rest) == Some((c, spelling.len() as int)),
        spelling.len() > 0,
    ensures
        read_inside(spelling + rest) == match read_inside(rest) {
            Some(r) => Some(seq![c] + r),
            None => None,
        },
{
    assert((spelling + rest).skip(spelling.len() as int) =~= rest);
}

proof fn escapes_are_spellings(c: char, rest: Seq<char>)
    ensures
        spelled(escaped_char(c) + rest) == Some((c, escaped_char(c).len() as int)),
{
    let e = escaped_char(c);
    let t = e + rest;
    assert(forall|i: int| 0 <= i < e.len() ==> t[i] == e[i]);
}

proof fn escaped_is_read(s: Seq<char>, rest: Seq<char>)
    ensures
        read_inside(escaped(s) + rest) == match read_inside(rest) {
            Some(r) => Some(s + r),
            None => None,
        },
    decreases s.len(),
{
    if s.len() == 0 {
        assert(escaped(s) + rest =~= rest);
        if let Some(r) = read_inside(rest) {
            assert(s + r =~= r);
        }
    } else {
        let c = s.last();
        let more = escaped_char(c) + rest;
        assert(escaped(s) + rest =~= escaped(s.drop_last()) + more);
        escaped_is_read(s.drop_last(), more);
        escapes_are_spellings(c, rest);
        spelling_is_read(escaped_char(c), c, rest);
        if let Some(r) = read_inside(rest) {
            assert(s.drop_last() + (seq![c] + r) =~= s + r);
        }
    }
}

/// A text that is quoted reads back as itself.
pub proof fn quoted_text_reads_back(s: Seq<char>)
    ensures
        read_inside(escaped(s)) == Some(s),
{
    escaped_is_read(s, Seq::empty());
    assert(escaped(s) + Seq::<char>::empty() =~= escaped(s));
    assert(s + Seq::<char>::empty() =~= s);
}

/// The text that a quoted text spells, read behind its opening quote, and what stands behind its
/// closing quote.
pub open spec fn read_text(t: Seq<char>) -> Option<(Seq<char>, Seq<char>)>
    decreases t.len(),
{
    if t.len() == 0 {
        None
    } else if t[0] == '"' {
        Some((Seq::empty(), t.drop_first()))
    } else {
        match spelled(t) {
            Some((c, n)) => if 0 < n <= t.len() {
                match read_text(t.skip(n)) {
                    Some((s, rest)) => Some((seq![c] + s, rest)),
                    None => None,
                }
            } else {
                None
            },
            None => None,
        }
    }
}

/// The end of a value that is not quoted: the first comma or closing bracket.
pub open spec fn bare_len(t: Seq<char>) -> int
    decreases t.len(),
{
    if t.len() == 0 || t[0] == ',' || t[0] == '}' || t[0] == ']' {
        0
    } else {
        1 + bare_len(t.drop_first())
    }
}

/// The member of an object that a text starts with, its value a text or a number, and what stands
/// behind it.
pub open spec fn read_member(t: Seq<char>) -> Option<((Seq<char>, Datum), Seq<char>)> {
    if t.len() == 0 || t[0] != '"' {
        None
    } else {
        match read_text(t.drop_first()) {
            Some((key, r)) => if r.len() < 2 || r[0] != ':' {
                None
            } else if r[1] == '"' {
                match read_text(r.skip(2)) {
                    Some((s, rest)) => Some(((key, Datum::Text(s)), rest)),
                    None => None,
                }
            } else {
                let n = 1 + bare_len(r.drop_first());
                Some(((key, Datum::Number(r.subrange(1, n), None)), r.skip(n)))
            },
            None => None,
        }
    }
}

/// The members of an object that is read behind its opening brace, up to its closing brace, and
/// what stands behind that.
pub open spec fn read_members(t: Seq<char>) -> Option<(Seq<(Seq<char>, Datum)>, Seq<char>)>
    decreases t.len(),
{
    match read_member(t) {
        Some((m, rest)) => if rest.len() == 0 || rest.len() >= t.len() {
            None
        } else if rest[0] == '}' {
            Some((seq![m], rest.drop_first()))
        } else if rest[0] == ',' {
            match read_members(rest.drop_first()) {
                Some((more, end)) => Some((seq![m] + more, end)),
                None => None,
            }
        } else {
            None
        },
        None => None,
    }
}

/// The object that a line holds, where its values are texts and numbers and nothing but a line
/// feed stands behind it.
pub open spec fn read_line(t: Seq<char>) -> Option<Datum> {
    if t.len() == 0 || t[0] != '{' {
        None
    } else {
        match read_members(t.drop_first()) {
            Some((m, end)) => if end == seq!['\n'] {
                Some(Datum::Dict(m))
            } else {
                None
            },
            None => None,
        }
    }
}

/// Whether every character of a text stands for itself inside quotes.
pub open spec fn is_plain(s: Seq<char>) -> bool {
    forall|i: int|
        0 <= i < s.len() ==> (#[trigger] s[i]) != '"' && s[i] != '\\' && (s[i] as int) >= 32
}

/// Whether a text can stand as a number: it holds nothing that ends one, and no quote in front.
pub open spec fn is_bare(s: Seq<char>) -> bool {
    &&& s.len() > 0
    &&& s[0] != '"'
    &&& forall|i: int|
        0 <= i < s.len() ==> (#[trigger] s[i]) != ',' && s[i] != '}' && s[i] != ']'
}

/// A spelling of a character in front of a text is read as that character.
pub proof fn spelling_is_read_in_quotes(spelling: Seq<char>, c: char, rest: Seq<char>)
    requires
        spelled(spelling + rest) == Some((c, spelling.len() as int)),
        spelling.len() > 0,
    ensures
        read_text(spelling + rest) == match read_text(rest) {
            Some((s, end)) => Some((seq![c] + s, end)),
            None => None,
        },
{
    assert((spelling + rest).skip(spelling.len() as int) =~= rest);
    assert((spelling + rest)[0] != '"');
}

/// A plain text between quotes is read as itself.
pub proof fn plain_is_read(s: Seq<char>, rest: Seq<char>)
    requires
        is_plain(s),
    ensures
        read_text(s + (seq!['"'] + rest)) == Some((s, rest)),
    decreases s.len(),
{
    let t = s + (seq!['"'] + rest);
    if s.len() == 0 {
        assert(t[0] == '"');
        assert(t.drop_first() =~= rest);
        assert(s =~= Seq::empty());
    } else {
        assert(t[0] == s[0]);
        assert(is_plain(s.drop_first())) by {
            assert forall|i: int| 0 <= i < s.drop_first().len() implies (#[trigger] s.drop_first()[i])
                != '"' && s.drop_first()[i] != '\\' && (s.drop_first()[i] as int) >= 32 by {
                assert(s[i + 1] != '"');
            }
        }
        plain_is_read(s.drop_first(), rest);
        assert(t.skip(1) =~= s.drop_first() + (seq!['"'] + rest));
        assert(seq![s[0]] + s.drop_first() =~= s);
    }
}

proof fn bare_is_read(n: Seq<char>, rest: Seq<char>)
    requires
        forall|i: int|
            0 <= i < n.len() ==> (#[trigger] n[i]) != ',' && n[i] != '}' && n[i] != ']',
        rest.len() > 0 ==> rest[0] == ',' || rest[0] == '}' || rest[0] == ']',
    ensures
        bare_len(n + rest) == n.len(),
    decreases n.len(),
{
    if n.len() == 0 {
        assert(n + rest =~= rest);
    } else {
        assert((n + rest)[0] == n[0]);
        assert((n + rest).drop_first() =~= n.drop_first() + rest);
        assert forall|i: int| 0 <= i < n.drop_first().len() implies (#[trigger] n.drop_first()[i])
            != ',' && n.drop_first()[i] != '}' && n.drop_first()[i] != ']' by {
            assert(n[i + 1] != ',');
        }
        bare_is_read(n.drop_first(), rest);
    }
}

/// A member whose value is a number.
pub open spec fn number_member(key: Seq<char>, n: Seq<char>) -> Seq<char> {
    seq!['"'] + (key + (seq!['"'] + (seq![':'] + n)))
}

/// A member whose value is a text, by what stands between its quotes.
pub open spec fn text_member(key: Seq<char>, inside: Seq<char>) -> Seq<char> {
    seq!['"'] + (key + (seq!['"'] + (seq![':'] + (seq!['"'] + (inside + seq!['"'])))))
}

/// A member whose value is a number is read as that.
pub proof fn number_member_is_read(key: Seq<char>, n: Seq<char>, rest: Seq<char>)
    requires
        is_plain(key),
        is_bare(n),
        rest.len() > 0,
        rest[0] == ',' || rest[0] == '}',
    ensures
        read_member(number_member(key, n) + rest) == Some(((key, Datum::Number(n, None)), rest)),
{
    let t = number_member(key, n) + rest;
    let r = seq![':'] + (n + rest);
    assert(t.drop_first() =~= key + (seq!['"'] + r));
    plain_is_read(key, r);
    assert(r[1] == n[0]);
    assert(r.drop_first() =~= n + rest);
    bare_is_read(n, rest);
    assert(r.subrange(1, 1 + n.len() as int) =~= n);
    assert(r.skip(1 + n.len() as int) =~= rest);
}

/// A member whose value is a text is read as that.
pub proof fn text_member_is_read(key: Seq<char>, inside: Seq<char>, s: Seq<char>, rest: Seq<char>)
    requires
        is_plain(key),
        read_text(inside + (seq!['"'] + rest)) == Some((s, rest)),
    ensures
        read_member(text_member(key, inside) + rest) == Some(((key, Datum::Text(s)), rest)),
{
    let t = text_member(key, inside) + rest;
    let r = seq![':'] + (seq!['"'] + (inside + (seq!['"'] + rest)));
    assert(t.drop_first() =~= key + (seq!['"'] + r));
    plain_is_read(key, r);
    assert(r[1] == '"');
    assert(r.skip(2) =~= inside + (seq!['"'] + rest));
}

/// A member in front of further ones is read with them.
pub proof fn one_more_member_is_read(
    m: (Seq<char>, Datum),
    written: Seq<char>,
    more: Seq<char>,
    members: Seq<(Seq<char>, Datum)>,
    end: Seq<char>,
)
    requires
        written.len() > 0,
        read_member(written + (seq![','] + more)) == Some((m, seq![','] + more)),
        read_members(more) == Some((members, end)),
    ensures
        read_members(written + (seq![','] + more)) == Some((seq![m] + members, end)),
{
    let rest = seq![','] + more;
    assert(rest.drop_first() =~= more);
}

/// The last member is read up to the closing brace.
pub proof fn the_last_member_is_read(m: (Seq<char>, Datum), written: Seq<char>, end: Seq<char>)
    requires
        written.len() > 0,
        read_member(written + (seq!['}'] + end)) == Some((m, seq!['}'] + end)),
    ensures
        read_members(written + (seq!['}'] + end)) == Some((seq![m], end)),
{
    let rest = seq!['}'] + end;
    assert(rest.drop_first() =~= end);
}

/// A whole number in decimal can stand as a number.
pub proof fn decimals_are_bare(v: int)
    ensures
        is_bare(dec_int(v)),
{
    if v < 0 {
        dec_reads_back((-v) as nat);
        let d = dec((-v) as nat);
        assert forall|i: int| 0 <= i < dec_int(v).len() implies (#[trigger] dec_int(v)[i]) != ','
            && dec_int(v)[i] != '}' && dec_int(v)[i] != ']' by {
            if i > 0 {
                assert(dec_int(v)[i] == d[i - 1]);
            }
        }
    } else {
        dec_reads_back(v as nat);
    }
}

/// The value that a text starts with, and what stands behind it. A number is read as it is written.
pub open spec fn read_value(t: Seq<char>) -> Option<(Datum, Seq<char>)>
    decreases t.len(), 0nat,
{
    if t.len() == 0 {
        None
    } else if t[0] == '"' {
        match read_text(t.drop_first()) {
            Some((s, rest)) => Some((Datum::Text(s), rest)),
            None => None,
        }
    } else if t[0] == '[' {
        if t.len() > 1 && t[1] == ']' {
            Some((Datum::List(Seq::empty()), t.skip(2)))
        } else {
            match read_items(t.drop_first()) {
                Some((items, rest)) => Some((Datum::List(items), rest)),
                None => None,
            }
        }
    } else if t[0] == '{' {
        if t.len() > 1 && t[1] == '}' {
            Some((Datum::Dict(Seq::empty()), t.skip(2)))
        } else {
            match read_pairs(t.drop_first()) {
                Some((pairs, rest)) => Some((Datum::Dict(pairs), rest)),
                None => None,
            }
        }
    } else if t.len() >= 4 && t.take(4) == "null"@ {
        Some((Datum::Null, t.skip(4)))
    } else if t.len() >= 4 && t.take(4) == "true"@ {
        Some((Datum::Bool(true), t.skip(4)))
    } else if t.len() >= 5 && t.take(5) == "false"@ {
        Some((Datum::Bool(false), t.skip(5)))
    } else {
        let n = bare_len(t);
        Some((Datum::Number(t.take(n), None), t.skip(n)))
    }
}

/// The items of a list that is read behind its opening bracket, and what stands behind its closing
/// one.
pub open spec fn read_items(t: Seq<char>) -> Option<(Seq<Datum>, Seq<char>)>
    decreases t.len(), 1nat,
{
    match read_value(t) {
        Some((d, rest)) => if rest.len() == 0 || rest.len() >= t.len() {
            None
        } else if rest[0] == ']' {
            Some((seq![d], rest.drop_first()))
        } else if rest[0] == ',' {
            match read_items(rest.drop_first()) {
                Some((more, end)) => Some((seq![d] + more, end)),
                None => None,
            }
        } else {
            None
        },
        None => None,
    }
}

/// The members of an object that is read behind its opening bracket, and what stands behind its
/// closing one.
pub open spec fn read_pairs(t: Seq<char>) -> Option<(Seq<(Seq<char>, Datum)>, Seq<char>)>
    decreases t.len(), 1nat,
{
    if t.len() == 0 || t[0] != '"' {
        None
    } else {
        match read_text(t.drop_first()) {
            Some((key, r)) => if r.len() == 0 || r.len() >= t.len() || r[0] != ':' {
                None
            } else {
                match read_value(r.drop_first()) {
                    Some((d, rest)) => if rest.len() == 0 || rest.len() >= t.len() {
                        None
                    } else if rest[0] == '}' {
                        Some((seq![(key, d)], rest.drop_first()))
                    } else if rest[0] == ',' {
                        match read_pairs(rest.drop_first()) {
                            Some((more, end)) => Some((seq![(key, d)] + more, end)),
                            None => None,
                        }
                    } else {
                        None
                    },
                    None => None,
                }
            },
            None => None,
        }
    }
}

/// Whether every number in a value is one by its text alone: it starts with a digit or a minus sign
/// and holds nothing that ends it.
pub open spec fn readable(d: Datum) -> bool
    decreases d,
{
    match d {
        Datum::Number(text, float) => {
            &&& float is None
            &&& is_bare(text)
            &&& text[0] == '-' || is_digit(text[0])
        },
        Datum::List(items) => forall|i: int| 0 <= i < items.len() ==> readable(#[trigger] items[i]),
        Datum::Dict(members) => forall|i: int|
            0 <= i < members.len() ==> readable((#[trigger] members[i]).1),
        _ => true,
    }
}

/// What may stand behind a value.
spec fn closes(rest: Seq<char>) -> bool {
    rest.len() > 0 ==> rest[0] == ',' || rest[0] == '}' || rest[0] == ']'
}

/// The items from a place on, separated by commas.
spec fn items_from(items: Seq<Datum>, k: int) -> Seq<char>
    decreases items.len() - k,
{
    if k < 0 || k >= items.len() {
        Seq::empty()
    } else if k == items.len() - 1 {
        json_text(items[k])
    } else {
        json_text(items[k]) + (seq![','] + items_from(items, k + 1))
    }
}

/// One member.
spec fn pair_text(m: (Seq<char>, Datum)) -> Seq<char> {
    quoted(m.0) + (seq![':'] + json_text(m.1))
}

/// The members from a place on, separated by commas.
spec fn pairs_from(members: Seq<(Seq<char>, Datum)>, k: int) -> Seq<char>
    decreases members.len() - k,
{
    if k < 0 || k >= members.len() {
        Seq::empty()
    } else if k == members.len() - 1 {
        pair_text(members[k])
    } else {
        pair_text(members[k]) + (seq![','] + pairs_from(members, k + 1))
    }
}

proof fn items_rejoined(items: Seq<Datum>, k: int)
    requires
        0 <= k < items.len(),
    ensures
        k == 0 ==> items_text(items, items.len()) == items_from(items, 0),
        k > 0 ==> items_text(items, items.len()) == items_text(items, k as nat) + (seq![',']
            + items_from(items, k)),
    decreases items.len() - k,
{
    if k < items.len() - 1 {
        items_rejoined(items, k + 1);
        let a = items_text(items, k as nat);
        let b = json_text(items[k]);
        let c = items_from(items, k + 1);
        if k > 0 {
            assert(items_text(items, (k + 1) as nat) == a + seq![','] + b);
            assert(a + seq![','] + b + (seq![','] + c) =~= a + (seq![','] + (b + (seq![','] + c))));
        } else {
            assert(items_text(items, 1) == b);
        }
    } else if k > 0 {
        let a = items_text(items, k as nat);
        let b = json_text(items[k]);
        assert(a + seq![','] + b =~= a + (seq![','] + b));
    }
}

proof fn pairs_rejoined(members: Seq<(Seq<char>, Datum)>, k: int)
    requires
        0 <= k < members.len(),
    ensures
        k == 0 ==> members_text(members, members.len()) == pairs_from(members, 0),
        k > 0 ==> members_text(members, members.len()) == members_text(members, k as nat) + (seq![
            ',',
        ] + pairs_from(members, k)),
    decreases members.len() - k,
{
    let m = members[k];
    let b = pair_text(m);
    assert(quoted(m.0) + seq![':'] + json_text(m.1) =~= b);
    if k < members.len() - 1 {
        pairs_rejoined(members, k + 1);
        let a = members_text(members, k as nat);
        let c = pairs_from(members, k + 1);
        if k > 0 {
            assert(members_text(members, (k + 1) as nat) == a + seq![','] + b);
            assert(a + seq![','] + b + (seq![','] + c) =~= a + (seq![','] + (b + (seq![','] + c))));
        } else {
            assert(members_text(members, 1) == b);
        }
    } else if k > 0 {
        let a = members_text(members, k as nat);
        assert(a + seq![','] + b =~= a + (seq![','] + b));
    }
}

/// How the text of a value starts.
proof fn values_start(d: Datum)
    requires
        readable(d),
    ensures
        json_text(d).len() > 0,
        json_text(d)[0] != ']' && json_text(d)[0] != '}' && json_text(d)[0] != ',',
{
    reveal_strlit("null");
    reveal_strlit("true");
    reveal_strlit("false");
}

/// A quoted text is read as itself.
proof fn quoted_is_read(s: Seq<char>, rest: Seq<char>)
    ensures
        (quoted(s) + rest)[0] == '"',
        read_text((quoted(s) + rest).drop_first()) == Some((s, rest)),
{
    let close = seq!['"'] + rest;
    assert((quoted(s) + rest).drop_first() =~= escaped(s) + close);
    escaped_in_quotes(s, close);
    assert(close.drop_first() =~= rest);
    assert(s + Seq::<char>::empty() =~= s);
}

proof fn escaped_in_quotes(s: Seq<char>, rest: Seq<char>)
    ensures
        read_text(escaped(s) + rest) == match read_text(rest) {
            Some((t, end)) => Some((s + t, end)),
            None => None,
        },
    decreases s.len(),
{
    if s.len() == 0 {
        assert(escaped(s) + rest =~= rest);
        if let Some((t, end)) = read_text(rest) {
            assert(s + t =~= t);
        }
    } else {
        let c = s.last();
        let more = escaped_char(c) + rest;
        assert(escaped(s) + rest =~= escaped(s.drop_last()) + more);
        escaped_in_quotes(s.drop_last(), more);
        escapes_are_spellings(c, rest);
        spelling_is_read_in_quotes(escaped_char(c), c, rest);
        if let Some((t, end)) = read_text(rest) {
            assert(s.drop_last() + (seq![c] + t) =~= s + t);
        }
    }
}

proof fn value_is_read(d: Datum, rest: Seq<char>)
    requires
        readable(d),
        closes(rest),
    ensures
        read_value(json_text(d) + rest) == Some((d, rest)),
    decreases d, 0nat,
{
    let t = json_text(d) + rest;
    reveal_strlit("null");
    reveal_strlit("true");
    reveal_strlit("false");
    match d {
        Datum::Null => {
            assert(t.take(4) =~= "null"@);
            assert(t.skip(4) =~= rest);
        },
        Datum::Bool(b) => {
            if b {
                assert(t.take(4) =~= "true"@);
                assert("null"@[0] == 'n');
                assert(t.take(4)[0] == 't');
                assert(t.skip(4) =~= rest);
            } else {
                assert(t.take(5) =~= "false"@);
                assert(t[0] == 'f');
                assert("null"@[0] == 'n' && "true"@[0] == 't');
                if t.len() >= 4 {
                    assert(t.take(4)[0] == 'f');
                }
                assert(t.skip(5) =~= rest);
            }
        },
        Datum::Number(text, float) => {
            assert(t[0] == text[0]);
            assert("null"@[0] == 'n' && "true"@[0] == 't' && "false"@[0] == 'f');
            if t.len() >= 4 {
                assert(t.take(4)[0] == text[0]);
            }
            if t.len() >= 5 {
                assert(t.take(5)[0] == text[0]);
            }
            bare_is_read(text, rest);
            assert(t.take(text.len() as int) =~= text);
            assert(t.skip(text.len() as int) =~= rest);
        },
        Datum::Text(s) => {
            quoted_is_read(s, rest);
        },
        Datum::List(items) => {
            if items.len() == 0 {
                assert(t =~= seq!['[', ']'] + rest);
                assert(t.skip(2) =~= rest);
                assert(items =~= Seq::empty());
            } else {
                items_rejoined(items, 0);
                let inner = items_from(items, 0) + (seq![']'] + rest);
                assert(t =~= seq!['['] + inner);
                assert(t.drop_first() =~= inner);
                items_are_read(items, 0, rest);
                assert(items.skip(0) =~= items);
                values_start(items[0]);
                assert(inner[0] == json_text(items[0])[0]);
            }
        },
        Datum::Dict(members) => {
            if members.len() == 0 {
                assert(t =~= seq!['{', '}'] + rest);
                assert(t.skip(2) =~= rest);
                assert(members =~= Seq::empty());
            } else {
                pairs_rejoined(members, 0);
                let inner = pairs_from(members, 0) + (seq!['}'] + rest);
                assert(t =~= seq!['{'] + inner);
                assert(t.drop_first() =~= inner);
                pairs_are_read(members, 0, rest);
                assert(members.skip(0) =~= members);
                assert(inner[0] == '"');
            }
        },
    }
}

proof fn items_are_read(items: Seq<Datum>, k: int, rest: Seq<char>)
    requires
        0 <= k < items.len(),
        forall|i: int| 0 <= i < items.len() ==> readable(#[trigger] items[i]),
    ensures
        read_items(items_from(items, k) + (seq![']'] + rest)) == Some((items.skip(k), rest)),
    decreases items, items.len() - k,
{
    let d = items[k];
    values_start(d);
    if k == items.len() - 1 {
        let end = seq![']'] + rest;
        value_is_read(d, end);
        assert(end.drop_first() =~= rest);
        assert(items.skip(k) =~= seq![d]);
    } else {
        let more = items_from(items, k + 1) + (seq![']'] + rest);
        let end = seq![','] + more;
        assert(items_from(items, k) + (seq![']'] + rest) =~= json_text(d) + end);
        value_is_read(d, end);
        assert(end.drop_first() =~= more);
        items_are_read(items, k + 1, rest);
        assert(items.skip(k) =~= seq![d] + items.skip(k + 1));
    }
}

proof fn pairs_are_read(members: Seq<(Seq<char>, Datum)>, k: int, rest: Seq<char>)
    requires
        0 <= k < members.len(),
        forall|i: int| 0 <= i < members.len() ==> readable((#[trigger] members[i]).1),
    ensures
        read_pairs(pairs_from(members, k) + (seq!['}'] + rest)) == Some((members.skip(k), rest)),
    decreases members, members.len() - k,
{
    let m = members[k];
    let last = k == members.len() - 1;
    let more = pairs_from(members, k + 1) + (seq!['}'] + rest);
    let end = if last {
        seq!['}'] + rest
    } else {
        seq![','] + more
    };
    let r = seq![':'] + (json_text(m.1) + end);
    let t = pairs_from(members, k) + (seq!['}'] + rest);
    assert(t =~= quoted(m.0) + r);
    quoted_is_read(m.0, r);
    assert(r.drop_first() =~= json_text(m.1) + end);
    value_is_read(m.1, end);
    if last {
        assert(end.drop_first() =~= rest);
        assert(members.skip(k) =~= seq![m]);
    } else {
        assert(end.drop_first() =~= more);
        pairs_are_read(members, k + 1, rest);
        assert(members.skip(k) =~= seq![m] + members.skip(k + 1));
    }
}

/// A document reads back: the text of a value, read as JSON, is that value, with nothing left over.
pub proof fn a_document_reads_back(d: Datum)
    requires
        readable(d),
    ensures
        read_value(json_text(d)) == Some((d, Seq::<char>::empty())),
{
    value_is_read(d, Seq::empty());
    assert(json_text(d) + Seq::<char>::empty() =~= json_text(d));
}

/// Different documents have different texts.
pub proof fn different_documents_have_different_texts(a: Datum, b: Datum)
    requires
        readable(a),
        readable(b),
        json_text(a) == json_text(b),
    ensures
        a == b,
{
    a_document_reads_back(a);
    a_document_reads_back(b);
}

} // verus!
