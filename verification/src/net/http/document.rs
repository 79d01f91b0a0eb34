//! Building JSON documents.

use crate::datastore::laws::integer_text_reads_back;
use crate::datastore::pyvalue::{first_key, first_key_properties, num_of, Num};
use crate::datastore::value::{dict_model, list_model, Datum, Number, Value};
use crate::text::{dec_int, decimal, signed_decimal};
use vstd::prelude::*;

verus! {

/// A whole number in a document.
pub open spec fn number(n: int) -> Datum {
    Datum::Number(dec_int(n), None)
}

/// A text in a document, or null.
pub open spec fn text_or_null(s: Option<Seq<char>>) -> Datum {
    match s {
        Some(s) => Datum::Text(s),
        None => Datum::Null,
    }
}

/// A whole number in a document, or null.
pub open spec fn number_or_null(n: Option<u64>) -> Datum {
    match n {
        Some(n) => number(n as int),
        None => Datum::Null,
    }
}

pub fn count(n: u64) -> (r: Value)
    ensures
        r@ == number(n as int),
{
    Value::Number(Number { text: decimal(n), float: None })
}

pub fn integer(n: i64) -> (r: Value)
    ensures
        r@ == number(n as int),
{
    Value::Number(Number { text: signed_decimal(n), float: None })
}

pub fn text(s: &str) -> (r: Value)
    ensures
        r@ == Datum::Text(s@),
{
    Value::String(s.to_owned())
}

pub fn optional_text(s: Option<String>) -> (r: Value)
    ensures
        r@ == text_or_null(s.deep_view()),
{
    match s {
        Some(s) => Value::String(s),
        None => Value::Null,
    }
}

pub fn optional_count(n: Option<u64>) -> (r: Value)
    ensures
        r@ == number_or_null(n),
{
    match n {
        Some(n) => count(n),
        None => Value::Null,
    }
}

/// The members of an object that is being built.
#[derive(Debug)]
pub struct Fields {
    pub members: Vec<(String, Value)>,
}

impl View for Fields {
    type V = Seq<(Seq<char>, Datum)>;

    open spec fn view(&self) -> Seq<(Seq<char>, Datum)> {
        dict_model(self.members@)
    }
}

impl Fields {
    pub fn new() -> (r: Fields)
        ensures
            r@ == Seq::<(Seq<char>, Datum)>::empty(),
    {
        let r = Fields { members: Vec::new() };
        assert(r@ =~= Seq::<(Seq<char>, Datum)>::empty());
        r
    }

    /// The members with one more.
    pub fn with(self, name: &str, value: Value) -> (r: Fields)
        ensures
            r@ == self@.push((name@, value@)),
    {
        let mut members = self.members;
        members.push((name.to_owned(), value));
        assert(dict_model(members@) =~= dict_model(self.members@).push((name@, value@)));
        Fields { members }
    }

    /// The object.
    pub fn object(self) -> (r: Value)
        ensures
            r@ == Datum::Dict(self@),
    {
        Value::Object(self.members)
    }
}

/// The list of the given items.
pub fn list(items: Vec<Value>) -> (r: Value)
    ensures
        r@ == Datum::List(list_model(items@)),
{
    Value::Array(items)
}

/// What stands in a list for each of some rows.
pub open spec fn each<T>(rows: Seq<T>, row: spec_fn(T) -> Datum) -> Datum {
    Datum::List(rows.map_values(row))
}

/// A list with one item for each row, built by a function.
pub fn list_each<T, F: Fn(&T) -> Value>(
    rows: &Vec<T>,
    one: F,
    Ghost(row): Ghost<spec_fn(T) -> Datum>,
) -> (r: Value)
    requires
        forall|x: &T| #[trigger] one.requires((x,)),
        forall|x: &T, v: Value| #[trigger] one.ensures((x,), v) ==> v@ == row(*x),
    ensures
        r@ == each(rows@, row),
{
    let mut out: Vec<Value> = Vec::new();
    for i in 0..rows.len()
        invariant
            forall|x: &T| #[trigger] one.requires((x,)),
            forall|x: &T, v: Value| #[trigger] one.ensures((x,), v) ==> v@ == row(*x),
            out@.len() == i,
            forall|j: int| 0 <= j < i ==> (#[trigger] out@[j])@ == row(rows@[j]),
    {
        let item = one(&rows[i]);
        out.push(item);
    }
    assert(list_model(out@) =~= rows@.map_values(row));
    list(out)
}

/// A list with one item for each row that is to be shown, built by a function.
pub fn list_where<T, K: Fn(&T) -> bool, F: Fn(&T) -> Value>(
    rows: &Vec<T>,
    keep: K,
    one: F,
    Ghost(kept): Ghost<spec_fn(T) -> bool>,
    Ghost(row): Ghost<spec_fn(T) -> Datum>,
) -> (r: Value)
    requires
        forall|x: &T| #[trigger] keep.requires((x,)),
        forall|x: &T, b: bool| #[trigger] keep.ensures((x,), b) ==> b == kept(*x),
        forall|x: &T| #[trigger] one.requires((x,)),
        forall|x: &T, v: Value| #[trigger] one.ensures((x,), v) ==> v@ == row(*x),
    ensures
        r@ == each(rows@.filter(kept), row),
{
    let mut out: Vec<Value> = Vec::new();
    proof {
        reveal(Seq::filter);
        assert(rows@.take(0).filter(kept) =~= Seq::<T>::empty());
        assert(list_model(out@) =~= rows@.take(0).filter(kept).map_values(row));
    }
    for i in 0..rows.len()
        invariant
            forall|x: &T| #[trigger] keep.requires((x,)),
            forall|x: &T, b: bool| #[trigger] keep.ensures((x,), b) ==> b == kept(*x),
            forall|x: &T| #[trigger] one.requires((x,)),
            forall|x: &T, v: Value| #[trigger] one.ensures((x,), v) ==> v@ == row(*x),
            list_model(out@) == rows@.take(i as int).filter(kept).map_values(row),
    {
        proof {
            reveal(Seq::filter);
            assert(rows@.take(i + 1).drop_last() =~= rows@.take(i as int));
        }
        let ghost before = out@;
        if keep(&rows[i]) {
            let item = one(&rows[i]);
            out.push(item);
            assert(list_model(out@) =~= list_model(before).push(row(rows@[i as int])));
        }
        assert(list_model(out@) =~= rows@.take(i + 1).filter(kept).map_values(row));
    }
    assert(rows@.take(rows@.len() as int) =~= rows@);
    list(out)
}

/// The member of an object that has a name; null where there is none.
pub open spec fn member(d: Datum, name: Seq<char>) -> Datum {
    match d {
        Datum::Dict(m) => {
            let k = first_key(m, name, 0);
            if k < m.len() {
                m[k].1
            } else {
                Datum::Null
            }
        },
        _ => Datum::Null,
    }
}

/// A member is found by its name where no other stands before it with the same.
pub proof fn member_found(m: Seq<(Seq<char>, Datum)>, k: int)
    requires
        0 <= k < m.len(),
        forall|j: int| 0 <= j < k ==> (#[trigger] m[j]).0 != m[k].0,
    ensures
        member(Datum::Dict(m), m[k].0) == m[k].1,
{
    first_key_properties(m, m[k].0, 0);
}

/// A whole number in a document reads back as itself.
pub proof fn numbers_read_back(n: int)
    ensures
        num_of(number(n)) == Some(Num::Int(n)),
{
    integer_text_reads_back(n);
}

/// The items of a list that is built from rows stand in the order of the rows, one for each.
pub proof fn each_row_has_its_item<T>(rows: Seq<T>, row: spec_fn(T) -> Datum, i: int)
    requires
        0 <= i < rows.len(),
    ensures
        each(rows, row) matches Datum::List(items) && items.len() == rows.len() && items[i] == row(
            rows[i],
        ),
{
}

/// How many of some rows, up to a place, are to be shown.
pub open spec fn shown_before<T>(rows: Seq<T>, kept: spec_fn(T) -> bool, i: int) -> nat
    decreases i,
{
    if i <= 0 {
        0
    } else if kept(rows[i - 1]) {
        shown_before(rows, kept, i - 1) + 1
    } else {
        shown_before(rows, kept, i - 1)
    }
}

/// A row that is to be shown stands behind those before it that are, and no other row is there.
pub proof fn each_row_shown_has_its_item<T>(
    rows: Seq<T>,
    kept: spec_fn(T) -> bool,
    row: spec_fn(T) -> Datum,
    i: int,
)
    requires
        0 <= i < rows.len(),
        kept(rows[i]),
    ensures
        each(rows.filter(kept), row) matches Datum::List(items) && items.len() == shown_before(
            rows,
            kept,
            rows.len() as int,
        ) && shown_before(rows, kept, i) < items.len() && items[shown_before(rows, kept, i) as int]
            == row(rows[i]),
{
    kept_at(rows, kept, i);
}

/// As many rows are kept as are to be shown.
pub proof fn rows_shown<T>(rows: Seq<T>, kept: spec_fn(T) -> bool)
    ensures
        rows.filter(kept).len() == shown_before(rows, kept, rows.len() as int),
{
    kept_at(rows, kept, -1);
}

proof fn kept_at<T>(rows: Seq<T>, kept: spec_fn(T) -> bool, i: int)
    requires
        i < rows.len(),
    ensures
        rows.filter(kept).len() == shown_before(rows, kept, rows.len() as int),
        0 <= i && kept(rows[i]) ==> shown_before(rows, kept, i) < rows.filter(kept).len()
            && rows.filter(kept)[shown_before(rows, kept, i) as int] == rows[i],
    decreases rows.len(),
{
    reveal(Seq::filter);
    if rows.len() > 0 {
        let front = rows.drop_last();
        same_before(rows, front, kept, front.len() as int);
        if i < front.len() {
            kept_at(front, kept, i);
            if 0 <= i {
                same_before(rows, front, kept, i);
            }
        } else {
            kept_at(front, kept, -1);
        }
    }
}

proof fn same_before<T>(a: Seq<T>, b: Seq<T>, kept: spec_fn(T) -> bool, i: int)
    requires
        i <= a.len(),
        i <= b.len(),
        forall|j: int| 0 <= j < i ==> kept(#[trigger] a[j]) == kept(b[j]),
    ensures
        shown_before(a, kept, i) == shown_before(b, kept, i),
    decreases i,
{
    if i > 0 {
        same_before(a, b, kept, i - 1);
        assert(kept(a[i - 1]) == kept(b[i - 1]));
    }
}

/// Two lists of rows that are shown alike give the same items.
pub proof fn rows_alike_give_the_same<T>(
    a: Seq<T>,
    b: Seq<T>,
    kept: spec_fn(T) -> bool,
    row: spec_fn(T) -> Datum,
)
    requires
        a.len() == b.len(),
        forall|i: int|
            0 <= i < a.len() ==> kept(#[trigger] a[i]) == kept(b[i]) && (kept(a[i]) ==> row(a[i])
                == row(b[i])),
    ensures
        each(a.filter(kept), row) == each(b.filter(kept), row),
    decreases a.len(),
{
    reveal(Seq::filter);
    if a.len() > 0 {
        let n = a.len() - 1;
        assert(a[n] == a.last() && b[n] == b.last());
        assert(kept(a[n]) == kept(b[n]));
        rows_alike_give_the_same(a.drop_last(), b.drop_last(), kept, row);
        assert(a.filter(kept).map_values(row) =~= b.filter(kept).map_values(row)) by {
            let x = a.drop_last().filter(kept).map_values(row);
            let y = b.drop_last().filter(kept).map_values(row);
            assert(x == y);
            if kept(a[n]) {
                assert(a.filter(kept).map_values(row) =~= x.push(row(a[n])));
                assert(b.filter(kept).map_values(row) =~= y.push(row(b[n])));
            }
        }
    } else {
        assert(a.filter(kept).map_values(row) =~= b.filter(kept).map_values(row));
    }
}

} // verus!
