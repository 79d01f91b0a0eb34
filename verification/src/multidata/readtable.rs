//! Reading dicts into tables.

use crate::multidata::collect::{collect, collect_pairs, collect_pairs_stops, collect_stops};
use crate::multidata::error::{outcome, Error, Path, Problem};
use crate::multidata::extract::{dict_of, Extract};
use crate::multidata::pyobj::{pairs_model, pairs_model_is_deep, seq_model, Py, PyObj};
use crate::table::{table_of, SortKey, Table};
use vstd::prelude::*;

verus! {

/// What a dict says as a table, its pairs read by `f`.
pub open spec fn table_from<K: SortKey, T>(
    o: Py,
    path: Seq<char>,
    f: spec_fn(Py, Py) -> Result<(K::V, T), Problem>,
) -> Result<Seq<(K::V, T)>, Problem> {
    match dict_of(o, path) {
        Err(e) => Err(e),
        Ok(pairs) => match collect_pairs(pairs, f, pairs.len()) {
            Err(e) => Err(e),
            Ok(s) => Ok(table_of::<K, T>(s)),
        },
    }
}

/// What a dict that may be absent says as a table; an absent one is empty.
pub open spec fn opt_table_from<K: SortKey, T>(
    o: Option<Py>,
    path: Seq<char>,
    f: spec_fn(Py, Py) -> Result<(K::V, T), Problem>,
) -> Result<Seq<(K::V, T)>, Problem> {
    match o {
        None => Ok(Seq::empty()),
        Some(v) => table_from::<K, T>(v, path, f),
    }
}

/// The model of one reading.
pub open spec fn pair_outcome<K: SortKey, T: DeepView>(r: Result<(K, T), Error>) -> Result<
    (K::V, T::V),
    Problem,
> {
    match r {
        Ok(p) => Ok((p.0.deep_view(), p.1.deep_view())),
        Err(e) => Err(e@),
    }
}

/// The model of a table that was read.
pub open spec fn table_outcome<K: SortKey, T: DeepView>(r: Result<Table<K, T>, Error>) -> Result<
    Seq<(K::V, T::V)>,
    Problem,
> {
    match r {
        Ok(t) => Ok(t.deep_view()),
        Err(e) => Err(e@),
    }
}

/// Reads a dict as a table, each pair by `read`, which reads what `f` says.
pub fn read_table<K: SortKey, T: DeepView, F: Fn(&PyObj, &PyObj) -> Result<(K, T), Error>>(
    o: &PyObj,
    path: &Path,
    read: F,
    Ghost(f): Ghost<spec_fn(Py, Py) -> Result<(K::V, T::V), Problem>>,
) -> (r: Result<Table<K, T>, Error>)
    requires
        forall|k: &PyObj, v: &PyObj| #[trigger] read.requires((k, v)),
        forall|k: &PyObj, v: &PyObj, x: Result<(K, T), Error>| #[trigger]
            read.ensures((k, v), x) ==> pair_outcome(x) == f(k.model(), v.model()),
    ensures
        table_outcome(r) == table_from::<K, T::V>(o.model(), path@, f),
{
    let pairs = match o.dict_(path) {
        Ok(pairs) => pairs,
        Err(e) => {
            return Err(e);
        },
    };
    proof {
        pairs_model_is_deep(*pairs);
    }
    let ghost model = pairs_model(pairs@);
    let ghost mut done: Seq<(K::V, T::V)> = Seq::empty();
    let mut out: Table<K, T> = Table::new();
    for i in 0..pairs.len()
        invariant
            forall|k: &PyObj, v: &PyObj| #[trigger] read.requires((k, v)),
            forall|k: &PyObj, v: &PyObj, x: Result<(K, T), Error>| #[trigger]
                read.ensures((k, v), x) ==> pair_outcome(x) == f(k.model(), v.model()),
            model == pairs_model(pairs@),
            o.model() == Py::Dict(model),
            collect_pairs(model, f, i as nat) == Ok::<Seq<(K::V, T::V)>, Problem>(done),
            out.deep_view() == table_of::<K, T::V>(done),
    {
        assert(model[i as int] == (pairs@[i as int].0.model(), pairs@[i as int].1.model()));
        match read(&pairs[i].0, &pairs[i].1) {
            Ok((k, v)) => {
                proof {
                    let was = done;
                    done = done.push((k.deep_view(), v.deep_view()));
                    assert(done.drop_last() =~= was);
                }
                out = out.with(k, v);
            },
            Err(e) => {
                proof {
                    assert(collect_pairs(model, f, (i + 1) as nat) == Err::<
                        Seq<(K::V, T::V)>,
                        Problem,
                    >(e@));
                    collect_pairs_stops(model, f, (i + 1) as nat, pairs@.len());
                }
                return Err(e);
            },
        }
    }
    Ok(out)
}

/// Reads a dict that may be absent as a table, each pair by `read`, which reads what `f` says.
pub fn read_opt_table<K: SortKey, T: DeepView, F: Fn(&PyObj, &PyObj) -> Result<(K, T), Error>>(
    o: Option<&PyObj>,
    path: &Path,
    read: F,
    Ghost(f): Ghost<spec_fn(Py, Py) -> Result<(K::V, T::V), Problem>>,
) -> (r: Result<Table<K, T>, Error>)
    requires
        forall|k: &PyObj, v: &PyObj| #[trigger] read.requires((k, v)),
        forall|k: &PyObj, v: &PyObj, x: Result<(K, T), Error>| #[trigger]
            read.ensures((k, v), x) ==> pair_outcome(x) == f(k.model(), v.model()),
    ensures
        table_outcome(r) == opt_table_from::<K, T::V>(o.deep_view(), path@, f),
{
    match o {
        None => Ok(Table::new()),
        Some(v) => read_table(v, path, read, Ghost(f)),
    }
}

/// Reads every item, each by `read`, which reads what `f` says.
pub fn read_list<A: DeepView, F: Fn(usize, &PyObj) -> Result<A, Error>>(
    items: &Vec<PyObj>,
    read: F,
    Ghost(f): Ghost<spec_fn(int, Py) -> Result<A::V, Problem>>,
) -> (r: Result<Vec<A>, Error>)
    requires
        forall|i: usize, o: &PyObj| #[trigger] read.requires((i, o)),
        forall|i: usize, o: &PyObj, x: Result<A, Error>| #[trigger]
            read.ensures((i, o), x) ==> outcome(x) == f(i as int, o.model()),
    ensures
        outcome(r) == collect(seq_model(items@), f, items@.len()),
{
    let ghost model = seq_model(items@);
    let mut out: Vec<A> = Vec::new();
    assert(out.deep_view() =~= Seq::<A::V>::empty());
    for i in 0..items.len()
        invariant
            forall|i: usize, o: &PyObj| #[trigger] read.requires((i, o)),
            forall|i: usize, o: &PyObj, x: Result<A, Error>| #[trigger]
                read.ensures((i, o), x) ==> outcome(x) == f(i as int, o.model()),
            model == seq_model(items@),
            collect(model, f, i as nat) == Ok::<Seq<A::V>, Problem>(out.deep_view()),
    {
        assert(model[i as int] == items@[i as int].model());
        match read(i, &items[i]) {
            Ok(a) => {
                let ghost was = out.deep_view();
                out.push(a);
                assert(out.deep_view() =~= was.push(a.deep_view()));
            },
            Err(e) => {
                proof {
                    assert(collect(model, f, (i + 1) as nat) == Err::<Seq<A::V>, Problem>(e@));
                    collect_stops(model, f, (i + 1) as nat, items@.len());
                }
                return Err(e);
            },
        }
    }
    Ok(out)
}

} // verus!
