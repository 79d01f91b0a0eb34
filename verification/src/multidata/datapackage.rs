//! Item and location name tables, and where they come from.
//!
//! The tables of a game come from the seed, except the names that are not to be hinted, which
//! are built in. A game whose tables the seed does not have degrades to names that show the id.

use crate::multidata::collect::{collect, collect_pairs, collect_pairs_stops, collect_stops};
use crate::multidata::error::{key_path, Error, Path, Problem};
use crate::multidata::extract::{dict_of, int_of, seq_of, str_of, Extract};
use crate::multidata::hint_blacklist::{for_game, refused_names, slices};
use crate::multidata::pyobj::{
    member, pairs_model, pairs_model_is_deep, seq_model, seq_model_is_deep, Py, PyObj,
};
use crate::table::{
    appending, ascending, entry, lookup_is_complete, setting_all, setting_is_separate, table_of,
    tables_ascend, with_entries, Duplicate, Mark, SortKey, Table,
};
use crate::text::{dec_int, push_signed, texts, Order};
use vstd::prelude::*;

verus! {

/// A table of names and ids.
pub type Ids = Seq<(Seq<char>, i64)>;

/// A table of groups and the names in them.
pub type Groups = Seq<(Seq<char>, Seq<Seq<char>>)>;

/// A table of ids and names.
pub type Names = Seq<(i64, Seq<char>)>;

/// One game's data.
#[derive(Debug)]
pub struct GamePackage {
    pub item_name_to_id: Table<String, i64>,
    pub location_name_to_id: Table<String, i64>,
    /// Absent in seeds of old generators.
    pub checksum: Option<String>,
    pub item_name_groups: Table<String, Vec<String>>,
    pub location_name_groups: Table<String, Vec<String>>,
    /// The names that are not to be hinted: built in, whatever a seed says.
    pub hint_blacklist: Table<String, Mark>,
}

/// The model of a [`GamePackage`].
#[verifier::ext_equal]
pub struct PackageModel {
    pub items: Ids,
    pub locations: Ids,
    pub checksum: Option<Seq<char>>,
    pub item_groups: Groups,
    pub location_groups: Groups,
    pub blacklist: Seq<(Seq<char>, Mark)>,
}

impl DeepView for GamePackage {
    type V = PackageModel;

    open spec fn deep_view(&self) -> PackageModel {
        PackageModel {
            items: self.item_name_to_id.deep_view(),
            locations: self.location_name_to_id.deep_view(),
            checksum: self.checksum.deep_view(),
            item_groups: self.item_name_groups.deep_view(),
            location_groups: self.location_name_groups.deep_view(),
            blacklist: self.hint_blacklist.deep_view(),
        }
    }
}

/// The package of a game that the seed has nothing of.
pub open spec fn empty_package() -> PackageModel {
    PackageModel {
        items: Seq::empty(),
        locations: Seq::empty(),
        checksum: None,
        item_groups: Seq::empty(),
        location_groups: Seq::empty(),
        blacklist: Seq::empty(),
    }
}

/// Names and ids the other way round; of names with the same id the last counts.
pub open spec fn reversed(ids: Ids) -> Names {
    table_of::<i64, Seq<char>>(Seq::new(ids.len(), |i: int| (ids[i].1, ids[i].0)))
}

/// Whether a package looks like one whose tables were stripped.
pub open spec fn is_stub_model(p: PackageModel) -> bool {
    p.items.len() == 0 && p.locations.len() == 0
}

impl Default for GamePackage {
    fn default() -> (r: GamePackage)
        ensures
            r.deep_view() == empty_package(),
    {
        GamePackage {
            item_name_to_id: Table::new(),
            location_name_to_id: Table::new(),
            checksum: None,
            item_name_groups: Table::new(),
            location_name_groups: Table::new(),
            hint_blacklist: Table::new(),
        }
    }
}

/// Names and ids the other way round.
fn reverse(ids: &Table<String, i64>) -> (r: Table<i64, String>)
    ensures
        r.deep_view() == reversed(ids.deep_view()),
{
    let ghost s = ids.deep_view();
    let ghost pairs = Seq::new(s.len(), |i: int| (s[i].1, s[i].0));
    let mut out: Table<i64, String> = Table::new();
    assert(pairs.take(0) =~= Seq::empty());
    let n: usize = ids.len();
    for i in 0..n
        invariant
            n == s.len(),
            s == ids.deep_view(),
            pairs == Seq::new(s.len(), |i: int| (s[i].1, s[i].0)),
            out.deep_view() == table_of::<i64, Seq<char>>(pairs.take(i as int)),
    {
        assert(pairs.take(i + 1).drop_last() =~= pairs.take(i as int));
        assert(pairs.take(i + 1).last() == (s[i as int].1, s[i as int].0));
        out = out.with(*ids.value_at(i), ids.key_at(i).clone());
    }
    assert(pairs.take(s.len() as int) =~= pairs);
    out
}

/// What a dict of names and ids says; an absent one is empty.
pub open spec fn ids_of(o: Option<Py>, path: Seq<char>) -> Result<Ids, Problem> {
    match o {
        None => Ok(Seq::empty()),
        Some(v) => match dict_of(v, path) {
            Err(e) => Err(e),
            Ok(pairs) => match collect_pairs(
                pairs,
                |k: Py, v: Py| id_pair(k, v, path),
                pairs.len(),
            ) {
                Err(e) => Err(e),
                Ok(s) => Ok(table_of::<String, i64>(s)),
            },
        },
    }
}

/// What a name and an id say.
pub open spec fn id_pair(k: Py, v: Py, path: Seq<char>) -> Result<(Seq<char>, i64), Problem> {
    match str_of(k, path) {
        Err(e) => Err(e),
        Ok(name) => match int_of(v, key_path(path, name)) {
            Err(e) => Err(e),
            Ok(id) => Ok((name, id)),
        },
    }
}

/// What a group and its members say.
pub open spec fn group_pair(k: Py, v: Py, path: Seq<char>) -> Result<
    (Seq<char>, Seq<Seq<char>>),
    Problem,
> {
    match str_of(k, path) {
        Err(e) => Err(e),
        Ok(name) => match seq_of(v, key_path(path, name)) {
            Err(e) => Err(e),
            Ok(items) => match collect(
                items,
                |i: int, o: Py| str_of(o, key_path(path, name)),
                items.len(),
            ) {
                Err(e) => Err(e),
                Ok(members) => Ok((name, members)),
            },
        },
    }
}

/// What a dict of groups says; an absent one is empty.
pub open spec fn groups_of(o: Option<Py>, path: Seq<char>) -> Result<Groups, Problem> {
    match o {
        None => Ok(Seq::empty()),
        Some(v) => match dict_of(v, path) {
            Err(e) => Err(e),
            Ok(pairs) => match collect_pairs(
                pairs,
                |k: Py, v: Py| group_pair(k, v, path),
                pairs.len(),
            ) {
                Err(e) => Err(e),
                Ok(s) => Ok(table_of::<String, Seq<Seq<char>>>(s)),
            },
        },
    }
}

/// What an optional text says.
pub open spec fn opt_str_of(o: Option<Py>, path: Seq<char>) -> Result<Option<Seq<char>>, Problem> {
    match o {
        None => Ok(None),
        Some(v) => match str_of(v, path) {
            Err(e) => Err(e),
            Ok(s) => Ok(Some(s)),
        },
    }
}

/// What a game's package says.
pub open spec fn package_of(o: Py, path: Seq<char>) -> Result<PackageModel, Problem> {
    match ids_of(member(o, "item_name_to_id"@), key_path(path, "item_name_to_id"@)) {
        Err(e) => Err(e),
        Ok(items) => match ids_of(
            member(o, "location_name_to_id"@),
            key_path(path, "location_name_to_id"@),
        ) {
            Err(e) => Err(e),
            Ok(locations) => match opt_str_of(
                member(o, "checksum"@),
                key_path(path, "checksum"@),
            ) {
                Err(e) => Err(e),
                Ok(checksum) => match groups_of(
                    member(o, "item_name_groups"@),
                    key_path(path, "item_name_groups"@),
                ) {
                    Err(e) => Err(e),
                    Ok(item_groups) => match groups_of(
                        member(o, "location_name_groups"@),
                        key_path(path, "location_name_groups"@),
                    ) {
                        Err(e) => Err(e),
                        Ok(location_groups) => Ok(
                            PackageModel {
                                items,
                                locations,
                                checksum,
                                item_groups,
                                location_groups,
                                blacklist: Seq::empty(),
                            },
                        ),
                    },
                },
            },
        },
    }
}

fn read_id_pair(k: &PyObj, v: &PyObj, path: &Path) -> (r: Result<(String, i64), Error>)
    ensures
        match id_pair(k.model(), v.model(), path@) {
            Ok(p) => r matches Ok(x) && (x.0@, x.1) == p,
            Err(e) => r matches Err(x) && x@ == e,
        },
{
    let name = match k.str_(path) {
        Ok(s) => s.clone(),
        Err(e) => {
            return Err(e);
        },
    };
    match v.int_(&path.key(name.as_str())) {
        Ok(id) => Ok((name, id)),
        Err(e) => Err(e),
    }
}

/// Reads a dict of names and ids.
fn read_ids(o: Option<&PyObj>, path: &Path) -> (r: Result<Table<String, i64>, Error>)
    ensures
        match ids_of(o.deep_view(), path@) {
            Ok(s) => r matches Ok(t) && t.deep_view() == s,
            Err(e) => r matches Err(x) && x@ == e,
        },
{
    let v = match o {
        Some(v) => v,
        None => {
            return Ok(Table::new());
        },
    };
    let pairs = match v.dict_(path) {
        Ok(pairs) => pairs,
        Err(e) => {
            return Err(e);
        },
    };
    proof {
        pairs_model_is_deep(*pairs);
    }
    let ghost model = pairs_model(pairs@);
    let ghost f = |k: Py, v: Py| id_pair(k, v, path@);
    let ghost mut read: Ids = Seq::empty();
    let mut out: Table<String, i64> = Table::new();
    for i in 0..pairs.len()
        invariant
            model == pairs_model(pairs@),
            f == (|k: Py, v: Py| id_pair(k, v, path@)),
            v.model() == Py::Dict(model),
            o == Some(v),
            collect_pairs(model, f, i as nat) == Ok::<Ids, Problem>(read),
            out.deep_view() == table_of::<String, i64>(read),
    {
        assert(model[i as int] == (pairs@[i as int].0.model(), pairs@[i as int].1.model()));
        match read_id_pair(&pairs[i].0, &pairs[i].1, path) {
            Ok((name, id)) => {
                proof {
                    let was = read;
                    read = read.push((name@, id));
                    assert(read.drop_last() =~= was);
                }
                out = out.with(name, id);
            },
            Err(e) => {
                proof {
                    assert(collect_pairs(model, f, (i + 1) as nat) == Err::<Ids, Problem>(e@));
                    collect_pairs_stops(model, f, (i + 1) as nat, pairs@.len());
                }
                return Err(e);
            },
        }
    }
    Ok(out)
}

fn read_group_pair(k: &PyObj, v: &PyObj, path: &Path) -> (r: Result<(String, Vec<String>), Error>)
    ensures
        match group_pair(k.model(), v.model(), path@) {
            Ok(p) => r matches Ok(x) && (x.0@, x.1.deep_view()) == p,
            Err(e) => r matches Err(x) && x@ == e,
        },
{
    let name = match k.str_(path) {
        Ok(s) => s.clone(),
        Err(e) => {
            return Err(e);
        },
    };
    let inner = path.key(name.as_str());
    let items = match v.seq(&inner) {
        Ok(items) => items,
        Err(e) => {
            return Err(e);
        },
    };
    proof {
        seq_model_is_deep(*items);
    }
    let ghost model = seq_model(items@);
    let ghost f = |i: int, o: Py| str_of(o, key_path(path@, name@));
    let mut out: Vec<String> = Vec::new();
    assert(out.deep_view() =~= Seq::<Seq<char>>::empty());
    for i in 0..items.len()
        invariant
            model == seq_model(items@),
            inner@ == key_path(path@, name@),
            f == (|i: int, o: Py| str_of(o, key_path(path@, name@))),
            collect(model, f, i as nat) == Ok::<Seq<Seq<char>>, Problem>(out.deep_view()),
            group_pair(k.model(), v.model(), path@) == match collect(model, f, items@.len()) {
                Err(e) => Err::<(Seq<char>, Seq<Seq<char>>), Problem>(e),
                Ok(members) => Ok((name@, members)),
            },
    {
        assert(model[i as int] == items@[i as int].model());
        match items[i].str_(&inner) {
            Ok(s) => {
                let ghost was = out.deep_view();
                out.push(s.clone());
                assert(out.deep_view() =~= was.push(s@));
            },
            Err(e) => {
                proof {
                    assert(collect(model, f, (i + 1) as nat) == Err::<Seq<Seq<char>>, Problem>(e@));
                    collect_stops(model, f, (i + 1) as nat, items@.len());
                }
                return Err(e);
            },
        }
    }
    Ok((name, out))
}

/// Reads a dict of groups.
fn read_groups(o: Option<&PyObj>, path: &Path) -> (r: Result<Table<String, Vec<String>>, Error>)
    ensures
        match groups_of(o.deep_view(), path@) {
            Ok(s) => r matches Ok(t) && t.deep_view() == s,
            Err(e) => r matches Err(x) && x@ == e,
        },
{
    let v = match o {
        Some(v) => v,
        None => {
            return Ok(Table::new());
        },
    };
    let pairs = match v.dict_(path) {
        Ok(pairs) => pairs,
        Err(e) => {
            return Err(e);
        },
    };
    proof {
        pairs_model_is_deep(*pairs);
    }
    let ghost model = pairs_model(pairs@);
    let ghost f = |k: Py, v: Py| group_pair(k, v, path@);
    let ghost mut read: Groups = Seq::empty();
    let mut out: Table<String, Vec<String>> = Table::new();
    for i in 0..pairs.len()
        invariant
            model == pairs_model(pairs@),
            f == (|k: Py, v: Py| group_pair(k, v, path@)),
            v.model() == Py::Dict(model),
            o == Some(v),
            collect_pairs(model, f, i as nat) == Ok::<Groups, Problem>(read),
            out.deep_view() == table_of::<String, Seq<Seq<char>>>(read),
    {
        assert(model[i as int] == (pairs@[i as int].0.model(), pairs@[i as int].1.model()));
        match read_group_pair(&pairs[i].0, &pairs[i].1, path) {
            Ok((name, members)) => {
                proof {
                    let was = read;
                    read = read.push((name@, members.deep_view()));
                    assert(read.drop_last() =~= was);
                }
                out = out.with(name, members);
            },
            Err(e) => {
                proof {
                    assert(collect_pairs(model, f, (i + 1) as nat) == Err::<Groups, Problem>(e@));
                    collect_pairs_stops(model, f, (i + 1) as nat, pairs@.len());
                }
                return Err(e);
            },
        }
    }
    Ok(out)
}

impl GamePackage {
    pub fn from_py(v: &PyObj, path: &Path) -> (r: Result<GamePackage, Error>)
        ensures
            match package_of(v.model(), path@) {
                Ok(p) => r matches Ok(x) && x.deep_view() == p,
                Err(e) => r matches Err(x) && x@ == e,
            },
    {
        let item_name_to_id = match read_ids(v.opt("item_name_to_id"), &path.key("item_name_to_id")) {
            Ok(t) => t,
            Err(e) => {
                return Err(e);
            },
        };
        let location_name_to_id = match read_ids(
            v.opt("location_name_to_id"),
            &path.key("location_name_to_id"),
        ) {
            Ok(t) => t,
            Err(e) => {
                return Err(e);
            },
        };
        let checksum = match v.opt("checksum") {
            None => None,
            Some(c) => match c.str_(&path.key("checksum")) {
                Ok(s) => Some(s.clone()),
                Err(e) => {
                    return Err(e);
                },
            },
        };
        let item_name_groups = match read_groups(
            v.opt("item_name_groups"),
            &path.key("item_name_groups"),
        ) {
            Ok(t) => t,
            Err(e) => {
                return Err(e);
            },
        };
        let location_name_groups = match read_groups(
            v.opt("location_name_groups"),
            &path.key("location_name_groups"),
        ) {
            Ok(t) => t,
            Err(e) => {
                return Err(e);
            },
        };
        Ok(
            GamePackage {
                item_name_to_id,
                location_name_to_id,
                checksum,
                item_name_groups,
                location_name_groups,
                hint_blacklist: Table::new(),
            },
        )
    }

    /// Whether the package looks like one whose tables were stripped.
    pub fn is_stub(&self) -> (r: bool)
        ensures
            r == is_stub_model(self.deep_view()),
    {
        self.item_name_to_id.len() == 0 && self.location_name_to_id.len() == 0
    }
}

/// Name lookups for one game, both ways.
#[derive(Debug)]
pub struct GameNames {
    pub package: GamePackage,
    pub item_by_id: Table<i64, String>,
    pub location_by_id: Table<i64, String>,
}

/// The model of [`GameNames`].
#[verifier::ext_equal]
pub struct NamesModel {
    pub package: PackageModel,
    pub item_by_id: Names,
    pub location_by_id: Names,
}

impl DeepView for GameNames {
    type V = NamesModel;

    open spec fn deep_view(&self) -> NamesModel {
        NamesModel {
            package: self.package.deep_view(),
            item_by_id: self.item_by_id.deep_view(),
            location_by_id: self.location_by_id.deep_view(),
        }
    }
}

/// The name of an id; where it has none, a text that shows the id.
pub open spec fn name_or_id(names: Names, id: i64, what: Seq<char>) -> Seq<char> {
    match entry::<i64, Seq<char>>(names, id) {
        Some(name) => name,
        None => "Unknown "@ + what + " (ID:"@ + dec_int(id as int) + ")"@,
    }
}

/// The name of an id; where it has none, a text that shows the id.
fn find_name(names: &Table<i64, String>, id: i64, what: &str) -> (r: String)
    ensures
        r@ == name_or_id(names.deep_view(), id, what@),
{
    match names.get(&id) {
        Some(name) => name.clone(),
        None => {
            let mut s = "Unknown ".to_string();
            s.append(what);
            s.append(" (ID:");
            push_signed(&mut s, id);
            s.append(")");
            s
        },
    }
}

/// The keys of a table.
pub open spec fn keys<T>(s: Seq<(Seq<char>, T)>) -> Seq<Seq<char>> {
    Seq::new(s.len(), |i: int| s[i].0)
}

/// The texts stand in strictly ascending order.
pub open spec fn rising(s: Seq<Seq<char>>) -> bool {
    forall|i: int, j: int|
        0 <= i < j < s.len() ==> <String as SortKey>::before(#[trigger] s[i], #[trigger] s[j])
}

/// Whether the list is that of the names of both tables: each once, in ascending order.
pub open spec fn is_union(out: Seq<Seq<char>>, a: Seq<Seq<char>>, b: Seq<Seq<char>>) -> bool {
    &&& rising(out)
    &&& forall|k: Seq<char>| #[trigger] out.contains(k) <==> a.contains(k) || b.contains(k)
}

/// Merges the keys of two tables into one ascending list without repetition.
fn union_sorted<A: DeepView, B: DeepView>(a: &Table<String, A>, b: &Table<String, B>) -> (r: Vec<
    String,
>)
    ensures
        is_union(texts(r@), keys(a.deep_view()), keys(b.deep_view())),
{
    a.know_ascending();
    b.know_ascending();
    let ghost x = keys(a.deep_view());
    let ghost y = keys(b.deep_view());
    assert forall|i: int, j: int| 0 <= i < j < x.len() implies <String as SortKey>::before(
        #[trigger] x[i],
        #[trigger] x[j],
    ) by {
        assert(<String as SortKey>::before(a.deep_view()[i].0, a.deep_view()[j].0));
    }
    assert forall|i: int, j: int| 0 <= i < j < y.len() implies <String as SortKey>::before(
        #[trigger] y[i],
        #[trigger] y[j],
    ) by {
        assert(<String as SortKey>::before(b.deep_view()[i].0, b.deep_view()[j].0));
    }
    let m: usize = a.len();
    let n: usize = b.len();
    let mut out: Vec<String> = Vec::new();
    let mut i: usize = 0;
    let mut j: usize = 0;
    while i < m || j < n
        invariant
            x == keys(a.deep_view()),
            y == keys(b.deep_view()),
            m == x.len(),
            n == y.len(),
            i <= m,
            j <= n,
            rising(x),
            rising(y),
            rising(texts(out@)),
            forall|p: int, q: int|
                0 <= p < out@.len() && i <= q < m ==> <String as SortKey>::before(
                    #[trigger] texts(out@)[p],
                    #[trigger] x[q],
                ),
            forall|p: int, q: int|
                0 <= p < out@.len() && j <= q < n ==> <String as SortKey>::before(
                    #[trigger] texts(out@)[p],
                    #[trigger] y[q],
                ),
            forall|k: Seq<char>| #[trigger]
                texts(out@).contains(k) <==> x.take(i as int).contains(k) || y.take(
                    j as int,
                ).contains(k),
        decreases (m - i) + (n - j),
    {
        let ghost was = texts(out@);
        let ghost i0 = i as int;
        let ghost j0 = j as int;
        let step: Order = if i >= m {
            Order::Greater
        } else if j >= n {
            Order::Less
        } else {
            a.key_at(i).compare(b.key_at(j))
        };
        let next: String;
        match step {
            Order::Less => {
                next = a.key_at(i).clone();
                i += 1;
            },
            Order::Greater => {
                next = b.key_at(j).clone();
                j += 1;
            },
            Order::Equal => {
                next = a.key_at(i).clone();
                i += 1;
                j += 1;
            },
        }
        let ghost k = next@;
        out.push(next);
        proof {
            assert(texts(out@) =~= was.push(k));
            assert(step != Order::Greater ==> k == x[i0]);
            assert(step != Order::Less ==> k == y[j0]);
            assert forall|q: int| i <= q < m implies <String as SortKey>::before(k, #[trigger] x[q]) by {
                if step == Order::Greater && i0 < m {
                    <String as SortKey>::order_laws(k, x[i0], x[q]);
                }
            }
            assert forall|q: int| j <= q < n implies <String as SortKey>::before(k, #[trigger] y[q]) by {
                if step == Order::Less && j0 < n {
                    <String as SortKey>::order_laws(k, y[j0], y[q]);
                }
            }
            assert forall|c: Seq<char>| #[trigger] texts(out@).contains(c) <==> x.take(
                i as int,
            ).contains(c) || y.take(j as int).contains(c) by {
                push_contains(was, k, c);
                if i > i0 {
                    assert(x.take(i as int) =~= x.take(i0).push(x[i0]));
                    push_contains(x.take(i0), x[i0], c);
                }
                if j > j0 {
                    assert(y.take(j as int) =~= y.take(j0).push(y[j0]));
                    push_contains(y.take(j0), y[j0], c);
                }
            }
        }
    }
    assert(x.take(m as int) =~= x);
    assert(y.take(n as int) =~= y);
    out
}

/// What a list contains once something is added.
proof fn push_contains(s: Seq<Seq<char>>, k: Seq<char>, c: Seq<char>)
    ensures
        s.push(k).contains(c) <==> s.contains(c) || c == k,
{
    let t = s.push(k);
    if s.contains(c) {
        let i = choose|i: int| 0 <= i < s.len() && s[i] == c;
        assert(t[i] == c);
    }
    if c == k {
        assert(t[s.len() as int] == c);
    }
    if t.contains(c) {
        let i = choose|i: int| 0 <= i < t.len() && t[i] == c;
        if i < s.len() {
            assert(s[i] == c);
        }
    }
}

impl GameNames {
    /// The name of an item.
    pub fn item_name(&self, id: i64) -> (r: String)
        ensures
            r@ == name_or_id(self.deep_view().item_by_id, id, "item"@),
    {
        find_name(&self.item_by_id, id, "item")
    }

    /// The name of a location.
    pub fn location_name(&self, id: i64) -> (r: String)
        ensures
            r@ == name_or_id(self.deep_view().location_by_id, id, "location"@),
    {
        find_name(&self.location_by_id, id, "location")
    }

    pub fn item_id(&self, name: &str) -> (r: Option<i64>)
        ensures
            r == entry::<String, i64>(self.deep_view().package.items, name@),
    {
        match self.package.item_name_to_id.get(&name.to_owned()) {
            Some(id) => Some(*id),
            None => None,
        }
    }

    pub fn location_id(&self, name: &str) -> (r: Option<i64>)
        ensures
            r == entry::<String, i64>(self.deep_view().package.locations, name@),
    {
        match self.package.location_name_to_id.get(&name.to_owned()) {
            Some(id) => Some(*id),
            None => None,
        }
    }

    /// Whether a name may be hinted.
    pub fn is_hintable(&self, name: &str) -> (r: bool)
        ensures
            r == (entry::<String, Mark>(self.deep_view().package.blacklist, name@) is None),
    {
        !self.package.hint_blacklist.contains_key(&name.to_owned())
    }

    /// The names of items and of item groups: each once, in ascending order.
    pub fn item_and_group_names(&self) -> (r: Vec<String>)
        ensures
            is_union(
                texts(r@),
                keys(self.deep_view().package.items),
                keys(self.deep_view().package.item_groups),
            ),
    {
        union_sorted(&self.package.item_name_to_id, &self.package.item_name_groups)
    }

    /// The names of locations and of location groups: each once, in ascending order.
    pub fn location_and_group_names(&self) -> (r: Vec<String>)
        ensures
            is_union(
                texts(r@),
                keys(self.deep_view().package.locations),
                keys(self.deep_view().package.location_groups),
            ),
    {
        union_sorted(&self.package.location_name_to_id, &self.package.location_name_groups)
    }
}

/// The merged name tables of a room.
#[derive(Debug)]
pub struct DataPackage {
    table: Table<String, GameNames>,
}

impl DeepView for DataPackage {
    type V = Seq<(Seq<char>, NamesModel)>;

    closed spec fn deep_view(&self) -> Seq<(Seq<char>, NamesModel)> {
        self.table.deep_view()
    }
}

/// What the merge found, in ascending order.
#[derive(Debug, Clone, PartialEq, Eq)]
pub struct MergeReport {
    /// Games whose tables the seed has.
    pub from_multidata: Vec<String>,
    /// Games whose tables are absent or stripped.
    pub unresolved: Vec<String>,
}

/// The embedded packages of a seed.
pub type Embedded = Seq<(Seq<char>, PackageModel)>;

/// Whether the seed has the tables of a game.
pub open spec fn resolved(embedded: Embedded, game: Seq<char>) -> bool {
    match entry::<String, PackageModel>(embedded, game) {
        Some(p) => !is_stub_model(p),
        None => false,
    }
}

/// The names that a game refuses to hint, as a set.
pub open spec fn blacklist_of(game: Seq<char>) -> Seq<(Seq<char>, Mark)> {
    let names = refused_names(game);
    table_of::<String, Mark>(Seq::new(names.len(), |i: int| (names[i], Mark {  })))
}

/// The package of a game in a room: the seed's, or an empty one, with the built-in blacklist.
pub open spec fn package_for(embedded: Embedded, game: Seq<char>) -> PackageModel {
    let base = if resolved(embedded, game) {
        entry::<String, PackageModel>(embedded, game)->0
    } else {
        empty_package()
    };
    PackageModel { blacklist: blacklist_of(game), ..base }
}

/// The names of the server's own items and locations, as far as a game is extended by them:
/// every other game is, where the server's own pseudo-game is in the room.
pub open spec fn shared_package(
    embedded: Embedded,
    needed: Seq<(Seq<char>, Mark)>,
    game: Seq<char>,
) -> PackageModel {
    if game != "Archipelago"@ && entry::<String, Mark>(needed, "Archipelago"@) is Some {
        package_for(embedded, "Archipelago"@)
    } else {
        empty_package()
    }
}

/// The name lookups of a game in a room.
pub open spec fn names_for(
    embedded: Embedded,
    needed: Seq<(Seq<char>, Mark)>,
    game: Seq<char>,
) -> NamesModel {
    let p = package_for(embedded, game);
    let shared = shared_package(embedded, needed, game);
    NamesModel {
        package: p,
        item_by_id: with_entries::<i64, Seq<char>>(reversed(p.items), reversed(shared.items)),
        location_by_id: with_entries::<i64, Seq<char>>(
            reversed(p.locations),
            reversed(shared.locations),
        ),
    }
}

/// The name lookups of every game in a room.
pub open spec fn merged(embedded: Embedded, needed: Seq<(Seq<char>, Mark)>) -> Seq<
    (Seq<char>, NamesModel),
> {
    Seq::new(needed.len(), |i: int| (needed[i].0, names_for(embedded, needed, needed[i].0)))
}

/// The games in a room whose tables the seed has, or has not.
pub open spec fn games_resolved(
    embedded: Embedded,
    needed: Seq<(Seq<char>, Mark)>,
    yes: bool,
) -> Seq<Seq<char>> {
    keys(needed).filter(|g: Seq<char>| resolved(embedded, g) == yes)
}

/// A copy of a package.
impl Duplicate for GamePackage {
    fn duplicate(&self) -> (r: GamePackage) {
        GamePackage {
            item_name_to_id: self.item_name_to_id.copied(),
            location_name_to_id: self.location_name_to_id.copied(),
            checksum: match &self.checksum {
                Some(c) => Some(c.clone()),
                None => None,
            },
            item_name_groups: self.item_name_groups.copied(),
            location_name_groups: self.location_name_groups.copied(),
            hint_blacklist: self.hint_blacklist.copied(),
        }
    }
}

/// The names that a game refuses to hint, as a set.
fn build_blacklist(game: &str) -> (r: Table<String, Mark>)
    ensures
        r.deep_view() == blacklist_of(game@),
{
    let names = for_game(game);
    let ghost s = refused_names(game@);
    let ghost pairs = Seq::new(s.len(), |i: int| (s[i], Mark {  }));
    let mut out: Table<String, Mark> = Table::new();
    assert(pairs.take(0) =~= Seq::empty());
    for i in 0..names.len()
        invariant
            slices(names@) == s,
            pairs == Seq::new(s.len(), |i: int| (s[i], Mark {  })),
            out.deep_view() == table_of::<String, Mark>(pairs.take(i as int)),
    {
        assert(pairs.take(i + 1).drop_last() =~= pairs.take(i as int));
        assert(slices(names@)[i as int] == names@[i as int]@);
        assert(pairs.take(i + 1).last() == (names@[i as int]@, Mark {  }));
        out = out.with(names[i].to_owned(), Mark {  });
    }
    assert(pairs.take(s.len() as int) =~= pairs);
    out
}

/// The package of a game in a room, and whether it is the seed's.
fn build_package(embedded: &Table<String, GamePackage>, game: &String) -> (r: (GamePackage, bool))
    ensures
        r.0.deep_view() == package_for(embedded.deep_view(), game@),
        r.1 == resolved(embedded.deep_view(), game@),
{
    let mut found: bool = false;
    let mut package = GamePackage::default();
    if let Some(p) = embedded.get(game) {
        if !p.is_stub() {
            found = true;
            package = p.duplicate();
        }
    }
    let ghost base = package.deep_view();
    let package = GamePackage {
        hint_blacklist: build_blacklist(game.as_str()),
        item_name_to_id: package.item_name_to_id,
        location_name_to_id: package.location_name_to_id,
        checksum: package.checksum,
        item_name_groups: package.item_name_groups,
        location_name_groups: package.location_name_groups,
    };
    (package, found)
}

/// What a filter keeps of one element more.
proof fn filter_step(s: Seq<Seq<char>>, i: int, p: spec_fn(Seq<char>) -> bool)
    requires
        0 <= i < s.len(),
    ensures
        s.take(i + 1).filter(p) == if p(s[i]) {
            s.take(i).filter(p).push(s[i])
        } else {
            s.take(i).filter(p)
        },
{
    reveal(Seq::filter);
    assert(s.take(i + 1).drop_last() =~= s.take(i));
}

impl DataPackage {
    pub fn get(&self, game: &str) -> (r: Option<&GameNames>)
        ensures
            r.deep_view() == entry::<String, NamesModel>(self.deep_view(), game@),
    {
        self.table.get(&game.to_owned())
    }

    /// The games in ascending order, with their name lookups.
    pub fn games(&self) -> (r: &Table<String, GameNames>)
        ensures
            r.deep_view() == self.deep_view(),
    {
        &self.table
    }

    pub fn len(&self) -> (r: usize)
        ensures
            r == self.deep_view().len(),
    {
        self.table.len()
    }

    pub fn is_empty(&self) -> (r: bool)
        ensures
            r == (self.deep_view().len() == 0),
    {
        self.table.len() == 0
    }

    /// The checksum of every game that has one, in ascending order of the games.
    pub fn checksums(&self) -> (r: Vec<(String, String)>)
        ensures
            r.deep_view() == checksums_of(self.deep_view(), self.deep_view().len()),
    {
        let ghost s = self.deep_view();
        let n: usize = self.table.len();
        let mut out: Vec<(String, String)> = Vec::new();
        assert(out.deep_view() =~= Seq::<(Seq<char>, Seq<char>)>::empty());
        for i in 0..n
            invariant
                s == self.table.deep_view(),
                n == s.len(),
                out.deep_view() == checksums_of(s, i as nat),
        {
            let names = self.table.value_at(i);
            let ghost was = out.deep_view();
            if let Some(c) = &names.package.checksum {
                out.push((self.table.key_at(i).clone(), c.clone()));
                assert(out.deep_view() =~= was.push((s[i as int].0, c@)));
            }
        }
        out
    }

    /// Builds the name tables for the games that a seed uses.
    pub fn merge(embedded: &Table<String, GamePackage>, needed: &Table<String, Mark>) -> (r: (
        DataPackage,
        MergeReport,
    ))
        ensures
            r.0.deep_view() == merged(embedded.deep_view(), needed.deep_view()),
            texts(r.1.from_multidata@) == games_resolved(
                embedded.deep_view(),
                needed.deep_view(),
                true,
            ),
            texts(r.1.unresolved@) == games_resolved(
                embedded.deep_view(),
                needed.deep_view(),
                false,
            ),
    {
        let ghost e = embedded.deep_view();
        let ghost w = needed.deep_view();
        let ghost yes = |g: Seq<char>| resolved(e, g) == true;
        let ghost no = |g: Seq<char>| resolved(e, g) == false;
        needed.know_ascending();
        let own = "Archipelago".to_string();
        let has_own: bool = needed.contains_key(&own);
        let (own_package, _) = build_package(embedded, &own);
        let own_items = reverse(&own_package.item_name_to_id);
        let own_locations = reverse(&own_package.location_name_to_id);
        let mut games: Table<String, GameNames> = Table::new();
        let mut from_multidata: Vec<String> = Vec::new();
        let mut unresolved: Vec<String> = Vec::new();
        let n: usize = needed.len();
        proof {
            reveal(Seq::filter);
            assert(keys(w).take(0).filter(yes) =~= Seq::<Seq<char>>::empty());
            assert(keys(w).take(0).filter(no) =~= Seq::<Seq<char>>::empty());
            assert(texts(from_multidata@) =~= Seq::<Seq<char>>::empty());
            assert(texts(unresolved@) =~= Seq::<Seq<char>>::empty());
        }
        for i in 0..n
            invariant
                n == w.len(),
                e == embedded.deep_view(),
                w == needed.deep_view(),
                ascending::<String, Mark>(w),
                yes == (|g: Seq<char>| resolved(e, g) == true),
                no == (|g: Seq<char>| resolved(e, g) == false),
                own@ == "Archipelago"@,
                has_own == (entry::<String, Mark>(w, own@) is Some),
                own_items.deep_view() == reversed(package_for(e, own@).items),
                own_locations.deep_view() == reversed(package_for(e, own@).locations),
                games.deep_view() == merged(e, w).take(i as int),
                texts(from_multidata@) == keys(w).take(i as int).filter(yes),
                texts(unresolved@) == keys(w).take(i as int).filter(no),
        {
            let game = needed.key_at(i);
            let ghost g = game@;
            assert(keys(w)[i as int] == g);
            proof {
                filter_step(keys(w), i as int, yes);
                filter_step(keys(w), i as int, no);
            }
            let (package, found) = build_package(embedded, game);
            if found {
                let ghost was = texts(from_multidata@);
                from_multidata.push(game.clone());
                assert(texts(from_multidata@) =~= was.push(g));
            } else {
                let ghost was = texts(unresolved@);
                unresolved.push(game.clone());
                assert(texts(unresolved@) =~= was.push(g));
            }
            let mut item_by_id = reverse(&package.item_name_to_id);
            let mut location_by_id = reverse(&package.location_name_to_id);
            if has_own && !(*game.as_str() == *own.as_str()) {
                item_by_id = item_by_id.with_all(&own_items);
                location_by_id = location_by_id.with_all(&own_locations);
            } else {
                proof {
                    assert(shared_package(e, w, g) == empty_package());
                    assert(reversed(empty_package().items) =~= Seq::<(i64, Seq<char>)>::empty());
                }
            }
            let names = GameNames { package, item_by_id, location_by_id };
            proof {
                assert(names.deep_view() =~= names_for(e, w, g));
                let s = games.deep_view();
                assert forall|j: int| 0 <= j < s.len() implies <String as SortKey>::before(
                    (#[trigger] s[j]).0,
                    g,
                ) by {
                    assert(s[j].0 == w[j].0);
                    assert(<String as SortKey>::before(w[j].0, w[i as int].0));
                }
                appending::<String, NamesModel>(s, g, names.deep_view());
                assert(merged(e, w).take(i + 1) =~= merged(e, w).take(i as int).push(
                    (g, names_for(e, w, g)),
                ));
            }
            games = games.with(game.clone(), names);
        }
        proof {
            assert(merged(e, w).take(n as int) =~= merged(e, w));
            assert(keys(w).take(n as int) =~= keys(w));
        }
        (DataPackage { table: games }, MergeReport { from_multidata, unresolved })
    }

    /// Reads the embedded packages of a seed.
    pub fn embedded_from_py(v: &PyObj, path: &Path) -> (r: Result<
        Table<String, GamePackage>,
        Error,
    >)
        ensures
            match embedded_of(v.model(), path@) {
                Ok(s) => r matches Ok(t) && t.deep_view() == s,
                Err(e) => r matches Err(x) && x@ == e,
            },
    {
        let pairs = match v.dict_(path) {
            Ok(pairs) => pairs,
            Err(e) => {
                return Err(e);
            },
        };
        proof {
            pairs_model_is_deep(*pairs);
        }
        let ghost model = pairs_model(pairs@);
        let ghost f = |k: Py, v: Py| package_pair(k, v, path@);
        let ghost mut read: Embedded = Seq::empty();
        let mut out: Table<String, GamePackage> = Table::new();
        for i in 0..pairs.len()
            invariant
                model == pairs_model(pairs@),
                f == (|k: Py, v: Py| package_pair(k, v, path@)),
                v.model() == Py::Dict(model),
                collect_pairs(model, f, i as nat) == Ok::<Embedded, Problem>(read),
                out.deep_view() == table_of::<String, PackageModel>(read),
        {
            assert(model[i as int] == (pairs@[i as int].0.model(), pairs@[i as int].1.model()));
            match read_package_pair(&pairs[i].0, &pairs[i].1, path) {
                Ok((name, package)) => {
                    proof {
                        let was = read;
                        read = read.push((name@, package.deep_view()));
                        assert(read.drop_last() =~= was);
                    }
                    out = out.with(name, package);
                },
                Err(e) => {
                    proof {
                        assert(collect_pairs(model, f, (i + 1) as nat) == Err::<Embedded, Problem>(
                            e@,
                        ));
                        collect_pairs_stops(model, f, (i + 1) as nat, pairs@.len());
                    }
                    return Err(e);
                },
            }
        }
        Ok(out)
    }
}

/// The checksums of the first `n` games, of those that have one.
pub open spec fn checksums_of(games: Seq<(Seq<char>, NamesModel)>, n: nat) -> Seq<
    (Seq<char>, Seq<char>),
>
    decreases n,
{
    if n == 0 {
        Seq::empty()
    } else {
        let rest = checksums_of(games, (n - 1) as nat);
        match games[n - 1].1.package.checksum {
            Some(c) => rest.push((games[n - 1].0, c)),
            None => rest,
        }
    }
}

/// What a game and its package say.
pub open spec fn package_pair(k: Py, v: Py, path: Seq<char>) -> Result<
    (Seq<char>, PackageModel),
    Problem,
> {
    match str_of(k, path) {
        Err(e) => Err(e),
        Ok(game) => match package_of(v, key_path(path, game)) {
            Err(e) => Err(e),
            Ok(p) => Ok((game, p)),
        },
    }
}

/// What the embedded packages of a seed say.
pub open spec fn embedded_of(o: Py, path: Seq<char>) -> Result<Embedded, Problem> {
    match dict_of(o, path) {
        Err(e) => Err(e),
        Ok(pairs) => match collect_pairs(
            pairs,
            |k: Py, v: Py| package_pair(k, v, path),
            pairs.len(),
        ) {
            Err(e) => Err(e),
            Ok(s) => Ok(table_of::<String, PackageModel>(s)),
        },
    }
}

fn read_package_pair(k: &PyObj, v: &PyObj, path: &Path) -> (r: Result<(String, GamePackage), Error>)
    ensures
        match package_pair(k.model(), v.model(), path@) {
            Ok(p) => r matches Ok(x) && (x.0@, x.1.deep_view()) == p,
            Err(e) => r matches Err(x) && x@ == e,
        },
{
    let game = match k.str_(path) {
        Ok(s) => s.clone(),
        Err(e) => {
            return Err(e);
        },
    };
    match GamePackage::from_py(v, &path.key(game.as_str())) {
        Ok(package) => Ok((game, package)),
        Err(e) => Err(e),
    }
}

/// The blacklist of a game is the built-in one, whatever the seed says.
pub proof fn the_blacklist_is_built_in(embedded: Embedded, game: Seq<char>, name: Seq<char>)
    ensures
        entry::<String, Mark>(package_for(embedded, game).blacklist, name) is Some
            <==> refused_names(game).contains(name),
{
    let names = refused_names(game);
    let pairs = Seq::new(names.len(), |i: int| (names[i], Mark {  }));
    if names.len() > 0 {
        assert(pairs.drop_last() =~= Seq::empty());
        reveal_with_fuel(with_entries, 2);
        setting_is_separate::<String, Mark>(Seq::empty(), names[0], Mark {  }, name);
        assert(names[0] == names[0] && names.contains(names[0]));
    }
}

/// What an id resolves to once the server's own names were put over those of a game.
proof fn shared_id(own: Ids, base: Ids, id: i64)
    ensures
        entry::<i64, Seq<char>>(reversed(own), id) is Some ==> entry::<i64, Seq<char>>(
            with_entries::<i64, Seq<char>>(reversed(base), reversed(own)),
            id,
        ) == entry::<i64, Seq<char>>(reversed(own), id),
{
    let none = Seq::<(i64, Seq<char>)>::empty();
    tables_ascend::<i64, Seq<char>>(none, Seq::new(own.len(), |i: int| (own[i].1, own[i].0)));
    tables_ascend::<i64, Seq<char>>(none, Seq::new(base.len(), |i: int| (base[i].1, base[i].0)));
    setting_all::<i64, Seq<char>>(reversed(base), reversed(own), id);
}

/// The server's own ids have their names in every game of the room: those of its items.
pub proof fn shared_names_resolve_everywhere(
    embedded: Embedded,
    needed: Seq<(Seq<char>, Mark)>,
    game: Seq<char>,
    id: i64,
    name: Seq<char>,
)
    requires
        entry::<String, Mark>(needed, "Archipelago"@) is Some,
        entry::<i64, Seq<char>>(
            reversed(package_for(embedded, "Archipelago"@).items),
            id,
        ) == Some(name),
    ensures
        name_or_id(names_for(embedded, needed, game).item_by_id, id, "item"@) == name,
{
    shared_id(
        package_for(embedded, "Archipelago"@).items,
        package_for(embedded, game).items,
        id,
    );
}

/// The server's own ids have their names in every game of the room: those of its locations.
pub proof fn shared_locations_resolve_everywhere(
    embedded: Embedded,
    needed: Seq<(Seq<char>, Mark)>,
    game: Seq<char>,
    id: i64,
    name: Seq<char>,
)
    requires
        entry::<String, Mark>(needed, "Archipelago"@) is Some,
        entry::<i64, Seq<char>>(
            reversed(package_for(embedded, "Archipelago"@).locations),
            id,
        ) == Some(name),
    ensures
        name_or_id(names_for(embedded, needed, game).location_by_id, id, "location"@) == name,
{
    shared_id(
        package_for(embedded, "Archipelago"@).locations,
        package_for(embedded, game).locations,
        id,
    );
}

/// A name and its id resolve into each other, where no other name has the id.
pub proof fn names_resolve_both_ways(ids: Ids, i: int)
    requires
        ascending::<String, i64>(ids),
        0 <= i < ids.len(),
        forall|j: int| 0 <= j < ids.len() && j != i ==> (#[trigger] ids[j]).1 != ids[i].1,
    ensures
        entry::<String, i64>(ids, ids[i].0) == Some(ids[i].1),
        entry::<i64, Seq<char>>(reversed(ids), ids[i].1) == Some(ids[i].0),
{
    lookup_is_complete::<String, i64>(ids, ids[i].0);
    reversed_finds(ids, ids.len(), i);
    let pairs = Seq::new(ids.len(), |k: int| (ids[k].1, ids[k].0));
    assert(pairs.take(ids.len() as int) =~= pairs);
}

proof fn reversed_finds(ids: Ids, n: nat, i: int)
    requires
        0 <= i < n <= ids.len(),
        forall|j: int| 0 <= j < ids.len() && j != i ==> (#[trigger] ids[j]).1 != ids[i].1,
    ensures
        entry::<i64, Seq<char>>(
            table_of::<i64, Seq<char>>(
                Seq::new(ids.len(), |k: int| (ids[k].1, ids[k].0)).take(n as int),
            ),
            ids[i].1,
        ) == Some(ids[i].0),
    decreases n,
{
    let pairs = Seq::new(ids.len(), |k: int| (ids[k].1, ids[k].0));
    let now = pairs.take(n as int);
    let init = pairs.take(n - 1);
    assert(now.drop_last() =~= init);
    let none = Seq::<(i64, Seq<char>)>::empty();
    tables_ascend::<i64, Seq<char>>(none, init);
    setting_is_separate::<i64, Seq<char>>(
        table_of::<i64, Seq<char>>(init),
        ids[n - 1].1,
        ids[n - 1].0,
        ids[i].1,
    );
    if i < n - 1 {
        reversed_finds(ids, (n - 1) as nat, i);
    }
}

} // verus!
