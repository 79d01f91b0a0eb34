//! A seed and its typed contents.
//!
//! A seed's file is one byte with the format's version, then a compressed pickle. The per-slot
//! data and the server options in it are passed on as they are.

use crate::datastore::ops::{debug_quoted, debug_text};
use crate::multidata::collect::collect;
use crate::multidata::datapackage::{
    embedded_of, merged, games_resolved, DataPackage, Embedded, GamePackage, MergeReport,
};
use crate::multidata::error::{at_path, key_path, outcome, Error, Path, Problem};
use crate::multidata::extract::{at_of, dict_of, int_of, seq_of, str_of, tuple_of, u32_of, Extract};
use crate::multidata::locations::{
    all_locations, greatest_slot, ordered, store_problem, LocationEntry, LocationStore,
};
use crate::multidata::pyobj::{member, seq_model_is_deep, Py, PyObj};
use crate::multidata::readtable::{
    opt_table_from, pair_outcome, read_list, read_opt_table, read_table, table_from, table_outcome,
};
use crate::multidata::types::{
    hint_of, newer, older, slot_of, version_of, version_text, Hint, HintModel, NetworkSlot,
    SlotModel, SlotType, Version,
};
use crate::table::{entry, table_of, Mark, Table};
use crate::text::{dec, push_decimal, texts};
use std::io::Read;
use vstd::prelude::*;
use vstd::slice::slice_subrange;

verus! {

/// The highest format version that is understood.
pub const MAX_FORMAT_VERSION: u8 = 3;

/// The most bytes that a seed's pickle may inflate to.
pub const MAX_PICKLE_BYTES: u64 = 67_108_864;

/// The most items that a seed may hand out before the room starts.
pub const MAX_PRECOLLECTED_ITEMS: usize = 100_000;

/// The one team that a multiworld has.
pub const ONLY_TEAM: u32 = 0;

/// The version that is reported and that seeds are validated against.
pub open spec fn server_version_model() -> Version {
    Version { major: 0, minor: 6, build: 7 }
}

/// The version that is reported and that seeds are validated against.
pub fn server_version() -> (r: Version)
    ensures
        r == server_version_model(),
{
    Version { major: 0, minor: 6, build: 7 }
}

/// The least client version for a seed of a generator with this version: old generators keep an
/// old floor.
pub open spec fn client_floor(generator: Version) -> Version {
    if older(generator, Version { major: 0, minor: 6, build: 2 }) {
        Version { major: 0, minor: 1, build: 6 }
    } else {
        Version { major: 0, minor: 5, build: 0 }
    }
}

fn floor_for(generator: Version) -> (r: Version)
    ensures
        r == client_floor(generator),
{
    if generator.is_older(Version { major: 0, minor: 6, build: 2 }) {
        Version { major: 0, minor: 1, build: 6 }
    } else {
        Version { major: 0, minor: 5, build: 0 }
    }
}

/// A seed.
#[derive(Debug)]
pub struct MultiData {
    pub seed_name: String,
    pub generator_version: Version,
    /// The least server version that the seed demands.
    pub minimum_server_version: Version,
    /// The least client version of a slot, where the seed names one.
    pub minimum_client_versions: Table<u32, Version>,
    pub slot_info: Table<u32, NetworkSlot>,
    /// The team and slot of each name.
    pub connect_names: Table<String, (u32, u32)>,
    pub locations: LocationStore,
    /// Items that are granted before play begins.
    pub precollected_items: Table<u32, Vec<i64>>,
    pub precollected_hints: Table<u32, Vec<Hint>>,
    /// Entrance names for the text of hints.
    pub er_hint_data: Table<u32, Table<i64, String>>,
    pub spheres: Vec<Table<u32, Table<i64, Mark>>>,
    pub race_mode: bool,
    /// Data of each slot that is passed on as it is.
    pub slot_data: Table<u32, PyObj>,
    pub server_options: Option<PyObj>,
    /// The name tables that the seed brings.
    pub embedded_datapackage: Table<String, GamePackage>,
}

/// What a client's version floor says.
pub open spec fn client_pair(k: Py, v: Py, path: Seq<char>, floor: Version) -> Result<
    (u32, Version),
    Problem,
> {
    match u32_of(k, path) {
        Err(e) => Err(e),
        Ok(slot) => match version_of(v, at_path(path, slot as int)) {
            Err(e) => Err(e),
            Ok(version) => Ok((slot, newer(version, floor))),
        },
    }
}

fn read_client(k: &PyObj, v: &PyObj, path: &Path, floor: Version) -> (r: Result<
    (u32, Version),
    Error,
>)
    ensures
        pair_outcome(r) == client_pair(k.model(), v.model(), path@, floor),
{
    let slot: u32 = match k.u32_(path) {
        Ok(n) => n,
        Err(e) => {
            return Err(e);
        },
    };
    match Version::from_py(v, &path.index(slot as u64)) {
        Ok(version) => Ok(
            (
                slot,
                if version.is_older(floor) {
                    floor
                } else {
                    version
                },
            ),
        ),
        Err(e) => Err(e),
    }
}

/// What a slot's number and instance say.
pub open spec fn slot_pair(k: Py, v: Py, path: Seq<char>) -> Result<(u32, SlotModel), Problem> {
    match u32_of(k, path) {
        Err(e) => Err(e),
        Ok(slot) => match slot_of(v, at_path(path, slot as int)) {
            Err(e) => Err(e),
            Ok(info) => Ok((slot, info)),
        },
    }
}

fn read_slot(k: &PyObj, v: &PyObj, path: &Path) -> (r: Result<(u32, NetworkSlot), Error>)
    ensures
        pair_outcome(r) == slot_pair(k.model(), v.model(), path@),
{
    let slot: u32 = match k.u32_(path) {
        Ok(n) => n,
        Err(e) => {
            return Err(e);
        },
    };
    match NetworkSlot::from_py(v, &path.index(slot as u64)) {
        Ok(info) => Ok((slot, info)),
        Err(e) => Err(e),
    }
}

/// What a name and its team and slot say.
pub open spec fn connect_pair(k: Py, v: Py, path: Seq<char>) -> Result<
    (Seq<char>, (u32, u32)),
    Problem,
> {
    match str_of(k, path) {
        Err(e) => Err(e),
        Ok(name) => match tuple_of(v, key_path(path, name), 2) {
            Err(e) => Err(e),
            Ok(pair) => match u32_of(pair[0], at_path(key_path(path, name), 0)) {
                Err(e) => Err(e),
                Ok(team) => match u32_of(pair[1], at_path(key_path(path, name), 1)) {
                    Err(e) => Err(e),
                    Ok(slot) => Ok((name, (team, slot))),
                },
            },
        },
    }
}

fn read_connect(k: &PyObj, v: &PyObj, path: &Path) -> (r: Result<(String, (u32, u32)), Error>)
    ensures
        pair_outcome(r) == connect_pair(k.model(), v.model(), path@),
{
    let name = match k.str_(path) {
        Ok(s) => s.clone(),
        Err(e) => {
            return Err(e);
        },
    };
    let inner = path.key(name.as_str());
    let pair = match v.tuple_n(&inner, 2) {
        Ok(p) => p,
        Err(e) => {
            return Err(e);
        },
    };
    let ghost model = pair.deep_view();
    assert(model[0] == pair@[0].model() && model[1] == pair@[1].model());
    let team: u32 = match pair[0].u32_(&inner.index(0)) {
        Ok(n) => n,
        Err(e) => {
            return Err(e);
        },
    };
    match pair[1].u32_(&inner.index(1)) {
        Ok(slot) => Ok((name, (team, slot))),
        Err(e) => Err(e),
    }
}

/// What a list of integers says.
pub open spec fn int_list_of(o: Py, path: Seq<char>) -> Result<Seq<i64>, Problem> {
    match seq_of(o, path) {
        Err(e) => Err(e),
        Ok(items) => collect(items, |i: int, x: Py| int_of(x, path), items.len()),
    }
}

fn read_int_list(o: &PyObj, path: &Path) -> (r: Result<Vec<i64>, Error>)
    ensures
        outcome(r) == int_list_of(o.model(), path@),
{
    match o.seq(path) {
        Err(e) => Err(e),
        Ok(items) => {
            proof {
                seq_model_is_deep(*items);
            }
            let read = |i: usize, x: &PyObj| -> (r: Result<i64, Error>)
                ensures
                    outcome(r) == int_of(x.model(), path@),
            {
                x.int_(path)
            };
            read_list(items, read, Ghost(|i: int, x: Py| int_of(x, path@)))
        },
    }
}

/// What a slot's number and list of integers say.
pub open spec fn int_list_pair(k: Py, v: Py, path: Seq<char>) -> Result<(u32, Seq<i64>), Problem> {
    match u32_of(k, path) {
        Err(e) => Err(e),
        Ok(slot) => match int_list_of(v, at_path(path, slot as int)) {
            Err(e) => Err(e),
            Ok(items) => Ok((slot, items)),
        },
    }
}

fn read_int_list_pair(k: &PyObj, v: &PyObj, path: &Path) -> (r: Result<(u32, Vec<i64>), Error>)
    ensures
        pair_outcome(r) == int_list_pair(k.model(), v.model(), path@),
{
    let slot: u32 = match k.u32_(path) {
        Ok(n) => n,
        Err(e) => {
            return Err(e);
        },
    };
    match read_int_list(v, &path.index(slot as u64)) {
        Ok(items) => Ok((slot, items)),
        Err(e) => Err(e),
    }
}

/// What a list of hints says.
pub open spec fn hints_of(o: Py, path: Seq<char>) -> Result<Seq<HintModel>, Problem> {
    match seq_of(o, path) {
        Err(e) => Err(e),
        Ok(items) => collect(items, |i: int, x: Py| hint_of(x, at_path(path, i)), items.len()),
    }
}

/// What a slot's number and hints say.
pub open spec fn hints_pair(k: Py, v: Py, path: Seq<char>) -> Result<
    (u32, Seq<HintModel>),
    Problem,
> {
    match u32_of(k, path) {
        Err(e) => Err(e),
        Ok(slot) => match hints_of(v, at_path(path, slot as int)) {
            Err(e) => Err(e),
            Ok(hints) => Ok((slot, hints)),
        },
    }
}

fn read_hints_pair(k: &PyObj, v: &PyObj, path: &Path) -> (r: Result<(u32, Vec<Hint>), Error>)
    ensures
        pair_outcome(r) == hints_pair(k.model(), v.model(), path@),
{
    let slot: u32 = match k.u32_(path) {
        Ok(n) => n,
        Err(e) => {
            return Err(e);
        },
    };
    let inner = path.index(slot as u64);
    let items = match v.seq(&inner) {
        Ok(items) => items,
        Err(e) => {
            return Err(e);
        },
    };
    proof {
        seq_model_is_deep(*items);
    }
    let one = |i: usize, x: &PyObj| -> (r: Result<Hint, Error>)
        ensures
            outcome(r) == hint_of(x.model(), at_path(inner@, i as int)),
    {
        Hint::from_py(x, &inner.index(i as u64))
    };
    let read = read_list(items, one, Ghost(|i: int, x: Py| hint_of(x, at_path(inner@, i))));
    match read {
        Ok(hints) => Ok((slot, hints)),
        Err(e) => Err(e),
    }
}

/// What an entrance's location and name say; a name that is null is empty.
pub open spec fn entrance_pair(k: Py, v: Py, path: Seq<char>) -> Result<(i64, Seq<char>), Problem> {
    let name = match v {
        Py::Nil => Ok(Seq::<char>::empty()),
        _ => str_of(v, path),
    };
    match name {
        Err(e) => Err(e),
        Ok(name) => match int_of(k, path) {
            Err(e) => Err(e),
            Ok(location) => Ok((location, name)),
        },
    }
}

fn read_entrance(k: &PyObj, v: &PyObj, path: &Path) -> (r: Result<(i64, String), Error>)
    ensures
        pair_outcome(r) == entrance_pair(k.model(), v.model(), path@),
{
    let name = match v {
        PyObj::Nil => String::new(),
        _ => match v.str_(path) {
            Ok(s) => s.clone(),
            Err(e) => {
                return Err(e);
            },
        },
    };
    match k.int_(path) {
        Ok(location) => Ok((location, name)),
        Err(e) => Err(e),
    }
}

/// What a slot's number and entrances say.
pub open spec fn entrances_pair(k: Py, v: Py, path: Seq<char>) -> Result<
    (u32, Seq<(i64, Seq<char>)>),
    Problem,
> {
    match u32_of(k, path) {
        Err(e) => Err(e),
        Ok(slot) => {
            let inner = at_path(path, slot as int);
            match table_from::<i64, Seq<char>>(
                v,
                inner,
                |l: Py, n: Py| entrance_pair(l, n, inner),
            ) {
                Err(e) => Err(e),
                Ok(t) => Ok((slot, t)),
            }
        },
    }
}

fn read_entrances(k: &PyObj, v: &PyObj, path: &Path) -> (r: Result<
    (u32, Table<i64, String>),
    Error,
>)
    ensures
        pair_outcome(r) == entrances_pair(k.model(), v.model(), path@),
{
    let slot: u32 = match k.u32_(path) {
        Ok(n) => n,
        Err(e) => {
            return Err(e);
        },
    };
    let inner = path.index(slot as u64);
    let one = |l: &PyObj, n: &PyObj| -> (r: Result<(i64, String), Error>)
        ensures
            pair_outcome(r) == entrance_pair(l.model(), n.model(), inner@),
    {
        read_entrance(l, n, &inner)
    };
    let read = read_table(v, &inner, one, Ghost(|l: Py, n: Py| entrance_pair(l, n, inner@)));
    match read {
        Ok(t) => Ok((slot, t)),
        Err(e) => Err(e),
    }
}

/// A list of integers as a set.
pub open spec fn set_of(items: Seq<i64>) -> Seq<(i64, Mark)> {
    table_of::<i64, Mark>(Seq::new(items.len(), |i: int| (items[i], Mark {  })))
}

/// The set of a list of integers.
fn build_set(items: &Vec<i64>) -> (r: Table<i64, Mark>)
    ensures
        r.deep_view() == set_of(items@),
{
    let ghost pairs = Seq::new(items@.len(), |i: int| (items@[i], Mark {  }));
    let mut out: Table<i64, Mark> = Table::new();
    assert(pairs.take(0) =~= Seq::empty());
    for i in 0..items.len()
        invariant
            pairs == Seq::new(items@.len(), |i: int| (items@[i], Mark {  })),
            out.deep_view() == table_of::<i64, Mark>(pairs.take(i as int)),
    {
        assert(pairs.take(i + 1).drop_last() =~= pairs.take(i as int));
        assert(pairs.take(i + 1).last() == (items@[i as int], Mark {  }));
        out = out.with(items[i], Mark {  });
    }
    assert(pairs.take(items@.len() as int) =~= pairs);
    out
}

/// What a slot's number and locations in a sphere say.
pub open spec fn sphere_pair(k: Py, v: Py, path: Seq<char>) -> Result<
    (u32, Seq<(i64, Mark)>),
    Problem,
> {
    match u32_of(k, path) {
        Err(e) => Err(e),
        Ok(slot) => match int_list_of(v, at_path(path, slot as int)) {
            Err(e) => Err(e),
            Ok(items) => Ok((slot, set_of(items))),
        },
    }
}

fn read_sphere_pair(k: &PyObj, v: &PyObj, path: &Path) -> (r: Result<
    (u32, Table<i64, Mark>),
    Error,
>)
    ensures
        pair_outcome(r) == sphere_pair(k.model(), v.model(), path@),
{
    let slot: u32 = match k.u32_(path) {
        Ok(n) => n,
        Err(e) => {
            return Err(e);
        },
    };
    match read_int_list(v, &path.index(slot as u64)) {
        Ok(items) => {
            assert(items.deep_view() =~= items@);
            Ok((slot, build_set(&items)))
        },
        Err(e) => Err(e),
    }
}

/// A sphere: of each slot, a set of locations.
pub type Sphere = Seq<(u32, Seq<(i64, Mark)>)>;

/// What a sphere says.
pub open spec fn sphere_of(o: Py, path: Seq<char>) -> Result<Sphere, Problem> {
    table_from::<u32, Seq<(i64, Mark)>>(o, path, |k: Py, v: Py| sphere_pair(k, v, path))
}

/// What the spheres say; absent ones are none.
pub open spec fn spheres_of(o: Option<Py>, path: Seq<char>) -> Result<Seq<Sphere>, Problem> {
    match o {
        None => Ok(Seq::empty()),
        Some(v) => match seq_of(v, path) {
            Err(e) => Err(e),
            Ok(items) => collect(
                items,
                |i: int, x: Py| sphere_of(x, at_path(path, i)),
                items.len(),
            ),
        },
    }
}

fn read_sphere(o: &PyObj, path: &Path) -> (r: Result<Table<u32, Table<i64, Mark>>, Error>)
    ensures
        table_outcome(r) == sphere_of(o.model(), path@),
        outcome(r) == sphere_of(o.model(), path@),
{
    let one = |k: &PyObj, v: &PyObj| -> (r: Result<(u32, Table<i64, Mark>), Error>)
        ensures
            pair_outcome(r) == sphere_pair(k.model(), v.model(), path@),
    {
        read_sphere_pair(k, v, path)
    };
    read_table(o, path, one, Ghost(|k: Py, v: Py| sphere_pair(k, v, path@)))
}

fn read_spheres(o: Option<&PyObj>, path: &Path) -> (r: Result<
    Vec<Table<u32, Table<i64, Mark>>>,
    Error,
>)
    ensures
        outcome(r) == spheres_of(o.deep_view(), path@),
{
    let v = match o {
        Some(v) => v,
        None => {
            let none: Vec<Table<u32, Table<i64, Mark>>> = Vec::new();
            assert(none.deep_view() =~= Seq::<Sphere>::empty());
            return Ok(none);
        },
    };
    match v.seq(path) {
        Err(e) => Err(e),
        Ok(items) => {
            proof {
                seq_model_is_deep(*items);
            }
            let one = |i: usize, x: &PyObj| -> (r: Result<Table<u32, Table<i64, Mark>>, Error>)
                ensures
                    outcome(r) == sphere_of(x.model(), at_path(path@, i as int)),
            {
                read_sphere(x, &path.index(i as u64))
            };
            read_list(items, one, Ghost(|i: int, x: Py| sphere_of(x, at_path(path@, i))))
        },
    }
}

/// What a slot's number and data say.
pub open spec fn data_pair(k: Py, v: Py, path: Seq<char>) -> Result<(u32, Py), Problem> {
    match u32_of(k, path) {
        Err(e) => Err(e),
        Ok(slot) => Ok((slot, v)),
    }
}

fn read_data_pair(k: &PyObj, v: &PyObj, path: &Path) -> (r: Result<(u32, PyObj), Error>)
    ensures
        pair_outcome(r) == data_pair(k.model(), v.model(), path@),
{
    match k.u32_(path) {
        Ok(slot) => Ok((slot, v.dup())),
        Err(e) => Err(e),
    }
}

/// The model of a seed, without its locations.
#[verifier::ext_equal]
pub struct SeedModel {
    pub seed_name: Seq<char>,
    pub generator_version: Version,
    pub minimum_server_version: Version,
    pub minimum_client_versions: Seq<(u32, Version)>,
    pub slot_info: Seq<(u32, SlotModel)>,
    pub connect_names: Seq<(Seq<char>, (u32, u32))>,
    pub precollected_items: Seq<(u32, Seq<i64>)>,
    pub precollected_hints: Seq<(u32, Seq<HintModel>)>,
    pub er_hint_data: Seq<(u32, Seq<(i64, Seq<char>)>)>,
    pub spheres: Seq<Sphere>,
    pub race_mode: bool,
    pub slot_data: Seq<(u32, Py)>,
    pub server_options: Option<Py>,
    pub embedded: Embedded,
}

impl MultiData {
    /// The model, without the locations.
    pub open spec fn model(&self) -> SeedModel {
        SeedModel {
            seed_name: self.seed_name@,
            generator_version: self.generator_version,
            minimum_server_version: self.minimum_server_version,
            minimum_client_versions: self.minimum_client_versions.deep_view(),
            slot_info: self.slot_info.deep_view(),
            connect_names: self.connect_names.deep_view(),
            precollected_items: self.precollected_items.deep_view(),
            precollected_hints: self.precollected_hints.deep_view(),
            er_hint_data: self.er_hint_data.deep_view(),
            spheres: self.spheres.deep_view(),
            race_mode: self.race_mode,
            slot_data: self.slot_data.deep_view(),
            server_options: self.server_options.deep_view(),
            embedded: self.embedded_datapackage.deep_view(),
        }
    }
}

/// The first part of a seed: its name and versions.
#[verifier::ext_equal]
pub struct Head {
    pub seed_name: Seq<char>,
    pub generator_version: Version,
    pub minimum_server_version: Version,
    pub minimum_client_versions: Seq<(u32, Version)>,
}

/// What the first part of a seed says.
pub open spec fn head_of(o: Py) -> Result<Head, Problem> {
    let root = Seq::<char>::empty();
    let mv_path = key_path(root, "minimum_versions"@);
    match dict_of(o, root) {
        Err(e) => Err(e),
        Ok(_) => match at_of(o, root, "seed_name"@) {
            Err(e) => Err(e),
            Ok(name) => match str_of(name, key_path(root, "seed_name"@)) {
                Err(e) => Err(e),
                Ok(seed_name) => match at_of(o, root, "version"@) {
                    Err(e) => Err(e),
                    Ok(version) => match version_of(version, key_path(root, "version"@)) {
                        Err(e) => Err(e),
                        Ok(generator_version) => match at_of(o, root, "minimum_versions"@) {
                            Err(e) => Err(e),
                            Ok(mv) => match versions_of(mv, mv_path, generator_version) {
                                Err(e) => Err(e),
                                Ok((minimum_server_version, minimum_client_versions)) => Ok(
                                    Head {
                                        seed_name,
                                        generator_version,
                                        minimum_server_version,
                                        minimum_client_versions,
                                    },
                                ),
                            },
                        },
                    },
                },
            },
        },
    }
}

/// What the least versions of server and clients say.
pub open spec fn versions_of(o: Py, path: Seq<char>, generator: Version) -> Result<
    (Version, Seq<(u32, Version)>),
    Problem,
> {
    let clients_path = key_path(path, "clients"@);
    match at_of(o, path, "server"@) {
        Err(e) => Err(e),
        Ok(server) => match version_of(server, key_path(path, "server"@)) {
            Err(e) => Err(e),
            Ok(minimum) => match opt_table_from::<u32, Version>(
                member(o, "clients"@),
                clients_path,
                |k: Py, v: Py| client_pair(k, v, clients_path, client_floor(generator)),
            ) {
                Err(e) => Err(e),
                Ok(clients) => Ok((minimum, clients)),
            },
        },
    }
}

fn read_versions(o: &PyObj, path: &Path, generator: Version) -> (r: Result<
    (Version, Table<u32, Version>),
    Error,
>)
    ensures
        match versions_of(o.model(), path@, generator) {
            Ok((m, t)) => r matches Ok(x) && x.0 == m && x.1.deep_view() == t,
            Err(e) => r matches Err(x) && x@ == e,
        },
{
    let server = match o.at(path, "server") {
        Ok(v) => v,
        Err(e) => {
            return Err(e);
        },
    };
    let minimum = match Version::from_py(server, &path.key("server")) {
        Ok(v) => v,
        Err(e) => {
            return Err(e);
        },
    };
    let floor = floor_for(generator);
    let clients_path = path.key("clients");
    let one = |k: &PyObj, v: &PyObj| -> (r: Result<(u32, Version), Error>)
        ensures
            pair_outcome(r) == client_pair(k.model(), v.model(), clients_path@, floor),
    {
        read_client(k, v, &clients_path, floor)
    };
    let read = read_opt_table(
        o.opt("clients"),
        &clients_path,
        one,
        Ghost(|k: Py, v: Py| client_pair(k, v, clients_path@, client_floor(generator))),
    );
    match read {
        Ok(t) => Ok((minimum, t)),
        Err(e) => Err(e),
    }
}

/// The second part of a seed: its slots, names and locations.
#[verifier::ext_equal]
pub struct Roster {
    pub slot_info: Seq<(u32, SlotModel)>,
    pub connect_names: Seq<(Seq<char>, (u32, u32))>,
    /// The locations, slot by slot.
    pub locations: Seq<Seq<LocationEntry>>,
    pub max_slot: u32,
}

/// What the second part of a seed says.
pub open spec fn roster_of(o: Py) -> Result<Roster, Problem> {
    let root = Seq::<char>::empty();
    let si_path = key_path(root, "slot_info"@);
    let cn_path = key_path(root, "connect_names"@);
    match at_of(o, root, "slot_info"@) {
        Err(e) => Err(e),
        Ok(si) => match table_from::<u32, SlotModel>(
            si,
            si_path,
            |k: Py, v: Py| slot_pair(k, v, si_path),
        ) {
            Err(e) => Err(e),
            Ok(slot_info) => match at_of(o, root, "connect_names"@) {
                Err(e) => Err(e),
                Ok(cn) => match table_from::<String, (u32, u32)>(
                    cn,
                    cn_path,
                    |k: Py, v: Py| connect_pair(k, v, cn_path),
                ) {
                    Err(e) => Err(e),
                    Ok(connect_names) => match at_of(o, root, "locations"@) {
                        Err(e) => Err(e),
                        Ok(l) => match all_locations(l, key_path(root, "locations"@)) {
                            Err(e) => Err(e),
                            Ok(locations) => Ok(
                                Roster {
                                    slot_info,
                                    connect_names,
                                    locations,
                                    max_slot: greatest_slot(l->Dict_0, l->Dict_0.len()),
                                },
                            ),
                        },
                    },
                },
            },
        },
    }
}

/// Whether a store holds what was read, in order.
pub open spec fn store_holds(store: LocationStore, locations: Seq<Seq<LocationEntry>>, max: u32) -> bool {
    &&& ordered(store@)
    &&& store@.to_multiset() == locations.flatten_alt().to_multiset()
    &&& store.top() == max
}

fn read_roster(v: &PyObj, root: &Path) -> (r: Result<
    (Table<u32, NetworkSlot>, Table<String, (u32, u32)>, LocationStore),
    Error,
>)
    requires
        root@ == Seq::<char>::empty(),
    ensures
        match roster_of(v.model()) {
            Ok(m) => r matches Ok(x) && x.0.deep_view() == m.slot_info && x.1.deep_view()
                == m.connect_names && store_holds(x.2, m.locations, m.max_slot),
            Err(e) => r matches Err(x) && x@ == e,
        },
{
    let si_path = root.key("slot_info");
    let si = match v.at(root, "slot_info") {
        Ok(x) => x,
        Err(e) => {
            return Err(e);
        },
    };
    let one_slot = |k: &PyObj, v: &PyObj| -> (r: Result<(u32, NetworkSlot), Error>)
        ensures
            pair_outcome(r) == slot_pair(k.model(), v.model(), si_path@),
    {
        read_slot(k, v, &si_path)
    };
    let slot_info = match read_table(
        si,
        &si_path,
        one_slot,
        Ghost(|k: Py, v: Py| slot_pair(k, v, si_path@)),
    ) {
        Ok(t) => t,
        Err(e) => {
            return Err(e);
        },
    };
    let cn_path = root.key("connect_names");
    let cn = match v.at(root, "connect_names") {
        Ok(x) => x,
        Err(e) => {
            return Err(e);
        },
    };
    let one_name = |k: &PyObj, v: &PyObj| -> (r: Result<(String, (u32, u32)), Error>)
        ensures
            pair_outcome(r) == connect_pair(k.model(), v.model(), cn_path@),
    {
        read_connect(k, v, &cn_path)
    };
    let connect_names = match read_table(
        cn,
        &cn_path,
        one_name,
        Ghost(|k: Py, v: Py| connect_pair(k, v, cn_path@)),
    ) {
        Ok(t) => t,
        Err(e) => {
            return Err(e);
        },
    };
    let l = match v.at(root, "locations") {
        Ok(x) => x,
        Err(e) => {
            return Err(e);
        },
    };
    match LocationStore::from_py(l, &root.key("locations")) {
        Ok(locations) => Ok((slot_info, connect_names, locations)),
        Err(e) => Err(e),
    }
}

/// How many items the first `n` slots are granted.
pub open spec fn granted(items: Seq<(u32, Seq<i64>)>, n: nat) -> nat
    decreases n,
{
    if n == 0 {
        0
    } else {
        granted(items, (n - 1) as nat) + items[n - 1].1.len()
    }
}

/// A number as a machine word of 64 bits, stopped at the largest.
pub open spec fn capped_u64(n: nat) -> u64 {
    if n > u64::MAX {
        u64::MAX
    } else {
        n as u64
    }
}

/// What the granted items say; too many are refused.
pub open spec fn items_of_slots(o: Option<Py>, path: Seq<char>) -> Result<
    Seq<(u32, Seq<i64>)>,
    Problem,
> {
    match opt_table_from::<u32, Seq<i64>>(o, path, |k: Py, v: Py| int_list_pair(k, v, path)) {
        Err(e) => Err(e),
        Ok(items) => if granted(items, items.len()) > MAX_PRECOLLECTED_ITEMS {
            Err(
                Problem::TooManyPrecollectedItems(
                    capped_u64(granted(items, items.len())),
                    MAX_PRECOLLECTED_ITEMS as u64,
                ),
            )
        } else {
            Ok(items)
        },
    }
}

fn read_items(o: Option<&PyObj>, path: &Path) -> (r: Result<Table<u32, Vec<i64>>, Error>)
    ensures
        match items_of_slots(o.deep_view(), path@) {
            Ok(s) => r matches Ok(t) && t.deep_view() == s,
            Err(e) => r matches Err(x) && x@ == e,
        },
{
    let one = |k: &PyObj, v: &PyObj| -> (r: Result<(u32, Vec<i64>), Error>)
        ensures
            pair_outcome(r) == int_list_pair(k.model(), v.model(), path@),
    {
        read_int_list_pair(k, v, path)
    };
    let items = match read_opt_table(
        o,
        path,
        one,
        Ghost(|k: Py, v: Py| int_list_pair(k, v, path@)),
    ) {
        Ok(t) => t,
        Err(e) => {
            return Err(e);
        },
    };
    let ghost s = items.deep_view();
    let n: usize = items.len();
    let mut total: u64 = 0;
    for i in 0..n
        invariant
            s == items.deep_view(),
            n == s.len(),
            total == capped_u64(granted(s, i as nat)),
    {
        let list = items.value_at(i);
        assert(list.deep_view().len() == list@.len());
        total = total.saturating_add(list.len() as u64);
    }
    if total > MAX_PRECOLLECTED_ITEMS as u64 {
        return Err(
            Error::TooManyPrecollectedItems { found: total, limit: MAX_PRECOLLECTED_ITEMS as u64 },
        );
    }
    Ok(items)
}

/// The third part of a seed: what may be absent.
#[verifier::ext_equal]
pub struct Extras {
    pub precollected_items: Seq<(u32, Seq<i64>)>,
    pub precollected_hints: Seq<(u32, Seq<HintModel>)>,
    pub er_hint_data: Seq<(u32, Seq<(i64, Seq<char>)>)>,
    pub spheres: Seq<Sphere>,
    pub race_mode: bool,
    pub slot_data: Seq<(u32, Py)>,
    pub embedded: Embedded,
}

/// What the race mode says: a number that is not zero; absent, no.
pub open spec fn race_of(o: Option<Py>, path: Seq<char>) -> Result<bool, Problem> {
    match o {
        None => Ok(false),
        Some(v) => match int_of(v, path) {
            Err(e) => Err(e),
            Ok(n) => Ok(n != 0),
        },
    }
}

/// What the embedded packages say; absent, none.
pub open spec fn packages_of(o: Option<Py>, path: Seq<char>) -> Result<Embedded, Problem> {
    match o {
        None => Ok(Seq::empty()),
        Some(v) => embedded_of(v, path),
    }
}

/// What the third part of a seed says.
pub open spec fn extras_of(o: Py) -> Result<Extras, Problem> {
    let root = Seq::<char>::empty();
    let ph = key_path(root, "precollected_hints"@);
    let eh = key_path(root, "er_hint_data"@);
    let sd = key_path(root, "slot_data"@);
    match items_of_slots(member(o, "precollected_items"@), key_path(root, "precollected_items"@)) {
        Err(e) => Err(e),
        Ok(precollected_items) => match opt_table_from::<u32, Seq<HintModel>>(
            member(o, "precollected_hints"@),
            ph,
            |k: Py, v: Py| hints_pair(k, v, ph),
        ) {
            Err(e) => Err(e),
            Ok(precollected_hints) => match opt_table_from::<u32, Seq<(i64, Seq<char>)>>(
                member(o, "er_hint_data"@),
                eh,
                |k: Py, v: Py| entrances_pair(k, v, eh),
            ) {
                Err(e) => Err(e),
                Ok(er_hint_data) => match spheres_of(
                    member(o, "spheres"@),
                    key_path(root, "spheres"@),
                ) {
                    Err(e) => Err(e),
                    Ok(spheres) => match race_of(
                        member(o, "race_mode"@),
                        key_path(root, "race_mode"@),
                    ) {
                        Err(e) => Err(e),
                        Ok(race_mode) => match opt_table_from::<u32, Py>(
                            member(o, "slot_data"@),
                            sd,
                            |k: Py, v: Py| data_pair(k, v, sd),
                        ) {
                            Err(e) => Err(e),
                            Ok(slot_data) => match packages_of(
                                member(o, "datapackage"@),
                                key_path(root, "datapackage"@),
                            ) {
                                Err(e) => Err(e),
                                Ok(embedded) => Ok(
                                    Extras {
                                        precollected_items,
                                        precollected_hints,
                                        er_hint_data,
                                        spheres,
                                        race_mode,
                                        slot_data,
                                        embedded,
                                    },
                                ),
                            },
                        },
                    },
                },
            },
        },
    }
}

/// What a seed says: its model, its locations slot by slot, and its highest slot.
pub open spec fn seed_of(o: Py) -> Result<
    (SeedModel, Seq<Seq<LocationEntry>>, u32),
    Problem,
> {
    match head_of(o) {
        Err(e) => Err(e),
        Ok(h) => match roster_of(o) {
            Err(e) => Err(e),
            Ok(r) => match extras_of(o) {
                Err(e) => Err(e),
                Ok(x) => Ok(
                    (
                        SeedModel {
                            seed_name: h.seed_name,
                            generator_version: h.generator_version,
                            minimum_server_version: h.minimum_server_version,
                            minimum_client_versions: h.minimum_client_versions,
                            slot_info: r.slot_info,
                            connect_names: r.connect_names,
                            precollected_items: x.precollected_items,
                            precollected_hints: x.precollected_hints,
                            er_hint_data: x.er_hint_data,
                            spheres: x.spheres,
                            race_mode: x.race_mode,
                            slot_data: x.slot_data,
                            server_options: member(o, "server_options"@),
                            embedded: x.embedded,
                        },
                        r.locations,
                        r.max_slot,
                    ),
                ),
            },
        },
    }
}

/// Whether a result is what a seed says.
pub open spec fn is_seed(r: Result<MultiData, Error>, o: Py) -> bool {
    match seed_of(o) {
        Ok((m, locations, max)) => r matches Ok(x) && x.model() == m && store_holds(
            x.locations,
            locations,
            max,
        ),
        Err(e) => r matches Err(x) && x@ == e,
    }
}

impl MultiData {
    /// Reads a seed from the value that its pickle holds.
    pub fn from_py(v: &PyObj) -> (r: Result<MultiData, Error>)
        ensures
            is_seed(r, v.model()),
    {
        let root = Path::root();
        if let Err(e) = v.dict_(&root) {
            return Err(e);
        }
        let seed_name = match v.at(&root, "seed_name") {
            Err(e) => {
                return Err(e);
            },
            Ok(x) => match x.str_(&root.key("seed_name")) {
                Ok(s) => s.clone(),
                Err(e) => {
                    return Err(e);
                },
            },
        };
        let generator_version = match v.at(&root, "version") {
            Err(e) => {
                return Err(e);
            },
            Ok(x) => match Version::from_py(x, &root.key("version")) {
                Ok(n) => n,
                Err(e) => {
                    return Err(e);
                },
            },
        };
        let (minimum_server_version, minimum_client_versions) = match v.at(
            &root,
            "minimum_versions",
        ) {
            Err(e) => {
                return Err(e);
            },
            Ok(x) => match read_versions(x, &root.key("minimum_versions"), generator_version) {
                Ok(p) => p,
                Err(e) => {
                    return Err(e);
                },
            },
        };
        let (slot_info, connect_names, locations) = match read_roster(v, &root) {
            Ok(p) => p,
            Err(e) => {
                return Err(e);
            },
        };
        let precollected_items = match read_items(
            v.opt("precollected_items"),
            &root.key("precollected_items"),
        ) {
            Ok(t) => t,
            Err(e) => {
                return Err(e);
            },
        };
        let ph = root.key("precollected_hints");
        let one_hints = |k: &PyObj, v: &PyObj| -> (r: Result<(u32, Vec<Hint>), Error>)
            ensures
                pair_outcome(r) == hints_pair(k.model(), v.model(), ph@),
        {
            read_hints_pair(k, v, &ph)
        };
        let precollected_hints = match read_opt_table(
            v.opt("precollected_hints"),
            &ph,
            one_hints,
            Ghost(|k: Py, v: Py| hints_pair(k, v, ph@)),
        ) {
            Ok(t) => t,
            Err(e) => {
                return Err(e);
            },
        };
        let eh = root.key("er_hint_data");
        let one_entrances = |k: &PyObj, v: &PyObj| -> (r: Result<(u32, Table<i64, String>), Error>)
            ensures
                pair_outcome(r) == entrances_pair(k.model(), v.model(), eh@),
        {
            read_entrances(k, v, &eh)
        };
        let er_hint_data = match read_opt_table(
            v.opt("er_hint_data"),
            &eh,
            one_entrances,
            Ghost(|k: Py, v: Py| entrances_pair(k, v, eh@)),
        ) {
            Ok(t) => t,
            Err(e) => {
                return Err(e);
            },
        };
        let spheres = match read_spheres(v.opt("spheres"), &root.key("spheres")) {
            Ok(t) => t,
            Err(e) => {
                return Err(e);
            },
        };
        let race_mode: bool = match v.opt("race_mode") {
            None => false,
            Some(x) => match x.int_(&root.key("race_mode")) {
                Ok(n) => n != 0,
                Err(e) => {
                    return Err(e);
                },
            },
        };
        let sd = root.key("slot_data");
        let one_data = |k: &PyObj, v: &PyObj| -> (r: Result<(u32, PyObj), Error>)
            ensures
                pair_outcome(r) == data_pair(k.model(), v.model(), sd@),
        {
            read_data_pair(k, v, &sd)
        };
        let slot_data = match read_opt_table(
            v.opt("slot_data"),
            &sd,
            one_data,
            Ghost(|k: Py, v: Py| data_pair(k, v, sd@)),
        ) {
            Ok(t) => t,
            Err(e) => {
                return Err(e);
            },
        };
        let embedded_datapackage = match v.opt("datapackage") {
            None => Table::new(),
            Some(x) => match DataPackage::embedded_from_py(x, &root.key("datapackage")) {
                Ok(t) => t,
                Err(e) => {
                    return Err(e);
                },
            },
        };
        let server_options = match v.opt("server_options") {
            Some(x) => Some(x.dup()),
            None => None,
        };
        Ok(
            MultiData {
                seed_name,
                generator_version,
                minimum_server_version,
                minimum_client_versions,
                slot_info,
                connect_names,
                locations,
                precollected_items,
                precollected_hints,
                er_hint_data,
                spheres,
                race_mode,
                slot_data,
                server_options,
                embedded_datapackage,
            },
        )
    }
}

/// What a zlib stream inflates to, at most `limit` bytes of it, or what is wrong with it.
pub uninterp spec fn inflated(data: Seq<u8>, limit: u64) -> Result<Seq<u8>, Seq<char>>;

/// `flate2::read::ZlibDecoder` over the bytes, read to its end through `Read::take`, which hands
/// out at most `limit` bytes; a broken stream gives the message of the error.
#[verifier::external_body]
fn inflate(data: &[u8], limit: u64) -> (r: Result<Vec<u8>, String>)
    ensures
        match r {
            Ok(b) => inflated(data@, limit) == Ok::<Seq<u8>, Seq<char>>(b@) && b@.len() <= limit,
            Err(s) => inflated(data@, limit) == Err::<Seq<u8>, Seq<char>>(s@),
        },
{
    let mut out = Vec::new();
    match flate2::read::ZlibDecoder::new(data).take(limit).read_to_end(&mut out) {
        Ok(_) => Ok(out),
        Err(e) => Err(e.to_string()),
    }
}

/// What becomes of an inflated stream: one longer than the cap is refused.
pub open spec fn within_cap(stream: Result<Seq<u8>, Seq<char>>) -> Result<Seq<u8>, Problem> {
    match stream {
        Err(s) => Err(Problem::Decompress(s)),
        Ok(b) => if b.len() > MAX_PICKLE_BYTES {
            Err(Problem::PickleTooLarge(MAX_PICKLE_BYTES))
        } else {
            Ok(b)
        },
    }
}

/// Refuses an inflated stream that is broken or longer than the cap.
pub fn cap_pickle(stream: Result<Vec<u8>, String>) -> (r: Result<Vec<u8>, Error>)
    ensures
        match within_cap(
            match stream {
                Ok(b) => Ok(b@),
                Err(s) => Err(s@),
            },
        ) {
            Ok(b) => r matches Ok(x) && x@ == b,
            Err(e) => r matches Err(x) && x@ == e,
        },
{
    match stream {
        Err(s) => Err(Error::Decompress(s)),
        Ok(b) => if b.len() as u64 > MAX_PICKLE_BYTES {
            Err(Error::PickleTooLarge { limit: MAX_PICKLE_BYTES })
        } else {
            Ok(b)
        },
    }
}

/// What a seed's file holds as a pickle. One byte more than the cap is asked for, so that a
/// stream at the cap is told from a longer one.
pub open spec fn pickle_of(raw: Seq<u8>) -> Result<Seq<u8>, Problem> {
    if raw.len() == 0 {
        Err(Problem::Empty)
    } else if raw[0] > MAX_FORMAT_VERSION {
        Err(Problem::UnsupportedFormat(raw[0]))
    } else {
        within_cap(inflated(raw.skip(1), (MAX_PICKLE_BYTES + 1) as u64))
    }
}

/// The slots that a seed's table holds of a type, or of any other.
pub open spec fn slots_of_type(slots: Seq<(u32, SlotModel)>, t: SlotType, same: bool) -> Seq<
    (u32, SlotModel),
> {
    slots.filter(|s: (u32, SlotModel)| (s.1.slot_type == t) == same)
}

/// The games of the slots, and the server's own.
pub open spec fn games_of(slots: Seq<(u32, SlotModel)>) -> Seq<(Seq<char>, Mark)> {
    crate::table::with_entry::<String, Mark>(
        table_of::<String, Mark>(Seq::new(slots.len(), |i: int| (slots[i].1.game, Mark {  }))),
        "Archipelago"@,
        Mark {  },
    )
}

/// The first name from place `i` on that leads nowhere, and what is wrong with it.
pub open spec fn name_problem(m: SeedModel, i: int) -> Option<Problem>
    decreases m.connect_names.len() - i,
{
    if i < 0 || i >= m.connect_names.len() {
        None
    } else {
        let (name, (team, slot)) = m.connect_names[i];
        if entry::<u32, SlotModel>(m.slot_info, slot) is None {
            Some(
                Problem::Locations(
                    "connect_names["@ + debug_quoted(name) + "] points at slot "@ + dec(slot as nat)
                        + ", which has no slot_info"@,
                ),
            )
        } else if team != ONLY_TEAM {
            Some(
                Problem::Locations(
                    "connect_names["@ + debug_quoted(name) + "] is on team "@ + dec(team as nat)
                        + ", and this server serves one team, as the reference does"@,
                ),
            )
        } else {
            name_problem(m, i + 1)
        }
    }
}

/// The first member of a group from place `i` on that is no slot.
pub open spec fn stray_member(slots: Seq<(u32, SlotModel)>, members: Seq<u32>, i: int) -> Option<u32>
    decreases members.len() - i,
{
    if i < 0 || i >= members.len() {
        None
    } else if entry::<u32, SlotModel>(slots, members[i]) is None {
        Some(members[i])
    } else {
        stray_member(slots, members, i + 1)
    }
}

/// The first slot from place `i` on that lists a member that is no slot.
pub open spec fn group_problem(slots: Seq<(u32, SlotModel)>, i: int) -> Option<Problem>
    decreases slots.len() - i,
{
    if i < 0 || i >= slots.len() {
        None
    } else {
        match stray_member(slots, slots[i].1.group_members, 0) {
            Some(m) => Some(
                Problem::Locations(
                    "slot "@ + dec(slots[i].0 as nat) + " lists group member "@ + dec(m as nat)
                        + ", which has no slot_info"@,
                ),
            ),
            None => group_problem(slots, i + 1),
        }
    }
}

/// What is wrong with a seed for a server of this version, if anything.
pub open spec fn seed_problem(
    m: SeedModel,
    locations: Seq<LocationEntry>,
    max_slot: u32,
    server: Version,
) -> Option<Problem> {
    if older(server, m.minimum_server_version) {
        Some(
            Problem::Locations(
                "seed requires a server of at least "@ + version_text(m.minimum_server_version)
                    + " but this is "@ + version_text(server),
            ),
        )
    } else {
        match store_problem(locations, max_slot as int) {
            Some(p) => Some(p),
            None => match name_problem(m, 0) {
                Some(p) => Some(p),
                None => group_problem(m.slot_info, 0),
            },
        }
    }
}

impl MultiData {
    /// The pickle that a seed's file holds.
    pub fn unpack(raw: &Vec<u8>) -> (r: Result<Vec<u8>, Error>)
        ensures
            match pickle_of(raw@) {
                Ok(b) => r matches Ok(x) && x@ == b,
                Err(e) => r matches Err(x) && x@ == e,
            },
    {
        if raw.len() == 0 {
            return Err(Error::Empty);
        }
        if raw[0] > MAX_FORMAT_VERSION {
            return Err(Error::UnsupportedFormat(raw[0]));
        }
        let data = slice_subrange(raw.as_slice(), 1, raw.len());
        assert(data@ =~= raw@.skip(1));
        cap_pickle(inflate(data, MAX_PICKLE_BYTES + 1))
    }

    /// Reads a seed's file: the format byte, the compressed stream, the pickle by `decode`, and
    /// then its contents. A pickle that cannot be decoded is refused with `decode`'s message.
    pub fn parse<F: Fn(&Vec<u8>) -> Result<PyObj, String>>(raw: &Vec<u8>, decode: F) -> (r: Result<
        MultiData,
        Error,
    >)
        requires
            forall|b: &Vec<u8>| #[trigger] decode.requires((b,)),
        ensures
            match pickle_of(raw@) {
                Err(e) => r matches Err(x) && x@ == e,
                Ok(pickle) => exists|b: Vec<u8>, x: Result<PyObj, String>|
                    b@ == pickle && #[trigger] decode.ensures((&b,), x) && match x {
                        Ok(o) => is_seed(r, o.model()),
                        Err(s) => r matches Err(y) && y@ == Problem::Pickle(s@),
                    },
            },
    {
        let pickle = match MultiData::unpack(raw) {
            Ok(p) => p,
            Err(e) => {
                return Err(e);
            },
        };
        match decode(&pickle) {
            Ok(o) => MultiData::from_py(&o),
            Err(s) => Err(Error::Pickle(s)),
        }
    }

    /// Every game that a slot names, and the server's own, which is always there.
    pub fn games(&self) -> (r: Table<String, Mark>)
        ensures
            r.deep_view() == games_of(self.model().slot_info),
    {
        let ghost s = self.slot_info.deep_view();
        let ghost pairs = Seq::new(s.len(), |i: int| (s[i].1.game, Mark {  }));
        let n: usize = self.slot_info.len();
        let mut out: Table<String, Mark> = Table::new();
        assert(pairs.take(0) =~= Seq::empty());
        for i in 0..n
            invariant
                s == self.slot_info.deep_view(),
                n == s.len(),
                pairs == Seq::new(s.len(), |i: int| (s[i].1.game, Mark {  })),
                out.deep_view() == table_of::<String, Mark>(pairs.take(i as int)),
        {
            assert(pairs.take(i + 1).drop_last() =~= pairs.take(i as int));
            assert(pairs.take(i + 1).last() == (s[i as int].1.game, Mark {  }));
            out = out.with(self.slot_info.value_at(i).game.clone(), Mark {  });
        }
        assert(pairs.take(n as int) =~= pairs);
        out.with("Archipelago".to_string(), Mark {  })
    }

    /// The name tables for the games that this seed uses.
    pub fn resolve_datapackage(&self) -> (r: (DataPackage, MergeReport))
        ensures
            r.0.deep_view() == merged(self.model().embedded, games_of(self.model().slot_info)),
            texts(r.1.from_multidata@) == games_resolved(
                self.model().embedded,
                games_of(self.model().slot_info),
                true,
            ),
            texts(r.1.unresolved@) == games_resolved(
                self.model().embedded,
                games_of(self.model().slot_info),
                false,
            ),
    {
        DataPackage::merge(&self.embedded_datapackage, &self.games())
    }

    /// The slots of a type, or of any other, in ascending order.
    fn slots_where(&self, t: SlotType, same: bool) -> (r: Vec<(u32, &NetworkSlot)>)
        ensures
            r.deep_view() == slots_of_type(self.model().slot_info, t, same),
    {
        let ghost s = self.slot_info.deep_view();
        let ghost p = |s: (u32, SlotModel)| (s.1.slot_type == t) == same;
        let n: usize = self.slot_info.len();
        let mut out: Vec<(u32, &NetworkSlot)> = Vec::new();
        proof {
            reveal(Seq::filter);
            assert(s.take(0).filter(p) =~= Seq::<(u32, SlotModel)>::empty());
            assert(out.deep_view() =~= Seq::<(u32, SlotModel)>::empty());
        }
        for i in 0..n
            invariant
                s == self.slot_info.deep_view(),
                n == s.len(),
                p == (|s: (u32, SlotModel)| (s.1.slot_type == t) == same),
                out.deep_view() == s.take(i as int).filter(p),
        {
            proof {
                reveal(Seq::filter);
                assert(s.take(i + 1).drop_last() =~= s.take(i as int));
            }
            let info = self.slot_info.value_at(i);
            if (info.slot_type == t) == same {
                let ghost was = out.deep_view();
                out.push((*self.slot_info.key_at(i), info));
                assert(out.deep_view() =~= was.push(s[i as int]));
            }
        }
        assert(s.take(n as int) =~= s);
        out
    }

    /// Slots that have progress to report: players only.
    pub fn player_slots(&self) -> (r: Vec<(u32, &NetworkSlot)>)
        ensures
            r.deep_view() == slots_of_type(self.model().slot_info, SlotType::Player, true),
    {
        self.slots_where(SlotType::Player, true)
    }

    /// Slots that a client may connect as: all but groups.
    pub fn connectable_slots(&self) -> (r: Vec<(u32, &NetworkSlot)>)
        ensures
            r.deep_view() == slots_of_type(self.model().slot_info, SlotType::Group, false),
    {
        self.slots_where(SlotType::Group, false)
    }

    /// Every team: exactly one.
    pub fn teams(&self) -> (r: Vec<u32>)
        ensures
            r@ == seq![ONLY_TEAM],
    {
        let mut v: Vec<u32> = Vec::new();
        v.push(ONLY_TEAM);
        assert(v@ =~= seq![ONLY_TEAM]);
        v
    }

    /// Every team and slot that a client may connect as, in ascending order.
    pub fn team_slots(&self) -> (r: Vec<(u32, u32)>)
        ensures
            r@ == slots_of_type(self.model().slot_info, SlotType::Group, false).map_values(
                |s: (u32, SlotModel)| (ONLY_TEAM, s.0),
            ),
    {
        let slots = self.connectable_slots();
        let ghost s = slots.deep_view();
        let mut out: Vec<(u32, u32)> = Vec::new();
        for i in 0..slots.len()
            invariant
                s == slots.deep_view(),
                out@.len() == i,
                forall|j: int| 0 <= j < i ==> #[trigger] out@[j] == (ONLY_TEAM, s[j].0),
        {
            assert(s[i as int].0 == slots@[i as int].0);
            out.push((ONLY_TEAM, slots[i].0));
        }
        assert(out@ =~= s.map_values(|s: (u32, SlotModel)| (ONLY_TEAM, s.0)));
        out
    }

    /// The least client version of a slot.
    pub fn min_client_version(&self, slot: u32) -> (r: Version)
        ensures
            r == match entry::<u32, Version>(self.model().minimum_client_versions, slot) {
                Some(v) => v,
                None => client_floor(self.generator_version),
            },
    {
        match self.minimum_client_versions.get(&slot) {
            Some(v) => *v,
            None => floor_for(self.generator_version),
        }
    }

    /// Refuses a seed that cannot be served.
    pub fn validate(&self, server_version: Version) -> (r: Result<(), Error>)
        ensures
            match seed_problem(
                self.model(),
                self.locations@,
                self.locations.top(),
                server_version,
            ) {
                None => r is Ok,
                Some(p) => r matches Err(e) && e@ == p,
            },
    {
        if server_version.is_older(self.minimum_server_version) {
            let mut s = "seed requires a server of at least ".to_string();
            s.append(self.minimum_server_version.to_text().as_str());
            s.append(" but this is ");
            s.append(server_version.to_text().as_str());
            return Err(Error::Locations(s));
        }
        if let Err(e) = self.locations.validate() {
            return Err(e);
        }
        if let Err(e) = self.check_names() {
            return Err(e);
        }
        self.check_groups()
    }

    fn check_names(&self) -> (r: Result<(), Error>)
        ensures
            match name_problem(self.model(), 0) {
                None => r is Ok,
                Some(p) => r matches Err(e) && e@ == p,
            },
    {
        let ghost m = self.model();
        let n: usize = self.connect_names.len();
        let mut i: usize = 0;
        while i < n
            invariant
                m == self.model(),
                n == m.connect_names.len(),
                i <= n,
                name_problem(m, 0) == name_problem(m, i as int),
            decreases n - i,
        {
            let (team, slot) = *self.connect_names.value_at(i);
            if !self.slot_info.contains_key(&slot) {
                let mut s = "connect_names[".to_string();
                s.append(debug_text(self.connect_names.key_at(i).as_str()).as_str());
                s.append("] points at slot ");
                push_decimal(&mut s, slot as u64);
                s.append(", which has no slot_info");
                return Err(Error::Locations(s));
            }
            if team != ONLY_TEAM {
                let mut s = "connect_names[".to_string();
                s.append(debug_text(self.connect_names.key_at(i).as_str()).as_str());
                s.append("] is on team ");
                push_decimal(&mut s, team as u64);
                s.append(", and this server serves one team, as the reference does");
                return Err(Error::Locations(s));
            }
            i += 1;
        }
        Ok(())
    }

    fn check_groups(&self) -> (r: Result<(), Error>)
        ensures
            match group_problem(self.model().slot_info, 0) {
                None => r is Ok,
                Some(p) => r matches Err(e) && e@ == p,
            },
    {
        let ghost slots = self.slot_info.deep_view();
        let n: usize = self.slot_info.len();
        let mut i: usize = 0;
        while i < n
            invariant
                slots == self.slot_info.deep_view(),
                n == slots.len(),
                i <= n,
                group_problem(slots, 0) == group_problem(slots, i as int),
            decreases n - i,
        {
            let info = self.slot_info.value_at(i);
            let mut j: usize = 0;
            while j < info.group_members.len()
                invariant
                    slots == self.slot_info.deep_view(),
                    i < slots.len(),
                    n == slots.len(),
                    info.deep_view() == slots[i as int].1,
                    j <= info.group_members@.len(),
                    stray_member(slots, info.group_members@, 0) == stray_member(
                        slots,
                        info.group_members@,
                        j as int,
                    ),
                    group_problem(slots, 0) == group_problem(slots, i as int),
                decreases info.group_members@.len() - j,
            {
                let m: u32 = info.group_members[j];
                if !self.slot_info.contains_key(&m) {
                    let mut s = "slot ".to_string();
                    push_decimal(&mut s, *self.slot_info.key_at(i) as u64);
                    s.append(" lists group member ");
                    push_decimal(&mut s, m as u64);
                    s.append(", which has no slot_info");
                    return Err(Error::Locations(s));
                }
                j += 1;
            }
            i += 1;
        }
        Ok(())
    }
}

/// A seed that passes leads every name to a slot that it has, on the only team.
pub proof fn names_lead_to_slots(m: SeedModel, i: int, j: int)
    requires
        name_problem(m, i) is None,
        0 <= i <= j < m.connect_names.len(),
    ensures
        entry::<u32, SlotModel>(m.slot_info, m.connect_names[j].1.1) is Some,
        m.connect_names[j].1.0 == ONLY_TEAM,
    decreases j - i,
{
    if i < j {
        names_lead_to_slots(m, i + 1, j);
    }
}

} // verus!
