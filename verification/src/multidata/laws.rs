//! Laws of reading a seed: what stands where in the value that its pickle holds, and where it is
//! found in the seed.

use crate::multidata::collect::{collect, collect_pairs};
use crate::multidata::datapackage::{
    checksums_of, embedded_of, games_resolved, group_pair, groups_of, id_pair, ids_of, keys, merged,
    name_or_id, names_for, names_resolve_both_ways, package_for, package_of, package_pair, resolved,
    reversed, Embedded, GameNames, NamesModel, PackageModel,
};
use crate::multidata::error::{at_path, index_path, key_path, Error, Problem};
use crate::multidata::extract::{int_of, seq_of, str_of, u32_of};
use crate::multidata::locations::{
    a_valid_table_is_unambiguous, all_locations, first_gap, first_repeat, greatest_slot, has_slot,
    location_of, ordered, senders_within, slot_entries, slot_locations, LocationEntry,
};
use crate::multidata::multidata::{
    client_floor, client_pair, connect_pair, data_pair, entrance_pair, entrances_pair, games_of,
    granted, group_problem, hints_of, hints_pair, inflated, int_list_of, int_list_pair, is_seed,
    items_of_slots,
    name_problem, pickle_of, seed_of, seed_problem, set_of, slot_pair, sphere_of, sphere_pair,
    stray_member, MultiData, SeedModel, Sphere,
};
use crate::multidata::pyobj::{member, shown, Py};
use crate::multidata::readtable::table_from;
use crate::multidata::types::{
    client_status_of, hint_of, hint_status_of, identity_of, newer, older, slot_type_of, u32_items,
    version_text, ClientStatus, HintModel, HintStatus, NetworkSlot, SlotModel, SlotType, Version,
};
use crate::table::{
    ascending, entry, setting_all, setting_is_separate, table_of, tables_ascend, with_entries, Mark,
    SortKey,
};
use crate::text::{dec, dec_int, texts};
use vstd::prelude::*;

verus! {

/// What was read of pairs is what was read of each.
proof fn pairs_collected<A>(
    pairs: Seq<(Py, Py)>,
    f: spec_fn(Py, Py) -> Result<A, Problem>,
    n: nat,
    i: int,
)
    requires
        n <= pairs.len(),
        collect_pairs(pairs, f, n) is Ok,
    ensures
        collect_pairs(pairs, f, n)->Ok_0.len() == n,
        0 <= i < n ==> f(pairs[i].0, pairs[i].1) == Ok::<A, Problem>(
            collect_pairs(pairs, f, n)->Ok_0[i],
        ),
    decreases n,
{
    if n > 0 {
        pairs_collected(pairs, f, (n - 1) as nat, i);
    }
}

/// What was read of items is what was read of each.
proof fn items_collected<A>(
    items: Seq<Py>,
    f: spec_fn(int, Py) -> Result<A, Problem>,
    n: nat,
    i: int,
)
    requires
        n <= items.len(),
        collect(items, f, n) is Ok,
    ensures
        collect(items, f, n)->Ok_0.len() == n,
        0 <= i < n ==> f(i, items[i]) == Ok::<A, Problem>(collect(items, f, n)->Ok_0[i]),
    decreases n,
{
    if n > 0 {
        items_collected(items, f, (n - 1) as nat, i);
    }
}

/// A table holds the value of each key, the last of those that are given for it.
pub proof fn a_table_holds_the_last_of_each_key<K: SortKey, T>(entries: Seq<(K::V, T)>, i: int)
    requires
        0 <= i < entries.len(),
        forall|j: int| i < j < entries.len() ==> (#[trigger] entries[j]).0 != entries[i].0,
    ensures
        entry::<K, T>(table_of::<K, T>(entries), entries[i].0) == Some(entries[i].1),
    decreases entries.len(),
{
    let init = entries.drop_last();
    let last = entries.last();
    let none = Seq::<(K::V, T)>::empty();
    tables_ascend::<K, T>(none, init);
    setting_is_separate::<K, T>(
        with_entries::<K, T>(none, init),
        last.0,
        last.1,
        entries[i].0,
    );
    if i < init.len() {
        assert(entries[entries.len() - 1].0 != entries[i].0);
        assert forall|j: int| i < j < init.len() implies (#[trigger] init[j]).0 != init[i].0 by {
            assert(entries[j].0 != entries[i].0);
        }
        a_table_holds_the_last_of_each_key::<K, T>(init, i);
    }
}

/// A pair of a dict, read with a key of its own, is found under that key.
proof fn pair_is_found<K: SortKey, T>(
    pairs: Seq<(Py, Py)>,
    path: Seq<char>,
    f: spec_fn(Py, Py) -> Result<(K::V, T), Problem>,
    i: int,
)
    requires
        table_from::<K, T>(Py::Dict(pairs), path, f) is Ok,
        0 <= i < pairs.len(),
        forall|j: int|
            0 <= j < pairs.len() && j != i && f(pairs[j].0, (#[trigger] pairs[j]).1) is Ok ==> f(
                pairs[j].0,
                pairs[j].1,
            )->Ok_0.0 != f(pairs[i].0, pairs[i].1)->Ok_0.0,
    ensures
        f(pairs[i].0, pairs[i].1) is Ok,
        entry::<K, T>(
            table_from::<K, T>(Py::Dict(pairs), path, f)->Ok_0,
            f(pairs[i].0, pairs[i].1)->Ok_0.0,
        ) == Some(f(pairs[i].0, pairs[i].1)->Ok_0.1),
{
    let s = collect_pairs(pairs, f, pairs.len())->Ok_0;
    pairs_collected(pairs, f, pairs.len(), i);
    assert forall|j: int| i < j < s.len() implies (#[trigger] s[j]).0 != s[i].0 by {
        pairs_collected(pairs, f, pairs.len(), j);
        let p = pairs[j];
    }
    a_table_holds_the_last_of_each_key::<K, T>(s, i);
}

/// What stands in one of some lists stands in all of them together, and the other way round.
proof fn flattened(s: Seq<Seq<LocationEntry>>, e: LocationEntry)
    ensures
        s.flatten_alt().contains(e) <==> exists|a: int|
            0 <= a < s.len() && (#[trigger] s[a]).contains(e),
    decreases s.len(),
{
    if s.len() > 0 {
        let init = s.drop_last();
        let last = s.last();
        flattened(init, e);
        let x = init.flatten_alt();
        let all = x + last;
        assert(all == s.flatten_alt());
        if x.contains(e) {
            let i = choose|i: int| 0 <= i < x.len() && x[i] == e;
            assert(all[i] == e);
            let a = choose|a: int| 0 <= a < init.len() && (#[trigger] init[a]).contains(e);
            assert(s[a].contains(e));
        }
        if last.contains(e) {
            let i = choose|i: int| 0 <= i < last.len() && last[i] == e;
            assert(all[x.len() + i] == e);
            assert(s[s.len() - 1].contains(e));
        }
        if all.contains(e) {
            let i = choose|i: int| 0 <= i < all.len() && all[i] == e;
            if i < x.len() {
                assert(x[i] == e);
            } else {
                assert(last[i - x.len()] == e);
            }
        }
        if exists|a: int| 0 <= a < s.len() && (#[trigger] s[a]).contains(e) {
            let a = choose|a: int| 0 <= a < s.len() && (#[trigger] s[a]).contains(e);
            if a < init.len() {
                assert(init[a].contains(e));
            }
        }
    } else {
        assert(!s.flatten_alt().contains(e));
    }
}

/// What a seed's locations were read from.
proof fn locations_were_read(x: MultiData, o: Py, slots: Seq<(Py, Py)>)
    requires
        is_seed(Ok::<MultiData, Error>(x), o),
        member(o, "locations"@) == Some(Py::Dict(slots)),
    ensures
        all_locations(Py::Dict(slots), key_path(Seq::empty(), "locations"@)) is Ok,
        x.locations@.to_multiset() == all_locations(
            Py::Dict(slots),
            key_path(Seq::empty(), "locations"@),
        )->Ok_0.flatten_alt().to_multiset(),
        x.locations.top() == greatest_slot(slots, slots.len()),
{
}

/// Every location of the seed is in the store. Where the seed's locations have under slot `s` a
/// location `l` with the triple of an item, a player and flags, the store has an entry of sender
/// `s` at location `l` that holds this item, is received by this player and has these flags.
pub proof fn every_location_is_in_the_store(
    x: MultiData,
    o: Py,
    slots: Seq<(Py, Py)>,
    a: int,
    s: i64,
    locations: Seq<(Py, Py)>,
    b: int,
    l: i64,
    triple: Seq<Py>,
    item: i64,
    player: i64,
    flags: i64,
)
    requires
        is_seed(Ok::<MultiData, Error>(x), o),
        member(o, "locations"@) == Some(Py::Dict(slots)),
        0 <= a < slots.len(),
        slots[a] == (Py::Int(s), Py::Dict(locations)),
        0 <= b < locations.len(),
        locations[b] == (Py::Int(l), Py::Tuple(triple)),
        triple == seq![Py::Int(item), Py::Int(player), Py::Int(flags)],
    ensures
        exists|e: LocationEntry| #[trigger]
            x.locations@.contains(e) && e.sender == s && e.location == l && e.item == item
                && e.receiver == player && e.flags == flags,
{
    let path = key_path(Seq::empty(), "locations"@);
    locations_were_read(x, o, slots);
    let all = all_locations(Py::Dict(slots), path)->Ok_0;
    let f = |k: Py, v: Py| slot_locations(path, k, v);
    pairs_collected(slots, f, slots.len(), a);
    assert(slot_locations(path, slots[a].0, slots[a].1) == Ok::<Seq<LocationEntry>, Problem>(all[a]));
    let slot_path = index_path(path, shown(slots[a].0));
    let sender = s as u32;
    let g = |k: Py, t: Py| location_of(sender, slot_path, k, t);
    assert(collect_pairs(locations, g, locations.len()) == Ok::<Seq<LocationEntry>, Problem>(all[a]));
    pairs_collected(locations, g, locations.len(), b);
    let e = all[a][b];
    assert(location_of(sender, slot_path, locations[b].0, locations[b].1) == Ok::<
        LocationEntry,
        Problem,
    >(e));
    assert(triple[0] == Py::Int(item) && triple[1] == Py::Int(player) && triple[2] == Py::Int(
        flags,
    ));
    assert(all[a].contains(e));
    flattened(all, e);
    let flat = all.flatten_alt();
    flat.to_multiset_ensures();
    x.locations@.to_multiset_ensures();
    assert(flat.contains(e));
    assert(flat.to_multiset().count(e) > 0);
    assert(x.locations@.contains(e));
}

/// The store holds nothing that the seed does not: every entry stands in the seed's locations
/// under its sender and its location, with its item, its receiver and its flags.
pub proof fn the_store_holds_what_the_seed_says(
    x: MultiData,
    o: Py,
    slots: Seq<(Py, Py)>,
    e: LocationEntry,
)
    requires
        is_seed(Ok::<MultiData, Error>(x), o),
        member(o, "locations"@) == Some(Py::Dict(slots)),
        x.locations@.contains(e),
    ensures
        exists|a: int, b: int|
            0 <= a < slots.len() && (#[trigger] slots[a]).0 == Py::Int(e.sender as i64)
                && slots[a].1 is Dict && 0 <= b < slots[a].1->Dict_0.len() && (
            #[trigger] slots[a].1->Dict_0[b]).0 == Py::Int(e.location) && says(
                slots[a].1->Dict_0[b].1,
                e.item,
                e.receiver,
                e.flags,
            ),
{
    let path = key_path(Seq::empty(), "locations"@);
    locations_were_read(x, o, slots);
    let all = all_locations(Py::Dict(slots), path)->Ok_0;
    let flat = all.flatten_alt();
    flat.to_multiset_ensures();
    x.locations@.to_multiset_ensures();
    assert(x.locations@.to_multiset().count(e) > 0);
    assert(flat.contains(e));
    flattened(all, e);
    let a = choose|a: int| 0 <= a < all.len() && (#[trigger] all[a]).contains(e);
    let b = choose|b: int| 0 <= b < all[a].len() && all[a][b] == e;
    entry_was_read(path, slots, all, a, b);
    assert(slots[a].1->Dict_0[b].0 == Py::Int(e.location));
}

proof fn entry_was_read(
    path: Seq<char>,
    slots: Seq<(Py, Py)>,
    all: Seq<Seq<LocationEntry>>,
    a: int,
    b: int,
)
    requires
        all_locations(Py::Dict(slots), path) == Ok::<Seq<Seq<LocationEntry>>, Problem>(all),
        0 <= a < all.len(),
        0 <= b < all[a].len(),
    ensures
        a < slots.len(),
        slots[a].0 == Py::Int(all[a][b].sender as i64),
        slots[a].1 is Dict,
        b < slots[a].1->Dict_0.len(),
        slots[a].1->Dict_0[b].0 == Py::Int(all[a][b].location),
        says(slots[a].1->Dict_0[b].1, all[a][b].item, all[a][b].receiver, all[a][b].flags),
{
    let e = all[a][b];
    let f = |k: Py, v: Py| slot_locations(path, k, v);
    pairs_collected(slots, f, slots.len(), a);
    assert(slot_locations(path, slots[a].0, slots[a].1) == Ok::<Seq<LocationEntry>, Problem>(all[a]));
    let slot_path = index_path(path, shown(slots[a].0));
    let sender = slots[a].0->Int_0 as u32;
    let locations = slots[a].1->Dict_0;
    let g = |k: Py, t: Py| location_of(sender, slot_path, k, t);
    assert(collect_pairs(locations, g, locations.len()) == Ok::<Seq<LocationEntry>, Problem>(all[a]));
    pairs_collected(locations, g, locations.len(), b);
    assert(location_of(sender, slot_path, locations[b].0, locations[b].1) == Ok::<
        LocationEntry,
        Problem,
    >(e));
}

/// Whether a value is the three numbers of an item, a player and flags, in that order.
pub open spec fn says(o: Py, item: i64, player: u32, flags: u32) -> bool {
    let three = seq![Py::Int(item), Py::Int(player as i64), Py::Int(flags as i64)];
    match o {
        Py::Tuple(t) => t =~= three,
        Py::List(t) => t =~= three,
        Py::SetOf(t) => t =~= three,
        _ => false,
    }
}

/// The highest slot is that of the greatest number among the keys of the locations.
pub proof fn the_highest_slot_is_the_greatest_key(
    x: MultiData,
    o: Py,
    slots: Seq<(Py, Py)>,
    a: int,
    s: i64,
)
    requires
        is_seed(Ok::<MultiData, Error>(x), o),
        member(o, "locations"@) == Some(Py::Dict(slots)),
        0 <= a < slots.len(),
        slots[a].0 == Py::Int(s),
    ensures
        s <= x.locations.top(),
        exists|b: int|
            0 <= b < slots.len() && (#[trigger] slots[b]).0 == Py::Int(x.locations.top() as i64),
{
    locations_were_read(x, o, slots);
    let path = key_path(Seq::empty(), "locations"@);
    let f = |k: Py, v: Py| slot_locations(path, k, v);
    assert forall|j: int| 0 <= j < slots.len() implies (#[trigger] slots[j]).0 is Int && 0
        < slots[j].0->Int_0 <= u32::MAX by {
        pairs_collected(slots, f, slots.len(), j);
        assert(slot_locations(path, slots[j].0, slots[j].1) is Ok);
    }
    greatest_of(slots, slots.len(), a);
}

proof fn greatest_of(slots: Seq<(Py, Py)>, n: nat, a: int)
    requires
        n <= slots.len(),
        forall|j: int|
            0 <= j < slots.len() ==> (#[trigger] slots[j]).0 is Int && 0 < slots[j].0->Int_0
                <= u32::MAX,
    ensures
        0 <= a < n ==> slots[a].0->Int_0 <= greatest_slot(slots, n),
        n > 0 ==> exists|b: int|
            0 <= b < slots.len() && (#[trigger] slots[b]).0 == Py::Int(
                greatest_slot(slots, n) as i64,
            ),
    decreases n,
{
    if n > 0 {
        let m = (n - 1) as nat;
        greatest_of(slots, m, a);
        assert(slots[m as int].0 is Int);
        if greatest_slot(slots, n) != greatest_slot(slots, m) {
            assert(slots[m as int].0 == Py::Int(greatest_slot(slots, n) as i64));
        }
    }
}

/// The name of a seed and the version of its generator are those that it gives; so is the least
/// server version.
pub proof fn the_head_of_a_seed_is_as_given(
    x: MultiData,
    o: Py,
    name: Seq<char>,
    generator: Seq<Py>,
    least: Py,
    server: Seq<Py>,
    g: (i64, i64, i64),
    v: (i64, i64, i64),
)
    requires
        is_seed(Ok::<MultiData, Error>(x), o),
        member(o, "seed_name"@) == Some(Py::Str(name)),
        member(o, "version"@) == Some(Py::Tuple(generator)),
        generator == seq![Py::Int(g.0), Py::Int(g.1), Py::Int(g.2)],
        member(o, "minimum_versions"@) == Some(least),
        member(least, "server"@) == Some(Py::Tuple(server)),
        server == seq![Py::Int(v.0), Py::Int(v.1), Py::Int(v.2)],
    ensures
        x.seed_name@ == name,
        x.generator_version.major == g.0 && x.generator_version.minor == g.1
            && x.generator_version.build == g.2,
        x.minimum_server_version.major == v.0 && x.minimum_server_version.minor == v.1
            && x.minimum_server_version.build == v.2,
{
    let m = seed_of(o)->Ok_0.0;
    assert(x.model() == m);
    assert(x.seed_name@ == x.model().seed_name);
    assert(generator[0] == Py::Int(g.0) && generator[1] == Py::Int(g.1) && generator[2] == Py::Int(
        g.2,
    ));
    assert(server[0] == Py::Int(v.0) && server[1] == Py::Int(v.1) && server[2] == Py::Int(v.2));
}

/// The least client version of a slot is the one that the seed gives it, but never below the
/// floor: 0.1.6 for a generator older than 0.6.2, and 0.5.0 for any other.
pub proof fn a_client_floor_is_never_undercut(
    x: MultiData,
    o: Py,
    least: Py,
    clients: Seq<(Py, Py)>,
    i: int,
    slot: u32,
    given: Seq<Py>,
    v: (i64, i64, i64),
)
    requires
        is_seed(Ok::<MultiData, Error>(x), o),
        member(o, "minimum_versions"@) == Some(least),
        member(least, "clients"@) == Some(Py::Dict(clients)),
        0 <= i < clients.len(),
        clients[i] == (Py::Int(slot as i64), Py::Tuple(given)),
        given == seq![Py::Int(v.0), Py::Int(v.1), Py::Int(v.2)],
        forall|j: int| 0 <= j < clients.len() && j != i ==> (#[trigger] clients[j]).0 != clients[i].0,
    ensures
        ({
            let old_seed = x.generator_version.major == 0 && (x.generator_version.minor < 6 || (
            x.generator_version.minor == 6 && x.generator_version.build < 2));
            let floor = if old_seed {
                (0int, 1int, 6int)
            } else {
                (0int, 5int, 0int)
            };
            let below = v.0 < floor.0 || (v.0 == floor.0 && (v.1 < floor.1 || (v.1 == floor.1 && v.2
                < floor.2)));
            let r = entry::<u32, Version>(x.model().minimum_client_versions, slot);
            &&& r is Some
            &&& below ==> r->0.major == floor.0 && r->0.minor == floor.1 && r->0.build == floor.2
            &&& !below ==> r->0.major == v.0 && r->0.minor == v.1 && r->0.build == v.2
        }),
{
    let path = key_path(key_path(Seq::empty(), "minimum_versions"@), "clients"@);
    let generator = x.generator_version;
    assert(x.model().generator_version == generator);
    let f = |k: Py, w: Py| client_pair(k, w, path, client_floor(generator));
    assert(table_from::<u32, Version>(Py::Dict(clients), path, f) == Ok::<
        Seq<(u32, Version)>,
        Problem,
    >(x.model().minimum_client_versions));
    assert(given[0] == Py::Int(v.0) && given[1] == Py::Int(v.1) && given[2] == Py::Int(v.2));
    pairs_collected(clients, f, clients.len(), i);
    assert(client_pair(clients[i].0, clients[i].1, path, client_floor(generator)) is Ok);
    pair_is_found::<u32, Version>(clients, path, f, i);
}

/// A slot of the seed is found under its number, with the name, the game, the type and the
/// members of a group that its instance gives, in that order.
pub proof fn a_slot_is_found_as_given(
    x: MultiData,
    o: Py,
    slots: Seq<(Py, Py)>,
    i: int,
    slot: u32,
    args: Seq<Py>,
    name: Seq<char>,
    game: Seq<char>,
    kind: i64,
    members: Seq<Py>,
)
    requires
        is_seed(Ok::<MultiData, Error>(x), o),
        member(o, "slot_info"@) == Some(Py::Dict(slots)),
        0 <= i < slots.len(),
        slots[i] == (Py::Int(slot as i64), Py::Instance("NetUtils"@, "NetworkSlot"@, args)),
        args == seq![
            Py::Str(name),
            Py::Str(game),
            Py::Instance("NetUtils"@, "SlotType"@, seq![Py::Int(kind)]),
            Py::List(members),
        ],
        forall|j: int| 0 <= j < slots.len() && j != i ==> (#[trigger] slots[j]).0 != slots[i].0,
    ensures
        entry::<u32, SlotModel>(x.model().slot_info, slot) matches Some(s) && {
            &&& s.name == name
            &&& s.game == game
            &&& s.slot_type == SlotType::Spectator <==> kind == 0
            &&& s.slot_type == SlotType::Player <==> kind == 1
            &&& s.slot_type == SlotType::Group <==> kind == 2
            &&& s.group_members.len() == members.len()
            &&& forall|k: int|
                0 <= k < members.len() ==> #[trigger] members[k] == Py::Int(
                    s.group_members[k] as i64,
                )
        },
{
    let path = key_path(Seq::empty(), "slot_info"@);
    let f = |k: Py, w: Py| slot_pair(k, w, path);
    assert(table_from::<u32, SlotModel>(Py::Dict(slots), path, f) == Ok::<
        Seq<(u32, SlotModel)>,
        Problem,
    >(x.model().slot_info));
    pairs_collected(slots, f, slots.len(), i);
    assert(slot_pair(slots[i].0, slots[i].1, path) is Ok);
    pair_is_found::<u32, SlotModel>(slots, path, f, i);
    assert(args[0] == Py::Str(name) && args[1] == Py::Str(game) && args[3] == Py::List(members));
    let raw = seq![Py::Int(kind)];
    assert(raw[0] == Py::Int(kind) && raw.len() == 1);
    assert(args[2] == Py::Instance("NetUtils"@, "SlotType"@, raw));
    let inner = key_path(at_path(path, slot as int), "group_members"@);
    let g = |n: int, p: Py| u32_of(p, at_path(inner, n));
    assert(u32_items(members, inner, members.len()) is Ok);
    assert forall|k: int| 0 <= k < members.len() implies #[trigger] members[k] == Py::Int(
        entry::<u32, SlotModel>(x.model().slot_info, slot)->0.group_members[k] as i64,
    ) by {
        items_collected(members, g, members.len(), k);
    }
    items_collected(members, g, members.len(), 0);
}

/// A name leads to the team and the slot that the seed gives it, in that order.
pub proof fn a_name_leads_where_the_seed_says(
    x: MultiData,
    o: Py,
    names: Seq<(Py, Py)>,
    i: int,
    name: Seq<char>,
    pair: Seq<Py>,
    team: i64,
    slot: i64,
)
    requires
        is_seed(Ok::<MultiData, Error>(x), o),
        member(o, "connect_names"@) == Some(Py::Dict(names)),
        0 <= i < names.len(),
        names[i] == (Py::Str(name), Py::Tuple(pair)),
        pair == seq![Py::Int(team), Py::Int(slot)],
        forall|j: int| 0 <= j < names.len() && j != i ==> (#[trigger] names[j]).0 != names[i].0,
    ensures
        entry::<String, (u32, u32)>(x.model().connect_names, name) matches Some(to) && to.0 == team
            && to.1 == slot,
{
    let path = key_path(Seq::empty(), "connect_names"@);
    let f = |k: Py, w: Py| connect_pair(k, w, path);
    assert(table_from::<String, (u32, u32)>(Py::Dict(names), path, f) == Ok::<
        Seq<(Seq<char>, (u32, u32))>,
        Problem,
    >(x.model().connect_names));
    pairs_collected(names, f, names.len(), i);
    assert(connect_pair(names[i].0, names[i].1, path) is Ok);
    assert(pair[0] == Py::Int(team) && pair[1] == Py::Int(slot));
    pair_is_found::<String, (u32, u32)>(names, path, f, i);
}

/// The items that a slot is granted before play begins are those that the seed lists for it, in
/// order.
pub proof fn granted_items_are_as_given(
    x: MultiData,
    o: Py,
    slots: Seq<(Py, Py)>,
    i: int,
    slot: u32,
    items: Seq<Py>,
)
    requires
        is_seed(Ok::<MultiData, Error>(x), o),
        member(o, "precollected_items"@) == Some(Py::Dict(slots)),
        0 <= i < slots.len(),
        slots[i] == (Py::Int(slot as i64), Py::List(items)),
        forall|j: int| 0 <= j < slots.len() && j != i ==> (#[trigger] slots[j]).0 != slots[i].0,
    ensures
        entry::<u32, Seq<i64>>(x.model().precollected_items, slot) matches Some(s) && s.len()
            == items.len() && forall|k: int|
            0 <= k < items.len() ==> #[trigger] items[k] == Py::Int(s[k]),
{
    let path = key_path(Seq::empty(), "precollected_items"@);
    let f = |k: Py, w: Py| int_list_pair(k, w, path);
    assert(table_from::<u32, Seq<i64>>(Py::Dict(slots), path, f) == Ok::<
        Seq<(u32, Seq<i64>)>,
        Problem,
    >(x.model().precollected_items));
    pairs_collected(slots, f, slots.len(), i);
    assert(int_list_pair(slots[i].0, slots[i].1, path) is Ok);
    pair_is_found::<u32, Seq<i64>>(slots, path, f, i);
    let inner = at_path(path, slot as int);
    let g = |n: int, p: Py| int_of(p, inner);
    assert(int_list_of(Py::List(items), inner) is Ok);
    let s = entry::<u32, Seq<i64>>(x.model().precollected_items, slot)->0;
    assert forall|k: int| 0 <= k < items.len() implies #[trigger] items[k] == Py::Int(s[k]) by {
        items_collected(items, g, items.len(), k);
    }
    items_collected(items, g, items.len(), 0);
}

/// A hint that the seed brings has what its instance gives, in that order: who receives, who
/// finds, the location, the item, whether it was found, the entrance, the flags and the status.
pub proof fn a_hint_is_as_given(
    x: MultiData,
    o: Py,
    slots: Seq<(Py, Py)>,
    i: int,
    slot: u32,
    hints: Seq<Py>,
    k: int,
    args: Seq<Py>,
    receiving: i64,
    finding: i64,
    location: i64,
    item: i64,
    found: bool,
    entrance: Seq<char>,
    flags: i64,
    status: i64,
)
    requires
        is_seed(Ok::<MultiData, Error>(x), o),
        member(o, "precollected_hints"@) == Some(Py::Dict(slots)),
        0 <= i < slots.len(),
        slots[i] == (Py::Int(slot as i64), Py::SetOf(hints)),
        forall|j: int| 0 <= j < slots.len() && j != i ==> (#[trigger] slots[j]).0 != slots[i].0,
        0 <= k < hints.len(),
        hints[k] == Py::Instance("NetUtils"@, "Hint"@, args),
        args == seq![
            Py::Int(receiving),
            Py::Int(finding),
            Py::Int(location),
            Py::Int(item),
            Py::Bool(found),
            Py::Str(entrance),
            Py::Int(flags),
            Py::Int(status),
        ],
    ensures
        entry::<u32, Seq<HintModel>>(x.model().precollected_hints, slot) matches Some(s) && {
            &&& s.len() == hints.len()
            &&& s[k].receiving_player == receiving
            &&& s[k].finding_player == finding
            &&& s[k].location == location
            &&& s[k].item == item
            &&& s[k].found == found
            &&& s[k].entrance == entrance
            &&& s[k].item_flags == flags
            &&& s[k].status == HintStatus::Unspecified <==> status == 0
            &&& s[k].status == HintStatus::NoPriority <==> status == 10
            &&& s[k].status == HintStatus::Avoid <==> status == 20
            &&& s[k].status == HintStatus::Priority <==> status == 30
            &&& s[k].status == HintStatus::Found <==> status == 40
        },
{
    let path = key_path(Seq::empty(), "precollected_hints"@);
    let f = |k: Py, w: Py| hints_pair(k, w, path);
    assert(table_from::<u32, Seq<HintModel>>(Py::Dict(slots), path, f) == Ok::<
        Seq<(u32, Seq<HintModel>)>,
        Problem,
    >(x.model().precollected_hints));
    pairs_collected(slots, f, slots.len(), i);
    assert(hints_pair(slots[i].0, slots[i].1, path) is Ok);
    pair_is_found::<u32, Seq<HintModel>>(slots, path, f, i);
    let inner = at_path(path, slot as int);
    let g = |n: int, p: Py| hint_of(p, at_path(inner, n));
    assert(hints_of(Py::SetOf(hints), inner) is Ok);
    items_collected(hints, g, hints.len(), k);
    assert(hint_of(hints[k], at_path(inner, k)) is Ok);
    assert(args.len() == 8);
    assert(args[0] == Py::Int(receiving) && args[1] == Py::Int(finding) && args[2] == Py::Int(
        location,
    ) && args[3] == Py::Int(item) && args[4] == Py::Bool(found) && args[5] == Py::Str(entrance)
        && args[6] == Py::Int(flags) && args[7] == Py::Int(status));
}

/// The entrance of a location of a slot has the name that the seed gives it; one that is null has
/// an empty name.
pub proof fn an_entrance_is_as_given(
    x: MultiData,
    o: Py,
    slots: Seq<(Py, Py)>,
    i: int,
    slot: u32,
    entrances: Seq<(Py, Py)>,
    k: int,
    location: i64,
)
    requires
        is_seed(Ok::<MultiData, Error>(x), o),
        member(o, "er_hint_data"@) == Some(Py::Dict(slots)),
        0 <= i < slots.len(),
        slots[i] == (Py::Int(slot as i64), Py::Dict(entrances)),
        forall|j: int| 0 <= j < slots.len() && j != i ==> (#[trigger] slots[j]).0 != slots[i].0,
        0 <= k < entrances.len(),
        entrances[k].0 == Py::Int(location),
        forall|j: int|
            0 <= j < entrances.len() && j != k ==> (#[trigger] entrances[j]).0 != entrances[k].0,
    ensures
        entry::<u32, Seq<(i64, Seq<char>)>>(x.model().er_hint_data, slot) matches Some(t) && {
            &&& entrances[k].1 matches Py::Str(name) ==> entry::<i64, Seq<char>>(t, location)
                == Some(name)
            &&& entrances[k].1 is Nil ==> entry::<i64, Seq<char>>(t, location) == Some(
                Seq::<char>::empty(),
            )
        },
{
    let path = key_path(Seq::empty(), "er_hint_data"@);
    let f = |k: Py, w: Py| entrances_pair(k, w, path);
    assert(table_from::<u32, Seq<(i64, Seq<char>)>>(Py::Dict(slots), path, f) == Ok::<
        Seq<(u32, Seq<(i64, Seq<char>)>)>,
        Problem,
    >(x.model().er_hint_data));
    pairs_collected(slots, f, slots.len(), i);
    assert(entrances_pair(slots[i].0, slots[i].1, path) is Ok);
    pair_is_found::<u32, Seq<(i64, Seq<char>)>>(slots, path, f, i);
    let inner = at_path(path, slot as int);
    let g = |l: Py, n: Py| entrance_pair(l, n, inner);
    assert(table_from::<i64, Seq<char>>(Py::Dict(entrances), inner, g) is Ok);
    pairs_collected(entrances, g, entrances.len(), k);
    assert(entrance_pair(entrances[k].0, entrances[k].1, inner) is Ok);
    pair_is_found::<i64, Seq<char>>(entrances, inner, g, k);
}

/// The data of a slot is the value that the seed gives it, and the race mode is on where the seed
/// gives a number other than zero.
pub proof fn slot_data_and_race_mode_are_as_given(
    x: MultiData,
    o: Py,
    slots: Seq<(Py, Py)>,
    i: int,
    slot: u32,
)
    requires
        is_seed(Ok::<MultiData, Error>(x), o),
        member(o, "slot_data"@) == Some(Py::Dict(slots)),
        0 <= i < slots.len(),
        slots[i].0 == Py::Int(slot as i64),
        forall|j: int| 0 <= j < slots.len() && j != i ==> (#[trigger] slots[j]).0 != slots[i].0,
    ensures
        entry::<u32, Py>(x.model().slot_data, slot) == Some(slots[i].1),
        member(o, "race_mode"@) is None ==> !x.race_mode,
        member(o, "race_mode"@) matches Some(Py::Int(n)) ==> x.race_mode == (n != 0),
        x.model().server_options == member(o, "server_options"@),
{
    let path = key_path(Seq::empty(), "slot_data"@);
    let f = |k: Py, w: Py| data_pair(k, w, path);
    assert(table_from::<u32, Py>(Py::Dict(slots), path, f) == Ok::<Seq<(u32, Py)>, Problem>(
        x.model().slot_data,
    ));
    pairs_collected(slots, f, slots.len(), i);
    assert(data_pair(slots[i].0, slots[i].1, path) is Ok);
    pair_is_found::<u32, Py>(slots, path, f, i);
    assert(x.race_mode == x.model().race_mode);
}

/// A location is in a sphere of a slot exactly where the seed lists it there.
pub proof fn a_sphere_holds_what_it_lists(
    x: MultiData,
    o: Py,
    spheres: Seq<Py>,
    n: int,
    slots: Seq<(Py, Py)>,
    i: int,
    slot: u32,
    items: Seq<Py>,
    location: i64,
)
    requires
        is_seed(Ok::<MultiData, Error>(x), o),
        member(o, "spheres"@) == Some(Py::List(spheres)),
        0 <= n < spheres.len(),
        spheres[n] == Py::Dict(slots),
        0 <= i < slots.len(),
        slots[i] == (Py::Int(slot as i64), Py::SetOf(items)),
        forall|j: int| 0 <= j < slots.len() && j != i ==> (#[trigger] slots[j]).0 != slots[i].0,
    ensures
        x.model().spheres.len() == spheres.len(),
        entry::<u32, Seq<(i64, Mark)>>(x.model().spheres[n], slot) matches Some(set) && (entry::<
            i64,
            Mark,
        >(set, location) is Some <==> items.contains(Py::Int(location))),
{
    let top = key_path(Seq::empty(), "spheres"@);
    let h = |k: int, p: Py| sphere_of(p, at_path(top, k));
    assert(collect(spheres, h, spheres.len()) == Ok::<Seq<Sphere>, Problem>(x.model().spheres));
    items_collected(spheres, h, spheres.len(), n);
    let path = at_path(top, n);
    assert(sphere_of(spheres[n], path) == Ok::<Sphere, Problem>(x.model().spheres[n]));
    let f = |k: Py, w: Py| sphere_pair(k, w, path);
    pairs_collected(slots, f, slots.len(), i);
    assert(sphere_pair(slots[i].0, slots[i].1, path) is Ok);
    pair_is_found::<u32, Seq<(i64, Mark)>>(slots, path, f, i);
    let inner = at_path(path, slot as int);
    let g = |k: int, p: Py| int_of(p, inner);
    let s = int_list_of(Py::SetOf(items), inner)->Ok_0;
    assert(int_list_of(Py::SetOf(items), inner) is Ok);
    items_collected(items, g, items.len(), 0);
    assert forall|k: int| 0 <= k < items.len() implies #[trigger] items[k] == Py::Int(s[k]) by {
        items_collected(items, g, items.len(), k);
    }
    set_holds(s, location);
    if items.contains(Py::Int(location)) {
        let k = choose|k: int| 0 <= k < items.len() && items[k] == Py::Int(location);
        assert(s[k] == location);
    }
    if s.contains(location) {
        let k = choose|k: int| 0 <= k < s.len() && s[k] == location;
        assert(items[k] == Py::Int(location));
    }
}

/// A set holds what was put into it.
proof fn set_holds(items: Seq<i64>, v: i64)
    ensures
        entry::<i64, Mark>(set_of(items), v) is Some <==> items.contains(v),
    decreases items.len(),
{
    let pairs = Seq::new(items.len(), |i: int| (items[i], Mark {  }));
    let none = Seq::<(i64, Mark)>::empty();
    if items.len() > 0 {
        let rest = items.drop_last();
        let fewer = Seq::new(rest.len(), |i: int| (rest[i], Mark {  }));
        assert(pairs.drop_last() =~= fewer);
        set_holds(rest, v);
        tables_ascend::<i64, Mark>(none, fewer);
        setting_is_separate::<i64, Mark>(
            with_entries::<i64, Mark>(none, fewer),
            items.last(),
            Mark {  },
            v,
        );
        assert(items =~= rest.push(items.last()));
        if rest.contains(v) {
            let k = choose|k: int| 0 <= k < rest.len() && rest[k] == v;
            assert(items[k] == v);
        }
        assert(items[items.len() - 1] == items.last());
        if items.contains(v) && v != items.last() {
            let k = choose|k: int| 0 <= k < items.len() && items[k] == v;
            assert(rest[k] == v);
        }
    }
}

/// A package that the seed brings is found under its game: an item has the id that its own table
/// gives it, a location the id of its own, each group its members in order, and the checksum is
/// the one given.
pub proof fn a_package_is_as_given(
    x: MultiData,
    o: Py,
    games: Seq<(Py, Py)>,
    i: int,
    game: Seq<char>,
    items: Seq<(Py, Py)>,
    locations: Seq<(Py, Py)>,
    a: int,
    b: int,
    item: Seq<char>,
    item_id: i64,
    location: Seq<char>,
    location_id: i64,
)
    requires
        is_seed(Ok::<MultiData, Error>(x), o),
        member(o, "datapackage"@) == Some(Py::Dict(games)),
        0 <= i < games.len(),
        games[i].0 == Py::Str(game),
        forall|j: int| 0 <= j < games.len() && j != i ==> (#[trigger] games[j]).0 != games[i].0,
        member(games[i].1, "item_name_to_id"@) == Some(Py::Dict(items)),
        0 <= a < items.len(),
        items[a] == (Py::Str(item), Py::Int(item_id)),
        forall|j: int| 0 <= j < items.len() && j != a ==> (#[trigger] items[j]).0 != items[a].0,
        member(games[i].1, "location_name_to_id"@) == Some(Py::Dict(locations)),
        0 <= b < locations.len(),
        locations[b] == (Py::Str(location), Py::Int(location_id)),
        forall|j: int|
            0 <= j < locations.len() && j != b ==> (#[trigger] locations[j]).0 != locations[b].0,
    ensures
        entry::<String, PackageModel>(x.model().embedded, game) matches Some(p) && {
            &&& entry::<String, i64>(p.items, item) == Some(item_id)
            &&& entry::<String, i64>(p.locations, location) == Some(location_id)
            &&& member(games[i].1, "checksum"@) is None ==> p.checksum is None
            &&& member(games[i].1, "checksum"@) matches Some(Py::Str(c)) ==> p.checksum == Some(c)
        },
{
    let path = key_path(Seq::empty(), "datapackage"@);
    let f = |k: Py, w: Py| package_pair(k, w, path);
    assert(embedded_of(Py::Dict(games), path) == Ok::<Embedded, Problem>(x.model().embedded));
    assert(table_from::<String, PackageModel>(Py::Dict(games), path, f) == Ok::<Embedded, Problem>(
        x.model().embedded,
    ));
    pairs_collected(games, f, games.len(), i);
    assert(package_pair(games[i].0, games[i].1, path) is Ok);
    pair_is_found::<String, PackageModel>(games, path, f, i);
    let inner = key_path(path, game);
    assert(package_of(games[i].1, inner) is Ok);
    let ip = key_path(inner, "item_name_to_id"@);
    let g = |k: Py, w: Py| id_pair(k, w, ip);
    assert(ids_of(Some(Py::Dict(items)), ip) is Ok);
    assert(table_from::<String, i64>(Py::Dict(items), ip, g) is Ok);
    pairs_collected(items, g, items.len(), a);
    pair_is_found::<String, i64>(items, ip, g, a);
    let lp = key_path(inner, "location_name_to_id"@);
    let h = |k: Py, w: Py| id_pair(k, w, lp);
    assert(ids_of(Some(Py::Dict(locations)), lp) is Ok);
    assert(table_from::<String, i64>(Py::Dict(locations), lp, h) is Ok);
    pairs_collected(locations, h, locations.len(), b);
    pair_is_found::<String, i64>(locations, lp, h, b);
}

/// The groups of a package are those that the seed gives, those of items apart from those of
/// locations.
pub proof fn groups_are_as_given(
    o: Py,
    path: Seq<char>,
    p: PackageModel,
    items: Seq<(Py, Py)>,
    locations: Seq<(Py, Py)>,
    a: int,
    b: int,
    item_group: Seq<char>,
    in_items: Seq<Py>,
    location_group: Seq<char>,
    in_locations: Seq<Py>,
)
    requires
        package_of(o, path) == Ok::<PackageModel, Problem>(p),
        member(o, "item_name_groups"@) == Some(Py::Dict(items)),
        0 <= a < items.len(),
        items[a] == (Py::Str(item_group), Py::List(in_items)),
        forall|j: int| 0 <= j < items.len() && j != a ==> (#[trigger] items[j]).0 != items[a].0,
        member(o, "location_name_groups"@) == Some(Py::Dict(locations)),
        0 <= b < locations.len(),
        locations[b] == (Py::Str(location_group), Py::List(in_locations)),
        forall|j: int|
            0 <= j < locations.len() && j != b ==> (#[trigger] locations[j]).0 != locations[b].0,
    ensures
        entry::<String, Seq<Seq<char>>>(p.item_groups, item_group) matches Some(m) && m.len()
            == in_items.len() && forall|k: int|
            0 <= k < m.len() ==> #[trigger] in_items[k] == Py::Str(m[k]),
        entry::<String, Seq<Seq<char>>>(p.location_groups, location_group) matches Some(m)
            && m.len() == in_locations.len() && forall|k: int|
            0 <= k < m.len() ==> #[trigger] in_locations[k] == Py::Str(m[k]),
{
    let ip = key_path(path, "item_name_groups"@);
    a_group_is_as_given(items, ip, a, item_group, in_items);
    let lp = key_path(path, "location_name_groups"@);
    a_group_is_as_given(locations, lp, b, location_group, in_locations);
}

proof fn a_group_is_as_given(
    pairs: Seq<(Py, Py)>,
    path: Seq<char>,
    a: int,
    group: Seq<char>,
    names: Seq<Py>,
)
    requires
        groups_of(Some(Py::Dict(pairs)), path) is Ok,
        0 <= a < pairs.len(),
        pairs[a] == (Py::Str(group), Py::List(names)),
        forall|j: int| 0 <= j < pairs.len() && j != a ==> (#[trigger] pairs[j]).0 != pairs[a].0,
    ensures
        entry::<String, Seq<Seq<char>>>(
            groups_of(Some(Py::Dict(pairs)), path)->Ok_0,
            group,
        ) matches Some(m) && m.len() == names.len() && forall|k: int|
            0 <= k < m.len() ==> #[trigger] names[k] == Py::Str(m[k]),
{
    let g = |k: Py, w: Py| group_pair(k, w, path);
    assert(table_from::<String, Seq<Seq<char>>>(Py::Dict(pairs), path, g) == groups_of(
        Some(Py::Dict(pairs)),
        path,
    ));
    pairs_collected(pairs, g, pairs.len(), a);
    pair_is_found::<String, Seq<Seq<char>>>(pairs, path, g, a);
    let inner = key_path(path, group);
    let h = |i: int, p: Py| str_of(p, inner);
    let m = group_pair(pairs[a].0, pairs[a].1, path)->Ok_0.1;
    assert(collect(names, h, names.len()) == Ok::<Seq<Seq<char>>, Problem>(m));
    items_collected(names, h, names.len(), 0);
    assert forall|k: int| 0 <= k < m.len() implies #[trigger] names[k] == Py::Str(m[k]) by {
        items_collected(names, h, names.len(), k);
    }
}

/// In a room, the id of an item of a game is shown by the item's name and that of a location by
/// the location's, where the server's own names do not take the id.
pub proof fn ids_are_shown_by_their_own_names(
    embedded: Embedded,
    needed: Seq<(Seq<char>, Mark)>,
    game: Seq<char>,
    p: PackageModel,
    i: int,
    l: int,
)
    requires
        entry::<String, PackageModel>(embedded, game) == Some(p),
        ascending::<String, i64>(p.items),
        ascending::<String, i64>(p.locations),
        entry::<String, Mark>(needed, "Archipelago"@) is None || game == "Archipelago"@,
        0 <= i < p.items.len(),
        forall|j: int| 0 <= j < p.items.len() && j != i ==> (#[trigger] p.items[j]).1 != p.items[i].1,
        0 <= l < p.locations.len(),
        forall|j: int|
            0 <= j < p.locations.len() && j != l ==> (#[trigger] p.locations[j]).1
                != p.locations[l].1,
    ensures
        ({
            let n = names_for(embedded, needed, game);
            &&& name_or_id(n.item_by_id, p.items[i].1, "item"@) == p.items[i].0
            &&& name_or_id(n.location_by_id, p.locations[l].1, "location"@) == p.locations[l].0
            &&& entry::<String, i64>(n.package.items, p.items[i].0) == Some(p.items[i].1)
            &&& entry::<String, i64>(n.package.locations, p.locations[l].0) == Some(
                p.locations[l].1,
            )
        }),
{
    names_resolve_both_ways(p.items, i);
    names_resolve_both_ways(p.locations, l);
    let none = Seq::<(Seq<char>, i64)>::empty();
    let back = Seq::new(none.len(), |k: int| (none[k].1, none[k].0));
    assert(back =~= Seq::<(i64, Seq<char>)>::empty());
}

/// A game counts as resolved where the seed brings it with a name of an item or a location, and
/// every game of the room counts as resolved or as unresolved, never as both.
pub proof fn a_game_is_resolved_by_its_tables(
    embedded: Embedded,
    needed: Seq<(Seq<char>, Mark)>,
    game: Seq<char>,
)
    ensures
        games_resolved(embedded, needed, true).contains(game) <==> keys(needed).contains(game) && (
        entry::<String, PackageModel>(embedded, game) matches Some(p) && (p.items.len() > 0
            || p.locations.len() > 0)),
        games_resolved(embedded, needed, false).contains(game) <==> keys(needed).contains(game)
            && !games_resolved(embedded, needed, true).contains(game),
{
    let k = keys(needed);
    let yes = |g: Seq<char>| resolved(embedded, g) == true;
    let no = |g: Seq<char>| resolved(embedded, g) == false;
    filter_holds(k, yes, game);
    filter_holds(k, no, game);
}

/// What a filter keeps is what passes.
proof fn filter_holds<A>(s: Seq<A>, p: spec_fn(A) -> bool, v: A)
    ensures
        s.filter(p).contains(v) <==> s.contains(v) && p(v),
{
    let f = s.filter(p);
    if f.contains(v) {
        let i = choose|i: int| 0 <= i < f.len() && f[i] == v;
        s.lemma_filter_pred(p, i);
        s.lemma_filter_contains_rev(p, v);
    }
    if s.contains(v) && p(v) {
        let i = choose|i: int| 0 <= i < s.len() && s[i] == v;
        s.lemma_filter_contains(p, i);
    }
}

/// The players are the slots of that type, and the slots that a client may connect as are all but
/// the groups.
pub proof fn slots_are_listed_by_their_type(
    x: MultiData,
    players: Vec<(u32, &NetworkSlot)>,
    connectable: Vec<(u32, &NetworkSlot)>,
    s: (u32, SlotModel),
)
    requires
        call_ensures(MultiData::player_slots, (&x,), players),
        call_ensures(MultiData::connectable_slots, (&x,), connectable),
    ensures
        players.deep_view().contains(s) <==> x.model().slot_info.contains(s) && s.1.slot_type
            == SlotType::Player,
        connectable.deep_view().contains(s) <==> x.model().slot_info.contains(s) && s.1.slot_type
            != SlotType::Group,
{
    filter_holds(
        x.model().slot_info,
        |s: (u32, SlotModel)| (s.1.slot_type == SlotType::Player) == true,
        s,
    );
    filter_holds(
        x.model().slot_info,
        |s: (u32, SlotModel)| (s.1.slot_type == SlotType::Group) == false,
        s,
    );
}

/// The games of a seed are those of its slots, and the server's own.
pub proof fn the_games_are_those_of_the_slots(slots: Seq<(u32, SlotModel)>, game: Seq<char>)
    ensures
        entry::<String, Mark>(games_of(slots), game) is Some <==> game == "Archipelago"@
            || exists|i: int| 0 <= i < slots.len() && (#[trigger] slots[i]).1.game == game,
{
    let pairs = Seq::new(slots.len(), |i: int| (slots[i].1.game, Mark {  }));
    let none = Seq::<(Seq<char>, Mark)>::empty();
    marks_hold(pairs, game);
    tables_ascend::<String, Mark>(none, pairs);
    setting_is_separate::<String, Mark>(
        table_of::<String, Mark>(pairs),
        "Archipelago"@,
        Mark {  },
        game,
    );
    if exists|i: int| 0 <= i < slots.len() && (#[trigger] slots[i]).1.game == game {
        let i = choose|i: int| 0 <= i < slots.len() && (#[trigger] slots[i]).1.game == game;
        assert(pairs[i].0 == game);
    }
    if exists|i: int| 0 <= i < pairs.len() && (#[trigger] pairs[i]).0 == game {
        let i = choose|i: int| 0 <= i < pairs.len() && (#[trigger] pairs[i]).0 == game;
        assert(slots[i].1.game == game);
    }
}

/// A table has a key exactly where one of its entries has it.
proof fn marks_hold(pairs: Seq<(Seq<char>, Mark)>, k: Seq<char>)
    ensures
        entry::<String, Mark>(table_of::<String, Mark>(pairs), k) is Some <==> exists|i: int|
            0 <= i < pairs.len() && (#[trigger] pairs[i]).0 == k,
    decreases pairs.len(),
{
    if pairs.len() > 0 {
        let rest = pairs.drop_last();
        let last = pairs.last();
        let none = Seq::<(Seq<char>, Mark)>::empty();
        marks_hold(rest, k);
        tables_ascend::<String, Mark>(none, rest);
        setting_is_separate::<String, Mark>(table_of::<String, Mark>(rest), last.0, last.1, k);
        assert(pairs[pairs.len() - 1] == last);
        if exists|i: int| 0 <= i < rest.len() && (#[trigger] rest[i]).0 == k {
            let i = choose|i: int| 0 <= i < rest.len() && (#[trigger] rest[i]).0 == k;
            assert(pairs[i].0 == k);
        }
        if last.0 != k && exists|i: int| 0 <= i < pairs.len() && (#[trigger] pairs[i]).0 == k {
            let i = choose|i: int| 0 <= i < pairs.len() && (#[trigger] pairs[i]).0 == k;
            assert(rest[i].0 == k);
        }
    }
}

/// A seed passes exactly where the server is no older than the seed demands, every slot from one
/// to the highest has a location and none lists one twice, every name leads to a slot of the only
/// team, and every member of a group is a slot.
pub proof fn a_seed_passes_where_it_is_sound(
    m: SeedModel,
    locations: Seq<LocationEntry>,
    top: u32,
    server: Version,
)
    requires
        ordered(locations),
        senders_within(locations, top),
        forall|i: int| 0 <= i < locations.len() ==> (#[trigger] locations[i]).sender > 0,
    ensures
        seed_problem(m, locations, top, server) is None <==> {
            &&& m.minimum_server_version == server || m.minimum_server_version.major < server.major
                || (m.minimum_server_version.major == server.major && (
            m.minimum_server_version.minor < server.minor || (m.minimum_server_version.minor
                == server.minor && m.minimum_server_version.build < server.build)))
            &&& locations.len() > 0
            &&& forall|slot: int| 1 <= slot <= top ==> #[trigger] has_slot(locations, slot)
            &&& forall|i: int, j: int|
                0 <= i < j < locations.len() ==> (#[trigger] locations[i]).sender != (
                #[trigger] locations[j]).sender || locations[i].location != locations[j].location
            &&& forall|i: int|
                0 <= i < m.connect_names.len() ==> (#[trigger] m.connect_names[i]).1.0 == 0
                    && entry::<u32, SlotModel>(m.slot_info, m.connect_names[i].1.1) is Some
            &&& forall|i: int, k: int|
                0 <= i < m.slot_info.len() && 0 <= k < m.slot_info[i].1.group_members.len()
                    ==> entry::<u32, SlotModel>(
                    m.slot_info,
                    #[trigger] m.slot_info[i].1.group_members[k],
                ) is Some
        },
{
    gaps_found(locations, 1, top as int);
    repeats_found(locations, 1);
    names_found(m, 0);
    members_found(m.slot_info, 0);
    if seed_problem(m, locations, top, server) is None {
        assert forall|i: int, j: int| 0 <= i < j < locations.len() implies (
        #[trigger] locations[i]).sender != (#[trigger] locations[j]).sender || locations[i].location
            != locations[j].location by {
            a_valid_table_is_unambiguous(locations, top, i, j);
        }
    }
    if forall|i: int, j: int|
        0 <= i < j < locations.len() ==> (#[trigger] locations[i]).sender != (
        #[trigger] locations[j]).sender || locations[i].location != locations[j].location {
        assert forall|k: int| 1 <= k < locations.len() implies !((#[trigger] locations[k]).sender > 0
            && locations[k - 1].sender == locations[k].sender && locations[k - 1].location
            == locations[k].location) by {
            let before = locations[k - 1];
        }
    }
}

proof fn gaps_found(s: Seq<LocationEntry>, from: int, max: int)
    ensures
        first_gap(s, from, max) is None <==> forall|slot: int|
            from <= slot <= max ==> #[trigger] has_slot(s, slot),
    decreases max + 1 - from,
{
    if from <= max {
        gaps_found(s, from + 1, max);
        if first_gap(s, from, max) is None {
            assert forall|slot: int| from <= slot <= max implies #[trigger] has_slot(s, slot) by {
                if slot > from {
                    assert(from + 1 <= slot <= max);
                }
            }
        }
    }
}

proof fn repeats_found(s: Seq<LocationEntry>, from: int)
    requires
        1 <= from,
    ensures
        first_repeat(s, from) is None <==> forall|k: int|
            from <= k < s.len() ==> !((#[trigger] s[k]).sender > 0 && s[k - 1].sender == s[k].sender
                && s[k - 1].location == s[k].location),
    decreases s.len() - from,
{
    if from < s.len() {
        repeats_found(s, from + 1);
        let here = s[from];
    }
}

proof fn names_found(m: SeedModel, from: int)
    requires
        0 <= from,
    ensures
        name_problem(m, from) is None <==> forall|i: int|
            from <= i < m.connect_names.len() ==> (#[trigger] m.connect_names[i]).1.0 == 0
                && entry::<u32, SlotModel>(m.slot_info, m.connect_names[i].1.1) is Some,
    decreases m.connect_names.len() - from,
{
    if from < m.connect_names.len() {
        names_found(m, from + 1);
        let here = m.connect_names[from];
    }
}

proof fn strays_found(slots: Seq<(u32, SlotModel)>, members: Seq<u32>, from: int)
    requires
        0 <= from,
    ensures
        stray_member(slots, members, from) is None <==> forall|k: int|
            from <= k < members.len() ==> entry::<u32, SlotModel>(
                slots,
                #[trigger] members[k],
            ) is Some,
    decreases members.len() - from,
{
    if from < members.len() {
        strays_found(slots, members, from + 1);
        let here = members[from];
    }
}

proof fn members_found(slots: Seq<(u32, SlotModel)>, from: int)
    requires
        0 <= from,
    ensures
        group_problem(slots, from) is None <==> forall|i: int, k: int|
            from <= i < slots.len() && 0 <= k < slots[i].1.group_members.len() ==> entry::<
                u32,
                SlotModel,
            >(slots, #[trigger] slots[i].1.group_members[k]) is Some,
    decreases slots.len() - from,
{
    if from < slots.len() {
        let members = slots[from].1.group_members;
        members_found(slots, from + 1);
        strays_found(slots, members, 0);
        if group_problem(slots, from) is None {
            assert forall|i: int, k: int|
                from <= i < slots.len() && 0 <= k
                    < slots[i].1.group_members.len() implies entry::<u32, SlotModel>(
                slots,
                #[trigger] slots[i].1.group_members[k],
            ) is Some by {
                if i == from {
                    assert(entry::<u32, SlotModel>(slots, members[k]) is Some);
                }
            }
        }
        if forall|i: int, k: int|
            from <= i < slots.len() && 0 <= k < slots[i].1.group_members.len() ==> entry::<
                u32,
                SlotModel,
            >(slots, #[trigger] slots[i].1.group_members[k]) is Some {
            assert forall|k: int| 0 <= k < members.len() implies entry::<u32, SlotModel>(
                slots,
                #[trigger] members[k],
            ) is Some by {
                assert(slots[from].1.group_members[k] == members[k]);
            }
        }
    }
}

/// A file is refused by its first byte where that is above three, and an empty one as empty; of
/// any other, all but the first byte is the stream, and what it holds is refused only where it is
/// broken or longer than 64 MiB.
pub proof fn a_file_is_its_version_and_a_stream(raw: Seq<u8>)
    ensures
        raw.len() == 0 ==> pickle_of(raw) == Err::<Seq<u8>, Problem>(Problem::Empty),
        raw.len() > 0 && raw[0] > 3 ==> pickle_of(raw) == Err::<Seq<u8>, Problem>(
            Problem::UnsupportedFormat(raw[0]),
        ),
        raw.len() > 0 && raw[0] <= 3 ==> match inflated(raw.skip(1), 67_108_865) {
            Ok(b) => if b.len() <= 67_108_864 {
                pickle_of(raw) == Ok::<Seq<u8>, Problem>(b)
            } else {
                pickle_of(raw) == Err::<Seq<u8>, Problem>(Problem::PickleTooLarge(67_108_864))
            },
            Err(s) => pickle_of(raw) == Err::<Seq<u8>, Problem>(Problem::Decompress(s)),
        },
{
}

/// The numbers of the slot types, the client statuses and the hint statuses: each number names
/// one, and no other number names any.
pub proof fn numbers_name_types_and_statuses(v: int, path: Seq<char>)
    ensures
        slot_type_of(v, path) == Ok::<SlotType, Problem>(SlotType::Spectator) <==> v == 0,
        slot_type_of(v, path) == Ok::<SlotType, Problem>(SlotType::Player) <==> v == 1,
        slot_type_of(v, path) == Ok::<SlotType, Problem>(SlotType::Group) <==> v == 2,
        client_status_of(v, path) == Ok::<ClientStatus, Problem>(ClientStatus::Unknown) <==> v == 0,
        client_status_of(v, path) == Ok::<ClientStatus, Problem>(ClientStatus::Connected) <==> v
            == 5,
        client_status_of(v, path) == Ok::<ClientStatus, Problem>(ClientStatus::Ready) <==> v == 10,
        client_status_of(v, path) == Ok::<ClientStatus, Problem>(ClientStatus::Playing) <==> v
            == 20,
        client_status_of(v, path) == Ok::<ClientStatus, Problem>(ClientStatus::Goal) <==> v == 30,
        hint_status_of(v, path) == Ok::<HintStatus, Problem>(HintStatus::Unspecified) <==> v == 0,
        hint_status_of(v, path) == Ok::<HintStatus, Problem>(HintStatus::NoPriority) <==> v == 10,
        hint_status_of(v, path) == Ok::<HintStatus, Problem>(HintStatus::Avoid) <==> v == 20,
        hint_status_of(v, path) == Ok::<HintStatus, Problem>(HintStatus::Priority) <==> v == 30,
        hint_status_of(v, path) == Ok::<HintStatus, Problem>(HintStatus::Found) <==> v == 40,
{
}

/// Versions are compared by their first number, then their second, then their third, and the newer
/// of two is never older than either.
pub proof fn versions_go_by_their_numbers(a: Version, b: Version)
    ensures
        a.major < b.major ==> older(a, b) && !older(b, a),
        a.major == b.major && a.minor < b.minor ==> older(a, b) && !older(b, a),
        a.major == b.major && a.minor == b.minor && a.build < b.build ==> older(a, b) && !older(
            b,
            a,
        ),
        newer(a, b) == a || newer(a, b) == b,
        !older(newer(a, b), a) && !older(newer(a, b), b),
{
}

/// The text of a version has its three numbers in order, with a point behind each of the first two.
pub proof fn a_version_is_shown_by_its_numbers(v: Version)
    ensures
        version_text(v) == dec(v.major as nat) + (seq!['.'] + (dec(v.minor as nat) + (seq!['.'] + dec(
            v.build as nat,
        )))),
{
    reveal_strlit(".");
    assert(version_text(v) =~= dec(v.major as nat) + (seq!['.'] + (dec(v.minor as nat) + (seq!['.']
        + dec(v.build as nat)))));
}

/// Two hints are the same where who receives, who finds, the location, the item and the entrance
/// are, and only there.
pub proof fn hints_are_the_same_by_five_things(a: HintModel, b: HintModel)
    ensures
        identity_of(a) == identity_of(b) <==> a.receiving_player == b.receiving_player
            && a.finding_player == b.finding_player && a.location == b.location && a.item == b.item
            && a.entrance == b.entrance,
{
}

/// The least client version of a slot for which the seed gives none is the floor of its generator.
pub proof fn a_slot_without_a_floor_has_the_generators(x: MultiData, slot: u32, r: Version)
    requires
        call_ensures(MultiData::min_client_version, (&x, slot), r),
        entry::<u32, Version>(x.model().minimum_client_versions, slot) is None,
    ensures
        ({
            let g = x.generator_version;
            let old_seed = g.major == 0 && (g.minor < 6 || (g.minor == 6 && g.build < 2));
            &&& old_seed ==> r.major == 0 && r.minor == 1 && r.build == 6
            &&& !old_seed ==> r.major == 0 && r.minor == 5 && r.build == 0
        }),
{
}

/// Every slot that a client may connect as is on the only team, under its own number.
pub proof fn team_slots_are_those_to_connect_as(x: MultiData, r: Vec<(u32, u32)>, slot: u32)
    requires
        call_ensures(MultiData::team_slots, (&x,), r),
    ensures
        r@.contains((0, slot)) <==> exists|s: (u32, SlotModel)| #[trigger]
            x.model().slot_info.contains(s) && s.0 == slot && s.1.slot_type != SlotType::Group,
        forall|i: int| 0 <= i < r@.len() ==> (#[trigger] r@[i]).0 == 0,
{
    let p = |s: (u32, SlotModel)| (s.1.slot_type == SlotType::Group) == false;
    let all = x.model().slot_info;
    let kept = all.filter(p);
    if r@.contains((0, slot)) {
        let i = choose|i: int| 0 <= i < r@.len() && r@[i] == (0u32, slot);
        let s = kept[i];
        filter_holds(all, p, s);
        assert(kept.contains(s));
    }
    if exists|s: (u32, SlotModel)| #[trigger]
        all.contains(s) && s.0 == slot && s.1.slot_type != SlotType::Group {
        let s = choose|s: (u32, SlotModel)| #[trigger]
            all.contains(s) && s.0 == slot && s.1.slot_type != SlotType::Group;
        filter_holds(all, p, s);
        let i = choose|i: int| 0 <= i < kept.len() && kept[i] == s;
        assert(r@[i] == (0u32, slot));
    }
}

/// Names that complete what a client types: those of items and of groups of items are not mixed
/// with those of locations and of groups of locations.
pub proof fn names_are_listed_by_their_kind(
    g: GameNames,
    items: Vec<String>,
    locations: Vec<String>,
    k: Seq<char>,
)
    requires
        call_ensures(GameNames::item_and_group_names, (&g,), items),
        call_ensures(GameNames::location_and_group_names, (&g,), locations),
    ensures
        texts(items@).contains(k) <==> keys(g.deep_view().package.items).contains(k) || keys(
            g.deep_view().package.item_groups,
        ).contains(k),
        texts(locations@).contains(k) <==> keys(g.deep_view().package.locations).contains(k) || keys(
            g.deep_view().package.location_groups,
        ).contains(k),
{
}

/// Lookups by name and by id are of their own kind: an item's id from the items, a location's from
/// the locations, and a name that is refused cannot be hinted.
pub proof fn lookups_are_of_their_own_kind(
    g: GameNames,
    name: &str,
    item: Option<i64>,
    location: Option<i64>,
    hintable: bool,
)
    requires
        call_ensures(GameNames::item_id, (&g, name), item),
        call_ensures(GameNames::location_id, (&g, name), location),
        call_ensures(GameNames::is_hintable, (&g, name), hintable),
    ensures
        item == entry::<String, i64>(g.package.item_name_to_id.deep_view(), name@),
        location == entry::<String, i64>(g.package.location_name_to_id.deep_view(), name@),
        hintable <==> entry::<String, Mark>(g.package.hint_blacklist.deep_view(), name@) is None,
{
}

/// A slot's entries are those of the table that have it as their sender.
pub proof fn a_slots_entries_are_its_own(s: Seq<LocationEntry>, slot: u32, e: LocationEntry)
    ensures
        slot_entries(s, slot).contains(e) <==> s.contains(e) && e.sender == slot,
{
    filter_holds(s, |e: LocationEntry| e.sender == slot, e);
}

/// The games with a checksum are listed with it, in order, and no other.
pub proof fn checksums_are_listed_with_their_games(
    games: Seq<(Seq<char>, NamesModel)>,
    n: nat,
    i: int,
    c: Seq<char>,
)
    requires
        n <= games.len(),
        0 <= i < n,
        games[i].1.package.checksum == Some(c),
    ensures
        checksums_of(games, n).contains((games[i].0, c)),
        checksums_of(games, n).len() <= n,
    decreases n,
{
    let before = checksums_of(games, (n - 1) as nat);
    if i < n - 1 {
        checksums_are_listed_with_their_games(games, (n - 1) as nat, i, c);
        let j = choose|j: int| 0 <= j < before.len() && before[j] == (games[i].0, c);
        assert(checksums_of(games, n)[j] == (games[i].0, c));
    } else {
        checksums_fit(games, (n - 1) as nat);
        assert(checksums_of(games, n)[before.len() as int] == (games[i].0, c));
    }
}

proof fn checksums_fit(games: Seq<(Seq<char>, NamesModel)>, n: nat)
    ensures
        checksums_of(games, n).len() <= n,
    decreases n,
{
    if n > 0 {
        checksums_fit(games, (n - 1) as nat);
    }
}

/// A hint of an old generator, which has no status, is read like any other and has none specified;
/// whether it was found may be given as one or zero, and a status also as an instance.
pub proof fn hints_of_old_generators_are_read(
    path: Seq<char>,
    first: Seq<Py>,
    found: i64,
    status: i64,
    h: HintModel,
    k: HintModel,
)
    requires
        first.len() == 7,
        first[4] == Py::Int(found),
        hint_of(Py::Instance("NetUtils"@, "Hint"@, first), path) == Ok::<HintModel, Problem>(h),
        hint_of(
            Py::Instance(
                "NetUtils"@,
                "Hint"@,
                first.push(Py::Instance("NetUtils"@, "HintStatus"@, seq![Py::Int(status)])),
            ),
            path,
        ) == Ok::<HintModel, Problem>(k),
    ensures
        h.status == HintStatus::Unspecified,
        found == 0 || found == 1,
        h.found <==> found == 1,
        k == (HintModel { status: k.status, ..h }),
        k.status == HintStatus::Unspecified <==> status == 0,
        k.status == HintStatus::NoPriority <==> status == 10,
        k.status == HintStatus::Avoid <==> status == 20,
        k.status == HintStatus::Priority <==> status == 30,
        k.status == HintStatus::Found <==> status == 40,
{
    let raw = seq![Py::Int(status)];
    let all = first.push(Py::Instance("NetUtils"@, "HintStatus"@, raw));
    assert(raw[0] == Py::Int(status) && raw.len() == 1);
    assert(all[7] == Py::Instance("NetUtils"@, "HintStatus"@, raw));
    assert(all[0] == first[0] && all[1] == first[1] && all[2] == first[2] && all[3] == first[3]
        && all[4] == first[4] && all[5] == first[5] && all[6] == first[6]);
}

/// A seed may grant a hundred thousand items in all, those of every slot added up, and not one more.
pub proof fn granted_items_are_bounded(
    o: Option<Py>,
    path: Seq<char>,
    items: Seq<(u32, Seq<i64>)>,
    more: (u32, Seq<i64>),
)
    ensures
        granted(items, 0) == 0,
        granted(items.push(more), (items.len() + 1) as nat) == granted(items, items.len())
            + more.1.len(),
        items_of_slots(o, path) == Ok::<Seq<(u32, Seq<i64>)>, Problem>(items) ==> granted(
            items,
            items.len(),
        ) <= 100_000,
        items_of_slots(o, path) matches Err(Problem::TooManyPrecollectedItems(found, limit))
            ==> found > 100_000 && limit == 100_000,
{
    granted_by_the_first(items, more, items.len());
    if let Some(v) = o {
        if let Err(e) = table_from::<u32, Seq<i64>>(v, path, |k: Py, v: Py| int_list_pair(k, v, path)) {
            no_count_complained(v, path);
        }
    }
}

proof fn granted_by_the_first(items: Seq<(u32, Seq<i64>)>, more: (u32, Seq<i64>), n: nat)
    requires
        n <= items.len(),
    ensures
        granted(items.push(more), n) == granted(items, n),
    decreases n,
{
    if n > 0 {
        granted_by_the_first(items, more, (n - 1) as nat);
    }
}

/// Reading the items complains of what they are, not of how many.
proof fn no_count_complained(o: Py, path: Seq<char>)
    ensures
        !(table_from::<u32, Seq<i64>>(o, path, |k: Py, v: Py| int_list_pair(k, v, path)) matches Err(
            Problem::TooManyPrecollectedItems(_, _),
        )),
{
    if let Py::Dict(pairs) = o {
        let f = |k: Py, v: Py| int_list_pair(k, v, path);
        no_count_in_pairs(pairs, path, pairs.len());
    }
}

proof fn no_count_in_pairs(pairs: Seq<(Py, Py)>, path: Seq<char>, n: nat)
    requires
        n <= pairs.len(),
    ensures
        !(collect_pairs(pairs, |k: Py, v: Py| int_list_pair(k, v, path), n) matches Err(
            Problem::TooManyPrecollectedItems(_, _),
        )),
    decreases n,
{
    if n > 0 {
        no_count_in_pairs(pairs, path, (n - 1) as nat);
        let p = pairs[n - 1];
        if let Py::Int(slot) = p.0 {
            let inner = at_path(path, slot as u32 as int);
            if let Ok(items) = seq_of(p.1, inner) {
                no_count_in_items(items, inner, items.len());
            }
        }
    }
}

proof fn no_count_in_items(items: Seq<Py>, path: Seq<char>, n: nat)
    requires
        n <= items.len(),
    ensures
        !(collect(items, |i: int, x: Py| int_of(x, path), n) matches Err(
            Problem::TooManyPrecollectedItems(_, _),
        )),
    decreases n,
{
    if n > 0 {
        no_count_in_items(items, path, (n - 1) as nat);
    }
}

/// In a room with the server's own game, the id of an item or a location of another game is shown by
/// the name that its own table gives it, unless the server's own tables have the id.
pub proof fn ids_are_shown_beside_the_servers_own(
    embedded: Embedded,
    needed: Seq<(Seq<char>, Mark)>,
    game: Seq<char>,
    p: PackageModel,
    i: int,
    l: int,
)
    requires
        entry::<String, PackageModel>(embedded, game) == Some(p),
        game != "Archipelago"@,
        entry::<String, Mark>(needed, "Archipelago"@) is Some,
        ascending::<String, i64>(p.items),
        ascending::<String, i64>(p.locations),
        0 <= i < p.items.len(),
        forall|j: int| 0 <= j < p.items.len() && j != i ==> (#[trigger] p.items[j]).1 != p.items[i].1,
        0 <= l < p.locations.len(),
        forall|j: int|
            0 <= j < p.locations.len() && j != l ==> (#[trigger] p.locations[j]).1
                != p.locations[l].1,
        entry::<i64, Seq<char>>(
            reversed(package_for(embedded, "Archipelago"@).items),
            p.items[i].1,
        ) is None,
        entry::<i64, Seq<char>>(
            reversed(package_for(embedded, "Archipelago"@).locations),
            p.locations[l].1,
        ) is None,
    ensures
        ({
            let n = names_for(embedded, needed, game);
            &&& name_or_id(n.item_by_id, p.items[i].1, "item"@) == p.items[i].0
            &&& name_or_id(n.location_by_id, p.locations[l].1, "location"@) == p.locations[l].0
            &&& n.package.items == p.items && n.package.locations == p.locations
            &&& n.package.checksum == p.checksum
            &&& n.package.item_groups == p.item_groups
            &&& n.package.location_groups == p.location_groups
        }),
{
    names_resolve_both_ways(p.items, i);
    names_resolve_both_ways(p.locations, l);
    let own = package_for(embedded, "Archipelago"@);
    reversed_ascends(p.items);
    reversed_ascends(p.locations);
    reversed_ascends(own.items);
    reversed_ascends(own.locations);
    setting_all::<i64, Seq<char>>(reversed(p.items), reversed(own.items), p.items[i].1);
    setting_all::<i64, Seq<char>>(
        reversed(p.locations),
        reversed(own.locations),
        p.locations[l].1,
    );
}

proof fn reversed_ascends(ids: Seq<(Seq<char>, i64)>)
    ensures
        ascending::<i64, Seq<char>>(reversed(ids)),
{
    let none = Seq::<(i64, Seq<char>)>::empty();
    tables_ascend::<i64, Seq<char>>(none, Seq::new(ids.len(), |i: int| (ids[i].1, ids[i].0)));
}

/// Every game of the room has its lookups under its own name; one whose tables the seed does not
/// bring has no name for anything, and shows what it is asked for by its id.
pub proof fn a_game_without_tables_shows_ids(
    embedded: Embedded,
    needed: Seq<(Seq<char>, Mark)>,
    i: int,
    id: i64,
)
    requires
        0 <= i < needed.len(),
    ensures
        merged(embedded, needed).len() == needed.len(),
        merged(embedded, needed)[i].0 == needed[i].0,
        merged(embedded, needed)[i].1 == names_for(embedded, needed, needed[i].0),
        entry::<String, PackageModel>(embedded, needed[i].0) is None ==> merged(
            embedded,
            needed,
        )[i].1.package.items.len() == 0,
        name_or_id(Seq::empty(), id, "item"@) == "Unknown "@ + "item"@ + " (ID:"@ + dec_int(id as int)
            + ")"@,
{
}

} // verus!
