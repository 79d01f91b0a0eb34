//! The documents that a tracker page reads.
//!
//! An item and a hint are arrays in the order of their fields, and a time is in the form of
//! RFC 1123 or null.

use crate::datastore::value::{list_model, Datum, Value};
use crate::multidata::types::{
    client_status_code, hint_status_code, ClientStatus, Hint, HintStatus, NetworkItem,
};
use crate::net::http::document::{
    count, each, each_row_has_its_item, each_row_shown_has_its_item, integer, list, list_each,
    list_where, member, member_found, number, optional_text, rows_alike_give_the_same, shown_before,
    text, text_or_null, Fields,
};
use crate::net::http::time::{cut_seconds, rfc1123, rfc1123_text};
use crate::table::Table;
use vstd::prelude::*;
use vstd::relations::{sorted_by, total_ordering};
use vstd::seq_lib::lemma_sorted_unique;

verus! {

/// What a tracker shows of one slot. The times are doubles of seconds since the epoch, by their
/// bit patterns.
#[derive(Debug, Clone)]
pub struct TrackerSlot {
    pub team: u32,
    pub slot: u32,
    /// Whether a player is behind the slot, rather than a spectator or a group.
    pub playing: bool,
    pub alias: Option<String>,
    pub game: String,
    pub items_received: Vec<NetworkItem>,
    /// The locations checked, in any order.
    pub checks: Vec<i64>,
    pub total_locations: usize,
    pub hints: Vec<Hint>,
    pub last_activity: Option<u64>,
    pub last_connection: Option<u64>,
    pub status: ClientStatus,
}

/// A group of slots that share an item pool.
#[derive(Debug, Clone)]
pub struct TrackerGroup {
    pub slot: u32,
    pub name: String,
    pub members: Vec<u32>,
}

/// What a tracker shows of a room.
#[derive(Debug)]
pub struct TrackerData {
    pub slots: Vec<TrackerSlot>,
    /// For each team, the checks done.
    pub total_checks: Vec<(u32, usize)>,
    pub groups: Vec<TrackerGroup>,
    /// The checksum of the data of each game.
    pub datapackage: Table<String, String>,
}

/// `[item, location, player, flags]`.
pub open spec fn item_datum(i: NetworkItem) -> Datum {
    Datum::List(
        seq![
            number(i.item as int),
            number(i.location as int),
            number(i.player as int),
            number(i.flags as int),
        ],
    )
}

/// `[receiving_player, finding_player, location, item, found, entrance, item_flags, status]`.
pub open spec fn hint_datum(h: Hint) -> Datum {
    Datum::List(
        seq![
            number(h.receiving_player as int),
            number(h.finding_player as int),
            number(h.location as int),
            number(h.item as int),
            Datum::Bool(h.found),
            Datum::Text(h.entrance@),
            number(h.item_flags as int),
            number(hint_status_code(h.status) as int),
        ],
    )
}

/// A time, or null where there is none.
pub open spec fn time_datum(at: Option<u64>) -> Datum {
    match at {
        Some(bits) => Datum::Text(rfc1123_text(cut_seconds(bits) as int)),
        None => Datum::Null,
    }
}

/// Numbers in ascending order.
pub open spec fn in_order(s: Seq<i64>) -> Seq<i64> {
    s.sort_by(|a: i64, b: i64| a <= b)
}

/// A row of a table of slots: the team, the player, and one thing more.
pub open spec fn row(s: TrackerSlot, name: Seq<char>, d: Datum) -> Datum {
    Datum::Dict(
        seq![
            ("team"@, number(s.team as int)),
            ("player"@, number(s.slot as int)),
            (name, d),
        ],
    )
}

/// The rows of the players, without spectators and groups.
pub open spec fn of_players(data: TrackerData, f: spec_fn(TrackerSlot) -> Datum) -> Datum {
    each(data.slots@.filter(|s: TrackerSlot| s.playing), f)
}

/// The document that changes as the room is played.
pub open spec fn tracker_datum(data: TrackerData) -> Datum {
    Datum::Dict(
        seq![
            (
                "aliases"@,
                of_players(
                    data,
                    |s: TrackerSlot| row(s, "alias"@, text_or_null(s.alias.deep_view())),
                ),
            ),
            (
                "player_items_received"@,
                of_players(
                    data,
                    |s: TrackerSlot|
                        row(
                            s,
                            "items"@,
                            each(s.items_received@, |i: NetworkItem| item_datum(i)),
                        ),
                ),
            ),
            (
                "player_checks_done"@,
                of_players(
                    data,
                    |s: TrackerSlot|
                        row(
                            s,
                            "locations"@,
                            each(in_order(s.checks@), |n: i64| number(n as int)),
                        ),
                ),
            ),
            (
                "total_checks_done"@,
                each(
                    data.total_checks@,
                    |t: (u32, usize)|
                        Datum::Dict(
                            seq![
                                ("team"@, number(t.0 as int)),
                                ("checks_done"@, number(t.1 as int)),
                            ],
                        ),
                ),
            ),
            (
                "hints"@,
                each(
                    data.slots@,
                    |s: TrackerSlot|
                        row(s, "hints"@, each(s.hints@, |h: Hint| hint_datum(h))),
                ),
            ),
            (
                "activity_timers"@,
                of_players(data, |s: TrackerSlot| row(s, "time"@, time_datum(s.last_activity))),
            ),
            (
                "connection_timers"@,
                of_players(data, |s: TrackerSlot| row(s, "time"@, time_datum(s.last_connection))),
            ),
            (
                "player_status"@,
                of_players(
                    data,
                    |s: TrackerSlot|
                        row(s, "status"@, number(client_status_code(s.status) as int)),
                ),
            ),
        ],
    )
}

/// What the document says of a group.
pub open spec fn group_datum(g: TrackerGroup) -> Datum {
    Datum::Dict(
        seq![
            ("slot"@, number(g.slot as int)),
            ("name"@, Datum::Text(g.name@)),
            ("members"@, each(g.members@, |n: u32| number(n as int))),
        ],
    )
}

/// A checksum, beside a version that is always zero.
pub open spec fn package_datum(checksum: Seq<char>) -> Datum {
    Datum::Dict(seq![("checksum"@, Datum::Text(checksum)), ("version"@, number(0))])
}

/// The document that changes only with the seed.
pub open spec fn static_datum(data: TrackerData) -> Datum {
    Datum::Dict(
        seq![
            (
                "groups"@,
                each(data.groups@, |g: TrackerGroup| group_datum(g)),
            ),
            (
                "datapackage"@,
                Datum::Dict(
                    data.datapackage.deep_view().map_values(
                        |e: (Seq<char>, Seq<char>)| (e.0, package_datum(e.1)),
                    ),
                ),
            ),
            (
                "player_locations_total"@,
                of_players(
                    data,
                    |s: TrackerSlot| row(s, "total_locations"@, number(s.total_locations as int)),
                ),
            ),
            (
                "player_game"@,
                of_players(data, |s: TrackerSlot| row(s, "game"@, Datum::Text(s.game@))),
            ),
        ],
    )
}

/// `sort_unstable` from the standard library orders the numbers and keeps them.
#[verifier::external_body]
fn sort_numbers(v: &mut Vec<i64>)
    ensures
        forall|i: int, j: int| 0 <= i < j < final(v)@.len() ==> final(v)@[i] <= final(v)@[j],
        final(v)@.to_multiset() == old(v)@.to_multiset(),
{
    v.sort_unstable();
}

/// The numbers in ascending order.
fn ordered(numbers: &Vec<i64>) -> (r: Vec<i64>)
    ensures
        r@ == in_order(numbers@),
{
    let mut v: Vec<i64> = Vec::new();
    for i in 0..numbers.len()
        invariant
            v@ == numbers@.take(i as int),
    {
        v.push(numbers[i]);
        assert(v@ =~= numbers@.take(i + 1));
    }
    assert(v@ =~= numbers@);
    sort_numbers(&mut v);
    proof {
        let leq = |a: i64, b: i64| a <= b;
        assert(total_ordering(leq));
        numbers@.lemma_sort_by_ensures(leq);
        assert(sorted_by(v@, leq));
        lemma_sorted_unique(v@, numbers@.sort_by(leq), leq);
    }
    v
}

/// `[item, location, player, flags]`.
pub fn item(i: &NetworkItem) -> (r: Value)
    ensures
        r@ == item_datum(*i),
{
    let items: Vec<Value> = vec![
        integer(i.item),
        integer(i.location),
        count(i.player as u64),
        count(i.flags as u64),
    ];
    assert(list_model(items@) =~= item_datum(*i)->List_0);
    list(items)
}

/// `[receiving_player, finding_player, location, item, found, entrance, item_flags, status]`.
pub fn hint(h: &Hint) -> (r: Value)
    ensures
        r@ == hint_datum(*h),
{
    let items: Vec<Value> = vec![
        count(h.receiving_player as u64),
        count(h.finding_player as u64),
        integer(h.location),
        integer(h.item),
        Value::Bool(h.found),
        text(h.entrance.as_str()),
        count(h.item_flags as u64),
        count(h.status.code() as u64),
    ];
    assert(list_model(items@) =~= hint_datum(*h)->List_0);
    list(items)
}

/// A time in the form of RFC 1123, or null.
pub fn time(at: Option<u64>) -> (r: Value)
    ensures
        r@ == time_datum(at),
{
    match at {
        Some(bits) => Value::String(rfc1123(bits)),
        None => Value::Null,
    }
}

/// A row of a table of slots.
fn slot_row(s: &TrackerSlot, name: &str, v: Value) -> (r: Value)
    ensures
        r@ == row(*s, name@, v@),
{
    let fields = Fields::new().with("team", count(s.team as u64)).with("player", count(s.slot as u64)).with(
        name,
        v,
    );
    assert(fields@ =~= row(*s, name@, v@)->Dict_0);
    fields.object()
}

/// The rows of the players.
fn player_rows<F: Fn(&TrackerSlot) -> Value>(
    data: &TrackerData,
    one: F,
    Ghost(f): Ghost<spec_fn(TrackerSlot) -> Datum>,
) -> (r: Value)
    requires
        forall|x: &TrackerSlot| #[trigger] one.requires((x,)),
        forall|x: &TrackerSlot, v: Value| #[trigger] one.ensures((x,), v) ==> v@ == f(*x),
    ensures
        r@ == of_players(*data, f),
{
    let keep = |s: &TrackerSlot| -> (b: bool)
        ensures
            b == s.playing,
        { s.playing };
    list_where(&data.slots, keep, one, Ghost(|s: TrackerSlot| s.playing), Ghost(f))
}

fn aliases(data: &TrackerData) -> (r: Value)
    ensures
        r@ == of_players(
            *data,
            |s: TrackerSlot| row(s, "alias"@, text_or_null(s.alias.deep_view())),
        ),
{
    let one = |s: &TrackerSlot| -> (v: Value)
        ensures
            v@ == row(*s, "alias"@, text_or_null(s.alias.deep_view())),
        {
            let alias = match &s.alias {
                Some(a) => Some(a.clone()),
                None => None,
            };
            slot_row(s, "alias", optional_text(alias))
        };
    player_rows(
        data,
        one,
        Ghost(|s: TrackerSlot| row(s, "alias"@, text_or_null(s.alias.deep_view()))),
    )
}

fn items_of(s: &TrackerSlot) -> (r: Value)
    ensures
        r@ == each(s.items_received@, |i: NetworkItem| item_datum(i)),
{
    let one = |i: &NetworkItem| -> (v: Value)
        ensures
            v@ == item_datum(*i),
        { item(i) };
    list_each(&s.items_received, one, Ghost(|i: NetworkItem| item_datum(i)))
}

fn items_received(data: &TrackerData) -> (r: Value)
    ensures
        r@ == of_players(
            *data,
            |s: TrackerSlot|
                row(s, "items"@, each(s.items_received@, |i: NetworkItem| item_datum(i))),
        ),
{
    let one = |s: &TrackerSlot| -> (v: Value)
        ensures
            v@ == row(*s, "items"@, each(s.items_received@, |i: NetworkItem| item_datum(i))),
        { slot_row(s, "items", items_of(s)) };
    player_rows(
        data,
        one,
        Ghost(
            |s: TrackerSlot|
                row(s, "items"@, each(s.items_received@, |i: NetworkItem| item_datum(i))),
        ),
    )
}

fn checks_of(s: &TrackerSlot) -> (r: Value)
    ensures
        r@ == each(in_order(s.checks@), |n: i64| number(n as int)),
{
    let one = |n: &i64| -> (v: Value)
        ensures
            v@ == number(*n as int),
        { integer(*n) };
    let numbers = ordered(&s.checks);
    list_each(&numbers, one, Ghost(|n: i64| number(n as int)))
}

fn checks_done(data: &TrackerData) -> (r: Value)
    ensures
        r@ == of_players(
            *data,
            |s: TrackerSlot|
                row(s, "locations"@, each(in_order(s.checks@), |n: i64| number(n as int))),
        ),
{
    let one = |s: &TrackerSlot| -> (v: Value)
        ensures
            v@ == row(*s, "locations"@, each(in_order(s.checks@), |n: i64| number(n as int))),
        { slot_row(s, "locations", checks_of(s)) };
    player_rows(
        data,
        one,
        Ghost(
            |s: TrackerSlot|
                row(s, "locations"@, each(in_order(s.checks@), |n: i64| number(n as int))),
        ),
    )
}

fn team_checks(data: &TrackerData) -> (r: Value)
    ensures
        r@ == each(
            data.total_checks@,
            |t: (u32, usize)|
                Datum::Dict(
                    seq![("team"@, number(t.0 as int)), ("checks_done"@, number(t.1 as int))],
                ),
        ),
{
    let one = |t: &(u32, usize)| -> (v: Value)
        ensures
            v@ == Datum::Dict(
                seq![("team"@, number(t.0 as int)), ("checks_done"@, number(t.1 as int))],
            ),
        {
            let fields = Fields::new().with("team", count(t.0 as u64)).with(
                "checks_done",
                count(t.1 as u64),
            );
            assert(fields@ =~= Datum::Dict(
                seq![("team"@, number(t.0 as int)), ("checks_done"@, number(t.1 as int))],
            )->Dict_0);
            fields.object()
        };
    list_each(
        &data.total_checks,
        one,
        Ghost(
            |t: (u32, usize)|
                Datum::Dict(
                    seq![("team"@, number(t.0 as int)), ("checks_done"@, number(t.1 as int))],
                ),
        ),
    )
}

fn hints_of(s: &TrackerSlot) -> (r: Value)
    ensures
        r@ == each(s.hints@, |h: Hint| hint_datum(h)),
{
    let one = |h: &Hint| -> (v: Value)
        ensures
            v@ == hint_datum(*h),
        { hint(h) };
    list_each(&s.hints, one, Ghost(|h: Hint| hint_datum(h)))
}

fn all_hints(data: &TrackerData) -> (r: Value)
    ensures
        r@ == each(
            data.slots@,
            |s: TrackerSlot| row(s, "hints"@, each(s.hints@, |h: Hint| hint_datum(h))),
        ),
{
    let one = |s: &TrackerSlot| -> (v: Value)
        ensures
            v@ == row(*s, "hints"@, each(s.hints@, |h: Hint| hint_datum(h))),
        { slot_row(s, "hints", hints_of(s)) };
    list_each(
        &data.slots,
        one,
        Ghost(|s: TrackerSlot| row(s, "hints"@, each(s.hints@, |h: Hint| hint_datum(h)))),
    )
}

fn activity(data: &TrackerData) -> (r: Value)
    ensures
        r@ == of_players(
            *data,
            |s: TrackerSlot| row(s, "time"@, time_datum(s.last_activity)),
        ),
{
    let one = |s: &TrackerSlot| -> (v: Value)
        ensures
            v@ == row(*s, "time"@, time_datum(s.last_activity)),
        { slot_row(s, "time", time(s.last_activity)) };
    player_rows(
        data,
        one,
        Ghost(|s: TrackerSlot| row(s, "time"@, time_datum(s.last_activity))),
    )
}

fn connection(data: &TrackerData) -> (r: Value)
    ensures
        r@ == of_players(
            *data,
            |s: TrackerSlot| row(s, "time"@, time_datum(s.last_connection)),
        ),
{
    let one = |s: &TrackerSlot| -> (v: Value)
        ensures
            v@ == row(*s, "time"@, time_datum(s.last_connection)),
        { slot_row(s, "time", time(s.last_connection)) };
    player_rows(
        data,
        one,
        Ghost(|s: TrackerSlot| row(s, "time"@, time_datum(s.last_connection))),
    )
}

fn statuses(data: &TrackerData) -> (r: Value)
    ensures
        r@ == of_players(
            *data,
            |s: TrackerSlot| row(s, "status"@, number(client_status_code(s.status) as int)),
        ),
{
    let one = |s: &TrackerSlot| -> (v: Value)
        ensures
            v@ == row(*s, "status"@, number(client_status_code(s.status) as int)),
        { slot_row(s, "status", count(s.status.code() as u64)) };
    player_rows(
        data,
        one,
        Ghost(|s: TrackerSlot| row(s, "status"@, number(client_status_code(s.status) as int))),
    )
}

/// The document that changes as the room is played.
pub fn tracker(data: &TrackerData) -> (r: Value)
    ensures
        r@ == tracker_datum(*data),
{
    let fields = Fields::new().with("aliases", aliases(data)).with(
        "player_items_received",
        items_received(data),
    ).with("player_checks_done", checks_done(data)).with(
        "total_checks_done",
        team_checks(data),
    ).with("hints", all_hints(data)).with("activity_timers", activity(data)).with(
        "connection_timers",
        connection(data),
    ).with("player_status", statuses(data));
    assert(fields@ =~= tracker_datum(*data)->Dict_0);
    fields.object()
}

fn members_of(g: &TrackerGroup) -> (r: Value)
    ensures
        r@ == each(g.members@, |n: u32| number(n as int)),
{
    let one = |n: &u32| -> (v: Value)
        ensures
            v@ == number(*n as int),
        { count(*n as u64) };
    list_each(&g.members, one, Ghost(|n: u32| number(n as int)))
}

fn groups(data: &TrackerData) -> (r: Value)
    ensures
        r@ == each(data.groups@, |g: TrackerGroup| group_datum(g)),
{
    let one = |g: &TrackerGroup| -> (v: Value)
        ensures
            v@ == group_datum(*g),
        {
            let fields = Fields::new().with("slot", count(g.slot as u64)).with(
                "name",
                text(g.name.as_str()),
            ).with("members", members_of(g));
            assert(fields@ =~= group_datum(*g)->Dict_0);
            fields.object()
        };
    list_each(&data.groups, one, Ghost(|g: TrackerGroup| group_datum(g)))
}

fn packages(data: &TrackerData) -> (r: Value)
    ensures
        r@ == Datum::Dict(
            data.datapackage.deep_view().map_values(
                |e: (Seq<char>, Seq<char>)| (e.0, package_datum(e.1)),
            ),
        ),
{
    let ghost f = |e: (Seq<char>, Seq<char>)| (e.0, package_datum(e.1));
    let ghost all = data.datapackage.deep_view();
    let n: usize = data.datapackage.len();
    let mut fields = Fields::new();
    assert(fields@ =~= all.take(0).map_values(f));
    for i in 0..n
        invariant
            all == data.datapackage.deep_view(),
            n == all.len(),
            f == (|e: (Seq<char>, Seq<char>)| (e.0, package_datum(e.1))),
            fields@ == all.take(i as int).map_values(f),
    {
        let checksum = data.datapackage.value_at(i);
        let package = Fields::new().with("checksum", text(checksum.as_str())).with(
            "version",
            count(0),
        );
        assert(package@ =~= package_datum(checksum@)->Dict_0);
        fields = fields.with(data.datapackage.key_at(i).as_str(), package.object());
        assert(fields@ =~= all.take(i + 1).map_values(f));
    }
    assert(all.take(n as int) =~= all);
    fields.object()
}

fn location_totals(data: &TrackerData) -> (r: Value)
    ensures
        r@ == of_players(
            *data,
            |s: TrackerSlot| row(s, "total_locations"@, number(s.total_locations as int)),
        ),
{
    let one = |s: &TrackerSlot| -> (v: Value)
        ensures
            v@ == row(*s, "total_locations"@, number(s.total_locations as int)),
        { slot_row(s, "total_locations", count(s.total_locations as u64)) };
    player_rows(
        data,
        one,
        Ghost(|s: TrackerSlot| row(s, "total_locations"@, number(s.total_locations as int))),
    )
}

fn games(data: &TrackerData) -> (r: Value)
    ensures
        r@ == of_players(*data, |s: TrackerSlot| row(s, "game"@, Datum::Text(s.game@))),
{
    let one = |s: &TrackerSlot| -> (v: Value)
        ensures
            v@ == row(*s, "game"@, Datum::Text(s.game@)),
        { slot_row(s, "game", text(s.game.as_str())) };
    player_rows(data, one, Ghost(|s: TrackerSlot| row(s, "game"@, Datum::Text(s.game@))))
}

/// The document that changes only with the seed.
pub fn static_tracker(data: &TrackerData) -> (r: Value)
    ensures
        r@ == static_datum(*data),
{
    let fields = Fields::new().with("groups", groups(data)).with("datapackage", packages(data)).with(
        "player_locations_total",
        location_totals(data),
    ).with("player_game", games(data));
    assert(fields@ =~= static_datum(*data)->Dict_0);
    fields.object()
}

/// The place of a slot's row in the tables of players: how many players come before it.
pub open spec fn player_place(slots: Seq<TrackerSlot>, i: int) -> int {
    shown_before(slots, |s: TrackerSlot| s.playing, i) as int
}

/// What a table of a document says of a row under a name.
pub open spec fn cell(doc: Datum, table: Seq<char>, k: int, name: Seq<char>) -> Datum {
    member(member(doc, table)->List_0[k], name)
}

/// The names in the documents differ.
proof fn names_differ()
    ensures
        "player_items_received"@ != "aliases"@,
        "player_checks_done"@ != "aliases"@ && "player_checks_done"@ != "player_items_received"@,
        "total_checks_done"@ != "aliases"@ && "total_checks_done"@ != "player_items_received"@
            && "total_checks_done"@ != "player_checks_done"@,
        "hints"@ != "aliases"@ && "hints"@ != "player_items_received"@
            && "hints"@ != "player_checks_done"@ && "hints"@ != "total_checks_done"@,
        "activity_timers"@ != "aliases"@ && "activity_timers"@ != "player_items_received"@
            && "activity_timers"@ != "player_checks_done"@
            && "activity_timers"@ != "total_checks_done"@ && "activity_timers"@ != "hints"@,
        "connection_timers"@ != "aliases"@ && "connection_timers"@ != "player_items_received"@
            && "connection_timers"@ != "player_checks_done"@
            && "connection_timers"@ != "total_checks_done"@ && "connection_timers"@ != "hints"@
            && "connection_timers"@ != "activity_timers"@,
        "player_status"@ != "aliases"@ && "player_status"@ != "player_items_received"@
            && "player_status"@ != "player_checks_done"@
            && "player_status"@ != "total_checks_done"@ && "player_status"@ != "hints"@
            && "player_status"@ != "activity_timers"@
            && "player_status"@ != "connection_timers"@,
        "datapackage"@ != "groups"@,
        "player_locations_total"@ != "groups"@ && "player_locations_total"@ != "datapackage"@,
        "player_game"@ != "groups"@ && "player_game"@ != "datapackage"@
            && "player_game"@ != "player_locations_total"@,
        "player"@ != "team"@,
        "checks_done"@ != "team"@,
        "name"@ != "slot"@,
        "members"@ != "slot"@ && "members"@ != "name"@,
        "version"@ != "checksum"@,
        "alias"@ != "team"@ && "alias"@ != "player"@,
        "items"@ != "team"@ && "items"@ != "player"@,
        "locations"@ != "team"@ && "locations"@ != "player"@,
        "hints"@ != "team"@ && "hints"@ != "player"@,
        "time"@ != "team"@ && "time"@ != "player"@,
        "status"@ != "team"@ && "status"@ != "player"@,
        "total_locations"@ != "team"@ && "total_locations"@ != "player"@,
        "game"@ != "team"@ && "game"@ != "player"@,
{
    reveal_strlit("aliases");
    reveal_strlit("player_items_received");
    reveal_strlit("player_checks_done");
    reveal_strlit("total_checks_done");
    reveal_strlit("hints");
    reveal_strlit("activity_timers");
    reveal_strlit("connection_timers");
    reveal_strlit("player_status");
    reveal_strlit("groups");
    reveal_strlit("datapackage");
    reveal_strlit("player_locations_total");
    reveal_strlit("player_game");
    reveal_strlit("team");
    reveal_strlit("player");
    reveal_strlit("checks_done");
    reveal_strlit("slot");
    reveal_strlit("name");
    reveal_strlit("members");
    reveal_strlit("checksum");
    reveal_strlit("version");
    reveal_strlit("alias");
    reveal_strlit("items");
    reveal_strlit("locations");
    reveal_strlit("time");
    reveal_strlit("status");
    reveal_strlit("total_locations");
    reveal_strlit("game");
    assert("aliases"@.len() == 7 && "player_items_received"@.len() == 21
        && "player_checks_done"@.len() == 18 && "total_checks_done"@.len() == 17
        && "hints"@.len() == 5 && "activity_timers"@.len() == 15
        && "connection_timers"@.len() == 17 && "player_status"@.len() == 13
        && "groups"@.len() == 6 && "datapackage"@.len() == 11
        && "player_locations_total"@.len() == 22 && "player_game"@.len() == 11
        && "team"@.len() == 4 && "player"@.len() == 6 && "checks_done"@.len() == 11
        && "slot"@.len() == 4 && "name"@.len() == 4 && "members"@.len() == 7
        && "checksum"@.len() == 8 && "version"@.len() == 7 && "alias"@.len() == 5
        && "items"@.len() == 5 && "locations"@.len() == 9 && "time"@.len() == 4
        && "status"@.len() == 6 && "total_locations"@.len() == 15 && "game"@.len() == 4);
    assert("connection_timers"@[0] == 'c' && "datapackage"@[0] == 'd' && "game"@[0] == 'g'
        && "name"@[0] == 'n' && "player"@[0] == 'p' && "player_game"@[0] == 'p'
        && "slot"@[0] == 's' && "status"@[0] == 's' && "team"@[0] == 't' && "team"@[1] == 'e'
        && "time"@[1] == 'i' && "total_checks_done"@[0] == 't');
}

/// The members of the document that changes as the room is played.
proof fn tables(data: TrackerData)
    ensures
        member(tracker_datum(data), "aliases"@) == tracker_datum(data)->Dict_0[0].1,
        member(tracker_datum(data), "player_items_received"@) == tracker_datum(data)->Dict_0[1].1,
        member(tracker_datum(data), "player_checks_done"@) == tracker_datum(data)->Dict_0[2].1,
        member(tracker_datum(data), "total_checks_done"@) == tracker_datum(data)->Dict_0[3].1,
        member(tracker_datum(data), "hints"@) == tracker_datum(data)->Dict_0[4].1,
        member(tracker_datum(data), "activity_timers"@) == tracker_datum(data)->Dict_0[5].1,
        member(tracker_datum(data), "connection_timers"@) == tracker_datum(data)->Dict_0[6].1,
        member(tracker_datum(data), "player_status"@) == tracker_datum(data)->Dict_0[7].1,
{
    let m = tracker_datum(data)->Dict_0;
    names_differ();
    member_found(m, 0);
    member_found(m, 1);
    member_found(m, 2);
    member_found(m, 3);
    member_found(m, 4);
    member_found(m, 5);
    member_found(m, 6);
    member_found(m, 7);
}

/// The members of a row.
proof fn row_members(s: TrackerSlot, name: Seq<char>, d: Datum)
    requires
        name != "team"@,
        name != "player"@,
    ensures
        member(row(s, name, d), "team"@) == number(s.team as int),
        member(row(s, name, d), "player"@) == number(s.slot as int),
        member(row(s, name, d), name) == d,
{
    names_differ();
    let m = row(s, name, d)->Dict_0;
    member_found(m, 0);
    member_found(m, 1);
    member_found(m, 2);
}

/// The row of a player in a table of players.
proof fn player_row(data: TrackerData, f: spec_fn(TrackerSlot) -> Datum, i: int)
    requires
        0 <= i < data.slots@.len(),
        data.slots@[i].playing,
    ensures
        of_players(data, f)->List_0[player_place(data.slots@, i)] == f(data.slots@[i]),
        of_players(data, f)->List_0.len() == player_place(data.slots@, data.slots@.len() as int),
        0 <= player_place(data.slots@, i) < of_players(data, f)->List_0.len(),
{
    each_row_shown_has_its_item(data.slots@, |s: TrackerSlot| s.playing, f, i);
}

/// When a player last acted stands in the row of the player under "activity_timers", when they
/// last connected in their row under "connection_timers": each in the form of RFC 1123, or null
/// where it never was. A row bears the team and the number of its slot.
pub proof fn a_players_times_stand_in_their_own_tables(data: TrackerData, i: int)
    requires
        0 <= i < data.slots@.len(),
        data.slots@[i].playing,
    ensures
        ({
            let doc = tracker_datum(data);
            let s = data.slots@[i];
            let k = player_place(data.slots@, i);
            &&& cell(doc, "activity_timers"@, k, "team"@) == number(s.team as int)
            &&& cell(doc, "activity_timers"@, k, "player"@) == number(s.slot as int)
            &&& s.last_activity is None ==> cell(doc, "activity_timers"@, k, "time"@) == Datum::Null
            &&& s.last_activity matches Some(at) ==> cell(doc, "activity_timers"@, k, "time"@)
                == Datum::Text(rfc1123_text(cut_seconds(at) as int))
            &&& cell(doc, "connection_timers"@, k, "team"@) == number(s.team as int)
            &&& cell(doc, "connection_timers"@, k, "player"@) == number(s.slot as int)
            &&& s.last_connection is None ==> cell(doc, "connection_timers"@, k, "time"@)
                == Datum::Null
            &&& s.last_connection matches Some(at) ==> cell(doc, "connection_timers"@, k, "time"@)
                == Datum::Text(rfc1123_text(cut_seconds(at) as int))
        }),
{
    let s = data.slots@[i];
    tables(data);
    names_differ();
    player_row(data, |s: TrackerSlot| row(s, "time"@, time_datum(s.last_activity)), i);
    player_row(data, |s: TrackerSlot| row(s, "time"@, time_datum(s.last_connection)), i);
    row_members(s, "time"@, time_datum(s.last_activity));
    row_members(s, "time"@, time_datum(s.last_connection));
}

/// Rooms that agree on who plays and on when each player last acted have the same
/// "activity_timers", whatever else differs between them, when players connected above all.
pub proof fn activity_is_of_acting_alone(data: TrackerData, other: TrackerData)
    requires
        data.slots@.len() == other.slots@.len(),
        forall|i: int|
            0 <= i < data.slots@.len() ==> {
                let s = #[trigger] data.slots@[i];
                let t = other.slots@[i];
                s.team == t.team && s.slot == t.slot && s.playing == t.playing && s.last_activity
                    == t.last_activity
            },
    ensures
        member(tracker_datum(data), "activity_timers"@) == member(
            tracker_datum(other),
            "activity_timers"@,
        ),
{
    tables(data);
    tables(other);
    rows_alike_give_the_same(
        data.slots@,
        other.slots@,
        |s: TrackerSlot| s.playing,
        |s: TrackerSlot| row(s, "time"@, time_datum(s.last_activity)),
    );
}

/// Rooms that agree on who plays and on when each player last connected have the same
/// "connection_timers", whatever else differs between them, when players acted above all.
pub proof fn connection_is_of_connecting_alone(data: TrackerData, other: TrackerData)
    requires
        data.slots@.len() == other.slots@.len(),
        forall|i: int|
            0 <= i < data.slots@.len() ==> {
                let s = #[trigger] data.slots@[i];
                let t = other.slots@[i];
                s.team == t.team && s.slot == t.slot && s.playing == t.playing && s.last_connection
                    == t.last_connection
            },
    ensures
        member(tracker_datum(data), "connection_timers"@) == member(
            tracker_datum(other),
            "connection_timers"@,
        ),
{
    tables(data);
    tables(other);
    rows_alike_give_the_same(
        data.slots@,
        other.slots@,
        |s: TrackerSlot| s.playing,
        |s: TrackerSlot| row(s, "time"@, time_datum(s.last_connection)),
    );
}

/// A player's alias and status stand in their rows: the alias as a text, or null, and the status
/// as its number.
pub proof fn a_players_alias_and_status_are_shown(data: TrackerData, i: int)
    requires
        0 <= i < data.slots@.len(),
        data.slots@[i].playing,
    ensures
        ({
            let doc = tracker_datum(data);
            let s = data.slots@[i];
            let k = player_place(data.slots@, i);
            &&& cell(doc, "aliases"@, k, "team"@) == number(s.team as int)
            &&& cell(doc, "aliases"@, k, "player"@) == number(s.slot as int)
            &&& s.alias is None ==> cell(doc, "aliases"@, k, "alias"@) == Datum::Null
            &&& s.alias matches Some(a) ==> cell(doc, "aliases"@, k, "alias"@) == Datum::Text(a@)
            &&& cell(doc, "player_status"@, k, "team"@) == number(s.team as int)
            &&& cell(doc, "player_status"@, k, "player"@) == number(s.slot as int)
            &&& cell(doc, "player_status"@, k, "status"@) == number(
                match s.status {
                    ClientStatus::Unknown => 0int,
                    ClientStatus::Connected => 5,
                    ClientStatus::Ready => 10,
                    ClientStatus::Playing => 20,
                    ClientStatus::Goal => 30,
                },
            )
        }),
{
    let s = data.slots@[i];
    tables(data);
    names_differ();
    player_row(
        data,
        |s: TrackerSlot| row(s, "alias"@, text_or_null(s.alias.deep_view())),
        i,
    );
    player_row(
        data,
        |s: TrackerSlot| row(s, "status"@, number(client_status_code(s.status) as int)),
        i,
    );
    row_members(s, "alias"@, text_or_null(s.alias.deep_view()));
    row_members(s, "status"@, number(client_status_code(s.status) as int));
}

/// The items that a player received stand in their row in the order received, each as its item,
/// its location, its player and its flags.
pub proof fn a_players_items_are_shown(data: TrackerData, i: int, j: int)
    requires
        0 <= i < data.slots@.len(),
        data.slots@[i].playing,
        0 <= j < data.slots@[i].items_received@.len(),
    ensures
        ({
            let doc = tracker_datum(data);
            let s = data.slots@[i];
            let x = s.items_received@[j];
            let k = player_place(data.slots@, i);
            &&& cell(doc, "player_items_received"@, k, "team"@) == number(s.team as int)
            &&& cell(doc, "player_items_received"@, k, "player"@) == number(s.slot as int)
            &&& cell(doc, "player_items_received"@, k, "items"@) matches Datum::List(items)
            &&& items.len() == s.items_received@.len()
            &&& items[j] matches Datum::List(f)
            &&& f.len() == 4
            &&& f[0] == number(x.item as int) && f[1] == number(x.location as int)
            &&& f[2] == number(x.player as int) && f[3] == number(x.flags as int)
        }),
{
    let s = data.slots@[i];
    tables(data);
    names_differ();
    let f = |s: TrackerSlot|
        row(s, "items"@, each(s.items_received@, |i: NetworkItem| item_datum(i)));
    assert(of_players(data, f) == tracker_datum(data)->Dict_0[1].1);
    player_row(data, f, i);
    row_members(s, "items"@, each(s.items_received@, |i: NetworkItem| item_datum(i)));
}

/// The locations that a player checked stand in their row, all of them and in ascending order.
pub proof fn a_players_checks_are_shown(data: TrackerData, i: int)
    requires
        0 <= i < data.slots@.len(),
        data.slots@[i].playing,
    ensures
        ({
            let doc = tracker_datum(data);
            let s = data.slots@[i];
            let k = player_place(data.slots@, i);
            &&& cell(doc, "player_checks_done"@, k, "team"@) == number(s.team as int)
            &&& cell(doc, "player_checks_done"@, k, "player"@) == number(s.slot as int)
            &&& exists|order: Seq<i64>|
                #![trigger order.to_multiset()]
                {
                    &&& order.to_multiset() == s.checks@.to_multiset()
                    &&& forall|a: int, b: int| 0 <= a < b < order.len() ==> order[a] <= order[b]
                    &&& cell(doc, "player_checks_done"@, k, "locations"@) matches Datum::List(l)
                        && l.len() == order.len() && forall|a: int|
                        0 <= a < l.len() ==> #[trigger] l[a] == number(order[a] as int)
                }
        }),
{
    let s = data.slots@[i];
    tables(data);
    names_differ();
    let f = |s: TrackerSlot|
        row(s, "locations"@, each(in_order(s.checks@), |n: i64| number(n as int)));
    assert(of_players(data, f) == tracker_datum(data)->Dict_0[2].1);
    player_row(data, f, i);
    row_members(s, "locations"@, each(in_order(s.checks@), |n: i64| number(n as int)));
    let leq = |a: i64, b: i64| a <= b;
    assert(total_ordering(leq));
    s.checks@.lemma_sort_by_ensures(leq);
    let order = in_order(s.checks@);
    assert(order.to_multiset() == s.checks@.to_multiset());
    assert(sorted_by(order, leq));
    assert forall|a: int, b: int| 0 <= a < b < order.len() implies order[a] <= order[b] by {
        assert(leq(order[a], order[b]));
    }
}

/// Every slot, a player's or not, has a row of hints in the order of the slots: each hint as its
/// receiver, its finder, its location, its item, whether it was found, its entrance, its flags
/// and its status.
pub proof fn the_hints_of_every_slot_are_shown(data: TrackerData, i: int, j: int)
    requires
        0 <= i < data.slots@.len(),
        0 <= j < data.slots@[i].hints@.len(),
    ensures
        ({
            let doc = tracker_datum(data);
            let s = data.slots@[i];
            let h = s.hints@[j];
            &&& cell(doc, "hints"@, i, "team"@) == number(s.team as int)
            &&& cell(doc, "hints"@, i, "player"@) == number(s.slot as int)
            &&& cell(doc, "hints"@, i, "hints"@) matches Datum::List(hints)
            &&& hints.len() == s.hints@.len()
            &&& hints[j] matches Datum::List(f)
            &&& f.len() == 8
            &&& f[0] == number(h.receiving_player as int)
            &&& f[1] == number(h.finding_player as int)
            &&& f[2] == number(h.location as int) && f[3] == number(h.item as int)
            &&& f[4] == Datum::Bool(h.found) && f[5] == Datum::Text(h.entrance@)
            &&& f[6] == number(h.item_flags as int)
            &&& f[7] == number(
                match h.status {
                    HintStatus::Unspecified => 0int,
                    HintStatus::NoPriority => 10,
                    HintStatus::Avoid => 20,
                    HintStatus::Priority => 30,
                    HintStatus::Found => 40,
                },
            )
        }),
{
    let s = data.slots@[i];
    tables(data);
    names_differ();
    let f = |s: TrackerSlot| row(s, "hints"@, each(s.hints@, |h: Hint| hint_datum(h)));
    assert(each(data.slots@, f) == tracker_datum(data)->Dict_0[4].1);
    each_row_has_its_item(data.slots@, f, i);
    row_members(s, "hints"@, each(s.hints@, |h: Hint| hint_datum(h)));
}

/// The checks of each team stand with the team, in order.
pub proof fn the_checks_of_each_team_are_shown(data: TrackerData, i: int)
    requires
        0 <= i < data.total_checks@.len(),
    ensures
        cell(tracker_datum(data), "total_checks_done"@, i, "team"@) == number(
            data.total_checks@[i].0 as int,
        ),
        cell(tracker_datum(data), "total_checks_done"@, i, "checks_done"@) == number(
            data.total_checks@[i].1 as int,
        ),
{
    tables(data);
    names_differ();
    let t = data.total_checks@[i];
    let m = seq![("team"@, number(t.0 as int)), ("checks_done"@, number(t.1 as int))];
    member_found(m, 0);
    member_found(m, 1);
}

/// The document of the seed shows each player's game and number of locations in their row, each
/// group with its number, name and members, and each game's checksum under the game's name.
pub proof fn the_seed_is_shown(data: TrackerData, i: int, g: int, p: int)
    requires
        0 <= i < data.slots@.len(),
        data.slots@[i].playing,
        0 <= g < data.groups@.len(),
        0 <= p < data.datapackage.deep_view().len(),
    ensures
        ({
            let doc = static_datum(data);
            let s = data.slots@[i];
            let k = player_place(data.slots@, i);
            &&& cell(doc, "player_game"@, k, "team"@) == number(s.team as int)
            &&& cell(doc, "player_game"@, k, "player"@) == number(s.slot as int)
            &&& cell(doc, "player_game"@, k, "game"@) == Datum::Text(s.game@)
            &&& cell(doc, "player_locations_total"@, k, "team"@) == number(s.team as int)
            &&& cell(doc, "player_locations_total"@, k, "player"@) == number(s.slot as int)
            &&& cell(doc, "player_locations_total"@, k, "total_locations"@) == number(
                s.total_locations as int,
            )
            &&& cell(doc, "groups"@, g, "slot"@) == number(data.groups@[g].slot as int)
            &&& cell(doc, "groups"@, g, "name"@) == Datum::Text(data.groups@[g].name@)
            &&& cell(doc, "groups"@, g, "members"@) matches Datum::List(l) && l.len()
                == data.groups@[g].members@.len() && forall|a: int|
                0 <= a < l.len() ==> #[trigger] l[a] == number(data.groups@[g].members@[a] as int)
            &&& member(doc, "datapackage"@) matches Datum::Dict(d) && d.len()
                == data.datapackage.deep_view().len() && d[p].0 == data.datapackage.deep_view()[p].0
                && member(d[p].1, "checksum"@) == Datum::Text(data.datapackage.deep_view()[p].1)
                && member(d[p].1, "version"@) == number(0)
        }),
{
    let s = data.slots@[i];
    let m = static_datum(data)->Dict_0;
    names_differ();
    member_found(m, 0);
    member_found(m, 1);
    member_found(m, 2);
    member_found(m, 3);
    player_row(data, |s: TrackerSlot| row(s, "game"@, Datum::Text(s.game@)), i);
    player_row(
        data,
        |s: TrackerSlot| row(s, "total_locations"@, number(s.total_locations as int)),
        i,
    );
    row_members(s, "game"@, Datum::Text(s.game@));
    row_members(s, "total_locations"@, number(s.total_locations as int));
    let gm = group_datum(data.groups@[g])->Dict_0;
    member_found(gm, 0);
    member_found(gm, 1);
    member_found(gm, 2);
    let pm = package_datum(data.datapackage.deep_view()[p].1)->Dict_0;
    member_found(pm, 0);
    member_found(pm, 1);
}

} // verus!
