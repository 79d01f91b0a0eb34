//! What the status document reports of a room.

use crate::datastore::value::{Datum, Value};
use crate::multidata::multidata::MultiData;
use crate::net::budget::Ledger;
use crate::net::http::document::{
    count, each, list_each, member, member_found, number, number_or_null, optional_count, rows_shown,
    shown_before, text, text_or_null, Fields,
};
use crate::net::http::time::{rfc3339, rfc3339_text, room_time, whole_seconds};
use crate::net::metrics::{
    last_client_message_at, last_save_at, time_or_never, Metrics, SlotKey,
};
use crate::table::{wrapped, Table};
use vstd::prelude::*;

verus! {

/// What a room reports of itself.
#[derive(Debug)]
pub struct Status {
    pub clients_connected: usize,
    /// State has changed since the last save was started.
    pub save_dirty: bool,
    pub save_interval_seconds: u64,
    /// Whether this room is saved at all.
    pub saving: bool,
    pub options: Options,
    pub slots: Vec<SlotStatus>,
    /// When any slot last checked a new location: a double of seconds since the epoch, by its bit
    /// pattern.
    pub last_check_at: Option<u64>,
    /// What filters dropped, by slot, direction and kind.
    pub drops: Drops,
    /// Requests for what was already done, by slot and kind.
    pub redundant: Table<(SlotKey, &'static str), u64>,
}

/// What filters dropped, by slot, direction and kind.
pub type Drops = Table<(SlotKey, (&'static str, &'static str)), u64>;

/// The rules of a room, as they are now. The passwords are not among them.
#[derive(Debug, Clone)]
pub struct Options {
    pub hint_cost: u32,
    pub location_check_points: u32,
    pub release_mode: &'static str,
    pub collect_mode: &'static str,
    pub remaining_mode: &'static str,
    pub countdown_mode: &'static str,
    pub item_cheat: bool,
    pub compatibility: u8,
}

/// What a room reports of one slot.
#[derive(Debug, Clone)]
pub struct SlotStatus {
    pub team: u32,
    pub slot: u32,
    pub name: String,
    pub game: String,
    /// Open connections, commonly more than one.
    pub connections: usize,
    pub checks: usize,
    pub total_checks: usize,
    pub status: &'static str,
    /// Barred from connecting.
    pub locked: bool,
    /// Whether anything filters the traffic of the slot.
    pub filtered: bool,
}

/// What is read off the process and its clock when a report is made. The times are seconds since
/// the epoch, but for `cpu` and `start`, which are hundredths of a second.
#[derive(Debug, Clone, Copy)]
pub struct Sample {
    pub now: u64,
    pub started_at: u64,
    pub compressions: u64,
    pub resident: Option<u64>,
    pub cpu: Option<u64>,
    pub start: Option<u64>,
    pub outbound_budget_bytes: usize,
}

/// The version of this program.
pub const PAHOA_VERSION: &'static str = "0.1.0";

/// Seconds from a time to another; none where the second is before the first.
pub open spec fn elapsed(at: u64, now: u64) -> u64 {
    if now >= at {
        (now - at) as u64
    } else {
        0
    }
}

/// Seconds since any client last said anything.
pub open spec fn idle_of(message_at: u64, now: u64) -> Option<u64> {
    match time_or_never(message_at) {
        Some(at) => Some(elapsed(at, now)),
        None => None,
    }
}

/// Seconds since any slot last checked a location.
pub open spec fn check_idle_of(last_check_at: Option<u64>, now: u64) -> Option<u64> {
    match last_check_at {
        Some(bits) => Some(elapsed(whole_seconds(bits), now)),
        None => None,
    }
}

/// Seconds since any client last said anything, or none if none has.
pub fn idle_seconds(m: &Metrics, now: u64) -> (r: Option<u64>)
    ensures
        r == idle_of(m@.message_at, now),
{
    match last_client_message_at(m) {
        Some(at) => Some(now.saturating_sub(at)),
        None => None,
    }
}

/// Seconds since any slot last checked a location, or none if none ever has.
pub fn check_idle_seconds(last_check_at: Option<u64>, now: u64) -> (r: Option<u64>)
    ensures
        r == check_idle_of(last_check_at, now),
{
    match last_check_at {
        Some(bits) => Some(now.saturating_sub(room_time(bits))),
        None => None,
    }
}

/// How many slots something is true of.
fn count_slots<F: Fn(&SlotStatus) -> bool>(
    slots: &Vec<SlotStatus>,
    keep: F,
    Ghost(kept): Ghost<spec_fn(SlotStatus) -> bool>,
) -> (r: usize)
    requires
        forall|x: &SlotStatus| #[trigger] keep.requires((x,)),
        forall|x: &SlotStatus, b: bool| #[trigger] keep.ensures((x,), b) ==> b == kept(*x),
    ensures
        r == slots@.filter(kept).len(),
{
    let mut n: usize = 0;
    proof {
        reveal(Seq::filter);
        assert(slots@.take(0).filter(kept).len() == 0);
    }
    for i in 0..slots.len()
        invariant
            forall|x: &SlotStatus| #[trigger] keep.requires((x,)),
            forall|x: &SlotStatus, b: bool| #[trigger] keep.ensures((x,), b) ==> b == kept(*x),
            n <= i,
            n == slots@.take(i as int).filter(kept).len(),
    {
        proof {
            reveal(Seq::filter);
            assert(slots@.take(i + 1).drop_last() =~= slots@.take(i as int));
        }
        if keep(&slots[i]) {
            n += 1;
        }
    }
    assert(slots@.take(slots@.len() as int) =~= slots@);
    n
}

/// How many slots something filters.
pub fn slots_filtered(slots: &Vec<SlotStatus>) -> (r: usize)
    ensures
        r == slots@.filter(|s: SlotStatus| s.filtered).len(),
{
    let keep = |s: &SlotStatus| -> (b: bool)
        ensures
            b == s.filtered,
        { s.filtered };
    count_slots(slots, keep, Ghost(|s: SlotStatus| s.filtered))
}

/// How many slots are locked.
pub fn slots_locked(slots: &Vec<SlotStatus>) -> (r: usize)
    ensures
        r == slots@.filter(|s: SlotStatus| s.locked).len(),
{
    let keep = |s: &SlotStatus| -> (b: bool)
        ensures
            b == s.locked,
        { s.locked };
    count_slots(slots, keep, Ghost(|s: SlotStatus| s.locked))
}

/// How many slots have an open connection.
pub fn slots_connected(slots: &Vec<SlotStatus>) -> (r: usize)
    ensures
        r == slots@.filter(|s: SlotStatus| s.connections > 0).len(),
{
    let keep = |s: &SlotStatus| -> (b: bool)
        ensures
            b == (s.connections > 0),
        { s.connections > 0 };
    count_slots(slots, keep, Ghost(|s: SlotStatus| s.connections > 0))
}

/// What was dropped in one direction, added up over the slots and the kinds.
pub open spec fn dropped(
    drops: Seq<((SlotKey, (Seq<char>, Seq<char>)), u64)>,
    direction: Seq<char>,
) -> u64
    decreases drops.len(),
{
    if drops.len() == 0 {
        0
    } else {
        let before = dropped(drops.drop_last(), direction);
        if drops.last().0.1.0 == direction {
            wrapped(before, drops.last().1)
        } else {
            before
        }
    }
}

/// What was dropped in one direction.
pub fn dropped_in(drops: &Drops, direction: &str) -> (r: u64)
    ensures
        r == dropped(drops.deep_view(), direction@),
{
    let ghost all = drops.deep_view();
    let n: usize = drops.len();
    let mut total: u64 = 0;
    for i in 0..n
        invariant
            all == drops.deep_view(),
            n == all.len(),
            total == dropped(all.take(i as int), direction@),
    {
        assert(all.take(i + 1).drop_last() =~= all.take(i as int));
        let k = drops.key_at(i);
        if *k.1.0 == *direction {
            total = total.wrapping_add(*drops.value_at(i));
        }
    }
    assert(all.take(n as int) =~= all);
    total
}

/// What the document says of one slot.
pub open spec fn slot_datum(s: SlotStatus) -> Datum {
    Datum::Dict(
        seq![
            ("team"@, number(s.team as int)),
            ("slot"@, number(s.slot as int)),
            ("name"@, Datum::Text(s.name@)),
            ("game"@, Datum::Text(s.game@)),
            ("connected"@, Datum::Bool(s.connections > 0)),
            ("connections"@, number(s.connections as int)),
            ("checks"@, number(s.checks as int)),
            ("total_checks"@, number(s.total_checks as int)),
            ("status"@, Datum::Text(s.status@)),
            ("locked"@, Datum::Bool(s.locked)),
            ("filtered"@, Datum::Bool(s.filtered)),
        ],
    )
}

/// A time in the form of RFC 3339, or none.
pub open spec fn shown_time(at: Option<u64>) -> Option<Seq<char>> {
    match at {
        Some(at) => Some(rfc3339_text(at as int)),
        None => None,
    }
}

/// What the document says of the last save; null where the room is not saved.
pub open spec fn save_datum(live: Status, m: Metrics) -> Datum {
    if live.saving {
        Datum::Dict(
            seq![
                ("last_save_at"@, text_or_null(shown_time(time_or_never(m@.save_at)))),
                ("last_save_bytes"@, number(m@.save_bytes as int)),
                ("last_save_micros"@, number(m@.save_micros as int)),
                ("save_interval_seconds"@, number(live.save_interval_seconds as int)),
                ("dirty"@, Datum::Bool(live.save_dirty)),
            ],
        )
    } else {
        Datum::Null
    }
}

/// What the document says of the network.
pub open spec fn net_datum(live: Status, m: Metrics, ledger: Ledger, at: Sample) -> Datum {
    Datum::Dict(
        seq![
            ("clients_connected"@, number(live.clients_connected as int)),
            ("mailbox_depth"@, number(m@.depth as int)),
            ("mailbox_peak"@, number(m@.peak as int)),
            ("lag_disconnects"@, number(m@.lagged as int)),
            ("outbound_queued_bytes"@, number(ledger.queued as int)),
            ("outbound_peak_bytes"@, number(ledger.peak as int)),
            ("outbound_budget_bytes"@, number(at.outbound_budget_bytes as int)),
            ("resident_bytes"@, number_or_null(at.resident)),
            ("compressions"@, number(at.compressions as int)),
        ],
    )
}

/// What the document says of when something last happened.
pub open spec fn activity_datum(live: Status, m: Metrics, at: Sample) -> Datum {
    Datum::Dict(
        seq![
            (
                "last_client_message_at"@,
                text_or_null(shown_time(time_or_never(m@.message_at))),
            ),
            ("idle_seconds"@, number_or_null(idle_of(m@.message_at, at.now))),
            (
                "last_check_at"@,
                text_or_null(
                    shown_time(
                        match live.last_check_at {
                            Some(bits) => Some(whole_seconds(bits)),
                            None => None,
                        },
                    ),
                ),
            ),
            ("check_idle_seconds"@, number_or_null(check_idle_of(live.last_check_at, at.now))),
        ],
    )
}

/// What the document says of filters.
pub open spec fn filters_datum(live: Status) -> Datum {
    Datum::Dict(
        seq![
            (
                "slots_filtered"@,
                number(live.slots@.filter(|s: SlotStatus| s.filtered).len() as int),
            ),
            (
                "dropped_from_slots"@,
                number(dropped(live.drops.deep_view(), "from_slot"@) as int),
            ),
            ("dropped_to_slots"@, number(dropped(live.drops.deep_view(), "to_slot"@) as int)),
        ],
    )
}

/// What the document says of the rules.
pub open spec fn options_datum(o: Options) -> Datum {
    Datum::Dict(
        seq![
            ("hint_cost"@, number(o.hint_cost as int)),
            ("location_check_points"@, number(o.location_check_points as int)),
            ("release_mode"@, Datum::Text(o.release_mode@)),
            ("collect_mode"@, Datum::Text(o.collect_mode@)),
            ("remaining_mode"@, Datum::Text(o.remaining_mode@)),
            ("countdown_mode"@, Datum::Text(o.countdown_mode@)),
            ("item_cheat"@, Datum::Bool(o.item_cheat)),
            ("compatibility"@, number(o.compatibility as int)),
        ],
    )
}

/// The status document.
pub open spec fn status_datum(
    seed_name: Seq<char>,
    live: Status,
    m: Metrics,
    ledger: Ledger,
    at: Sample,
) -> Datum {
    Datum::Dict(
        seq![
            ("seed_name"@, Datum::Text(seed_name)),
            ("pahoa_version"@, Datum::Text(PAHOA_VERSION@)),
            ("api_version"@, number(1)),
            ("started_at"@, Datum::Text(rfc3339_text(at.started_at as int))),
            ("save"@, save_datum(live, m)),
            ("net"@, net_datum(live, m, ledger, at)),
            ("activity"@, activity_datum(live, m, at)),
            ("filters"@, filters_datum(live)),
            ("options"@, options_datum(live.options)),
            ("slots"@, each(live.slots@, |s: SlotStatus| slot_datum(s))),
        ],
    )
}

fn show_time(at: Option<u64>) -> (r: Value)
    ensures
        r@ == text_or_null(shown_time(at)),
{
    match at {
        Some(at) => Value::String(rfc3339(at)),
        None => Value::Null,
    }
}

fn slot_row(s: &SlotStatus) -> (r: Value)
    ensures
        r@ == slot_datum(*s),
{
    let fields = Fields::new().with("team", count(s.team as u64)).with(
        "slot",
        count(s.slot as u64),
    ).with("name", text(s.name.as_str())).with("game", text(s.game.as_str())).with(
        "connected",
        Value::Bool(s.connections > 0),
    ).with("connections", count(s.connections as u64)).with("checks", count(s.checks as u64)).with(
        "total_checks",
        count(s.total_checks as u64),
    ).with("status", text(s.status)).with("locked", Value::Bool(s.locked)).with(
        "filtered",
        Value::Bool(s.filtered),
    );
    assert(fields@ =~= slot_datum(*s)->Dict_0);
    fields.object()
}

fn save(live: &Status, m: &Metrics) -> (r: Value)
    ensures
        r@ == save_datum(*live, *m),
{
    if !live.saving {
        return Value::Null;
    }
    let fields = Fields::new().with("last_save_at", show_time(last_save_at(m))).with(
        "last_save_bytes",
        count(m.save_bytes),
    ).with("last_save_micros", count(m.save_micros)).with(
        "save_interval_seconds",
        count(live.save_interval_seconds),
    ).with("dirty", Value::Bool(live.save_dirty));
    assert(fields@ =~= save_datum(*live, *m)->Dict_0);
    fields.object()
}

fn net(live: &Status, m: &Metrics, ledger: &Ledger, at: &Sample) -> (r: Value)
    ensures
        r@ == net_datum(*live, *m, *ledger, *at),
{
    let fields = Fields::new().with("clients_connected", count(live.clients_connected as u64)).with(
        "mailbox_depth",
        count(m.depth as u64),
    ).with("mailbox_peak", count(m.peak as u64)).with("lag_disconnects", count(m.lagged)).with(
        "outbound_queued_bytes",
        count(ledger.queued as u64),
    ).with("outbound_peak_bytes", count(ledger.peak as u64)).with(
        "outbound_budget_bytes",
        count(at.outbound_budget_bytes as u64),
    ).with("resident_bytes", optional_count(at.resident)).with(
        "compressions",
        count(at.compressions),
    );
    assert(fields@ =~= net_datum(*live, *m, *ledger, *at)->Dict_0);
    fields.object()
}

fn activity(live: &Status, m: &Metrics, at: &Sample) -> (r: Value)
    ensures
        r@ == activity_datum(*live, *m, *at),
{
    let checked: Option<u64> = match live.last_check_at {
        Some(bits) => Some(room_time(bits)),
        None => None,
    };
    let fields = Fields::new().with(
        "last_client_message_at",
        show_time(last_client_message_at(m)),
    ).with("idle_seconds", optional_count(idle_seconds(m, at.now))).with(
        "last_check_at",
        show_time(checked),
    ).with("check_idle_seconds", optional_count(check_idle_seconds(live.last_check_at, at.now)));
    assert(fields@ =~= activity_datum(*live, *m, *at)->Dict_0);
    fields.object()
}

fn filters(live: &Status) -> (r: Value)
    ensures
        r@ == filters_datum(*live),
{
    let fields = Fields::new().with(
        "slots_filtered",
        count(slots_filtered(&live.slots) as u64),
    ).with("dropped_from_slots", count(dropped_in(&live.drops, "from_slot"))).with(
        "dropped_to_slots",
        count(dropped_in(&live.drops, "to_slot")),
    );
    assert(fields@ =~= filters_datum(*live)->Dict_0);
    fields.object()
}

fn options(o: &Options) -> (r: Value)
    ensures
        r@ == options_datum(*o),
{
    let fields = Fields::new().with("hint_cost", count(o.hint_cost as u64)).with(
        "location_check_points",
        count(o.location_check_points as u64),
    ).with("release_mode", text(o.release_mode)).with("collect_mode", text(o.collect_mode)).with(
        "remaining_mode",
        text(o.remaining_mode),
    ).with("countdown_mode", text(o.countdown_mode)).with(
        "item_cheat",
        Value::Bool(o.item_cheat),
    ).with("compatibility", count(o.compatibility as u64));
    assert(fields@ =~= options_datum(*o)->Dict_0);
    fields.object()
}

/// The status document.
pub fn document(
    seed: &MultiData,
    live: &Status,
    m: &Metrics,
    ledger: &Ledger,
    at: &Sample,
) -> (r: Value)
    ensures
        r@ == status_datum(seed.seed_name@, *live, *m, *ledger, *at),
{
    let one = |s: &SlotStatus| -> (v: Value)
        ensures
            v@ == slot_datum(*s),
        { slot_row(s) };
    let slots = list_each(&live.slots, one, Ghost(|s: SlotStatus| slot_datum(s)));
    let fields = Fields::new().with("seed_name", text(seed.seed_name.as_str())).with(
        "pahoa_version",
        text(PAHOA_VERSION),
    ).with("api_version", count(1)).with("started_at", Value::String(rfc3339(at.started_at))).with(
        "save",
        save(live, m),
    ).with("net", net(live, m, ledger, at)).with("activity", activity(live, m, at)).with(
        "filters",
        filters(live),
    ).with("options", options(&live.options)).with("slots", slots);
    assert(fields@ =~= status_datum(seed.seed_name@, *live, *m, *ledger, *at)->Dict_0);
    fields.object()
}

/// The names in the status document differ.
proof fn top_names_differ()
    ensures
        "pahoa_version"@ != "seed_name"@,
        "api_version"@ != "seed_name"@ && "api_version"@ != "pahoa_version"@,
        "started_at"@ != "seed_name"@ && "started_at"@ != "pahoa_version"@
            && "started_at"@ != "api_version"@,
        "save"@ != "seed_name"@ && "save"@ != "pahoa_version"@ && "save"@ != "api_version"@
            && "save"@ != "started_at"@,
        "net"@ != "seed_name"@ && "net"@ != "pahoa_version"@ && "net"@ != "api_version"@
            && "net"@ != "started_at"@ && "net"@ != "save"@,
        "activity"@ != "seed_name"@ && "activity"@ != "pahoa_version"@
            && "activity"@ != "api_version"@ && "activity"@ != "started_at"@
            && "activity"@ != "save"@ && "activity"@ != "net"@,
        "filters"@ != "seed_name"@ && "filters"@ != "pahoa_version"@
            && "filters"@ != "api_version"@ && "filters"@ != "started_at"@
            && "filters"@ != "save"@ && "filters"@ != "net"@ && "filters"@ != "activity"@,
        "options"@ != "seed_name"@ && "options"@ != "pahoa_version"@
            && "options"@ != "api_version"@ && "options"@ != "started_at"@
            && "options"@ != "save"@ && "options"@ != "net"@ && "options"@ != "activity"@
            && "options"@ != "filters"@,
        "slots"@ != "seed_name"@ && "slots"@ != "pahoa_version"@ && "slots"@ != "api_version"@
            && "slots"@ != "started_at"@ && "slots"@ != "save"@ && "slots"@ != "net"@
            && "slots"@ != "activity"@ && "slots"@ != "filters"@ && "slots"@ != "options"@,
{
    reveal_strlit("seed_name");
    reveal_strlit("pahoa_version");
    reveal_strlit("api_version");
    reveal_strlit("started_at");
    reveal_strlit("save");
    reveal_strlit("net");
    reveal_strlit("activity");
    reveal_strlit("filters");
    reveal_strlit("options");
    reveal_strlit("slots");
    assert("seed_name"@.len() == 9 && "pahoa_version"@.len() == 13 && "api_version"@.len() == 11
        && "started_at"@.len() == 10 && "save"@.len() == 4 && "net"@.len() == 3
        && "activity"@.len() == 8 && "filters"@.len() == 7 && "options"@.len() == 7
        && "slots"@.len() == 5);
    assert("filters"@[0] == 'f' && "options"@[0] == 'o');
}

/// The names of what is said of a slot differ.
proof fn slot_names_differ()
    ensures
        "slot"@ != "team"@,
        "name"@ != "team"@ && "name"@ != "slot"@,
        "game"@ != "team"@ && "game"@ != "slot"@ && "game"@ != "name"@,
        "connected"@ != "team"@ && "connected"@ != "slot"@ && "connected"@ != "name"@
            && "connected"@ != "game"@,
        "connections"@ != "team"@ && "connections"@ != "slot"@ && "connections"@ != "name"@
            && "connections"@ != "game"@ && "connections"@ != "connected"@,
        "checks"@ != "team"@ && "checks"@ != "slot"@ && "checks"@ != "name"@
            && "checks"@ != "game"@ && "checks"@ != "connected"@ && "checks"@ != "connections"@,
        "total_checks"@ != "team"@ && "total_checks"@ != "slot"@ && "total_checks"@ != "name"@
            && "total_checks"@ != "game"@ && "total_checks"@ != "connected"@
            && "total_checks"@ != "connections"@ && "total_checks"@ != "checks"@,
        "status"@ != "team"@ && "status"@ != "slot"@ && "status"@ != "name"@
            && "status"@ != "game"@ && "status"@ != "connected"@ && "status"@ != "connections"@
            && "status"@ != "checks"@ && "status"@ != "total_checks"@,
        "locked"@ != "team"@ && "locked"@ != "slot"@ && "locked"@ != "name"@
            && "locked"@ != "game"@ && "locked"@ != "connected"@ && "locked"@ != "connections"@
            && "locked"@ != "checks"@ && "locked"@ != "total_checks"@ && "locked"@ != "status"@,
        "filtered"@ != "team"@ && "filtered"@ != "slot"@ && "filtered"@ != "name"@
            && "filtered"@ != "game"@ && "filtered"@ != "connected"@
            && "filtered"@ != "connections"@ && "filtered"@ != "checks"@
            && "filtered"@ != "total_checks"@ && "filtered"@ != "status"@
            && "filtered"@ != "locked"@,
{
    reveal_strlit("team");
    reveal_strlit("slot");
    reveal_strlit("name");
    reveal_strlit("game");
    reveal_strlit("connected");
    reveal_strlit("connections");
    reveal_strlit("checks");
    reveal_strlit("total_checks");
    reveal_strlit("status");
    reveal_strlit("locked");
    reveal_strlit("filtered");
    assert("team"@.len() == 4 && "slot"@.len() == 4 && "name"@.len() == 4 && "game"@.len() == 4
        && "connected"@.len() == 9 && "connections"@.len() == 11 && "checks"@.len() == 6
        && "total_checks"@.len() == 12 && "status"@.len() == 6 && "locked"@.len() == 6
        && "filtered"@.len() == 8);
    assert("checks"@[0] == 'c' && "game"@[0] == 'g' && "locked"@[0] == 'l' && "name"@[0] == 'n'
        && "slot"@[0] == 's' && "status"@[0] == 's' && "team"@[0] == 't');
}

/// The names in the parts of the status document differ.
proof fn part_names_differ()
    ensures
        "last_save_bytes"@ != "last_save_at"@,
        "last_save_micros"@ != "last_save_at"@ && "last_save_micros"@ != "last_save_bytes"@,
        "save_interval_seconds"@ != "last_save_at"@
            && "save_interval_seconds"@ != "last_save_bytes"@
            && "save_interval_seconds"@ != "last_save_micros"@,
        "dirty"@ != "last_save_at"@ && "dirty"@ != "last_save_bytes"@
            && "dirty"@ != "last_save_micros"@ && "dirty"@ != "save_interval_seconds"@,
        "mailbox_depth"@ != "clients_connected"@,
        "mailbox_peak"@ != "clients_connected"@ && "mailbox_peak"@ != "mailbox_depth"@,
        "lag_disconnects"@ != "clients_connected"@ && "lag_disconnects"@ != "mailbox_depth"@
            && "lag_disconnects"@ != "mailbox_peak"@,
        "outbound_queued_bytes"@ != "clients_connected"@
            && "outbound_queued_bytes"@ != "mailbox_depth"@
            && "outbound_queued_bytes"@ != "mailbox_peak"@
            && "outbound_queued_bytes"@ != "lag_disconnects"@,
        "outbound_peak_bytes"@ != "clients_connected"@
            && "outbound_peak_bytes"@ != "mailbox_depth"@
            && "outbound_peak_bytes"@ != "mailbox_peak"@
            && "outbound_peak_bytes"@ != "lag_disconnects"@
            && "outbound_peak_bytes"@ != "outbound_queued_bytes"@,
        "outbound_budget_bytes"@ != "clients_connected"@
            && "outbound_budget_bytes"@ != "mailbox_depth"@
            && "outbound_budget_bytes"@ != "mailbox_peak"@
            && "outbound_budget_bytes"@ != "lag_disconnects"@
            && "outbound_budget_bytes"@ != "outbound_queued_bytes"@
            && "outbound_budget_bytes"@ != "outbound_peak_bytes"@,
        "resident_bytes"@ != "clients_connected"@ && "resident_bytes"@ != "mailbox_depth"@
            && "resident_bytes"@ != "mailbox_peak"@ && "resident_bytes"@ != "lag_disconnects"@
            && "resident_bytes"@ != "outbound_queued_bytes"@
            && "resident_bytes"@ != "outbound_peak_bytes"@
            && "resident_bytes"@ != "outbound_budget_bytes"@,
        "compressions"@ != "clients_connected"@ && "compressions"@ != "mailbox_depth"@
            && "compressions"@ != "mailbox_peak"@ && "compressions"@ != "lag_disconnects"@
            && "compressions"@ != "outbound_queued_bytes"@
            && "compressions"@ != "outbound_peak_bytes"@
            && "compressions"@ != "outbound_budget_bytes"@
            && "compressions"@ != "resident_bytes"@,
        "idle_seconds"@ != "last_client_message_at"@,
        "last_check_at"@ != "last_client_message_at"@ && "last_check_at"@ != "idle_seconds"@,
        "check_idle_seconds"@ != "last_client_message_at"@
            && "check_idle_seconds"@ != "idle_seconds"@
            && "check_idle_seconds"@ != "last_check_at"@,
        "dropped_from_slots"@ != "slots_filtered"@,
        "dropped_to_slots"@ != "slots_filtered"@ && "dropped_to_slots"@ != "dropped_from_slots"@,
{
    reveal_strlit("last_save_at");
    reveal_strlit("last_save_bytes");
    reveal_strlit("last_save_micros");
    reveal_strlit("save_interval_seconds");
    reveal_strlit("dirty");
    reveal_strlit("clients_connected");
    reveal_strlit("mailbox_depth");
    reveal_strlit("mailbox_peak");
    reveal_strlit("lag_disconnects");
    reveal_strlit("outbound_queued_bytes");
    reveal_strlit("outbound_peak_bytes");
    reveal_strlit("outbound_budget_bytes");
    reveal_strlit("resident_bytes");
    reveal_strlit("compressions");
    reveal_strlit("last_client_message_at");
    reveal_strlit("idle_seconds");
    reveal_strlit("last_check_at");
    reveal_strlit("check_idle_seconds");
    reveal_strlit("slots_filtered");
    reveal_strlit("dropped_from_slots");
    reveal_strlit("dropped_to_slots");
    assert("last_save_at"@.len() == 12 && "last_save_bytes"@.len() == 15
        && "last_save_micros"@.len() == 16 && "save_interval_seconds"@.len() == 21
        && "dirty"@.len() == 5 && "clients_connected"@.len() == 17
        && "mailbox_depth"@.len() == 13 && "mailbox_peak"@.len() == 12
        && "lag_disconnects"@.len() == 15 && "outbound_queued_bytes"@.len() == 21
        && "outbound_peak_bytes"@.len() == 19 && "outbound_budget_bytes"@.len() == 21
        && "resident_bytes"@.len() == 14 && "compressions"@.len() == 12
        && "last_client_message_at"@.len() == 22 && "idle_seconds"@.len() == 12
        && "last_check_at"@.len() == 13 && "check_idle_seconds"@.len() == 18
        && "slots_filtered"@.len() == 14 && "dropped_from_slots"@.len() == 18
        && "dropped_to_slots"@.len() == 16);
    assert("compressions"@[0] == 'c' && "mailbox_peak"@[0] == 'm'
        && "outbound_budget_bytes"@[9] == 'b' && "outbound_queued_bytes"@[9] == 'q');
}

/// The names of the rules differ.
proof fn option_names_differ()
    ensures
        "location_check_points"@ != "hint_cost"@,
        "release_mode"@ != "hint_cost"@ && "release_mode"@ != "location_check_points"@,
        "collect_mode"@ != "hint_cost"@ && "collect_mode"@ != "location_check_points"@
            && "collect_mode"@ != "release_mode"@,
        "remaining_mode"@ != "hint_cost"@ && "remaining_mode"@ != "location_check_points"@
            && "remaining_mode"@ != "release_mode"@ && "remaining_mode"@ != "collect_mode"@,
        "countdown_mode"@ != "hint_cost"@ && "countdown_mode"@ != "location_check_points"@
            && "countdown_mode"@ != "release_mode"@ && "countdown_mode"@ != "collect_mode"@
            && "countdown_mode"@ != "remaining_mode"@,
        "item_cheat"@ != "hint_cost"@ && "item_cheat"@ != "location_check_points"@
            && "item_cheat"@ != "release_mode"@ && "item_cheat"@ != "collect_mode"@
            && "item_cheat"@ != "remaining_mode"@ && "item_cheat"@ != "countdown_mode"@,
        "compatibility"@ != "hint_cost"@ && "compatibility"@ != "location_check_points"@
            && "compatibility"@ != "release_mode"@ && "compatibility"@ != "collect_mode"@
            && "compatibility"@ != "remaining_mode"@ && "compatibility"@ != "countdown_mode"@
            && "compatibility"@ != "item_cheat"@,
{
    reveal_strlit("hint_cost");
    reveal_strlit("location_check_points");
    reveal_strlit("release_mode");
    reveal_strlit("collect_mode");
    reveal_strlit("remaining_mode");
    reveal_strlit("countdown_mode");
    reveal_strlit("item_cheat");
    reveal_strlit("compatibility");
    assert("hint_cost"@.len() == 9 && "location_check_points"@.len() == 21
        && "release_mode"@.len() == 12 && "collect_mode"@.len() == 12
        && "remaining_mode"@.len() == 14 && "countdown_mode"@.len() == 14
        && "item_cheat"@.len() == 10 && "compatibility"@.len() == 13);
    assert("collect_mode"@[0] == 'c' && "countdown_mode"@[0] == 'c' && "release_mode"@[0] == 'r'
        && "remaining_mode"@[0] == 'r');
}

/// The parts of the status document, each under its name.
proof fn status_parts(seed_name: Seq<char>, live: Status, m: Metrics, ledger: Ledger, at: Sample)
    ensures
        ({
            let doc = status_datum(seed_name, live, m, ledger, at);
            &&& member(doc, "seed_name"@) == Datum::Text(seed_name)
            &&& member(doc, "pahoa_version"@) == Datum::Text("0.1.0"@)
            &&& member(doc, "api_version"@) == number(1)
            &&& member(doc, "started_at"@) == Datum::Text(rfc3339_text(at.started_at as int))
            &&& member(doc, "save"@) == save_datum(live, m)
            &&& member(doc, "net"@) == net_datum(live, m, ledger, at)
            &&& member(doc, "activity"@) == activity_datum(live, m, at)
            &&& member(doc, "filters"@) == filters_datum(live)
            &&& member(doc, "options"@) == options_datum(live.options)
            &&& member(doc, "slots"@) == each(live.slots@, |s: SlotStatus| slot_datum(s))
        }),
{
    top_names_differ();
    let d = status_datum(seed_name, live, m, ledger, at)->Dict_0;
    member_found(d, 0);
    member_found(d, 1);
    member_found(d, 2);
    member_found(d, 3);
    member_found(d, 4);
    member_found(d, 5);
    member_found(d, 6);
    member_found(d, 7);
    member_found(d, 8);
    member_found(d, 9);
}

/// The status document names the seed and says when the room was started; each slot has its row,
/// in order, and every entry of a row is that of its slot.
pub proof fn the_status_shows_each_slot(
    seed_name: Seq<char>,
    live: Status,
    m: Metrics,
    ledger: Ledger,
    at: Sample,
    i: int,
)
    requires
        0 <= i < live.slots@.len(),
    ensures
        ({
            let doc = status_datum(seed_name, live, m, ledger, at);
            let s = live.slots@[i];
            &&& member(doc, "seed_name"@) == Datum::Text(seed_name)
            &&& member(doc, "started_at"@) == Datum::Text(rfc3339_text(at.started_at as int))
            &&& member(doc, "slots"@) matches Datum::List(rows)
            &&& rows.len() == live.slots@.len()
            &&& member(rows[i], "team"@) == number(s.team as int)
            &&& member(rows[i], "slot"@) == number(s.slot as int)
            &&& member(rows[i], "name"@) == Datum::Text(s.name@)
            &&& member(rows[i], "game"@) == Datum::Text(s.game@)
            &&& member(rows[i], "connected"@) == Datum::Bool(s.connections > 0)
            &&& member(rows[i], "connections"@) == number(s.connections as int)
            &&& member(rows[i], "checks"@) == number(s.checks as int)
            &&& member(rows[i], "total_checks"@) == number(s.total_checks as int)
            &&& member(rows[i], "status"@) == Datum::Text(s.status@)
            &&& member(rows[i], "locked"@) == Datum::Bool(s.locked)
            &&& member(rows[i], "filtered"@) == Datum::Bool(s.filtered)
        }),
{
    status_parts(seed_name, live, m, ledger, at);
    slot_names_differ();
    let d = slot_datum(live.slots@[i])->Dict_0;
    member_found(d, 0);
    member_found(d, 1);
    member_found(d, 2);
    member_found(d, 3);
    member_found(d, 4);
    member_found(d, 5);
    member_found(d, 6);
    member_found(d, 7);
    member_found(d, 8);
    member_found(d, 9);
    member_found(d, 10);
}

/// The status document shows the queues, the budget and the process as they were sampled, each
/// number under its own name.
pub proof fn the_status_shows_the_network(
    seed_name: Seq<char>,
    live: Status,
    m: Metrics,
    ledger: Ledger,
    at: Sample,
)
    ensures
        ({
            let net = member(status_datum(seed_name, live, m, ledger, at), "net"@);
            &&& member(net, "clients_connected"@) == number(live.clients_connected as int)
            &&& member(net, "mailbox_depth"@) == number(m.depth as int)
            &&& member(net, "mailbox_peak"@) == number(m.peak as int)
            &&& member(net, "lag_disconnects"@) == number(m.lagged as int)
            &&& member(net, "outbound_queued_bytes"@) == number(ledger.queued as int)
            &&& member(net, "outbound_peak_bytes"@) == number(ledger.peak as int)
            &&& member(net, "outbound_budget_bytes"@) == number(at.outbound_budget_bytes as int)
            &&& at.resident is None ==> member(net, "resident_bytes"@) == Datum::Null
            &&& at.resident matches Some(n) ==> member(net, "resident_bytes"@) == number(n as int)
            &&& member(net, "compressions"@) == number(at.compressions as int)
        }),
{
    status_parts(seed_name, live, m, ledger, at);
    part_names_differ();
    let d = net_datum(live, m, ledger, at)->Dict_0;
    member_found(d, 0);
    member_found(d, 1);
    member_found(d, 2);
    member_found(d, 3);
    member_found(d, 4);
    member_found(d, 5);
    member_found(d, 6);
    member_found(d, 7);
    member_found(d, 8);
}

/// The status document shows the last save of a room that is saved, null where it never was, and
/// nothing of saves of one that is not.
pub proof fn the_status_shows_the_last_save(
    seed_name: Seq<char>,
    live: Status,
    m: Metrics,
    ledger: Ledger,
    at: Sample,
)
    ensures
        ({
            let save = member(status_datum(seed_name, live, m, ledger, at), "save"@);
            &&& !live.saving ==> save == Datum::Null
            &&& live.saving ==> {
                &&& m.save_at == 0 ==> member(save, "last_save_at"@) == Datum::Null
                &&& m.save_at > 0 ==> member(save, "last_save_at"@) == Datum::Text(
                    rfc3339_text(m.save_at as int),
                )
                &&& member(save, "last_save_bytes"@) == number(m.save_bytes as int)
                &&& member(save, "last_save_micros"@) == number(m.save_micros as int)
                &&& member(save, "save_interval_seconds"@) == number(
                    live.save_interval_seconds as int,
                )
                &&& member(save, "dirty"@) == Datum::Bool(live.save_dirty)
            }
        }),
{
    status_parts(seed_name, live, m, ledger, at);
    part_names_differ();
    if live.saving {
        let d = save_datum(live, m)->Dict_0;
        member_found(d, 0);
        member_found(d, 1);
        member_found(d, 2);
        member_found(d, 3);
        member_found(d, 4);
    }
}

/// The status document shows when a client last spoke and when a slot last checked a location,
/// and how many seconds ago; null where it never was, and none where it lies ahead.
pub proof fn the_status_shows_how_long_nothing_happened(
    seed_name: Seq<char>,
    live: Status,
    m: Metrics,
    ledger: Ledger,
    at: Sample,
)
    ensures
        ({
            let a = member(status_datum(seed_name, live, m, ledger, at), "activity"@);
            &&& m.message_at == 0 ==> member(a, "last_client_message_at"@) == Datum::Null && member(
                a,
                "idle_seconds"@,
            ) == Datum::Null
            &&& m.message_at > 0 ==> member(a, "last_client_message_at"@) == Datum::Text(
                rfc3339_text(m.message_at as int),
            )
            &&& 0 < m.message_at <= at.now ==> member(a, "idle_seconds"@) == number(
                at.now - m.message_at,
            )
            &&& m.message_at > at.now ==> member(a, "idle_seconds"@) == number(0)
            &&& live.last_check_at is None ==> member(a, "last_check_at"@) == Datum::Null && member(
                a,
                "check_idle_seconds"@,
            ) == Datum::Null
            &&& live.last_check_at matches Some(t) ==> member(a, "last_check_at"@) == Datum::Text(
                rfc3339_text(whole_seconds(t) as int),
            ) && (whole_seconds(t) <= at.now ==> member(a, "check_idle_seconds"@) == number(
                at.now - whole_seconds(t),
            )) && (whole_seconds(t) > at.now ==> member(a, "check_idle_seconds"@) == number(0))
        }),
{
    status_parts(seed_name, live, m, ledger, at);
    part_names_differ();
    let d = activity_datum(live, m, at)->Dict_0;
    member_found(d, 0);
    member_found(d, 1);
    member_found(d, 2);
    member_found(d, 3);
}

/// The status document shows the rules of the room, each under its own name.
pub proof fn the_status_shows_the_rules(
    seed_name: Seq<char>,
    live: Status,
    m: Metrics,
    ledger: Ledger,
    at: Sample,
)
    ensures
        ({
            let o = member(status_datum(seed_name, live, m, ledger, at), "options"@);
            &&& member(o, "hint_cost"@) == number(live.options.hint_cost as int)
            &&& member(o, "location_check_points"@) == number(
                live.options.location_check_points as int,
            )
            &&& member(o, "release_mode"@) == Datum::Text(live.options.release_mode@)
            &&& member(o, "collect_mode"@) == Datum::Text(live.options.collect_mode@)
            &&& member(o, "remaining_mode"@) == Datum::Text(live.options.remaining_mode@)
            &&& member(o, "countdown_mode"@) == Datum::Text(live.options.countdown_mode@)
            &&& member(o, "item_cheat"@) == Datum::Bool(live.options.item_cheat)
            &&& member(o, "compatibility"@) == number(live.options.compatibility as int)
        }),
{
    status_parts(seed_name, live, m, ledger, at);
    option_names_differ();
    let d = options_datum(live.options)->Dict_0;
    member_found(d, 0);
    member_found(d, 1);
    member_found(d, 2);
    member_found(d, 3);
    member_found(d, 4);
    member_found(d, 5);
    member_found(d, 6);
    member_found(d, 7);
}

/// The status document shows how many slots something filters, and what filters dropped of what
/// slots sent apart from what they dropped of what slots were sent.
pub proof fn the_status_shows_what_filters_dropped(
    seed_name: Seq<char>,
    live: Status,
    m: Metrics,
    ledger: Ledger,
    at: Sample,
)
    ensures
        ({
            let f = member(status_datum(seed_name, live, m, ledger, at), "filters"@);
            &&& member(f, "slots_filtered"@) == number(
                shown_before(
                    live.slots@,
                    |s: SlotStatus| s.filtered,
                    live.slots@.len() as int,
                ) as int,
            )
            &&& member(f, "dropped_from_slots"@) == number(
                dropped(live.drops.deep_view(), "from_slot"@) as int,
            )
            &&& member(f, "dropped_to_slots"@) == number(
                dropped(live.drops.deep_view(), "to_slot"@) as int,
            )
        }),
{
    status_parts(seed_name, live, m, ledger, at);
    part_names_differ();
    let d = filters_datum(live)->Dict_0;
    member_found(d, 0);
    member_found(d, 1);
    member_found(d, 2);
    rows_shown(live.slots@, |s: SlotStatus| s.filtered);
}

/// One more count of drops raises what was dropped in its own direction by as much, and leaves
/// the other direction as it was.
pub proof fn drops_count_in_their_direction(
    drops: Seq<((SlotKey, (Seq<char>, Seq<char>)), u64)>,
    key: SlotKey,
    direction: Seq<char>,
    kind: Seq<char>,
    n: u64,
    other: Seq<char>,
)
    requires
        other != direction,
        dropped(drops, direction) + n <= u64::MAX,
    ensures
        dropped(drops.push(((key, (direction, kind)), n)), direction) == dropped(drops, direction)
            + n,
        dropped(drops.push(((key, (direction, kind)), n)), other) == dropped(drops, other),
        dropped(Seq::empty(), direction) == 0,
{
    let more = drops.push(((key, (direction, kind)), n));
    assert(more.drop_last() =~= drops);
}

} // verus!
