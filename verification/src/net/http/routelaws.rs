//! Laws of the HTTP surface: which request is for what, and what the answers say.

use crate::datastore::value::Datum;
use crate::multidata::locations::slot_entries;
use crate::multidata::multidata::{slots_of_type, MultiData};
use crate::multidata::types::SlotType;
use crate::net::http::admin::{
    after_failure, first_blank, past_limit, presents, same_but_case, Admin, Failures, Source,
    Window,
};
use crate::net::http::document::{member, member_found, number};
use crate::net::http::pagelaws::has;
use crate::net::http::response::{bare_answer, head_text, rendered, text_answer, Answer};
use crate::net::http::route::{
    bare_path, begins, between, deed_of, filter_datum, outcome_datum, path_end, place_of,
    public_slot, room_datum, rotated_datum, route, slot_between, target_of, Action, Cached, Deed,
    FilterMethod, Live, Place,
};
use crate::net::http::time::rfc3339_text;
use crate::net::metrics::Metrics;
use crate::table::entry;
use crate::text::{dec, is_space, unsigned_numbers_read_back};
use vstd::prelude::*;
use vstd::utf8::encode_utf8;

verus! {

/// What stands between a prefix and a suffix is what was put there.
proof fn put_between(p: Seq<char>, v: Seq<char>, q: Seq<char>)
    ensures
        between(p + v + q, p, q) == Some(v),
{
    let s = p + v + q;
    assert(s.subrange(0, p.len() as int) =~= p);
    assert(s.subrange(s.len() - q.len(), s.len() as int) =~= q);
    assert(s.subrange(p.len() as int, s.len() - q.len()) =~= v);
}

/// The path of a slot's password, and that of its filter, name the slot by its number.
pub proof fn slot_paths_name_their_slot(n: u32)
    ensures
        place_of("/admin/v1/slots/"@ + dec(n as nat) + "/password"@) == Place::Password(n),
        place_of("/admin/v1/slots/"@ + dec(n as nat) + "/filter"@) == Place::Filter(Some(n)),
{
    let p = "/admin/v1/slots/"@;
    let d = dec(n as nat);
    unsigned_numbers_read_back(n as nat);
    put_between(p, d, "/password"@);
    put_between(p, d, "/filter"@);
    reveal_strlit("/password");
    reveal_strlit("/filter");
    let s = p + d + "/filter"@;
    if between(s, p, "/password"@) is Some {
        let tail = s.subrange(s.len() - 9, s.len() as int);
        assert(tail[8] == 'r');
        assert("/password"@[8] == 'd');
    }
}

/// The paths differ.
proof fn paths_differ()
    ensures
        "/api/v1/room"@ != "/healthz"@,
        "/api/tracker"@ != "/healthz"@ && "/api/tracker"@ != "/api/v1/room"@,
        "/api/static_tracker"@ != "/healthz"@ && "/api/static_tracker"@ != "/api/v1/room"@
            && "/api/static_tracker"@ != "/api/tracker"@,
        "/admin/v1/status"@ != "/healthz"@ && "/admin/v1/status"@ != "/api/v1/room"@
            && "/admin/v1/status"@ != "/api/tracker"@
            && "/admin/v1/status"@ != "/api/static_tracker"@,
        "/admin/v1/metrics"@ != "/healthz"@ && "/admin/v1/metrics"@ != "/api/v1/room"@
            && "/admin/v1/metrics"@ != "/api/tracker"@
            && "/admin/v1/metrics"@ != "/api/static_tracker"@
            && "/admin/v1/metrics"@ != "/admin/v1/status"@,
        "/admin/v1/command"@ != "/healthz"@ && "/admin/v1/command"@ != "/api/v1/room"@
            && "/admin/v1/command"@ != "/api/tracker"@
            && "/admin/v1/command"@ != "/api/static_tracker"@
            && "/admin/v1/command"@ != "/admin/v1/status"@
            && "/admin/v1/command"@ != "/admin/v1/metrics"@,
        "/admin/v1/filter"@ != "/healthz"@ && "/admin/v1/filter"@ != "/api/v1/room"@
            && "/admin/v1/filter"@ != "/api/tracker"@
            && "/admin/v1/filter"@ != "/api/static_tracker"@
            && "/admin/v1/filter"@ != "/admin/v1/status"@
            && "/admin/v1/filter"@ != "/admin/v1/metrics"@
            && "/admin/v1/filter"@ != "/admin/v1/command"@,
        "/admin/v1/shutdown"@ != "/healthz"@ && "/admin/v1/shutdown"@ != "/api/v1/room"@
            && "/admin/v1/shutdown"@ != "/api/tracker"@
            && "/admin/v1/shutdown"@ != "/api/static_tracker"@
            && "/admin/v1/shutdown"@ != "/admin/v1/status"@
            && "/admin/v1/shutdown"@ != "/admin/v1/metrics"@
            && "/admin/v1/shutdown"@ != "/admin/v1/command"@
            && "/admin/v1/shutdown"@ != "/admin/v1/filter"@,
{
    reveal_strlit("/healthz");
    reveal_strlit("/api/v1/room");
    reveal_strlit("/api/tracker");
    reveal_strlit("/api/static_tracker");
    reveal_strlit("/admin/v1/status");
    reveal_strlit("/admin/v1/metrics");
    reveal_strlit("/admin/v1/command");
    reveal_strlit("/admin/v1/filter");
    reveal_strlit("/admin/v1/shutdown");
    assert("/healthz"@.len() == 8 && "/api/v1/room"@.len() == 12 && "/api/tracker"@.len() == 12
        && "/api/static_tracker"@.len() == 19 && "/admin/v1/status"@.len() == 16
        && "/admin/v1/metrics"@.len() == 17 && "/admin/v1/command"@.len() == 17
        && "/admin/v1/filter"@.len() == 16 && "/admin/v1/shutdown"@.len() == 18);
    assert("/admin/v1/command"@[10] == 'c' && "/admin/v1/filter"@[10] == 'f'
        && "/admin/v1/metrics"@[10] == 'm' && "/admin/v1/status"@[10] == 's'
        && "/api/tracker"@[5] == 't' && "/api/v1/room"@[5] == 'v');
}

/// The methods differ.
proof fn methods_differ()
    ensures
        "PUT"@ != "GET"@,
        "PATCH"@ != "GET"@ && "PATCH"@ != "PUT"@,
        "DELETE"@ != "GET"@ && "DELETE"@ != "PUT"@ && "DELETE"@ != "PATCH"@,
        "POST"@ != "GET"@ && "POST"@ != "PUT"@ && "POST"@ != "PATCH"@ && "POST"@ != "DELETE"@,
{
    reveal_strlit("GET");
    reveal_strlit("PUT");
    reveal_strlit("PATCH");
    reveal_strlit("DELETE");
    reveal_strlit("POST");
    assert("GET"@.len() == 3 && "PUT"@.len() == 3 && "PATCH"@.len() == 5 && "DELETE"@.len() == 6
        && "POST"@.len() == 4);
    assert("GET"@[0] == 'G' && "PUT"@[0] == 'P');
}

/// No short path names a slot.
proof fn short_paths_name_no_slot(path: Seq<char>)
    requires
        path.len() < 23,
    ensures
        slot_between(path, "/admin/v1/slots/"@, "/password"@) is None,
        slot_between(path, "/admin/v1/slots/"@, "/filter"@) is None,
{
    reveal_strlit("/admin/v1/slots/");
    reveal_strlit("/password");
    reveal_strlit("/filter");
}

/// The fixed paths, and what they are for.
proof fn fixed_places()
    ensures
        place_of("/healthz"@) == Place::Health,
        place_of("/api/v1/room"@) == Place::Room,
        place_of("/api/tracker"@) == Place::Tracker,
        place_of("/api/static_tracker"@) == Place::StaticTracker,
        place_of("/admin/v1/status"@) == Place::Status,
        place_of("/admin/v1/metrics"@) == Place::Metrics,
        place_of("/admin/v1/command"@) == Place::Command,
        place_of("/admin/v1/filter"@) == Place::Filter(None),
        place_of("/admin/v1/shutdown"@) == Place::Shutdown,
{
    paths_differ();
    reveal_strlit("/healthz");
    assert("/healthz"@.len() == 8);
    short_paths_name_no_slot("/healthz"@);
    reveal_strlit("/api/v1/room");
    assert("/api/v1/room"@.len() == 12);
    short_paths_name_no_slot("/api/v1/room"@);
    reveal_strlit("/api/tracker");
    assert("/api/tracker"@.len() == 12);
    short_paths_name_no_slot("/api/tracker"@);
    reveal_strlit("/api/static_tracker");
    assert("/api/static_tracker"@.len() == 19);
    short_paths_name_no_slot("/api/static_tracker"@);
    reveal_strlit("/admin/v1/status");
    assert("/admin/v1/status"@.len() == 16);
    short_paths_name_no_slot("/admin/v1/status"@);
    reveal_strlit("/admin/v1/metrics");
    assert("/admin/v1/metrics"@.len() == 17);
    short_paths_name_no_slot("/admin/v1/metrics"@);
    reveal_strlit("/admin/v1/command");
    assert("/admin/v1/command"@.len() == 17);
    short_paths_name_no_slot("/admin/v1/command"@);
    reveal_strlit("/admin/v1/filter");
    assert("/admin/v1/filter"@.len() == 16);
    short_paths_name_no_slot("/admin/v1/filter"@);
    reveal_strlit("/admin/v1/shutdown");
    assert("/admin/v1/shutdown"@.len() == 18);
    short_paths_name_no_slot("/admin/v1/shutdown"@);
}

/// Each path is for one thing, by one method: what is read is got, and what is done is posted; any
/// other method is refused as such, whatever the body.
pub proof fn each_path_is_for_one_thing(method: Seq<char>, body: Seq<u8>)
    ensures
        ({
            let refused = Deed::Answer(bare_answer(405, "Method Not Allowed"@));
            let got = method == "GET"@;
            let posted = method == "POST"@;
            &&& deed_of(target_of(method, place_of("/api/v1/room"@)), body) == if got {
                Deed::Room
            } else {
                refused
            }
            &&& deed_of(target_of(method, place_of("/api/tracker"@)), body) == if got {
                Deed::Tracker
            } else {
                refused
            }
            &&& deed_of(target_of(method, place_of("/api/static_tracker"@)), body) == if got {
                Deed::StaticTracker
            } else {
                refused
            }
            &&& deed_of(target_of(method, place_of("/admin/v1/status"@)), body) == if got {
                Deed::Status
            } else {
                refused
            }
            &&& deed_of(target_of(method, place_of("/admin/v1/metrics"@)), body) == if got {
                Deed::Metrics
            } else {
                refused
            }
            &&& deed_of(target_of(method, place_of("/admin/v1/shutdown"@)), body) == if posted {
                Deed::Shutdown
            } else {
                refused
            }
            &&& !posted ==> deed_of(target_of(method, place_of("/admin/v1/command"@)), body)
                == refused
            &&& got ==> deed_of(target_of(method, place_of("/healthz"@)), body) == Deed::Answer(
                text_answer(200, "ok\n"@),
            )
        }),
{
    fixed_places();
    methods_differ();
}

/// A filter is read, replaced, added to or taken away by its own method, that of a slot or that of
/// all; no other method is for it.
pub proof fn a_filter_is_treated_by_its_method(n: u32, body: Seq<u8>, other: Seq<char>)
    requires
        other != "GET"@ && other != "PUT"@ && other != "PATCH"@ && other != "DELETE"@,
    ensures
        ({
            let slot = place_of("/admin/v1/slots/"@ + dec(n as nat) + "/filter"@);
            let all = place_of("/admin/v1/filter"@);
            &&& deed_of(target_of("GET"@, slot), body) == Deed::Filter(Some(n), FilterMethod::Get)
            &&& deed_of(target_of("PUT"@, slot), body) == Deed::Filter(Some(n), FilterMethod::Put)
            &&& deed_of(target_of("PATCH"@, slot), body) == Deed::Filter(
                Some(n),
                FilterMethod::Patch,
            )
            &&& deed_of(target_of("DELETE"@, slot), body) == Deed::Filter(
                Some(n),
                FilterMethod::Delete,
            )
            &&& deed_of(target_of("GET"@, all), body) == Deed::Filter(None, FilterMethod::Get)
            &&& deed_of(target_of("PUT"@, all), body) == Deed::Filter(None, FilterMethod::Put)
            &&& deed_of(target_of("PATCH"@, all), body) == Deed::Filter(None, FilterMethod::Patch)
            &&& deed_of(target_of("DELETE"@, all), body) == Deed::Filter(None, FilterMethod::Delete)
            &&& deed_of(target_of(other, slot), body) == Deed::Answer(
                bare_answer(405, "Method Not Allowed"@),
            )
        }),
{
    slot_paths_name_their_slot(n);
    fixed_places();
    methods_differ();
}

/// A password is rotated by a post to the path of its slot; without a body it is taken away.
pub proof fn a_password_is_rotated_by_a_post(n: u32, method: Seq<char>, body: Seq<u8>)
    ensures
        ({
            let place = place_of("/admin/v1/slots/"@ + dec(n as nat) + "/password"@);
            &&& method != "POST"@ ==> deed_of(target_of(method, place), body) == Deed::Answer(
                bare_answer(405, "Method Not Allowed"@),
            )
            &&& body.len() == 0 ==> deed_of(target_of("POST"@, place), body) == Deed::SetPassword(
                n,
                None,
            )
            &&& deed_of(target_of("POST"@, place), body) matches Deed::SetPassword(slot, _) ==> slot
                == n
        }),
{
    slot_paths_name_their_slot(n);
}

/// A query or a fragment changes nothing of what a request is for.
pub proof fn a_query_changes_nothing(path: Seq<char>, query: Seq<char>)
    requires
        forall|i: int| 0 <= i < path.len() ==> (#[trigger] path[i]) != '?' && path[i] != '#',
    ensures
        bare_path(path + (seq!['?'] + query)) == path,
        bare_path(path + (seq!['#'] + query)) == path,
        bare_path(path) == path,
{
    ends_at(path + (seq!['?'] + query), 0, path.len() as int);
    ends_at(path + (seq!['#'] + query), 0, path.len() as int);
    ends_at(path, 0, path.len() as int);
    assert((path + (seq!['?'] + query)).subrange(0, path.len() as int) =~= path);
    assert((path + (seq!['#'] + query)).subrange(0, path.len() as int) =~= path);
    assert(path.subrange(0, path.len() as int) =~= path);
}

proof fn ends_at(s: Seq<char>, i: int, k: int)
    requires
        0 <= i <= k <= s.len(),
        k < s.len() ==> s[k] == '?' || s[k] == '#',
        forall|j: int| i <= j < k ==> (#[trigger] s[j]) != '?' && s[j] != '#',
    ensures
        path_end(s, i) == k,
    decreases k - i,
{
    if i < k {
        ends_at(s, i + 1, k);
    }
}

/// Without the token nothing of the administrator's is done: a request for a path below
/// `/admin/v1/` is answered 404 where there is no token to have, and else 401, or 429 after too
/// many failures.
pub proof fn without_the_token_nothing_is_done(
    method: &str,
    path: &str,
    authorization: Option<&str>,
    body: &[u8],
    admin: &mut Option<Admin>,
    open_tracker: bool,
    source: Source,
    now: u64,
    metrics: &mut Metrics,
    r: Action,
)
    requires
        call_ensures(
            route,
            (method, path, authorization, body, admin, open_tracker, source, now, metrics),
            r,
        ),
        begins(bare_path(path@), "/admin/v1/"@),
        *old(admin) matches Some(a) ==> !presents(authorization.deep_view(), a.token@),
    ensures
        r@ matches Deed::Answer(a) && (*old(admin) is None ==> a.status == 404) && (*old(
            admin,
        ) is Some ==> a.status == 401 || a.status == 429),
{
}

/// With the token a request is done, whatever was counted before, and nothing is counted.
pub proof fn with_the_token_a_request_is_done(
    method: &str,
    path: &str,
    authorization: Option<&str>,
    body: &[u8],
    admin: &mut Option<Admin>,
    open_tracker: bool,
    source: Source,
    now: u64,
    metrics: &mut Metrics,
    r: Action,
)
    requires
        call_ensures(
            route,
            (method, path, authorization, body, admin, open_tracker, source, now, metrics),
            r,
        ),
        *old(admin) is Some,
        presents(authorization.deep_view(), old(admin)->0.token@),
    ensures
        r@ == deed_of(target_of(method@, place_of(bare_path(path@))), body@),
        final(metrics)@ == old(metrics)@,
        final(admin)->0.failures() == old(admin)->0.failures(),
{
}

/// The trackers' documents need the token only where there is one and they are not open; a failure
/// is answered 401 and not counted.
pub proof fn trackers_need_the_token_unless_open(
    method: &str,
    path: &str,
    authorization: Option<&str>,
    body: &[u8],
    admin: &mut Option<Admin>,
    open_tracker: bool,
    source: Source,
    now: u64,
    metrics: &mut Metrics,
    r: Action,
)
    requires
        call_ensures(
            route,
            (method, path, authorization, body, admin, open_tracker, source, now, metrics),
            r,
        ),
        method@ == "GET"@,
        bare_path(path@) == "/api/tracker"@,
        *old(admin) matches Some(a) ==> !presents(authorization.deep_view(), a.token@),
    ensures
        open_tracker || *old(admin) is None ==> r@ == Deed::Tracker,
        !open_tracker && *old(admin) is Some ==> (r@ matches Deed::Answer(a) && a.status == 401),
        final(metrics)@ == old(metrics)@,
{
    fixed_places();
    reveal_strlit("/api/tracker");
    reveal_strlit("/admin/v1/");
    assert("/api/tracker"@[2] == 'p' && "/admin/v1/"@[2] == 'd');
    if begins(bare_path(path@), "/admin/v1/"@) {
        assert("/api/tracker"@.subrange(0, 10)[2] == 'p');
    }
}

/// A header presents a token where it is the scheme, in any case, a blank and the token, and it
/// presents no other; no header presents none.
pub proof fn a_bearer_presents_its_token(scheme: Seq<char>, token: Seq<char>, other: Seq<char>)
    requires
        same_but_case(scheme, "Bearer"@),
        forall|i: int| 0 <= i < scheme.len() ==> (#[trigger] scheme[i]) != ' ',
        token.len() > 0,
        !is_space(token[0]),
        !is_space(token.last()),
        other != token,
    ensures
        presents(Some(scheme + (seq![' '] + token)), token),
        !presents(Some(scheme + (seq![' '] + token)), other),
        !presents(None, other),
{
    let h = scheme + (seq![' '] + token);
    blank_at(h, 0, scheme.len() as int);
    assert(h.subrange(0, scheme.len() as int) =~= scheme);
    assert(h.subrange(scheme.len() as int + 1, h.len() as int) =~= token);
}

proof fn blank_at(s: Seq<char>, i: int, k: int)
    requires
        0 <= i <= k < s.len(),
        s[k] == ' ',
        forall|j: int| i <= j < k ==> (#[trigger] s[j]) != ' ',
    ensures
        first_blank(s, i) == k,
    decreases k - i,
{
    if i < k {
        blank_at(s, i + 1, k);
    }
}

/// A source is past its limit with the eleventh failure within a minute of its first, all together
/// with the five hundred and first; after a minute the count starts anew.
pub proof fn failures_are_counted_by_the_minute(f: Failures, source: Source, now: u64, w: Window)
    requires
        entry::<Source, Window>(f.by_source, source) == Some(w),
        w.count < u32::MAX,
        f.total.count < u32::MAX,
    ensures
        ({
            let own = if now - w.started >= 60_000 {
                1
            } else {
                w.count + 1
            };
            let all = if now - f.total.started >= 60_000 {
                1
            } else {
                f.total.count + 1
            };
            &&& past_limit(f, source, now) <==> own > 10 || all > 500
            &&& after_failure(f, source, now).total.count == all
        }),
{
}

/// The names in the public documents differ.
proof fn room_names_differ()
    ensures
        "pahoa_version"@ != "seed_name"@,
        "api_version"@ != "seed_name"@ && "api_version"@ != "pahoa_version"@,
        "started_at"@ != "seed_name"@ && "started_at"@ != "pahoa_version"@
            && "started_at"@ != "api_version"@,
        "password"@ != "seed_name"@ && "password"@ != "pahoa_version"@
            && "password"@ != "api_version"@ && "password"@ != "started_at"@,
        "clients_connected"@ != "seed_name"@ && "clients_connected"@ != "pahoa_version"@
            && "clients_connected"@ != "api_version"@ && "clients_connected"@ != "started_at"@
            && "clients_connected"@ != "password"@,
        "slots"@ != "seed_name"@ && "slots"@ != "pahoa_version"@ && "slots"@ != "api_version"@
            && "slots"@ != "started_at"@ && "slots"@ != "password"@
            && "slots"@ != "clients_connected"@,
        "slot"@ != "team"@,
        "name"@ != "team"@ && "name"@ != "slot"@,
        "game"@ != "team"@ && "game"@ != "slot"@ && "game"@ != "name"@,
        "total_checks"@ != "team"@ && "total_checks"@ != "slot"@ && "total_checks"@ != "name"@
            && "total_checks"@ != "game"@,
        "rules"@ != "team"@ && "rules"@ != "slot"@,
        "effective"@ != "team"@ && "effective"@ != "slot"@ && "effective"@ != "rules"@,
        "inherited"@ != "team"@ && "inherited"@ != "slot"@ && "inherited"@ != "rules"@
            && "inherited"@ != "effective"@,
        "removed"@ != "team"@ && "removed"@ != "slot"@ && "removed"@ != "rules"@
            && "removed"@ != "effective"@ && "removed"@ != "inherited"@,
        "output"@ != "ok"@,
        "affected_slots"@ != "ok"@ && "affected_slots"@ != "output"@,
        "team"@ != "ok"@,
        "slot"@ != "ok"@,
{
    reveal_strlit("seed_name");
    reveal_strlit("pahoa_version");
    reveal_strlit("api_version");
    reveal_strlit("started_at");
    reveal_strlit("password");
    reveal_strlit("clients_connected");
    reveal_strlit("slots");
    reveal_strlit("team");
    reveal_strlit("slot");
    reveal_strlit("name");
    reveal_strlit("game");
    reveal_strlit("total_checks");
    reveal_strlit("rules");
    reveal_strlit("effective");
    reveal_strlit("inherited");
    reveal_strlit("removed");
    reveal_strlit("ok");
    reveal_strlit("output");
    reveal_strlit("affected_slots");
    assert("seed_name"@.len() == 9 && "pahoa_version"@.len() == 13 && "api_version"@.len() == 11
        && "started_at"@.len() == 10 && "password"@.len() == 8
        && "clients_connected"@.len() == 17 && "slots"@.len() == 5 && "team"@.len() == 4
        && "slot"@.len() == 4 && "name"@.len() == 4 && "game"@.len() == 4
        && "total_checks"@.len() == 12 && "rules"@.len() == 5 && "effective"@.len() == 9
        && "inherited"@.len() == 9 && "removed"@.len() == 7 && "ok"@.len() == 2
        && "output"@.len() == 6 && "affected_slots"@.len() == 14);
    assert("effective"@[0] == 'e' && "game"@[0] == 'g' && "inherited"@[0] == 'i'
        && "name"@[0] == 'n' && "slot"@[0] == 's' && "team"@[0] == 't');
}

/// The public document names the seed and says when the room started; whether a password is
/// required and how many are connected it says of a room that runs. Each player has a row with its
/// number, its name, its game and how many locations it has.
pub proof fn the_public_document_shows_the_room(
    seed: MultiData,
    live: Option<Live>,
    started_at: u64,
    i: int,
)
    requires
        0 <= i < slots_of_type(seed.model().slot_info, SlotType::Player, true).len(),
    ensures
        ({
            let doc = room_datum(seed, live, started_at);
            let s = slots_of_type(seed.model().slot_info, SlotType::Player, true)[i];
            &&& member(doc, "seed_name"@) == Datum::Text(seed.seed_name@)
            &&& member(doc, "started_at"@) == Datum::Text(rfc3339_text(started_at as int))
            &&& live is None ==> member(doc, "password"@) == Datum::Null && member(
                doc,
                "clients_connected"@,
            ) == Datum::Null
            &&& live matches Some(l) ==> member(doc, "password"@) == Datum::Bool(l.password_required)
                && member(doc, "clients_connected"@) == number(l.clients_connected as int)
            &&& member(doc, "slots"@) matches Datum::List(rows)
            &&& rows.len() == slots_of_type(seed.model().slot_info, SlotType::Player, true).len()
            &&& member(rows[i], "team"@) == number(0)
            &&& member(rows[i], "slot"@) == number(s.0 as int)
            &&& member(rows[i], "name"@) == Datum::Text(s.1.name)
            &&& member(rows[i], "game"@) == Datum::Text(s.1.game)
            &&& member(rows[i], "total_checks"@) == number(
                slot_entries(seed.locations@, s.0).len() as int,
            )
        }),
{
    room_names_differ();
    let d = room_datum(seed, live, started_at)->Dict_0;
    member_found(d, 0);
    member_found(d, 3);
    member_found(d, 4);
    member_found(d, 5);
    member_found(d, 6);
    let s = slots_of_type(seed.model().slot_info, SlotType::Player, true)[i];
    let r = public_slot(seed, s)->Dict_0;
    member_found(r, 0);
    member_found(r, 1);
    member_found(r, 2);
    member_found(r, 3);
    member_found(r, 4);
}

/// The answer to an edit of a filter shows the rules that stand there and those in effect, each
/// under its own name, whose they are, and how many were taken out where some were asked to be.
pub proof fn a_filter_is_shown_as_it_stands(
    slot: Option<u32>,
    rules: Datum,
    effective: Datum,
    inherited: bool,
    removed: Option<u64>,
)
    ensures
        ({
            let doc = filter_datum(slot, rules, effective, inherited, removed);
            &&& member(doc, "rules"@) == rules
            &&& member(doc, "effective"@) == effective
            &&& member(doc, "inherited"@) == Datum::Bool(inherited)
            &&& slot matches Some(n) ==> member(doc, "slot"@) == number(n as int) && member(
                doc,
                "team"@,
            ) == number(0)
            &&& removed matches Some(n) ==> member(doc, "removed"@) == number(n as int)
        }),
{
    room_names_differ();
    let d = filter_datum(slot, rules, effective, inherited, removed)->Dict_0;
    let n: int = if slot is Some {
        2
    } else {
        0
    };
    assert(d[n].0 == "rules"@ && d[n + 1].0 == "effective"@ && d[n + 2].0 == "inherited"@);
    member_found(d, n);
    member_found(d, n + 1);
    member_found(d, n + 2);
    if slot is Some {
        assert(d[0].0 == "team"@ && d[1].0 == "slot"@);
        member_found(d, 0);
        member_found(d, 1);
    }
    if removed is Some {
        assert(d[n + 3].0 == "removed"@);
        member_found(d, n + 3);
    }
}

/// What a command came to is shown as it was: whether it was done, what it says, line by line, and
/// the slots that it changed, in order; a rotated password names its slot.
pub proof fn an_outcome_is_shown_as_it_was(
    ok: bool,
    output: Seq<Seq<char>>,
    affected: Seq<u32>,
    slot: u32,
)
    ensures
        ({
            let doc = outcome_datum(ok, output, affected);
            &&& member(doc, "ok"@) == Datum::Bool(ok)
            &&& member(doc, "output"@) matches Datum::List(l) && l.len() == output.len() && forall|
                i: int,
            |
                0 <= i < l.len() ==> #[trigger] l[i] == Datum::Text(output[i])
            &&& member(doc, "affected_slots"@) matches Datum::List(l) && l.len() == affected.len()
                && forall|i: int|
                0 <= i < l.len() ==> #[trigger] l[i] == number(affected[i] as int)
            &&& member(rotated_datum(slot), "ok"@) == Datum::Bool(true)
            &&& member(rotated_datum(slot), "slot"@) == number(slot as int)
        }),
{
    room_names_differ();
    let d = outcome_datum(ok, output, affected)->Dict_0;
    member_found(d, 0);
    member_found(d, 1);
    member_found(d, 2);
    let r = rotated_datum(slot)->Dict_0;
    member_found(r, 0);
    member_found(r, 2);
}

/// A document is served again only within its window, and then as it was rendered.
pub proof fn a_document_is_served_again_within_its_window(c: Cached, at: u64, now: u64, window: u64)
    requires
        c.made is Some,
        (c.made->0).0 == at,
        at <= now,
    ensures
        now - at < window ==> c.served(now, window) == Some((c.made->0).1@),
        now - at >= window ==> c.served(now, window) is None,
{
}

/// An answer ends with its body, whose length its head gives; the head begins with the status and
/// its reason.
pub proof fn an_answer_is_its_head_and_its_body(a: Answer)
    ensures
        rendered(a).skip(rendered(a).len() - a.body.len()) == a.body,
        rendered(a).take(rendered(a).len() - a.body.len()) == encode_utf8(head_text(a)),
        has(head_text(a), "Content-Length: "@ + (dec(a.body.len()) + "\r\n"@)),
        has(head_text(a), "HTTP/1.1 "@ + (dec(a.status as nat) + (" "@ + a.reason))),
        has(head_text(a), "Content-Type: "@ + (a.content_type + "\r\n"@)),
{
    let h = encode_utf8(head_text(a));
    let n = rendered(a).len() - a.body.len();
    assert(rendered(a).skip(n) =~= a.body);
    assert(rendered(a).take(n) =~= h);
    reveal(has);
    reveal_strlit("HTTP/1.1 ");
    reveal_strlit(" ");
    reveal_strlit("\r\nConnection: close\r\nContent-Type: ");
    reveal_strlit("\r\nContent-Length: ");
    reveal_strlit("\r\n");
    reveal_strlit("Content-Length: ");
    reveal_strlit("Content-Type: ");
    let t = head_text(a);
    let one = "HTTP/1.1 "@ + (dec(a.status as nat) + (" "@ + a.reason));
    let z = 0int;
    assert(t.subrange(z, z + one.len()) =~= one);
    let two = "Content-Type: "@ + (a.content_type + "\r\n"@);
    let i = one.len() as int + 21;
    assert(t.subrange(i, i + two.len()) =~= two);
    let three = "Content-Length: "@ + (dec(a.body.len()) + "\r\n"@);
    let j = one.len() as int + 37 + a.content_type.len();
    assert(t.subrange(j, j + three.len()) =~= three);
}

} // verus!
