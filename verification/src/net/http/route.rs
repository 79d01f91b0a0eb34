//! Which request is for what, who may make it, and how it is answered.

use crate::datastore::value::{list_model, Datum, Value};
use crate::json::json_text;
use crate::multidata::locations::slot_entries;
use crate::multidata::multidata::{slots_of_type, MultiData, ONLY_TEAM};
use crate::multidata::types::{SlotModel, SlotType};
use crate::net::budget::Ledger;
use crate::net::http::admin::{
    after_failure, past_limit, presents, too_many, unauthorized, Admin, Auth, Source,
};
use crate::net::http::command::{
    body_result, command_of, parse, password_of, slot_password, AdminCommand, Member, Request,
};
use crate::net::http::document::{count, each, list, number, text, Fields};
use crate::net::http::exposition::{prometheus, prometheus_text};
use crate::net::http::response::{
    bare_answer, json_bytes_answer, text_answer, Answer, Response,
};
use crate::net::http::status::{document, status_datum, Sample, Status, PAHOA_VERSION};
use crate::net::http::time::{rfc3339, rfc3339_text};
use crate::net::http::tracker::{
    static_datum, static_tracker, tracker, tracker_datum, TrackerData,
};
use crate::net::metrics::{Counters, Metrics};
use crate::table::wrapped;
use crate::text::{chars_of, dec, parse_unsigned, push_decimal, text_of, unsigned_text};
use vstd::prelude::*;
use vstd::utf8::encode_utf8;

verus! {

/// How long a tracker document is served again, in milliseconds.
pub const TRACKER_CACHE_MS: u64 = 60_000;

/// How long the document that changes only with the seed is served again, in milliseconds.
pub const STATIC_CACHE_MS: u64 = 300_000;

/// How a filter is to be treated.
#[derive(Debug, Clone, Copy, PartialEq, Eq, Structural)]
pub enum FilterMethod {
    Get,
    Put,
    Patch,
    Delete,
}

/// What a path is for.
#[derive(Debug, Clone, Copy, PartialEq, Eq, Structural)]
pub enum Place {
    Health,
    Room,
    Tracker,
    StaticTracker,
    Status,
    Metrics,
    Command,
    Shutdown,
    /// The filter of the room, or of a slot.
    Filter(Option<u32>),
    Password(u32),
    Nowhere,
}

/// What a request is for.
#[derive(Debug, Clone, Copy, PartialEq, Eq, Structural)]
pub enum Target {
    Health,
    Room,
    Tracker,
    StaticTracker,
    Status,
    Metrics,
    Command,
    Shutdown,
    Filter(Option<u32>, FilterMethod),
    Password(u32),
    /// The path is for something, but not with this method.
    WrongMethod,
    NotFound,
}

/// What is to be done.
#[derive(Debug)]
pub enum Action {
    /// Answer with this.
    Answer(Response),
    /// Ask the room for what [`room`] needs, and so on.
    Room,
    Tracker,
    StaticTracker,
    Status,
    Metrics,
    Command(AdminCommand),
    SetPassword(u32, Option<String>),
    Filter(Option<u32>, FilterMethod),
    Shutdown,
}

/// The model of an [`Action`].
pub enum Deed {
    Answer(Answer),
    Room,
    Tracker,
    StaticTracker,
    Status,
    Metrics,
    Command(Request),
    SetPassword(u32, Option<Seq<char>>),
    Filter(Option<u32>, FilterMethod),
    Shutdown,
}

impl View for Action {
    type V = Deed;

    open spec fn view(&self) -> Deed {
        match self {
            Action::Answer(r) => Deed::Answer(r@),
            Action::Room => Deed::Room,
            Action::Tracker => Deed::Tracker,
            Action::StaticTracker => Deed::StaticTracker,
            Action::Status => Deed::Status,
            Action::Metrics => Deed::Metrics,
            Action::Command(c) => Deed::Command(c@),
            Action::SetPassword(slot, p) => Deed::SetPassword(*slot, p.deep_view()),
            Action::Filter(slot, m) => Deed::Filter(*slot, *m),
            Action::Shutdown => Deed::Shutdown,
        }
    }
}

/// The end of a path from `i` on: where its query or fragment begins.
pub open spec fn path_end(s: Seq<char>, i: int) -> int
    decreases s.len() - i,
{
    if i >= s.len() || s[i] == '?' || s[i] == '#' {
        i
    } else {
        path_end(s, i + 1)
    }
}

/// A path without its query and fragment.
pub open spec fn bare_path(s: Seq<char>) -> Seq<char> {
    s.subrange(0, path_end(s, 0))
}

/// Whether a text begins with another.
pub open spec fn begins(s: Seq<char>, p: Seq<char>) -> bool {
    s.len() >= p.len() && s.subrange(0, p.len() as int) == p
}

/// What stands between a prefix and a suffix.
pub open spec fn between(s: Seq<char>, p: Seq<char>, q: Seq<char>) -> Option<Seq<char>> {
    if s.len() >= p.len() + q.len() && s.subrange(0, p.len() as int) == p && s.subrange(
        s.len() - q.len(),
        s.len() as int,
    ) == q {
        Some(s.subrange(p.len() as int, s.len() - q.len()))
    } else {
        None
    }
}

/// The slot that a path names between two texts.
pub open spec fn slot_between(s: Seq<char>, p: Seq<char>, q: Seq<char>) -> Option<u32> {
    match between(s, p, q) {
        Some(n) => match unsigned_text(n) {
            Some(v) => if v <= u32::MAX {
                Some(v as u32)
            } else {
                None
            },
            None => None,
        },
        None => None,
    }
}

/// What a path is for.
pub open spec fn place_of(path: Seq<char>) -> Place {
    match slot_between(path, "/admin/v1/slots/"@, "/password"@) {
        Some(slot) => Place::Password(slot),
        None => match slot_between(path, "/admin/v1/slots/"@, "/filter"@) {
            Some(slot) => Place::Filter(Some(slot)),
            None => if path == "/healthz"@ {
                Place::Health
            } else if path == "/api/v1/room"@ {
                Place::Room
            } else if path == "/api/tracker"@ {
                Place::Tracker
            } else if path == "/api/static_tracker"@ {
                Place::StaticTracker
            } else if path == "/admin/v1/status"@ {
                Place::Status
            } else if path == "/admin/v1/metrics"@ {
                Place::Metrics
            } else if path == "/admin/v1/command"@ {
                Place::Command
            } else if path == "/admin/v1/filter"@ {
                Place::Filter(None)
            } else if path == "/admin/v1/shutdown"@ {
                Place::Shutdown
            } else {
                Place::Nowhere
            },
        },
    }
}

/// How a method treats a filter.
pub open spec fn filter_method(method: Seq<char>) -> Option<FilterMethod> {
    if method == "GET"@ {
        Some(FilterMethod::Get)
    } else if method == "PUT"@ {
        Some(FilterMethod::Put)
    } else if method == "PATCH"@ {
        Some(FilterMethod::Patch)
    } else if method == "DELETE"@ {
        Some(FilterMethod::Delete)
    } else {
        None
    }
}

/// What a request is for.
pub open spec fn target_of(method: Seq<char>, place: Place) -> Target {
    let got = method == "GET"@;
    let posted = method == "POST"@;
    match place {
        Place::Nowhere => Target::NotFound,
        Place::Filter(slot) => match filter_method(method) {
            Some(m) => Target::Filter(slot, m),
            None => Target::WrongMethod,
        },
        Place::Health => if got {
            Target::Health
        } else {
            Target::WrongMethod
        },
        Place::Room => if got {
            Target::Room
        } else {
            Target::WrongMethod
        },
        Place::Tracker => if got {
            Target::Tracker
        } else {
            Target::WrongMethod
        },
        Place::StaticTracker => if got {
            Target::StaticTracker
        } else {
            Target::WrongMethod
        },
        Place::Status => if got {
            Target::Status
        } else {
            Target::WrongMethod
        },
        Place::Metrics => if got {
            Target::Metrics
        } else {
            Target::WrongMethod
        },
        Place::Command => if posted {
            Target::Command
        } else {
            Target::WrongMethod
        },
        Place::Shutdown => if posted {
            Target::Shutdown
        } else {
            Target::WrongMethod
        },
        Place::Password(slot) => if posted {
            Target::Password(slot)
        } else {
            Target::WrongMethod
        },
    }
}

/// The template of a path, by which requests are counted.
pub open spec fn template_of(place: Place) -> Seq<char> {
    match place {
        Place::Health => "/healthz"@,
        Place::Room => "/api/v1/room"@,
        Place::Tracker => "/api/tracker"@,
        Place::StaticTracker => "/api/static_tracker"@,
        Place::Status => "/admin/v1/status"@,
        Place::Metrics => "/admin/v1/metrics"@,
        Place::Command => "/admin/v1/command"@,
        Place::Shutdown => "/admin/v1/shutdown"@,
        Place::Filter(None) => "/admin/v1/filter"@,
        Place::Filter(Some(_)) => "/admin/v1/slots/{slot}/filter"@,
        Place::Password(_) => "/admin/v1/slots/{slot}/password"@,
        Place::Nowhere => "other"@,
    }
}

/// The answer to a command that cannot be understood.
pub open spec fn misunderstood(detail: Seq<char>) -> Datum {
    outcome_datum(false, seq![detail], Seq::empty())
}

/// What a command came to.
pub open spec fn outcome_datum(ok: bool, output: Seq<Seq<char>>, affected: Seq<u32>) -> Datum {
    Datum::Dict(
        seq![
            ("ok"@, Datum::Bool(ok)),
            ("output"@, each(output, |s: Seq<char>| Datum::Text(s))),
            ("affected_slots"@, each(affected, |n: u32| number(n as int))),
        ],
    )
}

/// An error as a document.
pub open spec fn error_datum(detail: Seq<char>) -> Datum {
    Datum::Dict(seq![("error"@, Datum::Text(detail))])
}

/// A document as an answer.
pub open spec fn document_answer(status: u16, d: Datum) -> Answer {
    json_bytes_answer(status, encode_utf8(json_text(d)))
}

/// The answer of a room that has stopped.
pub open spec fn stopping_answer() -> Answer {
    text_answer(503, "the room is stopping\n"@)
}

/// What is to be done for a request that may be made.
pub open spec fn deed_of(target: Target, body: Seq<u8>) -> Deed {
    match target {
        Target::NotFound => Deed::Answer(bare_answer(404, "Not Found"@)),
        Target::WrongMethod => Deed::Answer(bare_answer(405, "Method Not Allowed"@)),
        Target::Health => Deed::Answer(text_answer(200, "ok\n"@)),
        Target::Room => Deed::Room,
        Target::Tracker => Deed::Tracker,
        Target::StaticTracker => Deed::StaticTracker,
        Target::Status => Deed::Status,
        Target::Metrics => Deed::Metrics,
        Target::Shutdown => Deed::Shutdown,
        Target::Filter(slot, m) => Deed::Filter(slot, m),
        Target::Command => match body_result(body, |m: Seq<(Seq<char>, Member)>| command_of(m)) {
            Ok(c) => Deed::Command(c),
            Err(detail) => Deed::Answer(document_answer(400, misunderstood(detail))),
        },
        Target::Password(slot) => if body.len() == 0 {
            Deed::SetPassword(slot, None)
        } else {
            match body_result(body, |m: Seq<(Seq<char>, Member)>| password_of(m)) {
                Ok(p) => Deed::SetPassword(slot, p),
                Err(detail) => Deed::Answer(document_answer(400, error_datum(detail))),
            }
        },
    }
}

/// A path without its query and fragment.
fn cut_path(path: &str) -> (r: String)
    ensures
        r@ == bare_path(path@),
{
    let v = chars_of(path);
    let n: usize = v.len();
    let mut i: usize = 0;
    while i < n && v[i] != '?' && v[i] != '#'
        invariant
            v@ == path@,
            n == v@.len(),
            i <= n,
            path_end(path@, 0) == path_end(path@, i as int),
        decreases n - i,
    {
        i += 1;
    }
    text_of(&v, 0, i)
}

/// Whether a text begins with another.
fn begins_with(s: &str, p: &str) -> (r: bool)
    ensures
        r == begins(s@, p@),
{
    let v = chars_of(s);
    let w = chars_of(p);
    if v.len() < w.len() {
        return false;
    }
    let head = text_of(&v, 0, w.len());
    *head.as_str() == *p
}

/// The slot that a path names between two texts.
fn find_slot(s: &str, p: &str, q: &str) -> (r: Option<u32>)
    ensures
        r == slot_between(s@, p@, q@),
{
    let v = chars_of(s);
    let n: usize = v.len();
    let a: usize = chars_of(p).len();
    let b: usize = chars_of(q).len();
    if n < a || n - a < b {
        return None;
    }
    let head = text_of(&v, 0, a);
    let tail = text_of(&v, n - b, n);
    if !(*head.as_str() == *p) || !(*tail.as_str() == *q) {
        return None;
    }
    let middle = text_of(&v, a, n - b);
    match parse_unsigned(middle.as_str()) {
        Some(slot) => if slot <= u32::MAX as u64 {
            Some(slot as u32)
        } else {
            None
        },
        None => None,
    }
}

/// The slot in the path of a password.
pub fn slot_password_path(path: &str) -> (r: Option<u32>)
    ensures
        r == slot_between(path@, "/admin/v1/slots/"@, "/password"@),
{
    find_slot(path, "/admin/v1/slots/", "/password")
}

/// What a path is for.
pub fn place(path: &str) -> (r: Place)
    ensures
        r == place_of(path@),
{
    if let Some(slot) = slot_password_path(path) {
        return Place::Password(slot);
    }
    if let Some(slot) = find_slot(path, "/admin/v1/slots/", "/filter") {
        return Place::Filter(Some(slot));
    }
    if *path == *"/healthz" {
        Place::Health
    } else if *path == *"/api/v1/room" {
        Place::Room
    } else if *path == *"/api/tracker" {
        Place::Tracker
    } else if *path == *"/api/static_tracker" {
        Place::StaticTracker
    } else if *path == *"/admin/v1/status" {
        Place::Status
    } else if *path == *"/admin/v1/metrics" {
        Place::Metrics
    } else if *path == *"/admin/v1/command" {
        Place::Command
    } else if *path == *"/admin/v1/filter" {
        Place::Filter(None)
    } else if *path == *"/admin/v1/shutdown" {
        Place::Shutdown
    } else {
        Place::Nowhere
    }
}

/// The template of a path, by which requests are counted: never the path as it was sent.
pub fn template(path: &str) -> (r: &'static str)
    ensures
        r@ == template_of(place_of(bare_path(path@))),
{
    match place(cut_path(path).as_str()) {
        Place::Health => "/healthz",
        Place::Room => "/api/v1/room",
        Place::Tracker => "/api/tracker",
        Place::StaticTracker => "/api/static_tracker",
        Place::Status => "/admin/v1/status",
        Place::Metrics => "/admin/v1/metrics",
        Place::Command => "/admin/v1/command",
        Place::Shutdown => "/admin/v1/shutdown",
        Place::Filter(None) => "/admin/v1/filter",
        Place::Filter(Some(_)) => "/admin/v1/slots/{slot}/filter",
        Place::Password(_) => "/admin/v1/slots/{slot}/password",
        Place::Nowhere => "other",
    }
}

fn only(allowed: bool, target: Target) -> (r: Target)
    ensures
        r == if allowed {
            target
        } else {
            Target::WrongMethod
        },
{
    if allowed {
        target
    } else {
        Target::WrongMethod
    }
}

/// What a request is for.
pub fn target(method: &str, at: Place) -> (r: Target)
    ensures
        r == target_of(method@, at),
{
    let got: bool = *method == *"GET";
    let posted: bool = *method == *"POST";
    match at {
        Place::Nowhere => Target::NotFound,
        Place::Filter(slot) => if got {
            Target::Filter(slot, FilterMethod::Get)
        } else if *method == *"PUT" {
            Target::Filter(slot, FilterMethod::Put)
        } else if *method == *"PATCH" {
            Target::Filter(slot, FilterMethod::Patch)
        } else if *method == *"DELETE" {
            Target::Filter(slot, FilterMethod::Delete)
        } else {
            Target::WrongMethod
        },
        Place::Health => only(got, Target::Health),
        Place::Room => only(got, Target::Room),
        Place::Tracker => only(got, Target::Tracker),
        Place::StaticTracker => only(got, Target::StaticTracker),
        Place::Status => only(got, Target::Status),
        Place::Metrics => only(got, Target::Metrics),
        Place::Command => only(posted, Target::Command),
        Place::Shutdown => only(posted, Target::Shutdown),
        Place::Password(slot) => only(posted, Target::Password(slot)),
    }
}

/// What is to be done for a request that may be made.
fn act(target: Target, body: &[u8]) -> (r: Action)
    ensures
        r@ == deed_of(target, body@),
{
    match target {
        Target::NotFound => Action::Answer(Response::not_found()),
        Target::WrongMethod => Action::Answer(Response::status(405, "Method Not Allowed")),
        Target::Health => Action::Answer(Response::text(200, "ok\n")),
        Target::Room => Action::Room,
        Target::Tracker => Action::Tracker,
        Target::StaticTracker => Action::StaticTracker,
        Target::Status => Action::Status,
        Target::Metrics => Action::Metrics,
        Target::Shutdown => Action::Shutdown,
        Target::Filter(slot, m) => Action::Filter(slot, m),
        Target::Command => match parse(body) {
            Ok(c) => Action::Command(c),
            Err(detail) => {
                let output: Vec<String> = vec![detail];
                let affected: Vec<u32> = Vec::new();
                let v = outcome(false, &output, &affected);
                assert(output.deep_view() =~= seq![detail@]);
                assert(affected@ =~= Seq::<u32>::empty());
                Action::Answer(Response::json(400, &v))
            },
        },
        Target::Password(slot) => match slot_password(body) {
            Ok(p) => Action::SetPassword(slot, p),
            Err(detail) => Action::Answer(Response::json(400, &error(detail.as_str()))),
        },
    }
}

/// An error as a document.
fn error(detail: &str) -> (r: Value)
    ensures
        r@ == error_datum(detail@),
{
    let fields = Fields::new().with("error", text(detail));
    assert(fields@ =~= error_datum(detail@)->Dict_0);
    fields.object()
}

fn texts_list(items: &Vec<String>) -> (r: Value)
    ensures
        r@ == each(items.deep_view(), |s: Seq<char>| Datum::Text(s)),
{
    let mut out: Vec<Value> = Vec::new();
    for i in 0..items.len()
        invariant
            out@.len() == i,
            forall|j: int| 0 <= j < i ==> (#[trigger] out@[j])@ == Datum::Text(items@[j]@),
    {
        out.push(text(items[i].as_str()));
    }
    assert(list_model(out@) =~= items.deep_view().map_values(|s: Seq<char>| Datum::Text(s)));
    list(out)
}

fn numbers_list(items: &Vec<u32>) -> (r: Value)
    ensures
        r@ == each(items@, |n: u32| number(n as int)),
{
    let mut out: Vec<Value> = Vec::new();
    for i in 0..items.len()
        invariant
            out@.len() == i,
            forall|j: int| 0 <= j < i ==> (#[trigger] out@[j])@ == number(items@[j] as int),
    {
        out.push(count(items[i] as u64));
    }
    assert(list_model(out@) =~= items@.map_values(|n: u32| number(n as int)));
    list(out)
}

/// What a command came to.
fn outcome(ok: bool, output: &Vec<String>, affected: &Vec<u32>) -> (r: Value)
    ensures
        r@ == outcome_datum(ok, output.deep_view(), affected@),
{
    let fields = Fields::new().with("ok", Value::Bool(ok)).with("output", texts_list(output)).with(
        "affected_slots",
        numbers_list(affected),
    );
    assert(fields@ =~= outcome_datum(ok, output.deep_view(), affected@)->Dict_0);
    fields.object()
}

/// Whether the admin token guards a path.
pub open spec fn guarded(path: Seq<char>) -> bool {
    begins(path, "/admin/v1/"@)
}

/// Whether a path is a tracker's.
pub open spec fn for_trackers(path: Seq<char>) -> bool {
    place_of(path) == Place::Tracker || place_of(path) == Place::StaticTracker
}

/// Routes a request. The paths below `/admin/v1/` are not there at all without a token, and need it
/// otherwise; a failure counts. The tracker needs the token where there is one, unless it is open;
/// a failure there does not count.
pub fn route(
    method: &str,
    path: &str,
    authorization: Option<&str>,
    body: &[u8],
    admin: &mut Option<Admin>,
    open_tracker: bool,
    source: Source,
    now: u64,
    metrics: &mut Metrics,
) -> (r: Action)
    requires
        *old(admin) matches Some(a) ==> a.bounded(),
    ensures
        *final(admin) is Some <==> *old(admin) is Some,
        *final(admin) matches Some(a) ==> a.bounded() && a.token == old(admin)->0.token,
        ({
            let p = bare_path(path@);
            let deed = deed_of(target_of(method@, place_of(p)), body@);
            let holds = *old(admin) is Some && presents(
                authorization.deep_view(),
                old(admin)->0.token@,
            );
            let untouched = final(metrics)@ == old(metrics)@ && (*old(admin) is Some
                ==> final(admin)->0.failures() == old(admin)->0.failures());
            if guarded(p) {
                if *old(admin) is None {
                    r@ == Deed::Answer(bare_answer(404, "Not Found"@)) && untouched
                } else if holds {
                    r@ == deed && untouched
                } else {
                    let f = old(admin)->0.failures();
                    let limited = past_limit(f, source, now);
                    &&& r@ == Deed::Answer(
                        if limited {
                            too_many()
                        } else {
                            unauthorized()
                        },
                    )
                    &&& final(admin)->0.failures() == after_failure(f, source, now)
                    &&& final(metrics)@ == (Counters {
                        unauthorized: wrapped(old(metrics)@.unauthorized, 1),
                        limited: if limited {
                            wrapped(old(metrics)@.limited, 1)
                        } else {
                            old(metrics)@.limited
                        },
                        ..old(metrics)@
                    })
                }
            } else if for_trackers(p) && *old(admin) is Some && !open_tracker && !holds {
                r@ == Deed::Answer(unauthorized()) && untouched
            } else {
                r@ == deed && untouched
            }
        }),
{
    let p = cut_path(path);
    let at = place(p.as_str());
    let wanted = target(method, at);
    if begins_with(p.as_str(), "/admin/v1/") {
        let mut taken: Option<Admin> = None;
        std::mem::swap(admin, &mut taken);
        match taken {
            None => Action::Answer(Response::not_found()),
            Some(a) => {
                let mut guard = a;
                let auth = guard.check(authorization, source, now, metrics);
                *admin = Some(guard);
                match auth {
                    Auth::Refused(response) => Action::Answer(response),
                    Auth::Passed => act(wanted, body),
                }
            },
        }
    } else {
        if let Some(a) = admin {
            let tracker: bool = match at {
                Place::Tracker => true,
                Place::StaticTracker => true,
                _ => false,
            };
            if tracker && !open_tracker && !a.holds_token(authorization) {
                return Action::Answer(Admin::refusal());
            }
        }
        act(wanted, body)
    }
}

/// The answer of a room that has stopped.
pub fn stopping() -> (r: Response)
    ensures
        r@ == stopping_answer(),
{
    Response::text(503, "the room is stopping\n")
}

/// What a room did about a command.
#[derive(Debug, Clone, PartialEq, Eq)]
pub struct AdminOutcome {
    pub ok: bool,
    pub output: Vec<String>,
    pub affected_slots: Vec<u32>,
}

/// Answers a command that was understood, whether or not the room did it; none where the room has
/// stopped.
pub fn command(outcome_of: Option<&AdminOutcome>) -> (r: Response)
    ensures
        r@ == match outcome_of {
            Some(o) => document_answer(
                200,
                outcome_datum(o.ok, o.output.deep_view(), o.affected_slots@),
            ),
            None => stopping_answer(),
        },
{
    match outcome_of {
        Some(o) => Response::json(200, &outcome(o.ok, &o.output, &o.affected_slots)),
        None => stopping(),
    }
}

/// What is said of a password that was rotated.
pub open spec fn rotated_datum(slot: u32) -> Datum {
    Datum::Dict(
        seq![
            ("ok"@, Datum::Bool(true)),
            ("team"@, number(ONLY_TEAM as int)),
            ("slot"@, number(slot as int)),
        ],
    )
}

/// What is said of a slot that is not in the seed.
pub open spec fn no_slot_text(slot: u32) -> Seq<char> {
    "there is no slot "@ + dec(slot as nat) + " in this seed"@
}

fn no_slot(slot: u32) -> (r: Response)
    ensures
        r@ == document_answer(404, error_datum(no_slot_text(slot))),
{
    let mut s = "there is no slot ".to_string();
    push_decimal(&mut s, slot as u64);
    s.append(" in this seed");
    Response::json(404, &error(s.as_str()))
}

/// Answers the rotation of a password: whether the slot was known, or none where the room has
/// stopped.
pub fn set_slot_password(slot: u32, known: Option<bool>) -> (r: Response)
    ensures
        r@ == match known {
            Some(true) => document_answer(200, rotated_datum(slot)),
            Some(false) => document_answer(404, error_datum(no_slot_text(slot))),
            None => stopping_answer(),
        },
{
    match known {
        Some(true) => {
            let fields = Fields::new().with("ok", Value::Bool(true)).with(
                "team",
                count(ONLY_TEAM as u64),
            ).with("slot", count(slot as u64));
            assert(fields@ =~= rotated_datum(slot)->Dict_0);
            Response::json(200, &fields.object())
        },
        Some(false) => no_slot(slot),
        None => stopping(),
    }
}

/// What is said of a filter.
pub open spec fn filter_datum(
    slot: Option<u32>,
    rules: Datum,
    effective: Datum,
    inherited: bool,
    removed: Option<u64>,
) -> Datum {
    let owner = match slot {
        Some(n) => seq![("team"@, number(ONLY_TEAM as int)), ("slot"@, number(n as int))],
        None => Seq::empty(),
    };
    let state = seq![
        ("rules"@, rules),
        ("effective"@, effective),
        ("inherited"@, Datum::Bool(inherited)),
    ];
    let taken = match removed {
        Some(n) => seq![("removed"@, number(n as int))],
        None => Seq::empty(),
    };
    Datum::Dict(owner + state + taken)
}

/// Answers an edit of a filter with the rules as documents.
pub fn filter(
    slot: Option<u32>,
    rules: Value,
    effective: Value,
    inherited: bool,
    removed: Option<u64>,
) -> (r: Response)
    ensures
        r@ == document_answer(
            200,
            filter_datum(slot, rules@, effective@, inherited, removed),
        ),
{
    let mut fields = Fields::new();
    if let Some(n) = slot {
        fields = fields.with("team", count(ONLY_TEAM as u64)).with("slot", count(n as u64));
    }
    fields = fields.with("rules", rules).with("effective", effective).with(
        "inherited",
        Value::Bool(inherited),
    );
    if let Some(n) = removed {
        fields = fields.with("removed", count(n));
    }
    assert(fields@ =~= filter_datum(slot, rules@, effective@, inherited, removed)->Dict_0);
    Response::json(200, &fields.object())
}

/// What a request wants of a filter.
#[derive(Debug, Clone, Copy, PartialEq, Eq, Structural)]
pub enum FilterWant {
    Read,
    /// Put the rules of the body in the place of what stands here.
    Replace,
    /// Add the rules of the body to what stands here.
    Merge,
    /// Take out the rules that match what those of the body do.
    Remove,
    /// Take away what stands here.
    Clear,
}

/// What a request wants of a filter, by its method and whether it has a body.
pub fn filter_want(method: FilterMethod, body: bool) -> (r: FilterWant)
    ensures
        r == match method {
            FilterMethod::Get => FilterWant::Read,
            FilterMethod::Put => FilterWant::Replace,
            FilterMethod::Patch => FilterWant::Merge,
            FilterMethod::Delete => if body {
                FilterWant::Remove
            } else {
                FilterWant::Clear
            },
        },
{
    match method {
        FilterMethod::Get => FilterWant::Read,
        FilterMethod::Put => FilterWant::Replace,
        FilterMethod::Patch => FilterWant::Merge,
        FilterMethod::Delete => if body {
            FilterWant::Remove
        } else {
            FilterWant::Clear
        },
    }
}

/// Answers an edit whose body does not spell rules.
pub fn filter_misspelled(detail: &str) -> (r: Response)
    ensures
        r@ == document_answer(400, error_datum(detail@)),
{
    Response::json(400, &error(detail))
}

/// Answers an edit of the filter of a slot that is not in the seed.
pub fn filter_unknown(slot: u32) -> (r: Response)
    ensures
        r@ == document_answer(404, error_datum(no_slot_text(slot))),
{
    no_slot(slot)
}

/// Answers a request for the status; none where the room has stopped.
pub fn status(
    seed: &MultiData,
    live: Option<&Status>,
    m: &Metrics,
    ledger: &Ledger,
    at: &Sample,
) -> (r: Response)
    ensures
        r@ == match live {
            Some(s) => document_answer(200, status_datum(seed.seed_name@, *s, *m, *ledger, *at)),
            None => stopping_answer(),
        },
{
    match live {
        Some(s) => Response::json(200, &document(seed, s, m, ledger, at)),
        None => stopping(),
    }
}

/// Answers a scrape; none where the room has stopped.
pub fn metrics(live: Option<&Status>, m: &Metrics, ledger: &Ledger, at: &Sample) -> (r: Response)
    ensures
        r@ == match live {
            Some(s) => Answer {
                content_type: "text/plain; version=0.0.4; charset=utf-8"@,
                body: encode_utf8(prometheus_text(*s, *m, *ledger, *at)),
                ..bare_answer(200, "OK"@)
            },
            None => stopping_answer(),
        },
{
    match live {
        Some(s) => Response::prometheus(prometheus(s, m, ledger, at)),
        None => stopping(),
    }
}

/// Answers a request to stop, before the room does.
pub fn shutdown() -> (r: Response)
    ensures
        r@ == text_answer(202, "shutting down\n"@),
{
    Response::text(202, "shutting down\n")
}

/// The answer with a tracker document, which any page may read.
pub open spec fn tracker_answer(body: Seq<u8>) -> Answer {
    Answer {
        extra: seq![("Access-Control-Allow-Origin"@, "*"@)],
        ..json_bytes_answer(200, body)
    }
}

/// Answers with a tracker document that is already rendered.
pub fn tracker_bytes(body: Vec<u8>) -> (r: Response)
    ensures
        r@ == tracker_answer(body@),
{
    let r = Response::json_bytes(200, body).with_header(
        "Access-Control-Allow-Origin",
        "*".to_string(),
    );
    assert(r@ =~= tracker_answer(body@));
    r
}

/// The bytes of one of the two tracker documents.
pub fn tracker_body(data: &TrackerData, fixed: bool) -> (r: Vec<u8>)
    ensures
        r@ == encode_utf8(
            json_text(
                if fixed {
                    static_datum(*data)
                } else {
                    tracker_datum(*data)
                },
            ),
        ),
{
    let v = if fixed {
        static_tracker(data)
    } else {
        tracker(data)
    };
    let s = crate::json::encode(&v);
    s.as_str().as_bytes_vec()
}

/// A document that was rendered, and when.
#[derive(Debug)]
pub struct Cached {
    pub made: Option<(u64, Vec<u8>)>,
}

impl Cached {
    pub fn new() -> (r: Cached)
        ensures
            r.made is None,
    {
        Cached { made: None }
    }

    /// What may be served again at a time: what was rendered within the window.
    pub open spec fn served(&self, now: u64, window: u64) -> Option<Seq<u8>> {
        match self.made {
            Some((at, body)) => if now - at < window {
                Some(body@)
            } else {
                None
            },
            None => None,
        }
    }

    /// What may be served again at a time.
    pub fn get(&self, now: u64, window: u64) -> (r: Option<Vec<u8>>)
        ensures
            match r {
                Some(b) => self.served(now, window) == Some(b@),
                None => self.served(now, window) is None,
            },
    {
        match &self.made {
            Some((at, body)) => if now.saturating_sub(*at) < window || now < *at {
                Some(body.clone())
            } else {
                None
            },
            None => None,
        }
    }

    /// Keeps what was rendered.
    pub fn put(&mut self, now: u64, body: &Vec<u8>)
        ensures
            final(self).made matches Some((at, b)) && at == now && b@ == body@,
    {
        self.made = Some((now, body.clone()));
    }
}

/// What the public surface reports of a room that runs.
#[derive(Debug, Clone, Copy)]
pub struct Live {
    pub clients_connected: usize,
    pub password_required: bool,
}

/// What the public document says of a slot.
pub open spec fn public_slot(seed: MultiData, s: (u32, SlotModel)) -> Datum {
    Datum::Dict(
        seq![
            ("team"@, number(ONLY_TEAM as int)),
            ("slot"@, number(s.0 as int)),
            ("name"@, Datum::Text(s.1.name)),
            ("game"@, Datum::Text(s.1.game)),
            ("total_checks"@, number(slot_entries(seed.locations@, s.0).len() as int)),
        ],
    )
}

/// The public document.
pub open spec fn room_datum(seed: MultiData, live: Option<Live>, started_at: u64) -> Datum {
    Datum::Dict(
        seq![
            ("seed_name"@, Datum::Text(seed.seed_name@)),
            ("pahoa_version"@, Datum::Text(PAHOA_VERSION@)),
            ("api_version"@, number(1)),
            ("started_at"@, Datum::Text(rfc3339_text(started_at as int))),
            (
                "password"@,
                match live {
                    Some(l) => Datum::Bool(l.password_required),
                    None => Datum::Null,
                },
            ),
            (
                "clients_connected"@,
                match live {
                    Some(l) => number(l.clients_connected as int),
                    None => Datum::Null,
                },
            ),
            (
                "slots"@,
                each(
                    slots_of_type(seed.model().slot_info, SlotType::Player, true),
                    |s: (u32, SlotModel)| public_slot(seed, s),
                ),
            ),
        ],
    )
}

fn public_slots(seed: &MultiData) -> (r: Value)
    ensures
        r@ == each(
            slots_of_type(seed.model().slot_info, SlotType::Player, true),
            |s: (u32, SlotModel)| public_slot(*seed, s),
        ),
{
    let slots = seed.player_slots();
    let ghost all = slots.deep_view();
    let mut out: Vec<Value> = Vec::new();
    for i in 0..slots.len()
        invariant
            all == slots.deep_view(),
            out@.len() == i,
            forall|j: int| 0 <= j < i ==> (#[trigger] out@[j])@ == public_slot(*seed, all[j]),
    {
        let slot: u32 = slots[i].0;
        let info = slots[i].1;
        assert(all[i as int] == (slot, info.deep_view()));
        let fields = Fields::new().with("team", count(ONLY_TEAM as u64)).with(
            "slot",
            count(slot as u64),
        ).with("name", text(info.name.as_str())).with("game", text(info.game.as_str())).with(
            "total_checks",
            count(seed.locations.count_for(slot) as u64),
        );
        assert(fields@ =~= public_slot(*seed, all[i as int])->Dict_0);
        out.push(fields.object());
    }
    assert(list_model(out@) =~= all.map_values(|s: (u32, SlotModel)| public_slot(*seed, s)));
    list(out)
}

/// Answers with what a room page shows. What only a running room knows is null where it has
/// stopped.
pub fn room(seed: &MultiData, live: Option<Live>, started_at: u64) -> (r: Response)
    ensures
        r@ == document_answer(200, room_datum(*seed, live, started_at)),
{
    let (password, clients) = match live {
        Some(l) => (Value::Bool(l.password_required), count(l.clients_connected as u64)),
        None => (Value::Null, Value::Null),
    };
    let fields = Fields::new().with("seed_name", text(seed.seed_name.as_str())).with(
        "pahoa_version",
        text(PAHOA_VERSION),
    ).with("api_version", count(1)).with("started_at", Value::String(rfc3339(started_at))).with(
        "password",
        password,
    ).with("clients_connected", clients).with("slots", public_slots(seed));
    assert(fields@ =~= room_datum(*seed, live, started_at)->Dict_0);
    Response::json(200, &fields.object())
}

/// What only an administrator may have done is behind the token: a request that asks for it is for a
/// path that is guarded.
pub proof fn what_is_the_administrators_is_guarded(method: Seq<char>, path: Seq<char>, body: Seq<u8>)
    ensures
        match deed_of(target_of(method, place_of(path)), body) {
            Deed::Status => guarded(path),
            Deed::Metrics => guarded(path),
            Deed::Command(_) => guarded(path),
            Deed::SetPassword(_, _) => guarded(path),
            Deed::Filter(_, _) => guarded(path),
            Deed::Shutdown => guarded(path),
            _ => true,
        },
{
    reveal_strlit("/admin/v1/");
    reveal_strlit("/admin/v1/slots/");
    reveal_strlit("/admin/v1/status");
    reveal_strlit("/admin/v1/metrics");
    reveal_strlit("/admin/v1/command");
    reveal_strlit("/admin/v1/filter");
    reveal_strlit("/admin/v1/shutdown");
    let p = "/admin/v1/"@;
    let q = "/admin/v1/slots/"@;
    if path.len() >= q.len() && path.subrange(0, q.len() as int) == q {
        assert forall|i: int| 0 <= i < p.len() implies path[i] == #[trigger] p[i] by {
            assert(path.subrange(0, q.len() as int)[i] == q[i]);
        }
    }
    if path.len() >= p.len() {
        assert((forall|i: int| 0 <= i < p.len() ==> path[i] == #[trigger] p[i]) ==> path.subrange(
            0,
            p.len() as int,
        ) =~= p);
    }
}

} // verus!
