//! Reading the body of a command.
//!
//! The fields are taken one by one, so that a missing one names itself.

use crate::datastore::ops::{debug_quoted, debug_text};
use crate::multidata::types::ClientStatus;
use crate::text::{dec, dec_int, dec_reads_back, is_digit, parse_signed, push_signed, signed_text};
use vstd::prelude::*;

verus! {

/// One thing that an administrator may ask of a room.
#[derive(Debug, Clone, PartialEq, Eq)]
pub enum AdminCommand {
    Status,
    Say { text: String },
    Countdown { seconds: i64 },
    Release { slot: u32 },
    Collect { slot: u32 },
    SendItem { slot: u32, item: String },
    SendMultiple { slot: u32, item: String, amount: i64 },
    Hint { slot: u32, item: String, force: bool },
    HintLocation { slot: u32, location: String, force: bool },
    SendLocation { slot: u32, location: String },
    AllowRelease { slot: u32, allowed: bool },
    Lock { slot: u32, locked: bool },
    SetStatus { slot: u32, status: ClientStatus },
    Alias { slot: u32, alias: String },
    SetOption { name: String, value: String },
    Kick { slot: u32, reason: String },
}

/// The model of an [`AdminCommand`].
pub enum Request {
    Status,
    Say(Seq<char>),
    Countdown(i64),
    Release(u32),
    Collect(u32),
    SendItem(u32, Seq<char>),
    SendMultiple(u32, Seq<char>, i64),
    Hint(u32, Seq<char>, bool),
    HintLocation(u32, Seq<char>, bool),
    SendLocation(u32, Seq<char>),
    AllowRelease(u32, bool),
    Lock(u32, bool),
    SetStatus(u32, ClientStatus),
    Alias(u32, Seq<char>),
    SetOption(Seq<char>, Seq<char>),
    Kick(u32, Seq<char>),
}

impl View for AdminCommand {
    type V = Request;

    open spec fn view(&self) -> Request {
        match self {
            AdminCommand::Status => Request::Status,
            AdminCommand::Say { text } => Request::Say(text@),
            AdminCommand::Countdown { seconds } => Request::Countdown(*seconds),
            AdminCommand::Release { slot } => Request::Release(*slot),
            AdminCommand::Collect { slot } => Request::Collect(*slot),
            AdminCommand::SendItem { slot, item } => Request::SendItem(*slot, item@),
            AdminCommand::SendMultiple { slot, item, amount } => Request::SendMultiple(
                *slot,
                item@,
                *amount,
            ),
            AdminCommand::Hint { slot, item, force } => Request::Hint(*slot, item@, *force),
            AdminCommand::HintLocation { slot, location, force } => Request::HintLocation(
                *slot,
                location@,
                *force,
            ),
            AdminCommand::SendLocation { slot, location } => Request::SendLocation(
                *slot,
                location@,
            ),
            AdminCommand::AllowRelease { slot, allowed } => Request::AllowRelease(*slot, *allowed),
            AdminCommand::Lock { slot, locked } => Request::Lock(*slot, *locked),
            AdminCommand::SetStatus { slot, status } => Request::SetStatus(*slot, *status),
            AdminCommand::Alias { slot, alias } => Request::Alias(*slot, alias@),
            AdminCommand::SetOption { name, value } => Request::SetOption(name@, value@),
            AdminCommand::Kick { slot, reason } => Request::Kick(*slot, reason@),
        }
    }
}

/// One member of a JSON object, as far as a command looks at it. A number is held by its text.
#[derive(Debug, Clone, PartialEq, Eq)]
pub enum Field {
    Null,
    Bool(bool),
    Number(String),
    Text(String),
    /// A list or an object.
    Compound,
}

/// The model of a [`Field`].
pub enum Member {
    Null,
    Bool(bool),
    Number(Seq<char>),
    Text(Seq<char>),
    Compound,
}

impl DeepView for Field {
    type V = Member;

    open spec fn deep_view(&self) -> Member {
        match self {
            Field::Null => Member::Null,
            Field::Bool(b) => Member::Bool(*b),
            Field::Number(n) => Member::Number(n@),
            Field::Text(s) => Member::Text(s@),
            Field::Compound => Member::Compound,
        }
    }
}

/// What `serde_json::from_slice` makes of the bytes: the members of the object, nothing where the
/// value is no object, or the text of the error.
pub uninterp spec fn json_object(body: Seq<u8>) -> Result<
    Option<Seq<(Seq<char>, Member)>>,
    Seq<char>,
>;

/// Calls `serde_json::from_slice`. The result is a function of the bytes; it goes by the name
/// [`json_object`].
#[verifier::external_body]
fn read_object(body: &[u8]) -> (r: Result<Option<Vec<(String, Field)>>, String>)
    ensures
        match r {
            Ok(m) => json_object(body@) == Ok::<_, Seq<char>>(m.deep_view()),
            Err(e) => json_object(body@) == Err::<Option<Seq<(Seq<char>, Member)>>, _>(e@),
        },
{
    match serde_json::from_slice(body) {
        Err(e) => Err(e.to_string()),
        Ok(serde_json::Value::Object(map)) => Ok(Some(map.into_iter().map(|(k, v)| match v {
            serde_json::Value::Null => (k, Field::Null),
            serde_json::Value::Bool(b) => (k, Field::Bool(b)),
            serde_json::Value::Number(n) => (k, Field::Number(n.to_string())),
            serde_json::Value::String(s) => (k, Field::Text(s)),
            serde_json::Value::Array(_) => (k, Field::Compound),
            serde_json::Value::Object(_) => (k, Field::Compound),
        }).collect())),
        Ok(_) => Ok(None),
    }
}

/// The first member with a name, from `i` on.
pub open spec fn member_from(m: Seq<(Seq<char>, Member)>, name: Seq<char>, i: int) -> Option<Member>
    decreases m.len() - i,
{
    if i >= m.len() {
        None
    } else if m[i].0 == name {
        Some(m[i].1)
    } else {
        member_from(m, name, i + 1)
    }
}

/// The member with a name.
pub open spec fn member(m: Seq<(Seq<char>, Member)>, name: Seq<char>) -> Option<Member> {
    member_from(m, name, 0)
}

/// A text that must be there.
pub open spec fn text_member(m: Seq<(Seq<char>, Member)>, name: Seq<char>) -> Result<
    Seq<char>,
    Seq<char>,
> {
    match member(m, name) {
        Some(Member::Text(s)) => Ok(s),
        _ => Err("\""@ + name + "\" is required and must be a string"@),
    }
}

/// A text that may be missing or null, which is the empty one.
pub open spec fn optional_text(m: Seq<(Seq<char>, Member)>, name: Seq<char>) -> Result<
    Seq<char>,
    Seq<char>,
> {
    match member(m, name) {
        None => Ok(Seq::empty()),
        Some(Member::Null) => Ok(Seq::empty()),
        Some(Member::Text(s)) => Ok(s),
        Some(_) => Err("\""@ + name + "\" must be a string"@),
    }
}

/// A whole number that must be there.
pub open spec fn integer_member(m: Seq<(Seq<char>, Member)>, name: Seq<char>) -> Result<
    i64,
    Seq<char>,
> {
    match member(m, name) {
        Some(Member::Number(n)) if signed_text(n) is Some && i64::MIN <= signed_text(n)->0
            <= i64::MAX => Ok(signed_text(n)->0 as i64),
        _ => Err("\""@ + name + "\" is required and must be a whole number"@),
    }
}

/// A truth value, or `default` where it is missing.
pub open spec fn bool_member(
    m: Seq<(Seq<char>, Member)>,
    name: Seq<char>,
    default: bool,
) -> Result<bool, Seq<char>> {
    match member(m, name) {
        None => Ok(default),
        Some(Member::Bool(b)) => Ok(b),
        Some(_) => Err("\""@ + name + "\" must be true or false"@),
    }
}

/// The slot that a command is for. A team may be named beside it, and there is only one.
pub open spec fn slot_member(m: Seq<(Seq<char>, Member)>) -> Result<u32, Seq<char>> {
    match integer_member(m, "slot"@) {
        Err(e) => Err(e),
        Ok(raw) => if !(0 <= raw <= u32::MAX) {
            Err(dec_int(raw as int) + " is not a slot number"@)
        } else {
            match member(m, "team"@) {
                None => Ok(raw as u32),
                Some(_) => match integer_member(m, "team"@) {
                    Err(e) => Err(e),
                    Ok(team) => if team == 0 {
                        Ok(raw as u32)
                    } else {
                        Err("there is no team "@ + dec_int(team as int) + " in this room"@)
                    },
                },
            }
        },
    }
}

/// The completion state with a name.
pub open spec fn status_named(s: Seq<char>) -> Option<ClientStatus> {
    if s == "unknown"@ {
        Some(ClientStatus::Unknown)
    } else if s == "connected"@ {
        Some(ClientStatus::Connected)
    } else if s == "ready"@ {
        Some(ClientStatus::Ready)
    } else if s == "playing"@ {
        Some(ClientStatus::Playing)
    } else if s == "goal"@ {
        Some(ClientStatus::Goal)
    } else {
        None
    }
}

/// The completion state that a command declares.
pub open spec fn status_member(m: Seq<(Seq<char>, Member)>) -> Result<ClientStatus, Seq<char>> {
    match text_member(m, "status"@) {
        Err(e) => Err(e),
        Ok(s) => match status_named(s) {
            Some(c) => Ok(c),
            None => Err(
                "\"status\" must be one of unknown, connected, ready, playing and goal"@,
            ),
        },
    }
}

/// The value of an option: a text, or a number or a truth value by its text.
pub open spec fn option_value(m: Seq<(Seq<char>, Member)>) -> Result<Seq<char>, Seq<char>> {
    match member(m, "value"@) {
        Some(Member::Text(s)) => Ok(s),
        Some(Member::Number(n)) => Ok(n),
        Some(Member::Bool(b)) => Ok(
            if b {
                "true"@
            } else {
                "false"@
            },
        ),
        Some(_) => Err("\"value\" must be a string, number or boolean"@),
        None => Err("missing \"value\""@),
    }
}

/// A command for one slot alone.
pub open spec fn for_slot(
    m: Seq<(Seq<char>, Member)>,
    make: spec_fn(u32) -> Request,
) -> Result<Request, Seq<char>> {
    match slot_member(m) {
        Err(e) => Err(e),
        Ok(slot) => Ok(make(slot)),
    }
}

/// A command for a slot with one thing more.
pub open spec fn for_slot_with<T>(
    m: Seq<(Seq<char>, Member)>,
    more: Result<T, Seq<char>>,
    make: spec_fn(u32, T) -> Request,
) -> Result<Request, Seq<char>> {
    match slot_member(m) {
        Err(e) => Err(e),
        Ok(slot) => match more {
            Err(e) => Err(e),
            Ok(x) => Ok(make(slot, x)),
        },
    }
}

/// A command for a slot with two things more.
pub open spec fn for_slot_with_two<T, U>(
    m: Seq<(Seq<char>, Member)>,
    more: Result<T, Seq<char>>,
    last: Result<U, Seq<char>>,
    make: spec_fn(u32, T, U) -> Request,
) -> Result<Request, Seq<char>> {
    match slot_member(m) {
        Err(e) => Err(e),
        Ok(slot) => match more {
            Err(e) => Err(e),
            Ok(x) => match last {
                Err(e) => Err(e),
                Ok(y) => Ok(make(slot, x, y)),
            },
        },
    }
}

/// The command that an object spells, or what is wrong with it. Of several things that are wrong
/// the first is told.
pub open spec fn command_of(m: Seq<(Seq<char>, Member)>) -> Result<Request, Seq<char>> {
    match member(m, "command"@) {
        Some(Member::Text(c)) => if c == "status"@ {
            Ok(Request::Status)
        } else if c == "say"@ {
            match text_member(m, "text"@) {
                Err(e) => Err(e),
                Ok(text) => Ok(Request::Say(text)),
            }
        } else if c == "countdown"@ {
            match integer_member(m, "seconds"@) {
                Err(e) => Err(e),
                Ok(seconds) => Ok(Request::Countdown(seconds)),
            }
        } else if c == "option"@ {
            match text_member(m, "name"@) {
                Err(e) => Err(e),
                Ok(name) => match option_value(m) {
                    Err(e) => Err(e),
                    Ok(value) => Ok(Request::SetOption(name, value)),
                },
            }
        } else {
            slot_command(m, c)
        },
        _ => Err("missing \"command\""@),
    }
}

/// The command for a slot that an object spells.
pub open spec fn slot_command(m: Seq<(Seq<char>, Member)>, c: Seq<char>) -> Result<
    Request,
    Seq<char>,
> {
    if c == "release"@ {
        for_slot(m, |slot: u32| Request::Release(slot))
    } else if c == "collect"@ {
        for_slot(m, |slot: u32| Request::Collect(slot))
    } else if c == "send_item"@ {
        for_slot_with(
            m,
            text_member(m, "item"@),
            |slot: u32, item: Seq<char>| Request::SendItem(slot, item),
        )
    } else if c == "send_multiple"@ {
        for_slot_with_two(
            m,
            text_member(m, "item"@),
            integer_member(m, "amount"@),
            |slot: u32, item: Seq<char>, amount: i64| Request::SendMultiple(slot, item, amount),
        )
    } else if c == "hint"@ {
        for_slot_with_two(
            m,
            text_member(m, "item"@),
            bool_member(m, "force"@, false),
            |slot: u32, item: Seq<char>, force: bool| Request::Hint(slot, item, force),
        )
    } else if c == "hint_location"@ {
        for_slot_with_two(
            m,
            text_member(m, "location"@),
            bool_member(m, "force"@, false),
            |slot: u32, location: Seq<char>, force: bool|
                Request::HintLocation(slot, location, force),
        )
    } else if c == "send_location"@ {
        for_slot_with(
            m,
            text_member(m, "location"@),
            |slot: u32, location: Seq<char>| Request::SendLocation(slot, location),
        )
    } else if c == "allow_release"@ {
        for_slot_with(
            m,
            bool_member(m, "allowed"@, true),
            |slot: u32, allowed: bool| Request::AllowRelease(slot, allowed),
        )
    } else if c == "lock"@ {
        for_slot_with(
            m,
            bool_member(m, "locked"@, true),
            |slot: u32, locked: bool| Request::Lock(slot, locked),
        )
    } else if c == "set_status"@ {
        for_slot_with(
            m,
            status_member(m),
            |slot: u32, status: ClientStatus| Request::SetStatus(slot, status),
        )
    } else if c == "alias"@ {
        for_slot_with(
            m,
            optional_text(m, "alias"@),
            |slot: u32, alias: Seq<char>| Request::Alias(slot, alias),
        )
    } else if c == "kick"@ {
        for_slot_with(
            m,
            optional_text(m, "reason"@),
            |slot: u32, reason: Seq<char>| Request::Kick(slot, reason),
        )
    } else {
        Err("unknown command "@ + debug_quoted(c))
    }
}

/// What a body comes to, given what an object with its members does.
pub open spec fn body_result<T>(
    body: Seq<u8>,
    of: spec_fn(Seq<(Seq<char>, Member)>) -> Result<T, Seq<char>>,
) -> Result<T, Seq<char>> {
    match json_object(body) {
        Err(e) => Err("the body is not JSON: "@ + e),
        Ok(None) => Err("expected a JSON object"@),
        Ok(Some(m)) => of(m),
    }
}

/// The password that an object sets; none where it clears one.
pub open spec fn password_of(m: Seq<(Seq<char>, Member)>) -> Result<Option<Seq<char>>, Seq<char>> {
    match member(m, "password"@) {
        None => Ok(None),
        Some(Member::Null) => Ok(None),
        Some(Member::Text(s)) => Ok(Some(s)),
        Some(_) => Err("\"password\" must be a string, or null to clear it"@),
    }
}

/// A text with a name in quotes between two others.
fn about(name: &str, rest: &str) -> (r: String)
    ensures
        r@ == "\""@ + name@ + rest@,
{
    let mut s = "\"".to_string();
    s.append(name);
    s.append(rest);
    s
}

/// The member with a name.
fn find<'a>(m: &'a Vec<(String, Field)>, name: &str) -> (r: Option<&'a Field>)
    ensures
        match r {
            Some(f) => member(m.deep_view(), name@) == Some(f.deep_view()),
            None => member(m.deep_view(), name@) is None,
        },
{
    let ghost s = m.deep_view();
    for i in 0..m.len()
        invariant
            s == m.deep_view(),
            member(s, name@) == member_from(s, name@, i as int),
    {
        assert(s[i as int].0 == m[i as int].0@);
        if *m[i].0.as_str() == *name {
            return Some(&m[i].1);
        }
    }
    None
}

fn text(m: &Vec<(String, Field)>, name: &str) -> (r: Result<String, String>)
    ensures
        match r {
            Ok(s) => text_member(m.deep_view(), name@) == Ok::<_, Seq<char>>(s@),
            Err(e) => text_member(m.deep_view(), name@) == Err::<Seq<char>, _>(e@),
        },
{
    match find(m, name) {
        Some(Field::Text(s)) => Ok(s.clone()),
        _ => Err(about(name, "\" is required and must be a string")),
    }
}

fn text_or_empty(m: &Vec<(String, Field)>, name: &str) -> (r: Result<String, String>)
    ensures
        match r {
            Ok(s) => optional_text(m.deep_view(), name@) == Ok::<_, Seq<char>>(s@),
            Err(e) => optional_text(m.deep_view(), name@) == Err::<Seq<char>, _>(e@),
        },
{
    match find(m, name) {
        None => Ok(String::new()),
        Some(Field::Null) => Ok(String::new()),
        Some(Field::Text(s)) => Ok(s.clone()),
        Some(_) => Err(about(name, "\" must be a string")),
    }
}

fn integer(m: &Vec<(String, Field)>, name: &str) -> (r: Result<i64, String>)
    ensures
        match r {
            Ok(n) => integer_member(m.deep_view(), name@) == Ok::<_, Seq<char>>(n),
            Err(e) => integer_member(m.deep_view(), name@) == Err::<i64, _>(e@),
        },
{
    if let Some(Field::Number(n)) = find(m, name) {
        if let Some(v) = parse_signed(n.as_str()) {
            return Ok(v);
        }
    }
    Err(about(name, "\" is required and must be a whole number"))
}

fn boolean(m: &Vec<(String, Field)>, name: &str, default: bool) -> (r: Result<bool, String>)
    ensures
        match r {
            Ok(b) => bool_member(m.deep_view(), name@, default) == Ok::<_, Seq<char>>(b),
            Err(e) => bool_member(m.deep_view(), name@, default) == Err::<bool, _>(e@),
        },
{
    match find(m, name) {
        None => Ok(default),
        Some(Field::Bool(b)) => Ok(*b),
        Some(_) => Err(about(name, "\" must be true or false")),
    }
}

fn slot(m: &Vec<(String, Field)>) -> (r: Result<u32, String>)
    ensures
        match r {
            Ok(n) => slot_member(m.deep_view()) == Ok::<_, Seq<char>>(n),
            Err(e) => slot_member(m.deep_view()) == Err::<u32, _>(e@),
        },
{
    let raw: i64 = match integer(m, "slot") {
        Ok(raw) => raw,
        Err(e) => {
            return Err(e);
        },
    };
    if raw < 0 || raw > u32::MAX as i64 {
        let mut s = String::new();
        push_signed(&mut s, raw);
        s.append(" is not a slot number");
        return Err(s);
    }
    if find(m, "team").is_some() {
        match integer(m, "team") {
            Err(e) => {
                return Err(e);
            },
            Ok(team) => {
                if team != 0 {
                    let mut s = "there is no team ".to_string();
                    push_signed(&mut s, team);
                    s.append(" in this room");
                    return Err(s);
                }
            },
        }
    }
    Ok(raw as u32)
}

fn force(m: &Vec<(String, Field)>) -> (r: Result<bool, String>)
    ensures
        match r {
            Ok(b) => bool_member(m.deep_view(), "force"@, false) == Ok::<_, Seq<char>>(b),
            Err(e) => bool_member(m.deep_view(), "force"@, false) == Err::<bool, _>(e@),
        },
{
    boolean(m, "force", false)
}

fn status(m: &Vec<(String, Field)>) -> (r: Result<ClientStatus, String>)
    ensures
        match r {
            Ok(c) => status_member(m.deep_view()) == Ok::<_, Seq<char>>(c),
            Err(e) => status_member(m.deep_view()) == Err::<ClientStatus, _>(e@),
        },
{
    let s = match text(m, "status") {
        Ok(s) => s,
        Err(e) => {
            return Err(e);
        },
    };
    if *s.as_str() == *"unknown" {
        Ok(ClientStatus::Unknown)
    } else if *s.as_str() == *"connected" {
        Ok(ClientStatus::Connected)
    } else if *s.as_str() == *"ready" {
        Ok(ClientStatus::Ready)
    } else if *s.as_str() == *"playing" {
        Ok(ClientStatus::Playing)
    } else if *s.as_str() == *"goal" {
        Ok(ClientStatus::Goal)
    } else {
        Err("\"status\" must be one of unknown, connected, ready, playing and goal".to_string())
    }
}

fn value_text(m: &Vec<(String, Field)>) -> (r: Result<String, String>)
    ensures
        match r {
            Ok(s) => option_value(m.deep_view()) == Ok::<_, Seq<char>>(s@),
            Err(e) => option_value(m.deep_view()) == Err::<Seq<char>, _>(e@),
        },
{
    match find(m, "value") {
        Some(Field::Text(s)) => Ok(s.clone()),
        Some(Field::Number(n)) => Ok(n.clone()),
        Some(Field::Bool(b)) => if *b {
            Ok("true".to_string())
        } else {
            Ok("false".to_string())
        },
        Some(_) => Err("\"value\" must be a string, number or boolean".to_string()),
        None => Err("missing \"value\"".to_string()),
    }
}

/// The command for a slot that an object spells.
fn parse_for_slot(m: &Vec<(String, Field)>, c: &str) -> (r: Result<AdminCommand, String>)
    ensures
        match r {
            Ok(a) => slot_command(m.deep_view(), c@) == Ok::<_, Seq<char>>(a@),
            Err(e) => slot_command(m.deep_view(), c@) == Err::<Request, _>(e@),
        },
{
    if !(*c == *"release" || *c == *"collect" || *c == *"send_item" || *c == *"send_multiple" || *c
        == *"hint" || *c == *"hint_location" || *c == *"send_location" || *c == *"allow_release"
        || *c == *"lock" || *c == *"set_status" || *c == *"alias" || *c == *"kick") {
        let mut s = "unknown command ".to_string();
        s.append(debug_text(c).as_str());
        return Err(s);
    }
    let slot: u32 = match slot(m) {
        Ok(slot) => slot,
        Err(e) => {
            return Err(e);
        },
    };
    if *c == *"release" {
        Ok(AdminCommand::Release { slot })
    } else if *c == *"collect" {
        Ok(AdminCommand::Collect { slot })
    } else if *c == *"send_item" {
        match text(m, "item") {
            Ok(item) => Ok(AdminCommand::SendItem { slot, item }),
            Err(e) => Err(e),
        }
    } else if *c == *"send_multiple" {
        match text(m, "item") {
            Err(e) => Err(e),
            Ok(item) => match integer(m, "amount") {
                Err(e) => Err(e),
                Ok(amount) => Ok(AdminCommand::SendMultiple { slot, item, amount }),
            },
        }
    } else if *c == *"hint" {
        match text(m, "item") {
            Err(e) => Err(e),
            Ok(item) => match force(m) {
                Err(e) => Err(e),
                Ok(force) => Ok(AdminCommand::Hint { slot, item, force }),
            },
        }
    } else if *c == *"hint_location" {
        match text(m, "location") {
            Err(e) => Err(e),
            Ok(location) => match force(m) {
                Err(e) => Err(e),
                Ok(force) => Ok(AdminCommand::HintLocation { slot, location, force }),
            },
        }
    } else if *c == *"send_location" {
        match text(m, "location") {
            Ok(location) => Ok(AdminCommand::SendLocation { slot, location }),
            Err(e) => Err(e),
        }
    } else if *c == *"allow_release" {
        match boolean(m, "allowed", true) {
            Ok(allowed) => Ok(AdminCommand::AllowRelease { slot, allowed }),
            Err(e) => Err(e),
        }
    } else if *c == *"lock" {
        match boolean(m, "locked", true) {
            Ok(locked) => Ok(AdminCommand::Lock { slot, locked }),
            Err(e) => Err(e),
        }
    } else if *c == *"set_status" {
        match status(m) {
            Ok(status) => Ok(AdminCommand::SetStatus { slot, status }),
            Err(e) => Err(e),
        }
    } else if *c == *"alias" {
        match text_or_empty(m, "alias") {
            Ok(alias) => Ok(AdminCommand::Alias { slot, alias }),
            Err(e) => Err(e),
        }
    } else {
        match text_or_empty(m, "reason") {
            Ok(reason) => Ok(AdminCommand::Kick { slot, reason }),
            Err(e) => Err(e),
        }
    }
}

/// The command that an object spells.
pub fn parse_object(m: &Vec<(String, Field)>) -> (r: Result<AdminCommand, String>)
    ensures
        match r {
            Ok(a) => command_of(m.deep_view()) == Ok::<_, Seq<char>>(a@),
            Err(e) => command_of(m.deep_view()) == Err::<Request, _>(e@),
        },
{
    let c = match find(m, "command") {
        Some(Field::Text(c)) => c,
        _ => {
            return Err("missing \"command\"".to_string());
        },
    };
    if *c.as_str() == *"status" {
        Ok(AdminCommand::Status)
    } else if *c.as_str() == *"say" {
        match text(m, "text") {
            Ok(text) => Ok(AdminCommand::Say { text }),
            Err(e) => Err(e),
        }
    } else if *c.as_str() == *"countdown" {
        match integer(m, "seconds") {
            Ok(seconds) => Ok(AdminCommand::Countdown { seconds }),
            Err(e) => Err(e),
        }
    } else if *c.as_str() == *"option" {
        match text(m, "name") {
            Err(e) => Err(e),
            Ok(name) => match value_text(m) {
                Err(e) => Err(e),
                Ok(value) => Ok(AdminCommand::SetOption { name, value }),
            },
        }
    } else {
        parse_for_slot(m, c.as_str())
    }
}

/// The command that the body of a request spells, or what is wrong with it.
pub fn parse(body: &[u8]) -> (r: Result<AdminCommand, String>)
    ensures
        match r {
            Ok(a) => body_result(body@, |m: Seq<(Seq<char>, Member)>| command_of(m)) == Ok::<
                _,
                Seq<char>,
            >(a@),
            Err(e) => body_result(body@, |m: Seq<(Seq<char>, Member)>| command_of(m)) == Err::<
                Request,
                _,
            >(e@),
        },
{
    match read_object(body) {
        Ok(Some(m)) => parse_object(&m),
        Ok(None) => Err("expected a JSON object".to_string()),
        Err(e) => {
            let mut s = "the body is not JSON: ".to_string();
            s.append(e.as_str());
            Err(s)
        },
    }
}

/// The password that an object sets; none where it clears one.
pub fn password_in(m: &Vec<(String, Field)>) -> (r: Result<Option<String>, String>)
    ensures
        match r {
            Ok(p) => password_of(m.deep_view()) == Ok::<_, Seq<char>>(p.deep_view()),
            Err(e) => password_of(m.deep_view()) == Err::<Option<Seq<char>>, _>(e@),
        },
{
    match find(m, "password") {
        None => Ok(None),
        Some(Field::Null) => Ok(None),
        Some(Field::Text(s)) => Ok(Some(s.clone())),
        Some(_) => Err("\"password\" must be a string, or null to clear it".to_string()),
    }
}

/// The password that the body of a request sets; none where it clears one, as an empty body does.
pub fn slot_password(body: &[u8]) -> (r: Result<Option<String>, String>)
    ensures
        body@.len() == 0 ==> r == Ok::<Option<String>, String>(None),
        body@.len() > 0 ==> match r {
            Ok(p) => body_result(body@, |m: Seq<(Seq<char>, Member)>| password_of(m)) == Ok::<
                _,
                Seq<char>,
            >(p.deep_view()),
            Err(e) => body_result(body@, |m: Seq<(Seq<char>, Member)>| password_of(m)) == Err::<
                Option<Seq<char>>,
                _,
            >(e@),
        },
{
    if body.len() == 0 {
        return Ok(None);
    }
    match read_object(body) {
        Ok(Some(m)) => password_in(&m),
        Ok(None) => Err("expected a JSON object".to_string()),
        Err(e) => {
            let mut s = "the body is not JSON: ".to_string();
            s.append(e.as_str());
            Err(s)
        },
    }
}

/// Leaving `force` out respects the price of hints, leaving `allowed` out grants the exemption,
/// and leaving `locked` out locks.
pub proof fn defaults(m: Seq<(Seq<char>, Member)>, slot: u32, item: Seq<char>)
    requires
        slot_member(m) == Ok::<u32, Seq<char>>(slot),
        text_member(m, "item"@) == Ok::<Seq<char>, Seq<char>>(item),
    ensures
        member(m, "force"@) is None ==> slot_command(m, "hint"@) == Ok::<Request, Seq<char>>(
            Request::Hint(slot, item, false),
        ),
        member(m, "allowed"@) is None ==> slot_command(m, "allow_release"@) == Ok::<
            Request,
            Seq<char>,
        >(Request::AllowRelease(slot, true)),
        member(m, "locked"@) is None ==> slot_command(m, "lock"@) == Ok::<Request, Seq<char>>(
            Request::Lock(slot, true),
        ),
{
    verb_names();
}

/// The verbs are distinct.
proof fn verb_names()
    ensures
        "hint"@ != "release"@ && "hint"@ != "collect"@ && "hint"@ != "send_item"@ && "hint"@
            != "send_multiple"@,
        "allow_release"@ != "release"@ && "allow_release"@ != "collect"@ && "allow_release"@
            != "send_item"@ && "allow_release"@ != "send_multiple"@ && "allow_release"@ != "hint"@
            && "allow_release"@ != "hint_location"@ && "allow_release"@ != "send_location"@,
        "lock"@ != "release"@ && "lock"@ != "collect"@ && "lock"@ != "send_item"@ && "lock"@
            != "send_multiple"@ && "lock"@ != "hint"@ && "lock"@ != "hint_location"@ && "lock"@
            != "send_location"@ && "lock"@ != "allow_release"@,
{
    reveal_strlit("hint");
    reveal_strlit("release");
    reveal_strlit("collect");
    reveal_strlit("send_item");
    reveal_strlit("send_multiple");
    reveal_strlit("hint_location");
    reveal_strlit("send_location");
    reveal_strlit("allow_release");
    reveal_strlit("lock");
    assert("hint"@.len() == 4);
    assert("lock"@.len() == 4);
    assert("hint"@[0] == 'h');
    assert("lock"@[0] == 'l');
    assert("allow_release"@.len() == 13);
    assert("hint_location"@.len() == 13 && "hint_location"@[0] == 'h');
    assert("send_location"@.len() == 13 && "send_location"@[0] == 's');
    assert("send_multiple"@.len() == 13 && "send_multiple"@[0] == 's');
    assert("allow_release"@[0] == 'a');
}

/// The names of the commands differ.
proof fn commands_differ()
    ensures
        "say"@ != "status"@,
        "countdown"@ != "status"@ && "countdown"@ != "say"@,
        "option"@ != "status"@ && "option"@ != "say"@ && "option"@ != "countdown"@,
        "release"@ != "status"@ && "release"@ != "say"@ && "release"@ != "countdown"@
            && "release"@ != "option"@,
        "collect"@ != "status"@ && "collect"@ != "say"@ && "collect"@ != "countdown"@
            && "collect"@ != "option"@ && "collect"@ != "release"@,
        "send_item"@ != "status"@ && "send_item"@ != "say"@ && "send_item"@ != "countdown"@
            && "send_item"@ != "option"@ && "send_item"@ != "release"@
            && "send_item"@ != "collect"@,
        "send_multiple"@ != "status"@ && "send_multiple"@ != "say"@
            && "send_multiple"@ != "countdown"@ && "send_multiple"@ != "option"@
            && "send_multiple"@ != "release"@ && "send_multiple"@ != "collect"@
            && "send_multiple"@ != "send_item"@,
        "hint"@ != "status"@ && "hint"@ != "say"@ && "hint"@ != "countdown"@
            && "hint"@ != "option"@ && "hint"@ != "release"@ && "hint"@ != "collect"@
            && "hint"@ != "send_item"@ && "hint"@ != "send_multiple"@,
        "hint_location"@ != "status"@ && "hint_location"@ != "say"@
            && "hint_location"@ != "countdown"@ && "hint_location"@ != "option"@
            && "hint_location"@ != "release"@ && "hint_location"@ != "collect"@
            && "hint_location"@ != "send_item"@ && "hint_location"@ != "send_multiple"@
            && "hint_location"@ != "hint"@,
        "send_location"@ != "status"@ && "send_location"@ != "say"@
            && "send_location"@ != "countdown"@ && "send_location"@ != "option"@
            && "send_location"@ != "release"@ && "send_location"@ != "collect"@
            && "send_location"@ != "send_item"@ && "send_location"@ != "send_multiple"@
            && "send_location"@ != "hint"@ && "send_location"@ != "hint_location"@,
        "allow_release"@ != "status"@ && "allow_release"@ != "say"@
            && "allow_release"@ != "countdown"@ && "allow_release"@ != "option"@
            && "allow_release"@ != "release"@ && "allow_release"@ != "collect"@
            && "allow_release"@ != "send_item"@ && "allow_release"@ != "send_multiple"@
            && "allow_release"@ != "hint"@ && "allow_release"@ != "hint_location"@
            && "allow_release"@ != "send_location"@,
        "lock"@ != "status"@ && "lock"@ != "say"@ && "lock"@ != "countdown"@
            && "lock"@ != "option"@ && "lock"@ != "release"@ && "lock"@ != "collect"@
            && "lock"@ != "send_item"@ && "lock"@ != "send_multiple"@ && "lock"@ != "hint"@
            && "lock"@ != "hint_location"@ && "lock"@ != "send_location"@
            && "lock"@ != "allow_release"@,
        "set_status"@ != "status"@ && "set_status"@ != "say"@ && "set_status"@ != "countdown"@
            && "set_status"@ != "option"@ && "set_status"@ != "release"@
            && "set_status"@ != "collect"@ && "set_status"@ != "send_item"@
            && "set_status"@ != "send_multiple"@ && "set_status"@ != "hint"@
            && "set_status"@ != "hint_location"@ && "set_status"@ != "send_location"@
            && "set_status"@ != "allow_release"@ && "set_status"@ != "lock"@,
        "alias"@ != "status"@ && "alias"@ != "say"@ && "alias"@ != "countdown"@
            && "alias"@ != "option"@ && "alias"@ != "release"@ && "alias"@ != "collect"@
            && "alias"@ != "send_item"@ && "alias"@ != "send_multiple"@ && "alias"@ != "hint"@
            && "alias"@ != "hint_location"@ && "alias"@ != "send_location"@
            && "alias"@ != "allow_release"@ && "alias"@ != "lock"@ && "alias"@ != "set_status"@,
        "kick"@ != "status"@ && "kick"@ != "say"@ && "kick"@ != "countdown"@
            && "kick"@ != "option"@ && "kick"@ != "release"@ && "kick"@ != "collect"@
            && "kick"@ != "send_item"@ && "kick"@ != "send_multiple"@ && "kick"@ != "hint"@
            && "kick"@ != "hint_location"@ && "kick"@ != "send_location"@
            && "kick"@ != "allow_release"@ && "kick"@ != "lock"@ && "kick"@ != "set_status"@
            && "kick"@ != "alias"@,
{
    reveal_strlit("status");
    reveal_strlit("say");
    reveal_strlit("countdown");
    reveal_strlit("option");
    reveal_strlit("release");
    reveal_strlit("collect");
    reveal_strlit("send_item");
    reveal_strlit("send_multiple");
    reveal_strlit("hint");
    reveal_strlit("hint_location");
    reveal_strlit("send_location");
    reveal_strlit("allow_release");
    reveal_strlit("lock");
    reveal_strlit("set_status");
    reveal_strlit("alias");
    reveal_strlit("kick");
    assert("status"@.len() == 6 && "say"@.len() == 3 && "countdown"@.len() == 9
        && "option"@.len() == 6 && "release"@.len() == 7 && "collect"@.len() == 7
        && "send_item"@.len() == 9 && "send_multiple"@.len() == 13 && "hint"@.len() == 4
        && "hint_location"@.len() == 13 && "send_location"@.len() == 13
        && "allow_release"@.len() == 13 && "lock"@.len() == 4 && "set_status"@.len() == 10
        && "alias"@.len() == 5 && "kick"@.len() == 4);
    assert("allow_release"@[0] == 'a' && "collect"@[0] == 'c' && "countdown"@[0] == 'c'
        && "hint"@[0] == 'h' && "hint_location"@[0] == 'h' && "kick"@[0] == 'k'
        && "lock"@[0] == 'l' && "option"@[0] == 'o' && "release"@[0] == 'r'
        && "send_item"@[0] == 's' && "send_location"@[0] == 's' && "send_location"@[5] == 'l'
        && "send_multiple"@[0] == 's' && "send_multiple"@[5] == 'm' && "status"@[0] == 's');
}

/// The names of the states differ.
proof fn states_differ()
    ensures
        "connected"@ != "unknown"@,
        "ready"@ != "unknown"@ && "ready"@ != "connected"@,
        "playing"@ != "unknown"@ && "playing"@ != "connected"@ && "playing"@ != "ready"@,
        "goal"@ != "unknown"@ && "goal"@ != "connected"@ && "goal"@ != "ready"@
            && "goal"@ != "playing"@,
{
    reveal_strlit("unknown");
    reveal_strlit("connected");
    reveal_strlit("ready");
    reveal_strlit("playing");
    reveal_strlit("goal");
    assert("unknown"@.len() == 7 && "connected"@.len() == 9 && "ready"@.len() == 5
        && "playing"@.len() == 7 && "goal"@.len() == 4);
    assert("playing"@[0] == 'p' && "unknown"@[0] == 'u');
}

/// A command for a slot is for the slot that the object names, and carries what the object gives
/// under the name of each thing: items, locations, amounts, texts and truth values.
pub proof fn a_command_carries_what_is_given(
    m: Seq<(Seq<char>, Member)>,
    slot: nat,
    thing: Seq<char>,
    place: Seq<char>,
    n: int,
    b: bool,
)
    requires
        member(m, "slot"@) == Some(Member::Number(dec(slot))),
        slot <= u32::MAX,
        member(m, "team"@) is None,
        member(m, "item"@) == Some(Member::Text(thing)),
        member(m, "location"@) == Some(Member::Text(place)),
        member(m, "amount"@) == Some(Member::Number(dec_int(n))),
        i64::MIN <= n <= i64::MAX,
        member(m, "force"@) == Some(Member::Bool(b)),
        member(m, "allowed"@) == Some(Member::Bool(b)),
        member(m, "locked"@) == Some(Member::Bool(b)),
        member(m, "alias"@) == Some(Member::Text(thing)),
        member(m, "reason"@) == Some(Member::Text(place)),
    ensures
        ({
            let s = slot as u32;
            &&& slot_command(m, "release"@) == Ok::<_, Seq<char>>(Request::Release(s))
            &&& slot_command(m, "collect"@) == Ok::<_, Seq<char>>(Request::Collect(s))
            &&& slot_command(m, "send_item"@) == Ok::<_, Seq<char>>(Request::SendItem(s, thing))
            &&& slot_command(m, "send_multiple"@) == Ok::<_, Seq<char>>(
                Request::SendMultiple(s, thing, n as i64),
            )
            &&& slot_command(m, "hint"@) == Ok::<_, Seq<char>>(Request::Hint(s, thing, b))
            &&& slot_command(m, "hint_location"@) == Ok::<_, Seq<char>>(
                Request::HintLocation(s, place, b),
            )
            &&& slot_command(m, "send_location"@) == Ok::<_, Seq<char>>(
                Request::SendLocation(s, place),
            )
            &&& slot_command(m, "allow_release"@) == Ok::<_, Seq<char>>(Request::AllowRelease(s, b))
            &&& slot_command(m, "lock"@) == Ok::<_, Seq<char>>(Request::Lock(s, b))
            &&& slot_command(m, "alias"@) == Ok::<_, Seq<char>>(Request::Alias(s, thing))
            &&& slot_command(m, "kick"@) == Ok::<_, Seq<char>>(Request::Kick(s, place))
        }),
{
    commands_differ();
    dec_reads_back(slot);
    assert(is_digit(dec(slot)[0]));
    signed_reads_back(n);
    assert(signed_text(dec(slot)) == Some(slot as int));
}

/// An integer in decimal reads as itself.
proof fn signed_reads_back(n: int)
    requires
        i64::MIN <= n <= i64::MAX,
    ensures
        signed_text(dec_int(n)) == Some(n),
{
    if n < 0 {
        dec_reads_back((-n) as nat);
        assert(dec_int(n).drop_first() =~= dec((-n) as nat));
    } else {
        dec_reads_back(n as nat);
        assert(is_digit(dec(n as nat)[0]));
    }
}

/// What may be left out: a release is allowed and a slot is locked unless the object says
/// otherwise, a hint is not forced, and an alias or a reason is empty.
pub proof fn what_is_left_out_has_its_default(m: Seq<(Seq<char>, Member)>, slot: nat)
    requires
        member(m, "slot"@) == Some(Member::Number(dec(slot))),
        slot <= u32::MAX,
        member(m, "team"@) is None,
        member(m, "force"@) is None,
        member(m, "allowed"@) is None,
        member(m, "locked"@) is None,
        member(m, "alias"@) is None,
        member(m, "reason"@) is None,
    ensures
        ({
            let s = slot as u32;
            &&& slot_command(m, "allow_release"@) == Ok::<_, Seq<char>>(
                Request::AllowRelease(s, true),
            )
            &&& slot_command(m, "lock"@) == Ok::<_, Seq<char>>(Request::Lock(s, true))
            &&& slot_command(m, "alias"@) == Ok::<_, Seq<char>>(Request::Alias(s, Seq::empty()))
            &&& slot_command(m, "kick"@) == Ok::<_, Seq<char>>(Request::Kick(s, Seq::empty()))
            &&& slot_command(m, "hint"@) matches Ok(Request::Hint(_, _, force)) ==> !force
            &&& slot_command(m, "hint_location"@) matches Ok(Request::HintLocation(_, _, force))
                ==> !force
        }),
{
    commands_differ();
    dec_reads_back(slot);
    assert(is_digit(dec(slot)[0]));
    assert(signed_text(dec(slot)) == Some(slot as int));
}

/// The states that a slot can be given go by their names.
pub proof fn a_state_goes_by_its_name(m: Seq<(Seq<char>, Member)>, slot: nat, name: Seq<char>)
    requires
        member(m, "slot"@) == Some(Member::Number(dec(slot))),
        slot <= u32::MAX,
        member(m, "team"@) is None,
        member(m, "status"@) == Some(Member::Text(name)),
    ensures
        ({
            let s = slot as u32;
            let r = slot_command(m, "set_status"@);
            &&& name == "unknown"@ ==> r == Ok::<_, Seq<char>>(
                Request::SetStatus(s, ClientStatus::Unknown),
            )
            &&& name == "connected"@ ==> r == Ok::<_, Seq<char>>(
                Request::SetStatus(s, ClientStatus::Connected),
            )
            &&& name == "ready"@ ==> r == Ok::<_, Seq<char>>(
                Request::SetStatus(s, ClientStatus::Ready),
            )
            &&& name == "playing"@ ==> r == Ok::<_, Seq<char>>(
                Request::SetStatus(s, ClientStatus::Playing),
            )
            &&& name == "goal"@ ==> r == Ok::<_, Seq<char>>(
                Request::SetStatus(s, ClientStatus::Goal),
            )
        }),
{
    commands_differ();
    states_differ();
    dec_reads_back(slot);
    assert(is_digit(dec(slot)[0]));
    assert(signed_text(dec(slot)) == Some(slot as int));
}

/// Each command that is for no slot carries what the object gives, under the command's own name.
pub proof fn a_command_for_the_room_carries_what_is_given(
    m: Seq<(Seq<char>, Member)>,
    command: Seq<char>,
    said: Seq<char>,
    n: int,
    name: Seq<char>,
    value: Seq<char>,
)
    requires
        member(m, "command"@) == Some(Member::Text(command)),
        member(m, "text"@) == Some(Member::Text(said)),
        member(m, "seconds"@) == Some(Member::Number(dec_int(n))),
        i64::MIN <= n <= i64::MAX,
        member(m, "name"@) == Some(Member::Text(name)),
        member(m, "value"@) == Some(Member::Text(value)),
    ensures
        command == "status"@ ==> command_of(m) == Ok::<_, Seq<char>>(Request::Status),
        command == "say"@ ==> command_of(m) == Ok::<_, Seq<char>>(Request::Say(said)),
        command == "countdown"@ ==> command_of(m) == Ok::<_, Seq<char>>(
            Request::Countdown(n as i64),
        ),
        command == "option"@ ==> command_of(m) == Ok::<_, Seq<char>>(
            Request::SetOption(name, value),
        ),
        command == "release"@ ==> command_of(m) == slot_command(m, command),
{
    commands_differ();
    signed_reads_back(n);
}

} // verus!
