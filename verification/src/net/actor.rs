//! What the task that owns a room decides.
//!
//! The task waits for nothing but its mailbox, a clock, and a save that has ended. What it does to
//! the room is the room's; what stands here is what it decides around that.

use crate::multidata::locations::slot_entries;
use crate::multidata::multidata::{slots_of_type, MultiData, ONLY_TEAM};
use crate::multidata::types::{SlotModel, SlotType};
use crate::net::http::status::SlotStatus;
use crate::net::metrics::{
    record_bytes_in, record_client_message, record_packet, Counters, Metrics, SlotKey,
};
use crate::table::{
    ascending, bumped, entry, setting_all, tables_equal, with_entries, with_entry, without_entry,
    Duplicate, Table,
};
use vstd::prelude::*;

verus! {

/// How a room is saved. The times are in milliseconds.
#[derive(Debug, Clone, Copy, PartialEq, Eq)]
pub struct SaveConfig {
    /// How much of play an unclean stop may lose.
    pub interval_ms: u64,
    /// Whether the body of a save is compressed.
    pub compress: bool,
    /// How long the last save may take before the room stops waiting for it.
    pub shutdown_timeout_ms: u64,
}

impl Default for SaveConfig {
    fn default() -> (r: SaveConfig)
        ensures
            r.interval_ms == 60_000,
            r.compress,
            r.shutdown_timeout_ms == 10_000,
    {
        SaveConfig { interval_ms: 60_000, compress: true, shutdown_timeout_ms: 10_000 }
    }
}

/// Where saving stands.
#[derive(Debug, Clone, Copy, PartialEq, Eq, Structural)]
pub struct Saver {
    /// Whether there is anywhere to save to.
    pub saving: bool,
    pub in_flight: bool,
    /// State has changed since the last save was started.
    pub dirty: bool,
}

/// How a save ended.
#[derive(Debug, Clone, Copy, PartialEq, Eq, Structural)]
pub enum Saved {
    Stored,
    /// It could not be stored.
    Failed,
    /// The task that was to store it did not come to an end.
    Lost,
}

/// How the last save begins.
#[derive(Debug, Clone, Copy, PartialEq, Eq, Structural)]
pub enum LastSave {
    /// There is nowhere to save to.
    Skip,
    /// A save is running and is waited for first, so that the newest lands last.
    WaitFirst,
    Now,
}

impl Saver {
    pub fn new(saving: bool) -> (r: Saver)
        ensures
            r == (Saver { saving, in_flight: false, dirty: false }),
    {
        Saver { saving, in_flight: false, dirty: false }
    }

    /// Notes whether state has changed.
    pub fn note(&mut self, changed: bool)
        ensures
            *final(self) == (Saver { dirty: old(self).dirty || changed, ..*old(self) }),
    {
        if changed {
            self.dirty = true;
        }
    }

    /// Whether to start a save now. One that comes while another is running is let go: the state
    /// stays marked, and the next free one covers it.
    pub fn maybe_start(&mut self) -> (r: bool)
        ensures
            r == (old(self).saving && old(self).dirty && !old(self).in_flight),
            *final(self) == if r {
                Saver { in_flight: true, dirty: false, ..*old(self) }
            } else {
                *old(self)
            },
    {
        if !self.saving || !self.dirty || self.in_flight {
            return false;
        }
        self.dirty = false;
        self.in_flight = true;
        true
    }

    /// Notes that a save has ended. What could not be stored is to be saved again.
    pub fn finished(&mut self, how: Saved)
        ensures
            *final(self) == (Saver {
                in_flight: false,
                dirty: old(self).dirty || how == Saved::Failed,
                ..*old(self)
            }),
    {
        self.in_flight = false;
        if how == Saved::Failed {
            self.dirty = true;
        }
    }

    /// How the last save begins.
    pub fn flush(&self) -> (r: LastSave)
        ensures
            r == if !self.saving {
                LastSave::Skip
            } else if self.in_flight {
                LastSave::WaitFirst
            } else {
                LastSave::Now
            },
    {
        if !self.saving {
            LastSave::Skip
        } else if self.in_flight {
            LastSave::WaitFirst
        } else {
            LastSave::Now
        }
    }

    /// Starts the last save, whether or not anything has changed; not where one that was waited
    /// for is still running.
    pub fn start_last(&mut self) -> (r: bool)
        ensures
            r == (old(self).saving && !old(self).in_flight),
            r ==> final(self).in_flight && !final(self).dirty,
            !r ==> *final(self) == (Saver { dirty: true, ..*old(self) }),
            final(self).saving == old(self).saving,
    {
        self.dirty = true;
        self.maybe_start()
    }
}

/// Why the room closes a connection.
#[derive(Debug, Clone, PartialEq, Eq)]
pub enum CloseReason {
    ProtocolError(String),
    TooSlow,
    ServerShutdown,
    Kicked,
}

/// What a client is told when the room closes its connection.
pub open spec fn close_words(reason: CloseReason) -> &'static str {
    match reason {
        CloseReason::ProtocolError(_) => "protocol error",
        CloseReason::TooSlow => "client too slow",
        CloseReason::ServerShutdown => "server shutting down",
        CloseReason::Kicked => "disconnected by an administrator",
    }
}

/// What a client is told when the room closes its connection.
pub fn close_text(reason: &CloseReason) -> (r: &'static str)
    ensures
        r == close_words(*reason),
{
    match reason {
        CloseReason::ProtocolError(_) => "protocol error",
        CloseReason::TooSlow => "client too slow",
        CloseReason::ServerShutdown => "server shutting down",
        CloseReason::Kicked => "disconnected by an administrator",
    }
}

/// What the room knows of a connection.
#[derive(Debug, Clone, Copy, PartialEq, Eq)]
pub struct Client {
    pub auth: bool,
    pub no_text: bool,
    pub team: u32,
    pub slot: u32,
}

/// What a shard needs to know of a connection: whether it holds a slot, whether it takes no text,
/// and which slot.
pub type Membership = (bool, bool, Option<SlotKey>);

/// The slot that a connection holds.
pub open spec fn holds(client: Option<Client>) -> Option<SlotKey> {
    match client {
        Some(c) if c.auth => Some((c.team, c.slot)),
        _ => None,
    }
}

/// The slot to which what a connection sends is charged: the one that it holds before the message
/// is handled, so that a login is charged to nobody.
pub fn attributed(client: Option<Client>) -> (r: Option<SlotKey>)
    ensures
        r == holds(client),
{
    match client {
        Some(c) => if c.auth {
            Some((c.team, c.slot))
        } else {
            None
        },
        None => None,
    }
}

/// Counts a message of a client: once for the message, and its bytes.
pub fn count_message(m: &mut Metrics, client: Option<Client>, bytes: usize, now: u64)
    ensures
        final(m)@ == (Counters {
            message_at: now,
            read: bumped::<Option<SlotKey>>(old(m)@.read, holds(client), bytes as u64),
            ..old(m)@
        }),
{
    record_client_message(m, now);
    record_bytes_in(m, attributed(client), bytes);
}

/// Counts one packet of a message.
pub fn count_packet(m: &mut Metrics, client: Option<Client>, cmd: &'static str)
    ensures
        final(m)@ == (Counters {
            received: bumped::<(Option<SlotKey>, &'static str)>(
                old(m)@.received,
                (holds(client), cmd@),
                1,
            ),
            ..old(m)@
        }),
{
    record_packet(m, attributed(client), cmd);
}

/// What the shard that owns a connection is to be told of it.
pub fn push_membership(client: Option<Client>) -> (r: Option<Membership>)
    ensures
        r == match client {
            Some(c) => Some((c.auth, c.no_text, holds(client))),
            None => None,
        },
{
    match client {
        Some(c) => Some((c.auth, c.no_text, attributed(client))),
        None => None,
    }
}

/// What the room knows of a slot and the seed does not.
#[derive(Debug, Clone, Copy)]
pub struct SlotFacts {
    pub connections: usize,
    pub checks: usize,
    pub status: &'static str,
    pub locked: bool,
    pub filtered: bool,
}

/// What a row says of a slot, given what the room knows of it.
pub open spec fn row_fits(row: SlotStatus, seed: MultiData, key: SlotKey, facts: SlotFacts) -> bool {
    &&& row.team == key.0
    &&& row.slot == key.1
    &&& (match entry::<u32, SlotModel>(seed.slot_info.deep_view(), key.1) {
        Some(s) => row.name@ == s.name && row.game@ == s.game,
        None => row.name@.len() == 0 && row.game@.len() == 0,
    })
    &&& row.total_checks == slot_entries(seed.locations@, key.1).len()
    &&& row.connections == facts.connections
    &&& row.checks == facts.checks
    &&& row.status == facts.status
    &&& row.locked == facts.locked
    &&& row.filtered == facts.filtered
}

/// The teams and slots that a client may connect as.
pub open spec fn roster_keys(seed: MultiData) -> Seq<SlotKey> {
    slots_of_type(seed.model().slot_info, SlotType::Group, false).map_values(
        |s: (u32, SlotModel)| (ONLY_TEAM, s.0),
    )
}

/// One row for each team and slot that a client may connect as, spectators among them, given what
/// the room knows of each, in the same order.
pub fn roster(seed: &MultiData, facts: &Vec<SlotFacts>) -> (r: Vec<SlotStatus>)
    requires
        facts@.len() == roster_keys(*seed).len(),
    ensures
        r@.len() == facts@.len(),
        forall|i: int|
            0 <= i < r@.len() ==> row_fits(
                #[trigger] r@[i],
                *seed,
                roster_keys(*seed)[i],
                facts@[i],
            ),
{
    let keys = seed.team_slots();
    let mut out: Vec<SlotStatus> = Vec::new();
    for i in 0..keys.len()
        invariant
            keys@ == roster_keys(*seed),
            facts@.len() == keys@.len(),
            out@.len() == i,
            forall|j: int|
                0 <= j < i ==> row_fits(#[trigger] out@[j], *seed, keys@[j], facts@[j]),
    {
        let key = keys[i];
        let f = &facts[i];
        let (name, game) = match seed.slot_info.get(&key.1) {
            Some(s) => (s.name.clone(), s.game.clone()),
            None => (String::new(), String::new()),
        };
        out.push(
            SlotStatus {
                team: key.0,
                slot: key.1,
                name,
                game,
                connections: f.connections,
                checks: f.checks,
                total_checks: seed.locations.count_for(key.1),
                status: f.status,
                locked: f.locked,
                filtered: f.filtered,
            },
        );
    }
    out
}

/// Whether a slot is in the seed.
pub open spec fn in_seed(seed: MultiData, slot: u32) -> bool {
    entry::<u32, SlotModel>(seed.slot_info.deep_view(), slot) is Some
}

/// What came of rotating a password.
#[derive(Debug, Clone, Copy, PartialEq, Eq, Structural)]
pub struct Rotation {
    /// Whether there was anything to rotate.
    pub known: bool,
    /// What the history is to say: whether a password was set, or one was taken away.
    pub set: Option<bool>,
}

/// Rotates the password of a slot. Without passwords for slots there is nothing to rotate. Clearing
/// one takes the slot off the table, which bars it.
pub fn rotate_password(
    seed: &MultiData,
    passwords: &mut Option<Table<u32, String>>,
    slot: u32,
    password: Option<String>,
) -> (r: Rotation)
    ensures
        r.known == (in_seed(*seed, slot) && *old(passwords) is Some),
        r.set == if r.known {
            Some(password is Some)
        } else {
            None
        },
        !r.known ==> final(passwords).deep_view() == old(passwords).deep_view(),
        r.known ==> *final(passwords) is Some && final(passwords)->0.deep_view() == match password {
            Some(p) => with_entry::<u32, Seq<char>>(old(passwords)->0.deep_view(), slot, p@),
            None => without_entry::<u32, Seq<char>>(old(passwords)->0.deep_view(), slot),
        },
{
    if !seed.slot_info.contains_key(&slot) {
        return Rotation { known: false, set: None };
    }
    let mut taken: Option<Table<u32, String>> = None;
    std::mem::swap(passwords, &mut taken);
    match taken {
        Some(table) => {
            let set: bool = password.is_some();
            *passwords = Some(
                match password {
                    Some(p) => table.with(slot, p),
                    None => table.without(&slot),
                },
            );
            Rotation { known: true, set: Some(set) }
        },
        None => Rotation { known: false, set: None },
    }
}

/// What a rule of a filter matches: the direction and the kind of a message, and its tag or subtype
/// where the rule names one.
pub type Matcher = ((&'static str, &'static str), Option<String>);

/// The rules of a filter, each with the share that it drops: a double by its bit pattern.
pub type Rules = Table<Matcher, u64>;

/// The model of [`Rules`].
pub type RulesModel = Seq<(((Seq<char>, Seq<char>), Option<Seq<char>>), u64)>;

/// What is to be done to a filter.
#[derive(Debug)]
pub enum FilterEdit {
    Read,
    Replace(Rules),
    Merge(Rules),
    /// The rules by what they match; their shares are not looked at.
    Remove(Rules),
    Clear,
}

/// What stands once an edit was done.
#[derive(Debug)]
pub struct FilterState {
    /// The rules that stand here; none where there are none here at all, which is not the same as
    /// there being no rule.
    pub rules: Option<Rules>,
    /// The rules that apply.
    pub effective: Rules,
    /// Whether those are the room's.
    pub inherited: bool,
    /// How many rules were removed.
    pub removed: usize,
    /// Whether anything is to be set.
    pub changed: bool,
}

/// What came of an edit.
#[derive(Debug)]
pub enum FilterReply {
    Done(FilterState),
    /// The slot is not in the seed.
    UnknownSlot,
    /// The edit was refused, for this reason.
    Refused(String),
}

impl FilterReply {
    /// Whether anything is to be set.
    pub open spec fn sets(&self) -> bool {
        self matches FilterReply::Done(f) && f.changed
    }
}

/// The rules that are there, or none.
pub open spec fn rules_or_none(f: Option<RulesModel>) -> RulesModel {
    match f {
        Some(r) => r,
        None => Seq::empty(),
    }
}

/// The rules without those that match what others do, and how many went.
pub open spec fn rules_without(rules: RulesModel, gone: RulesModel) -> (RulesModel, nat)
    decreases gone.len(),
{
    if gone.len() == 0 {
        (rules, 0)
    } else {
        let (rest, n) = rules_without(rules, gone.drop_last());
        let k = gone.last().0;
        if entry::<Matcher, u64>(rest, k) is Some {
            (without_entry::<Matcher, u64>(rest, k), n + 1)
        } else {
            (rest, n)
        }
    }
}

/// The model of an edit.
pub enum EditModel {
    Read,
    Replace(RulesModel),
    Merge(RulesModel),
    Remove(RulesModel),
    Clear,
}

impl View for FilterEdit {
    type V = EditModel;

    open spec fn view(&self) -> EditModel {
        match self {
            FilterEdit::Read => EditModel::Read,
            FilterEdit::Replace(r) => EditModel::Replace(r.deep_view()),
            FilterEdit::Merge(r) => EditModel::Merge(r.deep_view()),
            FilterEdit::Remove(r) => EditModel::Remove(r.deep_view()),
            FilterEdit::Clear => EditModel::Clear,
        }
    }
}

/// The rules that stand somewhere once they were edited.
pub open spec fn edited(existing: Option<RulesModel>, edit: EditModel) -> Option<RulesModel> {
    match edit {
        EditModel::Read => existing,
        EditModel::Replace(r) => Some(r),
        EditModel::Merge(r) => Some(with_entries::<Matcher, u64>(rules_or_none(existing), r)),
        EditModel::Remove(r) => Some(rules_without(rules_or_none(existing), r).0),
        EditModel::Clear => None,
    }
}

/// The rules that apply: a slot without rules of its own is under the room's.
pub open spec fn applying(
    own: Option<RulesModel>,
    room: Option<RulesModel>,
    slot: bool,
) -> RulesModel {
    if slot && own is None {
        rules_or_none(room)
    } else {
        rules_or_none(own)
    }
}

fn rules_copied(f: Option<&Rules>) -> (r: Option<Rules>)
    ensures
        r.deep_view() == f.deep_view(),
{
    match f {
        Some(t) => Some(t.copied()),
        None => None,
    }
}

fn rules_of(f: Option<&Rules>) -> (r: Rules)
    ensures
        r.deep_view() == rules_or_none(f.deep_view()),
{
    match f {
        Some(t) => t.copied(),
        None => Table::new(),
    }
}

fn take_out(rules: Rules, gone: &Rules) -> (r: (Rules, usize))
    ensures
        r.0.deep_view() == rules_without(rules.deep_view(), gone.deep_view()).0,
        r.1 == rules_without(rules.deep_view(), gone.deep_view()).1,
{
    let ghost first = rules.deep_view();
    let ghost g = gone.deep_view();
    let mut rest = rules;
    let mut n: usize = 0;
    let count: usize = gone.len();
    assert(g.take(0) =~= Seq::empty());
    for i in 0..count
        invariant
            g == gone.deep_view(),
            count == g.len(),
            n <= i,
            rest.deep_view() == rules_without(first, g.take(i as int)).0,
            n == rules_without(first, g.take(i as int)).1,
    {
        assert(g.take(i + 1).drop_last() =~= g.take(i as int));
        let key = gone.key_at(i);
        if rest.contains_key(key) {
            rest = rest.without(key);
            n += 1;
        }
    }
    assert(g.take(count as int) =~= g);
    (rest, n)
}

/// Does an edit that was not refused to the rules that stand somewhere: in a slot, or in the room.
pub fn edit_filter(
    existing: Option<&Rules>,
    room: Option<&Rules>,
    slot: bool,
    edit: FilterEdit,
) -> (r: FilterState)
    ensures
        r.rules.deep_view() == edited(existing.deep_view(), edit@),
        r.effective.deep_view() == applying(
            edited(existing.deep_view(), edit@),
            room.deep_view(),
            slot,
        ),
        r.inherited == (slot && edited(existing.deep_view(), edit@) is None),
        r.removed == match edit@ {
            EditModel::Remove(g) => rules_without(rules_or_none(existing.deep_view()), g).1,
            _ => 0,
        },
        r.changed == (edit !is Read),
{
    let mut removed: usize = 0;
    let mut changed: bool = true;
    let own: Option<Rules> = match edit {
        FilterEdit::Read => {
            changed = false;
            rules_copied(existing)
        },
        FilterEdit::Replace(rules) => Some(rules),
        FilterEdit::Merge(rules) => Some(rules_of(existing).with_all(&rules)),
        FilterEdit::Remove(gone) => {
            let (rest, n) = take_out(rules_of(existing), &gone);
            removed = n;
            Some(rest)
        },
        FilterEdit::Clear => None,
    };
    let inherited: bool = slot && own.is_none();
    let effective = if inherited {
        rules_of(room)
    } else {
        match &own {
            Some(t) => t.copied(),
            None => Table::new(),
        }
    };
    FilterState { rules: own, effective, inherited, removed, changed }
}

/// Whether an edit is refused: a merge is, where there is a reason that the rules do not take it.
pub open spec fn merge_refused(edit: FilterEdit, reason: Option<String>) -> bool {
    edit is Merge && reason is Some
}

/// Does an edit to the rules of a slot of the seed, or of the room; nothing where the slot is not in
/// the seed, and nothing where it is a merge that the rules do not take, for the reason given.
pub fn filter(
    seed: &MultiData,
    slot: Option<u32>,
    existing: Option<&Rules>,
    room: Option<&Rules>,
    edit: FilterEdit,
    reason: Option<String>,
) -> (r: FilterReply)
    ensures
        r is UnknownSlot <==> (slot matches Some(n) && !in_seed(*seed, n)),
        r !is UnknownSlot && merge_refused(edit, reason) ==> {
            &&& r matches FilterReply::Refused(why)
            &&& why@ == reason->0@
            &&& !r.sets()
        },
        r !is UnknownSlot && !merge_refused(edit, reason) ==> {
            &&& r matches FilterReply::Done(state)
            &&& state.rules.deep_view() == edited(existing.deep_view(), edit@)
            &&& state.effective.deep_view() == applying(
                edited(existing.deep_view(), edit@),
                room.deep_view(),
                slot is Some,
            )
            &&& state.inherited == (slot is Some && edited(existing.deep_view(), edit@) is None)
            &&& state.removed == match edit@ {
                EditModel::Remove(g) => rules_without(rules_or_none(existing.deep_view()), g).1,
                _ => 0,
            }
            &&& r.sets() == (edit !is Read)
        },
        r is UnknownSlot ==> !r.sets(),
{
    if let Some(n) = slot {
        if !seed.slot_info.contains_key(&n) {
            return FilterReply::UnknownSlot;
        }
    }
    if let FilterEdit::Merge(_) = &edit {
        if let Some(why) = reason {
            return FilterReply::Refused(why);
        }
    }
    FilterReply::Done(edit_filter(existing, room, slot.is_some(), edit))
}

/// Merging the same rules twice is merging them once.
pub proof fn merging_is_idempotent(existing: Option<RulesModel>, r: RulesModel)
    requires
        ascending::<Matcher, u64>(rules_or_none(existing)),
        ascending::<Matcher, u64>(r),
    ensures
        edited(edited(existing, EditModel::Merge(r)), EditModel::Merge(r)) == edited(
            existing,
            EditModel::Merge(r),
        ),
{
    let s = rules_or_none(existing);
    let once = with_entries::<Matcher, u64>(s, r);
    let twice = with_entries::<Matcher, u64>(once, r);
    assert forall|k: ((Seq<char>, Seq<char>), Option<Seq<char>>)| #[trigger]
        entry::<Matcher, u64>(twice, k) == entry::<Matcher, u64>(once, k) by {
        setting_all::<Matcher, u64>(s, r, k);
        setting_all::<Matcher, u64>(once, r, k);
    }
    let k = ((Seq::<char>::empty(), Seq::<char>::empty()), None::<Seq<char>>);
    setting_all::<Matcher, u64>(s, r, k);
    setting_all::<Matcher, u64>(once, r, k);
    tables_equal::<Matcher, u64>(twice, once);
}

/// A slot with no rule of its own is exempt from the room's, and one without rules at all is under
/// them.
pub proof fn an_empty_filter_exempts(room: Option<RulesModel>)
    ensures
        applying(Some(Seq::empty()), room, true) == Seq::<
            (((Seq<char>, Seq<char>), Option<Seq<char>>), u64),
        >::empty(),
        applying(None, room, true) == rules_or_none(room),
        edited(Some(Seq::empty()), EditModel::Clear) is None,
{
}

} // verus!
