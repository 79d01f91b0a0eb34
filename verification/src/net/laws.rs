//! Laws of the room's plumbing: where messages go, what is counted, and what follows what.

use crate::multidata::locations::slot_entries;
use crate::multidata::multidata::{slots_of_type, MultiData};
use crate::multidata::types::{SlotModel, SlotType};
use crate::net::actor::{
    applying, attributed, close_words, count_message, count_packet, edited, filter,
    push_membership, roster, roster_keys, rotate_password, row_fits, rules_or_none, rules_without,
    Client, CloseReason, EditModel, FilterEdit, FilterReply, LastSave, Matcher, Rotation, Rules,
    RulesModel, Saved, Saver, SlotFacts,
};
use crate::net::budget::{Budget, Ledger};
use crate::net::channel::Offer;
use crate::net::dispatch::{
    broadcast, close, emitted, filter_changed, membership_changed, send,
};
use crate::net::fanout::{after_offers, after_told, Relayed, Shards, Told};
use crate::net::http::command::AdminCommand;
use crate::net::http::status::SlotStatus;
use crate::net::mailbox::{planned, Act, ActorMsg, Steward, Wake};
use crate::net::metrics::{
    delivered_more, record_auth_failure, record_auth_rate_limited, record_bytes_in,
    record_client_deflate, record_client_message, record_delivery, record_http,
    record_http_malformed, record_lag_disconnect, record_mailbox_depth, record_packet,
    record_packet_out, record_shard_overflow, record_shard_sweep, requests_more, Counters,
    Delivered, Exchange, Metrics, SlotKey,
};
use crate::net::save::{note_save, store_next, StoreNext, StoreStep};
use crate::net::session::{Arrival, Doing, Move, Writer};
use crate::net::shard::{
    account_in, closed_for, frame_bytes, held_by, held_in, in_audience,
    letting_go_takes_one_connection, member_seat, rightly_sent, same_recipients, seat, Books, ConnId,
    Entry, Handled, Member, Outgoing, Recipients, Shard, ShardMsg,
};
use crate::table::{
    ascending, bumped, count_of, counting_is_separate, entry, lookup_is_complete, place_parts,
    removing_is_separate, setting_all, setting_is_separate, wrapped, Table,
};
use vstd::prelude::*;

verus! {

/// What is told of a connection goes to one shard, that of the remainder of its number: frames
/// through the queue that may be full, and everything that changes who is there through the one
/// that never is. A frame that is lost closes its connection, and nothing else does.
pub proof fn what_is_told_goes_to_the_owner(s: Shards, conn: ConnId, msg: ShardMsg, r: Told)
    requires
        s.wf(),
        s.was_told(conn, msg, r),
    ensures
        ({
            let k = conn as int % s.frames@.len() as int;
            &&& msg is Send || msg is Broadcast <==> r is Frame
            &&& msg is Add || msg is Remove || msg is Update || msg is SetFilter || msg is Close
                || msg is Sweep <==> r is Control
            &&& r matches Told::Frame(x) ==> x.frame.to() == s.frames@[k] && x.frame.what() == msg
                && (x.frame.answer() != Offer::Full ==> x.remedy is None) && (x.frame.answer()
                == Offer::Full ==> x.remedy is Some && x.remedy->0.to() == s.control@[k]
                && (x.remedy->0.what() matches ShardMsg::Close { conn: c, reason } && c == conn
                && reason@ == "the server fell behind"@))
            &&& r matches Told::Control(p) ==> p.to() == s.control@[k] && p.what() == msg
        }),
{
}

/// A lost frame is counted once, and a frame that is not lost not at all.
pub proof fn a_lost_frame_is_counted_once(c: Counters, r: Told)
    requires
        c.overflowed < u64::MAX,
    ensures
        r matches Told::Frame(x) && x.frame.answer() == Offer::Full ==> after_told(c, r).overflowed
            == c.overflowed + 1,
        r is Control ==> after_told(c, r) == c,
        r matches Told::Frame(x) && x.frame.answer() != Offer::Full ==> after_told(c, r) == c,
{
}

/// A broadcast that the last of some shards had no room for counts one loss; its connections are
/// closed and counted unless that was done before, and are marked. One that it took changes
/// nothing.
pub proof fn a_lost_broadcast_sweeps_its_shard(
    c: Counters,
    swept: Seq<bool>,
    said: Seq<Offer>,
    n: nat,
)
    requires
        0 < n <= swept.len(),
        said.len() == swept.len(),
        after_offers(c, swept, said, (n - 1) as nat).1.len() == swept.len(),
        after_offers(c, swept, said, (n - 1) as nat).0.overflowed < u64::MAX,
        after_offers(c, swept, said, (n - 1) as nat).0.swept < u64::MAX,
    ensures
        ({
            let (d, marks) = after_offers(c, swept, said, (n - 1) as nat);
            let (e, now) = after_offers(c, swept, said, n);
            &&& said[n - 1] != Offer::Full ==> e == d && now == marks
            &&& said[n - 1] == Offer::Full ==> e.overflowed == d.overflowed + 1 && now[n - 1]
                && e.swept == d.swept + if marks[n - 1] {
                0int
            } else {
                1
            }
            &&& forall|k: int| 0 <= k < swept.len() && k != n - 1 ==> now[k] == marks[k]
        }),
        after_offers(c, swept, said, 0) == (c, swept),
{
}

/// A message wakes the task to tell the room the time first; then each kind of message is done in
/// its own way, and what it carries is handed on as it is.
pub proof fn each_message_is_done_in_its_way(
    command: AdminCommand,
    slot: u32,
    password: Option<String>,
    of: Option<u32>,
    edit: FilterEdit,
    s: Steward,
    msg: ActorMsg,
)
    ensures
        s.woken(Wake::Message(msg)).1.len() == 1 + planned(msg).len(),
        s.woken(Wake::Message(msg)).1[0] == Act::Tick,
        s.woken(Wake::Message(msg)).1.skip(1) == planned(msg),
        s.woken(Wake::Message(msg)).0 == s,
        planned(ActorMsg::Live) =~= seq![Act::ReplyLive],
        planned(ActorMsg::Status) =~= seq![Act::ReplyStatus],
        planned(ActorMsg::Tracker) =~= seq![Act::ReplyTracker],
        planned(ActorMsg::Admin { command }) =~= seq![Act::Command { command }],
        planned(ActorMsg::SetSlotPassword { slot, password }) =~= seq![
            Act::Rotate { slot, password },
        ],
        planned(ActorMsg::Filter { slot: of, edit }) =~= seq![Act::Filter { slot: of, edit }],
        planned(ActorMsg::Shutdown).len() == 2 && planned(ActorMsg::Shutdown)[0] == Act::CloseRoom
            && planned(ActorMsg::Shutdown)[1] == Act::Stop,
{
    assert(s.woken(Wake::Message(msg)).1.skip(1) =~= planned(msg));
}

/// The packets of a message are framed by the count of its bytes in front and the news for its
/// shard behind; a connection that has come is announced, and one whose packets cannot be read is
/// closed as such.
pub proof fn a_connection_is_kept_current(msg: ActorMsg)
    ensures
        msg matches ActorMsg::Packets { conn, cmds, bytes } ==> planned(msg)[0] == (
        Act::CountMessage { conn, bytes }) && planned(msg).last() == (Act::Publish { conn }),
        msg matches ActorMsg::Connected { conn, .. } ==> planned(msg).last() == (Act::Publish {
            conn,
        }) && planned(msg).len() == 3,
        msg matches ActorMsg::DecodeFailed { conn, .. } ==> planned(msg).len() == 3 && (
        planned(msg)[1] matches Act::Tell(to, ShardMsg::Close { conn: c, reason }) && to == conn && c
            == conn && reason@ == "protocol error"@),
        msg matches ActorMsg::Disconnected { .. } ==> planned(msg).len() == 2,
{
}

/// The timer starts a save exactly where the room is saved, has changed and has no save running;
/// it has the history flushed where there is one. Any other waking starts none.
pub proof fn the_timer_saves_what_has_changed(s: Steward)
    ensures
        s.woken(Wake::SaveTimer).1.contains(Act::StartSave) <==> s.saver.saving && s.saver.dirty
            && !s.saver.in_flight,
        s.woken(Wake::SaveTimer).1.contains(Act::FlushJournal) <==> s.journal,
        s.saver.saving && s.saver.dirty && !s.saver.in_flight ==> !s.woken(
            Wake::SaveTimer,
        ).0.saver.dirty && s.woken(Wake::SaveTimer).0.saver.in_flight,
        s.woken(Wake::SaveEnded(Saved::Stored)).0.saver == (Saver { in_flight: false, ..s.saver }),
        s.woken(Wake::SaveEnded(Saved::Failed)).0.saver == (Saver {
            in_flight: false,
            dirty: true,
            ..s.saver
        }),
        s.woken(Wake::Countdown).1 =~= seq![Act::Tick],
        s.woken(Wake::Abandoned).1 =~= seq![Act::Stop],
{
    let acts = s.woken(Wake::SaveTimer).1;
    if s.saver.saving && s.saver.dirty && !s.saver.in_flight {
        assert(acts[0] == Act::StartSave);
        if s.journal {
            assert(acts[1] == Act::FlushJournal);
        }
    } else if s.journal {
        assert(acts[0] == Act::FlushJournal);
    }
}

/// An idle writer writes the frame that is next; once that is written, or cannot be, its bytes come
/// off the books, and it goes on only where it was written.
pub proof fn a_frame_is_written_and_comes_off_the_books(w: Writer, size: usize, ok: bool)
    requires
        w.doing == Doing::Nothing,
    ensures
        ({
            let (busy, turn) = w.turned(Arrival::Frame { size });
            let (after, done) = busy.turned(Arrival::Wrote { ok });
            &&& turn.next == Move::WriteFrame && turn.released is None
            &&& done.released == Some(size)
            &&& ok ==> done.next == Move::Wait && after == w
            &&& !ok ==> done.next == Move::Stop && after.doing == Doing::Stopped
        }),
{
}

/// A writer that is told to close says goodbye with the code for going away and the reason that it
/// was given, and stops whether or not that was written. One whose queue has ended stops at once.
pub proof fn a_close_is_the_last_thing_written(w: Writer, reason: &'static str, ok: bool)
    requires
        w.doing == Doing::Nothing,
    ensures
        ({
            let (leaving, turn) = w.turned(Arrival::Close { reason });
            let (after, done) = leaving.turned(Arrival::Wrote { ok });
            &&& turn.next == (Move::WriteClose { code: 1001, reason })
            &&& done.next == Move::Stop && done.released is None && after.doing == Doing::Stopped
            &&& w.turned(Arrival::Ended).1.next == Move::Stop
        }),
{
}

/// A ping that was written lets a writer wait on; one that could not be stops it.
pub proof fn a_ping_that_fails_stops_a_writer(w: Writer, now: u64, pongs: u64)
    requires
        w.doing == Doing::Nothing,
        w.turned(Arrival::Timer { now, pongs }).1.next == Move::WritePing,
    ensures
        ({
            let pinging = w.turned(Arrival::Timer { now, pongs }).0;
            &&& pinging.turned(Arrival::Wrote { ok: true }).1.next == Move::Wait
            &&& pinging.turned(Arrival::Wrote { ok: true }).0.doing == Doing::Nothing
            &&& pinging.turned(Arrival::Wrote { ok: false }).1.next == Move::Stop
        }),
{
}

/// Each packet that is emitted is counted once under its own command, and under no other.
pub proof fn packets_emitted_are_counted(
    c: Counters,
    cmds: Seq<&str>,
    n: nat,
    other: Seq<char>,
)
    requires
        n < cmds.len(),
        ascending::<String, u64>(emitted(c, cmds, n).produced),
        count_of::<String>(emitted(c, cmds, n).produced, cmds[n as int]@) < u64::MAX,
        other != cmds[n as int]@,
    ensures
        emitted(c, cmds, 0) == c,
        count_of::<String>(emitted(c, cmds, (n + 1) as nat).produced, cmds[n as int]@) == count_of::<
            String,
        >(emitted(c, cmds, n).produced, cmds[n as int]@) + 1,
        count_of::<String>(emitted(c, cmds, (n + 1) as nat).produced, other) == count_of::<String>(
            emitted(c, cmds, n).produced,
            other,
        ),
{
    counting_is_separate::<String>(emitted(c, cmds, n).produced, cmds[n as int]@, 1, other);
}

/// What is sent to a connection goes to its owner as one frame with its tag, and nothing goes out
/// for no packets.
pub proof fn packets_go_out_as_one_frame(
    shards: &mut Shards,
    to: ConnId,
    cmds: &Vec<&str>,
    msg: Outgoing,
    tag: Option<u64>,
    metrics: &mut Metrics,
    r: Option<Told>,
)
    requires
        old(shards).wf(),
        call_ensures(send, (shards, to, cmds, msg, tag, metrics), r),
    ensures
        cmds@.len() == 0 <==> r is None,
        r matches Some(t) ==> (t matches Told::Frame(x) && x.frame.to() == old(shards).frames@[to as int
            % old(shards).frames@.len() as int] && x.frame.what() == (ShardMsg::Send {
            conn: to,
            msg,
            tag,
        })),
{
}

/// What a shard is told of a connection is what the room knows: whether it has signed in, whether
/// it takes no text, and its slot.
pub proof fn a_shard_is_told_what_the_room_knows(
    shards: &mut Shards,
    conn: ConnId,
    known: (bool, bool, Option<SlotKey>),
    metrics: &mut Metrics,
    r: Told,
)
    requires
        old(shards).wf(),
        call_ensures(membership_changed, (shards, conn, known, metrics), r),
    ensures
        r matches Told::Control(p) && p.to() == old(shards).control@[conn as int % old(
            shards,
        ).frames@.len() as int] && (p.what() matches ShardMsg::Update { conn: c, auth, no_text, slot }
            && c == conn && auth == known.0 && no_text == known.1 && slot == known.2),
{
}

/// A save that was stored is noted with its time, its bytes and when it was; one that failed leaves
/// what was noted.
pub proof fn only_a_stored_save_is_noted(
    how: Saved,
    m: &mut Metrics,
    micros: u64,
    bytes: usize,
    now: u64,
)
    requires
        call_ensures(note_save, (how, m, micros, bytes, now), ()),
    ensures
        how == Saved::Stored ==> final(m).save_micros == micros && final(m).save_bytes == bytes
            && final(m).save_at == now,
        how == Saved::Failed ==> final(m).save_micros == old(m).save_micros && final(m).save_bytes
            == old(m).save_bytes && final(m).save_at == old(m).save_at,
        final(m).lagged == old(m).lagged && final(m).message_at == old(m).message_at,
{
    assert(final(m)@.save_micros == final(m).save_micros);
    assert(old(m)@.save_micros == old(m).save_micros);
}

/// The steps of a save that goes well come in one order: the bytes are written and on the disk
/// before the name is changed, and the name is on the disk before the save counts as made. A step
/// that fails is followed by nothing but cleaning up.
pub proof fn a_save_is_made_in_order(at: StoreStep, r: StoreNext, s: StoreNext)
    requires
        call_ensures(store_next, (at, true), r),
        call_ensures(store_next, (at, false), s),
    ensures
        s == StoreNext::CleanUp,
        at == StoreStep::CreateTemp ==> r == StoreNext::Do(StoreStep::Write),
        at == StoreStep::Write ==> r == StoreNext::Do(StoreStep::SyncTemp),
        at == StoreStep::SyncTemp ==> r == StoreNext::Do(StoreStep::Rename),
        at == StoreStep::Rename ==> r == StoreNext::Do(StoreStep::SyncDir),
        at == StoreStep::SyncDir ==> r == StoreNext::Done,
{
}

/// What waits for the room is noted as it is, and the most that ever waited never falls.
pub proof fn the_mailbox_is_noted(m: &mut Metrics, depth: usize)
    requires
        call_ensures(record_mailbox_depth, (m, depth), ()),
    ensures
        final(m).depth == depth,
        final(m).peak >= depth && final(m).peak >= old(m).peak,
        final(m).peak == depth || final(m).peak == old(m).peak,
{
    assert(final(m)@.depth == final(m).depth && final(m)@.peak == final(m).peak);
    assert(old(m)@.peak == old(m).peak);
}

/// A frame that was delivered adds one to the frames and its size to the bytes of its own slot.
pub proof fn deliveries_add_up(
    s: Seq<(Option<SlotKey>, Delivered)>,
    slot: Option<SlotKey>,
    bytes: u64,
    other: Option<SlotKey>,
    had: Delivered,
)
    requires
        ascending::<Option<SlotKey>, Delivered>(s),
        other != slot,
        entry::<Option<SlotKey>, Delivered>(s, slot) == Some(had),
        had.frames < u64::MAX,
        had.bytes + bytes <= u64::MAX,
    ensures
        entry::<Option<SlotKey>, Delivered>(delivered_more(s, slot, bytes), slot) matches Some(d)
            && d.frames == had.frames + 1 && d.bytes == had.bytes + bytes,
        entry::<Option<SlotKey>, Delivered>(delivered_more(s, slot, bytes), other) == entry::<
            Option<SlotKey>,
            Delivered,
        >(s, other),
{
    setting_is_separate::<Option<SlotKey>, Delivered>(
        s,
        slot,
        Delivered { frames: wrapped(had.frames, 1), bytes: wrapped(had.bytes, bytes) },
        other,
    );
}

/// A request adds one to the requests of its own route, method and status, its bytes to the bytes
/// of requests and those of its answer to the bytes of answers.
pub proof fn requests_add_up(
    s: Seq<(((Seq<char>, Seq<char>), u16), Exchange)>,
    key: ((Seq<char>, Seq<char>), u16),
    request: u64,
    response: u64,
    other: ((Seq<char>, Seq<char>), u16),
    had: Exchange,
)
    requires
        ascending::<((&'static str, &'static str), u16), Exchange>(s),
        other != key,
        entry::<((&'static str, &'static str), u16), Exchange>(s, key) == Some(had),
        had.count < u64::MAX,
        had.request_bytes + request <= u64::MAX,
        had.response_bytes + response <= u64::MAX,
    ensures
        entry::<((&'static str, &'static str), u16), Exchange>(
            requests_more(s, key, request, response),
            key,
        ) matches Some(e) && e.count == had.count + 1 && e.request_bytes == had.request_bytes
            + request && e.response_bytes == had.response_bytes + response,
        entry::<((&'static str, &'static str), u16), Exchange>(
            requests_more(s, key, request, response),
            other,
        ) == entry::<((&'static str, &'static str), u16), Exchange>(s, other),
{
    setting_is_separate::<((&'static str, &'static str), u16), Exchange>(
        s,
        key,
        Exchange {
            count: wrapped(had.count, 1),
            request_bytes: wrapped(had.request_bytes, request),
            response_bytes: wrapped(had.response_bytes, response),
        },
        other,
    );
}

/// A packet is counted under the slot that sent it and its command, its bytes under the slot, and
/// neither counts for the other.
pub proof fn what_comes_in_is_counted_by_slot(
    m: &mut Metrics,
    n: &mut Metrics,
    slot: Option<SlotKey>,
    cmd: &'static str,
    bytes: usize,
    p: (Option<SlotKey>, Seq<char>),
    other: Option<SlotKey>,
)
    requires
        call_ensures(record_packet, (m, slot, cmd), ()),
        call_ensures(record_bytes_in, (n, slot, bytes), ()),
        ascending::<(Option<SlotKey>, &'static str), u64>(old(m)@.received),
        ascending::<Option<SlotKey>, u64>(old(n)@.read),
        count_of::<(Option<SlotKey>, &'static str)>(old(m)@.received, (slot, cmd@)) < u64::MAX,
        count_of::<Option<SlotKey>>(old(n)@.read, slot) + bytes <= u64::MAX,
        p != (slot, cmd@),
        other != slot,
    ensures
        count_of::<(Option<SlotKey>, &'static str)>(final(m)@.received, (slot, cmd@)) == count_of::<
            (Option<SlotKey>, &'static str),
        >(old(m)@.received, (slot, cmd@)) + 1,
        count_of::<(Option<SlotKey>, &'static str)>(final(m)@.received, p) == count_of::<
            (Option<SlotKey>, &'static str),
        >(old(m)@.received, p),
        count_of::<Option<SlotKey>>(final(n)@.read, slot) == count_of::<Option<SlotKey>>(
            old(n)@.read,
            slot,
        ) + bytes,
        count_of::<Option<SlotKey>>(final(n)@.read, other) == count_of::<Option<SlotKey>>(
            old(n)@.read,
            other,
        ),
{
    counting_is_separate::<(Option<SlotKey>, &'static str)>(old(m)@.received, (slot, cmd@), 1, p);
    counting_is_separate::<Option<SlotKey>>(old(n)@.read, slot, bytes as u64, other);
}

/// Each thing that is turned away or lost is counted by its own counter.
pub proof fn each_counter_counts_its_own(
    a: &mut Metrics,
    b: &mut Metrics,
    c: &mut Metrics,
    d: &mut Metrics,
    e: &mut Metrics,
    f: &mut Metrics,
)
    requires
        call_ensures(record_auth_failure, (a,), ()),
        call_ensures(record_auth_rate_limited, (b,), ()),
        call_ensures(record_http_malformed, (c,), ()),
        call_ensures(record_lag_disconnect, (d,), ()),
        call_ensures(record_shard_overflow, (e,), ()),
        call_ensures(record_shard_sweep, (f,), ()),
        old(a)@.unauthorized < u64::MAX,
        old(b)@.limited < u64::MAX,
        old(c)@.malformed < u64::MAX,
        old(d)@.lagged < u64::MAX,
        old(e)@.overflowed < u64::MAX,
        old(f)@.swept < u64::MAX,
    ensures
        final(a)@.unauthorized == old(a)@.unauthorized + 1 && final(a)@.limited == old(a)@.limited,
        final(b)@.limited == old(b)@.limited + 1 && final(b)@.unauthorized == old(
            b,
        )@.unauthorized,
        final(c)@.malformed == old(c)@.malformed + 1,
        final(d)@.lagged == old(d)@.lagged + 1,
        final(e)@.overflowed == old(e)@.overflowed + 1 && final(e)@.swept == old(e)@.swept,
        final(f)@.swept == old(f)@.swept + 1 && final(f)@.overflowed == old(f)@.overflowed,
{
}

/// Editing a filter: reading changes nothing, replacing leaves the new rules alone, clearing leaves
/// none at all. After a merge a rule that was merged has the share it was merged with and any other
/// the share that it had; after a removal no rule that was named is there, and every other is, with
/// the share that it had.
pub proof fn a_filter_is_edited_rule_by_rule(
    existing: Option<RulesModel>,
    r: RulesModel,
    k: ((Seq<char>, Seq<char>), Option<Seq<char>>),
)
    requires
        ascending::<Matcher, u64>(rules_or_none(existing)),
        ascending::<Matcher, u64>(r),
    ensures
        edited(existing, EditModel::Read) == existing,
        edited(existing, EditModel::Replace(r)) == Some(r),
        edited(existing, EditModel::Clear) is None,
        edited(existing, EditModel::Merge(r)) matches Some(s) && entry::<Matcher, u64>(s, k)
            == match entry::<Matcher, u64>(r, k) {
            Some(share) => Some(share),
            None => entry::<Matcher, u64>(rules_or_none(existing), k),
        },
        edited(existing, EditModel::Remove(r)) matches Some(s) && entry::<Matcher, u64>(s, k)
            == match entry::<Matcher, u64>(r, k) {
            Some(_) => None,
            None => entry::<Matcher, u64>(rules_or_none(existing), k),
        },
{
    setting_all::<Matcher, u64>(rules_or_none(existing), r, k);
    rules_go(rules_or_none(existing), r, k);
    lookup_is_complete::<Matcher, u64>(r, k);
    if exists|i: int| 0 <= i < r.len() && (#[trigger] r[i]).0 == k {
        let i = choose|i: int| 0 <= i < r.len() && (#[trigger] r[i]).0 == k;
        assert(entry::<Matcher, u64>(r, k) == Some(r[i].1));
    }
}

proof fn rules_go(
    rules: RulesModel,
    gone: RulesModel,
    k: ((Seq<char>, Seq<char>), Option<Seq<char>>),
)
    requires
        ascending::<Matcher, u64>(rules),
    ensures
        ascending::<Matcher, u64>(rules_without(rules, gone).0),
        (exists|i: int| 0 <= i < gone.len() && (#[trigger] gone[i]).0 == k) ==> entry::<Matcher, u64>(
            rules_without(rules, gone).0,
            k,
        ) is None,
        !(exists|i: int| 0 <= i < gone.len() && (#[trigger] gone[i]).0 == k) ==> entry::<
            Matcher,
            u64,
        >(rules_without(rules, gone).0, k) == entry::<Matcher, u64>(rules, k),
    decreases gone.len(),
{
    if gone.len() > 0 {
        let init = gone.drop_last();
        let last = gone.last().0;
        rules_go(rules, init, k);
        let rest = rules_without(rules, init).0;
        removing_is_separate::<Matcher, u64>(rest, last, k);
        assert(gone[gone.len() - 1].0 == last);
        if exists|i: int| 0 <= i < init.len() && (#[trigger] init[i]).0 == k {
            let i = choose|i: int| 0 <= i < init.len() && (#[trigger] init[i]).0 == k;
            assert(gone[i].0 == k);
        }
        if k != last && exists|i: int| 0 <= i < gone.len() && (#[trigger] gone[i]).0 == k {
            let i = choose|i: int| 0 <= i < gone.len() && (#[trigger] gone[i]).0 == k;
            assert(init[i].0 == k);
        }
    }
}

/// As many rules are said to have been removed as there are fewer afterwards.
pub proof fn removed_rules_are_counted(rules: RulesModel, gone: RulesModel)
    requires
        ascending::<Matcher, u64>(rules),
    ensures
        rules_without(rules, gone).0.len() + rules_without(rules, gone).1 == rules.len(),
    decreases gone.len(),
{
    if gone.len() > 0 {
        removed_rules_are_counted(rules, gone.drop_last());
        place_parts::<Matcher, u64>(rules_without(rules, gone.drop_last()).0, gone.last().0, 0);
    }
}

/// The rules of its own apply to a slot that has some, even none; the room's apply to a slot that
/// has none of its own at all, and never to the room in their stead.
pub proof fn a_slots_own_rules_come_first(
    own: RulesModel,
    room: RulesModel,
)
    ensures
        applying(Some(own), Some(room), true) == own,
        applying(None, Some(room), true) == room,
        applying(Some(own), Some(room), false) == own,
        applying(None, None, true).len() == 0,
        applying(None, Some(room), false).len() == 0,
{
}

/// Rotating a password sets that of its slot, or takes it away, and leaves every other slot's as it
/// was; of a slot that is not in the seed, or where there are no passwords, nothing changes.
pub proof fn one_password_is_rotated(
    seed: &MultiData,
    passwords: &mut Option<Table<u32, String>>,
    slot: u32,
    password: Option<String>,
    r: Rotation,
    other: u32,
)
    requires
        call_ensures(rotate_password, (seed, passwords, slot, password), r),
        *old(passwords) matches Some(t) ==> ascending::<u32, Seq<char>>(t.deep_view()),
        other != slot,
    ensures
        r.known <==> *old(passwords) is Some && entry::<u32, SlotModel>(
            seed.slot_info.deep_view(),
            slot,
        ) is Some,
        r.known && password is Some ==> entry::<u32, Seq<char>>(
            final(passwords)->0.deep_view(),
            slot,
        ) == Some(password->0@) && r.set == Some(true),
        r.known && password is None ==> entry::<u32, Seq<char>>(
            final(passwords)->0.deep_view(),
            slot,
        ) is None && r.set == Some(false),
        r.known ==> entry::<u32, Seq<char>>(final(passwords)->0.deep_view(), other) == entry::<
            u32,
            Seq<char>,
        >(old(passwords)->0.deep_view(), other),
        !r.known ==> final(passwords).deep_view() == old(passwords).deep_view() && r.set is None,
{
    if *old(passwords) is Some {
        let t = old(passwords)->0.deep_view();
        removing_is_separate::<u32, Seq<char>>(t, slot, other);
        if password is Some {
            setting_is_separate::<u32, Seq<char>>(t, slot, password->0@, other);
        }
    }
}

/// What a connection sends is charged to the slot that it holds, and to nobody before it has signed
/// in; a shard is told whether it has, whether it takes no text, and that slot.
pub proof fn a_connection_is_charged_to_its_slot(
    c: Client,
    charged: Option<SlotKey>,
    known: Option<(bool, bool, Option<SlotKey>)>,
    stranger: Option<SlotKey>,
    unknown: Option<(bool, bool, Option<SlotKey>)>,
)
    requires
        call_ensures(attributed, (Some(c),), charged),
        call_ensures(push_membership, (Some(c),), known),
        call_ensures(attributed, (None,), stranger),
        call_ensures(push_membership, (None,), unknown),
    ensures
        c.auth ==> charged == Some((c.team, c.slot)),
        !c.auth ==> charged is None,
        known matches Some(k) && k.0 == c.auth && k.1 == c.no_text && k.2 == charged,
        stranger is None && unknown is None,
{
}

/// A row of the roster is that of its slot: its number, its name and its game as the seed gives
/// them, how many locations it has, and what the room knows of it.
pub proof fn a_row_is_that_of_its_slot(
    seed: &MultiData,
    facts: &Vec<SlotFacts>,
    rows: Vec<SlotStatus>,
    i: int,
    s: SlotModel,
)
    requires
        call_ensures(roster, (seed, facts), rows),
        facts@.len() == roster_keys(*seed).len(),
        0 <= i < rows@.len(),
        entry::<u32, SlotModel>(seed.slot_info.deep_view(), rows@[i].slot) == Some(s),
    ensures
        rows@.len() == slots_of_type(seed.model().slot_info, SlotType::Group, false).len(),
        rows@[i].slot == slots_of_type(seed.model().slot_info, SlotType::Group, false)[i].0,
        rows@[i].team == 0,
        rows@[i].name@ == s.name,
        rows@[i].game@ == s.game,
        rows@[i].total_checks == slot_entries(seed.locations@, rows@[i].slot).len(),
        rows@[i].connections == facts@[i].connections,
        rows@[i].checks == facts@[i].checks,
        rows@[i].status == facts@[i].status,
        rows@[i].locked == facts@[i].locked,
        rows@[i].filtered == facts@[i].filtered,
{
    assert(row_fits(rows@[i], *seed, roster_keys(*seed)[i], facts@[i]));
}

/// The last save begins at once where none is running, waits for one that is, and is left out where
/// there is nowhere to save to.
pub proof fn the_last_save_waits_for_the_one_before(s: Saver, r: LastSave)
    requires
        call_ensures(Saver::flush, (&s,), r),
    ensures
        r == LastSave::Skip <==> !s.saving,
        r == LastSave::WaitFirst <==> s.saving && s.in_flight,
        r == LastSave::Now <==> s.saving && !s.in_flight,
{
}

/// What a client is told when its connection is closed is the reason for it.
pub proof fn a_client_is_told_why(detail: String)
    ensures
        close_words(CloseReason::ProtocolError(detail))@ == "protocol error"@,
        close_words(CloseReason::TooSlow)@ == "client too slow"@,
        close_words(CloseReason::ServerShutdown)@ == "server shutting down"@,
        close_words(CloseReason::Kicked)@ == "disconnected by an administrator"@,
{
}

/// A shard does what it is told: a message to a connection goes to that one with its tag, a
/// broadcast to those that it is for with its tag, and a close closes the one that is named, each
/// with what the message carries.
pub proof fn a_shard_does_what_it_is_told<
    C: Fn(&bytes::Bytes, u8) -> bytes::Bytes,
    D: Fn(u64, u64, SlotKey) -> bool,
>(
    s: &mut Shard,
    told: ShardMsg,
    compress: &C,
    drops: &D,
    budget: &Budget,
    ledger: &mut Ledger,
    metrics: &mut Metrics,
    now: u64,
    r: Handled,
)
    requires
        call_ensures(
            Shard::handle::<C, D>,
            (s, told, compress, drops, budget, ledger, metrics, now),
            r,
        ),
        old(s).wf(),
        held_by(old(s).members@) <= old(ledger).queued,
    ensures
        ({
            let books = Books {
                members: old(s).members@,
                ledger: *old(ledger),
                counters: old(metrics)@,
            };
            &&& told matches ShardMsg::Send { conn, msg, tag } ==> (seat(
                old(s).members@,
                conn,
            ) matches Some(i) ==> r is Sent && r->Sent_0.log@.len() == 1 && r->Sent_0.log@[0].at == i
                && rightly_sent(*budget, books, r->Sent_0, msg, tag, *compress, *drops, now)) && (seat(
                old(s).members@,
                conn,
            ) is None ==> r is Noted && final(s).members@ == old(s).members@)
            &&& told matches ShardMsg::Broadcast { to, msg, tag } ==> r is Sent && in_audience(
                old(s).members@,
                old(s).index(),
                r->Sent_0.log@.map_values(|e: Entry| e.at),
                to,
            ) && rightly_sent(*budget, books, r->Sent_0, msg, tag, *compress, *drops, now)
            &&& told matches ShardMsg::Close { conn, reason } ==> final(s).members@ == old(s).members@
                && (seat(old(s).members@, conn) matches Some(i) ==> r is Closed && closed_for(
                r->Closed_0,
                old(s).members@[i],
                reason,
            ))
            &&& told is Sweep ==> r is Swept && r->Swept_0@.len() == old(s).members@.len()
                && final(s).members@ == old(s).members@
        }),
{
}

/// What changes who is there changes one connection: one that is added comes with what it was added
/// with, one that is removed goes, and of the others a filter is set or what is known is noted.
pub proof fn a_shard_keeps_its_members<
    C: Fn(&bytes::Bytes, u8) -> bytes::Bytes,
    D: Fn(u64, u64, SlotKey) -> bool,
>(
    s: &mut Shard,
    told: ShardMsg,
    compress: &C,
    drops: &D,
    budget: &Budget,
    ledger: &mut Ledger,
    metrics: &mut Metrics,
    now: u64,
    r: Handled,
    k: int,
)
    requires
        call_ensures(
            Shard::handle::<C, D>,
            (s, told, compress, drops, budget, ledger, metrics, now),
            r,
        ),
        old(s).wf(),
        held_by(old(s).members@) <= old(ledger).queued,
        0 <= k < old(s).members@.len(),
    ensures
        ({
            let m = old(s).members@[k];
            let t = final(s).members@;
            &&& told matches ShardMsg::Update { conn, auth, no_text, slot } ==> t.len() == old(
                s,
            ).members@.len() && t[k] == if m.conn == conn {
                Member { auth, no_text, slot, ..m }
            } else {
                m
            }
            &&& told matches ShardMsg::SetFilter { conn, filter } ==> t.len() == old(
                s,
            ).members@.len() && t[k] == if m.conn == conn {
                Member { filter, ..m }
            } else {
                m
            }
            &&& told matches ShardMsg::Remove { conn } ==> (m.conn == conn ==> t == old(
                s,
            ).members@.take(k) + old(s).members@.skip(k + 1)) && final(ledger).queued == old(
                ledger,
            ).queued - held_in(account_in(old(s).members@, conn))
            &&& told matches ShardMsg::Add { conn, tx, close, deflate, scoped } ==> (m.conn == conn
                ==> t[k].conn == conn && t[k].tx == tx && t[k].close == close && t[k].deflate == deflate
                && t[k].scoped == scoped && !t[k].auth && t[k].slot is None) && (m.conn != conn
                ==> t[k] == m)
        }),
{
    let members = old(s).members@;
    let conn = match told {
        ShardMsg::Update { conn, .. } => conn,
        ShardMsg::SetFilter { conn, .. } => conn,
        ShardMsg::Remove { conn } => conn,
        ShardMsg::Add { conn, .. } => conn,
        _ => 0,
    };
    member_seat(members, conn, k);
    letting_go_takes_one_connection(members, conn, k);
}

/// An edit of a filter is answered with the rules that stand there after it, and with those in
/// effect: its own, or the room's for a slot that has none of its own at all. Of a slot that is not
/// in the seed nothing is said but that.
pub proof fn an_edit_is_answered_with_what_stands(
    seed: &MultiData,
    slot: Option<u32>,
    existing: Option<&Rules>,
    room: Option<&Rules>,
    edit: FilterEdit,
    r: FilterReply,
)
    requires
        call_ensures(filter, (seed, slot, existing, room, edit, None), r),
    ensures
        slot matches Some(n) ==> (r is UnknownSlot <==> entry::<u32, SlotModel>(
            seed.slot_info.deep_view(),
            n,
        ) is None),
        slot is None ==> r is Done,
        r matches FilterReply::Done(f) ==> {
            &&& f.rules.deep_view() == edited(existing.deep_view(), edit@)
            &&& f.inherited <==> slot is Some && f.rules is None
            &&& !f.inherited ==> f.effective.deep_view() == rules_or_none(f.rules.deep_view())
            &&& f.inherited ==> f.effective.deep_view() == rules_or_none(room.deep_view())
            &&& f.changed <==> !(edit is Read)
            &&& !(edit is Remove) ==> f.removed == 0
        },
{
}

/// What a client says is noted with its time; what goes out is counted under its command, what
/// reaches a connection under its slot, and whether a connection compresses under its slot too.
pub proof fn traffic_is_counted_where_it_belongs(
    a: &mut Metrics,
    b: &mut Metrics,
    c: &mut Metrics,
    d: &mut Metrics,
    now: u64,
    cmd: &str,
    slot: SlotKey,
    bytes: usize,
    deflate: bool,
)
    requires
        call_ensures(record_client_message, (a, now), ()),
        call_ensures(record_packet_out, (b, cmd), ()),
        call_ensures(record_delivery, (c, Some(slot), bytes), ()),
        call_ensures(record_client_deflate, (d, slot, deflate), ()),
        ascending::<String, u64>(old(b)@.produced),
        count_of::<String>(old(b)@.produced, cmd@) < u64::MAX,
        ascending::<(SlotKey, bool), u64>(old(d)@.deflating),
        count_of::<(SlotKey, bool)>(old(d)@.deflating, (slot, deflate)) < u64::MAX,
    ensures
        final(a)@ == (Counters { message_at: now, ..old(a)@ }),
        count_of::<String>(final(b)@.produced, cmd@) == count_of::<String>(old(b)@.produced, cmd@)
            + 1,
        final(c)@.delivered == delivered_more(old(c)@.delivered, Some(slot), bytes as u64),
        count_of::<(SlotKey, bool)>(final(d)@.deflating, (slot, deflate)) == count_of::<
            (SlotKey, bool),
        >(old(d)@.deflating, (slot, deflate)) + 1,
        count_of::<(SlotKey, bool)>(final(d)@.deflating, (slot, !deflate)) == count_of::<
            (SlotKey, bool),
        >(old(d)@.deflating, (slot, !deflate)),
{
    counting_is_separate::<String>(old(b)@.produced, cmd@, 1, cmd@);
    counting_is_separate::<(SlotKey, bool)>(
        old(d)@.deflating,
        (slot, deflate),
        1,
        (slot, !deflate),
    );
}

/// A request is counted under its route, its method and its status; a method that is not one of the
/// seven known ones is counted with all others of its kind.
pub proof fn a_request_is_counted_under_its_method(
    m: &mut Metrics,
    path: &'static str,
    method: &str,
    status: u16,
    request: usize,
    response: usize,
)
    requires
        call_ensures(record_http, (m, path, method, status, request, response), ()),
    ensures
        method@ == "GET"@ || method@ == "POST"@ || method@ == "PUT"@ || method@ == "PATCH"@
            || method@ == "DELETE"@ || method@ == "HEAD"@ || method@ == "OPTIONS"@
            ==> final(m)@.requests == requests_more(
            old(m)@.requests,
            ((path@, method@), status),
            request as u64,
            response as u64,
        ),
        !(method@ == "GET"@ || method@ == "POST"@ || method@ == "PUT"@ || method@ == "PATCH"@
            || method@ == "DELETE"@ || method@ == "HEAD"@ || method@ == "OPTIONS"@)
            ==> final(m)@.requests == requests_more(
            old(m)@.requests,
            ((path@, "other"@), status),
            request as u64,
            response as u64,
        ),
{
}

/// A message is charged to the slot that its connection holds when it comes, with its bytes and its
/// time, and so is each of its packets.
pub proof fn a_message_is_charged_to_its_slot(
    m: &mut Metrics,
    n: &mut Metrics,
    c: Client,
    bytes: usize,
    now: u64,
    cmd: &'static str,
)
    requires
        call_ensures(count_message, (m, Some(c), bytes, now), ()),
        call_ensures(count_packet, (n, Some(c), cmd), ()),
        c.auth,
    ensures
        final(m)@.message_at == now,
        final(m)@.read == bumped::<Option<SlotKey>>(
            old(m)@.read,
            Some((c.team, c.slot)),
            bytes as u64,
        ),
        final(n)@.received == bumped::<(Option<SlotKey>, &'static str)>(
            old(n)@.received,
            (Some((c.team, c.slot)), cmd@),
            1,
        ),
{
}

/// A broadcast is handed to every shard with its audience, its bytes and its tag, and a shard that
/// loses it has its connections closed, once, for the reason that the server fell behind.
pub proof fn a_broadcast_reaches_every_shard(
    shards: &mut Shards,
    to: &Recipients,
    cmds: &Vec<&str>,
    msg: &Outgoing,
    tag: Option<u64>,
    metrics: &mut Metrics,
    r: Option<Vec<Relayed>>,
    k: int,
)
    requires
        old(shards).wf(),
        call_ensures(broadcast, (shards, to, cmds, msg, tag, metrics), r),
        0 <= k < old(shards).frames@.len(),
    ensures
        cmds@.len() == 0 <==> r is None,
        r matches Some(v) ==> {
            &&& v@.len() == old(shards).frames@.len()
            &&& v@[k].frame.to() == old(shards).frames@[k]
            &&& v@[k].frame.what() matches ShardMsg::Broadcast { to: t, msg: m, tag: g }
                && same_recipients(t, *to) && frame_bytes(m.payload) == frame_bytes(msg.payload)
                && frame_bytes(m.plain) == frame_bytes(msg.plain) && g == tag
            &&& v@[k].remedy is Some <==> v@[k].frame.answer() == Offer::Full && !old(
                shards,
            ).swept@[k]
            &&& v@[k].remedy matches Some(p) ==> p.to() == old(shards).control@[k] && (
            p.what() matches ShardMsg::Sweep { reason } && reason@ == "the server fell behind"@)
        },
{
    if let Some(v) = r {
        let x = v@[k];
    }
}

/// A change of the filter, and a close, go to the shard of their connection with what they carry: the
/// number of the filter, and the words for why.
pub proof fn changes_of_a_connection_go_to_its_shard(
    shards: &mut Shards,
    others: &mut Shards,
    conn: ConnId,
    number: Option<u64>,
    why: &CloseReason,
    metrics: &mut Metrics,
    more: &mut Metrics,
    r: Told,
    s: Told,
)
    requires
        old(shards).wf(),
        old(others).wf(),
        call_ensures(filter_changed, (shards, conn, number, metrics), r),
        call_ensures(close, (others, conn, why, more), s),
    ensures
        r matches Told::Control(p) && p.to() == old(shards).control@[conn as int % old(
            shards,
        ).frames@.len() as int] && (p.what() matches ShardMsg::SetFilter { conn: c, filter } && c
            == conn && filter == number),
        s matches Told::Control(p) && p.to() == old(others).control@[conn as int % old(
            others,
        ).frames@.len() as int] && (p.what() matches ShardMsg::Close { conn: c, reason } && c == conn
            && (*why is Kicked ==> reason@ == "disconnected by an administrator"@) && (
        *why is TooSlow ==> reason@ == "client too slow"@) && (*why is ServerShutdown ==> reason@
            == "server shutting down"@) && (*why is ProtocolError ==> reason@ == "protocol error"@)),
{
}

/// The last save is made whether or not anything has changed, unless there is nowhere to save to or
/// one is still running; then what has changed stays to be saved.
pub proof fn the_last_save_is_made_regardless(s: &mut Saver, r: bool)
    requires
        call_ensures(Saver::start_last, (s,), r),
    ensures
        r <==> old(s).saving && !old(s).in_flight,
        r ==> final(s).in_flight && !final(s).dirty,
        !r ==> final(s).dirty && final(s).in_flight == old(s).in_flight,
{
}

} // verus!
