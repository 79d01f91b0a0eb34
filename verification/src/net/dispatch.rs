//! From what a room wants done to the shards.
//!
//! What the room emits is counted by its packets and handed on framed; what the shards need to know
//! of a connection is told them at once, so that what follows finds it known.

use crate::net::actor::{close_text, close_words, CloseReason, Membership};
use crate::net::fanout::{after_offers, after_told, answers, Relayed, Shards, Told};
use crate::net::metrics::{record_packet_out, Counters, Metrics};
use crate::net::shard::{ConnId, Outgoing, Recipients, ShardMsg};
use crate::table::bumped;
use vstd::prelude::*;

verus! {

/// The counters once the first `n` packets were counted.
pub open spec fn emitted(c: Counters, cmds: Seq<&str>, n: nat) -> Counters
    decreases n,
{
    if n == 0 {
        c
    } else {
        let before = emitted(c, cmds, (n - 1) as nat);
        Counters { produced: bumped::<String>(before.produced, cmds[n - 1]@, 1), ..before }
    }
}

fn count_emitted(m: &mut Metrics, cmds: &Vec<&str>)
    ensures
        final(m)@ == emitted(old(m)@, cmds@, cmds@.len()),
{
    let ghost c = m@;
    for i in 0..cmds.len()
        invariant
            m@ == emitted(c, cmds@, i as nat),
    {
        record_packet_out(m, cmds[i]);
    }
}

/// Sends packets to a connection, given their commands and the frame that spells them. Of no packets
/// nothing is sent.
pub fn send(
    shards: &mut Shards,
    to: ConnId,
    cmds: &Vec<&str>,
    msg: Outgoing,
    tag: Option<u64>,
    metrics: &mut Metrics,
) -> (r: Option<Told>)
    requires
        old(shards).wf(),
    ensures
        final(shards).wf(),
        final(shards).frames == old(shards).frames,
        final(shards).control == old(shards).control,
        final(shards).swept@ == old(shards).swept@,
        match r {
            Some(t) => {
                &&& cmds@.len() > 0
                &&& old(shards).was_told(to, ShardMsg::Send { conn: to, msg, tag }, t)
                &&& final(metrics)@ == after_told(emitted(old(metrics)@, cmds@, cmds@.len()), t)
            },
            None => cmds@.len() == 0 && final(metrics)@ == old(metrics)@,
        },
{
    if cmds.len() == 0 {
        return None;
    }
    count_emitted(metrics, cmds);
    Some(shards.tell(to, ShardMsg::Send { conn: to, msg, tag }, metrics))
}

/// Sends packets to everyone who is to hear them, given their commands and the message that spells
/// them. They are counted once, however many hear them; of no packets nothing is sent.
pub fn broadcast(
    shards: &mut Shards,
    to: &Recipients,
    cmds: &Vec<&str>,
    msg: &Outgoing,
    tag: Option<u64>,
    metrics: &mut Metrics,
) -> (r: Option<Vec<Relayed>>)
    requires
        old(shards).wf(),
    ensures
        final(shards).wf(),
        final(shards).frames == old(shards).frames,
        final(shards).control == old(shards).control,
        match r {
            Some(v) => {
                &&& cmds@.len() > 0
                &&& old(shards).was_broadcast(*to, *msg, tag, v@)
                &&& (final(metrics)@, final(shards).swept@) == after_offers(
                    emitted(old(metrics)@, cmds@, cmds@.len()),
                    old(shards).swept@,
                    answers(v@),
                    v@.len(),
                )
            },
            None => cmds@.len() == 0 && final(metrics)@ == old(metrics)@ && final(shards).swept@
                == old(shards).swept@,
        },
{
    if cmds.len() == 0 {
        return None;
    }
    count_emitted(metrics, cmds);
    Some(shards.broadcast(to, msg, tag, metrics))
}

/// Tells the shard of a connection what it may hear.
pub fn membership_changed(
    shards: &mut Shards,
    conn: ConnId,
    membership: Membership,
    metrics: &mut Metrics,
) -> (r: Told)
    requires
        old(shards).wf(),
    ensures
        final(shards).wf(),
        final(shards).frames == old(shards).frames,
        final(shards).control == old(shards).control,
        final(shards).swept@ == old(shards).swept@,
        old(shards).was_told(
            conn,
            ShardMsg::Update {
                conn,
                auth: membership.0,
                no_text: membership.1,
                slot: membership.2,
            },
            r,
        ),
        final(metrics)@ == old(metrics)@,
{
    shards.tell(
        conn,
        ShardMsg::Update { conn, auth: membership.0, no_text: membership.1, slot: membership.2 },
        metrics,
    )
}

/// Tells the shard of a connection which filter stands on it.
pub fn filter_changed(
    shards: &mut Shards,
    conn: ConnId,
    filter: Option<u64>,
    metrics: &mut Metrics,
) -> (r: Told)
    requires
        old(shards).wf(),
    ensures
        final(shards).wf(),
        final(shards).frames == old(shards).frames,
        final(shards).control == old(shards).control,
        final(shards).swept@ == old(shards).swept@,
        old(shards).was_told(conn, ShardMsg::SetFilter { conn, filter }, r),
        final(metrics)@ == old(metrics)@,
{
    shards.tell(conn, ShardMsg::SetFilter { conn, filter }, metrics)
}

/// Has a connection closed.
pub fn close(
    shards: &mut Shards,
    conn: ConnId,
    why: &CloseReason,
    metrics: &mut Metrics,
) -> (r: Told)
    requires
        old(shards).wf(),
    ensures
        final(shards).wf(),
        final(shards).frames == old(shards).frames,
        final(shards).control == old(shards).control,
        final(shards).swept@ == old(shards).swept@,
        old(shards).was_told(conn, ShardMsg::Close { conn, reason: close_words(*why) }, r),
        final(metrics)@ == old(metrics)@,
{
    shards.tell(conn, ShardMsg::Close { conn, reason: close_text(why) }, metrics)
}

} // verus!
