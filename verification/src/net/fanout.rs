//! Handing messages to the shards.
//!
//! Frames go through a bounded queue, and what changes who is there through an unbounded one that
//! loses nothing. A frame that a shard has no room for is lost, and whoever it was for is closed: one
//! connection for a message to it alone, and every connection of the shard for a broadcast, whose
//! audience only the shard knows. That happens once for those that are there, and again only once
//! somebody new has come.

use crate::net::channel::{offer, post, Handed, Offer, Posted};
use crate::net::metrics::{record_shard_overflow, record_shard_sweep, Counters, Metrics};
use crate::net::shard::{
    same_message, same_recipients, ConnId, Outgoing, Recipients, ShardMsg,
};
use crate::table::wrapped;
use tokio::sync::mpsc;
use vstd::prelude::*;

verus! {

/// What a connection is told that is closed because a frame for it was lost.
pub const LOST: &'static str = "the server fell behind";

/// The way to the shards.
#[derive(Debug)]
pub struct Shards {
    pub frames: Vec<mpsc::Sender<ShardMsg>>,
    pub control: Vec<mpsc::UnboundedSender<ShardMsg>>,
    /// Whether the connections of a shard were closed and nobody has come since.
    pub swept: Vec<bool>,
}

/// Whether a message is a frame for one connection.
pub open spec fn is_frame(msg: ShardMsg) -> bool {
    msg is Send || msg is Broadcast
}

/// The shard among so many that owns a connection: the remainder of its number.
pub fn owner(conn: ConnId, shards: usize) -> (r: usize)
    requires
        shards > 0,
    ensures
        r == conn as int % shards as int,
        r < shards,
{
    (conn % (shards as u64)) as usize
}

/// A frame that was handed to a shard, and what was done where it was lost.
pub struct Relayed {
    pub frame: Handed<ShardMsg>,
    pub remedy: Option<Posted<ShardMsg>>,
}

/// How a shard was told something.
pub enum Told {
    Frame(Relayed),
    Control(Posted<ShardMsg>),
}

/// The counters once a shard was told something.
pub open spec fn after_told(c: Counters, r: Told) -> Counters {
    if r matches Told::Frame(x) && x.frame.answer() == Offer::Full {
        Counters { overflowed: wrapped(c.overflowed, 1), ..c }
    } else {
        c
    }
}

/// What the queues said to frames.
pub open spec fn answers(r: Seq<Relayed>) -> Seq<Offer> {
    r.map_values(|x: Relayed| x.frame.answer())
}

/// Whether a broadcast was handed to a queue.
pub open spec fn is_broadcast(
    h: Handed<ShardMsg>,
    queue: mpsc::Sender<ShardMsg>,
    to: Recipients,
    msg: Outgoing,
    tag: Option<u64>,
) -> bool {
    &&& h.to() == queue
    &&& h.what() matches ShardMsg::Broadcast { to: t, msg: m, tag: g } && same_recipients(t, to)
        && same_message(m, msg) && g == tag
}

/// Whether what was done about a broadcast is what had to be: a shard that lost it and was not
/// swept is swept, and no other.
pub open spec fn is_remedy(
    x: Relayed,
    control: mpsc::UnboundedSender<ShardMsg>,
    swept: bool,
) -> bool {
    &&& x.remedy is Some <==> x.frame.answer() == Offer::Full && !swept
    &&& x.remedy matches Some(p) ==> p.to() == control && p.what() == (ShardMsg::Sweep {
        reason: LOST,
    })
}

/// Counters and marks once a broadcast was offered to the first `n` shards.
pub open spec fn after_offers(c: Counters, swept: Seq<bool>, said: Seq<Offer>, n: nat) -> (
    Counters,
    Seq<bool>,
)
    decreases n,
{
    if n == 0 {
        (c, swept)
    } else {
        let (c, marks) = after_offers(c, swept, said, (n - 1) as nat);
        if said[n - 1] == Offer::Full {
            (
                Counters {
                    overflowed: wrapped(c.overflowed, 1),
                    swept: if marks[n - 1] {
                        c.swept
                    } else {
                        wrapped(c.swept, 1)
                    },
                    ..c
                },
                marks.update(n - 1, true),
            )
        } else {
            (c, marks)
        }
    }
}

proof fn offers_keep_shape(c: Counters, swept: Seq<bool>, said: Seq<Offer>, n: nat)
    requires
        n <= swept.len(),
    ensures
        after_offers(c, swept, said, n).1.len() == swept.len(),
        forall|i: int|
            n <= i < swept.len() ==> #[trigger] after_offers(c, swept, said, n).1[i] == swept[i],
    decreases n,
{
    if n > 0 {
        offers_keep_shape(c, swept, said, (n - 1) as nat);
    }
}

proof fn offers_agree(c: Counters, swept: Seq<bool>, a: Seq<Offer>, b: Seq<Offer>, n: nat)
    requires
        forall|i: int| 0 <= i < n ==> #[trigger] a[i] == b[i],
    ensures
        after_offers(c, swept, a, n) == after_offers(c, swept, b, n),
    decreases n,
{
    if n > 0 {
        offers_agree(c, swept, a, b, (n - 1) as nat);
        assert(a[n - 1] == b[n - 1]);
    }
}

impl Shards {
    /// There is a shard, and each has its two queues.
    pub open spec fn wf(&self) -> bool {
        &&& self.frames@.len() > 0
        &&& self.control@.len() == self.frames@.len()
        &&& self.swept@.len() == self.frames@.len()
    }

    /// The way to shards with these queues.
    pub fn new(
        frames: Vec<mpsc::Sender<ShardMsg>>,
        control: Vec<mpsc::UnboundedSender<ShardMsg>>,
    ) -> (r: Shards)
        requires
            frames@.len() > 0,
            control@.len() == frames@.len(),
        ensures
            r.wf(),
            r.frames == frames,
            r.control == control,
            forall|i: int| 0 <= i < r.swept@.len() ==> !#[trigger] r.swept@[i],
    {
        let mut swept: Vec<bool> = Vec::new();
        for i in 0..frames.len()
            invariant
                swept@.len() == i,
                forall|j: int| 0 <= j < i ==> !#[trigger] swept@[j],
        {
            swept.push(false);
        }
        Shards { frames, control, swept }
    }

    /// How many shards there are.
    pub fn len(&self) -> (r: usize)
        ensures
            r == self.frames@.len(),
    {
        self.frames.len()
    }

    pub fn is_empty(&self) -> (r: bool)
        ensures
            r == (self.frames@.len() == 0),
    {
        self.frames.len() == 0
    }

    /// The shard that owns a connection: the remainder of its number.
    pub fn shard_of(&self, conn: ConnId) -> (r: usize)
        requires
            self.wf(),
        ensures
            r == conn as int % self.frames@.len() as int,
            r < self.frames@.len(),
    {
        owner(conn, self.frames.len())
    }

    /// Whether the shard that owns a connection was told: a frame through the queue that may be
    /// full, with a close of the connection where it was, and everything else through the queue
    /// that never is.
    pub open spec fn was_told(&self, conn: ConnId, msg: ShardMsg, r: Told) -> bool {
        let k = conn as int % self.frames@.len() as int;
        match r {
            Told::Frame(x) => {
                &&& is_frame(msg)
                &&& x.frame.to() == self.frames@[k]
                &&& x.frame.what() == msg
                &&& x.remedy is Some <==> x.frame.answer() == Offer::Full
                &&& x.remedy matches Some(p) ==> p.to() == self.control@[k] && p.what() == (
                ShardMsg::Close { conn, reason: LOST })
            },
            Told::Control(p) => !is_frame(msg) && p.to() == self.control@[k] && p.what() == msg,
        }
    }

    /// Tells the shard that owns a connection.
    pub fn tell(&mut self, conn: ConnId, msg: ShardMsg, metrics: &mut Metrics) -> (r: Told)
        requires
            old(self).wf(),
        ensures
            final(self).wf(),
            final(self).frames == old(self).frames,
            final(self).control == old(self).control,
            old(self).was_told(conn, msg, r),
            final(self).swept@ == if msg is Add {
                old(self).swept@.update(conn as int % old(self).frames@.len() as int, false)
            } else {
                old(self).swept@
            },
            final(metrics)@ == after_told(old(metrics)@, r),
    {
        let k: usize = self.shard_of(conn);
        match msg {
            ShardMsg::Send { .. } => {
                Told::Frame(self.relay(k, conn, msg, metrics))
            },
            ShardMsg::Broadcast { .. } => {
                Told::Frame(self.relay(k, conn, msg, metrics))
            },
            ShardMsg::Add { .. } => {
                self.swept.set(k, false);
                Told::Control(post(&self.control[k], msg))
            },
            _ => Told::Control(post(&self.control[k], msg)),
        }
    }

    /// Hands a frame to a shard, and closes the connection that it was for where it is lost.
    fn relay(&self, k: usize, conn: ConnId, msg: ShardMsg, metrics: &mut Metrics) -> (r: Relayed)
        requires
            self.wf(),
            k < self.frames@.len(),
        ensures
            r.frame.to() == self.frames@[k as int],
            r.frame.what() == msg,
            r.remedy is Some <==> r.frame.answer() == Offer::Full,
            r.remedy matches Some(p) ==> p.to() == self.control@[k as int] && p.what() == (
            ShardMsg::Close { conn, reason: LOST }),
            final(metrics)@ == if r.frame.answer() == Offer::Full {
                Counters { overflowed: wrapped(old(metrics)@.overflowed, 1), ..old(metrics)@ }
            } else {
                old(metrics)@
            },
    {
        let frame = offer(&self.frames[k], msg);
        let remedy = if frame.said() == Offer::Full {
            record_shard_overflow(metrics);
            Some(post(&self.control[k], ShardMsg::Close { conn, reason: LOST }))
        } else {
            None
        };
        Relayed { frame, remedy }
    }

    /// Whether a broadcast was handed to every shard, and what was done where it was lost is what had
    /// to be.
    pub open spec fn was_broadcast(
        &self,
        to: Recipients,
        msg: Outgoing,
        tag: Option<u64>,
        r: Seq<Relayed>,
    ) -> bool {
        &&& r.len() == self.frames@.len()
        &&& forall|k: int|
            0 <= k < r.len() ==> is_broadcast(
                (#[trigger] r[k]).frame,
                self.frames@[k],
                to,
                msg,
                tag,
            )
        &&& forall|k: int|
            0 <= k < r.len() ==> is_remedy(#[trigger] r[k], self.control@[k], self.swept@[k])
    }

    /// Hands a broadcast to every shard.
    pub fn broadcast(
        &mut self,
        to: &Recipients,
        msg: &Outgoing,
        tag: Option<u64>,
        metrics: &mut Metrics,
    ) -> (r: Vec<Relayed>)
        requires
            old(self).wf(),
        ensures
            final(self).wf(),
            final(self).frames == old(self).frames,
            final(self).control == old(self).control,
            old(self).was_broadcast(*to, *msg, tag, r@),
            (final(metrics)@, final(self).swept@) == after_offers(
                old(metrics)@,
                old(self).swept@,
                answers(r@),
                r@.len(),
            ),
    {
        let ghost c = metrics@;
        let ghost marks = self.swept@;
        let n: usize = self.frames.len();
        let mut out: Vec<Relayed> = Vec::new();
        for k in 0..n
            invariant
                self.wf(),
                self.frames == old(self).frames,
                self.control == old(self).control,
                n == self.frames@.len(),
                marks == old(self).swept@,
                marks.len() == n,
                out@.len() == k,
                forall|j: int|
                    0 <= j < k ==> is_broadcast(
                        (#[trigger] out@[j]).frame,
                        self.frames@[j],
                        *to,
                        *msg,
                        tag,
                    ),
                forall|j: int|
                    0 <= j < k ==> is_remedy(#[trigger] out@[j], self.control@[j], marks[j]),
                (metrics@, self.swept@) == after_offers(c, marks, answers(out@), k as nat),
        {
            let ghost before = answers(out@);
            proof {
                offers_keep_shape(c, marks, before, k as nat);
            }
            let frame = offer(
                &self.frames[k],
                ShardMsg::Broadcast { to: to.dup(), msg: msg.dup(), tag },
            );
            let mut remedy: Option<Posted<ShardMsg>> = None;
            if frame.said() == Offer::Full {
                record_shard_overflow(metrics);
                if !self.swept[k] {
                    record_shard_sweep(metrics);
                    remedy = Some(post(&self.control[k], ShardMsg::Sweep { reason: LOST }));
                }
                self.swept.set(k, true);
            }
            out.push(Relayed { frame, remedy });
            proof {
                assert forall|i: int| 0 <= i < k implies #[trigger] before[i] == answers(
                    out@,
                )[i] by {
                }
                offers_agree(c, marks, before, answers(out@), k as nat);
            }
        }
        out
    }
}

/// A shard whose queue stays full has its connections closed once, however many broadcasts it
/// loses: with the mark set, an overflow counts no sweep.
pub proof fn a_population_is_swept_once(
    c: Counters,
    swept: Seq<bool>,
    said: Seq<Offer>,
)
    requires
        said.len() == swept.len(),
        forall|i: int| 0 <= i < swept.len() ==> #[trigger] swept[i],
    ensures
        after_offers(c, swept, said, said.len()).0.swept == c.swept,
        after_offers(c, swept, said, said.len()).1 == swept,
{
    swept_once(c, swept, said, said.len());
}

proof fn swept_once(c: Counters, swept: Seq<bool>, said: Seq<Offer>, n: nat)
    requires
        n <= said.len() == swept.len(),
        forall|i: int| 0 <= i < swept.len() ==> #[trigger] swept[i],
    ensures
        after_offers(c, swept, said, n).0.swept == c.swept,
        after_offers(c, swept, said, n).1 == swept,
    decreases n,
{
    if n > 0 {
        swept_once(c, swept, said, (n - 1) as nat);
        assert(swept.update(n - 1, true) =~= swept);
        assert(swept[n - 1]);
    }
}

} // verus!
