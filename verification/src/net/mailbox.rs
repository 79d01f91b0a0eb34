//! What the task that owns a room does with what comes to it.
//!
//! The task wakes for a message, for its countdown, for the time to save and for a save that has
//! ended. For each there is a list of things to do, in order. What the room itself does is the
//! room's; the order around it stands here: a shard knows of a connection before the room speaks to
//! it, a packet is charged to the slot that its connection held before the packet was handled, and a
//! connection that has ended is taken off its shard last.

use crate::net::actor::{FilterEdit, Saved, Saver};
use crate::net::http::command::AdminCommand;
use crate::net::shard::{ConnId, Outbound, ShardMsg};
use tokio::sync::mpsc;
use vstd::prelude::*;

verus! {

/// What a room is told.
#[allow(inconsistent_fields)]
pub enum ActorMsg {
    Connected {
        conn: ConnId,
        tx: mpsc::Sender<Outbound>,
        close: mpsc::Sender<&'static str>,
        deflate: Option<u8>,
        scoped: bool,
    },
    /// A message of a client, with the commands of its packets in order and its size on the wire.
    Packets { conn: ConnId, cmds: Vec<&'static str>, bytes: usize },
    /// A client sent what does not spell packets.
    DecodeFailed { conn: ConnId, detail: String },
    Disconnected { conn: ConnId },
    /// Somebody asks for what the public surface shows.
    Live,
    Status,
    Tracker,
    Admin { command: AdminCommand },
    SetSlotPassword { slot: u32, password: Option<String> },
    /// Of a slot, or of the room.
    Filter { slot: Option<u32>, edit: FilterEdit },
    Shutdown,
}

/// What the task does.
#[allow(inconsistent_fields)]
pub enum Act {
    /// Tell the room the time, which may have effects of its own.
    Tick,
    /// Tell the shard of a connection.
    Tell(ConnId, ShardMsg),
    /// Tell the room that a connection has come.
    Join { conn: ConnId, scoped: bool },
    /// Tell the room that a connection has gone.
    Leave { conn: ConnId },
    /// Count a message, charged to the slot that the connection holds.
    CountMessage { conn: ConnId, bytes: usize },
    /// Count a packet, charged to the slot that the connection holds.
    CountPacket { conn: ConnId, cmd: &'static str },
    /// Have the room handle the packet with this number.
    Handle { conn: ConnId, index: usize },
    /// Tell the shard of a connection what the room now knows of it.
    Publish { conn: ConnId },
    ReplyLive,
    ReplyStatus,
    ReplyTracker,
    /// Have the room do a command, and reply with what came of it.
    Command { command: AdminCommand },
    /// Rotate a password, and reply whether there was one to rotate.
    Rotate { slot: u32, password: Option<String> },
    /// Edit a filter, and reply with it.
    Filter { slot: Option<u32>, edit: FilterEdit },
    /// Have the room say goodbye.
    CloseRoom,
    StartSave,
    FlushJournal,
    /// Make the last save, and end.
    Stop,
}

/// What is done with the first `n` packets of a message: each is counted and then handled.
pub open spec fn packet_acts(conn: ConnId, cmds: Seq<&'static str>, n: nat) -> Seq<Act>
    decreases n,
{
    if n == 0 {
        Seq::empty()
    } else {
        packet_acts(conn, cmds, (n - 1) as nat).push(
            Act::CountPacket { conn, cmd: cmds[n - 1] },
        ).push(Act::Handle { conn, index: (n - 1) as usize })
    }
}

/// What is done with a message, once the room was told the time.
pub open spec fn planned(msg: ActorMsg) -> Seq<Act> {
    match msg {
        ActorMsg::Connected { conn, tx, close, deflate, scoped } => seq![
            Act::Tell(conn, ShardMsg::Add { conn, tx, close, deflate, scoped }),
            Act::Join { conn, scoped },
            Act::Publish { conn },
        ],
        ActorMsg::Packets { conn, cmds, bytes } => seq![Act::CountMessage { conn, bytes }]
            + packet_acts(conn, cmds@, cmds@.len()) + seq![Act::Publish { conn }],
        ActorMsg::DecodeFailed { conn, .. } => seq![
            Act::Leave { conn },
            Act::Tell(conn, ShardMsg::Close { conn, reason: "protocol error" }),
            Act::Tell(conn, ShardMsg::Remove { conn }),
        ],
        ActorMsg::Disconnected { conn } => seq![
            Act::Leave { conn },
            Act::Tell(conn, ShardMsg::Remove { conn }),
        ],
        ActorMsg::Live => seq![Act::ReplyLive],
        ActorMsg::Status => seq![Act::ReplyStatus],
        ActorMsg::Tracker => seq![Act::ReplyTracker],
        ActorMsg::Admin { command } => seq![Act::Command { command }],
        ActorMsg::SetSlotPassword { slot, password } => seq![Act::Rotate { slot, password }],
        ActorMsg::Filter { slot, edit } => seq![Act::Filter { slot, edit }],
        ActorMsg::Shutdown => seq![Act::CloseRoom, Act::Stop],
    }
}

fn handle_packets(conn: ConnId, cmds: &Vec<&'static str>, out: &mut Vec<Act>)
    ensures
        final(out)@ == old(out)@ + packet_acts(conn, cmds@, cmds@.len()),
{
    let ghost before = out@;
    for i in 0..cmds.len()
        invariant
            out@ == before + packet_acts(conn, cmds@, i as nat),
    {
        out.push(Act::CountPacket { conn, cmd: cmds[i] });
        out.push(Act::Handle { conn, index: i });
        assert(out@ =~= before + packet_acts(conn, cmds@, (i + 1) as nat));
    }
}

/// What is done with a message: the room is told the time, and then what the message wants is done.
pub fn plan(msg: ActorMsg) -> (r: Vec<Act>)
    ensures
        r@ == seq![Act::Tick] + planned(msg),
{
    let mut out: Vec<Act> = Vec::new();
    out.push(Act::Tick);
    let ghost wanted = planned(msg);
    match msg {
        ActorMsg::Connected { conn, tx, close, deflate, scoped } => {
            out.push(Act::Tell(conn, ShardMsg::Add { conn, tx, close, deflate, scoped }));
            out.push(Act::Join { conn, scoped });
            out.push(Act::Publish { conn });
        },
        ActorMsg::Packets { conn, cmds, bytes } => {
            out.push(Act::CountMessage { conn, bytes });
            handle_packets(conn, &cmds, &mut out);
            out.push(Act::Publish { conn });
        },
        ActorMsg::DecodeFailed { conn, .. } => {
            out.push(Act::Leave { conn });
            out.push(Act::Tell(conn, ShardMsg::Close { conn, reason: "protocol error" }));
            out.push(Act::Tell(conn, ShardMsg::Remove { conn }));
        },
        ActorMsg::Disconnected { conn } => {
            out.push(Act::Leave { conn });
            out.push(Act::Tell(conn, ShardMsg::Remove { conn }));
        },
        ActorMsg::Live => out.push(Act::ReplyLive),
        ActorMsg::Status => out.push(Act::ReplyStatus),
        ActorMsg::Tracker => out.push(Act::ReplyTracker),
        ActorMsg::Admin { command } => out.push(Act::Command { command }),
        ActorMsg::SetSlotPassword { slot, password } => out.push(Act::Rotate { slot, password }),
        ActorMsg::Filter { slot, edit } => out.push(Act::Filter { slot, edit }),
        ActorMsg::Shutdown => {
            out.push(Act::CloseRoom);
            out.push(Act::Stop);
        },
    }
    assert(out@ =~= seq![Act::Tick] + wanted);
    out
}

/// Why the task woke.
pub enum Wake {
    Message(ActorMsg),
    /// Nobody can tell the room anything any more.
    Abandoned,
    Countdown,
    SaveTimer,
    SaveEnded(Saved),
}

/// Where the task stands.
#[derive(Debug, Clone, Copy, PartialEq, Eq, Structural)]
pub struct Steward {
    pub saver: Saver,
    /// Whether the room keeps a history.
    pub journal: bool,
}

impl Steward {
    pub fn new(saving: bool, journal: bool) -> (r: Steward)
        ensures
            r == (Steward {
                saver: Saver { saving, in_flight: false, dirty: false },
                journal,
            }),
    {
        Steward { saver: Saver::new(saving), journal }
    }

    /// Whether a save is due and can begin.
    pub open spec fn may_save(self) -> bool {
        self.saver.saving && self.saver.dirty && !self.saver.in_flight
    }

    /// Where the task stands once it woke, and what it does.
    pub open spec fn woken(self, why: Wake) -> (Steward, Seq<Act>) {
        match why {
            Wake::Message(msg) => (self, seq![Act::Tick] + planned(msg)),
            Wake::Abandoned => (self, seq![Act::Stop]),
            Wake::Countdown => (self, seq![Act::Tick]),
            Wake::SaveTimer => (
                if self.may_save() {
                    Steward {
                        saver: Saver { in_flight: true, dirty: false, ..self.saver },
                        ..self
                    }
                } else {
                    self
                },
                (if self.may_save() {
                    seq![Act::StartSave]
                } else {
                    Seq::empty()
                }) + (if self.journal {
                    seq![Act::FlushJournal]
                } else {
                    Seq::empty()
                }),
            ),
            Wake::SaveEnded(how) => (
                Steward {
                    saver: Saver {
                        in_flight: false,
                        dirty: self.saver.dirty || how == Saved::Failed,
                        ..self.saver
                    },
                    ..self
                },
                Seq::empty(),
            ),
        }
    }

    /// Wakes the task. The history reaches the disk when the save does, so that both lose as much
    /// when the process is killed.
    pub fn wake(&mut self, why: Wake) -> (r: Vec<Act>)
        ensures
            (*final(self), r@) == old(self).woken(why),
    {
        match why {
            Wake::Message(msg) => plan(msg),
            Wake::Abandoned => {
                let r = vec![Act::Stop];
                assert(r@ =~= seq![Act::Stop]);
                r
            },
            Wake::Countdown => {
                let r = vec![Act::Tick];
                assert(r@ =~= seq![Act::Tick]);
                r
            },
            Wake::SaveTimer => {
                let ghost first = *self;
                let mut r: Vec<Act> = Vec::new();
                if self.saver.maybe_start() {
                    r.push(Act::StartSave);
                }
                if self.journal {
                    r.push(Act::FlushJournal);
                }
                assert(r@ =~= first.woken(Wake::SaveTimer).1);
                r
            },
            Wake::SaveEnded(how) => {
                self.saver.finished(how);
                let r: Vec<Act> = Vec::new();
                assert(r@ =~= Seq::<Act>::empty());
                r
            },
        }
    }

    /// Notes whether what was done changed anything that a save holds.
    pub fn note(&mut self, changed: bool)
        ensures
            *final(self) == (Steward {
                saver: Saver { dirty: old(self).saver.dirty || changed, ..old(self).saver },
                ..*old(self)
            }),
    {
        self.saver.note(changed);
    }
}

/// At most one save is ever running: one is started only when none is, and then one is.
pub proof fn one_save_at_a_time(s: Steward, why: Wake, i: int)
    requires
        0 <= i < s.woken(why).1.len(),
        s.woken(why).1[i] == Act::StartSave,
    ensures
        !s.saver.in_flight,
        s.woken(why).0.saver.in_flight,
{
    if let Wake::Message(msg) = why {
        no_save_planned(msg, i - 1);
    }
}

/// A change is not forgotten: what is marked to be saved stays marked until a save of it is
/// started, and is marked again when that save fails.
pub proof fn a_change_is_not_forgotten(s: Steward, why: Wake)
    requires
        s.saver.dirty,
    ensures
        s.woken(why).0.saver.dirty || (why is SaveTimer && s.woken(why).1.contains(
            Act::StartSave,
        )),
        s.woken(Wake::SaveEnded(Saved::Failed)).0.saver.dirty,
{
    if why is SaveTimer && s.may_save() {
        assert(s.woken(why).1[0] == Act::StartSave);
    }
}

/// The packets of a message are handled each once and in order, and each right after it was counted.
pub proof fn packets_are_handled_in_order(conn: ConnId, cmds: Seq<&'static str>, i: int)
    requires
        cmds.len() <= usize::MAX,
        0 <= i < cmds.len(),
    ensures
        packet_acts(conn, cmds, cmds.len()).len() == 2 * cmds.len(),
        packet_acts(conn, cmds, cmds.len())[2 * i] == (Act::CountPacket { conn, cmd: cmds[i] }),
        packet_acts(conn, cmds, cmds.len())[2 * i + 1] == (Act::Handle {
            conn,
            index: i as usize,
        }),
{
    packets_in_order(conn, cmds, cmds.len(), i);
}

proof fn packets_in_order(conn: ConnId, cmds: Seq<&'static str>, n: nat, i: int)
    ensures
        packet_acts(conn, cmds, n).len() == 2 * n,
        0 <= i < n ==> packet_acts(conn, cmds, n)[2 * i] == (Act::CountPacket {
            conn,
            cmd: cmds[i],
        }) && packet_acts(conn, cmds, n)[2 * i + 1] == (Act::Handle { conn, index: i as usize }),
    decreases n,
{
    if n > 0 {
        packets_in_order(conn, cmds, (n - 1) as nat, i);
    }
}

/// No message starts a save.
proof fn no_save_planned(msg: ActorMsg, i: int)
    requires
        0 <= i < planned(msg).len(),
    ensures
        planned(msg)[i] != Act::StartSave,
{
    if let ActorMsg::Packets { conn, cmds, bytes } = msg {
        let n = cmds@.len();
        let k = (i - 1) / 2;
        packets_in_order(conn, cmds@, n, k);
        if 1 <= i < 1 + 2 * n {
            let a = packet_acts(conn, cmds@, n)[i - 1];
            assert(planned(msg)[i] == a);
            if (i - 1) % 2 == 0 {
                assert(i - 1 == 2 * k);
            } else {
                assert(i - 1 == 2 * k + 1);
            }
        }
    }
}

/// A connection is known to its shard before the room hears of it, and one that has ended is taken
/// off its shard after the room has let it go.
pub proof fn shards_know_first_and_forget_last(msg: ActorMsg)
    ensures
        msg matches ActorMsg::Connected { conn, tx, close, deflate, scoped } ==> planned(msg)[0]
            == Act::Tell(conn, ShardMsg::Add { conn, tx, close, deflate, scoped })
            && planned(msg)[1] == (Act::Join { conn, scoped }),
        msg matches ActorMsg::Disconnected { conn } ==> planned(msg)[0] == (Act::Leave { conn })
            && planned(msg).last() == Act::Tell(conn, ShardMsg::Remove { conn }),
        msg matches ActorMsg::DecodeFailed { conn, .. } ==> planned(msg)[0] == (Act::Leave { conn })
            && planned(msg).last() == Act::Tell(conn, ShardMsg::Remove { conn }),
{
}

} // verus!
