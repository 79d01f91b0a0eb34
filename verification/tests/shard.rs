use bytes::Bytes;
use pahoa::net::budget::{queued_bytes, Budget, ConnBudget, Ledger};
use pahoa::net::actor::CloseReason;
use pahoa::net::channel::Offer;
use pahoa::net::dispatch;
use pahoa::net::fanout::{Relayed, Shards, Told, LOST};
use pahoa::net::metrics::{
    client_deflate, deliveries, lag_disconnects, packets_out, shard_overflow, shard_sweeps,
    Delivered, Metrics, SlotKey,
};
use pahoa::net::shard::{
    deliver, CloseVia, ConnId, Delivery, Fate, Handled, Member, Outbound, Outgoing, Recipients,
    Shard, ShardMsg,
};
use tokio::sync::mpsc;

const NOW: u64 = 5_000_000;

/// A shard with one signed-in connection that has these queues.
fn shard_of_one(tx: mpsc::Sender<Outbound>, close: mpsc::Sender<&'static str>) -> Shard {
    let mut shard = Shard::new();
    shard.add(1, tx, close, None, false, NOW);
    shard.update(1, true, false, Some((0, 1)), &mut Metrics::new());
    shard
}

/// A connection whose outbound queue is already full, with the other ends of its queues.
fn wedged() -> (Shard, mpsc::Receiver<&'static str>, mpsc::Receiver<Outbound>) {
    let (tx, held) = mpsc::channel(1);
    tx.try_send(Outbound::Frame(Bytes::from_static(b"x"))).expect("first send fits");
    let (close_tx, close_rx) = mpsc::channel(1);
    (shard_of_one(tx, close_tx), close_rx, held)
}

fn member(tx: mpsc::Sender<Outbound>, close: mpsc::Sender<&'static str>) -> Member {
    Member {
        conn: 1,
        tx,
        close,
        auth: true,
        no_text: false,
        slot: Some((0, 1)),
        deflate: None,
        budget: ConnBudget::new(NOW),
        lagged: false,
        filter: None,
        scoped: false,
    }
}

#[test]
fn marking_a_connection_lagged_closes_it_out_of_band() {
    let (mut shard, mut close_rx, _out_rx) = wedged();
    let mut m = Metrics::new();

    shard.mark_lagged(&vec![1], &mut m);

    assert_eq!(
        close_rx.try_recv(),
        Ok("too slow"),
        "a lagged connection was not closed out of band, so the client is \
         never told and its socket stays open"
    );
    assert!(shard.members[0].lagged);
    assert_eq!(lag_disconnects(&m), 1);
}

#[test]
fn a_lagged_close_skips_the_queue_even_when_the_queue_has_room() {
    let (close_tx, mut close_rx) = mpsc::channel(1);
    let (tx, mut rx) = mpsc::channel(64);
    let mut shard = shard_of_one(tx, close_tx);

    shard.mark_lagged(&vec![1], &mut Metrics::new());

    assert_eq!(
        close_rx.try_recv(),
        Ok("too slow"),
        "the close was queued instead of forced; a wedged writer will never reach it"
    );
    assert!(
        rx.try_recv().is_err(),
        "nothing should have been queued for a connection that is not draining"
    );
}

#[test]
fn a_closed_writer_is_not_a_lagging_client() {
    let (close_tx, mut close_rx) = mpsc::channel(1);
    let (tx, rx) = mpsc::channel(64);
    drop(rx); // The writer task has exited; this is every clean disconnect.
    let budget = Budget::new(1 << 20, 1 << 16);
    let mut ledger = Ledger::new();
    let mut m = Metrics::new();
    let mut one = member(tx.clone(), close_tx.clone());

    assert_eq!(
        deliver(&mut one, Bytes::from_static(b"hello"), &budget, &mut ledger, &mut m, NOW).0,
        Delivery::Gone,
        "a closed queue is a finished connection, not a slow one"
    );
    assert_eq!(queued_bytes(&ledger), 0, "the reservation is handed back");

    let mut shard = shard_of_one(tx, close_tx);
    shard.mark_gone(&vec![1]);

    assert!(
        shard.members[0].lagged,
        "the shard must stop sending to it and wait for its removal"
    );
    assert!(
        close_rx.try_recv().is_err(),
        "there is nothing to close: the writer is what closed"
    );
    assert_eq!(lag_disconnects(&m), 0);
}

#[test]
fn a_full_writer_queue_is_still_a_lagging_client() {
    let (tx, _held) = mpsc::channel(1);
    tx.try_send(Outbound::Frame(Bytes::from_static(b"x"))).expect("first send fits");
    let (close_tx, _close_rx) = mpsc::channel(1);
    let budget = Budget::new(1 << 20, 1 << 16);
    let mut one = member(tx, close_tx);

    assert_eq!(
        deliver(
            &mut one,
            Bytes::from_static(b"hello"),
            &budget,
            &mut Ledger::new(),
            &mut Metrics::new(),
            NOW
        )
        .0,
        Delivery::Behind,
        "a full queue is the case the lag policy exists for"
    );
}

#[test]
fn a_second_lag_mark_is_harmless() {
    let (mut shard, mut close_rx, _out_rx) = wedged();

    shard.mark_lagged(&vec![1], &mut Metrics::new());
    shard.mark_lagged(&vec![1], &mut Metrics::new());

    assert_eq!(close_rx.try_recv(), Ok("too slow"));
    // One signal is enough; the capacity-1 channel drops the duplicate.
    assert!(close_rx.try_recv().is_err());
}

#[test]
fn a_kick_uses_the_queue_when_it_has_room() {
    let (close_tx, mut close_rx) = mpsc::channel(1);
    let (tx, mut rx) = mpsc::channel(4);
    let shard = shard_of_one(tx, close_tx);

    assert_eq!(shard.close(1, "kicked").map(|c| c.via()), Some(CloseVia::Queue));

    assert!(
        matches!(rx.try_recv(), Ok(Outbound::Close("kicked"))),
        "an ordered close should travel with the frames it must follow"
    );
    assert!(
        close_rx.try_recv().is_err(),
        "the out-of-band path is a fallback, not the default"
    );
}

#[test]
fn a_kick_falls_back_out_of_band_when_the_queue_is_full() {
    let (shard, mut close_rx, _out_rx) = wedged();

    assert_eq!(shard.close(1, "kicked").map(|c| c.via()), Some(CloseVia::Signal));

    assert_eq!(close_rx.try_recv(), Ok("kicked"));
    assert!(shard.close(2, "kicked").is_none());
}

struct Peer {
    out: mpsc::Receiver<Outbound>,
    _close: mpsc::Receiver<&'static str>,
}

fn join(
    shard: &mut Shard,
    conn: ConnId,
    slot: SlotKey,
    no_text: bool,
    deflate: Option<u8>,
    scoped: bool,
) -> Peer {
    let (tx, out) = mpsc::channel(16);
    let (close, _close) = mpsc::channel(1);
    shard.add(conn, tx, close, deflate, scoped, NOW);
    shard.update(conn, true, no_text, Some(slot), &mut Metrics::new());
    Peer { out, _close }
}

fn got(p: &mut Peer) -> Option<Vec<u8>> {
    match p.out.try_recv() {
        Ok(Outbound::Frame(b)) => Some(b.to_vec()),
        _ => None,
    }
}

fn message(text: &'static str) -> Outgoing {
    Outgoing {
        payload: Bytes::from_static(text.as_bytes()),
        plain: Bytes::from_static(text.as_bytes()),
    }
}

fn tell(shard: &mut Shard, told: ShardMsg, ledger: &mut Ledger, m: &mut Metrics) -> Handled {
    let budget = Budget::new(1 << 20, 1 << 16);
    let compress = |p: &Bytes, bits: u8| {
        let mut v = vec![bits];
        v.extend_from_slice(p);
        Bytes::from(v)
    };
    let drops = |filter: u64, tag: u64, _: SlotKey| filter == tag;
    shard.handle(told, &compress, &drops, &budget, ledger, m, NOW)
}

#[test]
fn recipients_choose_who_is_sent_to() {
    let mut shard = Shard::new();
    let mut a = join(&mut shard, 1, (0, 1), false, None, false);
    let mut b = join(&mut shard, 2, (0, 1), true, None, false);
    let mut c = join(&mut shard, 3, (0, 2), false, None, true);
    let mut ledger = Ledger::new();
    let mut m = Metrics::new();

    let mut send = |shard: &mut Shard, to: Recipients| {
        let told = ShardMsg::Broadcast { to, msg: message("hi"), tag: None };
        tell(shard, told, &mut ledger, &mut m);
        [got(&mut a).is_some(), got(&mut b).is_some(), got(&mut c).is_some()]
    };
    assert_eq!(send(&mut shard, Recipients::All), [true, true, true]);
    assert_eq!(send(&mut shard, Recipients::AllText), [true, false, true]);
    assert_eq!(send(&mut shard, Recipients::Slot((0, 1))), [true, true, false]);
    assert_eq!(send(&mut shard, Recipients::SlotText((0, 1))), [true, false, false]);
    assert_eq!(send(&mut shard, Recipients::AllTextFull), [true, false, false]);
    assert_eq!(send(&mut shard, Recipients::SlotScopedText((0, 2))), [false, false, true]);
    assert_eq!(send(&mut shard, Recipients::These(vec![2, 9])), [false, true, false]);
    assert_eq!(queued_bytes(&ledger), 22, "each frame stays on the books until it drains");
}

#[test]
fn a_number_that_is_there_already_is_overwritten() {
    let mut shard = Shard::new();
    let mut ledger = Ledger::new();
    let mut m = Metrics::new();
    let mut first = join(&mut shard, 1, (0, 1), false, None, false);
    let told = ShardMsg::Send { conn: 1, msg: message("four"), tag: None };
    tell(&mut shard, told, &mut ledger, &mut m);
    assert!(got(&mut first).is_some());

    let (tx, out) = mpsc::channel(16);
    let (close, _close) = mpsc::channel(1);
    let again = ShardMsg::Add { conn: 1, tx, close, deflate: None, scoped: false };
    match tell(&mut shard, again, &mut ledger, &mut m) {
        Handled::Added(Some(account)) => assert_eq!(account.queued, 4),
        _ => panic!("the account of the first is handed back"),
    }
    assert_eq!(queued_bytes(&ledger), 4, "what the first holds is its writer's to give back");
    assert_eq!(shard.members.len(), 1);
    assert_eq!(shard.members[0].slot, None);
    assert_eq!(shard.members[0].budget.queued, 0);

    // The list of the slot was not told, and the number is still on it.
    let mut second = Peer { out, _close };
    let to_slot = |key| ShardMsg::Broadcast {
        to: Recipients::Slot(key),
        msg: message("hi"),
        tag: None,
    };
    tell(&mut shard, to_slot((0, 1)), &mut ledger, &mut m);
    assert!(got(&mut second).is_some());
    shard.update(1, true, false, Some((0, 2)), &mut m);
    tell(&mut shard, to_slot((0, 1)), &mut ledger, &mut m);
    tell(&mut shard, to_slot((0, 2)), &mut ledger, &mut m);
    assert!(got(&mut second).is_some() && got(&mut second).is_some());
}

#[test]
fn a_slot_lists_its_connections_once() {
    let mut shard = Shard::new();
    let mut ledger = Ledger::new();
    let mut m = Metrics::new();
    let _peers = [
        join(&mut shard, 1, (0, 1), false, None, false),
        join(&mut shard, 2, (0, 1), false, None, false),
        join(&mut shard, 3, (0, 2), false, None, false),
    ];
    shard.update(3, true, false, Some((0, 1)), &mut m);
    shard.update(1, true, false, Some((0, 2)), &mut m);
    shard.update(1, true, true, Some((0, 2)), &mut m);
    let conns = |shard: &Shard, key| -> Vec<ConnId> {
        let who = shard.audience(&Recipients::Slot(key));
        who.iter().map(|i| shard.members[*i].conn).collect()
    };
    assert_eq!(conns(&shard, (0, 1)), [2, 3]);
    assert_eq!(conns(&shard, (0, 2)), [1]);
    shard.remove(2, &mut ledger);
    assert_eq!(conns(&shard, (0, 1)), [3]);
}

#[test]
fn frames_are_compressed_for_those_who_asked() {
    let mut shard = Shard::new();
    let mut plain = join(&mut shard, 1, (0, 1), false, None, false);
    let mut small = join(&mut shard, 2, (0, 2), false, Some(11), false);
    let mut m = Metrics::new();
    let told = ShardMsg::Broadcast { to: Recipients::All, msg: message("hi"), tag: None };
    tell(&mut shard, told, &mut Ledger::new(), &mut m);
    assert_eq!(got(&mut plain).unwrap(), b"hi");
    assert_eq!(got(&mut small).unwrap(), [11, b'h', b'i']);
    let told = deliveries(&m);
    assert_eq!(told.get(&Some((0, 1))), Some(&Delivered { frames: 1, bytes: 2 }));
    assert_eq!(told.get(&Some((0, 2))), Some(&Delivered { frames: 1, bytes: 3 }));
}

#[test]
fn a_filter_drops_what_is_tagged_and_nothing_else() {
    let mut shard = Shard::new();
    let mut a = join(&mut shard, 1, (0, 1), false, None, false);
    shard.set_filter(1, Some(7));
    let mut ledger = Ledger::new();
    let mut m = Metrics::new();
    for tag in [Some(7), Some(8), None] {
        let told = ShardMsg::Broadcast { to: Recipients::All, msg: message("x"), tag };
        tell(&mut shard, told, &mut ledger, &mut m);
        assert_eq!(got(&mut a).is_some(), tag != Some(7), "{tag:?}");
    }
}

#[test]
fn what_drains_comes_off_the_books() {
    let mut shard = Shard::new();
    let _a = join(&mut shard, 1, (0, 1), false, None, false);
    let mut ledger = Ledger::new();
    let mut m = Metrics::new();
    let told = ShardMsg::Send { conn: 1, msg: message("four"), tag: None };
    tell(&mut shard, told, &mut ledger, &mut m);
    assert_eq!(queued_bytes(&ledger), 4);
    shard.drained(1, 3, NOW, &mut ledger);
    assert_eq!(queued_bytes(&ledger), 1);
    shard.remove(1, &mut ledger);
    assert_eq!(queued_bytes(&ledger), 0);
    assert!(shard.members.is_empty());
}

#[test]
fn a_connection_that_fell_behind_is_sent_nothing_more() {
    let (mut shard, mut close_rx, mut out) = wedged();
    let mut ledger = Ledger::new();
    let mut m = Metrics::new();
    for _ in 0..3 {
        let told = ShardMsg::Broadcast { to: Recipients::All, msg: message("x"), tag: None };
        tell(&mut shard, told, &mut ledger, &mut m);
    }
    assert_eq!(lag_disconnects(&m), 1);
    assert_eq!(close_rx.try_recv(), Ok("too slow"));
    assert!(out.try_recv().is_ok(), "what was there before");
    assert!(out.try_recv().is_err(), "and nothing after");
    assert_eq!(queued_bytes(&ledger), 0);
}

#[test]
fn a_log_says_what_became_of_each() {
    let mut shard = Shard::new();
    let _a = join(&mut shard, 1, (0, 1), false, None, false);
    let b = join(&mut shard, 2, (0, 2), false, None, false);
    drop(b);
    let budget = Budget::new(1 << 20, 1 << 16);
    let who = shard.audience(&Recipients::All);
    assert_eq!(who.len(), 2);
    let sent = shard.fan_out(
        &who,
        &message("x"),
        None,
        &|p: &Bytes, _: u8| p.clone(),
        &|_: u64, _: u64, _: SlotKey| false,
        &budget,
        &mut Ledger::new(),
        &mut Metrics::new(),
        NOW,
    );
    let fates: Vec<Fate> = sent.log.iter().map(|e| e.fate).collect();
    assert_eq!(fates, [Fate::Tried(Delivery::Sent), Fate::Tried(Delivery::Gone)]);
}

#[test]
fn signing_in_counts_the_compression_agreed() {
    let mut shard = Shard::new();
    let (tx, _out) = mpsc::channel(1);
    let (close, _close) = mpsc::channel(1);
    let mut m = Metrics::new();
    shard.add(1, tx, close, Some(11), false, NOW);
    shard.update(1, true, false, Some((0, 4)), &mut m);
    shard.update(1, true, true, Some((0, 4)), &mut m);
    assert_eq!(client_deflate(&m).get(&((0, 4), true)), Some(&1));
    assert_eq!(client_deflate(&m).len(), 1);
}

#[test]
fn everyone_is_closed_in_a_sweep() {
    let (shard, mut close_rx, _out) = wedged();
    assert_eq!(shard.sweep(LOST).len(), 1);
    assert_eq!(close_rx.try_recv(), Ok(LOST));
}

fn queues(
    n: usize,
    depth: usize,
) -> (Shards, Vec<mpsc::Receiver<ShardMsg>>, Vec<mpsc::UnboundedReceiver<ShardMsg>>) {
    let mut frames = Vec::new();
    let mut control = Vec::new();
    let mut frames_rx = Vec::new();
    let mut control_rx = Vec::new();
    for _ in 0..n {
        let (tx, rx) = mpsc::channel(depth);
        frames.push(tx);
        frames_rx.push(rx);
        let (tx, rx) = mpsc::unbounded_channel();
        control.push(tx);
        control_rx.push(rx);
    }
    (Shards::new(frames, control), frames_rx, control_rx)
}

fn said(relayed: Vec<Relayed>) -> Vec<Offer> {
    relayed.iter().map(|x| x.frame.said()).collect()
}

#[test]
fn a_population_that_was_swept_is_not_swept_again() {
    let (mut shards, mut frames, mut control) = queues(2, 1);
    let mut m = Metrics::new();
    assert_eq!(shards.len(), 2);
    assert!(!shards.is_empty());
    assert_eq!(shards.shard_of(7), 1);
    let to = Recipients::All;
    assert_eq!(
        said(shards.broadcast(&to, &message("x"), None, &mut m)),
        [Offer::Taken, Offer::Taken]
    );
    assert!(frames[0].try_recv().is_ok());
    assert_eq!(
        said(shards.broadcast(&to, &message("x"), None, &mut m)),
        [Offer::Taken, Offer::Full]
    );
    assert_eq!(
        said(shards.broadcast(&to, &message("x"), None, &mut m)),
        [Offer::Full, Offer::Full]
    );
    assert_eq!(shard_overflow(&m), 3);
    assert_eq!(shard_sweeps(&m), 2);
    assert!(matches!(control[1].try_recv(), Ok(ShardMsg::Sweep { reason: LOST })));
    assert!(control[1].try_recv().is_err());

    // Somebody new makes it a population that may be swept.
    let (tx, _out) = mpsc::channel(1);
    let (close, _close) = mpsc::channel(1);
    let add = ShardMsg::Add { conn: 7, tx, close, deflate: None, scoped: false };
    assert!(matches!(shards.tell(7, add, &mut m), Told::Control(_)));
    shards.broadcast(&to, &message("x"), None, &mut m);
    assert_eq!(shard_sweeps(&m), 3);
}

#[test]
fn a_frame_that_does_not_fit_costs_one_connection() {
    let (mut shards, _frames, mut control) = queues(1, 1);
    let mut m = Metrics::new();
    let frame = || ShardMsg::Send { conn: 4, msg: message("x"), tag: None };
    for expected in [Offer::Taken, Offer::Full] {
        match shards.tell(4, frame(), &mut m) {
            Told::Frame(x) => {
                assert_eq!(x.frame.said(), expected);
                assert_eq!(x.remedy.map(|p| p.heard()), match expected {
                    Offer::Full => Some(true),
                    _ => None,
                });
            }
            Told::Control(_) => panic!("a frame went with the news"),
        }
    }
    assert_eq!(shard_overflow(&m), 1);
    assert_eq!(shard_sweeps(&m), 0);
    assert!(matches!(control[0].try_recv(), Ok(ShardMsg::Close { conn: 4, reason: LOST })));
}

#[test]
fn a_room_without_packets_says_nothing() {
    let (mut shards, mut frames, mut control) = queues(2, 8);
    let mut m = Metrics::new();
    assert!(dispatch::send(&mut shards, 3, &vec![], message("x"), None, &mut m).is_none());
    assert!(dispatch::broadcast(&mut shards, &Recipients::All, &vec![], &message("x"), None, &mut m)
        .is_none());
    assert!(frames[0].try_recv().is_err() && frames[1].try_recv().is_err());

    let cmds = vec!["RoomUpdate", "PrintJSON"];
    assert!(dispatch::send(&mut shards, 3, &cmds, message("x"), Some(9), &mut m).is_some());
    assert!(matches!(
        frames[1].try_recv(),
        Ok(ShardMsg::Send { conn: 3, tag: Some(9), .. })
    ));
    let sent =
        dispatch::broadcast(&mut shards, &Recipients::All, &vec!["PrintJSON"], &message("x"), None, &mut m);
    assert_eq!(said(sent.unwrap()), [Offer::Taken, Offer::Taken]);
    // Once for what the room said, however many shards heard it.
    assert_eq!(packets_out(&m).get(&"PrintJSON".to_string()), Some(&2));

    dispatch::membership_changed(&mut shards, 3, (true, false, Some((0, 1))), &mut m);
    assert!(matches!(
        control[1].try_recv(),
        Ok(ShardMsg::Update { conn: 3, auth: true, no_text: false, slot: Some((0, 1)) })
    ));
    dispatch::filter_changed(&mut shards, 2, Some(5), &mut m);
    assert!(matches!(control[0].try_recv(), Ok(ShardMsg::SetFilter { conn: 2, filter: Some(5) })));
    dispatch::close(&mut shards, 2, &CloseReason::Kicked, &mut m);
    assert!(matches!(
        control[0].try_recv(),
        Ok(ShardMsg::Close { conn: 2, reason: "disconnected by an administrator" })
    ));
}

#[test]
fn a_shard_says_what_came_of_what_it_was_told() {
    let mut shard = Shard::new();
    let mut a = join(&mut shard, 1, (0, 1), false, None, false);
    let mut ledger = Ledger::new();
    let mut m = Metrics::new();
    let gone = ShardMsg::Send { conn: 9, msg: message("x"), tag: None };
    assert!(matches!(tell(&mut shard, gone, &mut ledger, &mut m), Handled::Noted));
    let here = ShardMsg::Send { conn: 1, msg: message("x"), tag: None };
    match tell(&mut shard, here, &mut ledger, &mut m) {
        Handled::Sent(s) => {
            assert_eq!(s.handed[0].as_ref().unwrap().said(), Offer::Taken);
            assert!(s.closes.is_empty());
        }
        _ => panic!("it was to be sent"),
    }
    assert!(got(&mut a).is_some());
    let close = ShardMsg::Close { conn: 1, reason: "bye" };
    match tell(&mut shard, close, &mut ledger, &mut m) {
        Handled::Closed(c) => assert_eq!(c.via(), CloseVia::Queue),
        _ => panic!("it was to be closed"),
    }
    assert!(matches!(a.out.try_recv(), Ok(Outbound::Close("bye"))));
    let sweep = ShardMsg::Sweep { reason: LOST };
    assert!(matches!(tell(&mut shard, sweep, &mut ledger, &mut m), Handled::Swept(v) if v.len() == 1));
}
