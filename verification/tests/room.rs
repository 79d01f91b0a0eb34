use pahoa::datastore::value::{Number, Value};
use pahoa::multidata::datapackage::{DataPackage, GamePackage};
use pahoa::multidata::locations::{LocationEntry, LocationStore};
use pahoa::multidata::multidata::MultiData;
use pahoa::multidata::types::{NetworkSlot, SlotType, Version};
use pahoa::net::actor::{
    attributed, close_text, count_message, count_packet, edit_filter, filter, push_membership,
    roster, rotate_password, Client, CloseReason, FilterEdit, FilterReply, FilterState, LastSave,
    Rotation, Rules, SaveConfig, Saved, Saver, SlotFacts,
};
use pahoa::net::budget::Ledger;
use pahoa::net::http::command::AdminCommand;
use pahoa::net::journal::{
    capacity_for, escape, event_line, gap_line, last_gap_line, render, CheckRecord, Step,
    WriterState, Written, EVENT_HEADROOM, FLUSH_EVERY, IDLE_FLUSH_MS, MAX_CAPACITY,
};
use pahoa::net::mailbox::{plan, Act, ActorMsg, Steward, Wake};
use pahoa::net::metrics::{
    boot_seconds, bytes_in, cpu_hundredths, duration_text, http, http_malformed, known_method,
    last_client_message_at, last_save, last_save_at, mailbox_depth, mailbox_peak, packets,
    packets_out, proc_stat_fields, record_http, record_http_malformed, record_mailbox_depth,
    record_packet_out, record_save, resident_bytes, start_hundredths, summary, HttpKey, Metrics,
    PacketKey,
};
use pahoa::net::save::{
    busy_message, hand_over, note_save, saved, store_next, temp_name, SaveSink, StoreNext,
    StoreStep,
};
use pahoa::net::server::{
    ended, handle_event, read_head, refuse_plaintext, scheme, Due, Event, Head, Keepalive,
    Reaction, Scheme, CLIENT_HELLO, UPGRADE_TO_TLS,
};
use pahoa::net::session::{outcome, Arrival, Doing, Ending, Move, Turn, Writer};
use pahoa::net::shard::ShardMsg;
use pahoa::net::tls::{FileStamp, Look, Serving, Stamp};
use pahoa::table::Table;

#[test]
fn a_name_with_a_quote_stays_parseable() {
    assert_eq!(escape(r#"say "hi""#), r#"say \"hi\""#);
    assert_eq!(escape(r"back\slash"), r"back\\slash");
    assert_eq!(escape("tab\there"), "tab\\there");
    assert_eq!(escape("bell\u{7}"), "bell\\u0007");
}

fn seed() -> MultiData {
    let slot = |name: &str, slot_type| NetworkSlot {
        name: name.to_string(),
        game: "G".to_string(),
        slot_type,
        group_members: Vec::new(),
    };
    MultiData {
        seed_name: "S1".to_string(),
        generator_version: Version::new(0, 6, 2),
        minimum_server_version: Version::new(0, 1, 6),
        minimum_client_versions: Table::new(),
        slot_info: Table::new()
            .with(1, slot("Tr\"oy", SlotType::Player))
            .with(2, slot("Link", SlotType::Group)),
        connect_names: Table::new().with("Troy".to_string(), (0, 1)),
        locations: LocationStore::from_entries(
            vec![LocationEntry::new(1, 10, 77, 1, 0), LocationEntry::new(1, 11, 78, 1, 0)],
            2,
        ),
        precollected_items: Table::new(),
        precollected_hints: Table::new(),
        er_hint_data: Table::new(),
        spheres: Vec::new(),
        race_mode: false,
        slot_data: Table::new(),
        server_options: None,
        embedded_datapackage: Table::new().with(
            "G".to_string(),
            GamePackage {
                item_name_to_id: Table::new().with("Sword".to_string(), 77),
                location_name_to_id: Table::new().with("Attic".to_string(), 10),
                ..Default::default()
            },
        ),
    }
}

#[test]
fn a_check_is_one_line_of_json() {
    let seed = seed();
    let names: DataPackage = seed.resolve_datapackage().0;
    let record = CheckRecord {
        at_millis: 1_700_000_500_042,
        finder: 1,
        receiver: 9,
        item: 77,
        location: 10,
        flags: 1,
    };
    let line = render(&record, &seed, &names);
    assert!(line.ends_with("}\n"));
    let doc: serde_json::Value = serde_json::from_str(&line).unwrap();
    assert!(line.contains("\"at\":1700000500.042,"), "{line}");
    assert_eq!(doc["finder_name"], "Tr\"oy");
    assert_eq!(doc["receiver_name"], "?");
    assert_eq!(doc["item_name"], "Unknown item (ID:77)", "the receiver is in no game");
    assert_eq!(doc["location_name"], "Attic");
}

#[test]
fn lines_say_what_is_missing() {
    assert_eq!(last_gap_line(3), "{\"type\":\"gap\",\"dropped\":3}\n");
    assert!(gap_line(3).starts_with("{\"type\":\"gap\",\"dropped\":3,\"note\":"));
    let event = Value::Object(vec![(
        "n".to_string(),
        Value::Number(Number { text: "1".to_string(), float: None }),
    )]);
    assert_eq!(event_line(&event), "{\"n\":1}\n");
}

#[test]
fn the_buffer_follows_the_seed() {
    assert_eq!(capacity_for(0), EVENT_HEADROOM);
    assert_eq!(capacity_for(1000), 1000 + EVENT_HEADROOM);
    assert_eq!(capacity_for(usize::MAX), MAX_CAPACITY);
}

#[test]
fn every_drop_is_reported_once() {
    let mut w = WriterState::new();
    assert_eq!(w.wait(), None);
    assert_eq!(w.step(Written::Line, 0), Step { flush: false, gap: None });
    assert_eq!(w.wait(), Some(IDLE_FLUSH_MS));
    assert_eq!(w.step(Written::Line, 5), Step { flush: false, gap: Some(5) });
    assert_eq!(w.step(Written::Failed, 7), Step { flush: false, gap: None });
    assert_eq!(w.step(Written::Flush, 7), Step { flush: true, gap: Some(2) });
    assert_eq!(w.idle(), Step { flush: true, gap: None });
    assert_eq!(w.finish(9), Some(2));
    assert_eq!(w.finish(7), None);
}

#[test]
fn lines_are_flushed_in_batches() {
    let mut w = WriterState::new();
    let mut flushes = 0;
    for _ in 0..FLUSH_EVERY * 2 {
        if w.step(Written::Line, 0).flush {
            flushes += 1;
        }
    }
    assert_eq!(flushes, 2);
}

const HOSTILE: &str = "42 (yacht (dice) roller) S 1 42 42 0 -1 4194560 \
                       111 0 2 0 1234 567 0 0 20 0 24 0 998877 12345 678";

#[test]
fn stat_fields_survive_a_command_name_with_spaces_and_parens() {
    let fields = proc_stat_fields(HOSTILE).expect("parses");

    // Field 3 is the state, so index 0.
    assert_eq!(fields[0], "S", "the split landed in the wrong place");
    assert_eq!(fields[14 - 3], "1234", "utime");
    assert_eq!(fields[15 - 3], "567", "stime");
    assert_eq!(fields[22 - 3], "998877", "starttime");
}

#[test]
fn cpu_seconds_are_readable_and_only_go_up() {
    let before = cpu_hundredths(HOSTILE).expect("readable");
    assert_eq!(before, 1234 + 567);
    let later = HOSTILE.replace(" 1234 ", " 1240 ");
    let after = cpu_hundredths(&later).expect("still readable");
    assert!(after > before, "burning CPU should move the counter: {before} -> {after}");
    assert_eq!(cpu_hundredths("no brackets"), None);
}

#[test]
fn the_process_started_in_the_past_and_after_the_epoch() {
    let boot = boot_seconds("cpu 1 2 3\nbtime 1700000000\nprocesses 5\n");
    assert_eq!(boot, Some(1_700_000_000));
    let at = start_hundredths(HOSTILE, boot).expect("known");
    assert_eq!(at, 170_000_000_000 + 998_877);
    assert_eq!(start_hundredths(HOSTILE, None), None);
    assert_eq!(boot_seconds("nothing of the kind\n"), None);
}

#[test]
fn memory_is_counted_in_pages() {
    assert_eq!(resident_bytes("1000 25 3 1 0 4 0\n"), Some(25 * 4096));
    assert_eq!(resident_bytes("1000"), None);
    assert_eq!(resident_bytes("1000 x"), None);
}

#[test]
fn counters_count() {
    let mut m = Metrics::new();
    record_mailbox_depth(&mut m, 5);
    record_mailbox_depth(&mut m, 3);
    assert_eq!((mailbox_depth(&m), mailbox_peak(&m)), (3, 5));
    assert_eq!(last_save_at(&m), None);
    record_save(&mut m, 1_500, 20_480, 99);
    assert_eq!(last_save(&m), (1_500, 20_480));
    assert_eq!(last_save_at(&m), Some(99));
    record_packet_out(&mut m, "PrintJSON");
    record_packet_out(&mut m, "PrintJSON");
    assert_eq!(packets_out(&m).get(&"PrintJSON".to_string()), Some(&2));
    record_http_malformed(&mut m);
    assert_eq!(http_malformed(&m), 1);
    record_http(&mut m, "/healthz", "GET", 200, 10, 20);
    record_http(&mut m, "/healthz", "GET", 200, 1, 2);
    assert_eq!(
        http(&m),
        [(HttpKey { route: "/healthz", method: "GET", status: 200 }, 2, 11, 22)]
    );
    assert_eq!(known_method("GET"), "GET");
    assert_eq!(known_method("BREW"), "other");
}

#[test]
fn times_are_shown_as_durations_are() {
    for micros in [
        0, 1, 10, 999, 1_000, 1_001, 1_010, 1_100, 1_500, 20_000, 100_100, 999_999, 1_000_000,
        1_000_001, 1_000_100, 1_200_000, 10_050_000, 3_600_000_000, u64::MAX,
    ] {
        let shown = format!("{:?}", std::time::Duration::from_micros(micros));
        assert_eq!(duration_text(micros), shown);
    }
}

#[test]
fn the_summary_is_one_line() {
    let mut m = Metrics::new();
    record_save(&mut m, 1_500, 20_480, 99);
    let ledger = Ledger { queued: 2048, peak: 4096 };
    assert_eq!(
        summary(&m, &ledger, 7, Some(3 << 20)),
        "mailbox 0 (peak 0), outbound 2 KiB (peak 4 KiB), lag disconnects 0, compressions 7, \
         last save 1.5ms/20 KiB, rss 3 MiB"
    );
    assert!(summary(&m, &ledger, 7, None).ends_with("rss ?"));
}

fn client(auth: bool) -> Client {
    Client { auth, no_text: true, team: 0, slot: 4 }
}

#[test]
fn traffic_is_attributed_once_signed_in() {
    assert_eq!(attributed(Some(client(true))), Some((0, 4)));
    assert_eq!(attributed(Some(client(false))), None);
    assert_eq!(attributed(None), None);
    let mut m = Metrics::new();
    count_message(&mut m, Some(client(true)), 12, 50);
    count_message(&mut m, None, 5, 60);
    count_packet(&mut m, Some(client(true)), "Say");
    assert_eq!(bytes_in(&m).get(&Some((0, 4))), Some(&12));
    assert_eq!(bytes_in(&m).get(&None), Some(&5));
    assert_eq!(last_client_message_at(&m), Some(60));
    assert_eq!(packets(&m), [(PacketKey { key: Some((0, 4)), cmd: "Say" }, 1)]);
    assert_eq!(push_membership(Some(client(true))), Some((true, true, Some((0, 4)))));
    assert_eq!(push_membership(None), None);
}

#[test]
fn reasons_have_texts() {
    assert_eq!(close_text(&CloseReason::TooSlow), "client too slow");
    assert_ne!(close_text(&CloseReason::Kicked), close_text(&CloseReason::ServerShutdown));
    assert_eq!(close_text(&CloseReason::ProtocolError("x".to_string())), "protocol error");
}

#[test]
fn a_save_that_comes_while_another_runs_is_let_go() {
    let mut s = Saver::new(true);
    assert!(!s.maybe_start(), "nothing has changed");
    s.note(true);
    assert!(s.maybe_start());
    s.note(true);
    assert!(!s.maybe_start(), "one is running");
    assert_eq!(s.flush(), LastSave::WaitFirst);
    s.finished(Saved::Stored);
    assert!(s.dirty);
    assert!(s.maybe_start());
    s.finished(Saved::Failed);
    assert!(s.dirty, "what could not be stored is saved again");
    assert!(s.start_last());
    s.finished(Saved::Lost);
    assert!(!s.dirty);
    assert_eq!(Saver::new(false).flush(), LastSave::Skip);
    assert_eq!(s.flush(), LastSave::Now);
    assert_eq!(SaveConfig::default().interval_ms, 60_000);
}

#[test]
fn the_roster_leaves_groups_out() {
    let facts = vec![SlotFacts {
        connections: 1,
        checks: 2,
        status: "playing",
        locked: false,
        filtered: false,
    }];
    let rows = roster(&seed(), &facts);
    assert_eq!(rows.len(), 1);
    assert_eq!(rows[0].slot, 1);
    assert_eq!(rows[0].total_checks, 2);
    assert_eq!(rows[0].name, "Tr\"oy");
}

#[test]
fn a_password_is_rotated_where_the_slot_is_known() {
    let mut passwords = None;
    assert_eq!(
        rotate_password(&seed(), &mut passwords, 9, Some("x".to_string())),
        Rotation { known: false, set: None }
    );
    assert!(passwords.is_none());
    assert!(!rotate_password(&seed(), &mut passwords, 1, None).known, "there is no mode to rotate in");
    passwords = Some(Table::new());
    assert_eq!(
        rotate_password(&seed(), &mut passwords, 1, Some("x".to_string())),
        Rotation { known: true, set: Some(true) }
    );
    assert_eq!(passwords.as_ref().unwrap().get(&1), Some(&"x".to_string()));
    let cleared = rotate_password(&seed(), &mut passwords, 1, None);
    assert_eq!(cleared, Rotation { known: true, set: Some(false) });
    assert_eq!(passwords.unwrap().len(), 0);
}

fn rules(kinds: &[(&'static str, u64)]) -> Rules {
    let mut t = Table::new();
    for (kind, share) in kinds {
        t = t.with((("in", *kind), None), *share);
    }
    t
}

fn done(reply: FilterReply) -> FilterState {
    match reply {
        FilterReply::Done(state) => state,
        other => panic!("got {other:?}"),
    }
}

#[test]
fn a_slot_without_rules_is_under_the_rooms() {
    let room = rules(&[("chat", 1), ("bounce", 2)]);
    let reply = done(filter(&seed(), Some(1), None, Some(&room), FilterEdit::Read, None));
    assert!(reply.inherited);
    assert!(!reply.changed);
    assert_eq!(reply.effective.len(), 2);
    let empty = FilterEdit::Replace(Table::new());
    let reply = done(filter(&seed(), Some(1), None, Some(&room), empty, None));
    assert!(!reply.inherited, "an empty filter exempts");
    assert_eq!(reply.effective.len(), 0);
    let unknown = filter(&seed(), Some(9), None, Some(&room), FilterEdit::Read, None);
    assert!(matches!(unknown, FilterReply::UnknownSlot));
}

#[test]
fn a_refused_merge_says_why_and_sets_nothing() {
    let own = rules(&[("chat", 1)]);
    let more = || rules(&[("bounce", 2)]);
    let why = || Some("too many rules".to_string());
    match filter(&seed(), Some(1), Some(&own), None, FilterEdit::Merge(more()), why()) {
        FilterReply::Refused(reason) => assert_eq!(reason, "too many rules"),
        other => panic!("got {other:?}"),
    }
    let unknown = filter(&seed(), Some(9), None, None, FilterEdit::Merge(more()), why());
    assert!(matches!(unknown, FilterReply::UnknownSlot), "the slot is looked at first");
    let taken = done(filter(&seed(), Some(1), Some(&own), None, FilterEdit::Merge(more()), None));
    assert!(taken.changed);
    assert_eq!(taken.rules.unwrap().len(), 2);
    let put = done(filter(&seed(), Some(1), Some(&own), None, FilterEdit::Replace(more()), why()));
    assert_eq!(put.rules.unwrap().len(), 1);
}

#[test]
fn rules_are_merged_and_removed_by_what_they_match() {
    let own = rules(&[("chat", 1), ("bounce", 2)]);
    let merged =
        edit_filter(Some(&own), None, false, FilterEdit::Merge(rules(&[("chat", 7), ("hint", 3)])));
    let after = merged.rules.unwrap();
    assert_eq!(after.len(), 3);
    assert_eq!(after.get(&(("in", "chat"), None)), Some(&7));
    let again =
        edit_filter(Some(&after), None, false, FilterEdit::Merge(rules(&[("chat", 7), ("hint", 3)])));
    assert_eq!(again.rules.unwrap().len(), 3);
    let removed =
        edit_filter(Some(&own), None, false, FilterEdit::Remove(rules(&[("chat", 0), ("hint", 0)])));
    assert_eq!(removed.removed, 1);
    assert_eq!(removed.rules.unwrap().len(), 1);
    let cleared = edit_filter(Some(&own), None, false, FilterEdit::Clear);
    assert!(cleared.rules.is_none());
}

#[test]
fn a_peer_that_dies_after_it_answered_is_found_an_interval_and_a_timeout_later() {
    let mut k = Keepalive::new(20_000, 20_000, 1_000);
    assert_eq!(k.due(20_999, 7), Due::Nothing);
    assert_eq!(k.due(21_000, 7), Due::Ping);
    for now in [21_001, 30_000, 40_999] {
        assert_eq!(k.due(now, 7), Due::Nothing);
        assert_eq!(k.wait(), Some(41_000));
    }
    assert_eq!(k.due(41_000, 7), Due::Dead);
}

#[test]
fn a_silent_peer_is_found_dead() {
    let mut k = Keepalive::new(20, 50, 0);
    assert_eq!(k.wait(), Some(20));
    assert_eq!(k.due(19, 0), Due::Nothing);
    assert_eq!(k.due(20, 0), Due::Ping);
    assert_eq!(k.due(40, 0), Due::Ping);
    assert_eq!(k.due(60, 0), Due::Ping);
    assert_eq!(k.wait(), Some(70));
    assert_eq!(k.due(70, 0), Due::Dead);

    // One that answers is kept.
    let mut k = Keepalive::new(20, 10, 0);
    assert_eq!(k.due(20, 0), Due::Ping);
    assert_eq!(k.due(30, 1), Due::Nothing);
    assert_eq!(k.due(40, 1), Due::Ping);

    let mut off = Keepalive::new(0, 10, 0);
    assert_eq!(off.wait(), None);
    assert_eq!(off.due(1_000, 0), Due::Nothing);
}

#[test]
fn the_first_byte_chooses_the_scheme() {
    assert_eq!(scheme(Some(CLIENT_HELLO), true, false), Scheme::Tls);
    assert_eq!(scheme(Some(CLIENT_HELLO), false, true), Scheme::NoTls);
    assert_eq!(scheme(Some(b'G'), true, false), Scheme::RefusePlaintext);
    assert_eq!(scheme(Some(b'G'), true, true), Scheme::Plain);
    assert_eq!(scheme(None, false, false), Scheme::Plain);
    assert_eq!(refuse_plaintext(true), None);
    assert_eq!(refuse_plaintext(false), Some(UPGRADE_TO_TLS));
    assert!(UPGRADE_TO_TLS.starts_with("HTTP/1.1 426 Upgrade Required\r\nUpgrade: TLS"));
    assert!(UPGRADE_TO_TLS.ends_with("\r\nContent-Length: 0\r\n\r\n"));
    assert_eq!(read_head(false, 10, 10), Head::ReadMore);
    assert_eq!(read_head(false, 11, 10), Head::TooLong);
    assert_eq!(read_head(true, 11, 10), Head::Complete);
}

#[test]
fn a_close_is_echoed() {
    let close = Event::Close(Some((4001, "bye".to_string())));
    assert_eq!(handle_event(&close), Reaction::Echo(4001, "bye".to_string()));
    assert_eq!(ended(&close, false), Some("peer closed (4001)".to_string()));
    assert_eq!(handle_event(&Event::Close(None)), Reaction::Echo(1000, String::new()));
    assert_eq!(handle_event(&Event::Ping), Reaction::Pong);
    assert_eq!(ended(&Event::Ping, false), None);
    assert_eq!(ended(&Event::Packets, false), None);
    assert_eq!(ended(&Event::Packets, true), Some("room stopped".to_string()));
    assert_eq!(ended(&Event::Undecodable, false), Some("undecodable frame".to_string()));
}

#[test]
fn a_pair_that_does_not_load_is_tried_again() {
    let file = |len: u64| FileStamp { mtime: 1, mtime_nsec: 0, len, ino: 7 };
    let first = Stamp { cert: file(1), key: file(2) };
    let second = Stamp { cert: file(3), key: file(2) };
    let mut s = Serving::new(first);
    assert_eq!(s.look(Some(first)), Look::Keep);
    assert_eq!(s.look(None), Look::Keep);
    assert_eq!(s.look(Some(second)), Look::Load);
    s.loaded(second, false);
    assert_eq!(s.look(Some(second)), Look::Load);
    s.loaded(second, true);
    assert_eq!(s.look(Some(second)), Look::Keep);
}

struct Full;

impl SaveSink for Full {
    fn store(&self, bytes: &[u8]) -> Result<(), String> {
        if bytes.is_empty() {
            Ok(())
        } else {
            Err("no space left".to_string())
        }
    }
}

#[test]
fn a_sink_says_how_a_save_ended() {
    assert_eq!(hand_over(&Full, b""), Saved::Stored);
    assert_eq!(hand_over(&Full, b"x"), Saved::Failed);
    assert_eq!(saved(&Err("x".to_string())), Saved::Failed);
    let mut m = Metrics::new();
    note_save(Saved::Failed, &mut m, 5, 6, 7);
    assert_eq!(last_save_at(&m), None);
    note_save(Saved::Stored, &mut m, 5, 6, 7);
    assert_eq!(last_save_at(&m), Some(7));
    assert_eq!(temp_name(42), ".room.save.42.tmp");
    assert!(busy_message("/srv/a").contains("/srv/a"));
}

#[test]
fn a_save_is_in_place_only_once_it_is_whole() {
    let mut at = StoreStep::CreateTemp;
    let mut steps = vec![at];
    while let StoreNext::Do(next) = store_next(at, true) {
        at = next;
        steps.push(at);
    }
    assert_eq!(
        steps,
        [
            StoreStep::CreateTemp,
            StoreStep::Write,
            StoreStep::SyncTemp,
            StoreStep::Rename,
            StoreStep::SyncDir
        ]
    );
    assert_eq!(store_next(at, true), StoreNext::Done);
    assert_eq!(store_next(StoreStep::Write, false), StoreNext::CleanUp);
}

fn names(acts: &[Act]) -> Vec<String> {
    acts.iter()
        .map(|a| match a {
            Act::Tick => "tick".to_string(),
            Act::Tell(_, ShardMsg::Add { .. }) => "add".to_string(),
            Act::Tell(_, ShardMsg::Remove { .. }) => "remove".to_string(),
            Act::Tell(_, ShardMsg::Close { reason, .. }) => format!("close: {reason}"),
            Act::Tell(..) => "tell".to_string(),
            Act::Join { .. } => "join".to_string(),
            Act::Leave { .. } => "leave".to_string(),
            Act::CountMessage { bytes, .. } => format!("message {bytes}"),
            Act::CountPacket { cmd, .. } => format!("count {cmd}"),
            Act::Handle { index, .. } => format!("handle {index}"),
            Act::Publish { .. } => "publish".to_string(),
            Act::Command { .. } => "command".to_string(),
            Act::CloseRoom => "goodbye".to_string(),
            Act::StartSave => "save".to_string(),
            Act::FlushJournal => "flush".to_string(),
            Act::Stop => "stop".to_string(),
            _ => "reply".to_string(),
        })
        .collect()
}

#[test]
fn a_message_is_done_in_order() {
    let (tx, _out) = tokio::sync::mpsc::channel(1);
    let (close, _close) = tokio::sync::mpsc::channel(1);
    let connected = ActorMsg::Connected { conn: 4, tx, close, deflate: None, scoped: true };
    assert_eq!(names(&plan(connected)), ["tick", "add", "join", "publish"]);
    let packets = ActorMsg::Packets { conn: 4, cmds: vec!["Connect", "Say"], bytes: 99 };
    assert_eq!(
        names(&plan(packets)),
        ["tick", "message 99", "count Connect", "handle 0", "count Say", "handle 1", "publish"]
    );
    let bad = ActorMsg::DecodeFailed { conn: 4, detail: "x".to_string() };
    assert_eq!(names(&plan(bad)), ["tick", "leave", "close: protocol error", "remove"]);
    assert_eq!(
        names(&plan(ActorMsg::Disconnected { conn: 4 })),
        ["tick", "leave", "remove"]
    );
    assert_eq!(names(&plan(ActorMsg::Shutdown)), ["tick", "goodbye", "stop"]);
    assert_eq!(
        names(&plan(ActorMsg::Admin { command: AdminCommand::Status })),
        ["tick", "command"]
    );
    for msg in [
        ActorMsg::Live,
        ActorMsg::Status,
        ActorMsg::Tracker,
        ActorMsg::SetSlotPassword { slot: 1, password: None },
        ActorMsg::Filter { slot: None, edit: FilterEdit::Read },
    ] {
        assert_eq!(names(&plan(msg)), ["tick", "reply"]);
    }
}

#[test]
fn a_save_is_started_on_the_timer_alone() {
    let mut s = Steward::new(true, true);
    assert_eq!(names(&s.wake(Wake::SaveTimer)), ["flush"]);
    s.note(true);
    assert_eq!(names(&s.wake(Wake::Countdown)), ["tick"]);
    assert_eq!(names(&s.wake(Wake::SaveTimer)), ["save", "flush"]);
    s.note(true);
    assert_eq!(names(&s.wake(Wake::SaveTimer)), ["flush"], "one is running");
    assert!(s.wake(Wake::SaveEnded(Saved::Stored)).is_empty());
    assert_eq!(names(&s.wake(Wake::SaveTimer)), ["save", "flush"]);
    assert_eq!(names(&s.wake(Wake::Abandoned)), ["stop"]);
    assert!(Steward::new(false, false).wake(Wake::SaveTimer).is_empty());
}

#[test]
fn a_writer_releases_what_it_took() {
    let mut w = Writer::new(0, 0, 0);
    let wait = Turn { next: Move::Wait, released: None };
    assert_eq!(
        w.turn(Arrival::Frame { size: 70 }),
        Turn { next: Move::WriteFrame, released: None }
    );
    assert_eq!(w.turn(Arrival::Frame { size: 5 }), wait, "one at a time");
    assert_eq!(
        w.turn(Arrival::Wrote { ok: true }),
        Turn { next: Move::Wait, released: Some(70) }
    );
    assert_eq!(w.turn(Arrival::Timer { now: 9, pongs: 0 }), wait);
    w.turn(Arrival::Frame { size: 8 });
    assert_eq!(
        w.turn(Arrival::Signal),
        Turn { next: Move::Stop, released: Some(8) },
        "a close in the middle of a write"
    );
    assert_eq!(w.doing, Doing::Stopped);
    assert_eq!(
        w.turn(Arrival::Frame { size: 1 }),
        Turn { next: Move::Stop, released: None }
    );
}

#[test]
fn a_writer_says_goodbye_once() {
    let mut w = Writer::new(20, 10, 0);
    assert_eq!(
        w.turn(Arrival::Timer { now: 20, pongs: 0 }).next,
        Move::WritePing
    );
    w.turn(Arrival::Wrote { ok: true });
    assert_eq!(
        w.turn(Arrival::Close { reason: "bye" }).next,
        Move::WriteClose { code: 1001, reason: "bye" }
    );
    assert_eq!(w.turn(Arrival::Wrote { ok: true }).next, Move::Stop);

    let mut silent = Writer::new(20, 10, 0);
    silent.turn(Arrival::Timer { now: 20, pongs: 3 });
    silent.turn(Arrival::Wrote { ok: true });
    assert_eq!(silent.turn(Arrival::Timer { now: 30, pongs: 3 }).next, Move::Stop);
    assert_eq!(Writer::new(0, 0, 0).turn(Arrival::Ended).next, Move::Stop);
    let mut broken = Writer::new(0, 0, 0);
    broken.turn(Arrival::Frame { size: 3 });
    assert_eq!(
        broken.turn(Arrival::Wrote { ok: false }),
        Turn { next: Move::Stop, released: Some(3) }
    );
}

#[test]
fn a_reader_says_why_it_stopped() {
    assert_eq!(outcome(&Ending::Protocol("x".to_string())), "protocol error: x");
    assert_eq!(outcome(&Ending::BadFrame("x".to_string())), "bad frame: x");
    assert_eq!(outcome(&Ending::Server), "closed by the server");
    assert_eq!(outcome(&Ending::Peer), "peer closed");
    assert_eq!(outcome(&Ending::Failed("x".to_string())), "read failed: x");
}
