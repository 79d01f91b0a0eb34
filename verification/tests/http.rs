use pahoa::datastore::value::{Number, Value};
use pahoa::json::encode;
use pahoa::multidata::locations::{LocationEntry, LocationStore};
use pahoa::multidata::multidata::MultiData;
use pahoa::multidata::types::{
    ClientStatus, Hint, HintStatus, NetworkItem, NetworkSlot, SlotType, Version,
};
use pahoa::net::budget::Ledger;
use pahoa::net::http::admin::{
    Admin, Auth, Source, FAILURE_LIMIT, FAILURE_WINDOW_MS, FLOOD_LIMIT, MAX_SOURCES,
};
use pahoa::net::http::command::{parse, slot_password, AdminCommand};
use pahoa::net::http::exposition::{label, prometheus};
use pahoa::net::http::response::Response;
use pahoa::net::http::route::{
    command, filter, filter_misspelled, filter_unknown, filter_want, metrics, place, room, route,
    set_slot_password, shutdown, slot_password_path, status, stopping, target, template,
    tracker_body, tracker_bytes, Action, AdminOutcome, Cached, FilterMethod, FilterWant, Live,
    Place, Target, STATIC_CACHE_MS, TRACKER_CACHE_MS,
};
use pahoa::net::http::status::{
    check_idle_seconds, document, dropped_in, idle_seconds, slots_connected, slots_filtered,
    slots_locked, Options, Sample, SlotStatus, Status,
};
use pahoa::net::http::time::{date_of, rfc1123, rfc3339, room_time, Date};
use pahoa::net::http::tracker::{hint, item, time, TrackerData, TrackerGroup, TrackerSlot};
use pahoa::net::metrics::{
    auth_failures, auth_rate_limited, record_bytes_in, record_client_message, record_http,
    record_packet, record_save, Metrics,
};
use pahoa::table::Table;

const NOW: u64 = 1_000_000;

fn admin() -> Admin {
    Admin::new(Some("quiet-harbor-ledger".to_string()), NOW).expect("a token")
}

fn v4(a: u8, b: u8, c: u8, d: u8) -> Source {
    (false, u32::from_be_bytes([a, b, c, d]) as u128)
}

fn v6(host: u128) -> Source {
    (true, 0x2001_0db8_0000_0000_0000_0000_0000_0000 + host)
}

fn them() -> Source {
    v4(198, 51, 100, 7)
}

fn us() -> Source {
    v4(10, 42, 0, 3)
}

fn check(a: &mut Admin, header: Option<&str>, source: Source) -> Auth {
    a.check(header, source, NOW, &mut Metrics::new())
}

fn refused(auth: Auth) -> Response {
    match auth {
        Auth::Refused(r) => r,
        Auth::Passed => panic!("expected a refusal"),
    }
}

fn allowed(auth: Auth) -> bool {
    matches!(auth, Auth::Passed)
}

fn rendered(r: Response) -> String {
    String::from_utf8(r.render()).unwrap()
}

fn body(r: &Response) -> &str {
    std::str::from_utf8(&r.body).unwrap()
}

#[test]
fn no_token_configured_means_no_admin_surface() {
    assert!(Admin::new(None, NOW).is_none());
}

#[test]
fn the_right_token_is_accepted() {
    assert!(allowed(check(&mut admin(), Some("Bearer quiet-harbor-ledger"), us())));
}

#[test]
fn the_scheme_is_matched_case_insensitively() {
    assert!(allowed(check(&mut admin(), Some("bearer quiet-harbor-ledger"), us())));
    assert!(allowed(check(&mut admin(), Some("BEARER quiet-harbor-ledger"), us())));
}

#[test]
fn a_wrong_or_missing_token_is_the_same_answer() {
    let mut a = admin();
    for header in [None, Some("Bearer wrong"), Some("Basic abc"), Some("junk")] {
        let response = refused(check(&mut a, header, them()));
        assert_eq!(response.status, 401, "{header:?}");
    }
}

#[test]
fn a_refusal_names_the_scheme() {
    let rendered = rendered(refused(check(&mut admin(), None, them())));
    assert!(rendered.contains("WWW-Authenticate: Bearer"), "{rendered}");
}

#[test]
fn a_prefix_is_not_enough() {
    assert_eq!(refused(check(&mut admin(), Some("Bearer quiet"), them())).status, 401);
    assert_eq!(
        refused(check(&mut admin(), Some("Bearer quiet-harbor-ledger-and-more"), them())).status,
        401
    );
}

#[test]
fn guessing_is_cut_off_after_the_limit() {
    let mut a = admin();
    for _ in 0..FAILURE_LIMIT {
        assert_eq!(refused(check(&mut a, Some("Bearer wrong"), them())).status, 401);
    }
    assert_eq!(refused(check(&mut a, Some("Bearer wrong"), them())).status, 429);
}

#[test]
fn a_guesser_cannot_lock_out_the_token_holder() {
    let mut a = admin();
    for _ in 0..FAILURE_LIMIT * 5 {
        let _ = check(&mut a, Some("Bearer wrong"), them());
    }
    assert_eq!(refused(check(&mut a, Some("Bearer wrong"), them())).status, 429);

    // Holding the token is what gets a caller through, not where they are.
    assert!(allowed(check(&mut a, Some("Bearer quiet-harbor-ledger"), us())));
    assert!(allowed(check(&mut a, Some("Bearer quiet-harbor-ledger"), them())));
}

#[test]
fn one_source_does_not_spend_anothers_budget() {
    let mut a = admin();
    for _ in 0..FAILURE_LIMIT * 2 {
        let _ = check(&mut a, Some("Bearer wrong"), them());
    }
    assert_eq!(refused(check(&mut a, Some("Bearer wrong"), them())).status, 429);
    assert_eq!(refused(check(&mut a, Some("Bearer wrong"), us())).status, 401);
}

#[test]
fn the_flood_ceiling_catches_what_per_source_counting_cannot() {
    let mut a = admin();
    let mut sent = 0;
    for host in 0..(FLOOD_LIMIT / FAILURE_LIMIT) + 1 {
        for _ in 0..FAILURE_LIMIT {
            let source = v4(198, 51, 100, (host % 256) as u8);
            let status = refused(check(&mut a, Some("Bearer wrong"), source)).status;
            sent += 1;
            if status == 429 {
                assert!(
                    sent > FLOOD_LIMIT,
                    "refused at {sent} failures, before the ceiling at {FLOOD_LIMIT}"
                );
                return;
            }
        }
    }
    panic!("{sent} failures went unrefused with a ceiling of {FLOOD_LIMIT}");
}

#[test]
fn the_source_table_is_bounded() {
    let mut a = admin();
    for host in 0..(MAX_SOURCES * 2) {
        let _ = check(&mut a, Some("Bearer wrong"), v6(host as u128));
    }
    assert!(a.tracked_sources() <= MAX_SOURCES, "tracking {} sources", a.tracked_sources());
}

#[test]
fn a_rate_limited_refusal_says_when_to_come_back() {
    let mut a = admin();
    for _ in 0..FAILURE_LIMIT {
        let _ = check(&mut a, Some("Bearer wrong"), them());
    }
    let rendered = rendered(refused(check(&mut a, None, them())));
    assert!(rendered.contains("Retry-After: 60"), "{rendered}");
}

#[test]
fn success_does_not_count_against_the_limit() {
    let mut a = admin();
    for _ in 0..100 {
        assert!(allowed(check(&mut a, Some("Bearer quiet-harbor-ledger"), us())));
    }
    assert!(allowed(check(&mut a, Some("Bearer quiet-harbor-ledger"), us())));
}

#[test]
fn a_window_passes() {
    let mut a = admin();
    let mut m = Metrics::new();
    for _ in 0..=FAILURE_LIMIT {
        let _ = a.check(Some("Bearer wrong"), them(), NOW, &mut m);
    }
    assert_eq!(auth_rate_limited(&m), 1);
    assert_eq!(auth_failures(&m), (FAILURE_LIMIT + 1) as u64);
    let later = NOW + FAILURE_WINDOW_MS;
    assert_eq!(refused(a.check(Some("Bearer wrong"), them(), later, &mut m)).status, 401);
}

fn parsed(json: &str) -> Result<AdminCommand, String> {
    parse(json.as_bytes())
}

#[test]
fn every_command_in_the_contract_parses() {
    assert_eq!(parsed(r#"{"command":"status"}"#).unwrap(), AdminCommand::Status);
    assert_eq!(
        parsed(r#"{"command":"say","text":"hello"}"#).unwrap(),
        AdminCommand::Say { text: "hello".into() }
    );
    assert_eq!(
        parsed(r#"{"command":"countdown","seconds":10}"#).unwrap(),
        AdminCommand::Countdown { seconds: 10 }
    );
    assert_eq!(
        parsed(r#"{"command":"release","slot":3}"#).unwrap(),
        AdminCommand::Release { slot: 3 }
    );
    assert_eq!(
        parsed(r#"{"command":"collect","slot":3}"#).unwrap(),
        AdminCommand::Collect { slot: 3 }
    );
    assert_eq!(
        parsed(r#"{"command":"send_item","slot":3,"item":"Lamp"}"#).unwrap(),
        AdminCommand::SendItem { slot: 3, item: "Lamp".into() }
    );
    assert_eq!(
        parsed(r#"{"command":"hint","slot":3,"item":"Progressive Sword","force":false}"#).unwrap(),
        AdminCommand::Hint { slot: 3, item: "Progressive Sword".into(), force: false }
    );
    assert_eq!(
        parsed(r#"{"command":"kick","slot":3,"reason":"afk"}"#).unwrap(),
        AdminCommand::Kick { slot: 3, reason: "afk".into() }
    );
    assert_eq!(
        parsed(r#"{"command":"send_multiple","slot":3,"item":"Rupee","amount":5}"#).unwrap(),
        AdminCommand::SendMultiple { slot: 3, item: "Rupee".into(), amount: 5 }
    );
    assert_eq!(
        parsed(r#"{"command":"hint_location","slot":3,"location":"Attic","force":true}"#).unwrap(),
        AdminCommand::HintLocation { slot: 3, location: "Attic".into(), force: true }
    );
    assert_eq!(
        parsed(r#"{"command":"send_location","slot":3,"location":"Attic"}"#).unwrap(),
        AdminCommand::SendLocation { slot: 3, location: "Attic".into() }
    );
    assert_eq!(
        parsed(r#"{"command":"alias","slot":3,"alias":"Organizer"}"#).unwrap(),
        AdminCommand::Alias { slot: 3, alias: "Organizer".into() }
    );
    assert_eq!(
        parsed(r#"{"command":"option","name":"hint_cost","value":"20"}"#).unwrap(),
        AdminCommand::SetOption { name: "hint_cost".into(), value: "20".into() }
    );
}

#[test]
fn send_multiple_requires_an_amount() {
    assert!(parsed(r#"{"command":"send_multiple","slot":1,"item":"Rupee"}"#)
        .is_err_and(|e| e.contains("amount")));
}

#[test]
fn the_two_hint_verbs_want_different_fields() {
    let wrong_field = parsed(r#"{"command":"hint_location","slot":1,"item":"Lamp"}"#);
    assert!(
        wrong_field.is_err_and(|e| e.contains("location")),
        "a hint_location without a location should say which field it wants"
    );
}

#[test]
fn allow_release_defaults_to_allowing() {
    assert_eq!(
        parsed(r#"{"command":"allow_release","slot":2}"#).unwrap(),
        AdminCommand::AllowRelease { slot: 2, allowed: true }
    );
    assert_eq!(
        parsed(r#"{"command":"allow_release","slot":2,"allowed":false}"#).unwrap(),
        AdminCommand::AllowRelease { slot: 2, allowed: false }
    );
}

#[test]
fn an_omitted_alias_clears_it() {
    assert_eq!(
        parsed(r#"{"command":"alias","slot":2}"#).unwrap(),
        AdminCommand::Alias { slot: 2, alias: String::new() }
    );
}

#[test]
fn an_option_value_may_be_a_number_or_a_boolean() {
    assert_eq!(
        parsed(r#"{"command":"option","name":"hint_cost","value":20}"#).unwrap(),
        AdminCommand::SetOption { name: "hint_cost".into(), value: "20".into() }
    );
    assert_eq!(
        parsed(r#"{"command":"option","name":"item_cheat","value":false}"#).unwrap(),
        AdminCommand::SetOption { name: "item_cheat".into(), value: "false".into() }
    );
    assert!(parsed(r#"{"command":"option","name":"hint_cost","value":[1]}"#).is_err());
}

#[test]
fn force_defaults_to_false() {
    assert_eq!(
        parsed(r#"{"command":"hint","slot":1,"item":"Lamp"}"#).unwrap(),
        AdminCommand::Hint { slot: 1, item: "Lamp".into(), force: false }
    );
}

#[test]
fn a_kick_needs_no_reason() {
    assert_eq!(
        parsed(r#"{"command":"kick","slot":1}"#).unwrap(),
        AdminCommand::Kick { slot: 1, reason: String::new() }
    );
}

#[test]
fn an_unknown_command_names_itself() {
    let e = parsed(r#"{"command":"explode","slot":1}"#).unwrap_err();
    assert!(e.contains("unknown command"), "{e}");
    assert!(e.contains("explode"), "{e}");
}

#[test]
fn a_missing_field_is_named() {
    let e = parsed(r#"{"command":"hint","slot":1}"#).unwrap_err();
    assert!(e.contains("item"), "{e}");

    let e = parsed(r#"{"command":"release"}"#).unwrap_err();
    assert!(e.contains("slot"), "{e}");

    let e = parsed(r#"{"command":"say"}"#).unwrap_err();
    assert!(e.contains("text"), "{e}");
}

#[test]
fn a_field_of_the_wrong_type_is_refused() {
    assert!(parsed(r#"{"command":"release","slot":"three"}"#).is_err());
    assert!(parsed(r#"{"command":"say","text":42}"#).is_err());
    assert!(parsed(r#"{"command":"hint","slot":1,"item":"x","force":"yes"}"#).is_err());
}

#[test]
fn a_negative_slot_is_refused() {
    let e = parsed(r#"{"command":"release","slot":-1}"#).unwrap_err();
    assert!(e.contains("not a slot number"), "{e}");
}

#[test]
fn a_body_that_is_not_a_json_object_is_refused() {
    assert!(parsed("not json").is_err());
    assert!(parsed("[1,2,3]").is_err());
    assert!(parsed(r#""a string""#).is_err());
    assert!(parsed("{}").unwrap_err().contains("command"));
}

#[test]
fn slots_are_locked_and_given_a_status() {
    assert_eq!(
        parsed(r#"{"command":"lock","slot":2,"locked":false}"#).unwrap(),
        AdminCommand::Lock { slot: 2, locked: false }
    );
    assert_eq!(
        parsed(r#"{"command":"set_status","slot":2,"status":"goal"}"#).unwrap(),
        AdminCommand::SetStatus { slot: 2, status: ClientStatus::Goal }
    );
    assert_eq!(
        parsed(r#"{"command":"release","slot":2,"team":1}"#).unwrap_err(),
        "there is no team 1 in this room"
    );
    assert!(parsed(r#"{"command":"release","slot":2,"team":0}"#).is_ok());
}

#[test]
fn a_password_is_set_or_cleared() {
    assert_eq!(slot_password(br#"{"password":"x"}"#), Ok(Some("x".to_string())));
    assert_eq!(slot_password(br#"{"password":null}"#), Ok(None));
    assert_eq!(slot_password(b"{}"), Ok(None));
    assert_eq!(slot_password(b""), Ok(None));
    assert!(slot_password(b"[]").is_err());
    assert!(slot_password(br#"{"password":1}"#).is_err());
}

#[test]
fn timestamps_render_as_rfc3339() {
    let at = rfc3339;
    assert_eq!(at(0), "1970-01-01T00:00:00Z");
    assert_eq!(at(1), "1970-01-01T00:00:01Z");
    // A leap day, and the day after it.
    assert_eq!(at(1_709_164_800), "2024-02-29T00:00:00Z");
    assert_eq!(at(1_709_251_200), "2024-03-01T00:00:00Z");
    // 2000 is a leap year, 1900 was not: the century rule both ways.
    assert_eq!(at(951_782_400), "2000-02-29T00:00:00Z");
    assert_eq!(at(1_786_968_000), "2026-08-17T12:00:00Z");
    // End of a day, to catch an off-by-one in the hour split.
    assert_eq!(at(1_786_968_000 + 43_199), "2026-08-17T23:59:59Z");
}

#[test]
fn days_are_dates() {
    assert_eq!(date_of(0), Date { year: 1970, month: 1, day: 1 });
    assert_eq!(date_of(-1), Date { year: 1969, month: 12, day: 31 });
    assert_eq!(date_of(19_782), Date { year: 2024, month: 2, day: 29 });
}

#[test]
fn a_response_carries_its_length_and_closes() {
    let out = rendered(Response::text(200, "ok\n"));
    assert!(out.starts_with("HTTP/1.1 200 OK\r\n"));
    assert!(out.contains("Content-Length: 3\r\n"));
    assert!(out.contains("Connection: close\r\n"));
    assert!(out.ends_with("\r\n\r\nok\n"));
}

fn number(n: i64) -> Value {
    Value::Number(Number { text: n.to_string(), float: None })
}

#[test]
fn json_says_so() {
    let out = rendered(Response::json(200, &Value::Object(vec![("a".to_string(), number(1))])));
    assert!(out.contains("Content-Type: application/json\r\n"));
    assert!(out.ends_with("{\"a\":1}"));
}

#[test]
fn an_empty_body_still_carries_a_zero_length() {
    // Without it a client waits for a body that never arrives.
    let out = rendered(Response::not_found());
    assert!(out.contains("Content-Length: 0\r\n"), "{out:?}");
}

#[test]
fn extra_headers_are_kept_in_order() {
    let out = rendered(
        Response::status(401, "Unauthorized")
            .with_header("WWW-Authenticate", "Bearer".to_string())
            .with_header("Retry-After", "60".to_string()),
    );
    let auth = out.find("WWW-Authenticate: Bearer").unwrap();
    let retry = out.find("Retry-After: 60").unwrap();
    assert!(auth < retry);
}

#[test]
fn a_room_timestamp_renders_as_rfc3339() {
    assert_eq!(rfc3339(room_time(1_700_000_500.0f64.to_bits())), "2023-11-14T22:21:40Z");
}

#[test]
fn fractional_seconds_truncate() {
    assert_eq!(rfc3339(room_time(1_700_000_500.9f64.to_bits())), "2023-11-14T22:21:40Z");
}

#[test]
fn an_impossible_clock_clamps_to_the_epoch() {
    for bad in [-1.0, f64::NAN, f64::NEG_INFINITY, f64::INFINITY] {
        assert_eq!(
            rfc3339(room_time(bad.to_bits())),
            "1970-01-01T00:00:00Z",
            "{bad} should not render as a usable time"
        );
    }
}

#[test]
fn a_room_with_no_checks_reports_null_not_zero() {
    assert_eq!(check_idle_seconds(None, 1_700_000_000), None);
}

#[test]
fn check_idle_counts_from_the_last_check() {
    let now = 1_700_000_000u64;
    let idle =
        check_idle_seconds(Some((now as f64 - 90.0).to_bits()), now).expect("a check happened");
    assert!((88..=92).contains(&idle), "idle was {idle}");
}

#[test]
fn a_check_in_the_future_reads_as_zero() {
    let now = 1_700_000_000u64;
    assert_eq!(check_idle_seconds(Some((now as f64 + 3600.0).to_bits()), now), Some(0));
}

#[test]
fn timestamps_match_the_references_rfc_1123() {
    let at = |secs: f64| encode(&time(Some(secs.to_bits())));
    assert_eq!(at(1_786_990_929.0), "\"Mon, 17 Aug 2026 18:22:09 GMT\"");
    assert_eq!(at(0.0), "\"Thu, 01 Jan 1970 00:00:00 GMT\"");
    // A leap day, and every weekday around it.
    assert_eq!(at(1_709_164_800.0), "\"Thu, 29 Feb 2024 00:00:00 GMT\"");
    assert_eq!(at(1_709_251_200.0), "\"Fri, 01 Mar 2024 00:00:00 GMT\"");
    assert_eq!(rfc1123(0.0f64.to_bits()), "Thu, 01 Jan 1970 00:00:00 GMT");
}

#[test]
fn a_slot_that_has_not_acted_reports_null() {
    assert!(matches!(time(None), Value::Null));
}

fn an_item() -> NetworkItem {
    NetworkItem { item: 80001, location: 16_871_244_510, player: 71, flags: 1 }
}

fn a_hint() -> Hint {
    Hint {
        receiving_player: 1,
        finding_player: 85,
        location: 641,
        item: 80000,
        found: true,
        entrance: String::new(),
        item_flags: 1,
        status: HintStatus::Found,
    }
}

#[test]
fn items_and_hints_are_arrays_in_declaration_order() {
    assert_eq!(encode(&item(&an_item())), "[80001,16871244510,71,1]");
    assert_eq!(encode(&hint(&a_hint())), "[1,85,641,80000,true,\"\",1,40]");
}

fn tracker_data() -> TrackerData {
    TrackerData {
        slots: vec![TrackerSlot {
            team: 0,
            slot: 1,
            playing: true,
            alias: Some("Al".to_string()),
            game: "G".to_string(),
            items_received: vec![an_item()],
            checks: vec![30, 10, 20],
            total_locations: 4,
            hints: vec![a_hint()],
            last_activity: Some(0.0f64.to_bits()),
            last_connection: None,
            status: ClientStatus::Playing,
        }],
        total_checks: vec![(0, 3)],
        groups: vec![TrackerGroup { slot: 9, name: "Link".to_string(), members: vec![1] }],
        datapackage: Table::new().with("G".to_string(), "abc".to_string()),
    }
}

#[test]
fn the_tracker_lists_checks_in_order() {
    let text = String::from_utf8(tracker_body(&tracker_data(), false)).unwrap();
    let doc: serde_json::Value = serde_json::from_str(&text).unwrap();
    assert_eq!(doc["aliases"][0]["alias"], "Al");
    assert_eq!(doc["player_checks_done"][0]["locations"].to_string(), "[10,20,30]");
    assert_eq!(doc["player_items_received"][0]["items"].to_string(), "[[80001,16871244510,71,1]]");
    let fixed = String::from_utf8(tracker_body(&tracker_data(), true)).unwrap();
    let doc: serde_json::Value = serde_json::from_str(&fixed).unwrap();
    assert_eq!(doc["player_locations_total"][0]["total_locations"], 4);
    let r = rendered(tracker_bytes(text.into_bytes()));
    assert!(r.contains("Access-Control-Allow-Origin: *\r\n"), "{r}");
}

#[test]
fn a_rendered_document_is_kept_for_a_while() {
    let mut cache = Cached::new();
    assert_eq!(cache.get(NOW, TRACKER_CACHE_MS), None);
    cache.put(NOW, &vec![1, 2]);
    assert_eq!(cache.get(NOW + TRACKER_CACHE_MS - 1, TRACKER_CACHE_MS), Some(vec![1, 2]));
    assert_eq!(cache.get(NOW + TRACKER_CACHE_MS, TRACKER_CACHE_MS), None);
    assert_eq!(cache.get(NOW + TRACKER_CACHE_MS, STATIC_CACHE_MS), Some(vec![1, 2]));
}

fn seed() -> MultiData {
    MultiData {
        seed_name: "S1".to_string(),
        generator_version: Version::new(0, 6, 2),
        minimum_server_version: Version::new(0, 1, 6),
        minimum_client_versions: Table::new(),
        slot_info: Table::new().with(
            1,
            NetworkSlot {
                name: "Troy".to_string(),
                game: "G".to_string(),
                slot_type: SlotType::Player,
                group_members: Vec::new(),
            },
        ),
        connect_names: Table::new().with("Troy".to_string(), (0, 1)),
        locations: LocationStore::from_entries(vec![LocationEntry::new(1, 10, 77, 1, 0)], 1),
        precollected_items: Table::new(),
        precollected_hints: Table::new(),
        er_hint_data: Table::new(),
        spheres: Vec::new(),
        race_mode: false,
        slot_data: Table::new(),
        server_options: None,
        embedded_datapackage: Table::new(),
    }
}

fn live() -> Status {
    Status {
        clients_connected: 2,
        save_dirty: true,
        save_interval_seconds: 60,
        saving: true,
        options: Options {
            hint_cost: 10,
            location_check_points: 1,
            release_mode: "auto",
            collect_mode: "auto",
            remaining_mode: "goal",
            countdown_mode: "auto",
            item_cheat: true,
            compatibility: 2,
        },
        slots: vec![SlotStatus {
            team: 0,
            slot: 1,
            name: "Troy \"T\"".to_string(),
            game: "G".to_string(),
            connections: 2,
            checks: 3,
            total_checks: 4,
            status: "playing",
            locked: false,
            filtered: true,
        }],
        last_check_at: Some(1_700_000_000.5f64.to_bits()),
        drops: Table::new()
            .with(((0, 1), ("in", "chat")), 5)
            .with(((0, 1), ("out", "chat")), 2),
        redundant: Table::new(),
    }
}

fn sample() -> Sample {
    Sample {
        now: 1_700_000_100,
        started_at: 1_700_000_000,
        compressions: 7,
        resident: Some(4096),
        cpu: Some(150),
        start: None,
        outbound_budget_bytes: 1 << 26,
    }
}

#[test]
fn the_status_document_is_json() {
    let mut m = Metrics::new();
    record_client_message(&mut m, 1_700_000_040);
    record_save(&mut m, 120, 4_000, 1_700_000_050);
    let text = encode(&document(&seed(), &live(), &m, &Ledger::new(), &sample()));
    let doc: serde_json::Value = serde_json::from_str(&text).unwrap();
    assert_eq!(doc["seed_name"], "S1");
    assert_eq!(doc["save"]["last_save_bytes"], 4_000);
    assert_eq!(doc["save"]["last_save_at"], "2023-11-14T22:14:10Z");
    assert_eq!(doc["activity"]["idle_seconds"], 60);
    assert_eq!(doc["slots"][0]["name"], "Troy \"T\"");
    assert_eq!(doc["slots"][0]["connected"], true);
    assert_eq!(idle_seconds(&m, 1_700_000_100), Some(60));
    assert_eq!(idle_seconds(&Metrics::new(), 1_700_000_100), None);
}

#[test]
fn slots_are_counted_by_what_holds_of_them() {
    let s = live();
    assert_eq!(slots_filtered(&s.slots), 1);
    assert_eq!(slots_locked(&s.slots), 0);
    assert_eq!(slots_connected(&s.slots), 1);
    assert_eq!(dropped_in(&s.drops, "in"), 5);
    assert_eq!(dropped_in(&s.drops, "out"), 2);
    assert_eq!(dropped_in(&s.drops, "up"), 0);
}

#[test]
fn a_scrape_is_one_line_for_each_sample() {
    let mut m = Metrics::new();
    record_packet(&mut m, Some((0, 1)), "Say");
    record_packet(&mut m, Some((0, 1)), "Say");
    record_bytes_in(&mut m, None, 12);
    record_http(&mut m, "/api/v1/room", "GET", 200, 10, 20);
    let text = prometheus(&live(), &m, &Ledger::new(), &sample());
    assert!(text.contains("# TYPE pahoa_clients_connected gauge\npahoa_clients_connected 2\n"), "{text}");
    assert!(text.contains("process_cpu_seconds_total 1.5"), "{text}");
    for line in text.lines() {
        assert!(line.starts_with('#') || line.contains(' '), "{line}");
    }
    assert!(text.ends_with('\n'));
}

#[test]
fn labels_are_escaped_and_cut() {
    assert_eq!(label("a\"b\\c\nd"), "a\\\"b\\\\c\\nd");
    assert_eq!(label(&"x".repeat(200)).chars().count(), 128);
}

#[test]
fn paths_have_places() {
    assert_eq!(place("/healthz"), Place::Health);
    assert_eq!(place("/api/v1/room"), Place::Room);
    assert_eq!(place("/admin/v1/slots/3/filter"), Place::Filter(Some(3)));
    assert_eq!(place("/admin/v1/slots/3/password"), Place::Password(3));
    assert_eq!(place("/admin/v1/slots/x/password"), Place::Nowhere);
    assert_eq!(slot_password_path("/admin/v1/slots/12/password"), Some(12));
    assert_eq!(place("/nowhere"), Place::Nowhere);
    assert_eq!(slot_password_path("/api/v1/room"), None);
    assert_eq!(target("POST", Place::Room), Target::WrongMethod);
    assert_eq!(target("GET", Place::Room), Target::Room);
    assert_eq!(target("GET", Place::Nowhere), Target::NotFound);
    assert_eq!(target("DELETE", Place::Filter(None)), Target::Filter(None, FilterMethod::Delete));
}

fn routed(method: &str, path: &str, token: Option<&str>, body: &str, admin: &mut Option<Admin>) -> Action {
    route(method, path, token, body.as_bytes(), admin, false, them(), NOW, &mut Metrics::new())
}

#[test]
fn routes_are_gated_by_the_token() {
    let mut none = None;
    let mut some = Some(admin());
    let bearer = Some("Bearer quiet-harbor-ledger");
    assert!(matches!(routed("GET", "/api/v1/room", None, "", &mut none), Action::Room));
    assert!(matches!(routed("GET", "/admin/v1/status", bearer, "", &mut some), Action::Status));
    match routed("GET", "/admin/v1/status", bearer, "", &mut none) {
        Action::Answer(r) => assert_eq!(r.status, 404),
        other => panic!("{other:?}"),
    }
    match routed("GET", "/admin/v1/status", None, "", &mut some) {
        Action::Answer(r) => assert_eq!(r.status, 401),
        other => panic!("{other:?}"),
    }
    match routed("POST", "/admin/v1/command", bearer, r#"{"command":"status"}"#, &mut some) {
        Action::Command(c) => assert_eq!(c, AdminCommand::Status),
        other => panic!("{other:?}"),
    }
    match routed("POST", "/admin/v1/command", bearer, "{}", &mut some) {
        Action::Answer(r) => assert_eq!(r.status, 400),
        other => panic!("{other:?}"),
    }
    match routed("GET", "/nope", None, "", &mut some) {
        Action::Answer(r) => assert_eq!(r.status, 404),
        other => panic!("{other:?}"),
    }
    // The tracker needs the token where there is one.
    assert!(matches!(routed("GET", "/api/tracker", None, "", &mut none), Action::Tracker));
    assert!(matches!(routed("GET", "/api/tracker", bearer, "", &mut some), Action::Tracker));
    match routed("GET", "/api/tracker", None, "", &mut some) {
        Action::Answer(r) => assert_eq!(r.status, 401),
        other => panic!("{other:?}"),
    }
}

#[test]
fn templates_hide_what_varies() {
    assert_eq!(template("/api/v1/room"), "/api/v1/room");
    assert_eq!(template("/admin/v1/slots/7/filter"), "/admin/v1/slots/{slot}/filter");
    assert_eq!(template("/whatever/1"), "other");
}

#[test]
fn answers_say_what_became_of_the_request() {
    let outcome = AdminOutcome {
        ok: true,
        output: vec!["done".to_string()],
        affected_slots: vec![1, 2],
    };
    let r = command(Some(&outcome));
    assert_eq!(body(&r), r#"{"ok":true,"output":["done"],"affected_slots":[1,2]}"#);
    assert_eq!(command(None), stopping());
    assert_eq!(body(&set_slot_password(3, Some(true))), r#"{"ok":true,"team":0,"slot":3}"#);
    assert_eq!(set_slot_password(3, Some(false)).status, 404);
    assert_eq!(body(&filter_unknown(3)), r#"{"error":"there is no slot 3 in this seed"}"#);
    assert_eq!(
        body(&filter(None, Value::Null, Value::Array(vec![]), false, Some(2))),
        r#"{"rules":null,"effective":[],"inherited":false,"removed":2}"#
    );
    assert_eq!(filter_misspelled("no rule").status, 400);
    assert_eq!(filter_want(FilterMethod::Patch, true), FilterWant::Merge);
    assert_eq!(filter_want(FilterMethod::Delete, true), FilterWant::Remove);
    assert_eq!(filter_want(FilterMethod::Delete, false), FilterWant::Clear);
    assert_eq!(shutdown().status, 202);
    let m = Metrics::new();
    assert_eq!(status(&seed(), None, &m, &Ledger::new(), &sample()), stopping());
    assert_eq!(metrics(None, &m, &Ledger::new(), &sample()), stopping());
    assert_eq!(status(&seed(), Some(&live()), &m, &Ledger::new(), &sample()).status, 200);
    assert_eq!(metrics(Some(&live()), &m, &Ledger::new(), &sample()).status, 200);
}

#[test]
fn the_public_document_shows_the_slots() {
    let running = Live { clients_connected: 4, password_required: true };
    assert_eq!(
        body(&room(&seed(), Some(running), 0)),
        concat_lines(&[
            r#"{"seed_name":"S1","pahoa_version":"0.1.0","api_version":1,"#,
            r#""started_at":"1970-01-01T00:00:00Z","password":true,"clients_connected":4,"#,
            r#""slots":[{"team":0,"slot":1,"name":"Troy","game":"G","total_checks":1}]}"#,
        ])
    );
    assert!(body(&room(&seed(), None, 0)).contains(r#""password":null,"clients_connected":null"#));
}

fn concat_lines(parts: &[&str]) -> String {
    parts.concat()
}
