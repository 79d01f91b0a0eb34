use pahoa::net::config::{
    cgroup_cpu_quota, cgroup_memory_limit, detect_worker_threads, outbound_budget_for,
    per_connection_budget_for, shard_queue_bytes, shard_queue_depth_for, shards_for,
    DeflateConfig, NetConfig, DEFAULT_SHARD_QUEUE_DEPTH, MAX_SHARDS, MAX_SHARD_QUEUE_DEPTH,
};

#[test]
fn worker_threads_stay_within_the_clamp() {
    for quota in [None, Some(0), Some(1), Some(4), Some(400)] {
        for host in [0usize, 1, 8, 256] {
            let n = detect_worker_threads(quota, host);
            assert!((2..=32).contains(&n), "got {n}");
        }
    }
    assert_eq!(detect_worker_threads(Some(6), 64), 6);
    assert_eq!(detect_worker_threads(None, 12), 12);
}

#[test]
fn shards_default_to_the_worker_count_and_are_never_zero() {
    let detected = detect_worker_threads(None, 8);
    let cfg = NetConfig::default();
    assert_eq!(cfg.shards_resolved(detected), cfg.worker_threads_resolved(detected));

    let explicit = NetConfig {
        shards: Some(0),
        ..Default::default()
    };
    assert_eq!(explicit.shards_resolved(detected), 1, "zero shards would drop every broadcast");
}

#[test]
fn the_queue_depth_falls_back_to_the_constant_and_is_never_zero() {
    let cfg = NetConfig::default();
    assert_eq!(cfg.shard_queue_depth_resolved(), DEFAULT_SHARD_QUEUE_DEPTH);

    let explicit = NetConfig {
        shard_queue_depth: Some(0),
        ..Default::default()
    };
    assert_eq!(
        explicit.shard_queue_depth_resolved(),
        1,
        "a zero-capacity channel refuses every send, so every broadcast \
         would overflow and close the room"
    );
}

#[test]
fn the_fan_out_bounds_what_one_dropped_broadcast_can_close() {
    for slots in [500usize, 2000, 6000] {
        let shards = shards_for(slots);
        let blast = slots * 3 / shards;
        assert!(
            blast <= 600,
            "{slots} slots across {shards} shards puts {blast} connections \
             behind one queue"
        );
    }

    // Small rooms keep some parallelism without paying for shards they
    // cannot fill, and nothing exceeds the documented ceiling.
    assert_eq!(shards_for(0), 2);
    assert_eq!(shards_for(4), 2);
    assert_eq!(shards_for(usize::MAX), MAX_SHARDS);
}

#[test]
fn the_default_path_derives_a_depth_rather_than_landing_on_the_floor() {
    for slots in [500usize, 1000, 2000, 6000] {
        let depth = shard_queue_depth_for(slots, shards_for(slots));
        assert!(
            depth > DEFAULT_SHARD_QUEUE_DEPTH,
            "{slots} slots defaulted to the floor, so the derivation did \
             nothing: {depth}"
        );
    }

    // A room small enough that the floor is genuinely the right answer
    // still gets it, and that is not the same failure.
    assert_eq!(shard_queue_depth_for(4, shards_for(4)), DEFAULT_SHARD_QUEUE_DEPTH);
}

#[test]
fn the_broadcast_headroom_does_not_fall_as_the_fan_out_widens() {
    const SLOTS: usize = 2000;
    // Sixteen concurrent releases at one broadcast per receiver slot.
    let needed = SLOTS * 16;
    for shards in 1..=MAX_SHARDS {
        let depth = shard_queue_depth_for(SLOTS, shards);
        assert!(
            depth >= needed,
            "at {shards} shards a {SLOTS}-slot room holds {depth} broadcasts, \
             under the {needed} a release tail needs"
        );
    }
}

#[test]
fn a_fan_out_pinned_narrow_is_sized_for_the_reconnect_storm() {
    let narrow = shard_queue_depth_for(2000, 1);
    assert!(
        narrow > 2000 * 16,
        "one shard owning 6000 connections needs more than the release \
         tail alone: {narrow}"
    );

    assert!(
        shard_queue_depth_for(2000, 2) >= 2000 * 3 / 2,
        "a shard must be able to hold at least one message per connection it owns"
    );

    // A small room stays exactly where it has always been.
    assert_eq!(shard_queue_depth_for(4, 2), DEFAULT_SHARD_QUEUE_DEPTH);
    assert_eq!(
        shard_queue_depth_for(usize::MAX, 1),
        MAX_SHARD_QUEUE_DEPTH,
        "the ceiling binds rather than overflowing"
    );
}

#[test]
fn the_shard_inboxes_cost_a_bounded_amount_at_every_reachable_sizing() {
    // Nothing reachable through the flags exceeds the corner.
    let ceiling = shard_queue_bytes(MAX_SHARDS, MAX_SHARD_QUEUE_DEPTH);
    assert!(
        ceiling <= 160 * 1024 * 1024,
        "the worst case an operator can ask for is {ceiling} bytes"
    );

    for slots in [4usize, 500, 2000, 6000] {
        let shards = shards_for(slots);
        let bytes = shard_queue_bytes(shards, shard_queue_depth_for(slots, shards));
        assert!(
            bytes <= ceiling,
            "{slots} slots reserve {bytes} bytes, past the documented corner"
        );
    }

    let small = shard_queue_bytes(shards_for(4), shard_queue_depth_for(4, shards_for(4)));
    assert!(small < 1024 * 1024, "a four-slot room reserves {small} bytes");

    assert_eq!(shard_queue_bytes(usize::MAX, usize::MAX), usize::MAX);
}

#[test]
fn the_budget_follows_the_seed_and_never_drops_below_the_floor() {
    let floor = 64 * 1024 * 1024;
    assert_eq!(outbound_budget_for(4), floor);
    assert_eq!(outbound_budget_for(0), floor);

    // The design target.
    let big = outbound_budget_for(2000);
    assert!(
        (512 * 1024 * 1024..=1024 * 1024 * 1024).contains(&big),
        "2000 slots gave {big} bytes"
    );

    // And it must stay under what the per-connection caps alone would
    // allow, or the global cap stops being a backstop.
    let cfg = NetConfig::default();
    let individually = 2000 * 3 * cfg.per_connection_budget_bytes;
    assert!(big < individually, "{big} vs {individually}");
}

#[test]
fn a_huge_slot_count_does_not_overflow_the_budget() {
    assert!(outbound_budget_for(usize::MAX) > 0);
}

#[test]
fn per_connection_budget_is_small_enough_to_scale() {
    let cfg = NetConfig::default();
    let worst_case = cfg.per_connection_budget_bytes * 6000;
    assert!(
        worst_case <= 4 * 1024 * 1024 * 1024,
        "per-connection budget implies {worst_case} bytes at 6000 connections"
    );
}

#[test]
fn exact_sizes() {
    assert_eq!(outbound_budget_for(2000), 2000 * 3 * 96 * 1024);
    assert_eq!(per_connection_budget_for(10), 256 * 1024);
    assert_eq!(per_connection_budget_for(6_193_114), 6_193_114);
    assert_eq!(shards_for(2000), 12);
    assert_eq!(shard_queue_depth_for(2000, 12), 32_000);
    assert_eq!(shard_queue_depth_for(2000, 1), 48_000);
    assert_eq!(NetConfig::default().writer_queue_depth(), 4096);
    let accept = NetConfig::default().accept_config();
    assert_eq!(accept.timeout_ms, 30_000);
    assert_eq!(accept.deflate, DeflateConfig::default());
}

/// What two texts come to when they are read as doubles and divided.
fn quotient(a: &str, b: &str) -> Option<u64> {
    let (a, b): (f64, f64) = (a.parse().ok()?, b.parse().ok()?);
    if b > 0.0 {
        Some((a / b).to_bits())
    } else {
        None
    }
}

#[test]
fn a_cpu_quota_need_not_be_a_small_whole_number() {
    let v2 = |text: &str| cgroup_cpu_quota(&Some(text.to_string()), &None, &None, quotient);
    let in_doubles = |q: f64, p: f64| Some((q / p).ceil().max(1.0) as usize);
    for (text, q, p) in [
        ("1.5e5 1e5", 1.5e5, 1e5),
        ("0 100000", 0.0, 100_000.0),
        ("1 0.5", 1.0, 0.5),
        ("-5 100000", -5.0, 100_000.0),
        ("nan 1", f64::NAN, 1.0),
        ("inf 100000", f64::INFINITY, 100_000.0),
        ("-inf 1", f64::NEG_INFINITY, 1.0),
        ("9007199254740993 2", 9_007_199_254_740_993.0, 2.0),
        ("9007199254740991 4503599627370496", 9_007_199_254_740_991.0, 4_503_599_627_370_496.0),
        ("18446744073709551616 1", 18_446_744_073_709_551_616.0, 1.0),
        ("1e300 1e-300", 1e300, 1e-300),
    ] {
        assert_eq!(v2(text), in_doubles(q, p), "{text}");
    }
    for text in ["5 -1", "5 0", "5 0.0", "5 nan", "five 1", "5 one", "5", ""] {
        assert_eq!(v2(text), None, "{text}");
    }
    let wide = Some(i64::MAX.to_string());
    let period = Some("3".to_string());
    let got = cgroup_cpu_quota(&None, &wide, &period, quotient);
    assert_eq!(got, in_doubles(i64::MAX as f64, 3.0));
}

#[test]
fn a_cpu_quota_is_rounded_up() {
    let file = |s: &str| Some(s.to_string());
    assert_eq!(cgroup_cpu_quota(&file("150000 100000\n"), &None, &None, quotient), Some(2));
    assert_eq!(cgroup_cpu_quota(&file("200000 100000\n"), &None, &None, quotient), Some(2));
    assert_eq!(cgroup_cpu_quota(&file("max 100000\n"), &None, &None, quotient), None);
    assert_eq!(cgroup_cpu_quota(&None, &file("250000\n"), &file("100000\n"), quotient), Some(3));
    assert_eq!(cgroup_cpu_quota(&None, &file("-1\n"), &file("100000\n"), quotient), None);
    assert_eq!(cgroup_cpu_quota(&None, &None, &None, quotient), None);
}

#[test]
fn a_memory_limit_comes_from_either_hierarchy() {
    let file = |s: &str| Some(s.to_string());
    assert_eq!(cgroup_memory_limit(&file("1073741824\n"), &None), Some(1_073_741_824));
    assert_eq!(cgroup_memory_limit(&file("max\n"), &None), None);
    assert_eq!(cgroup_memory_limit(&None, &file("536870912\n")), Some(536_870_912));
    assert_eq!(cgroup_memory_limit(&None, &None), None);
}
