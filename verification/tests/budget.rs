use pahoa::net::budget::{peak_bytes, queued_bytes, Budget, ConnBudget, Ledger, Refused, STALL_DEADLINE_MS};
use pahoa::net::config::per_connection_budget_for;

/// A moment well after the process began.
const NOW: u64 = 10_000_000;

fn conn() -> ConnBudget {
    ConnBudget::new(NOW)
}

#[test]
fn one_message_larger_than_the_share_is_still_deliverable() {
    let mut ledger = Ledger::new();
    let budget = Budget::new(1 << 20, 1024);
    let mut conn = conn();

    assert!(
        budget.reserve(&mut ledger, &mut conn, 4096, NOW),
        "an idle connection must be able to make progress on any one message"
    );

    // And it must not lock out what queues up behind it: the oversize
    // message is not counted against the share for later admissions.
    assert!(budget.reserve(&mut ledger, &mut conn, 512, NOW));
    assert!(budget.reserve(&mut ledger, &mut conn, 512, NOW));
    assert!(!budget.reserve(&mut ledger, &mut conn, 1, NOW), "the share itself still applies");
}

#[test]
fn the_oversize_allowance_is_cleared_by_the_message_that_claimed_it() {
    let mut ledger = Ledger::new();
    let budget = Budget::new(1 << 20, 1024);
    let mut conn = conn();

    assert!(budget.reserve(&mut ledger, &mut conn, 4096, NOW));
    Budget::release(&mut ledger, &mut conn, 4096, NOW);
    assert_eq!(conn.queued, 0);
    assert_eq!(conn.oversize, 0);

    // Back to an ordinary share, with no leftover allowance.
    assert!(budget.reserve(&mut ledger, &mut conn, 1024, NOW));
    assert!(!budget.reserve(&mut ledger, &mut conn, 1, NOW));
}

#[test]
fn only_a_connection_at_its_share_is_refused_the_oversize_allowance() {
    let mut ledger = Ledger::new();
    let budget = Budget::new(1 << 20, 1024);

    // Mid-drain: a little queued, nowhere near the share.
    let mut draining = conn();
    assert!(budget.reserve(&mut ledger, &mut draining, 512, NOW));
    assert!(
        budget.reserve(&mut ledger, &mut draining, 4096, NOW),
        "a connection with room left in its share is not behind"
    );

    // Genuinely behind: nothing of its share remains.
    let mut stalled = conn();
    assert!(budget.reserve(&mut ledger, &mut stalled, 1024, NOW));
    assert!(
        !budget.reserve(&mut ledger, &mut stalled, 4096, NOW),
        "a connection that has used its whole share must still be refused"
    );
}

#[test]
fn pipelined_large_payloads_are_all_admitted() {
    let mut ledger = Ledger::new();
    let budget = Budget::new(64 << 20, 256 * 1024);
    let mut conn = conn();

    assert!(budget.reserve(&mut ledger, &mut conn, 9_058, NOW), "RoomInfo");
    assert!(budget.reserve(&mut ledger, &mut conn, 400_000, NOW), "first data package");
    assert!(
        budget.reserve(&mut ledger, &mut conn, 380_000, NOW),
        "a second data package, requested before the first drained"
    );
    assert!(
        budget.reserve(&mut ledger, &mut conn, 6_193_114, NOW),
        "and the whole-room package"
    );
}

#[test]
fn a_client_draining_everything_is_never_refused_behind_a_large_payload() {
    let mut ledger = Ledger::new();
    let budget = Budget::new(64 << 20, 256 * 1024);
    let mut conn = conn();

    // Still on the wire for the whole test, which is the point: a big
    // write takes time, and the feed does not stop while it happens.
    assert!(budget.reserve(&mut ledger, &mut conn, 340_000, NOW), "the data package");

    for frame in 0..1_000 {
        assert!(
            budget.reserve(&mut ledger, &mut conn, 4_000, NOW),
            "feed frame {frame} refused after {} bytes, every one of which \
             this client had already drained",
            frame * 4_000
        );
        Budget::release(&mut ledger, &mut conn, 4_000, NOW);
    }

    // Once the payload drains, the connection is back to an ordinary share.
    Budget::release(&mut ledger, &mut conn, 340_000, NOW);
    assert!(budget.reserve(&mut ledger, &mut conn, 262_144, NOW), "a full ordinary share");
    assert!(
        !budget.reserve(&mut ledger, &mut conn, 1, NOW),
        "the share must still cap ordinary traffic afterwards"
    );
}

#[test]
fn a_data_package_fetched_in_pieces_does_not_drop_the_client() {
    let mut ledger = Ledger::new();
    let share = per_connection_budget_for(6_193_114);
    let budget = Budget::new(128 << 20, share);
    let mut conn = conn();

    assert!(budget.reserve(&mut ledger, &mut conn, 9_058, NOW), "RoomInfo");
    const PIECE: usize = 24_000;
    assert!(PIECE < 256 * 1024, "the test must exercise the ordinary path, not the allowance");
    for piece in 0..14 {
        assert!(
            budget.reserve(&mut ledger, &mut conn, PIECE, NOW),
            "data-package piece {piece} refused; the client is dropped for \
             asking what games are in the room"
        );
    }

    // And uncompressed, which is what a client without deflate receives.
    let mut plain = ConnBudget::new(NOW);
    for piece in 0..14 {
        assert!(
            budget.reserve(&mut ledger, &mut plain, 442_000, NOW),
            "uncompressed data-package piece {piece} refused"
        );
    }
}

#[test]
fn a_new_connection_is_not_born_stalled() {
    let mut ledger = Ledger::new();
    let budget = Budget::new(64 << 20, 256 * 1024);
    let mut conn = conn();
    assert_eq!(conn.stalled_for(NOW), None, "nothing queued yet");

    assert!(budget.reserve(&mut ledger, &mut conn, 4_000, NOW));
    let stalled = conn.stalled_for(NOW).expect("now holding a backlog");
    assert!(
        stalled < 1_000,
        "a connection that has only just been created reports {stalled}ms of stall"
    );
}

#[test]
fn a_client_that_keeps_draining_is_never_judged_behind() {
    let mut ledger = Ledger::new();
    let budget = Budget::new(128 << 20, per_connection_budget_for(6_193_114));
    let mut conn = conn();

    for round in 0..200 {
        assert!(
            budget.reserve(&mut ledger, &mut conn, 442_000, NOW),
            "round {round}: refused a client that has drained everything"
        );
        Budget::release(&mut ledger, &mut conn, 442_000, NOW);
    }
    assert_eq!(conn.stalled_for(NOW), None);
}

#[test]
fn a_client_that_has_stopped_draining_is_refused_however_shallow_its_queue() {
    let mut ledger = Ledger::new();
    let budget = Budget::new(64 << 20, 8 << 20);
    let mut conn = conn();

    // A trivial backlog, far under any depth limit: depth is not the test.
    assert!(budget.reserve(&mut ledger, &mut conn, 100, NOW));
    let later = NOW + STALL_DEADLINE_MS + 1_000;

    let refused = budget
        .reserve_reported(&mut ledger, &mut conn, 100, later)
        .expect_err("a connection that has moved nothing must be refused");
    assert!(
        matches!(refused, Refused::Stalled { .. }),
        "refused for the wrong reason, so the log will mislead: {refused:?}"
    );
    assert_eq!(refused.as_text(), "it has not drained anything in two minutes");
}

#[test]
fn any_progress_clears_the_stall() {
    let mut ledger = Ledger::new();
    let budget = Budget::new(64 << 20, 8 << 20);
    let mut conn = conn();

    // Two frames, and only one drains: an empty queue is never stalled.
    assert!(budget.reserve(&mut ledger, &mut conn, 4_000, NOW));
    assert!(budget.reserve(&mut ledger, &mut conn, 4_000, NOW));
    let later = NOW + STALL_DEADLINE_MS + 1_000;
    assert!(budget.reserve_reported(&mut ledger, &mut conn, 100, later).is_err());

    // The writer completes one of them; the other is still queued.
    Budget::release(&mut ledger, &mut conn, 4_000, later);
    assert!(conn.stalled_for(later).is_some(), "still holding a backlog");
    assert!(
        budget.reserve(&mut ledger, &mut conn, 100, later),
        "a connection that just got bytes onto its socket is not stalled"
    );
}

#[test]
fn the_global_cap_still_stops_a_client_hoarding_large_payloads() {
    let mut ledger = Ledger::new();
    let budget = Budget::new(4 << 20, 256 * 1024);
    let mut conn = conn();

    let mut admitted = 0;
    for _ in 0..64 {
        if budget.reserve(&mut ledger, &mut conn, 1 << 20, NOW) {
            admitted += 1;
        }
    }
    assert_eq!(admitted, 4, "one connection took more than the room's whole budget");
}

#[test]
fn the_global_limit_still_binds_an_oversize_message() {
    let mut ledger = Ledger::new();
    let budget = Budget::new(2048, 1024);
    let mut conn = conn();

    assert!(
        !budget.reserve(&mut ledger, &mut conn, 4096, NOW),
        "the process-wide cap is not something one connection may exceed"
    );
    assert_eq!(queued_bytes(&ledger), 0, "a refused reservation must leave no trace");
}

#[test]
fn a_connection_is_capped_by_its_own_share() {
    let mut ledger = Ledger::new();
    let budget = Budget::new(1 << 20, 1024);
    let mut conn = conn();

    assert!(budget.reserve(&mut ledger, &mut conn, 512, NOW));
    assert!(budget.reserve(&mut ledger, &mut conn, 512, NOW));
    assert!(
        !budget.reserve(&mut ledger, &mut conn, 1, NOW),
        "past its share, this connection must be refused"
    );

    // And draining frees it up again.
    Budget::release(&mut ledger, &mut conn, 512, NOW);
    assert!(budget.reserve(&mut ledger, &mut conn, 512, NOW));
}

#[test]
fn the_global_ceiling_holds_even_when_each_connection_is_within_its_share() {
    let mut ledger = Ledger::new();
    // Ten connections each entitled to 1 KiB, but only 4 KiB in total.
    let budget = Budget::new(4096, 1024);
    let mut conns: Vec<ConnBudget> = (0..10).map(|_| conn()).collect();

    let mut accepted = 0;
    for conn in &mut conns {
        if budget.reserve(&mut ledger, conn, 1024, NOW) {
            accepted += 1;
        }
    }
    assert_eq!(accepted, 4, "the global cap should bind before the per-connection one");
    assert_eq!(queued_bytes(&ledger), 4096);
}

#[test]
fn a_refused_reservation_does_not_consume_budget() {
    let mut ledger = Ledger::new();
    let budget = Budget::new(1024, 1024);
    let mut first = conn();
    assert!(budget.reserve(&mut ledger, &mut first, 1024, NOW));
    assert!(!budget.reserve(&mut ledger, &mut conn(), 1, NOW));
    assert_eq!(queued_bytes(&ledger), 1024);
}

#[test]
fn releasing_a_frame_a_disconnect_already_reconciled_does_not_wrap() {
    let mut ledger = Ledger::new();
    let budget = Budget::new(1 << 20, 1 << 16);
    let mut conn = conn();

    assert!(budget.reserve(&mut ledger, &mut conn, 3570, NOW));
    assert_eq!(queued_bytes(&ledger), 3570);

    // The shard sees the disconnect and hands back everything outstanding.
    Budget::release_all(&mut ledger, &mut conn);
    assert_eq!(queued_bytes(&ledger), 0);

    // The writer releases the frame it had already popped: the same bytes again.
    Budget::release(&mut ledger, &mut conn, 3570, NOW);

    assert_eq!(
        queued_bytes(&ledger),
        0,
        "the global counter wrapped; every reservation in the room would now fail forever"
    );
}

#[test]
fn a_disconnect_after_the_writer_released_frees_nothing_twice() {
    let mut ledger = Ledger::new();
    let budget = Budget::new(1 << 20, 1 << 16);
    let mut conn = conn();

    assert!(budget.reserve(&mut ledger, &mut conn, 1024, NOW));
    assert!(budget.reserve(&mut ledger, &mut conn, 512, NOW));
    Budget::release(&mut ledger, &mut conn, 1024, NOW);
    assert_eq!(queued_bytes(&ledger), 512);

    Budget::release_all(&mut ledger, &mut conn);
    assert_eq!(queued_bytes(&ledger), 0, "only the undrained remainder should come back");
}

#[test]
fn a_release_never_frees_more_than_the_connection_holds() {
    let mut ledger = Ledger::new();
    let budget = Budget::new(1 << 20, 1 << 16);
    let mut conn = conn();

    assert!(budget.reserve(&mut ledger, &mut conn, 256, NOW));
    Budget::release(&mut ledger, &mut conn, 4096, NOW);
    assert_eq!(queued_bytes(&ledger), 0);

    // And a release against a connection holding nothing is a no-op.
    Budget::release(&mut ledger, &mut conn, 4096, NOW);
    assert_eq!(queued_bytes(&ledger), 0);
}

#[test]
fn a_disconnect_returns_what_it_was_holding() {
    let mut ledger = Ledger::new();
    let budget = Budget::new(1 << 20, 1 << 20);
    let mut conn = conn();
    budget.reserve(&mut ledger, &mut conn, 4096, NOW);
    Budget::release_all(&mut ledger, &mut conn);
    assert_eq!(queued_bytes(&ledger), 0, "a dropped connection must not leak budget");
}

#[test]
fn a_data_package_is_deliverable_behind_an_undrained_room_info() {
    let mut ledger = Ledger::new();
    let budget = Budget::new(64 << 20, 256 * 1024);
    let mut conn = conn();

    assert!(budget.reserve(&mut ledger, &mut conn, 2_000, NOW), "RoomInfo queues fine");
    assert!(
        budget.reserve(&mut ledger, &mut conn, 3_200_000, NOW),
        "the data package must reach a client that is not behind"
    );
}

#[test]
fn the_peak_outlives_the_drain() {
    let mut ledger = Ledger::new();
    let budget = Budget::new(1 << 20, 1 << 20);
    let mut conn = conn();
    assert!(budget.reserve(&mut ledger, &mut conn, 700, NOW));
    Budget::release_all(&mut ledger, &mut conn);
    assert!(budget.reserve(&mut ledger, &mut conn, 300, NOW));
    assert_eq!(queued_bytes(&ledger), 300);
    assert_eq!(peak_bytes(&ledger), 700);
}

#[test]
fn a_refusal_says_what_it_found() {
    let mut ledger = Ledger::new();
    let budget = Budget::new(2_000, 1_000);
    let mut one = conn();
    assert!(budget.reserve(&mut ledger, &mut one, 900, NOW));
    assert_eq!(
        budget.reserve_reported(&mut ledger, &mut one, 200, NOW),
        Err(Refused::Share { counted: 900, size: 200, share: 1_000 })
    );
    let mut other = conn();
    assert!(budget.reserve(&mut ledger, &mut other, 1_000, NOW));
    let mut third = conn();
    let refused = budget.reserve_reported(&mut ledger, &mut third, 101, NOW).unwrap_err();
    assert_eq!(refused, Refused::RoomBudget { queued: 1_900, size: 101, limit: 2_000 });
    assert_eq!(refused.as_text(), "the room is out of outbound budget");
}

#[test]
fn progress_restarts_the_stall_clock() {
    let mut ledger = Ledger::new();
    let budget = Budget::new(1 << 20, 1 << 20);
    let mut conn = conn();
    assert!(budget.reserve(&mut ledger, &mut conn, 10, NOW));
    assert_eq!(conn.stalled_for(NOW + 500), Some(500));
    conn.made_progress(NOW + 400);
    assert_eq!(conn.stalled_for(NOW + 500), Some(100));
    assert_eq!(conn.stalled_for(NOW), Some(0), "a clock that went back is no stall");
}
