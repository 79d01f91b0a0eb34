//! Laws of the metrics page: which number stands on it under which name.

use crate::net::budget::Ledger;
use crate::net::http::document::{rows_shown, shown_before};
use crate::net::http::exposition::{
    admin_series, bytes_line, checks_sum, connection_line, cpu_text, drop_line, early_bytes_line,
    early_frames_line, early_packet_line, early_sent_line, frames_line, header, http_text,
    hundredths, idle_series, incoming_text, label_text, lines, metric, named, net_series,
    outgoing_text, packet_line, possible_sum, process_text, produced_line, prometheus_text,
    redundant_line, request_line, resident_text, route_bytes, route_line, sample, save_series,
    saved_series, saving_text, section, sent_line, series_text, slot_labels, slot_series,
    spared_text, start_text, Series,
};
use crate::net::http::help;
use crate::net::http::status::{dropped, Sample, SlotStatus, Status};
use crate::net::http::time::{padded, whole_seconds};
use crate::net::metrics::{
    duration_shown, summary_text, Counters, Delivered, Exchange, Metrics, SlotKey,
};
use crate::table::{ascending, count_of, counting_is_separate};
use crate::text::dec;
use vstd::prelude::*;

verus! {

/// Whether a text stands somewhere in another.
#[verifier::opaque]
pub open spec fn has(text: Seq<char>, part: Seq<char>) -> bool {
    exists|i: int|
        0 <= i <= text.len() - part.len() && #[trigger] text.subrange(i, i + part.len()) == part
}

/// A line of the page with a name and a number, and the end of the line before it.
#[verifier::opaque]
pub open spec fn line_of(name: Seq<char>, value: nat) -> Seq<char> {
    seq!['\n'] + (name + (seq![' '] + (dec(value) + seq!['\n'])))
}

/// Labels as they stand between their brackets: the name, an equals sign and the quoted value of
/// each, and a comma between two.
pub open spec fn labels_of(labels: Seq<(Seq<char>, Seq<char>)>) -> Seq<char>
    decreases labels.len(),
{
    if labels.len() == 0 {
        Seq::empty()
    } else {
        let one = labels.last().0 + (seq!['=', '"'] + (labels.last().1 + seq!['"']));
        if labels.len() == 1 {
            one
        } else {
            labels_of(labels.drop_last()) + (seq![','] + one)
        }
    }
}

/// A line of the page with a name, labels and a number, and the end of the line before it.
#[verifier::opaque]
pub open spec fn labelled_line(
    name: Seq<char>,
    labels: Seq<(Seq<char>, Seq<char>)>,
    value: nat,
) -> Seq<char> {
    seq!['\n'] + (name + (seq!['{'] + (labels_of(labels) + (seq!['}', ' '] + (dec(value) + seq![
        '\n',
    ])))))
}

/// Whether a text is the page of a room.
#[verifier::opaque]
pub open spec fn is_page(page: Seq<char>, live: Status, m: Metrics, ledger: Ledger, at: Sample) -> bool {
    page == prometheus_text(live, m, ledger, at)
}

/// What stands in a text stands in any that holds it.
proof fn has_around(before: Seq<char>, text: Seq<char>, after: Seq<char>, part: Seq<char>)
    requires
        has(text, part),
    ensures
        has(before + text, part),
        has(text + after, part),
{
    reveal(has);
    let i = choose|i: int|
        0 <= i <= text.len() - part.len() && #[trigger] text.subrange(i, i + part.len()) == part;
    let n = before.len() as int;
    let j = n + i;
    assert((before + text).subrange(j, j + part.len()) =~= part) by {
        assert forall|k: int| 0 <= k < part.len() implies (before + text)[j + k] == part[k] by {
            assert(text.subrange(i, i + part.len())[k] == part[k]);
        }
    }
    assert((text + after).subrange(i, i + part.len()) =~= part) by {
        assert forall|k: int| 0 <= k < part.len() implies (text + after)[i + k] == part[k] by {
            assert(text.subrange(i, i + part.len())[k] == part[k]);
        }
    }
}

/// What stands between two texts stands in all of them.
proof fn has_between(before: Seq<char>, part: Seq<char>, after: Seq<char>)
    ensures
        has(before + (part + after), part),
{
    reveal(has);
    let t = before + (part + after);
    let i = before.len() as int;
    assert(t.subrange(i, i + part.len()) =~= part);
}

/// What stands in a part of the page stands on the page.
proof fn on_the_page(
    page: Seq<char>,
    live: Status,
    m: Metrics,
    ledger: Ledger,
    at: Sample,
    part: Seq<char>,
)
    requires
        is_page(page, live, m, ledger, at),
        has(series_text(net_series(live, m, ledger, at)), part) || has(
            series_text(idle_series(live, m, ledger, at)),
            part,
        ) || has(saving_text(live, m, ledger, at), part) || has(
            series_text(slot_series(live, m, ledger, at)),
            part,
        ) || has(series_text(admin_series(live, m, ledger, at)), part) || has(process_text(at), part)
            || has(incoming_text(live, m@), part) || has(outgoing_text(live, m@), part) || has(
            spared_text(live),
            part,
        ) || has(http_text(m@), part),
    ensures
        has(page, part),
{
    reveal(is_page);
    let a = series_text(net_series(live, m, ledger, at));
    let b = series_text(idle_series(live, m, ledger, at));
    let c = saving_text(live, m, ledger, at);
    let d = series_text(slot_series(live, m, ledger, at));
    let e = series_text(admin_series(live, m, ledger, at));
    let f = process_text(at);
    let g = incoming_text(live, m@);
    let h = outgoing_text(live, m@);
    let i = spared_text(live);
    let j = http_text(m@);
    one_of_two(a, b, part);
    one_of_two(a + b, c, part);
    one_of_two(a + b + c, d, part);
    one_of_two(a + b + c + d, e, part);
    one_of_two(a + b + c + d + e, f, part);
    one_of_two(a + b + c + d + e + f, g, part);
    one_of_two(a + b + c + d + e + f + g, h, part);
    one_of_two(a + b + c + d + e + f + g + h, i, part);
    one_of_two(a + b + c + d + e + f + g + h + i, j, part);
}

proof fn one_of_two(a: Seq<char>, b: Seq<char>, part: Seq<char>)
    ensures
        has(a, part) || has(b, part) ==> has(a + b, part),
{
    if has(a, part) {
        has_around(Seq::empty(), a, b, part);
    }
    if has(b, part) {
        has_around(a, b, Seq::empty(), part);
    }
}

/// A header ends its line.
proof fn header_ends(name: Seq<char>, help: Seq<char>, kind: Seq<char>) -> (front: Seq<char>)
    ensures
        header(name, help, kind) == front + seq!['\n'],
{
    reveal_strlit("\n");
    let front = "# HELP "@ + name + " "@ + help + "\n# TYPE "@ + name + " "@ + kind;
    assert("\n"@ =~= seq!['\n']);
    front
}

/// A series without labels has its line.
proof fn metric_has(s: Series)
    ensures
        has(metric(s), line_of(s.name@, s.value as nat)),
{
    reveal(line_of);
    let front = header_ends(s.name@, s.help@, s.kind@);
    let v = dec(s.value as nat);
    reveal_strlit(" ");
    reveal_strlit("\n");
    let tail = sample(s.name@, Seq::empty(), s.value);
    let line = line_of(s.name@, s.value as nat);
    assert(tail =~= s.name@ + (seq![' '] + (v + seq!['\n'])));
    assert(metric(s) =~= front + (line + Seq::<char>::empty()));
    has_between(front, line, Seq::empty());
}

/// Each of several series has its line.
proof fn series_have(s: Seq<Series>, i: int)
    requires
        0 <= i < s.len(),
    ensures
        has(series_text(s), line_of(s[i].name@, s[i].value as nat)),
    decreases s.len(),
{
    let line = line_of(s[i].name@, s[i].value as nat);
    if i == s.len() - 1 {
        metric_has(s[i]);
    } else {
        series_have(s.drop_last(), i);
    }
    one_of_two(series_text(s.drop_last()), metric(s.last()), line);
}

/// The page has a line for what is connected, queued and compressed, each with its own number.
pub proof fn the_page_shows_the_network(
    page: Seq<char>,
    live: Status,
    m: Metrics,
    ledger: Ledger,
    at: Sample,
)
    requires
        is_page(page, live, m, ledger, at),
    ensures
        ({
            &&& has(page, line_of("pahoa_clients_connected"@, live.clients_connected as nat))
            &&& has(page, line_of("pahoa_mailbox_depth"@, m.depth as nat))
            &&& has(page, line_of("pahoa_mailbox_peak"@, m.peak as nat))
            &&& has(page, line_of("pahoa_lag_disconnects_total"@, m.lagged as nat))
            &&& has(page, line_of("pahoa_shard_overflow_total"@, m.overflowed as nat))
            &&& has(page, line_of("pahoa_shard_sweeps_total"@, m.swept as nat))
            &&& has(page, line_of("pahoa_outbound_queued_bytes"@, ledger.queued as nat))
            &&& has(page, line_of("pahoa_outbound_peak_bytes"@, ledger.peak as nat))
            &&& has(page, line_of("pahoa_outbound_budget_bytes"@, at.outbound_budget_bytes as nat))
            &&& has(page, line_of("pahoa_compressions_total"@, at.compressions as nat))
        }),
{
    network_line(page, live, m, ledger, at, 0);
    network_line(page, live, m, ledger, at, 1);
    network_line(page, live, m, ledger, at, 2);
    network_line(page, live, m, ledger, at, 3);
    network_line(page, live, m, ledger, at, 4);
    network_line(page, live, m, ledger, at, 5);
    network_line(page, live, m, ledger, at, 6);
    network_line(page, live, m, ledger, at, 7);
    network_line(page, live, m, ledger, at, 8);
    network_line(page, live, m, ledger, at, 9);
}

/// What is said of the network is on the page.
proof fn network_line(
    page: Seq<char>,
    live: Status,
    m: Metrics,
    ledger: Ledger,
    at: Sample,
    k: int,
)
    requires
        is_page(page, live, m, ledger, at),
        0 <= k < 10,
    ensures
        has(
            page,
            line_of(
                net_series(live, m, ledger, at)[k].name@,
                net_series(live, m, ledger, at)[k].value as nat,
            ),
        ),
{
    let s = net_series(live, m, ledger, at);
    series_have(s, k);
    on_the_page(page, live, m, ledger, at, line_of(s[k].name@, s[k].value as nat));
}

/// The page has a line for who was turned away, each with its own number.
pub proof fn the_page_shows_who_was_turned_away(
    page: Seq<char>,
    live: Status,
    m: Metrics,
    ledger: Ledger,
    at: Sample,
)
    requires
        is_page(page, live, m, ledger, at),
    ensures
        ({
            &&& has(page, line_of("pahoa_admin_auth_failures_total"@, m.unauthorized as nat))
            &&& has(page, line_of("pahoa_admin_auth_rate_limited_total"@, m.limited as nat))
            &&& has(page, line_of("pahoa_http_malformed_total"@, m.malformed as nat))
        }),
{
    let s = admin_series(live, m, ledger, at);
    series_have(s, 0);
    on_the_page(page, live, m, ledger, at, line_of("pahoa_admin_auth_failures_total"@, m.unauthorized as nat));
    series_have(s, 1);
    on_the_page(page, live, m, ledger, at, line_of("pahoa_admin_auth_rate_limited_total"@, m.limited as nat));
    series_have(s, 2);
    on_the_page(page, live, m, ledger, at, line_of("pahoa_http_malformed_total"@, m.malformed as nat));
}

/// The page says for how many seconds no client spoke and no slot checked a location: none where
/// it never was or lies ahead.
pub proof fn the_page_shows_how_long_nothing_happened(
    page: Seq<char>,
    live: Status,
    m: Metrics,
    ledger: Ledger,
    at: Sample,
)
    requires
        is_page(page, live, m, ledger, at),
    ensures
        ({
            let spoke = if 0 < m.message_at <= at.now {
                at.now - m.message_at
            } else {
                0
            };
            let checked = match live.last_check_at {
                Some(t) => if whole_seconds(t) <= at.now {
                    at.now - whole_seconds(t)
                } else {
                    0
                },
                None => 0,
            };
            &&& has(page, line_of("pahoa_idle_seconds"@, spoke as nat))
            &&& has(page, line_of("pahoa_check_idle_seconds"@, checked as nat))
        }),
{
    let s = idle_series(live, m, ledger, at);
    series_have(s, 0);
    series_have(s, 1);
    on_the_page(page, live, m, ledger, at, line_of(s[0].name@, s[0].value as nat));
    on_the_page(page, live, m, ledger, at, line_of(s[1].name@, s[1].value as nat));
}

/// The page of a room that is saved says of the last save its bytes, its time in microseconds and
/// when it was, and whether anything has changed since.
pub proof fn the_page_shows_the_last_save(
    page: Seq<char>,
    live: Status,
    m: Metrics,
    ledger: Ledger,
    at: Sample,
)
    requires
        is_page(page, live, m, ledger, at),
        live.saving,
    ensures
        ({
            &&& has(page, line_of("pahoa_save_bytes"@, m.save_bytes as nat))
            &&& has(page, line_of("pahoa_save_duration_microseconds"@, m.save_micros as nat))
            &&& live.save_dirty ==> has(page, line_of("pahoa_save_dirty"@, 1))
            &&& !live.save_dirty ==> has(page, line_of("pahoa_save_dirty"@, 0))
            &&& m.save_at > 0 ==> has(
                page,
                line_of("pahoa_last_save_timestamp_seconds"@, m.save_at as nat),
            )
        }),
{
    let s = save_series(live, m, ledger, at);
    let t = saved_series(m);
    let a = series_text(s);
    let b = series_text(t);
    series_have(s, 0);
    series_have(s, 1);
    series_have(s, 2);
    one_of_two(a, b, line_of(s[0].name@, s[0].value as nat));
    one_of_two(a, b, line_of(s[1].name@, s[1].value as nat));
    one_of_two(a, b, line_of(s[2].name@, s[2].value as nat));
    on_the_page(page, live, m, ledger, at, line_of(s[0].name@, s[0].value as nat));
    on_the_page(page, live, m, ledger, at, line_of(s[1].name@, s[1].value as nat));
    on_the_page(page, live, m, ledger, at, line_of(s[2].name@, s[2].value as nat));
    if m.save_at > 0 {
        series_have(t, 0);
        one_of_two(a, b, line_of(t[0].name@, t[0].value as nat));
        on_the_page(page, live, m, ledger, at, line_of(t[0].name@, t[0].value as nat));
    }
}

/// The page says how many slots there are, how many have a connection, are locked and are
/// filtered, and what filters dropped of what slots sent and of what they were sent.
pub proof fn the_page_counts_the_slots(
    page: Seq<char>,
    live: Status,
    m: Metrics,
    ledger: Ledger,
    at: Sample,
)
    requires
        is_page(page, live, m, ledger, at),
    ensures
        ({
            let all = live.slots@;
            let n = all.len() as int;
            &&& has(page, line_of("pahoa_slots"@, all.len()))
            &&& has(
                page,
                line_of(
                    "pahoa_slots_connected"@,
                    shown_before(all, |s: SlotStatus| s.connections > 0, n),
                ),
            )
            &&& has(
                page,
                line_of("pahoa_slots_locked"@, shown_before(all, |s: SlotStatus| s.locked, n)),
            )
            &&& has(
                page,
                line_of("pahoa_slots_filtered"@, shown_before(all, |s: SlotStatus| s.filtered, n)),
            )
            &&& has(
                page,
                line_of(
                    "pahoa_filtered_from_slots_total"@,
                    dropped(live.drops.deep_view(), "from_slot"@) as nat,
                ),
            )
            &&& has(
                page,
                line_of(
                    "pahoa_filtered_to_slots_total"@,
                    dropped(live.drops.deep_view(), "to_slot"@) as nat,
                ),
            )
        }),
{
    let s = slot_series(live, m, ledger, at);
    let slots = live.slots@;
    let p = |s: SlotStatus| s.connections > 0;
    let q = |s: SlotStatus| s.locked;
    let r = |s: SlotStatus| s.filtered;
    rows_shown(slots, p);
    rows_shown(slots, q);
    rows_shown(slots, r);
    shown_at_most(slots, p, slots.len() as int);
    shown_at_most(slots, q, slots.len() as int);
    shown_at_most(slots, r, slots.len() as int);
    lengths_are_words(live);
    slots_line(page, live, m, ledger, at, 0);
    slots_line(page, live, m, ledger, at, 1);
    slots_line(page, live, m, ledger, at, 2);
    slots_line(page, live, m, ledger, at, 3);
    slots_line(page, live, m, ledger, at, 4);
    slots_line(page, live, m, ledger, at, 5);
    assert(s[0].name@ == "pahoa_slots"@ && s[0].value as nat == slots.len());
    assert(s[1].name@ == "pahoa_slots_connected"@ && s[1].value as nat == slots.filter(p).len());
    assert(s[2].name@ == "pahoa_slots_locked"@ && s[2].value as nat == slots.filter(q).len());
    assert(s[3].name@ == "pahoa_slots_filtered"@ && s[3].value as nat == slots.filter(r).len());
    assert(has(page, line_of("pahoa_slots"@, slots.len())));
    assert(has(page, line_of("pahoa_slots_connected"@, slots.filter(p).len())));
    assert(has(page, line_of("pahoa_slots_locked"@, slots.filter(q).len())));
    assert(has(page, line_of("pahoa_slots_filtered"@, slots.filter(r).len())));
}

/// What is said of the slots is on the page.
proof fn slots_line(
    page: Seq<char>,
    live: Status,
    m: Metrics,
    ledger: Ledger,
    at: Sample,
    k: int,
)
    requires
        is_page(page, live, m, ledger, at),
        0 <= k < 8,
    ensures
        has(
            page,
            line_of(
                slot_series(live, m, ledger, at)[k].name@,
                slot_series(live, m, ledger, at)[k].value as nat,
            ),
        ),
{
    let s = slot_series(live, m, ledger, at);
    series_have(s, k);
    on_the_page(page, live, m, ledger, at, line_of(s[k].name@, s[k].value as nat));
}

proof fn shown_at_most<T>(rows: Seq<T>, kept: spec_fn(T) -> bool, i: int)
    requires
        0 <= i,
    ensures
        shown_before(rows, kept, i) <= i,
    decreases i,
{
    if i > 0 {
        shown_at_most(rows, kept, i - 1);
    }
}

/// A list has at most as many items as a word can count.
proof fn lengths_are_words(live: Status)
    ensures
        live.slots@.len() <= usize::MAX,
{
    assert(live.slots.len() == live.slots@.len());
}

/// The page adds up the checks of the slots and the locations that they have; one more slot adds
/// its own to each.
pub proof fn the_page_adds_up_the_checks(
    page: Seq<char>,
    live: Status,
    m: Metrics,
    ledger: Ledger,
    at: Sample,
    slots: Seq<SlotStatus>,
    more: SlotStatus,
)
    requires
        is_page(page, live, m, ledger, at),
        checks_sum(slots, slots.len()) + more.checks <= u64::MAX,
        possible_sum(slots, slots.len()) + more.total_checks <= u64::MAX,
    ensures
        has(
            page,
            line_of("pahoa_checks_total"@, checks_sum(live.slots@, live.slots@.len()) as nat),
        ),
        has(
            page,
            line_of("pahoa_checks_possible"@, possible_sum(live.slots@, live.slots@.len()) as nat),
        ),
        checks_sum(slots.push(more), (slots.len() + 1) as nat) == checks_sum(slots, slots.len())
            + more.checks,
        possible_sum(slots.push(more), (slots.len() + 1) as nat) == possible_sum(slots, slots.len())
            + more.total_checks,
        checks_sum(slots, 0) == 0 && possible_sum(slots, 0) == 0,
{
    let s = slot_series(live, m, ledger, at);
    series_have(s, 6);
    series_have(s, 7);
    on_the_page(page, live, m, ledger, at, line_of(s[6].name@, s[6].value as nat));
    on_the_page(page, live, m, ledger, at, line_of(s[7].name@, s[7].value as nat));
    sums_of_the_first(slots, more, slots.len());
}

proof fn sums_of_the_first(slots: Seq<SlotStatus>, more: SlotStatus, n: nat)
    requires
        n <= slots.len(),
    ensures
        checks_sum(slots.push(more), n) == checks_sum(slots, n),
        possible_sum(slots.push(more), n) == possible_sum(slots, n),
    decreases n,
{
    if n > 0 {
        sums_of_the_first(slots, more, (n - 1) as nat);
    }
}

/// Whether a text is empty or ends its line.
spec fn ends(s: Seq<char>) -> bool {
    s.len() == 0 || s.last() == '\n'
}

/// Each row has its line behind what ends the line before it.
proof fn rows_have<R>(front: Seq<char>, rows: Seq<R>, line: spec_fn(R) -> Seq<char>, i: int)
    requires
        front.len() > 0,
        front.last() == '\n',
        0 <= i < rows.len(),
        forall|r: R| ends(#[trigger] line(r)),
        line(rows[i]).len() > 0,
    ensures
        has(front + lines(rows, line), seq!['\n'] + line(rows[i])),
    decreases rows.len(),
{
    let init = lines(rows.drop_last(), line);
    let last = line(rows.last());
    assert(front + lines(rows, line) =~= (front + init) + last);
    if i == rows.len() - 1 {
        lines_end(rows.drop_last(), line);
        let before = front + init;
        assert(before.last() == '\n') by {
            if init.len() > 0 {
                assert(before.last() == init.last());
            } else {
                assert(before =~= front);
            }
        }
        let b = before.drop_last();
        assert(before + last =~= b + ((seq!['\n'] + last) + Seq::<char>::empty()));
        has_between(b, seq!['\n'] + last, Seq::empty());
    } else {
        rows_have(front, rows.drop_last(), line, i);
        one_of_two(front + init, last, seq!['\n'] + line(rows[i]));
    }
}

proof fn lines_end<R>(rows: Seq<R>, line: spec_fn(R) -> Seq<char>)
    requires
        forall|r: R| ends(#[trigger] line(r)),
    ensures
        ends(lines(rows, line)),
    decreases rows.len(),
{
    if rows.len() > 0 {
        lines_end(rows.drop_last(), line);
        let last = line(rows.last());
        assert(ends(last));
        let all = lines(rows.drop_last(), line) + last;
        if last.len() > 0 {
            assert(all.last() == last.last());
        } else {
            assert(all =~= lines(rows.drop_last(), line));
        }
    }
}

/// A row of a section has its line in it.
proof fn section_has<R>(
    name: Seq<char>,
    help: Seq<char>,
    rows: Seq<R>,
    line: spec_fn(R) -> Seq<char>,
    i: int,
)
    requires
        0 <= i < rows.len(),
        forall|r: R| ends(#[trigger] line(r)),
        line(rows[i]).len() > 0,
    ensures
        has(section(name, help, lines(rows, line)), seq!['\n'] + line(rows[i])),
{
    let front = header_ends(name, help, "counter"@);
    let h = header(name, help, "counter"@);
    assert(h.last() == '\n');
    rows_have(h, rows, line, i);
    lines_not_empty(rows, line, i);
}

proof fn lines_not_empty<R>(rows: Seq<R>, line: spec_fn(R) -> Seq<char>, i: int)
    requires
        0 <= i < rows.len(),
        line(rows[i]).len() > 0,
    ensures
        lines(rows, line).len() > 0,
    decreases rows.len(),
{
    if i < rows.len() - 1 {
        lines_not_empty(rows.drop_last(), line, i);
    }
}

/// A sample ends its line, and with its labels in brackets it is a labelled line.
proof fn samples_are_lines(
    name: Seq<char>,
    labels: Seq<char>,
    pairs: Seq<(Seq<char>, Seq<char>)>,
    value: u64,
)
    requires
        labels == labels_of(pairs),
    ensures
        seq!['\n'] + sample(name, "{"@ + labels + "}"@, value) == labelled_line(
            name,
            pairs,
            value as nat,
        ),
{
    reveal(labelled_line);
    reveal_strlit("{");
    reveal_strlit("}");
    reveal_strlit(" ");
    reveal_strlit("\n");
    let v = dec(value as nat);
    assert(seq!['\n'] + sample(name, "{"@ + labels + "}"@, value) =~= seq!['\n'] + (name + (seq![
        '{',
    ] + (labels + (seq!['}', ' '] + (v + seq!['\n']))))));
}

/// A sample without labels is a line.
proof fn bare_samples_are_lines(name: Seq<char>, value: u64)
    ensures
        seq!['\n'] + sample(name, Seq::empty(), value) == line_of(name, value as nat),
{
    reveal(line_of);
    reveal_strlit(" ");
    reveal_strlit("\n");
    let v = dec(value as nat);
    assert(seq!['\n'] + sample(name, Seq::empty(), value) =~= seq!['\n'] + (name + (seq![' '] + (v
        + seq!['\n']))));
}

/// The labels of a slot: its team, its number, its player and its game. A slot that has no game
/// is the server's own.
pub open spec fn slot_pairs(key: SlotKey, name: Seq<char>, game: Seq<char>) -> Seq<
    (Seq<char>, Seq<char>),
> {
    seq![
        ("team"@, dec(key.0 as nat)),
        ("slot"@, dec(key.1 as nat)),
        ("player"@, label_text(name)),
        (
            "game"@,
            label_text(
                if game.len() == 0 {
                    "Archipelago"@
                } else {
                    game
                },
            ),
        ),
    ]
}

proof fn one_label(name: Seq<char>, value: Seq<char>)
    ensures
        crate::net::http::exposition::label_of(name, value) == labels_of(seq![(name, value)]),
{
    reveal_strlit("=\"");
    reveal_strlit("\"");
    let one = seq![(name, value)];
    assert(one.last() == (name, value));
    assert(crate::net::http::exposition::label_of(name, value) =~= name + (seq!['=', '"'] + (value
        + seq!['"'])));
}

proof fn one_more_label(
    pairs: Seq<(Seq<char>, Seq<char>)>,
    name: Seq<char>,
    value: Seq<char>,
)
    requires
        pairs.len() > 0,
    ensures
        labels_of(pairs) + ","@ + crate::net::http::exposition::label_of(name, value) == labels_of(
            pairs.push((name, value)),
        ),
{
    reveal_strlit(",");
    one_label(name, value);
    let one = seq![(name, value)];
    assert(one.last() == (name, value));
    let all = pairs.push((name, value));
    assert(all.drop_last() =~= pairs);
    assert(all.last() == (name, value));
    let l = name + (seq!['=', '"'] + (value + seq!['"']));
    assert(labels_of(pairs) + ","@ + l =~= labels_of(pairs) + (seq![','] + l));
}

/// The row of a slot gives its name and its game.
proof fn named_is(s: Seq<SlotStatus>, key: SlotKey, r: int, n: nat)
    requires
        0 <= r < n <= s.len(),
        s[r].team == key.0,
        s[r].slot == key.1,
        forall|j: int|
            r < j < s.len() ==> !((#[trigger] s[j]).team == key.0 && s[j].slot == key.1),
    ensures
        named(s, key, n) == (s[r].name@, s[r].game@),
    decreases n,
{
    if r < n - 1 {
        assert(!(s[n - 1].team == key.0 && s[n - 1].slot == key.1));
        named_is(s, key, r, (n - 1) as nat);
    }
}

/// The labels of a slot as they stand on the page.
proof fn slot_labels_are(s: Seq<SlotStatus>, key: SlotKey, r: int)
    requires
        0 <= r < s.len(),
        s[r].team == key.0,
        s[r].slot == key.1,
        forall|j: int|
            r < j < s.len() ==> !((#[trigger] s[j]).team == key.0 && s[j].slot == key.1),
    ensures
        slot_labels(s, key) == labels_of(slot_pairs(key, s[r].name@, s[r].game@)),
{
    named_is(s, key, r, s.len());
    let all = slot_pairs(key, s[r].name@, s[r].game@);
    let a = all[0];
    let b = all[1];
    let c = all[2];
    let d = all[3];
    let one = seq![a];
    let two = one.push(b);
    let three = two.push(c);
    assert(all =~= three.push(d));
    reveal_strlit("team");
    reveal_strlit("slot");
    reveal_strlit("player");
    reveal_strlit("game");
    reveal_strlit("team=\"");
    reveal_strlit("\",slot=\"");
    reveal_strlit("\",player=\"");
    reveal_strlit("\",game=\"");
    reveal_strlit("\"");
    assert(one.last() == a);
    assert(two.drop_last() =~= one && two.last() == b);
    assert(three.drop_last() =~= two && three.last() == c);
    assert(all.drop_last() =~= three && all.last() == d);
    let one_text = a.0 + (seq!['=', '"'] + (a.1 + seq!['"']));
    let two_text = one_text + (seq![','] + (b.0 + (seq!['=', '"'] + (b.1 + seq!['"']))));
    let three_text = two_text + (seq![','] + (c.0 + (seq!['=', '"'] + (c.1 + seq!['"']))));
    assert(labels_of(one) == one_text);
    assert(labels_of(two) == two_text);
    assert(labels_of(three) == three_text);
    assert(labels_of(all) == three_text + (seq![','] + (d.0 + (seq!['=', '"'] + (d.1 + seq!['"'])))));
    assert("team=\""@ =~= "team"@ + seq!['=', '"']);
    assert("\",slot=\""@ =~= seq!['"', ','] + "slot"@ + seq!['=', '"']);
    assert("\",player=\""@ =~= seq!['"', ','] + "player"@ + seq!['=', '"']);
    assert("\",game=\""@ =~= seq!['"', ','] + "game"@ + seq!['=', '"']);
    four_parts("team"@, a.1, "slot"@, b.1, "player"@, c.1, "game"@, d.1);
    assert("\""@ =~= seq!['"']);
}

proof fn four_parts(
    n: Seq<char>,
    v: Seq<char>,
    o: Seq<char>,
    w: Seq<char>,
    p: Seq<char>,
    x: Seq<char>,
    q: Seq<char>,
    y: Seq<char>,
)
    ensures
        (n + seq!['=', '"']) + v + (seq!['"', ','] + o + seq!['=', '"']) + w + (seq!['"', ','] + p
            + seq!['=', '"']) + x + (seq!['"', ','] + q + seq!['=', '"']) + y + seq!['"'] == ((n + (
        seq!['=', '"'] + (v + seq!['"']))) + (seq![','] + (o + (seq!['=', '"'] + (w + seq!['"']))))
            + (seq![','] + (p + (seq!['=', '"'] + (x + seq!['"']))))) + (seq![','] + (q + (seq![
            '=',
            '"',
        ] + (y + seq!['"'])))),
{
    assert((n + seq!['=', '"']) + v + (seq!['"', ','] + o + seq!['=', '"']) + w + (seq!['"', ','] + p
        + seq!['=', '"']) + x + (seq!['"', ','] + q + seq!['=', '"']) + y + seq!['"'] =~= ((n + (seq![
        '=',
        '"',
    ] + (v + seq!['"']))) + (seq![','] + (o + (seq!['=', '"'] + (w + seq!['"'])))) + (seq![','] + (p
        + (seq!['=', '"'] + (x + seq!['"']))))) + (seq![','] + (q + (seq!['=', '"'] + (y + seq![
        '"',
    ])))));
}

/// Whether a row is that of a slot: the last for it.
pub open spec fn row_of(s: Seq<SlotStatus>, key: SlotKey, r: int) -> bool {
    &&& 0 <= r < s.len()
    &&& s[r].team == key.0
    &&& s[r].slot == key.1
    &&& forall|j: int| r < j < s.len() ==> !((#[trigger] s[j]).team == key.0 && s[j].slot == key.1)
}

/// What stands in a section of what came in stands on the page.
proof fn in_incoming(
    page: Seq<char>,
    live: Status,
    m: Metrics,
    ledger: Ledger,
    at: Sample,
    a: Seq<char>,
    b: Seq<char>,
    c: Seq<char>,
    d: Seq<char>,
    e: Seq<char>,
    part: Seq<char>,
)
    requires
        is_page(page, live, m, ledger, at),
        incoming_text(live, m@) == a + b + c + d + e || outgoing_text(live, m@) == a + b + c + d + e,
        has(a, part) || has(b, part) || has(c, part) || has(d, part) || has(e, part),
    ensures
        has(page, part),
{
    one_of_two(a, b, part);
    one_of_two(a + b, c, part);
    one_of_two(a + b + c, d, part);
    one_of_two(a + b + c + d, e, part);
    on_the_page(page, live, m, ledger, at, part);
}

proof fn line_ends_0_incoming(s: Seq<SlotStatus>, e: ((Option<SlotKey>, Seq<char>), u64))
    ensures
        ends(packet_line(s, e)),
{
    reveal_strlit("\n");
}

proof fn line_ends_1_incoming(s: Seq<SlotStatus>, e: ((Option<SlotKey>, Seq<char>), u64))
    ensures
        ends(early_packet_line(e)),
{
    reveal_strlit("\n");
}

proof fn line_ends_2_incoming(s: Seq<SlotStatus>, e: ((SlotKey, bool), u64))
    ensures
        ends(connection_line(s, e)),
{
    reveal_strlit("\n");
}

proof fn line_ends_3_incoming(s: Seq<SlotStatus>, e: (Option<SlotKey>, u64))
    ensures
        ends(bytes_line(s, e)),
{
    reveal_strlit("\n");
}

proof fn line_ends_4_incoming(s: Seq<SlotStatus>, e: (Option<SlotKey>, u64))
    ensures
        ends(early_bytes_line(e)),
{
    reveal_strlit("\n");
}

proof fn line_ends_0_outgoing(s: Seq<SlotStatus>, e: (Seq<char>, u64))
    ensures
        ends(produced_line(e)),
{
    reveal_strlit("\n");
}

proof fn line_ends_1_outgoing(s: Seq<SlotStatus>, e: (Option<SlotKey>, Delivered))
    ensures
        ends(frames_line(s, e)),
{
    reveal_strlit("\n");
}

proof fn line_ends_2_outgoing(s: Seq<SlotStatus>, e: (Option<SlotKey>, Delivered))
    ensures
        ends(sent_line(s, e)),
{
    reveal_strlit("\n");
}

proof fn line_ends_3_outgoing(s: Seq<SlotStatus>, e: (Option<SlotKey>, Delivered))
    ensures
        ends(early_frames_line(e)),
{
    reveal_strlit("\n");
}

proof fn line_ends_4_outgoing(s: Seq<SlotStatus>, e: (Option<SlotKey>, Delivered))
    ensures
        ends(early_sent_line(e)),
{
    reveal_strlit("\n");
}

/// Packets from a slot are counted on the page under the slot and the command.
pub proof fn packets_of_a_slot_are_shown(
    page: Seq<char>,
    live: Status,
    m: Metrics,
    ledger: Ledger,
    at: Sample,
    i: int,
    r: int,
)
    requires
        is_page(page, live, m, ledger, at),
        0 <= i < m@.received.len(),
        m@.received[i].0.0 is Some,
        row_of(live.slots@, m@.received[i].0.0->0, r),
    ensures
        has(
            page,
            labelled_line("pahoa_packets_in_total"@, slot_pairs(m@.received[i].0.0->0, live.slots@[r].name@, live.slots@[r].game@).push(("cmd"@, label_text(m@.received[i].0.1))), m@.received[i].1 as nat),
        ),
{
    let s = live.slots@;
    let f0 = |e: ((Option<SlotKey>, Seq<char>), u64)| packet_line(s, e);
    let f1 = |e: ((Option<SlotKey>, Seq<char>), u64)| early_packet_line(e);
    let f2 = |e: ((SlotKey, bool), u64)| connection_line(s, e);
    let f3 = |e: (Option<SlotKey>, u64)| bytes_line(s, e);
    let f4 = |e: (Option<SlotKey>, u64)| early_bytes_line(e);
    let s0 = section("pahoa_packets_in_total"@, help::PACKETS_IN@, lines(m@.received, f0));
    let s1 = section("pahoa_packets_preauth_total"@, help::PACKETS_PREAUTH@, lines(m@.received, f1));
    let s2 = section("pahoa_client_connections_total"@, help::CONNECTIONS@, lines(m@.deflating, f2));
    let s3 = section("pahoa_bytes_in_total"@, help::BYTES_IN@, lines(m@.read, f3));
    let s4 = section("pahoa_bytes_in_preauth_total"@, help::BYTES_IN_PREAUTH@, lines(m@.read, f4));
    assert(incoming_text(live, m@) == s0 + s1 + s2 + s3 + s4);
    let e = m@.received[i];
    assert forall|x: ((Option<SlotKey>, Seq<char>), u64)| ends(#[trigger] f0(x)) by {
        line_ends_0_incoming(s, x);
    }
    line_ends_0_incoming(s, e);
    section_has("pahoa_packets_in_total"@, help::PACKETS_IN@, m@.received, f0, i);
    slot_labels_are(s, e.0.0->0, r);
    let p0 = slot_pairs(e.0.0->0, s[r].name@, s[r].game@);
    one_more_label(p0, "cmd"@, label_text(e.0.1));
    let p1 = p0.push(("cmd"@, label_text(e.0.1)));
    samples_are_lines("pahoa_packets_in_total"@, labels_of(p1), p1, e.1);
    in_incoming(page, live, m, ledger, at, s0, s1, s2, s3, s4, seq!['\n'] + f0(e));
}

/// Packets from connections that held no slot are counted on the page under the command alone.
pub proof fn packets_of_nobody_are_shown(
    page: Seq<char>,
    live: Status,
    m: Metrics,
    ledger: Ledger,
    at: Sample,
    i: int,
)
    requires
        is_page(page, live, m, ledger, at),
        0 <= i < m@.received.len(),
        m@.received[i].0.0 is None,
    ensures
        has(
            page,
            labelled_line("pahoa_packets_preauth_total"@, seq![("cmd"@, label_text(m@.received[i].0.1))], m@.received[i].1 as nat),
        ),
{
    let s = live.slots@;
    let f0 = |e: ((Option<SlotKey>, Seq<char>), u64)| packet_line(s, e);
    let f1 = |e: ((Option<SlotKey>, Seq<char>), u64)| early_packet_line(e);
    let f2 = |e: ((SlotKey, bool), u64)| connection_line(s, e);
    let f3 = |e: (Option<SlotKey>, u64)| bytes_line(s, e);
    let f4 = |e: (Option<SlotKey>, u64)| early_bytes_line(e);
    let s0 = section("pahoa_packets_in_total"@, help::PACKETS_IN@, lines(m@.received, f0));
    let s1 = section("pahoa_packets_preauth_total"@, help::PACKETS_PREAUTH@, lines(m@.received, f1));
    let s2 = section("pahoa_client_connections_total"@, help::CONNECTIONS@, lines(m@.deflating, f2));
    let s3 = section("pahoa_bytes_in_total"@, help::BYTES_IN@, lines(m@.read, f3));
    let s4 = section("pahoa_bytes_in_preauth_total"@, help::BYTES_IN_PREAUTH@, lines(m@.read, f4));
    assert(incoming_text(live, m@) == s0 + s1 + s2 + s3 + s4);
    let e = m@.received[i];
    assert forall|x: ((Option<SlotKey>, Seq<char>), u64)| ends(#[trigger] f1(x)) by {
        line_ends_1_incoming(s, x);
    }
    line_ends_1_incoming(s, e);
    section_has("pahoa_packets_preauth_total"@, help::PACKETS_PREAUTH@, m@.received, f1, i);
    one_label("cmd"@, label_text(e.0.1));
    let p0 = seq![("cmd"@, label_text(e.0.1))];
    samples_are_lines("pahoa_packets_preauth_total"@, labels_of(p0), p0, e.1);
    in_incoming(page, live, m, ledger, at, s0, s1, s2, s3, s4, seq!['\n'] + f1(e));
}

/// Connections are counted on the page under the slot and whether they compress.
pub proof fn connections_of_a_slot_are_shown(
    page: Seq<char>,
    live: Status,
    m: Metrics,
    ledger: Ledger,
    at: Sample,
    i: int,
    r: int,
)
    requires
        is_page(page, live, m, ledger, at),
        0 <= i < m@.deflating.len(),
        row_of(live.slots@, m@.deflating[i].0.0, r),
    ensures
        has(
            page,
            labelled_line("pahoa_client_connections_total"@, slot_pairs(m@.deflating[i].0.0, live.slots@[r].name@, live.slots@[r].game@).push(
                (
                    "deflate"@,
                    if m@.deflating[i].0.1 {
                        "true"@
                    } else {
                        "false"@
                    },
                ),
            ), m@.deflating[i].1 as nat),
        ),
{
    let s = live.slots@;
    let f0 = |e: ((Option<SlotKey>, Seq<char>), u64)| packet_line(s, e);
    let f1 = |e: ((Option<SlotKey>, Seq<char>), u64)| early_packet_line(e);
    let f2 = |e: ((SlotKey, bool), u64)| connection_line(s, e);
    let f3 = |e: (Option<SlotKey>, u64)| bytes_line(s, e);
    let f4 = |e: (Option<SlotKey>, u64)| early_bytes_line(e);
    let s0 = section("pahoa_packets_in_total"@, help::PACKETS_IN@, lines(m@.received, f0));
    let s1 = section("pahoa_packets_preauth_total"@, help::PACKETS_PREAUTH@, lines(m@.received, f1));
    let s2 = section("pahoa_client_connections_total"@, help::CONNECTIONS@, lines(m@.deflating, f2));
    let s3 = section("pahoa_bytes_in_total"@, help::BYTES_IN@, lines(m@.read, f3));
    let s4 = section("pahoa_bytes_in_preauth_total"@, help::BYTES_IN_PREAUTH@, lines(m@.read, f4));
    assert(incoming_text(live, m@) == s0 + s1 + s2 + s3 + s4);
    let e = m@.deflating[i];
    assert forall|x: ((SlotKey, bool), u64)| ends(#[trigger] f2(x)) by {
        line_ends_2_incoming(s, x);
    }
    line_ends_2_incoming(s, e);
    section_has("pahoa_client_connections_total"@, help::CONNECTIONS@, m@.deflating, f2, i);
    slot_labels_are(s, e.0.0, r);
    let p0 = slot_pairs(e.0.0, s[r].name@, s[r].game@);
    one_more_label(p0, "deflate"@, if e.0.1 {
        "true"@
    } else {
        "false"@
    });
    let p1 = p0.push(("deflate"@, if e.0.1 {
        "true"@
    } else {
        "false"@
    }));
    samples_are_lines("pahoa_client_connections_total"@, labels_of(p1), p1, e.1);
    in_incoming(page, live, m, ledger, at, s0, s1, s2, s3, s4, seq!['\n'] + f2(e));
}

/// Bytes from a slot are counted on the page under the slot.
pub proof fn bytes_of_a_slot_are_shown(
    page: Seq<char>,
    live: Status,
    m: Metrics,
    ledger: Ledger,
    at: Sample,
    i: int,
    r: int,
)
    requires
        is_page(page, live, m, ledger, at),
        0 <= i < m@.read.len(),
        m@.read[i].0 is Some,
        row_of(live.slots@, m@.read[i].0->0, r),
    ensures
        has(
            page,
            labelled_line("pahoa_bytes_in_total"@, slot_pairs(m@.read[i].0->0, live.slots@[r].name@, live.slots@[r].game@), m@.read[i].1 as nat),
        ),
{
    let s = live.slots@;
    let f0 = |e: ((Option<SlotKey>, Seq<char>), u64)| packet_line(s, e);
    let f1 = |e: ((Option<SlotKey>, Seq<char>), u64)| early_packet_line(e);
    let f2 = |e: ((SlotKey, bool), u64)| connection_line(s, e);
    let f3 = |e: (Option<SlotKey>, u64)| bytes_line(s, e);
    let f4 = |e: (Option<SlotKey>, u64)| early_bytes_line(e);
    let s0 = section("pahoa_packets_in_total"@, help::PACKETS_IN@, lines(m@.received, f0));
    let s1 = section("pahoa_packets_preauth_total"@, help::PACKETS_PREAUTH@, lines(m@.received, f1));
    let s2 = section("pahoa_client_connections_total"@, help::CONNECTIONS@, lines(m@.deflating, f2));
    let s3 = section("pahoa_bytes_in_total"@, help::BYTES_IN@, lines(m@.read, f3));
    let s4 = section("pahoa_bytes_in_preauth_total"@, help::BYTES_IN_PREAUTH@, lines(m@.read, f4));
    assert(incoming_text(live, m@) == s0 + s1 + s2 + s3 + s4);
    let e = m@.read[i];
    assert forall|x: (Option<SlotKey>, u64)| ends(#[trigger] f3(x)) by {
        line_ends_3_incoming(s, x);
    }
    line_ends_3_incoming(s, e);
    section_has("pahoa_bytes_in_total"@, help::BYTES_IN@, m@.read, f3, i);
    slot_labels_are(s, e.0->0, r);
    let p0 = slot_pairs(e.0->0, s[r].name@, s[r].game@);
    samples_are_lines("pahoa_bytes_in_total"@, labels_of(p0), p0, e.1);
    in_incoming(page, live, m, ledger, at, s0, s1, s2, s3, s4, seq!['\n'] + f3(e));
}

/// Bytes from connections that held no slot are counted on the page.
pub proof fn bytes_of_nobody_are_shown(
    page: Seq<char>,
    live: Status,
    m: Metrics,
    ledger: Ledger,
    at: Sample,
    i: int,
)
    requires
        is_page(page, live, m, ledger, at),
        0 <= i < m@.read.len(),
        m@.read[i].0 is None,
    ensures
        has(page, line_of("pahoa_bytes_in_preauth_total"@, m@.read[i].1 as nat)),
{
    let s = live.slots@;
    let f0 = |e: ((Option<SlotKey>, Seq<char>), u64)| packet_line(s, e);
    let f1 = |e: ((Option<SlotKey>, Seq<char>), u64)| early_packet_line(e);
    let f2 = |e: ((SlotKey, bool), u64)| connection_line(s, e);
    let f3 = |e: (Option<SlotKey>, u64)| bytes_line(s, e);
    let f4 = |e: (Option<SlotKey>, u64)| early_bytes_line(e);
    let s0 = section("pahoa_packets_in_total"@, help::PACKETS_IN@, lines(m@.received, f0));
    let s1 = section("pahoa_packets_preauth_total"@, help::PACKETS_PREAUTH@, lines(m@.received, f1));
    let s2 = section("pahoa_client_connections_total"@, help::CONNECTIONS@, lines(m@.deflating, f2));
    let s3 = section("pahoa_bytes_in_total"@, help::BYTES_IN@, lines(m@.read, f3));
    let s4 = section("pahoa_bytes_in_preauth_total"@, help::BYTES_IN_PREAUTH@, lines(m@.read, f4));
    assert(incoming_text(live, m@) == s0 + s1 + s2 + s3 + s4);
    let e = m@.read[i];
    assert forall|x: (Option<SlotKey>, u64)| ends(#[trigger] f4(x)) by {
        line_ends_4_incoming(s, x);
    }
    line_ends_4_incoming(s, e);
    section_has("pahoa_bytes_in_preauth_total"@, help::BYTES_IN_PREAUTH@, m@.read, f4, i);
    bare_samples_are_lines("pahoa_bytes_in_preauth_total"@, e.1);
    in_incoming(page, live, m, ledger, at, s0, s1, s2, s3, s4, seq!['\n'] + f4(e));
}

/// Packets that the room emits are counted on the page under the command.
pub proof fn packets_produced_are_shown(
    page: Seq<char>,
    live: Status,
    m: Metrics,
    ledger: Ledger,
    at: Sample,
    i: int,
)
    requires
        is_page(page, live, m, ledger, at),
        0 <= i < m@.produced.len(),
    ensures
        has(
            page,
            labelled_line("pahoa_packets_out_total"@, seq![("cmd"@, label_text(m@.produced[i].0))], m@.produced[i].1 as nat),
        ),
{
    let s = live.slots@;
    let f0 = |e: (Seq<char>, u64)| produced_line(e);
    let f1 = |e: (Option<SlotKey>, Delivered)| frames_line(s, e);
    let f2 = |e: (Option<SlotKey>, Delivered)| sent_line(s, e);
    let f3 = |e: (Option<SlotKey>, Delivered)| early_frames_line(e);
    let f4 = |e: (Option<SlotKey>, Delivered)| early_sent_line(e);
    let s0 = section("pahoa_packets_out_total"@, help::PACKETS_OUT@, lines(m@.produced, f0));
    let s1 = section("pahoa_frames_out_total"@, help::FRAMES_OUT@, lines(m@.delivered, f1));
    let s2 = section("pahoa_bytes_out_total"@, help::BYTES_OUT@, lines(m@.delivered, f2));
    let s3 = section("pahoa_frames_out_preauth_total"@, help::FRAMES_OUT_PREAUTH@, lines(m@.delivered, f3));
    let s4 = section("pahoa_bytes_out_preauth_total"@, help::BYTES_OUT_PREAUTH@, lines(m@.delivered, f4));
    assert(outgoing_text(live, m@) == s0 + s1 + s2 + s3 + s4);
    let e = m@.produced[i];
    assert forall|x: (Seq<char>, u64)| ends(#[trigger] f0(x)) by {
        line_ends_0_outgoing(s, x);
    }
    line_ends_0_outgoing(s, e);
    section_has("pahoa_packets_out_total"@, help::PACKETS_OUT@, m@.produced, f0, i);
    one_label("cmd"@, label_text(e.0));
    let p0 = seq![("cmd"@, label_text(e.0))];
    samples_are_lines("pahoa_packets_out_total"@, labels_of(p0), p0, e.1);
    in_incoming(page, live, m, ledger, at, s0, s1, s2, s3, s4, seq!['\n'] + f0(e));
}

/// Frames handed to a slot are counted on the page under the slot.
pub proof fn frames_to_a_slot_are_shown(
    page: Seq<char>,
    live: Status,
    m: Metrics,
    ledger: Ledger,
    at: Sample,
    i: int,
    r: int,
)
    requires
        is_page(page, live, m, ledger, at),
        0 <= i < m@.delivered.len(),
        m@.delivered[i].0 is Some,
        row_of(live.slots@, m@.delivered[i].0->0, r),
    ensures
        has(
            page,
            labelled_line("pahoa_frames_out_total"@, slot_pairs(m@.delivered[i].0->0, live.slots@[r].name@, live.slots@[r].game@), m@.delivered[i].1.frames as nat),
        ),
{
    let s = live.slots@;
    let f0 = |e: (Seq<char>, u64)| produced_line(e);
    let f1 = |e: (Option<SlotKey>, Delivered)| frames_line(s, e);
    let f2 = |e: (Option<SlotKey>, Delivered)| sent_line(s, e);
    let f3 = |e: (Option<SlotKey>, Delivered)| early_frames_line(e);
    let f4 = |e: (Option<SlotKey>, Delivered)| early_sent_line(e);
    let s0 = section("pahoa_packets_out_total"@, help::PACKETS_OUT@, lines(m@.produced, f0));
    let s1 = section("pahoa_frames_out_total"@, help::FRAMES_OUT@, lines(m@.delivered, f1));
    let s2 = section("pahoa_bytes_out_total"@, help::BYTES_OUT@, lines(m@.delivered, f2));
    let s3 = section("pahoa_frames_out_preauth_total"@, help::FRAMES_OUT_PREAUTH@, lines(m@.delivered, f3));
    let s4 = section("pahoa_bytes_out_preauth_total"@, help::BYTES_OUT_PREAUTH@, lines(m@.delivered, f4));
    assert(outgoing_text(live, m@) == s0 + s1 + s2 + s3 + s4);
    let e = m@.delivered[i];
    assert forall|x: (Option<SlotKey>, Delivered)| ends(#[trigger] f1(x)) by {
        line_ends_1_outgoing(s, x);
    }
    line_ends_1_outgoing(s, e);
    section_has("pahoa_frames_out_total"@, help::FRAMES_OUT@, m@.delivered, f1, i);
    slot_labels_are(s, e.0->0, r);
    let p0 = slot_pairs(e.0->0, s[r].name@, s[r].game@);
    samples_are_lines("pahoa_frames_out_total"@, labels_of(p0), p0, e.1.frames);
    in_incoming(page, live, m, ledger, at, s0, s1, s2, s3, s4, seq!['\n'] + f1(e));
}

/// Bytes handed to a slot are counted on the page under the slot.
pub proof fn bytes_to_a_slot_are_shown(
    page: Seq<char>,
    live: Status,
    m: Metrics,
    ledger: Ledger,
    at: Sample,
    i: int,
    r: int,
)
    requires
        is_page(page, live, m, ledger, at),
        0 <= i < m@.delivered.len(),
        m@.delivered[i].0 is Some,
        row_of(live.slots@, m@.delivered[i].0->0, r),
    ensures
        has(
            page,
            labelled_line("pahoa_bytes_out_total"@, slot_pairs(m@.delivered[i].0->0, live.slots@[r].name@, live.slots@[r].game@), m@.delivered[i].1.bytes as nat),
        ),
{
    let s = live.slots@;
    let f0 = |e: (Seq<char>, u64)| produced_line(e);
    let f1 = |e: (Option<SlotKey>, Delivered)| frames_line(s, e);
    let f2 = |e: (Option<SlotKey>, Delivered)| sent_line(s, e);
    let f3 = |e: (Option<SlotKey>, Delivered)| early_frames_line(e);
    let f4 = |e: (Option<SlotKey>, Delivered)| early_sent_line(e);
    let s0 = section("pahoa_packets_out_total"@, help::PACKETS_OUT@, lines(m@.produced, f0));
    let s1 = section("pahoa_frames_out_total"@, help::FRAMES_OUT@, lines(m@.delivered, f1));
    let s2 = section("pahoa_bytes_out_total"@, help::BYTES_OUT@, lines(m@.delivered, f2));
    let s3 = section("pahoa_frames_out_preauth_total"@, help::FRAMES_OUT_PREAUTH@, lines(m@.delivered, f3));
    let s4 = section("pahoa_bytes_out_preauth_total"@, help::BYTES_OUT_PREAUTH@, lines(m@.delivered, f4));
    assert(outgoing_text(live, m@) == s0 + s1 + s2 + s3 + s4);
    let e = m@.delivered[i];
    assert forall|x: (Option<SlotKey>, Delivered)| ends(#[trigger] f2(x)) by {
        line_ends_2_outgoing(s, x);
    }
    line_ends_2_outgoing(s, e);
    section_has("pahoa_bytes_out_total"@, help::BYTES_OUT@, m@.delivered, f2, i);
    slot_labels_are(s, e.0->0, r);
    let p0 = slot_pairs(e.0->0, s[r].name@, s[r].game@);
    samples_are_lines("pahoa_bytes_out_total"@, labels_of(p0), p0, e.1.bytes);
    in_incoming(page, live, m, ledger, at, s0, s1, s2, s3, s4, seq!['\n'] + f2(e));
}

/// Frames handed to connections that held no slot are counted on the page.
pub proof fn frames_to_nobody_are_shown(
    page: Seq<char>,
    live: Status,
    m: Metrics,
    ledger: Ledger,
    at: Sample,
    i: int,
)
    requires
        is_page(page, live, m, ledger, at),
        0 <= i < m@.delivered.len(),
        m@.delivered[i].0 is None,
    ensures
        has(page, line_of("pahoa_frames_out_preauth_total"@, m@.delivered[i].1.frames as nat)),
{
    let s = live.slots@;
    let f0 = |e: (Seq<char>, u64)| produced_line(e);
    let f1 = |e: (Option<SlotKey>, Delivered)| frames_line(s, e);
    let f2 = |e: (Option<SlotKey>, Delivered)| sent_line(s, e);
    let f3 = |e: (Option<SlotKey>, Delivered)| early_frames_line(e);
    let f4 = |e: (Option<SlotKey>, Delivered)| early_sent_line(e);
    let s0 = section("pahoa_packets_out_total"@, help::PACKETS_OUT@, lines(m@.produced, f0));
    let s1 = section("pahoa_frames_out_total"@, help::FRAMES_OUT@, lines(m@.delivered, f1));
    let s2 = section("pahoa_bytes_out_total"@, help::BYTES_OUT@, lines(m@.delivered, f2));
    let s3 = section("pahoa_frames_out_preauth_total"@, help::FRAMES_OUT_PREAUTH@, lines(m@.delivered, f3));
    let s4 = section("pahoa_bytes_out_preauth_total"@, help::BYTES_OUT_PREAUTH@, lines(m@.delivered, f4));
    assert(outgoing_text(live, m@) == s0 + s1 + s2 + s3 + s4);
    let e = m@.delivered[i];
    assert forall|x: (Option<SlotKey>, Delivered)| ends(#[trigger] f3(x)) by {
        line_ends_3_outgoing(s, x);
    }
    line_ends_3_outgoing(s, e);
    section_has("pahoa_frames_out_preauth_total"@, help::FRAMES_OUT_PREAUTH@, m@.delivered, f3, i);
    bare_samples_are_lines("pahoa_frames_out_preauth_total"@, e.1.frames);
    in_incoming(page, live, m, ledger, at, s0, s1, s2, s3, s4, seq!['\n'] + f3(e));
}

/// Bytes handed to connections that held no slot are counted on the page.
pub proof fn bytes_to_nobody_are_shown(
    page: Seq<char>,
    live: Status,
    m: Metrics,
    ledger: Ledger,
    at: Sample,
    i: int,
)
    requires
        is_page(page, live, m, ledger, at),
        0 <= i < m@.delivered.len(),
        m@.delivered[i].0 is None,
    ensures
        has(page, line_of("pahoa_bytes_out_preauth_total"@, m@.delivered[i].1.bytes as nat)),
{
    let s = live.slots@;
    let f0 = |e: (Seq<char>, u64)| produced_line(e);
    let f1 = |e: (Option<SlotKey>, Delivered)| frames_line(s, e);
    let f2 = |e: (Option<SlotKey>, Delivered)| sent_line(s, e);
    let f3 = |e: (Option<SlotKey>, Delivered)| early_frames_line(e);
    let f4 = |e: (Option<SlotKey>, Delivered)| early_sent_line(e);
    let s0 = section("pahoa_packets_out_total"@, help::PACKETS_OUT@, lines(m@.produced, f0));
    let s1 = section("pahoa_frames_out_total"@, help::FRAMES_OUT@, lines(m@.delivered, f1));
    let s2 = section("pahoa_bytes_out_total"@, help::BYTES_OUT@, lines(m@.delivered, f2));
    let s3 = section("pahoa_frames_out_preauth_total"@, help::FRAMES_OUT_PREAUTH@, lines(m@.delivered, f3));
    let s4 = section("pahoa_bytes_out_preauth_total"@, help::BYTES_OUT_PREAUTH@, lines(m@.delivered, f4));
    assert(outgoing_text(live, m@) == s0 + s1 + s2 + s3 + s4);
    let e = m@.delivered[i];
    assert forall|x: (Option<SlotKey>, Delivered)| ends(#[trigger] f4(x)) by {
        line_ends_4_outgoing(s, x);
    }
    line_ends_4_outgoing(s, e);
    section_has("pahoa_bytes_out_preauth_total"@, help::BYTES_OUT_PREAUTH@, m@.delivered, f4, i);
    bare_samples_are_lines("pahoa_bytes_out_preauth_total"@, e.1.bytes);
    in_incoming(page, live, m, ledger, at, s0, s1, s2, s3, s4, seq!['\n'] + f4(e));
}

proof fn drop_lines_end(s: Seq<SlotStatus>, e: ((SlotKey, (Seq<char>, Seq<char>)), u64))
    ensures
        ends(drop_line(s, e)),
{
    reveal_strlit("\n");
}

proof fn redundant_lines_end(s: Seq<SlotStatus>, e: ((SlotKey, Seq<char>), u64))
    ensures
        ends(redundant_line(s, e)),
{
    reveal_strlit("\n");
}

/// What filters dropped is counted on the page under the slot, the direction and the kind.
pub proof fn drops_of_a_slot_are_shown(
    page: Seq<char>,
    live: Status,
    m: Metrics,
    ledger: Ledger,
    at: Sample,
    i: int,
    r: int,
)
    requires
        is_page(page, live, m, ledger, at),
        0 <= i < live.drops.deep_view().len(),
        row_of(live.slots@, live.drops.deep_view()[i].0.0, r),
    ensures
        ({
            let e = live.drops.deep_view()[i];
            has(
                page,
                labelled_line(
                    "pahoa_filtered_total"@,
                    slot_pairs(e.0.0, live.slots@[r].name@, live.slots@[r].game@).push(
                        ("direction"@, e.0.1.0),
                    ).push(("kind"@, e.0.1.1)),
                    e.1 as nat,
                ),
            )
        }),
{
    let s = live.slots@;
    let rows = live.drops.deep_view();
    let e = rows[i];
    let f = |e: ((SlotKey, (Seq<char>, Seq<char>)), u64)| drop_line(s, e);
    let g = |e: ((SlotKey, Seq<char>), u64)| redundant_line(s, e);
    let a = section("pahoa_filtered_total"@, help::FILTERED@, lines(rows, f));
    let b = section(
        "pahoa_redundant_requests_total"@,
        help::REDUNDANT@,
        lines(live.redundant.deep_view(), g),
    );
    assert(spared_text(live) == a + b);
    assert forall|x: ((SlotKey, (Seq<char>, Seq<char>)), u64)| ends(#[trigger] f(x)) by {
        drop_lines_end(s, x);
    }
    section_has("pahoa_filtered_total"@, help::FILTERED@, rows, f, i);
    slot_labels_are(s, e.0.0, r);
    let p0 = slot_pairs(e.0.0, s[r].name@, s[r].game@);
    one_more_label(p0, "direction"@, e.0.1.0);
    let p1 = p0.push(("direction"@, e.0.1.0));
    one_more_label(p1, "kind"@, e.0.1.1);
    let p2 = p1.push(("kind"@, e.0.1.1));
    samples_are_lines("pahoa_filtered_total"@, labels_of(p2), p2, e.1);
    one_of_two(a, b, seq!['\n'] + f(e));
    on_the_page(page, live, m, ledger, at, seq!['\n'] + f(e));
}

/// Requests for what was already done are counted on the page under the slot and the kind.
pub proof fn redundant_requests_are_shown(
    page: Seq<char>,
    live: Status,
    m: Metrics,
    ledger: Ledger,
    at: Sample,
    i: int,
    r: int,
)
    requires
        is_page(page, live, m, ledger, at),
        0 <= i < live.redundant.deep_view().len(),
        row_of(live.slots@, live.redundant.deep_view()[i].0.0, r),
    ensures
        ({
            let e = live.redundant.deep_view()[i];
            has(
                page,
                labelled_line(
                    "pahoa_redundant_requests_total"@,
                    slot_pairs(e.0.0, live.slots@[r].name@, live.slots@[r].game@).push(
                        ("kind"@, e.0.1),
                    ),
                    e.1 as nat,
                ),
            )
        }),
{
    let s = live.slots@;
    let rows = live.redundant.deep_view();
    let e = rows[i];
    let f = |e: ((SlotKey, (Seq<char>, Seq<char>)), u64)| drop_line(s, e);
    let g = |e: ((SlotKey, Seq<char>), u64)| redundant_line(s, e);
    let a = section("pahoa_filtered_total"@, help::FILTERED@, lines(live.drops.deep_view(), f));
    let b = section("pahoa_redundant_requests_total"@, help::REDUNDANT@, lines(rows, g));
    assert(spared_text(live) == a + b);
    assert forall|x: ((SlotKey, Seq<char>), u64)| ends(#[trigger] g(x)) by {
        redundant_lines_end(s, x);
    }
    section_has("pahoa_redundant_requests_total"@, help::REDUNDANT@, rows, g, i);
    slot_labels_are(s, e.0.0, r);
    let p0 = slot_pairs(e.0.0, s[r].name@, s[r].game@);
    one_more_label(p0, "kind"@, e.0.1);
    let p1 = p0.push(("kind"@, e.0.1));
    samples_are_lines("pahoa_redundant_requests_total"@, labels_of(p1), p1, e.1);
    one_of_two(a, b, seq!['\n'] + g(e));
    on_the_page(page, live, m, ledger, at, seq!['\n'] + g(e));
}

proof fn request_lines_end(e: (((Seq<char>, Seq<char>), u16), Exchange))
    ensures
        ends(request_line(e)),
{
    reveal_strlit("\n");
}

proof fn route_lines_end(name: Seq<char>, e: (Seq<char>, u64))
    ensures
        ends(route_line(name, e)),
{
    reveal_strlit("\n");
}

/// What stands in a section of the HTTP surface stands on the page.
proof fn in_http(
    page: Seq<char>,
    live: Status,
    m: Metrics,
    ledger: Ledger,
    at: Sample,
    a: Seq<char>,
    b: Seq<char>,
    c: Seq<char>,
    part: Seq<char>,
)
    requires
        is_page(page, live, m, ledger, at),
        http_text(m@) == a + b + c,
        has(a, part) || has(b, part) || has(c, part),
    ensures
        has(page, part),
{
    one_of_two(a, b, part);
    one_of_two(a + b, c, part);
    on_the_page(page, live, m, ledger, at, part);
}

/// Requests are counted on the page under the route, the method and the status.
pub proof fn requests_are_shown(
    page: Seq<char>,
    live: Status,
    m: Metrics,
    ledger: Ledger,
    at: Sample,
    i: int,
)
    requires
        is_page(page, live, m, ledger, at),
        0 <= i < m@.requests.len(),
    ensures
        ({
            let e = m@.requests[i];
            has(
                page,
                labelled_line(
                    "pahoa_http_requests_total"@,
                    seq![("route"@, label_text(e.0.0.0))].push(("method"@, e.0.0.1)).push(
                        ("status"@, dec(e.0.1 as nat)),
                    ),
                    e.1.count as nat,
                ),
            )
        }),
{
    let rows = m@.requests;
    let e = rows[i];
    let f = |e: (((Seq<char>, Seq<char>), u16), Exchange)| request_line(e);
    let g = |e: (Seq<char>, u64)| route_line("pahoa_http_request_bytes_total"@, e);
    let h = |e: (Seq<char>, u64)| route_line("pahoa_http_response_bytes_total"@, e);
    let a = section("pahoa_http_requests_total"@, help::HTTP_REQUESTS@, lines(rows, f));
    let b = section(
        "pahoa_http_request_bytes_total"@,
        help::HTTP_REQUEST_BYTES@,
        lines(route_bytes(rows, false), g),
    );
    let c = section(
        "pahoa_http_response_bytes_total"@,
        help::HTTP_RESPONSE_BYTES@,
        lines(route_bytes(rows, true), h),
    );
    assert(http_text(m@) == a + b + c);
    assert forall|x: (((Seq<char>, Seq<char>), u16), Exchange)| ends(#[trigger] f(x)) by {
        request_lines_end(x);
    }
    section_has("pahoa_http_requests_total"@, help::HTTP_REQUESTS@, rows, f, i);
    one_label("route"@, label_text(e.0.0.0));
    let p0 = seq![("route"@, label_text(e.0.0.0))];
    one_more_label(p0, "method"@, e.0.0.1);
    let p1 = p0.push(("method"@, e.0.0.1));
    one_more_label(p1, "status"@, dec(e.0.1 as nat));
    let p2 = p1.push(("status"@, dec(e.0.1 as nat)));
    samples_are_lines("pahoa_http_requests_total"@, labels_of(p2), p2, e.1.count);
    in_http(page, live, m, ledger, at, a, b, c, seq!['\n'] + f(e));
}

/// The bytes of requests and those of answers are counted on the page apart, by route.
pub proof fn bytes_of_requests_and_answers_are_shown(
    page: Seq<char>,
    live: Status,
    m: Metrics,
    ledger: Ledger,
    at: Sample,
    i: int,
    j: int,
)
    requires
        is_page(page, live, m, ledger, at),
        0 <= i < route_bytes(m@.requests, false).len(),
        0 <= j < route_bytes(m@.requests, true).len(),
    ensures
        ({
            let e = route_bytes(m@.requests, false)[i];
            let d = route_bytes(m@.requests, true)[j];
            &&& has(
                page,
                labelled_line(
                    "pahoa_http_request_bytes_total"@,
                    seq![("route"@, label_text(e.0))],
                    e.1 as nat,
                ),
            )
            &&& has(
                page,
                labelled_line(
                    "pahoa_http_response_bytes_total"@,
                    seq![("route"@, label_text(d.0))],
                    d.1 as nat,
                ),
            )
        }),
{
    let rows = m@.requests;
    let asked = route_bytes(rows, false);
    let answered = route_bytes(rows, true);
    let e = asked[i];
    let d = answered[j];
    let f = |e: (((Seq<char>, Seq<char>), u16), Exchange)| request_line(e);
    let g = |e: (Seq<char>, u64)| route_line("pahoa_http_request_bytes_total"@, e);
    let h = |e: (Seq<char>, u64)| route_line("pahoa_http_response_bytes_total"@, e);
    let a = section("pahoa_http_requests_total"@, help::HTTP_REQUESTS@, lines(rows, f));
    let b = section(
        "pahoa_http_request_bytes_total"@,
        help::HTTP_REQUEST_BYTES@,
        lines(asked, g),
    );
    let c = section(
        "pahoa_http_response_bytes_total"@,
        help::HTTP_RESPONSE_BYTES@,
        lines(answered, h),
    );
    assert(http_text(m@) == a + b + c);
    assert forall|x: (Seq<char>, u64)| ends(#[trigger] g(x)) by {
        route_lines_end("pahoa_http_request_bytes_total"@, x);
    }
    assert forall|x: (Seq<char>, u64)| ends(#[trigger] h(x)) by {
        route_lines_end("pahoa_http_response_bytes_total"@, x);
    }
    section_has("pahoa_http_request_bytes_total"@, help::HTTP_REQUEST_BYTES@, asked, g, i);
    section_has("pahoa_http_response_bytes_total"@, help::HTTP_RESPONSE_BYTES@, answered, h, j);
    one_label("route"@, label_text(e.0));
    one_label("route"@, label_text(d.0));
    samples_are_lines(
        "pahoa_http_request_bytes_total"@,
        labels_of(seq![("route"@, label_text(e.0))]),
        seq![("route"@, label_text(e.0))],
        e.1,
    );
    samples_are_lines(
        "pahoa_http_response_bytes_total"@,
        labels_of(seq![("route"@, label_text(d.0))]),
        seq![("route"@, label_text(d.0))],
        d.1,
    );
    in_http(page, live, m, ledger, at, a, b, c, seq!['\n'] + g(e));
    in_http(page, live, m, ledger, at, a, b, c, seq!['\n'] + h(d));
}

/// One more kind of request adds its bytes to those of its own route: the bytes of its requests to
/// the requests', and those of its answers to the answers'.
pub proof fn bytes_add_up_by_route(
    rows: Seq<(((Seq<char>, Seq<char>), u16), Exchange)>,
    e: (((Seq<char>, Seq<char>), u16), Exchange),
    other: Seq<char>,
)
    requires
        other != e.0.0.0,
        count_of::<&'static str>(route_bytes(rows, false), e.0.0.0) + e.1.request_bytes <= u64::MAX,
        count_of::<&'static str>(route_bytes(rows, true), e.0.0.0) + e.1.response_bytes <= u64::MAX,
    ensures
        count_of::<&'static str>(route_bytes(rows.push(e), false), e.0.0.0) == count_of::<
            &'static str,
        >(route_bytes(rows, false), e.0.0.0) + e.1.request_bytes,
        count_of::<&'static str>(route_bytes(rows.push(e), true), e.0.0.0) == count_of::<
            &'static str,
        >(route_bytes(rows, true), e.0.0.0) + e.1.response_bytes,
        count_of::<&'static str>(route_bytes(rows.push(e), false), other) == count_of::<
            &'static str,
        >(route_bytes(rows, false), other),
        count_of::<&'static str>(route_bytes(rows.push(e), true), other) == count_of::<
            &'static str,
        >(route_bytes(rows, true), other),
{
    assert(rows.push(e).drop_last() =~= rows);
    routes_ascend(rows, false);
    routes_ascend(rows, true);
    counting_is_separate::<&'static str>(
        route_bytes(rows, false),
        e.0.0.0,
        e.1.request_bytes,
        other,
    );
    counting_is_separate::<&'static str>(
        route_bytes(rows, true),
        e.0.0.0,
        e.1.response_bytes,
        other,
    );
}

proof fn routes_ascend(rows: Seq<(((Seq<char>, Seq<char>), u16), Exchange)>, answers: bool)
    ensures
        ascending::<&'static str, u64>(route_bytes(rows, answers)),
    decreases rows.len(),
{
    if rows.len() > 0 {
        routes_ascend(rows.drop_last(), answers);
        let e = rows.last();
        counting_is_separate::<&'static str>(
            route_bytes(rows.drop_last(), answers),
            e.0.0.0,
            if answers {
                e.1.response_bytes
            } else {
                e.1.request_bytes
            },
            e.0.0.0,
        );
    }
}

/// A line of the page with a name and a text.
pub open spec fn text_line(name: Seq<char>, value: Seq<char>) -> Seq<char> {
    seq!['\n'] + (name + (seq![' '] + (value + seq!['\n'])))
}

/// The page shows the processor time in seconds with two digits behind the point, when the
/// process started with three, and what it holds of memory in bytes, each where it is known.
pub proof fn the_page_shows_the_process(
    page: Seq<char>,
    live: Status,
    m: Metrics,
    ledger: Ledger,
    at: Sample,
)
    requires
        is_page(page, live, m, ledger, at),
    ensures
        at.cpu matches Some(n) ==> has(
            page,
            text_line(
                "process_cpu_seconds_total"@,
                dec((n / 100) as nat) + (seq!['.'] + padded((n % 100) as int, 2)),
            ),
        ),
        at.start matches Some(n) ==> has(
            page,
            text_line(
                "process_start_time_seconds"@,
                dec((n / 100) as nat) + (seq!['.'] + (padded((n % 100) as int, 2) + seq!['0'])),
            ),
        ),
        at.resident matches Some(n) ==> has(
            page,
            line_of("process_resident_memory_bytes"@, n as nat),
        ),
{
    let a = cpu_text(at);
    let b = start_text(at);
    let c = resident_text(at);
    reveal_strlit(".");
    reveal_strlit("\n");
    reveal_strlit("0\n");
    if let Some(n) = at.cpu {
        let v = dec((n / 100) as nat) + (seq!['.'] + padded((n % 100) as int, 2));
        let front = header_ends("process_cpu_seconds_total"@, help::CPU_SECONDS@, "counter"@);
        let part = text_line("process_cpu_seconds_total"@, v);
        reveal_strlit("process_cpu_seconds_total ");
        reveal_strlit("process_cpu_seconds_total");
        assert("process_cpu_seconds_total "@ =~= "process_cpu_seconds_total"@ + seq![' ']);
        assert(hundredths(n) =~= v);
        joined_line(front, "process_cpu_seconds_total"@, v, seq!['\n']);
        assert("\n"@ =~= seq!['\n']);
        assert(part + Seq::<char>::empty() =~= part);
        has_between(front, part, Seq::empty());
        in_process(page, live, m, ledger, at, part);
    }
    if let Some(n) = at.start {
        let w = dec((n / 100) as nat) + (seq!['.'] + padded((n % 100) as int, 2));
        let v = dec((n / 100) as nat) + (seq!['.'] + (padded((n % 100) as int, 2) + seq!['0']));
        let front = header_ends("process_start_time_seconds"@, help::START_TIME@, "gauge"@);
        let part = text_line("process_start_time_seconds"@, v);
        reveal_strlit("process_start_time_seconds ");
        reveal_strlit("process_start_time_seconds");
        assert("process_start_time_seconds "@ =~= "process_start_time_seconds"@ + seq![' ']);
        assert(hundredths(n) =~= w);
        joined_line(front, "process_start_time_seconds"@, w, seq!['0', '\n']);
        assert("0\n"@ =~= seq!['0', '\n']);
        assert(w + seq!['0', '\n'] =~= v + seq!['\n']);
        assert(part + Seq::<char>::empty() =~= part);
        has_between(front, part, Seq::empty());
        in_process(page, live, m, ledger, at, part);
    }
    if let Some(n) = at.resident {
        let s = Series {
            name: "process_resident_memory_bytes",
            help: help::RESIDENT,
            kind: "gauge",
            value: n,
        };
        metric_has(s);
        in_process(page, live, m, ledger, at, line_of("process_resident_memory_bytes"@, n as nat));
    }
}

proof fn joined_line(front: Seq<char>, name: Seq<char>, v: Seq<char>, end: Seq<char>)
    ensures
        (front + seq!['\n']) + (name + seq![' ']) + v + end == front + (seq!['\n'] + (name + (seq![
            ' ',
        ] + (v + end)))),
{
    assert((front + seq!['\n']) + (name + seq![' ']) + v + end =~= front + (seq!['\n'] + (name + (
    seq![' '] + (v + end)))));
}

proof fn in_process(
    page: Seq<char>,
    live: Status,
    m: Metrics,
    ledger: Ledger,
    at: Sample,
    part: Seq<char>,
)
    requires
        is_page(page, live, m, ledger, at),
        has(cpu_text(at), part) || has(start_text(at), part) || has(resident_text(at), part),
    ensures
        has(page, part),
{
    one_of_two(cpu_text(at), start_text(at), part);
    one_of_two(cpu_text(at) + start_text(at), resident_text(at), part);
    on_the_page(page, live, m, ledger, at, part);
}

/// Texts one behind the other.
spec fn chain(ps: Seq<Seq<char>>) -> Seq<char>
    decreases ps.len(),
{
    if ps.len() == 0 {
        Seq::empty()
    } else {
        chain(ps.drop_last()) + ps.last()
    }
}

proof fn grown(ps: Seq<Seq<char>>, p: Seq<char>)
    ensures
        chain(ps.push(p)) == chain(ps) + p,
{
    assert(ps.push(p).drop_last() =~= ps);
}

/// Two texts that stand one behind the other stand in the whole.
proof fn chain_has(ps: Seq<Seq<char>>, i: int)
    requires
        0 <= i < ps.len() - 1,
    ensures
        has(chain(ps), ps[i] + ps[i + 1]),
    decreases ps.len(),
{
    let init = ps.drop_last();
    if i == ps.len() - 2 {
        let before = chain(init.drop_last());
        let part = ps[i] + ps[i + 1];
        assert(chain(init) == before + ps[i]);
        assert(chain(ps) =~= before + (part + Seq::<char>::empty()));
        has_between(before, part, Seq::empty());
    } else {
        chain_has(init, i);
        one_of_two(chain(init), ps.last(), ps[i] + ps[i + 1]);
    }
}

/// The one-line summary of a room has each of its numbers behind its own words: what waits and the
/// most that did, what is queued and the most that was in kilobytes, who was too slow, what was
/// compressed, how long the last save took and its kilobytes, and the memory in megabytes.
pub proof fn the_summary_shows_each_number(
    c: Counters,
    ledger: Ledger,
    compressions: u64,
    rss: Option<u64>,
)
    ensures
        ({
            let t = summary_text(c, ledger, compressions, rss);
            &&& has(t, "mailbox "@ + dec(c.depth as nat))
            &&& has(t, " (peak "@ + dec(c.peak as nat))
            &&& has(t, "), outbound "@ + dec((ledger.queued / 1024) as nat))
            &&& has(t, " KiB (peak "@ + dec((ledger.peak / 1024) as nat))
            &&& has(t, " KiB), lag disconnects "@ + dec(c.lagged as nat))
            &&& has(t, ", compressions "@ + dec(compressions as nat))
            &&& has(t, ", last save "@ + duration_shown(c.save_micros))
            &&& has(t, "/"@ + dec((c.save_bytes / 1024) as nat))
            &&& rss matches Some(n) ==> has(
                t,
                " KiB, rss "@ + (dec((n / 1_048_576) as nat) + " MiB"@),
            )
            &&& rss is None ==> has(t, " KiB, rss "@ + "?"@)
        }),
{
    let last = match rss {
        Some(b) => dec((b / 1_048_576) as nat) + " MiB"@,
        None => "?"@,
    };
    let none = Seq::<Seq<char>>::empty();
    let p0 = "mailbox "@;
    let p1 = dec(c.depth as nat);
    let p2 = " (peak "@;
    let p3 = dec(c.peak as nat);
    let p4 = "), outbound "@;
    let p5 = dec((ledger.queued / 1024) as nat);
    let p6 = " KiB (peak "@;
    let p7 = dec((ledger.peak / 1024) as nat);
    let p8 = " KiB), lag disconnects "@;
    let p9 = dec(c.lagged as nat);
    let p10 = ", compressions "@;
    let p11 = dec(compressions as nat);
    let p12 = ", last save "@;
    let p13 = duration_shown(c.save_micros);
    let p14 = "/"@;
    let p15 = dec((c.save_bytes / 1024) as nat);
    let p16 = " KiB, rss "@;
    let p17 = last;
    let c0 = none.push(p0);
    grown(none, p0);
    let c1 = c0.push(p1);
    grown(c0, p1);
    let c2 = c1.push(p2);
    grown(c1, p2);
    let c3 = c2.push(p3);
    grown(c2, p3);
    let c4 = c3.push(p4);
    grown(c3, p4);
    let c5 = c4.push(p5);
    grown(c4, p5);
    let c6 = c5.push(p6);
    grown(c5, p6);
    let c7 = c6.push(p7);
    grown(c6, p7);
    let c8 = c7.push(p8);
    grown(c7, p8);
    let c9 = c8.push(p9);
    grown(c8, p9);
    let c10 = c9.push(p10);
    grown(c9, p10);
    let c11 = c10.push(p11);
    grown(c10, p11);
    let c12 = c11.push(p12);
    grown(c11, p12);
    let c13 = c12.push(p13);
    grown(c12, p13);
    let c14 = c13.push(p14);
    grown(c13, p14);
    let c15 = c14.push(p15);
    grown(c14, p15);
    let c16 = c15.push(p16);
    grown(c15, p16);
    let c17 = c16.push(p17);
    grown(c16, p17);
    assert(chain(none) + p0 =~= p0);
    assert(chain(c17) == summary_text(c, ledger, compressions, rss));
    summary_part(c17, 0, p0, p1);
    summary_part(c17, 2, p2, p3);
    summary_part(c17, 4, p4, p5);
    summary_part(c17, 6, p6, p7);
    summary_part(c17, 8, p8, p9);
    summary_part(c17, 10, p10, p11);
    summary_part(c17, 12, p12, p13);
    summary_part(c17, 14, p14, p15);
    summary_part(c17, 16, p16, p17);
}

proof fn summary_part(ps: Seq<Seq<char>>, i: int, a: Seq<char>, b: Seq<char>)
    requires
        0 <= i < ps.len() - 1,
        ps[i] == a,
        ps[i + 1] == b,
    ensures
        has(chain(ps), a + b),
{
    chain_has(ps, i);
}

} // verus!
