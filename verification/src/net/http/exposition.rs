//! The same numbers in the exposition format of Prometheus.

use crate::net::budget::Ledger;
use crate::net::http::help;
use crate::net::http::status::{
    check_idle_of, check_idle_seconds, dropped, dropped_in, idle_of, idle_seconds, slots_connected,
    slots_filtered, slots_locked, Sample, SlotStatus, Status,
};
use crate::net::http::time::{padded, push_padded};
use crate::net::metrics::{
    last_save_at, time_or_never, Counters, Delivered, Exchange, Metrics, Requests, SlotKey,
};
use crate::table::{bumped, count_in, wrapped, SortKey, Table};
use crate::text::{chars_of, dec, push_decimal};
use vstd::prelude::*;

verus! {

/// A number with a name.
#[derive(Debug, Clone, Copy)]
pub struct Series {
    pub name: &'static str,
    pub help: &'static str,
    pub kind: &'static str,
    pub value: u64,
}

/// What stands above the samples of a series.
pub open spec fn header(name: Seq<char>, help: Seq<char>, kind: Seq<char>) -> Seq<char> {
    "# HELP "@ + name + " "@ + help + "\n# TYPE "@ + name + " "@ + kind + "\n"@
}

/// One sample.
pub open spec fn sample(name: Seq<char>, labels: Seq<char>, value: u64) -> Seq<char> {
    name + labels + " "@ + dec(value as nat) + "\n"@
}

/// A series without labels.
pub open spec fn metric(s: Series) -> Seq<char> {
    header(s.name@, s.help@, s.kind@) + sample(s.name@, Seq::empty(), s.value)
}

/// Series without labels, one behind the other.
pub open spec fn series_text(s: Seq<Series>) -> Seq<char>
    decreases s.len(),
{
    if s.len() == 0 {
        Seq::empty()
    } else {
        series_text(s.drop_last()) + metric(s.last())
    }
}

/// What is there, or zero.
pub open spec fn or_zero(n: Option<u64>) -> u64 {
    match n {
        Some(n) => n,
        None => 0,
    }
}

/// One for true and zero for false.
pub open spec fn one_if(b: bool) -> u64 {
    if b {
        1
    } else {
        0
    }
}

/// The checks of the first `n` slots.
pub open spec fn checks_sum(s: Seq<SlotStatus>, n: nat) -> u64
    decreases n,
{
    if n == 0 {
        0
    } else {
        wrapped(checks_sum(s, (n - 1) as nat), s[n - 1].checks as u64)
    }
}

/// The locations of the first `n` slots.
pub open spec fn possible_sum(s: Seq<SlotStatus>, n: nat) -> u64
    decreases n,
{
    if n == 0 {
        0
    } else {
        wrapped(possible_sum(s, (n - 1) as nat), s[n - 1].total_checks as u64)
    }
}

/// What is queued and connected.
pub open spec fn net_series(live: Status, m: Metrics, ledger: Ledger, at: Sample) -> Seq<Series> {
    seq![
        Series { name: "pahoa_clients_connected", help: help::CLIENTS_CONNECTED, kind: "gauge", value: live.clients_connected as u64 },
        Series { name: "pahoa_mailbox_depth", help: help::MAILBOX_DEPTH, kind: "gauge", value: m@.depth as u64 },
        Series { name: "pahoa_mailbox_peak", help: help::MAILBOX_PEAK, kind: "gauge", value: m@.peak as u64 },
        Series { name: "pahoa_lag_disconnects_total", help: help::LAG_DISCONNECTS, kind: "counter", value: m@.lagged },
        Series { name: "pahoa_shard_overflow_total", help: help::SHARD_OVERFLOW, kind: "counter", value: m@.overflowed },
        Series { name: "pahoa_shard_sweeps_total", help: help::SHARD_SWEEPS, kind: "counter", value: m@.swept },
        Series { name: "pahoa_outbound_queued_bytes", help: help::QUEUED_BYTES, kind: "gauge", value: ledger.queued as u64 },
        Series { name: "pahoa_outbound_peak_bytes", help: help::PEAK_BYTES, kind: "gauge", value: ledger.peak as u64 },
        Series { name: "pahoa_outbound_budget_bytes", help: help::BUDGET_BYTES, kind: "gauge", value: at.outbound_budget_bytes as u64 },
        Series { name: "pahoa_compressions_total", help: help::COMPRESSIONS, kind: "counter", value: at.compressions },
    ]
}

/// How long nothing has happened.
pub open spec fn idle_series(live: Status, m: Metrics, ledger: Ledger, at: Sample) -> Seq<Series> {
    seq![
        Series { name: "pahoa_idle_seconds", help: help::IDLE_SECONDS, kind: "gauge", value: or_zero(idle_of(m@.message_at, at.now)) },
        Series { name: "pahoa_check_idle_seconds", help: help::CHECK_IDLE_SECONDS, kind: "gauge", value: or_zero(check_idle_of(live.last_check_at, at.now)) },
    ]
}

/// The last save.
pub open spec fn save_series(live: Status, m: Metrics, ledger: Ledger, at: Sample) -> Seq<Series> {
    seq![
        Series { name: "pahoa_save_bytes", help: help::SAVE_BYTES, kind: "gauge", value: m@.save_bytes },
        Series { name: "pahoa_save_duration_microseconds", help: help::SAVE_DURATION, kind: "gauge", value: m@.save_micros },
        Series { name: "pahoa_save_dirty", help: help::SAVE_DIRTY, kind: "gauge", value: one_if(live.save_dirty) },
    ]
}

/// The slots, added up.
pub open spec fn slot_series(live: Status, m: Metrics, ledger: Ledger, at: Sample) -> Seq<Series> {
    seq![
        Series { name: "pahoa_slots", help: help::SLOTS, kind: "gauge", value: live.slots@.len() as u64 },
        Series { name: "pahoa_slots_connected", help: help::SLOTS_CONNECTED, kind: "gauge", value: live.slots@.filter(|s: SlotStatus| s.connections > 0).len() as u64 },
        Series { name: "pahoa_slots_locked", help: help::SLOTS_LOCKED, kind: "gauge", value: live.slots@.filter(|s: SlotStatus| s.locked).len() as u64 },
        Series { name: "pahoa_slots_filtered", help: help::SLOTS_FILTERED, kind: "gauge", value: live.slots@.filter(|s: SlotStatus| s.filtered).len() as u64 },
        Series { name: "pahoa_filtered_from_slots_total", help: help::FILTERED_FROM, kind: "counter", value: dropped(live.drops.deep_view(), "from_slot"@) },
        Series { name: "pahoa_filtered_to_slots_total", help: help::FILTERED_TO, kind: "counter", value: dropped(live.drops.deep_view(), "to_slot"@) },
        Series { name: "pahoa_checks_total", help: help::CHECKS, kind: "gauge", value: checks_sum(live.slots@, live.slots@.len()) },
        Series { name: "pahoa_checks_possible", help: help::CHECKS_POSSIBLE, kind: "gauge", value: possible_sum(live.slots@, live.slots@.len()) },
    ]
}

/// Who was turned away.
pub open spec fn admin_series(live: Status, m: Metrics, ledger: Ledger, at: Sample) -> Seq<Series> {
    seq![
        Series { name: "pahoa_admin_auth_failures_total", help: help::AUTH_FAILURES, kind: "counter", value: m@.unauthorized },
        Series { name: "pahoa_admin_auth_rate_limited_total", help: help::AUTH_LIMITED, kind: "counter", value: m@.limited },
        Series { name: "pahoa_http_malformed_total", help: help::HTTP_MALFORMED, kind: "counter", value: m@.malformed },
    ]
}

/// The time of the last save, where there was one.
pub open spec fn saved_series(m: Metrics) -> Seq<Series> {
    match time_or_never(m@.save_at) {
        Some(at) => seq![
            Series {
                name: "pahoa_last_save_timestamp_seconds",
                help: help::LAST_SAVE,
                kind: "gauge",
                value: at,
            },
        ],
        None => Seq::empty(),
    }
}

/// How many characters a label may have.
pub const MAX_LABEL: usize = 128;

/// A character as it stands in a label.
pub open spec fn label_char(c: char) -> Seq<char> {
    if c == '\\' {
        "\\\\"@
    } else if c == '"' {
        "\\\""@
    } else if c == '\n' {
        "\\n"@
    } else {
        seq![c]
    }
}

/// The first `n` characters as they stand in a label.
pub open spec fn label_chars(s: Seq<char>, n: nat) -> Seq<char>
    decreases n,
{
    if n == 0 {
        Seq::empty()
    } else {
        label_chars(s, (n - 1) as nat) + label_char(s[n - 1])
    }
}

/// A text as it stands in a label: escaped, and cut where it is too long.
pub open spec fn label_text(s: Seq<char>) -> Seq<char> {
    label_chars(
        s,
        if s.len() <= MAX_LABEL {
            s.len()
        } else {
            MAX_LABEL as nat
        },
    )
}

/// The name and the game of the last of the first `n` rows that is for a slot.
pub open spec fn named(s: Seq<SlotStatus>, key: SlotKey, n: nat) -> (Seq<char>, Seq<char>)
    decreases n,
{
    if n == 0 {
        (Seq::empty(), Seq::empty())
    } else if s[n - 1].team == key.0 && s[n - 1].slot == key.1 {
        (s[n - 1].name@, s[n - 1].game@)
    } else {
        named(s, key, (n - 1) as nat)
    }
}

/// The labels that say which slot a sample is for.
pub open spec fn slot_labels(s: Seq<SlotStatus>, key: SlotKey) -> Seq<char> {
    let (name, game) = named(s, key, s.len());
    "team=\""@ + dec(key.0 as nat) + "\",slot=\""@ + dec(key.1 as nat) + "\",player=\""@
        + label_text(name) + "\",game=\""@ + label_text(
        if game.len() == 0 {
            "Archipelago"@
        } else {
            game
        },
    ) + "\""@
}

/// Labels in their brackets.
pub open spec fn braced(labels: Seq<char>) -> Seq<char> {
    "{"@ + labels + "}"@
}

/// One label.
pub open spec fn label_of(name: Seq<char>, value: Seq<char>) -> Seq<char> {
    name + "=\""@ + value + "\""@
}

/// The lines of a table's rows.
pub open spec fn lines<R>(rows: Seq<R>, line: spec_fn(R) -> Seq<char>) -> Seq<char>
    decreases rows.len(),
{
    if rows.len() == 0 {
        Seq::empty()
    } else {
        lines(rows.drop_last(), line) + line(rows.last())
    }
}

/// A series with its lines; nothing where there are none.
pub open spec fn section(
    name: Seq<char>,
    help: Seq<char>,
    body: Seq<char>,
) -> Seq<char> {
    if body.len() == 0 {
        Seq::empty()
    } else {
        header(name, help, "counter"@) + body
    }
}

/// The line of packets received from a slot.
pub open spec fn packet_line(
    s: Seq<SlotStatus>,
    e: ((Option<SlotKey>, Seq<char>), u64),
) -> Seq<char> {
    match e.0.0 {
        Some(key) => sample(
            "pahoa_packets_in_total"@,
            braced(slot_labels(s, key) + ","@ + label_of("cmd"@, label_text(e.0.1))),
            e.1,
        ),
        None => Seq::empty(),
    }
}

/// The line of packets received before the connection held a slot.
pub open spec fn early_packet_line(e: ((Option<SlotKey>, Seq<char>), u64)) -> Seq<char> {
    match e.0.0 {
        Some(_) => Seq::empty(),
        None => sample(
            "pahoa_packets_preauth_total"@,
            braced(label_of("cmd"@, label_text(e.0.1))),
            e.1,
        ),
    }
}

/// The line of connections of a slot.
pub open spec fn connection_line(s: Seq<SlotStatus>, e: ((SlotKey, bool), u64)) -> Seq<char> {
    sample(
        "pahoa_client_connections_total"@,
        braced(
            slot_labels(s, e.0.0) + ","@ + label_of(
                "deflate"@,
                if e.0.1 {
                    "true"@
                } else {
                    "false"@
                },
            ),
        ),
        e.1,
    )
}

/// The line of bytes received from a slot.
pub open spec fn bytes_line(s: Seq<SlotStatus>, e: (Option<SlotKey>, u64)) -> Seq<char> {
    match e.0 {
        Some(key) => sample("pahoa_bytes_in_total"@, braced(slot_labels(s, key)), e.1),
        None => Seq::empty(),
    }
}

/// The line of bytes received before the connection held a slot.
pub open spec fn early_bytes_line(e: (Option<SlotKey>, u64)) -> Seq<char> {
    match e.0 {
        Some(_) => Seq::empty(),
        None => sample("pahoa_bytes_in_preauth_total"@, Seq::empty(), e.1),
    }
}

/// The line of packets produced.
pub open spec fn produced_line(e: (Seq<char>, u64)) -> Seq<char> {
    sample("pahoa_packets_out_total"@, braced(label_of("cmd"@, label_text(e.0))), e.1)
}

/// The line of frames sent to a slot.
pub open spec fn frames_line(s: Seq<SlotStatus>, e: (Option<SlotKey>, Delivered)) -> Seq<char> {
    match e.0 {
        Some(key) => sample("pahoa_frames_out_total"@, braced(slot_labels(s, key)), e.1.frames),
        None => Seq::empty(),
    }
}

/// The line of bytes sent to a slot.
pub open spec fn sent_line(s: Seq<SlotStatus>, e: (Option<SlotKey>, Delivered)) -> Seq<char> {
    match e.0 {
        Some(key) => sample("pahoa_bytes_out_total"@, braced(slot_labels(s, key)), e.1.bytes),
        None => Seq::empty(),
    }
}

/// The line of frames sent before the connection held a slot.
pub open spec fn early_frames_line(e: (Option<SlotKey>, Delivered)) -> Seq<char> {
    match e.0 {
        Some(_) => Seq::empty(),
        None => sample("pahoa_frames_out_preauth_total"@, Seq::empty(), e.1.frames),
    }
}

/// The line of bytes sent before the connection held a slot.
pub open spec fn early_sent_line(e: (Option<SlotKey>, Delivered)) -> Seq<char> {
    match e.0 {
        Some(_) => Seq::empty(),
        None => sample("pahoa_bytes_out_preauth_total"@, Seq::empty(), e.1.bytes),
    }
}

/// The line of what a filter dropped.
pub open spec fn drop_line(
    s: Seq<SlotStatus>,
    e: ((SlotKey, (Seq<char>, Seq<char>)), u64),
) -> Seq<char> {
    sample(
        "pahoa_filtered_total"@,
        braced(
            slot_labels(s, e.0.0) + ","@ + label_of("direction"@, e.0.1.0) + ","@ + label_of(
                "kind"@,
                e.0.1.1,
            ),
        ),
        e.1,
    )
}

/// The line of requests for what was already done.
pub open spec fn redundant_line(s: Seq<SlotStatus>, e: ((SlotKey, Seq<char>), u64)) -> Seq<char> {
    sample(
        "pahoa_redundant_requests_total"@,
        braced(slot_labels(s, e.0.0) + ","@ + label_of("kind"@, e.0.1)),
        e.1,
    )
}

/// What came in, by slot.
pub open spec fn incoming_text(live: Status, c: Counters) -> Seq<char> {
    let s = live.slots@;
    section(
        "pahoa_packets_in_total"@,
        help::PACKETS_IN@,
        lines(c.received, |e: ((Option<SlotKey>, Seq<char>), u64)| packet_line(s, e)),
    ) + section(
        "pahoa_packets_preauth_total"@,
        help::PACKETS_PREAUTH@,
        lines(c.received, |e: ((Option<SlotKey>, Seq<char>), u64)| early_packet_line(e)),
    ) + section(
        "pahoa_client_connections_total"@,
        help::CONNECTIONS@,
        lines(c.deflating, |e: ((SlotKey, bool), u64)| connection_line(s, e)),
    ) + section(
        "pahoa_bytes_in_total"@,
        help::BYTES_IN@,
        lines(c.read, |e: (Option<SlotKey>, u64)| bytes_line(s, e)),
    ) + section(
        "pahoa_bytes_in_preauth_total"@,
        help::BYTES_IN_PREAUTH@,
        lines(c.read, |e: (Option<SlotKey>, u64)| early_bytes_line(e)),
    )
}

/// What went out, by slot.
pub open spec fn outgoing_text(live: Status, c: Counters) -> Seq<char> {
    let s = live.slots@;
    section(
        "pahoa_packets_out_total"@,
        help::PACKETS_OUT@,
        lines(c.produced, |e: (Seq<char>, u64)| produced_line(e)),
    ) + section(
        "pahoa_frames_out_total"@,
        help::FRAMES_OUT@,
        lines(c.delivered, |e: (Option<SlotKey>, Delivered)| frames_line(s, e)),
    ) + section(
        "pahoa_bytes_out_total"@,
        help::BYTES_OUT@,
        lines(c.delivered, |e: (Option<SlotKey>, Delivered)| sent_line(s, e)),
    ) + section(
        "pahoa_frames_out_preauth_total"@,
        help::FRAMES_OUT_PREAUTH@,
        lines(c.delivered, |e: (Option<SlotKey>, Delivered)| early_frames_line(e)),
    ) + section(
        "pahoa_bytes_out_preauth_total"@,
        help::BYTES_OUT_PREAUTH@,
        lines(c.delivered, |e: (Option<SlotKey>, Delivered)| early_sent_line(e)),
    )
}

/// What was dropped or was already done, by slot.
pub open spec fn spared_text(live: Status) -> Seq<char> {
    let s = live.slots@;
    section(
        "pahoa_filtered_total"@,
        help::FILTERED@,
        lines(
            live.drops.deep_view(),
            |e: ((SlotKey, (Seq<char>, Seq<char>)), u64)| drop_line(s, e),
        ),
    ) + section(
        "pahoa_redundant_requests_total"@,
        help::REDUNDANT@,
        lines(live.redundant.deep_view(), |e: ((SlotKey, Seq<char>), u64)| redundant_line(s, e)),
    )
}

/// A number of hundredths with its decimal point.
pub open spec fn hundredths(n: u64) -> Seq<char> {
    dec((n / 100) as nat) + "."@ + padded((n % 100) as int, 2)
}

/// How long the process has kept a processor busy, where it is known.
pub open spec fn cpu_text(at: Sample) -> Seq<char> {
    match at.cpu {
        Some(n) => header("process_cpu_seconds_total"@, help::CPU_SECONDS@, "counter"@)
            + "process_cpu_seconds_total "@ + hundredths(n) + "\n"@,
        None => Seq::empty(),
    }
}

/// When the process was started, where it is known.
pub open spec fn start_text(at: Sample) -> Seq<char> {
    match at.start {
        Some(n) => header("process_start_time_seconds"@, help::START_TIME@, "gauge"@)
            + "process_start_time_seconds "@ + hundredths(n) + "0\n"@,
        None => Seq::empty(),
    }
}

/// What the process holds of memory, where it is known.
pub open spec fn resident_text(at: Sample) -> Seq<char> {
    match at.resident {
        Some(n) => metric(
            Series {
                name: "process_resident_memory_bytes",
                help: help::RESIDENT,
                kind: "gauge",
                value: n,
            },
        ),
        None => Seq::empty(),
    }
}

/// What the process costs.
pub open spec fn process_text(at: Sample) -> Seq<char> {
    cpu_text(at) + start_text(at) + resident_text(at)
}

/// The line of one kind of request.
pub open spec fn request_line(e: (((Seq<char>, Seq<char>), u16), Exchange)) -> Seq<char> {
    sample(
        "pahoa_http_requests_total"@,
        braced(
            label_of("route"@, label_text(e.0.0.0)) + ","@ + label_of("method"@, e.0.0.1) + ","@
                + label_of("status"@, dec(e.0.1 as nat)),
        ),
        e.1.count,
    )
}

/// Bytes by route: those of the requests, or those of the answers.
pub open spec fn route_bytes(
    rows: Seq<(((Seq<char>, Seq<char>), u16), Exchange)>,
    answers: bool,
) -> Seq<(Seq<char>, u64)>
    decreases rows.len(),
{
    if rows.len() == 0 {
        Seq::empty()
    } else {
        let e = rows.last();
        bumped::<&'static str>(
            route_bytes(rows.drop_last(), answers),
            e.0.0.0,
            if answers {
                e.1.response_bytes
            } else {
                e.1.request_bytes
            },
        )
    }
}

/// The line of the bytes of one route.
pub open spec fn route_line(name: Seq<char>, e: (Seq<char>, u64)) -> Seq<char> {
    sample(name, braced(label_of("route"@, label_text(e.0))), e.1)
}

/// The HTTP surface, apart from the game's traffic.
pub open spec fn http_text(c: Counters) -> Seq<char> {
    section(
        "pahoa_http_requests_total"@,
        help::HTTP_REQUESTS@,
        lines(c.requests, |e: (((Seq<char>, Seq<char>), u16), Exchange)| request_line(e)),
    ) + section(
        "pahoa_http_request_bytes_total"@,
        help::HTTP_REQUEST_BYTES@,
        lines(
            route_bytes(c.requests, false),
            |e: (Seq<char>, u64)| route_line("pahoa_http_request_bytes_total"@, e),
        ),
    ) + section(
        "pahoa_http_response_bytes_total"@,
        help::HTTP_RESPONSE_BYTES@,
        lines(
            route_bytes(c.requests, true),
            |e: (Seq<char>, u64)| route_line("pahoa_http_response_bytes_total"@, e),
        ),
    )
}

/// What there is to say of saves.
pub open spec fn saving_text(live: Status, m: Metrics, ledger: Ledger, at: Sample) -> Seq<char> {
    if live.saving {
        series_text(save_series(live, m, ledger, at)) + series_text(saved_series(m))
    } else {
        Seq::empty()
    }
}

/// All series of a room.
pub open spec fn prometheus_text(live: Status, m: Metrics, ledger: Ledger, at: Sample) -> Seq<
    char,
> {
    series_text(net_series(live, m, ledger, at)) + series_text(idle_series(live, m, ledger, at))
        + saving_text(live, m, ledger, at) + series_text(slot_series(live, m, ledger, at))
        + series_text(admin_series(live, m, ledger, at)) + process_text(at) + incoming_text(
        live,
        m@,
    ) + outgoing_text(live, m@) + spared_text(live) + http_text(m@)
}

fn zero_if_none(n: Option<u64>) -> (r: u64)
    ensures
        r == or_zero(n),
{
    match n {
        Some(n) => n,
        None => 0,
    }
}

fn flag(b: bool) -> (r: u64)
    ensures
        r == one_if(b),
{
    if b {
        1
    } else {
        0
    }
}

fn checks_total(slots: &Vec<SlotStatus>) -> (r: u64)
    ensures
        r == checks_sum(slots@, slots@.len()),
{
    let mut total: u64 = 0;
    for i in 0..slots.len()
        invariant
            total == checks_sum(slots@, i as nat),
    {
        total = total.wrapping_add(slots[i].checks as u64);
    }
    total
}

fn possible_total(slots: &Vec<SlotStatus>) -> (r: u64)
    ensures
        r == possible_sum(slots@, slots@.len()),
{
    let mut total: u64 = 0;
    for i in 0..slots.len()
        invariant
            total == possible_sum(slots@, i as nat),
    {
        total = total.wrapping_add(slots[i].total_checks as u64);
    }
    total
}

fn push_header(out: &mut String, name: &str, help: &str, kind: &str)
    ensures
        final(out)@ == old(out)@ + header(name@, help@, kind@),
{
    out.append("# HELP ");
    out.append(name);
    out.append(" ");
    out.append(help);
    out.append("\n# TYPE ");
    out.append(name);
    out.append(" ");
    out.append(kind);
    out.append("\n");
    assert(out@ =~= old(out)@ + header(name@, help@, kind@));
}

fn push_sample(out: &mut String, name: &str, labels: &str, value: u64)
    ensures
        final(out)@ == old(out)@ + sample(name@, labels@, value),
{
    out.append(name);
    out.append(labels);
    out.append(" ");
    push_decimal(out, value);
    out.append("\n");
    assert(out@ =~= old(out)@ + sample(name@, labels@, value));
}

fn push_metric(out: &mut String, s: &Series)
    ensures
        final(out)@ == old(out)@ + metric(*s),
{
    push_header(out, s.name, s.help, s.kind);
    let none = String::new();
    push_sample(out, s.name, none.as_str(), s.value);
    assert(out@ =~= old(out)@ + metric(*s));
}

fn push_series(out: &mut String, all: &Vec<Series>)
    ensures
        final(out)@ == old(out)@ + series_text(all@),
{
    assert(all@.take(0) =~= Seq::<Series>::empty());
    assert(out@ =~= old(out)@ + series_text(all@.take(0)));
    for i in 0..all.len()
        invariant
            out@ == old(out)@ + series_text(all@.take(i as int)),
    {
        assert(all@.take(i + 1).drop_last() =~= all@.take(i as int));
        push_metric(out, &all[i]);
        assert(out@ =~= old(out)@ + series_text(all@.take(i + 1)));
    }
    assert(all@.take(all@.len() as int) =~= all@);
}

/// What is queued and connected.
fn push_net_series(out: &mut String, live: &Status, m: &Metrics, ledger: &Ledger, at: &Sample)
    ensures
        final(out)@ == old(out)@ + series_text(net_series(*live, *m, *ledger, *at)),
{
    let all: Vec<Series> = vec![
        Series { name: "pahoa_clients_connected", help: help::CLIENTS_CONNECTED, kind: "gauge", value: live.clients_connected as u64 },
        Series { name: "pahoa_mailbox_depth", help: help::MAILBOX_DEPTH, kind: "gauge", value: m.depth as u64 },
        Series { name: "pahoa_mailbox_peak", help: help::MAILBOX_PEAK, kind: "gauge", value: m.peak as u64 },
        Series { name: "pahoa_lag_disconnects_total", help: help::LAG_DISCONNECTS, kind: "counter", value: m.lagged },
        Series { name: "pahoa_shard_overflow_total", help: help::SHARD_OVERFLOW, kind: "counter", value: m.overflowed },
        Series { name: "pahoa_shard_sweeps_total", help: help::SHARD_SWEEPS, kind: "counter", value: m.swept },
        Series { name: "pahoa_outbound_queued_bytes", help: help::QUEUED_BYTES, kind: "gauge", value: ledger.queued as u64 },
        Series { name: "pahoa_outbound_peak_bytes", help: help::PEAK_BYTES, kind: "gauge", value: ledger.peak as u64 },
        Series { name: "pahoa_outbound_budget_bytes", help: help::BUDGET_BYTES, kind: "gauge", value: at.outbound_budget_bytes as u64 },
        Series { name: "pahoa_compressions_total", help: help::COMPRESSIONS, kind: "counter", value: at.compressions },
    ];
    assert(all@ =~= net_series(*live, *m, *ledger, *at));
    push_series(out, &all);
}

/// How long nothing has happened.
fn push_idle_series(out: &mut String, live: &Status, m: &Metrics, ledger: &Ledger, at: &Sample)
    ensures
        final(out)@ == old(out)@ + series_text(idle_series(*live, *m, *ledger, *at)),
{
    let all: Vec<Series> = vec![
        Series { name: "pahoa_idle_seconds", help: help::IDLE_SECONDS, kind: "gauge", value: zero_if_none(idle_seconds(m, at.now)) },
        Series { name: "pahoa_check_idle_seconds", help: help::CHECK_IDLE_SECONDS, kind: "gauge", value: zero_if_none(check_idle_seconds(live.last_check_at, at.now)) },
    ];
    assert(all@ =~= idle_series(*live, *m, *ledger, *at));
    push_series(out, &all);
}

/// The last save.
fn push_save_series(out: &mut String, live: &Status, m: &Metrics, ledger: &Ledger, at: &Sample)
    ensures
        final(out)@ == old(out)@ + series_text(save_series(*live, *m, *ledger, *at)),
{
    let all: Vec<Series> = vec![
        Series { name: "pahoa_save_bytes", help: help::SAVE_BYTES, kind: "gauge", value: m.save_bytes },
        Series { name: "pahoa_save_duration_microseconds", help: help::SAVE_DURATION, kind: "gauge", value: m.save_micros },
        Series { name: "pahoa_save_dirty", help: help::SAVE_DIRTY, kind: "gauge", value: flag(live.save_dirty) },
    ];
    assert(all@ =~= save_series(*live, *m, *ledger, *at));
    push_series(out, &all);
}

/// The slots, added up.
fn push_slot_series(out: &mut String, live: &Status, m: &Metrics, ledger: &Ledger, at: &Sample)
    ensures
        final(out)@ == old(out)@ + series_text(slot_series(*live, *m, *ledger, *at)),
{
    let all: Vec<Series> = vec![
        Series { name: "pahoa_slots", help: help::SLOTS, kind: "gauge", value: live.slots.len() as u64 },
        Series { name: "pahoa_slots_connected", help: help::SLOTS_CONNECTED, kind: "gauge", value: slots_connected(&live.slots) as u64 },
        Series { name: "pahoa_slots_locked", help: help::SLOTS_LOCKED, kind: "gauge", value: slots_locked(&live.slots) as u64 },
        Series { name: "pahoa_slots_filtered", help: help::SLOTS_FILTERED, kind: "gauge", value: slots_filtered(&live.slots) as u64 },
        Series { name: "pahoa_filtered_from_slots_total", help: help::FILTERED_FROM, kind: "counter", value: dropped_in(&live.drops, "from_slot") },
        Series { name: "pahoa_filtered_to_slots_total", help: help::FILTERED_TO, kind: "counter", value: dropped_in(&live.drops, "to_slot") },
        Series { name: "pahoa_checks_total", help: help::CHECKS, kind: "gauge", value: checks_total(&live.slots) },
        Series { name: "pahoa_checks_possible", help: help::CHECKS_POSSIBLE, kind: "gauge", value: possible_total(&live.slots) },
    ];
    assert(all@ =~= slot_series(*live, *m, *ledger, *at));
    push_series(out, &all);
}

/// Who was turned away.
fn push_admin_series(out: &mut String, live: &Status, m: &Metrics, ledger: &Ledger, at: &Sample)
    ensures
        final(out)@ == old(out)@ + series_text(admin_series(*live, *m, *ledger, *at)),
{
    let all: Vec<Series> = vec![
        Series { name: "pahoa_admin_auth_failures_total", help: help::AUTH_FAILURES, kind: "counter", value: m.unauthorized },
        Series { name: "pahoa_admin_auth_rate_limited_total", help: help::AUTH_LIMITED, kind: "counter", value: m.limited },
        Series { name: "pahoa_http_malformed_total", help: help::HTTP_MALFORMED, kind: "counter", value: m.malformed },
    ];
    assert(all@ =~= admin_series(*live, *m, *ledger, *at));
    push_series(out, &all);
}

fn push_saved(out: &mut String, m: &Metrics)
    ensures
        final(out)@ == old(out)@ + series_text(saved_series(*m)),
{
    let mut all: Vec<Series> = Vec::new();
    if let Some(at) = last_save_at(m) {
        all.push(
            Series {
                name: "pahoa_last_save_timestamp_seconds",
                help: help::LAST_SAVE,
                kind: "gauge",
                value: at,
            },
        );
    }
    assert(all@ =~= saved_series(*m));
    push_series(out, &all);
}

fn push_label_char(out: &mut String, c: char)
    ensures
        final(out)@ == old(out)@ + label_char(c),
{
    if c == '\\' {
        out.append("\\\\");
    } else if c == '"' {
        out.append("\\\"");
    } else if c == '\n' {
        out.append("\\n");
    } else {
        out.push(c);
        assert(out@ =~= old(out)@ + label_char(c));
    }
}

/// A text as it stands in a label.
pub fn label(value: &str) -> (r: String)
    ensures
        r@ == label_text(value@),
{
    let v = chars_of(value);
    let n: usize = if v.len() <= MAX_LABEL {
        v.len()
    } else {
        MAX_LABEL
    };
    let mut out = String::new();
    for i in 0..n
        invariant
            v@ == value@,
            n <= v@.len(),
            out@ == label_chars(value@, i as nat),
    {
        push_label_char(&mut out, v[i]);
    }
    out
}

/// The labels that say which slot a sample is for.
fn identify(slots: &Vec<SlotStatus>, key: SlotKey) -> (r: String)
    ensures
        r@ == slot_labels(slots@, key),
{
    let mut i: usize = slots.len();
    let mut name = String::new();
    let mut game = String::new();
    let ghost found = named(slots@, key, slots@.len());
    while i > 0
        invariant_except_break
            i <= slots@.len(),
            named(slots@, key, slots@.len()) == named(slots@, key, i as nat),
            name@.len() == 0 && game@.len() == 0,
        ensures
            (name@, game@) == named(slots@, key, slots@.len()),
        decreases i,
    {
        if slots[i - 1].team == key.0 && slots[i - 1].slot == key.1 {
            name = slots[i - 1].name.clone();
            game = slots[i - 1].game.clone();
            break;
        }
        i -= 1;
    }
    if game.as_str().unicode_len() == 0 {
        game = "Archipelago".to_string();
    }
    let mut out = "team=\"".to_string();
    push_decimal(&mut out, key.0 as u64);
    out.append("\",slot=\"");
    push_decimal(&mut out, key.1 as u64);
    out.append("\",player=\"");
    out.append(label(name.as_str()).as_str());
    out.append("\",game=\"");
    out.append(label(game.as_str()).as_str());
    out.append("\"");
    out
}

/// A sample with labels.
fn labelled(name: &str, labels: &str, value: u64) -> (r: String)
    ensures
        r@ == sample(name@, braced(labels@), value),
{
    let mut all = "{".to_string();
    all.append(labels);
    all.append("}");
    let mut out = String::new();
    push_sample(&mut out, name, all.as_str(), value);
    assert(out@ =~= sample(name@, braced(labels@), value));
    out
}

/// A sample without labels.
fn unlabelled(name: &str, value: u64) -> (r: String)
    ensures
        r@ == sample(name@, Seq::empty(), value),
{
    let none = String::new();
    let mut out = String::new();
    push_sample(&mut out, name, none.as_str(), value);
    assert(out@ =~= sample(name@, Seq::empty(), value));
    out
}

fn push_label(out: &mut String, name: &str, value: &str)
    ensures
        final(out)@ == old(out)@ + label_of(name@, value@),
{
    out.append(name);
    out.append("=\"");
    out.append(value);
    out.append("\"");
    assert(out@ =~= old(out)@ + label_of(name@, value@));
}

/// The lines of a table's rows.
fn rows_text<K: SortKey, T: DeepView, F: Fn(&K, &T) -> String>(
    table: &Table<K, T>,
    one: F,
    Ghost(line): Ghost<spec_fn((K::V, T::V)) -> Seq<char>>,
) -> (r: String)
    requires
        forall|k: &K, v: &T| #[trigger] one.requires((k, v)),
        forall|k: &K, v: &T, s: String| #[trigger]
            one.ensures((k, v), s) ==> s@ == line((k.deep_view(), v.deep_view())),
    ensures
        r@ == lines(table.deep_view(), line),
{
    let ghost rows = table.deep_view();
    let n: usize = table.len();
    let mut out = String::new();
    assert(rows.take(0) =~= Seq::<(K::V, T::V)>::empty());
    for i in 0..n
        invariant
            rows == table.deep_view(),
            n == rows.len(),
            forall|k: &K, v: &T| #[trigger] one.requires((k, v)),
            forall|k: &K, v: &T, s: String| #[trigger]
                one.ensures((k, v), s) ==> s@ == line((k.deep_view(), v.deep_view())),
            out@ == lines(rows.take(i as int), line),
    {
        assert(rows.take(i + 1).drop_last() =~= rows.take(i as int));
        let s = one(table.key_at(i), table.value_at(i));
        out.append(s.as_str());
    }
    assert(rows.take(n as int) =~= rows);
    out
}

fn push_section(out: &mut String, name: &str, help: &str, body: String)
    ensures
        final(out)@ == old(out)@ + section(name@, help@, body@),
{
    if body.as_str().unicode_len() > 0 {
        push_header(out, name, help, "counter");
        out.append(body.as_str());
    }
    assert(out@ =~= old(out)@ + section(name@, help@, body@));
}

fn push_packets(out: &mut String, live: &Status, m: &Metrics)
    ensures
        final(out)@ == old(out)@ + section(
            "pahoa_packets_in_total"@,
            help::PACKETS_IN@,
            lines(m@.received, |e: ((Option<SlotKey>, Seq<char>), u64)| packet_line(live.slots@, e)),
        ),
{
    let slots = &live.slots;
    let one = |k: &(Option<SlotKey>, &'static str), n: &u64| -> (r: String)
        ensures
            r@ == packet_line(live.slots@, (k.deep_view(), *n)),
        {
            match k.0 {
                Some(key) => {
                    let mut labels = identify(slots, key);
                    labels.append(",");
                    push_label(&mut labels, "cmd", label(k.1).as_str());
                    assert(labels@ =~= slot_labels(slots@, key) + ","@ + label_of("cmd"@, label_text(k.1@)));
                    labelled("pahoa_packets_in_total", labels.as_str(), *n)
                },
                None => String::new(),
            }
        };
    let body = rows_text(&m.received, one, Ghost(|e: ((Option<SlotKey>, Seq<char>), u64)| packet_line(live.slots@, e)));
    push_section(out, "pahoa_packets_in_total", help::PACKETS_IN, body);
}

fn push_early_packets(out: &mut String, live: &Status, m: &Metrics)
    ensures
        final(out)@ == old(out)@ + section(
            "pahoa_packets_preauth_total"@,
            help::PACKETS_PREAUTH@,
            lines(m@.received, |e: ((Option<SlotKey>, Seq<char>), u64)| early_packet_line(e)),
        ),
{
    let slots = &live.slots;
    let one = |k: &(Option<SlotKey>, &'static str), n: &u64| -> (r: String)
        ensures
            r@ == early_packet_line((k.deep_view(), *n)),
        {
            match k.0 {
                Some(_) => String::new(),
                None => {
                    let mut labels = String::new();
                    push_label(&mut labels, "cmd", label(k.1).as_str());
                    assert(labels@ =~= label_of("cmd"@, label_text(k.1@)));
                    labelled("pahoa_packets_preauth_total", labels.as_str(), *n)
                },
            }
        };
    let body = rows_text(&m.received, one, Ghost(|e: ((Option<SlotKey>, Seq<char>), u64)| early_packet_line(e)));
    push_section(out, "pahoa_packets_preauth_total", help::PACKETS_PREAUTH, body);
}

fn push_connections(out: &mut String, live: &Status, m: &Metrics)
    ensures
        final(out)@ == old(out)@ + section(
            "pahoa_client_connections_total"@,
            help::CONNECTIONS@,
            lines(m@.deflating, |e: ((SlotKey, bool), u64)| connection_line(live.slots@, e)),
        ),
{
    let slots = &live.slots;
    let one = |k: &(SlotKey, bool), n: &u64| -> (r: String)
        ensures
            r@ == connection_line(live.slots@, (k.deep_view(), *n)),
        {
            let mut labels = identify(slots, k.0);
            labels.append(",");
            push_label(
                &mut labels,
                "deflate",
                if k.1 {
                    "true"
                } else {
                    "false"
                },
            );
            assert(labels@ =~= slot_labels(slots@, k.0) + ","@ + label_of(
                "deflate"@,
                if k.1 {
                    "true"@
                } else {
                    "false"@
                },
            ));
            labelled("pahoa_client_connections_total", labels.as_str(), *n)
        };
    let body = rows_text(&m.deflating, one, Ghost(|e: ((SlotKey, bool), u64)| connection_line(live.slots@, e)));
    push_section(out, "pahoa_client_connections_total", help::CONNECTIONS, body);
}

fn push_bytes(out: &mut String, live: &Status, m: &Metrics)
    ensures
        final(out)@ == old(out)@ + section(
            "pahoa_bytes_in_total"@,
            help::BYTES_IN@,
            lines(m@.read, |e: (Option<SlotKey>, u64)| bytes_line(live.slots@, e)),
        ),
{
    let slots = &live.slots;
    let one = |k: &Option<SlotKey>, n: &u64| -> (r: String)
        ensures
            r@ == bytes_line(live.slots@, (k.deep_view(), *n)),
        {
            match *k {
                Some(key) => labelled(
                    "pahoa_bytes_in_total",
                    identify(slots, key).as_str(),
                    *n,
                ),
                None => String::new(),
            }
        };
    let body = rows_text(&m.read, one, Ghost(|e: (Option<SlotKey>, u64)| bytes_line(live.slots@, e)));
    push_section(out, "pahoa_bytes_in_total", help::BYTES_IN, body);
}

fn push_early_bytes(out: &mut String, live: &Status, m: &Metrics)
    ensures
        final(out)@ == old(out)@ + section(
            "pahoa_bytes_in_preauth_total"@,
            help::BYTES_IN_PREAUTH@,
            lines(m@.read, |e: (Option<SlotKey>, u64)| early_bytes_line(e)),
        ),
{
    let slots = &live.slots;
    let one = |k: &Option<SlotKey>, n: &u64| -> (r: String)
        ensures
            r@ == early_bytes_line((k.deep_view(), *n)),
        {
            match *k {
                Some(_) => String::new(),
                None => unlabelled("pahoa_bytes_in_preauth_total", *n),
            }
        };
    let body = rows_text(&m.read, one, Ghost(|e: (Option<SlotKey>, u64)| early_bytes_line(e)));
    push_section(out, "pahoa_bytes_in_preauth_total", help::BYTES_IN_PREAUTH, body);
}

fn push_produced(out: &mut String, live: &Status, m: &Metrics)
    ensures
        final(out)@ == old(out)@ + section(
            "pahoa_packets_out_total"@,
            help::PACKETS_OUT@,
            lines(m@.produced, |e: (Seq<char>, u64)| produced_line(e)),
        ),
{
    let slots = &live.slots;
    let one = |k: &String, n: &u64| -> (r: String)
        ensures
            r@ == produced_line((k.deep_view(), *n)),
        {
            let mut labels = String::new();
            push_label(&mut labels, "cmd", label(k.as_str()).as_str());
            assert(labels@ =~= label_of("cmd"@, label_text(k@)));
            labelled("pahoa_packets_out_total", labels.as_str(), *n)
        };
    let body = rows_text(&m.produced, one, Ghost(|e: (Seq<char>, u64)| produced_line(e)));
    push_section(out, "pahoa_packets_out_total", help::PACKETS_OUT, body);
}

fn push_frames(out: &mut String, live: &Status, m: &Metrics)
    ensures
        final(out)@ == old(out)@ + section(
            "pahoa_frames_out_total"@,
            help::FRAMES_OUT@,
            lines(m@.delivered, |e: (Option<SlotKey>, Delivered)| frames_line(live.slots@, e)),
        ),
{
    let slots = &live.slots;
    let one = |k: &Option<SlotKey>, n: &Delivered| -> (r: String)
        ensures
            r@ == frames_line(live.slots@, (k.deep_view(), *n)),
        {
            match *k {
                Some(key) => labelled(
                    "pahoa_frames_out_total",
                    identify(slots, key).as_str(),
                    n.frames,
                ),
                None => String::new(),
            }
        };
    let body = rows_text(&m.delivered, one, Ghost(|e: (Option<SlotKey>, Delivered)| frames_line(live.slots@, e)));
    push_section(out, "pahoa_frames_out_total", help::FRAMES_OUT, body);
}

fn push_sent(out: &mut String, live: &Status, m: &Metrics)
    ensures
        final(out)@ == old(out)@ + section(
            "pahoa_bytes_out_total"@,
            help::BYTES_OUT@,
            lines(m@.delivered, |e: (Option<SlotKey>, Delivered)| sent_line(live.slots@, e)),
        ),
{
    let slots = &live.slots;
    let one = |k: &Option<SlotKey>, n: &Delivered| -> (r: String)
        ensures
            r@ == sent_line(live.slots@, (k.deep_view(), *n)),
        {
            match *k {
                Some(key) => labelled(
                    "pahoa_bytes_out_total",
                    identify(slots, key).as_str(),
                    n.bytes,
                ),
                None => String::new(),
            }
        };
    let body = rows_text(&m.delivered, one, Ghost(|e: (Option<SlotKey>, Delivered)| sent_line(live.slots@, e)));
    push_section(out, "pahoa_bytes_out_total", help::BYTES_OUT, body);
}

fn push_early_frames(out: &mut String, live: &Status, m: &Metrics)
    ensures
        final(out)@ == old(out)@ + section(
            "pahoa_frames_out_preauth_total"@,
            help::FRAMES_OUT_PREAUTH@,
            lines(m@.delivered, |e: (Option<SlotKey>, Delivered)| early_frames_line(e)),
        ),
{
    let slots = &live.slots;
    let one = |k: &Option<SlotKey>, n: &Delivered| -> (r: String)
        ensures
            r@ == early_frames_line((k.deep_view(), *n)),
        {
            match *k {
                Some(_) => String::new(),
                None => unlabelled("pahoa_frames_out_preauth_total", n.frames),
            }
        };
    let body = rows_text(&m.delivered, one, Ghost(|e: (Option<SlotKey>, Delivered)| early_frames_line(e)));
    push_section(out, "pahoa_frames_out_preauth_total", help::FRAMES_OUT_PREAUTH, body);
}

fn push_early_sent(out: &mut String, live: &Status, m: &Metrics)
    ensures
        final(out)@ == old(out)@ + section(
            "pahoa_bytes_out_preauth_total"@,
            help::BYTES_OUT_PREAUTH@,
            lines(m@.delivered, |e: (Option<SlotKey>, Delivered)| early_sent_line(e)),
        ),
{
    let slots = &live.slots;
    let one = |k: &Option<SlotKey>, n: &Delivered| -> (r: String)
        ensures
            r@ == early_sent_line((k.deep_view(), *n)),
        {
            match *k {
                Some(_) => String::new(),
                None => unlabelled("pahoa_bytes_out_preauth_total", n.bytes),
            }
        };
    let body = rows_text(&m.delivered, one, Ghost(|e: (Option<SlotKey>, Delivered)| early_sent_line(e)));
    push_section(out, "pahoa_bytes_out_preauth_total", help::BYTES_OUT_PREAUTH, body);
}

fn push_drops(out: &mut String, live: &Status)
    ensures
        final(out)@ == old(out)@ + section(
            "pahoa_filtered_total"@,
            help::FILTERED@,
            lines(live.drops.deep_view(), |e: ((SlotKey, (Seq<char>, Seq<char>)), u64)| drop_line(live.slots@, e)),
        ),
{
    let slots = &live.slots;
    let one = |k: &(SlotKey, (&'static str, &'static str)), n: &u64| -> (r: String)
        ensures
            r@ == drop_line(live.slots@, (k.deep_view(), *n)),
        {
            let mut labels = identify(slots, k.0);
            labels.append(",");
            push_label(&mut labels, "direction", k.1.0);
            labels.append(",");
            push_label(&mut labels, "kind", k.1.1);
            assert(labels@ =~= slot_labels(slots@, k.0) + ","@ + label_of("direction"@, k.1.0@)
                + ","@ + label_of("kind"@, k.1.1@));
            labelled("pahoa_filtered_total", labels.as_str(), *n)
        };
    let body = rows_text(&live.drops, one, Ghost(|e: ((SlotKey, (Seq<char>, Seq<char>)), u64)| drop_line(live.slots@, e)));
    push_section(out, "pahoa_filtered_total", help::FILTERED, body);
}

fn push_redundant(out: &mut String, live: &Status)
    ensures
        final(out)@ == old(out)@ + section(
            "pahoa_redundant_requests_total"@,
            help::REDUNDANT@,
            lines(live.redundant.deep_view(), |e: ((SlotKey, Seq<char>), u64)| redundant_line(live.slots@, e)),
        ),
{
    let slots = &live.slots;
    let one = |k: &(SlotKey, &'static str), n: &u64| -> (r: String)
        ensures
            r@ == redundant_line(live.slots@, (k.deep_view(), *n)),
        {
            let mut labels = identify(slots, k.0);
            labels.append(",");
            push_label(&mut labels, "kind", k.1);
            assert(labels@ =~= slot_labels(slots@, k.0) + ","@ + label_of("kind"@, k.1@));
            labelled("pahoa_redundant_requests_total", labels.as_str(), *n)
        };
    let body = rows_text(&live.redundant, one, Ghost(|e: ((SlotKey, Seq<char>), u64)| redundant_line(live.slots@, e)));
    push_section(out, "pahoa_redundant_requests_total", help::REDUNDANT, body);
}

fn push_requests(out: &mut String, m: &Metrics)
    ensures
        final(out)@ == old(out)@ + section(
            "pahoa_http_requests_total"@,
            help::HTTP_REQUESTS@,
            lines(m@.requests, |e: (((Seq<char>, Seq<char>), u16), Exchange)| request_line(e)),
        ),
{
    let one = |k: &((&'static str, &'static str), u16), n: &Exchange| -> (r: String)
        ensures
            r@ == request_line((k.deep_view(), *n)),
        {
            let mut status = String::new();
            push_decimal(&mut status, k.1 as u64);
            assert(status@ =~= dec(k.1 as nat));
            let mut labels = String::new();
            push_label(&mut labels, "route", label(k.0.0).as_str());
            labels.append(",");
            push_label(&mut labels, "method", k.0.1);
            labels.append(",");
            push_label(&mut labels, "status", status.as_str());
            assert(labels@ =~= label_of("route"@, label_text(k.0.0@)) + ","@ + label_of(
                "method"@,
                k.0.1@,
            ) + ","@ + label_of("status"@, dec(k.1 as nat)));
            labelled("pahoa_http_requests_total", labels.as_str(), n.count)
        };
    let body = rows_text(
        &m.requests,
        one,
        Ghost(|e: (((Seq<char>, Seq<char>), u16), Exchange)| request_line(e)),
    );
    push_section(out, "pahoa_http_requests_total", help::HTTP_REQUESTS, body);
}

/// Bytes by route.
fn bytes_by_route(requests: &Requests, answers: bool) -> (r: Table<&'static str, u64>)
    ensures
        r.deep_view() == route_bytes(requests.deep_view(), answers),
{
    let ghost rows = requests.deep_view();
    let n: usize = requests.len();
    let mut out: Table<&'static str, u64> = Table::new();
    assert(rows.take(0) =~= Seq::empty());
    for i in 0..n
        invariant
            rows == requests.deep_view(),
            n == rows.len(),
            out.deep_view() == route_bytes(rows.take(i as int), answers),
    {
        assert(rows.take(i + 1).drop_last() =~= rows.take(i as int));
        let e = requests.value_at(i);
        let bytes: u64 = if answers {
            e.response_bytes
        } else {
            e.request_bytes
        };
        count_in(&mut out, requests.key_at(i).0.0, bytes);
    }
    assert(rows.take(n as int) =~= rows);
    out
}

fn push_route_bytes(
    out: &mut String,
    m: &Metrics,
    name: &'static str,
    help: &'static str,
    answers: bool,
)
    ensures
        final(out)@ == old(out)@ + section(
            name@,
            help@,
            lines(
                route_bytes(m@.requests, answers),
                |e: (Seq<char>, u64)| route_line(name@, e),
            ),
        ),
{
    let totals = bytes_by_route(&m.requests, answers);
    let one = |k: &&'static str, n: &u64| -> (r: String)
        ensures
            r@ == route_line(name@, (k.deep_view(), *n)),
        {
            let mut labels = String::new();
            push_label(&mut labels, "route", label(*k).as_str());
            assert(labels@ =~= label_of("route"@, label_text(k@)));
            labelled(name, labels.as_str(), *n)
        };
    let body = rows_text(&totals, one, Ghost(|e: (Seq<char>, u64)| route_line(name@, e)));
    push_section(out, name, help, body);
}

fn push_hundredths(out: &mut String, n: u64)
    ensures
        final(out)@ == old(out)@ + hundredths(n),
{
    push_decimal(out, n / 100);
    out.append(".");
    push_padded(out, (n % 100) as i64, 2);
    assert(out@ =~= old(out)@ + hundredths(n));
}

fn push_cpu(out: &mut String, at: &Sample)
    ensures
        final(out)@ == old(out)@ + cpu_text(*at),
{
    if let Some(n) = at.cpu {
        push_header(out, "process_cpu_seconds_total", help::CPU_SECONDS, "counter");
        out.append("process_cpu_seconds_total ");
        push_hundredths(out, n);
        out.append("\n");
    }
    assert(out@ =~= old(out)@ + cpu_text(*at));
}

fn push_start(out: &mut String, at: &Sample)
    ensures
        final(out)@ == old(out)@ + start_text(*at),
{
    if let Some(n) = at.start {
        push_header(out, "process_start_time_seconds", help::START_TIME, "gauge");
        out.append("process_start_time_seconds ");
        push_hundredths(out, n);
        out.append("0\n");
    }
    assert(out@ =~= old(out)@ + start_text(*at));
}

fn push_resident(out: &mut String, at: &Sample)
    ensures
        final(out)@ == old(out)@ + resident_text(*at),
{
    if let Some(n) = at.resident {
        let s = Series {
            name: "process_resident_memory_bytes",
            help: help::RESIDENT,
            kind: "gauge",
            value: n,
        };
        push_metric(out, &s);
    } else {
        assert(out@ =~= old(out)@ + resident_text(*at));
    }
}

/// What the process costs.
fn process(out: &mut String, at: &Sample)
    ensures
        final(out)@ == old(out)@ + process_text(*at),
{
    push_cpu(out, at);
    push_start(out, at);
    push_resident(out, at);
    assert(out@ =~= old(out)@ + process_text(*at));
}

/// The HTTP surface, apart from the game's traffic.
fn http_surface(out: &mut String, m: &Metrics)
    ensures
        final(out)@ == old(out)@ + http_text(m@),
{
    push_requests(out, m);
    push_route_bytes(
        out,
        m,
        "pahoa_http_request_bytes_total",
        help::HTTP_REQUEST_BYTES,
        false,
    );
    push_route_bytes(
        out,
        m,
        "pahoa_http_response_bytes_total",
        help::HTTP_RESPONSE_BYTES,
        true,
    );
    assert(out@ =~= old(out)@ + http_text(m@));
}

/// What came in, by slot.
fn incoming(out: &mut String, live: &Status, m: &Metrics)
    ensures
        final(out)@ == old(out)@ + incoming_text(*live, m@),
{
    push_packets(out, live, m);
    push_early_packets(out, live, m);
    push_connections(out, live, m);
    push_bytes(out, live, m);
    push_early_bytes(out, live, m);
    assert(out@ =~= old(out)@ + incoming_text(*live, m@));
}

/// What went out, by slot.
fn outgoing(out: &mut String, live: &Status, m: &Metrics)
    ensures
        final(out)@ == old(out)@ + outgoing_text(*live, m@),
{
    push_produced(out, live, m);
    push_frames(out, live, m);
    push_sent(out, live, m);
    push_early_frames(out, live, m);
    push_early_sent(out, live, m);
    assert(out@ =~= old(out)@ + outgoing_text(*live, m@));
}

/// What was dropped or was already done, by slot.
fn spared(out: &mut String, live: &Status)
    ensures
        final(out)@ == old(out)@ + spared_text(*live),
{
    push_drops(out, live);
    push_redundant(out, live);
    assert(out@ =~= old(out)@ + spared_text(*live));
}

/// The series with one sample for each slot.
fn by_slot(out: &mut String, live: &Status, m: &Metrics)
    ensures
        final(out)@ == old(out)@ + incoming_text(*live, m@) + outgoing_text(*live, m@)
            + spared_text(*live),
{
    incoming(out, live, m);
    outgoing(out, live, m);
    spared(out, live);
}

/// Nothing stands in front of what is put behind nothing.
proof fn from_nothing(s: Seq<char>)
    ensures
        Seq::<char>::empty() + s == s,
{
    assert(Seq::<char>::empty() + s =~= s);
}

fn push_saving(out: &mut String, live: &Status, m: &Metrics, ledger: &Ledger, at: &Sample)
    ensures
        final(out)@ == old(out)@ + saving_text(*live, *m, *ledger, *at),
{
    if live.saving {
        push_save_series(out, live, m, ledger, at);
        push_saved(out, m);
    }
    assert(out@ =~= old(out)@ + saving_text(*live, *m, *ledger, *at));
}

/// All series of a room, in the exposition format.
pub fn prometheus(live: &Status, m: &Metrics, ledger: &Ledger, at: &Sample) -> (r: String)
    ensures
        r@ == prometheus_text(*live, *m, *ledger, *at),
{
    let mut out = String::new();
    proof {
        from_nothing(series_text(net_series(*live, *m, *ledger, *at)));
    }
    push_net_series(&mut out, live, m, ledger, at);
    push_idle_series(&mut out, live, m, ledger, at);
    push_saving(&mut out, live, m, ledger, at);
    push_slot_series(&mut out, live, m, ledger, at);
    push_admin_series(&mut out, live, m, ledger, at);
    process(&mut out, at);
    by_slot(&mut out, live, m);
    http_surface(&mut out, m);
    out
}

/// A label stays on its line and inside its quotes, whatever stands in it: as it stands there it
/// holds no line break, and every quote in it has a backslash before it.
pub proof fn a_label_stays_in_its_place(s: Seq<char>, i: int)
    requires
        0 <= i < label_text(s).len(),
    ensures
        label_text(s)[i] != '\n',
        label_text(s)[i] == '"' ==> i > 0 && label_text(s)[i - 1] == '\\',
{
    let n = if s.len() <= MAX_LABEL {
        s.len()
    } else {
        MAX_LABEL as nat
    };
    label_held(s, n, i);
}

proof fn label_held(s: Seq<char>, n: nat, i: int)
    requires
        0 <= i < label_chars(s, n).len(),
    ensures
        label_chars(s, n)[i] != '\n',
        label_chars(s, n)[i] == '"' ==> i > 0 && label_chars(s, n)[i - 1] == '\\',
    decreases n,
{
    reveal_strlit("\\\\");
    reveal_strlit("\\\"");
    reveal_strlit("\\n");
    if n > 0 {
        let before = label_chars(s, (n - 1) as nat);
        if i < before.len() {
            label_held(s, (n - 1) as nat, i);
        }
    }
}

/// What a character behind a backslash stands for in a label.
pub open spec fn unescaped(c: char) -> char {
    if c == 'n' {
        '\n'
    } else {
        c
    }
}

/// The value of a label, read up to the quote that ends it, and what stands behind that quote.
pub open spec fn read_label(t: Seq<char>) -> (Seq<char>, Seq<char>)
    decreases t.len(),
{
    if t.len() == 0 {
        (Seq::empty(), Seq::empty())
    } else if t[0] == '"' {
        (Seq::empty(), t.skip(1))
    } else if t[0] == '\\' && t.len() > 1 {
        let (value, rest) = read_label(t.skip(2));
        (seq![unescaped(t[1])] + value, rest)
    } else {
        let (value, rest) = read_label(t.skip(1));
        (seq![t[0]] + value, rest)
    }
}

/// A label says what was put into it, and ends where it was ended: whatever a text holds, reading
/// it back out of its quotes gives its first characters, and what stands behind the label is still
/// behind it.
pub proof fn a_label_reads_back(s: Seq<char>, rest: Seq<char>)
    ensures
        read_label(label_text(s) + seq!['"'] + rest) == (
            s.take(
                if s.len() <= MAX_LABEL {
                    s.len() as int
                } else {
                    MAX_LABEL as int
                },
            ),
            rest,
        ),
{
    let n = if s.len() <= MAX_LABEL {
        s.len()
    } else {
        MAX_LABEL as nat
    };
    label_chars_read(s, n, rest);
}

proof fn label_chars_read(s: Seq<char>, n: nat, rest: Seq<char>)
    requires
        n <= s.len(),
    ensures
        read_label(label_chars(s, n) + seq!['"'] + rest) == (s.take(n as int), rest),
    decreases n,
{
    reveal_strlit("\\\\");
    reveal_strlit("\\\"");
    reveal_strlit("\\n");
    let t = label_chars(s, n) + seq!['"'] + rest;
    if n == 0 {
        assert(t.skip(1) =~= rest);
        assert(s.take(0) =~= Seq::<char>::empty());
    } else {
        label_chars_from_front(s, n);
        label_chars_read(s.skip(1), (n - 1) as nat, rest);
        let first = label_char(s[0]);
        let behind = label_chars(s.skip(1), (n - 1) as nat) + seq!['"'] + rest;
        assert(t =~= first + behind);
        assert(t.skip(first.len() as int) =~= behind);
        assert(seq![s[0]] + s.skip(1).take(n - 1) =~= s.take(n as int));
    }
}

proof fn label_chars_from_front(s: Seq<char>, n: nat)
    requires
        0 < n <= s.len(),
    ensures
        label_chars(s, n) == label_char(s[0]) + label_chars(s.skip(1), (n - 1) as nat),
    decreases n,
{
    if n == 1 {
        assert(label_chars(s, 0) =~= Seq::<char>::empty());
        assert(label_chars(s.skip(1), 0) =~= Seq::<char>::empty());
        assert(label_chars(s, 1) =~= label_char(s[0]) + label_chars(s.skip(1), 0));
    } else {
        label_chars_from_front(s, (n - 1) as nat);
        assert(s.skip(1)[n - 2] == s[n - 1]);
        assert(label_chars(s, n) =~= label_char(s[0]) + label_chars(s.skip(1), (n - 1) as nat));
    }
}

} // verus!
