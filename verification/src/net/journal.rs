//! The history of a room, one JSON line for each event.
//!
//! Lines go through a bounded queue to a writer. What the queue has no room for is dropped and
//! counted, and the count is written into the history itself.

use crate::datastore::pyvalue::{num_of, Num};
use crate::datastore::value::{Datum, Value};
use crate::json::{
    decimals_are_bare, encode, hex_char, hex_digit, is_bare, is_plain, json_text, number_member,
    number_member_is_read, one_more_member_is_read, plain_is_read, read_inside, read_line,
    read_member, read_members, read_text, spelled, spelling_is_read, spelling_is_read_in_quotes, text_member,
    text_member_is_read, the_last_member_is_read,
};
use crate::multidata::datapackage::{name_or_id, DataPackage, NamesModel};
use crate::multidata::multidata::MultiData;
use crate::multidata::types::SlotModel;
use crate::net::http::document::{member, member_found, number, numbers_read_back};
use crate::net::http::time::{padded, push_padded, zero_filled};
use crate::table::entry;
use crate::text::{
    all_digits, chars_of, dec, dec_int, dec_reads_back, digits_value, is_digit, push_decimal,
    push_signed,
};
use vstd::prelude::*;

verus! {

/// What the history is called inside the save directory.
pub const FILE_NAME: &'static str = "history.jsonl";

/// The most records that are ever buffered.
pub const MAX_CAPACITY: usize = 524_288;

/// Room for the events that are not checks.
pub const EVENT_HEADROOM: usize = 8192;

/// After how many lines the writer flushes.
pub const FLUSH_EVERY: usize = 1024;

/// How long written lines may wait to be flushed once nothing arrives, in milliseconds.
pub const IDLE_FLUSH_MS: u64 = 1000;

/// Records to buffer for a seed: every location can be checked once, and no more often.
pub fn capacity_for(locations: usize) -> (r: usize)
    ensures
        r == if locations + EVENT_HEADROOM <= MAX_CAPACITY {
            (locations + EVENT_HEADROOM) as usize
        } else {
            MAX_CAPACITY
        },
        EVENT_HEADROOM <= r <= MAX_CAPACITY,
        locations <= MAX_CAPACITY - EVENT_HEADROOM ==> r >= locations,
{
    let wanted: usize = locations.saturating_add(EVENT_HEADROOM);
    if wanted < MAX_CAPACITY {
        wanted
    } else {
        MAX_CAPACITY
    }
}

/// A character as it stands in a line.
pub open spec fn line_char(c: char) -> Seq<char> {
    if c == '"' {
        "\\\""@
    } else if c == '\\' {
        "\\\\"@
    } else if c == '\n' {
        "\\n"@
    } else if c == '\r' {
        "\\r"@
    } else if c == '\t' {
        "\\t"@
    } else if (c as int) < 0x20 {
        "\\u00"@ + seq![hex_char(c as int / 16), hex_char(c as int % 16)]
    } else {
        seq![c]
    }
}

/// The first `n` characters as they stand in a line.
pub open spec fn line_chars(s: Seq<char>, n: nat) -> Seq<char>
    decreases n,
{
    if n == 0 {
        Seq::empty()
    } else {
        line_chars(s, (n - 1) as nat) + line_char(s[n - 1])
    }
}

/// A text as it stands in a line.
pub open spec fn escaped_name(s: Seq<char>) -> Seq<char> {
    line_chars(s, s.len())
}

fn push_line_char(out: &mut String, c: char)
    ensures
        final(out)@ == old(out)@ + line_char(c),
{
    if c == '"' {
        out.append("\\\"");
    } else if c == '\\' {
        out.append("\\\\");
    } else if c == '\n' {
        out.append("\\n");
    } else if c == '\r' {
        out.append("\\r");
    } else if c == '\t' {
        out.append("\\t");
    } else if 32 > c as u32 {
        let code: u8 = c as u8;
        out.append("\\u00");
        out.push(hex_digit(code / 16));
        out.push(hex_digit(code % 16));
        assert(out@ =~= old(out)@ + line_char(c));
    } else {
        out.push(c);
        assert(out@ =~= old(out)@ + line_char(c));
    }
}

/// A text as it stands in a line.
pub fn escape(s: &str) -> (r: String)
    ensures
        r@ == escaped_name(s@),
{
    let v = chars_of(s);
    let mut out = String::new();
    for i in 0..v.len()
        invariant
            v@ == s@,
            out@ == line_chars(s@, i as nat),
    {
        push_line_char(&mut out, v[i]);
    }
    out
}

/// A location that was checked. The time is in thousandths of a second since the epoch.
#[derive(Debug, Clone, Copy, PartialEq, Eq)]
pub struct CheckRecord {
    pub at_millis: u64,
    pub finder: u32,
    pub receiver: u32,
    pub item: i64,
    pub location: i64,
    pub flags: u32,
}

/// The name of a slot.
pub open spec fn player_name(slots: Seq<(u32, SlotModel)>, slot: u32) -> Seq<char> {
    match entry::<u32, SlotModel>(slots, slot) {
        Some(s) => s.name,
        None => "?"@,
    }
}

/// The names of a slot's game.
pub open spec fn names_of_slot(
    slots: Seq<(u32, SlotModel)>,
    games: Seq<(Seq<char>, NamesModel)>,
    slot: u32,
) -> Option<NamesModel> {
    match entry::<u32, SlotModel>(slots, slot) {
        Some(s) => entry::<String, NamesModel>(games, s.game),
        None => None,
    }
}

/// The name of an item: it belongs to the game of who receives it.
pub open spec fn item_name_of(
    r: CheckRecord,
    slots: Seq<(u32, SlotModel)>,
    games: Seq<(Seq<char>, NamesModel)>,
) -> Seq<char> {
    match names_of_slot(slots, games, r.receiver) {
        Some(n) => name_or_id(n.item_by_id, r.item, "item"@),
        None => "Unknown item (ID:"@ + dec_int(r.item as int) + ")"@,
    }
}

/// The name of a location: it belongs to the game of who found it.
pub open spec fn location_name_of(
    r: CheckRecord,
    slots: Seq<(u32, SlotModel)>,
    games: Seq<(Seq<char>, NamesModel)>,
) -> Seq<char> {
    match names_of_slot(slots, games, r.finder) {
        Some(n) => name_or_id(n.location_by_id, r.location, "location"@),
        None => "Unknown location (ID:"@ + dec_int(r.location as int) + ")"@,
    }
}

/// The line of a check.
pub open spec fn check_line(
    r: CheckRecord,
    slots: Seq<(u32, SlotModel)>,
    games: Seq<(Seq<char>, NamesModel)>,
) -> Seq<char> {
    "{\"type\":\"check\",\"at\":"@ + dec((r.at_millis / 1000) as nat) + "."@ + padded(
        (r.at_millis % 1000) as int,
        3,
    ) + ",\"finder\":"@ + dec(r.finder as nat) + ",\"finder_name\":\""@ + escaped_name(
        player_name(slots, r.finder),
    ) + "\",\"receiver\":"@ + dec(r.receiver as nat) + ",\"receiver_name\":\""@ + escaped_name(
        player_name(slots, r.receiver),
    ) + "\",\"item\":"@ + dec_int(r.item as int) + ",\"item_name\":\""@ + escaped_name(
        item_name_of(r, slots, games),
    ) + "\",\"location\":"@ + dec_int(r.location as int) + ",\"location_name\":\""@ + escaped_name(
        location_name_of(r, slots, games),
    ) + "\",\"flags\":"@ + dec(r.flags as nat) + "}\n"@
}

fn slot_name(data: &MultiData, slot: u32) -> (r: String)
    ensures
        r@ == player_name(data.slot_info.deep_view(), slot),
{
    match data.slot_info.get(&slot) {
        Some(s) => s.name.clone(),
        None => "?".to_string(),
    }
}

fn item_name(record: &CheckRecord, data: &MultiData, names: &DataPackage) -> (r: String)
    ensures
        r@ == item_name_of(*record, data.slot_info.deep_view(), names.deep_view()),
{
    if let Some(s) = data.slot_info.get(&record.receiver) {
        if let Some(game) = names.get(s.game.as_str()) {
            return game.item_name(record.item);
        }
    }
    let mut out = "Unknown item (ID:".to_string();
    push_signed(&mut out, record.item);
    out.append(")");
    out
}

fn location_name(record: &CheckRecord, data: &MultiData, names: &DataPackage) -> (r: String)
    ensures
        r@ == location_name_of(*record, data.slot_info.deep_view(), names.deep_view()),
{
    if let Some(s) = data.slot_info.get(&record.finder) {
        if let Some(game) = names.get(s.game.as_str()) {
            return game.location_name(record.location);
        }
    }
    let mut out = "Unknown location (ID:".to_string();
    push_signed(&mut out, record.location);
    out.append(")");
    out
}

/// The line of a check, with its names.
pub fn render(record: &CheckRecord, data: &MultiData, names: &DataPackage) -> (r: String)
    ensures
        r@ == check_line(*record, data.slot_info.deep_view(), names.deep_view()),
{
    let mut out = "{\"type\":\"check\",\"at\":".to_string();
    push_decimal(&mut out, record.at_millis / 1000);
    out.append(".");
    push_padded(&mut out, (record.at_millis % 1000) as i64, 3);
    out.append(",\"finder\":");
    push_decimal(&mut out, record.finder as u64);
    out.append(",\"finder_name\":\"");
    out.append(escape(slot_name(data, record.finder).as_str()).as_str());
    out.append("\",\"receiver\":");
    push_decimal(&mut out, record.receiver as u64);
    out.append(",\"receiver_name\":\"");
    out.append(escape(slot_name(data, record.receiver).as_str()).as_str());
    out.append("\",\"item\":");
    push_signed(&mut out, record.item);
    out.append(",\"item_name\":\"");
    out.append(escape(item_name(record, data, names).as_str()).as_str());
    out.append("\",\"location\":");
    push_signed(&mut out, record.location);
    out.append(",\"location_name\":\"");
    out.append(escape(location_name(record, data, names).as_str()).as_str());
    out.append("\",\"flags\":");
    push_decimal(&mut out, record.flags as u64);
    out.append("}\n");
    out
}

/// The line of an event that is already an object.
pub fn event_line(event: &Value) -> (r: String)
    ensures
        r@ == json_text(event@) + "\n"@,
{
    let mut out = encode(event);
    out.append("\n");
    out
}

/// The line that says how much is missing above it.
pub fn gap_line(dropped: u64) -> (r: String)
    ensures
        r@ == "{\"type\":\"gap\",\"dropped\":"@ + dec(dropped as nat)
            + ",\"note\":\"the journal could not keep up; this many checks are missing above\"}\n"@,
{
    let mut out = "{\"type\":\"gap\",\"dropped\":".to_string();
    push_decimal(&mut out, dropped);
    out.append(
        ",\"note\":\"the journal could not keep up; this many checks are missing above\"}\n",
    );
    out
}

/// The line that says how much is missing at the end.
pub fn last_gap_line(dropped: u64) -> (r: String)
    ensures
        r@ == "{\"type\":\"gap\",\"dropped\":"@ + dec(dropped as nat) + "}\n"@,
{
    let mut out = "{\"type\":\"gap\",\"dropped\":".to_string();
    push_decimal(&mut out, dropped);
    out.append("}\n");
    out
}

/// What the writer was handed, and how it went.
#[derive(Debug, Clone, Copy, PartialEq, Eq, Structural)]
pub enum Written {
    /// It was asked to flush.
    Flush,
    /// A line reached the buffer.
    Line,
    /// A line could not be written.
    Failed,
}

/// What the writer does next.
#[derive(Debug, Clone, Copy, PartialEq, Eq, Structural)]
pub struct Step {
    pub flush: bool,
    /// A gap to report, with how much is missing.
    pub gap: Option<u64>,
}

/// Where the writer stands.
#[derive(Debug, Clone, Copy, PartialEq, Eq, Structural)]
pub struct WriterState {
    /// Lines written and not flushed.
    pub since_flush: usize,
    /// Drops that were reported.
    pub reported: u64,
}

impl WriterState {
    pub open spec fn wf(&self) -> bool {
        self.since_flush <= FLUSH_EVERY
    }

    pub fn new() -> (r: WriterState)
        ensures
            r == (WriterState { since_flush: 0, reported: 0 }),
            r.wf(),
    {
        WriterState { since_flush: 0, reported: 0 }
    }

    /// For how long to wait for something to write. With nothing to flush, for as long as it takes.
    pub fn wait(&self) -> (r: Option<u64>)
        ensures
            r == if self.since_flush == 0 {
                None
            } else {
                Some(IDLE_FLUSH_MS)
            },
    {
        if self.since_flush == 0 {
            None
        } else {
            Some(IDLE_FLUSH_MS)
        }
    }

    /// Nothing came in time: what was written is flushed.
    pub fn idle(&mut self) -> (r: Step)
        ensures
            r == (Step { flush: true, gap: None }),
            *final(self) == (WriterState { since_flush: 0, ..*old(self) }),
    {
        self.since_flush = 0;
        Step { flush: true, gap: None }
    }

    /// Where the writer stands once something was written, and how much was dropped by then.
    pub open spec fn stepped(self, written: Written, lost: u64) -> (WriterState, Step) {
        if written == Written::Failed {
            (self, Step { flush: false, gap: None })
        } else {
            let flush = written == Written::Flush || self.since_flush + 1 >= FLUSH_EVERY;
            let since = if flush {
                0
            } else {
                self.since_flush + 1
            };
            if lost > self.reported {
                (
                    WriterState { since_flush: (since + 1) as usize, reported: lost },
                    Step { flush, gap: Some((lost - self.reported) as u64) },
                )
            } else {
                (
                    WriterState { since_flush: since as usize, reported: self.reported },
                    Step { flush, gap: None },
                )
            }
        }
    }

    /// Notes that something was written, and how much was dropped by then. A gap counts as a line.
    pub fn step(&mut self, written: Written, lost: u64) -> (r: Step)
        requires
            old(self).wf(),
        ensures
            (*final(self), r) == old(self).stepped(written, lost),
            final(self).wf(),
    {
        let mut flush: bool = false;
        match written {
            Written::Failed => {
                return Step { flush: false, gap: None };
            },
            Written::Flush => {
                flush = true;
                self.since_flush = 0;
            },
            Written::Line => {
                self.since_flush = self.since_flush + 1;
                if self.since_flush >= FLUSH_EVERY {
                    flush = true;
                    self.since_flush = 0;
                }
            },
        }
        if lost > self.reported {
            let missing: u64 = lost - self.reported;
            self.reported = lost;
            self.since_flush = self.since_flush + 1;
            return Step { flush, gap: Some(missing) };
        }
        Step { flush, gap: None }
    }

    /// What is still to be reported at the end.
    pub fn finish(&self, lost: u64) -> (r: Option<u64>)
        ensures
            r == if lost > self.reported {
                Some((lost - self.reported) as u64)
            } else {
                None
            },
    {
        if lost > self.reported {
            Some(lost - self.reported)
        } else {
            None
        }
    }
}

/// The gaps that were reported, added up.
pub open spec fn gaps(steps: Seq<Step>) -> int
    decreases steps.len(),
{
    if steps.len() == 0 {
        0
    } else {
        gaps(steps.drop_last()) + match steps.last().gap {
            Some(n) => n as int,
            None => 0,
        }
    }
}

/// Where the writer stands after a run, and what it did.
pub open spec fn run(s: WriterState, events: Seq<(Written, u64)>) -> (WriterState, Seq<Step>)
    decreases events.len(),
{
    if events.len() == 0 {
        (s, Seq::empty())
    } else {
        let (t, steps) = run(s, events.drop_last());
        let (u, step) = t.stepped(events.last().0, events.last().1);
        (u, steps.push(step))
    }
}

/// A drop is never silent: over any run, with a count of drops that does not fall, the gaps in the
/// history and what is reported at the end add up to everything that was dropped.
pub proof fn no_drop_is_silent(s: WriterState, events: Seq<(Written, u64)>, lost: u64)
    requires
        forall|i: int| 0 <= i < events.len() ==> (#[trigger] events[i]).1 <= lost,
        s.reported <= lost,
    ensures
        run(s, events).0.reported == s.reported + gaps(run(s, events).1),
        run(s, events).0.reported <= lost,
        ({
            let t = run(s, events).0;
            let rest = if lost > t.reported {
                lost - t.reported
            } else {
                0
            };
            gaps(run(s, events).1) + rest == lost - s.reported
        }),
    decreases events.len(),
{
    if events.len() > 0 {
        let init = events.drop_last();
        assert forall|i: int| 0 <= i < init.len() implies (#[trigger] init[i]).1 <= lost by {
            assert(events[i].1 <= lost);
        }
        no_drop_is_silent(s, init, lost);
        let (t, steps) = run(s, init);
        let (u, step) = t.stepped(events.last().0, events.last().1);
        assert(events[events.len() - 1].1 <= lost);
        assert(steps.push(step).drop_last() =~= steps);
    }
}

proof fn line_chars_are_spellings(c: char, rest: Seq<char>)
    ensures
        spelled(line_char(c) + rest) == Some((c, line_char(c).len() as int)),
        line_char(c).len() > 0,
{
    reveal_strlit("\\\"");
    reveal_strlit("\\\\");
    reveal_strlit("\\n");
    reveal_strlit("\\r");
    reveal_strlit("\\t");
    reveal_strlit("\\u00");
    let e = line_char(c);
    let t = e + rest;
    assert(forall|i: int| 0 <= i < e.len() ==> t[i] == e[i]);
}

proof fn line_is_read(s: Seq<char>, n: nat, rest: Seq<char>)
    requires
        n <= s.len(),
    ensures
        read_inside(line_chars(s, n) + rest) == match read_inside(rest) {
            Some(r) => Some(s.take(n as int) + r),
            None => None,
        },
    decreases n,
{
    if n == 0 {
        assert(line_chars(s, n) + rest =~= rest);
        if let Some(r) = read_inside(rest) {
            assert(s.take(0) + r =~= r);
        }
    } else {
        let c = s[n - 1];
        let more = line_char(c) + rest;
        assert(line_chars(s, n) + rest =~= line_chars(s, (n - 1) as nat) + more);
        line_is_read(s, (n - 1) as nat, more);
        line_chars_are_spellings(c, rest);
        spelling_is_read(line_char(c), c, rest);
        if let Some(r) = read_inside(rest) {
            assert(s.take(n - 1) + (seq![c] + r) =~= s.take(n as int) + r);
        }
    }
}

/// A name stays readable whatever stands in it: as it stands in a line it reads back as itself.
pub proof fn names_read_back(s: Seq<char>)
    ensures
        read_inside(escaped_name(s)) == Some(s),
{
    line_is_read(s, s.len(), Seq::empty());
    assert(escaped_name(s) + Seq::<char>::empty() =~= escaped_name(s));
    assert(s.take(s.len() as int) + Seq::<char>::empty() =~= s);
}

/// A name as it stands in a line, closed by a quote, is read as itself.
proof fn name_is_read(s: Seq<char>, n: nat, rest: Seq<char>)
    requires
        n <= s.len(),
    ensures
        read_text(line_chars(s, n) + rest) == match read_text(rest) {
            Some((t, end)) => Some((s.take(n as int) + t, end)),
            None => None,
        },
    decreases n,
{
    if n == 0 {
        assert(line_chars(s, n) + rest =~= rest);
        if let Some((t, end)) = read_text(rest) {
            assert(s.take(0) + t =~= t);
        }
    } else {
        let c = s[n - 1];
        let more = line_char(c) + rest;
        assert(line_chars(s, n) + rest =~= line_chars(s, (n - 1) as nat) + more);
        name_is_read(s, (n - 1) as nat, more);
        line_chars_are_spellings(c, rest);
        spelling_is_read_in_quotes(line_char(c), c, rest);
        if let Some((t, end)) = read_text(rest) {
            assert(s.take(n - 1) + (seq![c] + t) =~= s.take(n as int) + t);
        }
    }
}

/// A member that holds a name is read as that name.
proof fn name_member_is_read(key: Seq<char>, s: Seq<char>, rest: Seq<char>)
    requires
        is_plain(key),
    ensures
        read_member(text_member(key, escaped_name(s)) + rest) == Some(((key, Datum::Text(s)), rest)),
{
    let close = seq!['"'] + rest;
    name_is_read(s, s.len(), close);
    assert(close.drop_first() =~= rest);
    assert(s.take(s.len() as int) + Seq::<char>::empty() =~= s);
    text_member_is_read(key, escaped_name(s), s, rest);
}

proof fn joined(a: Seq<char>, b: Seq<char>, c: Seq<char>)
    ensures
        (a + b) + c == a + (b + c),
{
    assert((a + b) + c =~= a + (b + c));
}

/// A comma and the name of a number in front of it.
proof fn number_behind_a_comma(lit: Seq<char>, key: Seq<char>, n: Seq<char>, rest: Seq<char>)
    requires
        lit == seq![',', '"'] + key + seq!['"', ':'],
    ensures
        lit + (n + rest) == seq![','] + (number_member(key, n) + rest),
{
    assert(lit + (n + rest) =~= seq![','] + (number_member(key, n) + rest));
}

/// A comma and the name of a text in front of it, and the quote behind it.
proof fn text_behind_a_comma(lit: Seq<char>, key: Seq<char>, inside: Seq<char>, rest: Seq<char>)
    requires
        lit == seq![',', '"'] + key + seq!['"', ':', '"'],
    ensures
        lit + (inside + (seq!['"'] + rest)) == seq![','] + (text_member(key, inside) + rest),
{
    assert(lit + (inside + (seq!['"'] + rest)) =~= seq![','] + (text_member(key, inside) + rest));
}

/// The quote behind a text, a comma, and the name of a number in front of it.
proof fn number_behind_a_text(lit: Seq<char>, key: Seq<char>, n: Seq<char>, rest: Seq<char>)
    requires
        lit == seq!['"', ',', '"'] + key + seq!['"', ':'],
    ensures
        lit + (n + rest) == seq!['"'] + (seq![','] + (number_member(key, n) + rest)),
{
    assert(lit + (n + rest) =~= seq!['"'] + (seq![','] + (number_member(key, n) + rest)));
}

/// What stands between the values of a line.
proof fn line_words()
    ensures
        "{\"type\":\"check\",\"at\":"@ == seq!['{'] + (text_member("type"@, "check"@) + (seq![',', '"']
            + "at"@ + seq!['"', ':'])),
        ",\"finder\":"@ == seq![',', '"'] + "finder"@ + seq!['"', ':'],
        ",\"finder_name\":\""@ == seq![',', '"'] + "finder_name"@ + seq!['"', ':', '"'],
        "\",\"receiver\":"@ == seq!['"', ',', '"'] + "receiver"@ + seq!['"', ':'],
        ",\"receiver_name\":\""@ == seq![',', '"'] + "receiver_name"@ + seq!['"', ':', '"'],
        "\",\"item\":"@ == seq!['"', ',', '"'] + "item"@ + seq!['"', ':'],
        ",\"item_name\":\""@ == seq![',', '"'] + "item_name"@ + seq!['"', ':', '"'],
        "\",\"location\":"@ == seq!['"', ',', '"'] + "location"@ + seq!['"', ':'],
        ",\"location_name\":\""@ == seq![',', '"'] + "location_name"@ + seq!['"', ':', '"'],
        "\",\"flags\":"@ == seq!['"', ',', '"'] + "flags"@ + seq!['"', ':'],
        "}\n"@ == seq!['}'] + seq!['\n'],
{
    reveal_strlit("{\"type\":\"check\",\"at\":");
    reveal_strlit(",\"finder\":");
    reveal_strlit(",\"finder_name\":\"");
    reveal_strlit("\",\"receiver\":");
    reveal_strlit(",\"receiver_name\":\"");
    reveal_strlit("\",\"item\":");
    reveal_strlit(",\"item_name\":\"");
    reveal_strlit("\",\"location\":");
    reveal_strlit(",\"location_name\":\"");
    reveal_strlit("\",\"flags\":");
    reveal_strlit("}\n");
    reveal_strlit("type");
    reveal_strlit("check");
    reveal_strlit("at");
    reveal_strlit("finder");
    reveal_strlit("finder_name");
    reveal_strlit("receiver");
    reveal_strlit("receiver_name");
    reveal_strlit("item");
    reveal_strlit("item_name");
    reveal_strlit("location");
    reveal_strlit("location_name");
    reveal_strlit("flags");
    assert("{\"type\":\"check\",\"at\":"@ =~= seq!['{'] + (text_member("type"@, "check"@) + (seq![
        ',',
        '"',
    ] + "at"@ + seq!['"', ':'])));
    assert(",\"finder\":"@ =~= seq![',', '"'] + "finder"@ + seq!['"', ':']);
    assert(",\"finder_name\":\""@ =~= seq![',', '"'] + "finder_name"@ + seq!['"', ':', '"']);
    assert("\",\"receiver\":"@ =~= seq!['"', ',', '"'] + "receiver"@ + seq!['"', ':']);
    assert(",\"receiver_name\":\""@ =~= seq![',', '"'] + "receiver_name"@ + seq!['"', ':', '"']);
    assert("\",\"item\":"@ =~= seq!['"', ',', '"'] + "item"@ + seq!['"', ':']);
    assert(",\"item_name\":\""@ =~= seq![',', '"'] + "item_name"@ + seq!['"', ':', '"']);
    assert("\",\"location\":"@ =~= seq!['"', ',', '"'] + "location"@ + seq!['"', ':']);
    assert(",\"location_name\":\""@ =~= seq![',', '"'] + "location_name"@ + seq!['"', ':', '"']);
    assert("\",\"flags\":"@ =~= seq!['"', ',', '"'] + "flags"@ + seq!['"', ':']);
    assert("}\n"@ =~= seq!['}'] + seq!['\n']);
}

/// The names in a line stand for themselves.
proof fn line_names_are_plain()
    ensures
        is_plain("type"@) && is_plain("check"@) && is_plain("at"@) && is_plain("finder"@)
            && is_plain("finder_name"@) && is_plain("receiver"@) && is_plain("receiver_name"@)
            && is_plain("item"@) && is_plain("item_name"@) && is_plain("location"@) && is_plain(
            "location_name"@,
        ) && is_plain("flags"@),
{
    reveal_strlit("type");
    reveal_strlit("check");
    reveal_strlit("at");
    reveal_strlit("finder");
    reveal_strlit("finder_name");
    reveal_strlit("receiver");
    reveal_strlit("receiver_name");
    reveal_strlit("item");
    reveal_strlit("item_name");
    reveal_strlit("location");
    reveal_strlit("location_name");
    reveal_strlit("flags");
}

/// The members of the line of a check from the item on, and how it ends.
spec fn second_half(
    r: CheckRecord,
    slots: Seq<(u32, SlotModel)>,
    games: Seq<(Seq<char>, NamesModel)>,
) -> Seq<char> {
    number_member("item"@, dec_int(r.item as int)) + (seq![','] + (text_member(
        "item_name"@,
        escaped_name(item_name_of(r, slots, games)),
    ) + (seq![','] + (number_member("location"@, dec_int(r.location as int)) + (seq![','] + (
    text_member("location_name"@, escaped_name(location_name_of(r, slots, games))) + (seq![','] + (
    number_member("flags"@, dec(r.flags as nat)) + (seq!['}'] + seq!['\n'])))))))))
}

/// The time of a check as it stands in its line.
spec fn time_written(r: CheckRecord) -> Seq<char> {
    dec((r.at_millis / 1000) as nat) + ("."@ + padded((r.at_millis % 1000) as int, 3))
}

/// The members of the line of a check up to the item, in front of a text.
spec fn first_half(r: CheckRecord, slots: Seq<(u32, SlotModel)>, rest: Seq<char>) -> Seq<char> {
    text_member("type"@, "check"@) + (seq![','] + (number_member("at"@, time_written(r)) + (seq![',']
        + (number_member("finder"@, dec(r.finder as nat)) + (seq![','] + (text_member(
        "finder_name"@,
        escaped_name(player_name(slots, r.finder)),
    ) + (seq![','] + (number_member("receiver"@, dec(r.receiver as nat)) + (seq![','] + (
    text_member("receiver_name"@, escaped_name(player_name(slots, r.receiver))) + (seq![',']
        + rest)))))))))))
}

proof fn second_half_is_read(
    r: CheckRecord,
    slots: Seq<(u32, SlotModel)>,
    games: Seq<(Seq<char>, NamesModel)>,
)
    ensures
        read_members(second_half(r, slots, games)) == Some(
            (
                seq![
                    ("item"@, number(r.item as int)),
                    ("item_name"@, Datum::Text(item_name_of(r, slots, games))),
                    ("location"@, number(r.location as int)),
                    ("location_name"@, Datum::Text(location_name_of(r, slots, games))),
                    ("flags"@, number(r.flags as int)),
                ],
                seq!['\n'],
            ),
        ),
{
    line_names_are_plain();
    let end = seq!['\n'];
    decimals_are_bare(r.flags as int);
    decimals_are_bare(r.location as int);
    decimals_are_bare(r.item as int);
    let n5 = dec(r.flags as nat);
    let n3 = dec_int(r.location as int);
    let n1 = dec_int(r.item as int);
    let w5 = number_member("flags"@, n5);
    let t5 = w5 + (seq!['}'] + end);
    let m5 = ("flags"@, number(r.flags as int));
    number_member_is_read("flags"@, n5, seq!['}'] + end);
    the_last_member_is_read(m5, w5, end);

    let w4 = text_member("location_name"@, escaped_name(location_name_of(r, slots, games)));
    let t4 = w4 + (seq![','] + t5);
    let m4 = ("location_name"@, Datum::Text(location_name_of(r, slots, games)));
    name_member_is_read("location_name"@, location_name_of(r, slots, games), seq![','] + t5);
    one_more_member_is_read(m4, w4, t5, seq![m5], end);

    let w3 = number_member("location"@, n3);
    let t3 = w3 + (seq![','] + t4);
    let m3 = ("location"@, number(r.location as int));
    let l4 = seq![m4] + seq![m5];
    number_member_is_read("location"@, n3, seq![','] + t4);
    one_more_member_is_read(m3, w3, t4, l4, end);

    let w2 = text_member("item_name"@, escaped_name(item_name_of(r, slots, games)));
    let t2 = w2 + (seq![','] + t3);
    let m2 = ("item_name"@, Datum::Text(item_name_of(r, slots, games)));
    let l3 = seq![m3] + l4;
    name_member_is_read("item_name"@, item_name_of(r, slots, games), seq![','] + t3);
    one_more_member_is_read(m2, w2, t3, l3, end);

    let w1 = number_member("item"@, n1);
    let m1 = ("item"@, number(r.item as int));
    let l2 = seq![m2] + l3;
    number_member_is_read("item"@, n1, seq![','] + t2);
    one_more_member_is_read(m1, w1, t2, l2, end);
    assert(seq![m1] + l2 =~= seq![m1, m2, m3, m4, m5]);
}

proof fn six_in_front<A>(a: A, b: A, c: A, d: A, e: A, f: A, rest: Seq<A>)
    ensures
        seq![a] + (seq![b] + (seq![c] + (seq![d] + (seq![e] + (seq![f] + rest))))) == seq![
            a,
            b,
            c,
            d,
            e,
            f,
        ] + rest,
{
    assert(seq![a] + (seq![b] + (seq![c] + (seq![d] + (seq![e] + (seq![f] + rest))))) =~= seq![
        a,
        b,
        c,
        d,
        e,
        f,
    ] + rest);
}

proof fn six_and_five<A>(a: A, b: A, c: A, d: A, e: A, f: A, g: A, h: A, i: A, j: A, k: A)
    ensures
        seq![a, b, c, d, e, f] + seq![g, h, i, j, k] == seq![a, b, c, d, e, f, g, h, i, j, k],
{
    assert(seq![a, b, c, d, e, f] + seq![g, h, i, j, k] =~= seq![
        a,
        b,
        c,
        d,
        e,
        f,
        g,
        h,
        i,
        j,
        k,
    ]);
}

/// What stands behind an opening brace.
proof fn behind_the_brace(line: Seq<char>, rest: Seq<char>)
    requires
        line == seq!['{'] + rest,
    ensures
        line.len() > 0,
        line[0] == '{',
        line.drop_first() == rest,
{
    assert(line.drop_first() =~= rest);
}

#[verifier::rlimit(40)]
proof fn first_half_is_read(
    r: CheckRecord,
    slots: Seq<(u32, SlotModel)>,
    rest: Seq<char>,
    members: Seq<(Seq<char>, Datum)>,
    end: Seq<char>,
)
    requires
        read_members(rest) == Some((members, end)),
    ensures
        read_members(first_half(r, slots, rest)) == Some(
            (
                seq![
                    ("type"@, Datum::Text("check"@)),
                    ("at"@, Datum::Number(time_written(r), None)),
                    ("finder"@, number(r.finder as int)),
                    ("finder_name"@, Datum::Text(player_name(slots, r.finder))),
                    ("receiver"@, number(r.receiver as int)),
                    ("receiver_name"@, Datum::Text(player_name(slots, r.receiver))),
                ] + members,
                end,
            ),
        ),
{
    line_names_are_plain();
    decimals_are_bare(r.receiver as int);
    decimals_are_bare(r.finder as int);
    times_are_bare(r.at_millis);
    let n5 = dec(r.receiver as nat);
    let n3 = dec(r.finder as nat);
    let n2 = time_written(r);
    let w6 = text_member("receiver_name"@, escaped_name(player_name(slots, r.receiver)));
    let t6 = w6 + (seq![','] + rest);
    let m6 = ("receiver_name"@, Datum::Text(player_name(slots, r.receiver)));
    name_member_is_read("receiver_name"@, player_name(slots, r.receiver), seq![','] + rest);
    one_more_member_is_read(m6, w6, rest, members, end);

    let w5 = number_member("receiver"@, n5);
    let t5 = w5 + (seq![','] + t6);
    let m5 = ("receiver"@, number(r.receiver as int));
    let l6 = seq![m6] + members;
    number_member_is_read("receiver"@, n5, seq![','] + t6);
    one_more_member_is_read(m5, w5, t6, l6, end);

    let w4 = text_member("finder_name"@, escaped_name(player_name(slots, r.finder)));
    let t4 = w4 + (seq![','] + t5);
    let m4 = ("finder_name"@, Datum::Text(player_name(slots, r.finder)));
    let l5 = seq![m5] + l6;
    name_member_is_read("finder_name"@, player_name(slots, r.finder), seq![','] + t5);
    one_more_member_is_read(m4, w4, t5, l5, end);

    let w3 = number_member("finder"@, n3);
    let t3 = w3 + (seq![','] + t4);
    let m3 = ("finder"@, number(r.finder as int));
    let l4 = seq![m4] + l5;
    number_member_is_read("finder"@, n3, seq![','] + t4);
    one_more_member_is_read(m3, w3, t4, l4, end);

    let w2 = number_member("at"@, n2);
    let t2 = w2 + (seq![','] + t3);
    let m2 = ("at"@, Datum::Number(n2, None));
    let l3 = seq![m3] + l4;
    number_member_is_read("at"@, n2, seq![','] + t3);
    one_more_member_is_read(m2, w2, t3, l3, end);

    let w1 = text_member("type"@, "check"@);
    let m1 = ("type"@, Datum::Text("check"@));
    let l2 = seq![m2] + l3;
    plain_is_read("check"@, seq![','] + t2);
    text_member_is_read("type"@, "check"@, "check"@, seq![','] + t2);
    one_more_member_is_read(m1, w1, t2, l2, end);
    six_in_front(m1, m2, m3, m4, m5, m6, members);
}

/// What stands behind the first half of a line, as it was written.
proof fn second_half_is_written(
    before: Seq<char>,
    r: CheckRecord,
    slots: Seq<(u32, SlotModel)>,
    games: Seq<(Seq<char>, NamesModel)>,
)
    ensures
        before + "\",\"item\":"@ + dec_int(r.item as int) + ",\"item_name\":\""@ + escaped_name(
            item_name_of(r, slots, games),
        ) + "\",\"location\":"@ + dec_int(r.location as int) + ",\"location_name\":\""@
            + escaped_name(location_name_of(r, slots, games)) + "\",\"flags\":"@ + dec(
            r.flags as nat,
        ) + "}\n"@ == before + (seq!['"'] + (seq![','] + second_half(r, slots, games))),
{
    line_words();
    let iname = escaped_name(item_name_of(r, slots, games));
    let lname = escaped_name(location_name_of(r, slots, games));
    let p0 = "\",\"item\":"@;
    let p1 = dec_int(r.item as int);
    let p2 = ",\"item_name\":\""@;
    let p3 = iname;
    let p4 = "\",\"location\":"@;
    let p5 = dec_int(r.location as int);
    let p6 = ",\"location_name\":\""@;
    let p7 = lname;
    let p8 = "\",\"flags\":"@;
    let p9 = dec(r.flags as nat);
    let p10 = "}\n"@;
    let q0 = before + p0;
    let q1 = q0 + p1;
    let q2 = q1 + p2;
    let q3 = q2 + p3;
    let q4 = q3 + p4;
    let q5 = q4 + p5;
    let q6 = q5 + p6;
    let q7 = q6 + p7;
    let q8 = q7 + p8;
    let q9 = q8 + p9;
    let q10 = q9 + p10;
    let s10 = p10;
    let s9 = p9 + s10;
    let s8 = p8 + s9;
    let s7 = p7 + s8;
    let s6 = p6 + s7;
    let s5 = p5 + s6;
    let s4 = p4 + s5;
    let s3 = p3 + s4;
    let s2 = p2 + s3;
    let s1 = p1 + s2;
    let s0 = p0 + s1;
    joined(q8, p9, s10);
    joined(q7, p8, s9);
    joined(q6, p7, s8);
    joined(q5, p6, s7);
    joined(q4, p5, s6);
    joined(q3, p4, s5);
    joined(q2, p3, s4);
    joined(q1, p2, s3);
    joined(q0, p1, s2);
    joined(before, p0, s1);
    let t5 = number_member("flags"@, p9) + s10;
    number_behind_a_text(p8, "flags"@, p9, s10);
    let t4 = text_member("location_name"@, p7) + (seq![','] + t5);
    text_behind_a_comma(p6, "location_name"@, p7, seq![','] + t5);
    let t3 = number_member("location"@, p5) + (seq![','] + t4);
    number_behind_a_text(p4, "location"@, p5, seq![','] + t4);
    let t2 = text_member("item_name"@, p3) + (seq![','] + t3);
    text_behind_a_comma(p2, "item_name"@, p3, seq![','] + t3);
    number_behind_a_text(p0, "item"@, p1, seq![','] + t2);
}

/// The first half of a line, as it was written.
proof fn first_half_is_written(r: CheckRecord, slots: Seq<(u32, SlotModel)>, rest: Seq<char>)
    ensures
        "{\"type\":\"check\",\"at\":"@ + dec((r.at_millis / 1000) as nat) + "."@ + padded(
            (r.at_millis % 1000) as int,
            3,
        ) + ",\"finder\":"@ + dec(r.finder as nat) + ",\"finder_name\":\""@ + escaped_name(
            player_name(slots, r.finder),
        ) + "\",\"receiver\":"@ + dec(r.receiver as nat) + ",\"receiver_name\":\""@
            + escaped_name(player_name(slots, r.receiver)) + (seq!['"'] + (seq![','] + rest))
            == seq!['{'] + first_half(r, slots, rest),
{
    line_words();
    let secs = dec((r.at_millis / 1000) as nat);
    let thousandths = padded((r.at_millis % 1000) as int, 3);
    let fname = escaped_name(player_name(slots, r.finder));
    let rname = escaped_name(player_name(slots, r.receiver));
    let lead = "{\"type\":\"check\",\"at\":"@;
    let p0 = secs;
    let p1 = "."@;
    let p2 = thousandths;
    let p3 = ",\"finder\":"@;
    let p4 = dec(r.finder as nat);
    let p5 = ",\"finder_name\":\""@;
    let p6 = fname;
    let p7 = "\",\"receiver\":"@;
    let p8 = dec(r.receiver as nat);
    let p9 = ",\"receiver_name\":\""@;
    let p10 = rname;
    let p11 = (seq!['"'] + (seq![','] + rest));
    let q0 = lead + p0;
    let q1 = q0 + p1;
    let q2 = q1 + p2;
    let q3 = q2 + p3;
    let q4 = q3 + p4;
    let q5 = q4 + p5;
    let q6 = q5 + p6;
    let q7 = q6 + p7;
    let q8 = q7 + p8;
    let q9 = q8 + p9;
    let q10 = q9 + p10;
    let q11 = q10 + p11;
    let s11 = p11;
    let s10 = p10 + s11;
    let s9 = p9 + s10;
    let s8 = p8 + s9;
    let s7 = p7 + s8;
    let s6 = p6 + s7;
    let s5 = p5 + s6;
    let s4 = p4 + s5;
    let s3 = p3 + s4;
    let s2 = p2 + s3;
    let s1 = p1 + s2;
    let s0 = p0 + s1;
    joined(q9, p10, s11);
    joined(q8, p9, s10);
    joined(q7, p8, s9);
    joined(q6, p7, s8);
    joined(q5, p6, s7);
    joined(q4, p5, s6);
    joined(q3, p4, s5);
    joined(q2, p3, s4);
    joined(q1, p2, s3);
    joined(q0, p1, s2);
    joined(lead, p0, s1);
    let t6 = text_member("receiver_name"@, p10) + (seq![','] + rest);
    text_behind_a_comma(p9, "receiver_name"@, p10, seq![','] + rest);
    let t5 = number_member("receiver"@, p8) + (seq![','] + t6);
    number_behind_a_text(p7, "receiver"@, p8, seq![','] + t6);
    let t4 = text_member("finder_name"@, p6) + (seq![','] + t5);
    text_behind_a_comma(p5, "finder_name"@, p6, seq![','] + t5);
    let t3 = number_member("finder"@, p4) + (seq![','] + t4);
    number_behind_a_comma(p3, "finder"@, p4, seq![','] + t4);
    let lit = seq![',', '"'] + "at"@ + seq!['"', ':'];
    joined(p1, p2, s3);
    joined(p0, p1 + p2, s3);
    number_behind_a_comma(lit, "at"@, time_written(r), s3);
    let w1 = text_member("type"@, "check"@);
    joined(w1, lit, s0);
    joined(seq!['{'], w1 + lit, s0);
}

/// The line of a check read back: an object with these members, in this order.
proof fn line_is_read_back(
    r: CheckRecord,
    slots: Seq<(u32, SlotModel)>,
    games: Seq<(Seq<char>, NamesModel)>,
)
    ensures
        read_line(check_line(r, slots, games)) == Some(
            Datum::Dict(
                seq![
                    ("type"@, Datum::Text("check"@)),
                    ("at"@, Datum::Number(time_written(r), None)),
                    ("finder"@, number(r.finder as int)),
                    ("finder_name"@, Datum::Text(player_name(slots, r.finder))),
                    ("receiver"@, number(r.receiver as int)),
                    ("receiver_name"@, Datum::Text(player_name(slots, r.receiver))),
                    ("item"@, number(r.item as int)),
                    ("item_name"@, Datum::Text(item_name_of(r, slots, games))),
                    ("location"@, number(r.location as int)),
                    ("location_name"@, Datum::Text(location_name_of(r, slots, games))),
                    ("flags"@, number(r.flags as int)),
                ],
            ),
        ),
{
    let line = check_line(r, slots, games);
    let second = second_half(r, slots, games);
    let before = "{\"type\":\"check\",\"at\":"@ + dec((r.at_millis / 1000) as nat) + "."@ + padded(
        (r.at_millis % 1000) as int,
        3,
    ) + ",\"finder\":"@ + dec(r.finder as nat) + ",\"finder_name\":\""@ + escaped_name(
        player_name(slots, r.finder),
    ) + "\",\"receiver\":"@ + dec(r.receiver as nat) + ",\"receiver_name\":\""@ + escaped_name(
        player_name(slots, r.receiver),
    );
    second_half_is_written(before, r, slots, games);
    first_half_is_written(r, slots, second);
    second_half_is_read(r, slots, games);
    let a = (read_members(second)->0).0;
    first_half_is_read(r, slots, second, a, seq!['\n']);
    let first = first_half(r, slots, second);
    behind_the_brace(line, first);
    six_and_five(
        ("type"@, Datum::Text("check"@)),
        ("at"@, Datum::Number(time_written(r), None)),
        ("finder"@, number(r.finder as int)),
        ("finder_name"@, Datum::Text(player_name(slots, r.finder))),
        ("receiver"@, number(r.receiver as int)),
        ("receiver_name"@, Datum::Text(player_name(slots, r.receiver))),
        ("item"@, number(r.item as int)),
        ("item_name"@, Datum::Text(item_name_of(r, slots, games))),
        ("location"@, number(r.location as int)),
        ("location_name"@, Datum::Text(location_name_of(r, slots, games))),
        ("flags"@, number(r.flags as int)),
    );
}

/// A time with its thousandths can stand as a number.
proof fn times_are_bare(at_millis: u64)
    ensures
        is_bare(
            dec((at_millis / 1000) as nat) + ("."@ + padded((at_millis % 1000) as int, 3)),
        ),
{
    let secs = dec((at_millis / 1000) as nat);
    let rest = padded((at_millis % 1000) as int, 3);
    reveal_strlit(".");
    dec_reads_back((at_millis / 1000) as nat);
    dec_reads_back((at_millis % 1000) as nat);
    filled_digits(dec((at_millis % 1000) as nat), 3);
    let t = secs + ("."@ + rest);
    assert(t[0] == secs[0]);
    assert forall|i: int| 0 <= i < t.len() implies (#[trigger] t[i]) != ',' && t[i] != '}' && t[i]
        != ']' by {
        if i < secs.len() {
            assert(t[i] == secs[i]);
        } else if i > secs.len() {
            assert(t[i] == rest[i - secs.len() - 1]);
        }
    }
}

/// Zeros in front of digits are digits.
proof fn filled_digits(s: Seq<char>, width: nat)
    requires
        all_digits(s),
    ensures
        all_digits(zero_filled(s, width)),
    decreases width,
{
    if s.len() < width {
        filled_digits(s, (width - 1) as nat);
        let t = zero_filled(s, (width - 1) as nat);
        assert forall|i: int| 0 <= i < zero_filled(s, width).len() implies is_digit(
            #[trigger] zero_filled(s, width)[i],
        ) by {
            if i > 0 {
                assert(zero_filled(s, width)[i] == t[i - 1]);
            }
        }
    }
}

/// The names in a line differ.
proof fn line_names_differ()
    ensures
        "at"@ != "type"@,
        "finder"@ != "type"@ && "finder"@ != "at"@,
        "finder_name"@ != "type"@ && "finder_name"@ != "at"@ && "finder_name"@ != "finder"@,
        "receiver"@ != "type"@ && "receiver"@ != "at"@ && "receiver"@ != "finder"@
            && "receiver"@ != "finder_name"@,
        "receiver_name"@ != "type"@ && "receiver_name"@ != "at"@
            && "receiver_name"@ != "finder"@ && "receiver_name"@ != "finder_name"@
            && "receiver_name"@ != "receiver"@,
        "item"@ != "type"@ && "item"@ != "at"@ && "item"@ != "finder"@
            && "item"@ != "finder_name"@ && "item"@ != "receiver"@
            && "item"@ != "receiver_name"@,
        "item_name"@ != "type"@ && "item_name"@ != "at"@ && "item_name"@ != "finder"@
            && "item_name"@ != "finder_name"@ && "item_name"@ != "receiver"@
            && "item_name"@ != "receiver_name"@ && "item_name"@ != "item"@,
        "location"@ != "type"@ && "location"@ != "at"@ && "location"@ != "finder"@
            && "location"@ != "finder_name"@ && "location"@ != "receiver"@
            && "location"@ != "receiver_name"@ && "location"@ != "item"@
            && "location"@ != "item_name"@,
        "location_name"@ != "type"@ && "location_name"@ != "at"@
            && "location_name"@ != "finder"@ && "location_name"@ != "finder_name"@
            && "location_name"@ != "receiver"@ && "location_name"@ != "receiver_name"@
            && "location_name"@ != "item"@ && "location_name"@ != "item_name"@
            && "location_name"@ != "location"@,
        "flags"@ != "type"@ && "flags"@ != "at"@ && "flags"@ != "finder"@
            && "flags"@ != "finder_name"@ && "flags"@ != "receiver"@
            && "flags"@ != "receiver_name"@ && "flags"@ != "item"@ && "flags"@ != "item_name"@
            && "flags"@ != "location"@ && "flags"@ != "location_name"@,
{
    reveal_strlit("type");
    reveal_strlit("at");
    reveal_strlit("finder");
    reveal_strlit("finder_name");
    reveal_strlit("receiver");
    reveal_strlit("receiver_name");
    reveal_strlit("item");
    reveal_strlit("item_name");
    reveal_strlit("location");
    reveal_strlit("location_name");
    reveal_strlit("flags");
    assert("type"@.len() == 4 && "at"@.len() == 2 && "finder"@.len() == 6
        && "finder_name"@.len() == 11 && "receiver"@.len() == 8 && "receiver_name"@.len() == 13
        && "item"@.len() == 4 && "item_name"@.len() == 9 && "location"@.len() == 8
        && "location_name"@.len() == 13 && "flags"@.len() == 5);
    assert("item"@[0] == 'i' && "location"@[0] == 'l' && "location_name"@[0] == 'l'
        && "receiver"@[0] == 'r' && "receiver_name"@[0] == 'r' && "type"@[0] == 't');
}

/// The line of a check, read back as JSON, gives the record: who found it, who receives it, the
/// item, the location and the flags are the numbers of the record, each under its own name.
pub proof fn a_check_reads_back(
    r: CheckRecord,
    slots: Seq<(u32, SlotModel)>,
    games: Seq<(Seq<char>, NamesModel)>,
)
    ensures
        read_line(check_line(r, slots, games)) matches Some(line) && {
            &&& member(line, "type"@) == Datum::Text("check"@)
            &&& num_of(member(line, "finder"@)) == Some(Num::Int(r.finder as int))
            &&& num_of(member(line, "receiver"@)) == Some(Num::Int(r.receiver as int))
            &&& num_of(member(line, "item"@)) == Some(Num::Int(r.item as int))
            &&& num_of(member(line, "location"@)) == Some(Num::Int(r.location as int))
            &&& num_of(member(line, "flags"@)) == Some(Num::Int(r.flags as int))
        },
{
    line_is_read_back(r, slots, games);
    line_names_differ();
    let m = read_line(check_line(r, slots, games))->0->Dict_0;
    member_found(m, 0);
    member_found(m, 2);
    member_found(m, 4);
    member_found(m, 6);
    member_found(m, 8);
    member_found(m, 10);
    numbers_read_back(r.finder as int);
    numbers_read_back(r.receiver as int);
    numbers_read_back(r.item as int);
    numbers_read_back(r.location as int);
    numbers_read_back(r.flags as int);
}

/// Whether a number is a time in seconds with three digits behind the point.
pub open spec fn is_time(at: Seq<char>, millis: int) -> bool {
    &&& at.len() > 4
    &&& at[at.len() - 4] == '.'
    &&& digits_value(at.take(at.len() - 4)) * 1000 + digits_value(at.skip(at.len() - 3)) == millis
}

proof fn written_time_is_read(r: CheckRecord)
    ensures
        is_time(time_written(r), r.at_millis as int),
{
    let secs = dec((r.at_millis / 1000) as nat);
    let rest = padded((r.at_millis % 1000) as int, 3);
    let at = secs + ("."@ + rest);
    reveal_strlit(".");
    dec_reads_back((r.at_millis / 1000) as nat);
    dec_reads_back((r.at_millis % 1000) as nat);
    short_decimal((r.at_millis % 1000) as nat);
    filled_value(dec((r.at_millis % 1000) as nat), 3);
    assert(at.take(at.len() - 4) =~= secs);
    assert(at.skip(at.len() - 3) =~= rest);
}

/// The time of a check is its seconds, a point, and three digits of thousandths.
pub proof fn the_time_of_a_check_reads_back(
    r: CheckRecord,
    slots: Seq<(u32, SlotModel)>,
    games: Seq<(Seq<char>, NamesModel)>,
)
    ensures
        read_line(check_line(r, slots, games)) matches Some(line) && member(line, "at"@) is Number
            && is_time(member(line, "at"@)->Number_0, r.at_millis as int),
{
    line_is_read_back(r, slots, games);
    line_names_differ();
    written_time_is_read(r);
    let m = read_line(check_line(r, slots, games))->0->Dict_0;
    member_found(m, 1);
}

/// Zeros in front change nothing of what digits are worth.
proof fn filled_value(s: Seq<char>, width: nat)
    requires
        s.len() <= width,
    ensures
        zero_filled(s, width).len() == width,
        digits_value(zero_filled(s, width)) == digits_value(s),
    decreases width,
{
    if s.len() < width {
        filled_value(s, (width - 1) as nat);
        zero_in_front(zero_filled(s, (width - 1) as nat));
    }
}

proof fn zero_in_front(t: Seq<char>)
    ensures
        digits_value(seq!['0'] + t) == digits_value(t),
    decreases t.len(),
{
    let z = seq!['0'] + t;
    if t.len() == 0 {
        assert(z.drop_last() =~= t);
        assert(z.last() == '0');
    } else {
        assert(z.drop_last() =~= seq!['0'] + t.drop_last());
        assert(z.last() == t.last());
        zero_in_front(t.drop_last());
    }
}

/// A number below a thousand has at most three digits.
proof fn short_decimal(n: nat)
    requires
        n < 1000,
    ensures
        dec(n).len() <= 3,
{
    reveal_with_fuel(dec, 3);
}

/// The names on a line are those of its own players and their games: the finder and the receiver
/// by what their slots are called, the item as the receiver's game calls it and the location as
/// the finder's game does.
pub proof fn a_check_bears_the_names_of_its_own(
    r: CheckRecord,
    slots: Seq<(u32, SlotModel)>,
    games: Seq<(Seq<char>, NamesModel)>,
    finder: SlotModel,
    receiver: SlotModel,
    found_in: NamesModel,
    sent_to: NamesModel,
    item: Seq<char>,
    location: Seq<char>,
)
    requires
        entry::<u32, SlotModel>(slots, r.finder) == Some(finder),
        entry::<u32, SlotModel>(slots, r.receiver) == Some(receiver),
        entry::<String, NamesModel>(games, finder.game) == Some(found_in),
        entry::<String, NamesModel>(games, receiver.game) == Some(sent_to),
        entry::<i64, Seq<char>>(sent_to.item_by_id, r.item) == Some(item),
        entry::<i64, Seq<char>>(found_in.location_by_id, r.location) == Some(location),
    ensures
        read_line(check_line(r, slots, games)) matches Some(line) && {
            &&& member(line, "finder_name"@) == Datum::Text(finder.name)
            &&& member(line, "receiver_name"@) == Datum::Text(receiver.name)
            &&& member(line, "item_name"@) == Datum::Text(item)
            &&& member(line, "location_name"@) == Datum::Text(location)
        },
{
    line_is_read_back(r, slots, games);
    line_names_differ();
    let m = read_line(check_line(r, slots, games))->0->Dict_0;
    member_found(m, 3);
    member_found(m, 5);
    member_found(m, 7);
    member_found(m, 9);
}

/// Checks that differ in who receives, who found, the item, the location or the flags have
/// different lines: nothing of a record is lost.
pub proof fn different_checks_have_different_lines(
    r: CheckRecord,
    s: CheckRecord,
    slots: Seq<(u32, SlotModel)>,
    games: Seq<(Seq<char>, NamesModel)>,
)
    requires
        check_line(r, slots, games) == check_line(s, slots, games),
    ensures
        r == s,
{
    a_check_reads_back(r, slots, games);
    a_check_reads_back(s, slots, games);
    the_time_of_a_check_reads_back(r, slots, games);
    the_time_of_a_check_reads_back(s, slots, games);
}

/// A line about a gap, read back as JSON, says how much is missing, in the history and at its end.
pub proof fn a_gap_reads_back(dropped: u64, line: String, last: String)
    requires
        call_ensures(gap_line, (dropped,), line),
        call_ensures(last_gap_line, (dropped,), last),
    ensures
        read_line(line@) matches Some(d) && member(d, "type"@) == Datum::Text("gap"@) && num_of(
            member(d, "dropped"@),
        ) == Some(Num::Int(dropped as int)),
        read_line(last@) matches Some(d) && member(d, "type"@) == Datum::Text("gap"@) && num_of(
            member(d, "dropped"@),
        ) == Some(Num::Int(dropped as int)),
{
    reveal_strlit("{\"type\":\"gap\",\"dropped\":");
    reveal_strlit(
        ",\"note\":\"the journal could not keep up; this many checks are missing above\"}\n",
    );
    reveal_strlit("the journal could not keep up; this many checks are missing above");
    reveal_strlit("}\n");
    reveal_strlit("type");
    reveal_strlit("gap");
    reveal_strlit("dropped");
    reveal_strlit("note");
    let n = dec(dropped as nat);
    let note = "the journal could not keep up; this many checks are missing above"@;
    let end = seq!['\n'];
    decimals_are_bare(dropped as int);
    numbers_read_back(dropped as int);
    let w1 = text_member("type"@, "gap"@);
    let w2 = number_member("dropped"@, n);
    let w3 = text_member("note"@, note);
    let m1 = ("type"@, Datum::Text("gap"@));
    let m2 = ("dropped"@, number(dropped as int));
    let m3 = ("note"@, Datum::Text(note));

    let a3 = w3 + (seq!['}'] + end);
    plain_is_read(note, seq!['}'] + end);
    text_member_is_read("note"@, note, note, seq!['}'] + end);
    the_last_member_is_read(m3, w3, end);
    let a2 = w2 + (seq![','] + a3);
    number_member_is_read("dropped"@, n, seq![','] + a3);
    one_more_member_is_read(m2, w2, a3, seq![m3], end);
    let a1 = w1 + (seq![','] + a2);
    plain_is_read("gap"@, seq![','] + a2);
    text_member_is_read("type"@, "gap"@, "gap"@, seq![','] + a2);
    one_more_member_is_read(m1, w1, a2, seq![m2] + seq![m3], end);
    assert(line@ =~= seq!['{'] + a1);
    behind_the_brace(line@, a1);
    member_found(seq![m1] + (seq![m2] + seq![m3]), 0);
    member_found(seq![m1] + (seq![m2] + seq![m3]), 1);

    let b2 = w2 + (seq!['}'] + end);
    number_member_is_read("dropped"@, n, seq!['}'] + end);
    the_last_member_is_read(m2, w2, end);
    let b1 = w1 + (seq![','] + b2);
    plain_is_read("gap"@, seq![','] + b2);
    text_member_is_read("type"@, "gap"@, "gap"@, seq![','] + b2);
    one_more_member_is_read(m1, w1, b2, seq![m2], end);
    assert(last@ =~= seq!['{'] + b1);
    behind_the_brace(last@, b1);
    member_found(seq![m1] + seq![m2], 0);
    member_found(seq![m1] + seq![m2], 1);
}

/// What was written is never left in the buffer: a flush is made when asked for and at the latest
/// with the 1024th line since the last one; a line that failed is not counted.
pub proof fn lines_are_flushed_in_time(s: WriterState, written: Written, lost: u64)
    requires
        s.wf(),
    ensures
        written == Written::Flush ==> s.stepped(written, lost).1.flush,
        written == Written::Line ==> (s.stepped(written, lost).1.flush <==> s.since_flush >= 1023),
        written == Written::Failed ==> s.stepped(written, lost).0 == s && !s.stepped(
            written,
            lost,
        ).1.flush,
        s.stepped(written, lost).1.gap matches Some(n) ==> n == lost - s.reported && s.stepped(
            written,
            lost,
        ).0.reported == lost,
        written != Written::Failed && lost > s.reported ==> s.stepped(written, lost).1.gap is Some,
{
}

} // verus!
