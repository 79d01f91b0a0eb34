//! The location table: which item sits at which location, for every slot.
//!
//! One flat array, ordered by sender and location.

use crate::multidata::collect::{collect_pairs, collect_pairs_stops};
use crate::multidata::error::{at_path, index_path, Error, Path, Problem};
use crate::multidata::extract::{dict_of, int_of, tuple_of, u32_of, Extract};
use crate::multidata::pyobj::{pairs_model, pairs_model_is_deep, shown, Py, PyObj};
use crate::text::{dec, dec_int, push_decimal, push_signed};
use vstd::prelude::*;

verus! {

/// One location and what it holds.
#[derive(Debug, Clone, Copy, PartialEq, Eq, Structural)]
pub struct LocationEntry {
    pub location: i64,
    pub item: i64,
    /// The slot whose world has the location.
    pub sender: u32,
    /// The slot that receives the item.
    pub receiver: u32,
    pub flags: u32,
    /// Fills the entry up to thirty-two bytes; zero.
    pub pad: u32,
}

/// The entry with these fields.
pub open spec fn location_entry(
    sender: u32,
    location: i64,
    item: i64,
    receiver: u32,
    flags: u32,
) -> LocationEntry {
    LocationEntry { location, item, sender, receiver, flags, pad: 0 }
}

impl LocationEntry {
    pub fn new(sender: u32, location: i64, item: i64, receiver: u32, flags: u32) -> (r:
        LocationEntry)
        ensures
            r == location_entry(sender, location, item, receiver, flags),
    {
        LocationEntry { location, item, sender, receiver, flags, pad: 0 }
    }
}

/// Whether an entry stands before another or at the same place.
pub open spec fn in_sequence(a: LocationEntry, b: LocationEntry) -> bool {
    a.sender < b.sender || (a.sender == b.sender && a.location <= b.location)
}

/// The entries stand in order of sender, then location.
pub open spec fn ordered(s: Seq<LocationEntry>) -> bool {
    forall|i: int, j: int| 0 <= i < j < s.len() ==> in_sequence(#[trigger] s[i], #[trigger] s[j])
}

/// The greatest sender is not above `max`.
pub open spec fn senders_within(s: Seq<LocationEntry>, max: u32) -> bool {
    forall|i: int| 0 <= i < s.len() ==> (#[trigger] s[i]).sender <= max
}

/// `sort_unstable_by_key` from the standard library orders by the key, here the sender and then
/// the location, and keeps the elements.
#[verifier::external_body]
fn sort_entries(entries: &mut Vec<LocationEntry>)
    ensures
        ordered(final(entries)@),
        final(entries)@.to_multiset() == old(entries)@.to_multiset(),
{
    entries.sort_unstable_by_key(|e| (e.sender, e.location));
}

/// The locations of every slot.
#[derive(Debug)]
pub struct LocationStore {
    entries: Vec<LocationEntry>,
    max: u32,
}

impl View for LocationStore {
    type V = Seq<LocationEntry>;

    closed spec fn view(&self) -> Seq<LocationEntry> {
        self.entries@
    }
}

/// The entries of one slot.
pub open spec fn slot_entries(s: Seq<LocationEntry>, slot: u32) -> Seq<LocationEntry> {
    s.filter(|e: LocationEntry| e.sender == slot)
}

/// What a filter keeps, where it keeps exactly a range.
proof fn filter_is_range(s: Seq<LocationEntry>, slot: u32, a: int, b: int)
    requires
        0 <= a <= b <= s.len(),
        forall|i: int| 0 <= i < s.len() ==> ((#[trigger] s[i]).sender == slot <==> a <= i < b),
    ensures
        slot_entries(s, slot) == s.subrange(a, b),
    decreases s.len(),
{
    reveal(Seq::filter);
    if s.len() == 0 {
        assert(s.subrange(a, b) =~= s);
    } else {
        let t = s.drop_last();
        let n = s.len() - 1;
        if b == s.len() && a < b {
            filter_is_range(t, slot, a, n);
            assert(s[n].sender == slot);
            assert(t.subrange(a, n).push(s.last()) =~= s.subrange(a, b));
        } else if b == s.len() {
            filter_is_range(t, slot, n, n);
            assert(s[n].sender != slot);
            assert(t.subrange(n, n) =~= s.subrange(a, b));
        } else {
            filter_is_range(t, slot, a, b);
            assert(s[n].sender != slot);
            assert(t.subrange(a, b) =~= s.subrange(a, b));
        }
    }
}

/// An element is kept exactly where it passes.
proof fn filter_keeps(s: Seq<LocationEntry>, slot: u32, e: LocationEntry)
    ensures
        slot_entries(s, slot).contains(e) <==> s.contains(e) && e.sender == slot,
    decreases s.len(),
{
    reveal(Seq::filter);
    let f = slot_entries(s, slot);
    if s.len() > 0 {
        let t = s.drop_last();
        filter_keeps(t, slot, e);
        let g = slot_entries(t, slot);
        if t.contains(e) {
            let i = choose|i: int| 0 <= i < t.len() && t[i] == e;
            assert(s[i] == e);
        }
        if g.contains(e) {
            let i = choose|i: int| 0 <= i < g.len() && g[i] == e;
            assert(f[i] == e);
        }
        if s.last() == e {
            assert(s[s.len() - 1] == e);
            if e.sender == slot {
                assert(f[f.len() - 1] == e);
            }
        }
        if f.contains(e) {
            let i = choose|i: int| 0 <= i < f.len() && f[i] == e;
            if i < g.len() {
                assert(g[i] == e);
            }
        }
        if s.contains(e) {
            let i = choose|i: int| 0 <= i < s.len() && s[i] == e;
            if i < t.len() {
                assert(t[i] == e);
            }
        }
    }
}

/// Whether some entry is of the slot.
pub open spec fn has_slot(s: Seq<LocationEntry>, slot: int) -> bool {
    exists|i: int| 0 <= i < s.len() && (#[trigger] s[i]).sender == slot
}

/// The least slot from `slot` to `max` that has no entry.
pub open spec fn first_gap(s: Seq<LocationEntry>, slot: int, max: int) -> Option<int>
    decreases max + 1 - slot,
{
    if slot > max {
        None
    } else if !has_slot(s, slot) {
        Some(slot)
    } else {
        first_gap(s, slot + 1, max)
    }
}

/// The first place from `i` on whose entry repeats the location of the one before it.
pub open spec fn first_repeat(s: Seq<LocationEntry>, i: int) -> Option<int>
    decreases s.len() - i,
{
    if i < 1 || i >= s.len() {
        None
    } else if s[i].sender > 0 && s[i - 1].sender == s[i].sender && s[i - 1].location
        == s[i].location {
        Some(i)
    } else {
        first_repeat(s, i + 1)
    }
}

/// What is wrong with a table, if anything.
pub open spec fn store_problem(s: Seq<LocationEntry>, max: int) -> Option<Problem> {
    if s.len() == 0 {
        Some(Problem::Locations("no locations at all"@))
    } else {
        match first_gap(s, 1, max) {
            Some(slot) => Some(
                Problem::Locations(
                    "slot "@ + dec_int(slot)
                        + " has no locations, so slot ids are not contiguous"@,
                ),
            ),
            None => match first_repeat(s, 1) {
                Some(i) => Some(
                    Problem::Locations(
                        "slot "@ + dec(s[i].sender as nat) + " lists location "@ + dec_int(
                            s[i].location as int,
                        ) + " more than once"@,
                    ),
                ),
                None => None,
            },
        }
    }
}

impl LocationStore {
    #[verifier::type_invariant]
    spec fn in_order(self) -> bool {
        ordered(self.entries@) && senders_within(self.entries@, self.max)
    }

    /// The highest slot id that the table is for.
    pub closed spec fn top(&self) -> u32 {
        self.max
    }

    /// Orders a set of entries.
    pub fn from_entries(entries: Vec<LocationEntry>, max_slot: u32) -> (r: LocationStore)
        requires
            senders_within(entries@, max_slot),
        ensures
            ordered(r@),
            r@.to_multiset() == entries@.to_multiset(),
            r.top() == max_slot,
    {
        let mut sorted = entries;
        sort_entries(&mut sorted);
        proof {
            entries@.to_multiset_ensures();
            sorted@.to_multiset_ensures();
            assert forall|i: int| 0 <= i < sorted@.len() implies (#[trigger] sorted@[i]).sender
                <= max_slot by {
                assert(sorted@.contains(sorted@[i]));
                assert(entries@.to_multiset().count(sorted@[i]) > 0);
                assert(entries@.contains(sorted@[i]));
            }
        }
        LocationStore { entries: sorted, max: max_slot }
    }

    /// The first place whose sender is not below `slot`, by halving.
    fn seek(&self, slot: u64) -> (r: usize)
        ensures
            r <= self@.len(),
            forall|i: int| 0 <= i < r ==> (#[trigger] self@[i]).sender < slot,
            forall|i: int| r <= i < self@.len() ==> (#[trigger] self@[i]).sender >= slot,
    {
        proof {
            use_type_invariant(self);
        }
        let mut low: usize = 0;
        let mut high: usize = self.entries.len();
        while low < high
            invariant
                self.in_order(),
                low <= high <= self.entries@.len(),
                forall|i: int| 0 <= i < low ==> (#[trigger] self.entries@[i]).sender < slot,
                forall|i: int|
                    high <= i < self.entries@.len() ==> (#[trigger] self.entries@[i]).sender
                        >= slot,
            decreases high - low,
        {
            let mid: usize = low + (high - low) / 2;
            if (self.entries[mid].sender as u64) < slot {
                low = mid + 1;
            } else {
                high = mid;
            }
        }
        low
    }

    /// Every location of a slot, ascending.
    pub fn for_slot(&self, slot: u32) -> (r: &[LocationEntry])
        ensures
            r@ == slot_entries(self@, slot),
            forall|i: int, j: int|
                0 <= i < j < r@.len() ==> (#[trigger] r@[i]).location <= (#[trigger] r@[j]).location,
            forall|i: int| 0 <= i < r@.len() ==> (#[trigger] r@[i]).sender == slot,
    {
        let a: usize = self.seek(slot as u64);
        let b: usize = self.seek(slot as u64 + 1);
        proof {
            use_type_invariant(self);
            if b < a {
                assert(self@[b as int].sender >= slot + 1);
            }
            filter_is_range(self@, slot, a as int, b as int);
        }
        vstd::slice::slice_subrange(self.entries.as_slice(), a, b)
    }

    /// The entry at a location of a slot. Where a table lists the location more than once, one of
    /// those entries.
    pub fn get(&self, slot: u32, location: i64) -> (r: Option<&LocationEntry>)
        ensures
            r is Some <==> exists|i: int|
                0 <= i < self@.len() && (#[trigger] self@[i]).sender == slot && self@[i].location
                    == location,
            r matches Some(e) ==> self@.contains(*e) && e.sender == slot && e.location == location,
    {
        let slice = self.for_slot(slot);
        let mut low: usize = 0;
        let mut high: usize = slice.len();
        while low < high
            invariant
                low <= high <= slice@.len(),
                forall|i: int, j: int|
                    0 <= i < j < slice@.len() ==> (#[trigger] slice@[i]).location <= (
                    #[trigger] slice@[j]).location,
                forall|i: int| 0 <= i < low ==> (#[trigger] slice@[i]).location < location,
                forall|i: int|
                    high <= i < slice@.len() ==> (#[trigger] slice@[i]).location >= location,
            decreases high - low,
        {
            let mid: usize = low + (high - low) / 2;
            if slice[mid].location < location {
                low = mid + 1;
            } else {
                high = mid;
            }
        }
        let found: bool = low < slice.len() && slice[low].location == location;
        proof {
            if found {
                let e = slice@[low as int];
                assert(slice@.contains(e));
                filter_keeps(self@, slot, e);
                let i = choose|i: int| 0 <= i < self@.len() && self@[i] == e;
                assert(self@[i].sender == slot && self@[i].location == location);
            } else if exists|i: int|
                0 <= i < self@.len() && (#[trigger] self@[i]).sender == slot && self@[i].location
                    == location {
                let i = choose|i: int|
                    0 <= i < self@.len() && (#[trigger] self@[i]).sender == slot
                        && self@[i].location == location;
                assert(self@.contains(self@[i]));
                filter_keeps(self@, slot, self@[i]);
                let j = choose|j: int| 0 <= j < slice@.len() && slice@[j] == self@[i];
                assert(slice@[j].location == location);
            }
        }
        if found {
            Some(&slice[low])
        } else {
            None
        }
    }

    pub fn contains(&self, slot: u32, location: i64) -> (r: bool)
        ensures
            r <==> exists|i: int|
                0 <= i < self@.len() && (#[trigger] self@[i]).sender == slot && self@[i].location
                    == location,
    {
        self.get(slot, location).is_some()
    }

    pub fn count_for(&self, slot: u32) -> (r: usize)
        ensures
            r == slot_entries(self@, slot).len(),
    {
        self.for_slot(slot).len()
    }

    pub fn len(&self) -> (r: usize)
        ensures
            r == self@.len(),
    {
        self.entries.len()
    }

    pub fn is_empty(&self) -> (r: bool)
        ensures
            r == (self@.len() == 0),
    {
        self.entries.len() == 0
    }

    /// The highest slot id with locations; zero where there are none.
    pub fn max_slot(&self) -> (r: u32)
        ensures
            self@.len() == 0 ==> r == 0,
            forall|i: int| 0 <= i < self@.len() ==> (#[trigger] self@[i]).sender <= r,
            self@.len() > 0 ==> exists|i: int|
                0 <= i < self@.len() && (#[trigger] self@[i]).sender == r,
    {
        let n: usize = self.entries.len();
        if n == 0 {
            return 0;
        }
        proof {
            use_type_invariant(self);
            let last = n - 1;
            assert forall|i: int| 0 <= i < self@.len() implies (#[trigger] self@[i]).sender
                <= self@[last].sender by {
                if i < last {
                    assert(in_sequence(self.entries@[i], self.entries@[last]));
                }
            }
        }
        self.entries[n - 1].sender
    }

    /// All entries, in order of sender and location.
    pub fn all(&self) -> (r: &[LocationEntry])
        ensures
            r@ == self@,
            ordered(r@),
            senders_within(r@, self.top()),
    {
        proof {
            use_type_invariant(self);
        }
        self.entries.as_slice()
    }

    /// Refuses a table that is inconsistent: one without locations, one whose slots are not
    /// contiguous from one, and one in which a slot lists a location more than once.
    pub fn validate(&self) -> (r: Result<(), Error>)
        ensures
            match store_problem(self@, self.top() as int) {
                None => r is Ok,
                Some(p) => r matches Err(e) && e@ == p,
            },
    {
        if self.entries.len() == 0 {
            return Err(Error::Locations("no locations at all".to_string()));
        }
        let max: u64 = self.max as u64;
        let mut slot: u64 = 1;
        while slot <= max
            invariant
                max == self.top(),
                self@.len() > 0,
                1 <= slot <= max + 1,
                first_gap(self@, 1, max as int) == first_gap(self@, slot as int, max as int),
            decreases max + 1 - slot,
        {
            let p: usize = self.seek(slot);
            assert(self@ == self.entries@);
            if p >= self.entries.len() || self.entries[p].sender as u64 != slot {
                proof {
                    use_type_invariant(self);
                    assert forall|i: int| 0 <= i < self@.len() implies (#[trigger] self@[i]).sender
                        != slot by {
                        if i > p {
                            assert(in_sequence(self.entries@[p as int], self.entries@[i]));
                        }
                    }
                }
                let mut s = "slot ".to_string();
                push_decimal(&mut s, slot);
                s.append(" has no locations, so slot ids are not contiguous");
                return Err(Error::Locations(s));
            }
            slot += 1;
        }
        let mut i: usize = 1;
        while i < self.entries.len()
            invariant
                1 <= i <= self@.len(),
                self@ == self.entries@,
                first_gap(self@, 1, self.top() as int) is None,
                first_repeat(self@, 1) == first_repeat(self@, i as int),
            decreases self@.len() - i,
        {
            let a = self.entries[i - 1];
            let b = self.entries[i];
            if b.sender > 0 && a.sender == b.sender && a.location == b.location {
                let mut s = "slot ".to_string();
                push_decimal(&mut s, b.sender as u64);
                s.append(" lists location ");
                push_signed(&mut s, b.location);
                s.append(" more than once");
                return Err(Error::Locations(s));
            }
            i += 1;
        }
        Ok(())
    }
}

/// What one location's key and triple say.
pub open spec fn location_of(
    sender: u32,
    slot_path: Seq<char>,
    key: Py,
    triple: Py,
) -> Result<LocationEntry, Problem> {
    let path = index_path(slot_path, shown(key));
    match int_of(key, path) {
        Err(e) => Err(e),
        Ok(location) => match tuple_of(triple, path, 3) {
            Err(e) => Err(e),
            Ok(t) => match int_of(t[0], at_path(path, 0)) {
                Err(e) => Err(e),
                Ok(item) => match u32_of(t[1], at_path(path, 1)) {
                    Err(e) => Err(e),
                    Ok(receiver) => match u32_of(t[2], at_path(path, 2)) {
                        Err(e) => Err(e),
                        Ok(flags) => Ok(location_entry(sender, location, item, receiver, flags)),
                    },
                },
            },
        },
    }
}

/// What one slot's key and locations say.
pub open spec fn slot_locations(path: Seq<char>, key: Py, locations: Py) -> Result<
    Seq<LocationEntry>,
    Problem,
> {
    let slot_path = index_path(path, shown(key));
    match u32_of(key, slot_path) {
        Err(e) => Err(e),
        Ok(sender) => if sender == 0 {
            Err(Problem::Locations("slot 0 is the server and cannot own locations"@))
        } else {
            match dict_of(locations, slot_path) {
                Err(e) => Err(e),
                Ok(pairs) => collect_pairs(
                    pairs,
                    |k: Py, t: Py| location_of(sender, slot_path, k, t),
                    pairs.len(),
                ),
            }
        },
    }
}

/// The locations of every slot, slot by slot.
pub open spec fn all_locations(o: Py, path: Seq<char>) -> Result<Seq<Seq<LocationEntry>>, Problem> {
    match dict_of(o, path) {
        Err(e) => Err(e),
        Ok(pairs) => collect_pairs(pairs, |k: Py, v: Py| slot_locations(path, k, v), pairs.len()),
    }
}

/// The greatest slot among the first `n` keys; a key that is none counts as zero.
pub open spec fn greatest_slot(pairs: Seq<(Py, Py)>, n: nat) -> u32
    decreases n,
{
    if n == 0 {
        0
    } else {
        let m = greatest_slot(pairs, (n - 1) as nat);
        match pairs[n - 1].0 {
            Py::Int(v) => if m < v <= u32::MAX {
                v as u32
            } else {
                m
            },
            _ => m,
        }
    }
}

/// Reads one location's key and triple.
fn read_location(sender: u32, slot_path: &Path, key: &PyObj, triple: &PyObj) -> (r: Result<
    LocationEntry,
    Error,
>)
    ensures
        match location_of(sender, slot_path@, key.model(), triple.model()) {
            Ok(e) => r matches Ok(x) && x == e,
            Err(e) => r matches Err(x) && x@ == e,
        },
{
    let mut name = String::new();
    key.push_shown(&mut name);
    assert(name@ =~= shown(key.model()));
    let path = slot_path.index_text(name.as_str());
    let location: i64 = match key.int_(&path) {
        Ok(n) => n,
        Err(e) => {
            return Err(e);
        },
    };
    let t = match triple.tuple_n(&path, 3) {
        Ok(t) => t,
        Err(e) => {
            return Err(e);
        },
    };
    let ghost model = t.deep_view();
    assert(model[0] == t@[0].model() && model[1] == t@[1].model() && model[2] == t@[2].model());
    let item: i64 = match t[0].int_(&path.index(0)) {
        Ok(n) => n,
        Err(e) => {
            return Err(e);
        },
    };
    let receiver: u32 = match t[1].u32_(&path.index(1)) {
        Ok(n) => n,
        Err(e) => {
            return Err(e);
        },
    };
    match t[2].u32_(&path.index(2)) {
        Ok(flags) => Ok(LocationEntry::new(sender, location, item, receiver, flags)),
        Err(e) => Err(e),
    }
}

/// Reads one slot's key and locations.
fn read_slot(path: &Path, key: &PyObj, locations: &PyObj) -> (r: Result<
    (u32, Vec<LocationEntry>),
    Error,
>)
    ensures
        match slot_locations(path@, key.model(), locations.model()) {
            Ok(s) => r matches Ok(x) && x.1@ == s && key.model() == Py::Int(x.0 as i64)
                && senders_within(s, x.0),
            Err(e) => r matches Err(x) && x@ == e,
        },
{
    let mut name = String::new();
    key.push_shown(&mut name);
    assert(name@ =~= shown(key.model()));
    let slot_path = path.index_text(name.as_str());
    let sender: u32 = match key.u32_(&slot_path) {
        Ok(n) => n,
        Err(e) => {
            return Err(e);
        },
    };
    if sender == 0 {
        return Err(
            Error::Locations("slot 0 is the server and cannot own locations".to_string()),
        );
    }
    let pairs = match locations.dict_(&slot_path) {
        Ok(pairs) => pairs,
        Err(e) => {
            return Err(e);
        },
    };
    proof {
        pairs_model_is_deep(*pairs);
    }
    let ghost model = pairs_model(pairs@);
    let ghost f = |k: Py, t: Py| location_of(sender, slot_path@, k, t);
    let mut out: Vec<LocationEntry> = Vec::new();
    for i in 0..pairs.len()
        invariant
            model == pairs_model(pairs@),
            f == (|k: Py, t: Py| location_of(sender, slot_path@, k, t)),
            collect_pairs(model, f, i as nat) == Ok::<Seq<LocationEntry>, Problem>(out@),
            senders_within(out@, sender),
            slot_locations(path@, key.model(), locations.model()) == collect_pairs(
                model,
                f,
                pairs@.len(),
            ),
    {
        assert(model[i as int] == (pairs@[i as int].0.model(), pairs@[i as int].1.model()));
        match read_location(sender, &slot_path, &pairs[i].0, &pairs[i].1) {
            Ok(e) => {
                out.push(e);
            },
            Err(e) => {
                proof {
                    assert(collect_pairs(model, f, (i + 1) as nat) == Err::<
                        Seq<LocationEntry>,
                        Problem,
                    >(e@));
                    collect_pairs_stops(model, f, (i + 1) as nat, pairs@.len());
                }
                return Err(e);
            },
        }
    }
    Ok((sender, out))
}

impl LocationStore {
    /// Reads `{slot: {location: (item, receiver, flags)}}`.
    pub fn from_py(v: &PyObj, path: &Path) -> (r: Result<LocationStore, Error>)
        ensures
            match all_locations(v.model(), path@) {
                Ok(per_slot) => r matches Ok(store) && ordered(store@) && store@.to_multiset()
                    == per_slot.flatten_alt().to_multiset() && store.top() == greatest_slot(
                    v.model()->Dict_0,
                    v.model()->Dict_0.len(),
                ),
                Err(e) => r matches Err(x) && x@ == e,
            },
    {
        let pairs = match v.dict_(path) {
            Ok(pairs) => pairs,
            Err(e) => {
                return Err(e);
            },
        };
        proof {
            pairs_model_is_deep(*pairs);
        }
        let ghost model = pairs_model(pairs@);
        let ghost f = |k: Py, v: Py| slot_locations(path@, k, v);
        let ghost mut per_slot: Seq<Seq<LocationEntry>> = Seq::empty();
        let mut entries: Vec<LocationEntry> = Vec::new();
        let mut max: u32 = 0;
        for i in 0..pairs.len()
            invariant
                model == pairs_model(pairs@),
                v.model() == Py::Dict(model),
                f == (|k: Py, v: Py| slot_locations(path@, k, v)),
                collect_pairs(model, f, i as nat) == Ok::<Seq<Seq<LocationEntry>>, Problem>(
                    per_slot,
                ),
                entries@ == per_slot.flatten_alt(),
                max == greatest_slot(model, i as nat),
                senders_within(entries@, max),
                all_locations(v.model(), path@) == collect_pairs(model, f, pairs@.len()),
        {
            assert(model[i as int] == (pairs@[i as int].0.model(), pairs@[i as int].1.model()));
            match read_slot(path, &pairs[i].0, &pairs[i].1) {
                Ok((sender, mut found)) => {
                    let ghost more = found@;
                    if sender > max {
                        max = sender;
                    }
                    entries.append(&mut found);
                    proof {
                        let was = per_slot;
                        per_slot = per_slot.push(more);
                        assert(per_slot.drop_last() =~= was);
                    }
                },
                Err(e) => {
                    proof {
                        assert(collect_pairs(model, f, (i + 1) as nat) == Err::<
                            Seq<Seq<LocationEntry>>,
                            Problem,
                        >(e@));
                        collect_pairs_stops(model, f, (i + 1) as nat, pairs@.len());
                    }
                    return Err(e);
                },
            }
        }
        Ok(LocationStore::from_entries(entries, max))
    }
}

/// A table that passes has every slot from one to the highest, and no slot lists a location
/// twice, so a lookup has exactly one answer.
pub proof fn a_valid_table_is_unambiguous(s: Seq<LocationEntry>, max: u32, i: int, j: int)
    requires
        ordered(s),
        senders_within(s, max),
        store_problem(s, max as int) is None,
        0 <= i < j < s.len(),
        s[i].sender > 0,
    ensures
        s[i].sender != s[j].sender || s[i].location != s[j].location,
        forall|slot: int| 1 <= slot <= max ==> #[trigger] has_slot(s, slot),
{
    if s[i].sender == s[j].sender && s[i].location == s[j].location {
        assert(in_sequence(s[i], s[i + 1]));
        if i + 1 < j {
            assert(in_sequence(s[i + 1], s[j]));
        }
        no_repeat_at(s, 1, i + 1);
    }
    assert forall|slot: int| 1 <= slot <= max implies #[trigger] has_slot(s, slot) by {
        no_gap_at(s, 1, max as int, slot);
    }
}

proof fn no_repeat_at(s: Seq<LocationEntry>, from: int, k: int)
    requires
        1 <= from <= k < s.len(),
        first_repeat(s, from) is None,
    ensures
        !(s[k].sender > 0 && s[k - 1].sender == s[k].sender && s[k - 1].location == s[k].location),
    decreases k - from,
{
    if from < k {
        no_repeat_at(s, from + 1, k);
    }
}

proof fn no_gap_at(s: Seq<LocationEntry>, from: int, max: int, slot: int)
    requires
        from <= slot <= max,
        first_gap(s, from, max) is None,
    ensures
        has_slot(s, slot),
    decreases slot - from,
{
    if from < slot {
        no_gap_at(s, from + 1, max, slot);
    }
}

} // verus!
