//! Fan-out.
//!
//! A broadcast goes to a few shards rather than to every connection. A shard owns the connections
//! whose number leaves its own as the remainder, expands an audience against them, and queues the
//! frame for each; it never waits. A connection that cannot keep up is closed, never sent less.

use crate::net::budget::{held, held_update, Budget, ConnBudget, Ledger};
use crate::net::channel::{offer, Handed, Offer};
use crate::net::metrics::{
    delivered_more, record_client_deflate, record_delivery, record_lag_disconnect,
    Counters, Metrics, SlotKey,
};
use crate::table::{
    ascending, bumped, entry, set_in, setting_is_separate, with_entry, wrapped, Table,
};
use tokio::sync::mpsc;
use vstd::prelude::*;

verus! {

/// The number of a connection.
pub type ConnId = u64;

/// `bytes::Bytes`.
#[verifier::external_type_specification]
#[verifier::external_body]
pub struct ExBytes(bytes::Bytes);

/// The bytes that a `bytes::Bytes` holds.
pub uninterp spec fn frame_bytes(b: bytes::Bytes) -> Seq<u8>;

/// `bytes::Bytes::len` is the number of bytes held.
#[verifier::external_body]
fn frame_len(b: &bytes::Bytes) -> (r: usize)
    ensures
        r == frame_bytes(*b).len(),
{
    b.len()
}

/// A clone of a `bytes::Bytes` holds the same bytes.
pub assume_specification[ <bytes::Bytes as std::clone::Clone>::clone ](
    b: &bytes::Bytes,
) -> (r: bytes::Bytes)
    ensures
        frame_bytes(r) == frame_bytes(*b),
;

/// What the writer of one connection accepts.
#[derive(Debug, Clone)]
pub enum Outbound {
    /// A frame that is already encoded.
    Frame(bytes::Bytes),
    Close(&'static str),
}

/// A connection that a shard owns.
#[derive(Debug)]
pub struct Member {
    pub conn: ConnId,
    pub tx: mpsc::Sender<Outbound>,
    /// Closes the connection when its queue is of no use. One place is enough: a second close is
    /// redundant.
    pub close: mpsc::Sender<&'static str>,
    pub auth: bool,
    pub no_text: bool,
    pub slot: Option<SlotKey>,
    /// The window size that was negotiated, if the connection takes compressed frames at all.
    pub deflate: Option<u8>,
    pub budget: ConnBudget,
    /// Nothing more is queued for it.
    pub lagged: bool,
    /// The number of the filter on what it is sent.
    pub filter: Option<u64>,
    /// It came in on the scoped port and hears only what concerns its own slot.
    pub scoped: bool,
}

/// Who is to hear a message.
#[derive(Debug)]
pub enum Recipients {
    /// Everyone who holds a slot.
    All,
    /// Everyone who holds a slot and takes text.
    AllText,
    /// Every connection of a slot.
    Slot(SlotKey),
    /// Every connection of a slot that takes text.
    SlotText(SlotKey),
    /// Everyone who takes text, and of those on the scoped port the connections of a slot.
    AllTextAbout(SlotKey),
    /// Everyone who takes text and is not on the scoped port.
    AllTextFull,
    /// The connections of a slot that take text and are on the scoped port.
    SlotScopedText(SlotKey),
    /// These connections.
    These(Vec<ConnId>),
}

/// Recipients that are the same.
pub open spec fn same_recipients(a: Recipients, b: Recipients) -> bool {
    match (a, b) {
        (Recipients::These(x), Recipients::These(y)) => x@ == y@,
        _ => a == b,
    }
}

impl Recipients {
    /// The same recipients once more.
    pub fn dup(&self) -> (r: Recipients)
        ensures
            same_recipients(r, *self),
    {
        match self {
            Recipients::All => Recipients::All,
            Recipients::AllText => Recipients::AllText,
            Recipients::Slot(key) => Recipients::Slot(*key),
            Recipients::SlotText(key) => Recipients::SlotText(*key),
            Recipients::AllTextAbout(key) => Recipients::AllTextAbout(*key),
            Recipients::AllTextFull => Recipients::AllTextFull,
            Recipients::SlotScopedText(key) => Recipients::SlotScopedText(*key),
            Recipients::These(list) => Recipients::These(list.clone()),
        }
    }
}

/// Whether a connection is to hear a message, by what is known of it.
pub open spec fn hears(m: Member, to: Recipients) -> bool {
    match to {
        Recipients::All => m.auth,
        Recipients::AllText => m.auth && !m.no_text,
        Recipients::Slot(key) => m.slot == Some(key),
        Recipients::SlotText(key) => m.slot == Some(key) && !m.no_text,
        Recipients::AllTextAbout(key) => m.auth && !m.no_text && (!m.scoped || m.slot == Some(
            key,
        )),
        Recipients::AllTextFull => m.auth && !m.no_text && !m.scoped,
        Recipients::SlotScopedText(key) => m.slot == Some(key) && !m.no_text && m.scoped,
        Recipients::These(list) => list@.contains(m.conn),
    }
}

/// Whether a connection that is asked takes a message: one that is listed, or any for a message to
/// all.
pub open spec fn takes(m: Member, to: Recipients) -> bool {
    match to {
        Recipients::Slot(_) => true,
        Recipients::SlotText(_) => !m.no_text,
        Recipients::SlotScopedText(_) => !m.no_text && m.scoped,
        Recipients::These(_) => true,
        _ => hears(m, to),
    }
}

/// The list of those that are asked; none where all are.
pub open spec fn asked(by: Seq<(SlotKey, Seq<ConnId>)>, to: Recipients) -> Option<Seq<ConnId>> {
    match to {
        Recipients::Slot(key) => Some(listed(by, key)),
        Recipients::SlotText(key) => Some(listed(by, key)),
        Recipients::SlotScopedText(key) => Some(listed(by, key)),
        Recipients::These(list) => Some(list@),
        _ => None,
    }
}

/// Whether a connection is here and something is true of it.
pub open spec fn here(m: Seq<Member>, c: ConnId, kept: spec_fn(Member) -> bool) -> bool {
    seat(m, c) matches Some(i) && kept(m[i])
}

/// Whether these are the places of those that a message is for: of a list those that are here and
/// take it, in the order of the list; else all that take it, each once.
pub open spec fn in_audience(
    m: Seq<Member>,
    by: Seq<(SlotKey, Seq<ConnId>)>,
    who: Seq<usize>,
    to: Recipients,
) -> bool {
    &&& forall|j: int| 0 <= j < who.len() ==> (#[trigger] who[j]) < m.len()
    &&& match asked(by, to) {
        Some(list) => who.map_values(|i: usize| m[i as int].conn) == list.filter(
            |c: ConnId| here(m, c, |x: Member| takes(x, to)),
        ),
        None => {
            &&& forall|j: int| 0 <= j < who.len() ==> hears(m[(#[trigger] who[j]) as int], to)
            &&& forall|i: usize|
                i < m.len() && hears(m[i as int], to) ==> #[trigger] who.contains(i)
            &&& who.no_duplicates()
        },
    }
}

/// Members and counters once it is known of a connection what it may hear. What it takes compressed
/// is counted when it signs in.
pub open spec fn after_update(
    m: Seq<Member>,
    c: Counters,
    conn: ConnId,
    auth: bool,
    no_text: bool,
    slot: Option<SlotKey>,
) -> (Seq<Member>, Counters) {
    match seat(m, conn) {
        Some(i) => (
            m.update(i, Member { auth, no_text, slot, ..m[i] }),
            if !m[i].auth && auth && slot is Some {
                Counters {
                    deflating: bumped::<(SlotKey, bool)>(
                        c.deflating,
                        (slot->0, m[i].deflate is Some),
                        1,
                    ),
                    ..c
                }
            } else {
                c
            },
        ),
        None => (m, c),
    }
}

/// The place of a connection among the members from `i` on.
pub open spec fn seat_from(m: Seq<Member>, conn: ConnId, i: int) -> Option<int>
    decreases m.len() - i,
{
    if i >= m.len() {
        None
    } else if m[i].conn == conn {
        Some(i)
    } else {
        seat_from(m, conn, i + 1)
    }
}

/// The place of a connection among the members.
pub open spec fn seat(m: Seq<Member>, conn: ConnId) -> Option<int> {
    seat_from(m, conn, 0)
}

/// No connection is there twice.
pub open spec fn distinct(m: Seq<Member>) -> bool {
    forall|i: int, j: int| 0 <= i < j < m.len() ==> (#[trigger] m[i]).conn != (#[trigger] m[j]).conn
}

/// The slot of a connection.
pub open spec fn slot_in(m: Seq<Member>, conn: ConnId) -> Option<SlotKey> {
    match seat(m, conn) {
        Some(i) => m[i].slot,
        None => None,
    }
}

/// The connections listed for a slot.
pub open spec fn listed(by: Seq<(SlotKey, Seq<ConnId>)>, key: SlotKey) -> Seq<ConnId> {
    match entry::<SlotKey, Seq<ConnId>>(by, key) {
        Some(l) => l,
        None => Seq::empty(),
    }
}

/// Whether a connection is another one.
pub open spec fn another(conn: ConnId) -> spec_fn(ConnId) -> bool {
    |c: ConnId| c != conn
}

/// A list without a connection.
pub open spec fn others(s: Seq<ConnId>, conn: ConnId) -> Seq<ConnId> {
    s.filter(another(conn))
}

/// The index once a connection was taken off the list of a slot.
pub open spec fn unlisted(
    by: Seq<(SlotKey, Seq<ConnId>)>,
    slot: Option<SlotKey>,
    conn: ConnId,
) -> Seq<(SlotKey, Seq<ConnId>)> {
    match slot {
        Some(key) if entry::<SlotKey, Seq<ConnId>>(by, key) is Some => with_entry::<
            SlotKey,
            Seq<ConnId>,
        >(by, key, others(listed(by, key), conn)),
        _ => by,
    }
}

/// The index once a connection was put on the list of a slot.
pub open spec fn enlisted(
    by: Seq<(SlotKey, Seq<ConnId>)>,
    slot: Option<SlotKey>,
    conn: ConnId,
) -> Seq<(SlotKey, Seq<ConnId>)> {
    match slot {
        Some(key) => with_entry::<SlotKey, Seq<ConnId>>(by, key, listed(by, key).push(conn)),
        None => by,
    }
}

/// The members once one more was taken in. One with the same number is overwritten.
pub open spec fn members_with(m: Seq<Member>, x: Member) -> Seq<Member> {
    match seat(m, x.conn) {
        Some(i) => m.update(i, x),
        None => m.push(x),
    }
}

/// The account of a connection.
pub open spec fn account_in(m: Seq<Member>, conn: ConnId) -> Option<ConnBudget> {
    match seat(m, conn) {
        Some(i) => Some(m[i].budget),
        None => None,
    }
}

/// The members without a connection.
pub open spec fn members_without(m: Seq<Member>, conn: ConnId) -> Seq<Member> {
    match seat(m, conn) {
        Some(i) => m.remove(i),
        None => m,
    }
}

/// The index once it is known which slot a connection holds.
pub open spec fn index_after_update(
    m: Seq<Member>,
    by: Seq<(SlotKey, Seq<ConnId>)>,
    conn: ConnId,
    slot: Option<SlotKey>,
) -> Seq<(SlotKey, Seq<ConnId>)> {
    match seat(m, conn) {
        Some(i) if m[i].slot != slot => enlisted(unlisted(by, m[i].slot, conn), slot, conn),
        _ => by,
    }
}

/// Every slot lists its connections, each once, and no others.
pub open spec fn indexed(m: Seq<Member>, by: Seq<(SlotKey, Seq<ConnId>)>) -> bool {
    &&& forall|key: SlotKey| (#[trigger] listed(by, key)).no_duplicates()
    &&& forall|key: SlotKey, c: ConnId|
        (#[trigger] listed(by, key).contains(c)) <==> slot_in(m, c) == Some(key)
}

/// What the accounts of the members hold together.
pub open spec fn held_by(m: Seq<Member>) -> int {
    held(accounts(m))
}

/// What an account holds, if there is one.
pub open spec fn held_in(account: Option<ConnBudget>) -> int {
    match account {
        Some(b) => b.queued as int,
        None => 0,
    }
}

/// The accounts of the members.
pub open spec fn accounts(m: Seq<Member>) -> Seq<ConnBudget> {
    m.map_values(|x: Member| x.budget)
}

proof fn seat_found(m: Seq<Member>, conn: ConnId, i: int)
    requires
        0 <= i,
    ensures
        match seat_from(m, conn, i) {
            Some(k) => i <= k < m.len() && m[k].conn == conn && forall|j: int|
                i <= j < k ==> (#[trigger] m[j]).conn != conn,
            None => forall|j: int| i <= j < m.len() ==> (#[trigger] m[j]).conn != conn,
        },
    decreases m.len() - i,
{
    if i < m.len() && m[i].conn != conn {
        seat_found(m, conn, i + 1);
    }
}

/// The place of a member is where it stands.
proof fn seat_is(m: Seq<Member>, conn: ConnId, i: int)
    requires
        distinct(m),
        0 <= i < m.len(),
        m[i].conn == conn,
    ensures
        seat(m, conn) == Some(i),
{
    seat_found(m, conn, 0);
}

/// Where a connection stands, as seen from one place.
pub proof fn member_seat(m: Seq<Member>, conn: ConnId, k: int)
    requires
        distinct(m),
        0 <= k < m.len(),
    ensures
        m[k].conn == conn ==> seat(m, conn) == Some(k),
        m[k].conn != conn ==> seat(m, conn) != Some(k),
        seat(m, conn) matches Some(i) ==> 0 <= i < m.len(),
{
    seat_found(m, conn, 0);
    if m[k].conn == conn {
        seat_is(m, conn, k);
    }
}

/// Replacing a member changes the slot of that connection alone.
proof fn slots_after_update(m: Seq<Member>, i: int, x: Member, c: ConnId)
    requires
        distinct(m),
        0 <= i < m.len(),
        x.conn == m[i].conn,
    ensures
        distinct(m.update(i, x)),
        slot_in(m.update(i, x), c) == if c == x.conn {
            x.slot
        } else {
            slot_in(m, c)
        },
        seat(m.update(i, x), c) == seat(m, c),
{
    let t = m.update(i, x);
    seat_found(m, c, 0);
    seat_found(t, c, 0);
    match seat(m, c) {
        Some(k) => {
            assert(t[k].conn == c);
        },
        None => {
            if seat(t, c) is Some {
                let k = seat(t, c)->0;
                assert(m[k].conn == t[k].conn);
            }
        },
    }
    if seat(t, c) is Some && seat(m, c) is Some {
        let k = seat(t, c)->0;
        assert(m[k].conn == t[k].conn);
    }
}

/// Adding a member gives that connection its slot and changes no other.
proof fn slots_after_push(m: Seq<Member>, x: Member, c: ConnId)
    requires
        distinct(m),
        seat(m, x.conn) is None,
    ensures
        distinct(m.push(x)),
        slot_in(m.push(x), c) == if c == x.conn {
            x.slot
        } else {
            slot_in(m, c)
        },
{
    let t = m.push(x);
    seat_found(m, x.conn, 0);
    seat_found(m, c, 0);
    seat_found(t, c, 0);
    assert(t[m.len() as int] == x);
    assert(forall|j: int| 0 <= j < m.len() ==> t[j] == m[j]);
    if seat(t, c) is Some {
        let k = seat(t, c)->0;
        if k < m.len() {
            assert(m[k].conn == c);
        }
    }
    if seat(m, c) is Some {
        let k = seat(m, c)->0;
        assert(t[k].conn == c);
    }
}

/// Removing a member takes the slot of that connection and changes no other.
proof fn slots_after_remove(m: Seq<Member>, i: int, c: ConnId)
    requires
        distinct(m),
        0 <= i < m.len(),
    ensures
        distinct(m.remove(i)),
        slot_in(m.remove(i), c) == if c == m[i].conn {
            None
        } else {
            slot_in(m, c)
        },
{
    let t = m.remove(i);
    seat_found(m, c, 0);
    seat_found(t, c, 0);
    assert forall|a: int, b: int| 0 <= a < b < t.len() implies (#[trigger] t[a]).conn != (
    #[trigger] t[b]).conn by {
        let x = if a < i {
            a
        } else {
            a + 1
        };
        let y = if b < i {
            b
        } else {
            b + 1
        };
        assert(m[x].conn != m[y].conn);
    }
    if seat(t, c) is Some {
        let k = seat(t, c)->0;
        let x = if k < i {
            k
        } else {
            k + 1
        };
        assert(t[k] == m[x]);
        seat_is(m, c, x);
        if c == m[i].conn {
            assert(m[x].conn != m[i].conn);
        }
    }
    if seat(m, c) is Some && c != m[i].conn {
        let k = seat(m, c)->0;
        let x = if k < i {
            k
        } else {
            k - 1
        };
        assert(t[x] == m[k]);
        seat_is(t, c, x);
    }
}

/// The connections of one shard.
#[derive(Debug)]
pub struct Shard {
    pub members: Vec<Member>,
    pub by_slot: Table<SlotKey, Vec<ConnId>>,
}

impl Shard {
    /// No connection is there twice, and the index is in order.
    pub open spec fn wf(&self) -> bool {
        &&& distinct(self.members@)
        &&& ascending::<SlotKey, Seq<ConnId>>(self.index())
    }

    /// The connections listed for each slot.
    pub open spec fn index(&self) -> Seq<(SlotKey, Seq<ConnId>)> {
        self.by_slot.deep_view()
    }

    pub fn new() -> (r: Shard)
        ensures
            r.wf(),
            r.members@.len() == 0,
            r.index().len() == 0,
    {
        Shard { members: Vec::new(), by_slot: Table::new() }
    }

    /// Where a connection is.
    fn seek(&self, conn: ConnId) -> (r: Option<usize>)
        ensures
            match r {
                Some(i) => seat(self.members@, conn) == Some(i as int) && i < self.members@.len()
                    && self.members@[i as int].conn == conn,
                None => seat(self.members@, conn) is None,
            },
    {
        for i in 0..self.members.len()
            invariant
                seat(self.members@, conn) == seat_from(self.members@, conn, i as int),
        {
            if self.members[i].conn == conn {
                return Some(i);
            }
        }
        None
    }
}

/// What a list holds once one thing more is put on it; without duplicates it stays so.
proof fn contains_after_push(s: Seq<ConnId>, v: ConnId)
    ensures
        forall|x: ConnId| #[trigger] s.push(v).contains(x) <==> x == v || s.contains(x),
        s.no_duplicates() && !s.contains(v) ==> s.push(v).no_duplicates(),
{
    let t = s.push(v);
    assert forall|x: ConnId| #[trigger] t.contains(x) <==> x == v || s.contains(x) by {
        if s.contains(x) {
            let j = choose|j: int| 0 <= j < s.len() && s[j] == x;
            assert(t[j] == x);
        }
        if x == v {
            assert(t[s.len() as int] == x);
        }
    }
    if s.no_duplicates() && !s.contains(v) {
        assert forall|i: int, j: int| 0 <= i < t.len() && 0 <= j < t.len() && i != j implies t[i]
            != t[j] by {
            if i < s.len() {
                assert(s.contains(s[i]));
            }
            if j < s.len() {
                assert(s.contains(s[j]));
            }
        }
    }
}

/// Takes a connection off the list of a slot.
fn unlist(by: &mut Table<SlotKey, Vec<ConnId>>, key: SlotKey, conn: ConnId)
    requires
        ascending::<SlotKey, Seq<ConnId>>(old(by).deep_view()),
    ensures
        ascending::<SlotKey, Seq<ConnId>>(final(by).deep_view()),
        final(by).deep_view() == unlisted(old(by).deep_view(), Some(key), conn),
{
    let ghost b = by.deep_view();
    let ghost p = another(conn);
    let mut kept: Vec<ConnId> = Vec::new();
    match by.get(&key) {
        None => {
            return;
        },
        Some(list) => {
            let ghost l = list@;
            assert(list.deep_view() =~= l);
            proof {
                reveal(Seq::filter);
                assert(l.take(0).filter(p) =~= Seq::<ConnId>::empty());
            }
            for i in 0..list.len()
                invariant
                    l == list@,
                    p == another(conn),
                    kept@ == l.take(i as int).filter(p),
            {
                proof {
                    reveal(Seq::filter);
                    assert(l.take(i + 1).drop_last() =~= l.take(i as int));
                }
                if list[i] != conn {
                    kept.push(list[i]);
                }
            }
            assert(l.take(l.len() as int) =~= l);
        },
    }
    proof {
        assert(kept.deep_view() =~= kept@);
        setting_is_separate::<SlotKey, Seq<ConnId>>(b, key, kept@, key);
    }
    set_in(by, key, kept);
}

/// Puts a connection on the list of a slot.
fn enlist(by: &mut Table<SlotKey, Vec<ConnId>>, key: SlotKey, conn: ConnId)
    requires
        ascending::<SlotKey, Seq<ConnId>>(old(by).deep_view()),
    ensures
        ascending::<SlotKey, Seq<ConnId>>(final(by).deep_view()),
        final(by).deep_view() == enlisted(old(by).deep_view(), Some(key), conn),
{
    let ghost b = by.deep_view();
    let mut list: Vec<ConnId> = Vec::new();
    if let Some(known) = by.get(&key) {
        assert(known.deep_view() =~= known@);
        for i in 0..known.len()
            invariant
                list@ == known@.take(i as int),
        {
            list.push(known[i]);
            assert(list@ =~= known@.take(i + 1));
        }
        assert(list@ =~= known@);
    }
    assert(list@ =~= listed(b, key));
    list.push(conn);
    proof {
        assert(list.deep_view() =~= list@);
        setting_is_separate::<SlotKey, Seq<ConnId>>(b, key, list@, key);
    }
    set_in(by, key, list);
}

/// Whether two slots are the same.
fn same_key(a: Option<SlotKey>, b: Option<SlotKey>) -> (r: bool)
    ensures
        r == (a == b),
{
    match (a, b) {
        (Some(x), Some(y)) => x.0 == y.0 && x.1 == y.1,
        (None, None) => true,
        _ => false,
    }
}

/// A connection as it is when it is added.
pub open spec fn newcomer(
    conn: ConnId,
    tx: mpsc::Sender<Outbound>,
    close: mpsc::Sender<&'static str>,
    deflate: Option<u8>,
    scoped: bool,
    now: u64,
) -> Member {
    Member {
        conn,
        tx,
        close,
        auth: false,
        no_text: false,
        slot: None,
        deflate,
        budget: ConnBudget { queued: 0, oversize: 0, last_progress: now },
        lagged: false,
        filter: None,
        scoped,
    }
}

/// The index stays right when it follows the slot of one connection, and no other slot changed.
proof fn index_follows(
    m: Seq<Member>,
    t: Seq<Member>,
    b: Seq<(SlotKey, Seq<ConnId>)>,
    a: Seq<(SlotKey, Seq<ConnId>)>,
    conn: ConnId,
    was: Option<SlotKey>,
    is: Option<SlotKey>,
)
    requires
        indexed(m, b),
        slot_in(m, conn) == was,
        forall|c: ConnId| #[trigger]
            slot_in(t, c) == if c == conn {
                is
            } else {
                slot_in(m, c)
            },
        forall|k: SlotKey| (#[trigger] listed(a, k)).no_duplicates(),
        forall|k: SlotKey, c: ConnId|
            #![trigger listed(a, k).contains(c)]
            listed(a, k).contains(c) <==> if c == conn {
                is == Some(k)
            } else {
                listed(b, k).contains(c)
            },
    ensures
        indexed(t, a),
{
    assert forall|k: SlotKey, c: ConnId|
        (#[trigger] listed(a, k).contains(c)) <==> slot_in(t, c) == Some(k) by {
        assert(listed(b, k).contains(c) <==> slot_in(m, c) == Some(k));
    }
}

impl Shard {
    /// Takes a connection in, and hands back the account of one that was there with its number: what
    /// that account holds stays on the ledger, and is its own writer's to give back. The index is
    /// left as it is.
    pub fn add(
        &mut self,
        conn: ConnId,
        tx: mpsc::Sender<Outbound>,
        close: mpsc::Sender<&'static str>,
        deflate: Option<u8>,
        scoped: bool,
        now: u64,
    ) -> (r: Option<ConnBudget>)
        requires
            old(self).wf(),
        ensures
            final(self).wf(),
            final(self).members@ == members_with(
                old(self).members@,
                newcomer(conn, tx, close, deflate, scoped, now),
            ),
            final(self).index() == old(self).index(),
            r == account_in(old(self).members@, conn),
            held_by(final(self).members@) == held_by(old(self).members@) - held_in(r),
    {
        let ghost m = self.members@;
        let member = Member {
            conn,
            tx,
            close,
            auth: false,
            no_text: false,
            slot: None,
            deflate,
            budget: ConnBudget::new(now),
            lagged: false,
            filter: None,
            scoped,
        };
        let ghost x = member;
        match self.seek(conn) {
            Some(i) => {
                let displaced = self.members[i].budget;
                self.members.set(i, member);
                proof {
                    account_changed(m, i as int, x);
                    slots_after_update(m, i as int, x, conn);
                }
                Some(displaced)
            },
            None => {
                self.members.push(member);
                proof {
                    assert(accounts(m.push(x)).drop_last() =~= accounts(m));
                    slots_after_push(m, x, conn);
                }
                None
            },
        }
    }

    /// Lets a connection go. What it never drained goes back to the budget.
    pub fn remove(&mut self, conn: ConnId, ledger: &mut Ledger)
        requires
            old(self).wf(),
            held_by(old(self).members@) <= old(ledger).queued,
        ensures
            final(self).wf(),
            final(self).members@ == members_without(old(self).members@, conn),
            final(self).index() == unlisted(
                old(self).index(),
                slot_in(old(self).members@, conn),
                conn,
            ),
            final(ledger).peak == old(ledger).peak,
            final(ledger).queued == old(ledger).queued - held_in(
                account_in(old(self).members@, conn),
            ),
            old(ledger).queued - held_by(old(self).members@) == final(ledger).queued - held_by(
                final(self).members@,
            ),
    {
        let ghost m = self.members@;
        if let Some(i) = self.seek(conn) {
            proof {
                one_account(m, i as int);
            }
            let mut gone = self.members.remove(i);
            Budget::release_all(ledger, &mut gone.budget);
            if let Some(key) = gone.slot {
                unlist(&mut self.by_slot, key, conn);
            }
            proof {
                slots_after_remove(m, i as int, conn);
                account_removed(m, i as int);
            }
        }
    }

    /// Notes what a connection holds and takes. The port that it came in on is not changed.
    pub fn update(
        &mut self,
        conn: ConnId,
        auth: bool,
        no_text: bool,
        slot: Option<SlotKey>,
        metrics: &mut Metrics,
    )
        requires
            old(self).wf(),
        ensures
            final(self).wf(),
            (final(self).members@, final(metrics)@) == after_update(
                old(self).members@,
                old(metrics)@,
                conn,
                auth,
                no_text,
                slot,
            ),
            final(self).index() == index_after_update(
                old(self).members@,
                old(self).index(),
                conn,
                slot,
            ),
            held_by(final(self).members@) == held_by(old(self).members@),
    {
        let ghost m = self.members@;
        if let Some(i) = self.seek(conn) {
            let was = self.members[i].slot;
            if !self.members[i].auth && auth {
                if let Some(key) = slot {
                    record_client_deflate(metrics, key, self.members[i].deflate.is_some());
                }
            }
            if !same_key(was, slot) {
                if let Some(key) = was {
                    unlist(&mut self.by_slot, key, conn);
                }
                if let Some(key) = slot {
                    enlist(&mut self.by_slot, key, conn);
                }
                self.members[i].slot = slot;
            }
            self.members[i].auth = auth;
            self.members[i].no_text = no_text;
            proof {
                let x = Member { auth, no_text, slot, ..m[i as int] };
                assert(self.members@ =~= m.update(i as int, x));
                account_changed(m, i as int, x);
                slots_after_update(m, i as int, x, conn);
            }
        }
    }

    /// Replaces the filter on what a connection is sent.
    pub fn set_filter(&mut self, conn: ConnId, filter: Option<u64>)
        requires
            old(self).wf(),
        ensures
            final(self).wf(),
            final(self).members@ == match seat(old(self).members@, conn) {
                Some(i) => old(self).members@.update(
                    i,
                    Member { filter, ..old(self).members@[i] },
                ),
                None => old(self).members@,
            },
            final(self).index() == old(self).index(),
            held_by(final(self).members@) == held_by(old(self).members@),
    {
        let ghost m = self.members@;
        if let Some(i) = self.seek(conn) {
            self.members[i].filter = filter;
            proof {
                account_changed(m, i as int, self.members@[i as int]);
                same_slots(m, self.members@);
            }
        }
    }

    /// Gives room back once bytes have reached the socket of a connection.
    pub fn drained(&mut self, conn: ConnId, size: usize, now: u64, ledger: &mut Ledger)
        requires
            old(self).wf(),
            held_by(old(self).members@) <= old(ledger).queued,
        ensures
            final(self).wf(),
            match seat(old(self).members@, conn) {
                Some(i) => {
                    let m = old(self).members@[i];
                    &&& final(self).members@ == old(self).members@.update(
                        i,
                        Member { budget: Budget::conn_released(m.budget, size, now), ..m },
                    )
                    &&& final(ledger).peak == old(ledger).peak
                    &&& final(ledger).queued == old(ledger).queued - Budget::freed(m.budget, size)
                },
                None => final(self).members@ == old(self).members@ && *final(ledger) == *old(
                    ledger,
                ),
            },
            final(self).index() == old(self).index(),
            old(ledger).queued - held_by(old(self).members@) == final(ledger).queued - held_by(
                final(self).members@,
            ),
    {
        let ghost m = self.members@;
        if let Some(i) = self.seek(conn) {
            proof {
                one_account(m, i as int);
            }
            Budget::release(ledger, &mut self.members[i].budget, size, now);
            proof {
                account_changed(m, i as int, self.members@[i as int]);
                same_slots(m, self.members@);
            }
        }
    }
}

/// An account holds no more than all do.
proof fn one_account(m: Seq<Member>, i: int)
    requires
        0 <= i < m.len(),
    ensures
        0 <= m[i].budget.queued <= held_by(m),
{
    held_update(accounts(m), i, m[i].budget);
}

/// Changing one member changes what all hold by its difference.
proof fn account_changed(m: Seq<Member>, i: int, x: Member)
    requires
        0 <= i < m.len(),
    ensures
        held_by(m.update(i, x)) == held_by(m) - m[i].budget.queued + x.budget.queued,
{
    held_update(accounts(m), i, x.budget);
    assert(accounts(m.update(i, x)) =~= accounts(m).update(i, x.budget));
}

/// Removing one member takes away what it held.
proof fn account_removed(m: Seq<Member>, i: int)
    requires
        0 <= i < m.len(),
    ensures
        held_by(m.remove(i)) == held_by(m) - m[i].budget.queued,
    decreases m.len(),
{
    let t = m.remove(i);
    if i == m.len() - 1 {
        assert(accounts(t) =~= accounts(m).drop_last());
    } else {
        let d = m.drop_last();
        account_removed(d, i);
        assert(accounts(d) =~= accounts(m).drop_last());
        assert(accounts(t).drop_last() =~= accounts(d.remove(i)));
        assert(accounts(t).last() == accounts(m).last());
    }
}

/// Members that differ in nothing but what is not indexed have the same places and slots.
proof fn same_slots(m: Seq<Member>, t: Seq<Member>)
    requires
        m.len() == t.len(),
        distinct(m),
        forall|i: int| 0 <= i < m.len() ==> (#[trigger] m[i]).conn == t[i].conn && m[i].slot == t[i].slot,
    ensures
        distinct(t),
        forall|c: ConnId| #[trigger] slot_in(t, c) == slot_in(m, c),
        forall|c: ConnId| #[trigger] seat(t, c) == seat(m, c),
        forall|b: Seq<(SlotKey, Seq<ConnId>)>| #[trigger] indexed(m, b) ==> indexed(t, b),
{
    assert forall|i: int, j: int| 0 <= i < j < t.len() implies (#[trigger] t[i]).conn != (
    #[trigger] t[j]).conn by {
        assert(m[i].conn != m[j].conn);
    }
    assert forall|c: ConnId| #[trigger] seat(t, c) == seat(m, c) by {
        seat_found(m, c, 0);
        seat_found(t, c, 0);
        if seat(m, c) is Some {
            let k = seat(m, c)->0;
            assert(m[k].conn == t[k].conn);
        }
        if seat(t, c) is Some {
            let k = seat(t, c)->0;
            assert(m[k].conn == t[k].conn);
        }
    }
    assert forall|c: ConnId| #[trigger] slot_in(t, c) == slot_in(m, c) by {
        seat_found(m, c, 0);
        assert(seat(t, c) == seat(m, c));
        if seat(m, c) is Some {
            let k = seat(m, c)->0;
            assert(m[k].slot == t[k].slot);
        }
    }
    assert forall|b: Seq<(SlotKey, Seq<ConnId>)>| #[trigger] indexed(m, b) implies indexed(
        t,
        b,
    ) by {
        assert forall|k: SlotKey, c: ConnId|
            (#[trigger] listed(b, k).contains(c)) <==> slot_in(t, c) == Some(k) by {
            assert(slot_in(t, c) == slot_in(m, c));
        }
    }
}

impl Shard {
    /// The members that something is true of.
    fn scan<F: Fn(&Member) -> bool>(
        &self,
        keep: F,
        Ghost(kept): Ghost<spec_fn(Member) -> bool>,
    ) -> (r: Vec<usize>)
        requires
            forall|x: &Member| #[trigger] keep.requires((x,)),
            forall|x: &Member, b: bool| #[trigger] keep.ensures((x,), b) ==> b == kept(*x),
        ensures
            forall|j: int|
                0 <= j < r@.len() ==> (#[trigger] r@[j]) < self.members@.len() && kept(
                    self.members@[r@[j] as int],
                ),
            forall|i: usize|
                i < self.members@.len() && kept(self.members@[i as int])
                    ==> #[trigger] r@.contains(i),
            r@.no_duplicates(),
    {
        let mut r: Vec<usize> = Vec::new();
        for i in 0..self.members.len()
            invariant
                forall|x: &Member| #[trigger] keep.requires((x,)),
                forall|x: &Member, b: bool| #[trigger] keep.ensures((x,), b) ==> b == kept(*x),
                forall|j: int|
                    0 <= j < r@.len() ==> (#[trigger] r@[j]) < i && kept(
                        self.members@[r@[j] as int],
                    ),
                forall|k: usize|
                    k < i && kept(self.members@[k as int]) ==> #[trigger] r@.contains(k),
                r@.no_duplicates(),
        {
            let ghost before = r@;
            if keep(&self.members[i]) {
                r.push(i);
                assert forall|k: usize| k < i + 1 && kept(
                    self.members@[k as int],
                ) implies #[trigger] r@.contains(k) by {
                    if k < i {
                        assert(before.contains(k));
                        let j = choose|j: int| 0 <= j < before.len() && before[j] == k;
                        assert(r@[j] == k);
                    } else {
                        assert(r@[before.len() as int] == k);
                    }
                }
            }
        }
        r
    }

    /// The members that are listed and something is true of, in the order of the list.
    fn scan_list<F: Fn(&Member) -> bool>(
        &self,
        list: &Vec<ConnId>,
        keep: F,
        Ghost(kept): Ghost<spec_fn(Member) -> bool>,
    ) -> (r: Vec<usize>)
        requires
            forall|x: &Member| #[trigger] keep.requires((x,)),
            forall|x: &Member, b: bool| #[trigger] keep.ensures((x,), b) ==> b == kept(*x),
        ensures
            forall|j: int| 0 <= j < r@.len() ==> (#[trigger] r@[j]) < self.members@.len(),
            r@.map_values(|i: usize| self.members@[i as int].conn) == list@.filter(
                |c: ConnId| here(self.members@, c, kept),
            ),
    {
        let ghost m = self.members@;
        let ghost p = |c: ConnId| here(m, c, kept);
        let ghost f = |i: usize| m[i as int].conn;
        let mut r: Vec<usize> = Vec::new();
        proof {
            reveal(Seq::filter);
            assert(list@.take(0).filter(p) =~= Seq::<ConnId>::empty());
            assert(r@.map_values(f) =~= list@.take(0).filter(p));
        }
        for i in 0..list.len()
            invariant
                m == self.members@,
                p == (|c: ConnId| here(m, c, kept)),
                f == (|i: usize| m[i as int].conn),
                forall|x: &Member| #[trigger] keep.requires((x,)),
                forall|x: &Member, b: bool| #[trigger] keep.ensures((x,), b) ==> b == kept(*x),
                forall|j: int| 0 <= j < r@.len() ==> (#[trigger] r@[j]) < m.len(),
                r@.map_values(f) == list@.take(i as int).filter(p),
        {
            let ghost before = r@;
            proof {
                reveal(Seq::filter);
                assert(list@.take(i + 1).drop_last() =~= list@.take(i as int));
            }
            if let Some(k) = self.seek(list[i]) {
                if keep(&self.members[k]) {
                    r.push(k);
                    assert(r@.map_values(f) =~= before.map_values(f).push(list@[i as int]));
                }
            }
        }
        assert(list@.take(list@.len() as int) =~= list@);
        r
    }

    /// The members that a slot lists and something is true of, in the order of the list.
    fn scan_slot<F: Fn(&Member) -> bool>(
        &self,
        key: SlotKey,
        keep: F,
        Ghost(kept): Ghost<spec_fn(Member) -> bool>,
    ) -> (r: Vec<usize>)
        requires
            forall|x: &Member| #[trigger] keep.requires((x,)),
            forall|x: &Member, b: bool| #[trigger] keep.ensures((x,), b) ==> b == kept(*x),
        ensures
            forall|j: int| 0 <= j < r@.len() ==> (#[trigger] r@[j]) < self.members@.len(),
            r@.map_values(|i: usize| self.members@[i as int].conn) == listed(
                self.index(),
                key,
            ).filter(|c: ConnId| here(self.members@, c, kept)),
    {
        match self.by_slot.get(&key) {
            Some(list) => {
                assert(list.deep_view() =~= list@);
                self.scan_list(list, keep, Ghost(kept))
            },
            None => {
                let r: Vec<usize> = Vec::new();
                proof {
                    reveal(Seq::filter);
                    assert(r@.map_values(|i: usize| self.members@[i as int].conn) =~= listed(
                        self.index(),
                        key,
                    ).filter(|c: ConnId| here(self.members@, c, kept)));
                }
                r
            },
        }
    }

    /// The members that a message is for.
    pub fn audience(&self, to: &Recipients) -> (r: Vec<usize>)
        requires
            self.wf(),
        ensures
            in_audience(self.members@, self.index(), r@, *to),
    {
        let ghost kept = |x: Member| takes(x, *to);
        match to {
            Recipients::All => {
                let keep = |m: &Member| -> (b: bool)
                    ensures
                        b == m.auth,
                    { m.auth };
                self.scan(keep, Ghost(|m: Member| m.auth))
            },
            Recipients::AllText => {
                let keep = |m: &Member| -> (b: bool)
                    ensures
                        b == (m.auth && !m.no_text),
                    { m.auth && !m.no_text };
                self.scan(keep, Ghost(|m: Member| m.auth && !m.no_text))
            },
            Recipients::Slot(key) => {
                let keep = |m: &Member| -> (b: bool)
                    ensures
                        b,
                    { true };
                self.scan_slot(*key, keep, Ghost(kept))
            },
            Recipients::SlotText(key) => {
                let keep = |m: &Member| -> (b: bool)
                    ensures
                        b == !m.no_text,
                    { !m.no_text };
                self.scan_slot(*key, keep, Ghost(kept))
            },
            Recipients::AllTextAbout(key) => {
                let key = *key;
                let keep = |m: &Member| -> (b: bool)
                    ensures
                        b == (m.auth && !m.no_text && (!m.scoped || m.slot == Some(key))),
                    { m.auth && !m.no_text && (!m.scoped || same_key(m.slot, Some(key))) };
                self.scan(
                    keep,
                    Ghost(
                        |m: Member| m.auth && !m.no_text && (!m.scoped || m.slot == Some(key)),
                    ),
                )
            },
            Recipients::AllTextFull => {
                let keep = |m: &Member| -> (b: bool)
                    ensures
                        b == (m.auth && !m.no_text && !m.scoped),
                    { m.auth && !m.no_text && !m.scoped };
                self.scan(keep, Ghost(|m: Member| m.auth && !m.no_text && !m.scoped))
            },
            Recipients::SlotScopedText(key) => {
                let keep = |m: &Member| -> (b: bool)
                    ensures
                        b == (!m.no_text && m.scoped),
                    { !m.no_text && m.scoped };
                self.scan_slot(*key, keep, Ghost(kept))
            },
            Recipients::These(list) => {
                let keep = |m: &Member| -> (b: bool)
                    ensures
                        b,
                    { true };
                self.scan_list(list, keep, Ghost(kept))
            },
        }
    }
}

/// A message on its way out: as it came, and framed for a connection that takes no compressed
/// frames.
#[derive(Debug)]
pub struct Outgoing {
    pub payload: bytes::Bytes,
    pub plain: bytes::Bytes,
}

/// Messages with the same bytes.
pub open spec fn same_message(a: Outgoing, b: Outgoing) -> bool {
    frame_bytes(a.payload) == frame_bytes(b.payload) && frame_bytes(a.plain) == frame_bytes(b.plain)
}

impl Outgoing {
    /// The same message once more.
    pub fn dup(&self) -> (r: Outgoing)
        ensures
            same_message(r, *self),
    {
        Outgoing { payload: self.payload.clone(), plain: self.plain.clone() }
    }
}

/// What became of one frame.
#[derive(Debug, Clone, Copy, PartialEq, Eq, Structural)]
pub enum Delivery {
    Sent,
    /// The client does not keep up: it is over its budget, or its queue is full.
    Behind,
    /// The writer has ended, and so has the connection.
    Gone,
}

/// What became of one recipient of a message.
#[derive(Debug, Clone, Copy, PartialEq, Eq, Structural)]
pub enum Fate {
    /// It had fallen behind before.
    Skipped,
    /// Its filter dropped the frame.
    Filtered,
    Tried(Delivery),
}

/// A recipient, the size of its frame, and what became of it.
#[derive(Debug, Clone, Copy, PartialEq, Eq, Structural)]
pub struct Entry {
    pub at: usize,
    pub size: usize,
    pub fate: Fate,
}

/// What a message came to.
pub struct Sending {
    /// The recipients in order.
    pub log: Vec<Entry>,
    /// The frames that were compressed, each for one window size.
    pub frames: Vec<(u8, bytes::Bytes)>,
    /// For each recipient, what was handed to its queue, if anything was.
    pub handed: Vec<Option<Handed<Outbound>>>,
    /// The closes of those that were found to have fallen behind.
    pub closes: Vec<Handed<&'static str>>,
}

/// What became of a frame, by what the queue said.
pub open spec fn delivery_of(said: Offer) -> Delivery {
    match said {
        Offer::Taken => Delivery::Sent,
        Offer::Full => Delivery::Behind,
        Offer::Closed => Delivery::Gone,
    }
}

/// Whether a frame of these bytes was handed to the queue of a connection, and what became of it is
/// what the queue said.
pub open spec fn frame_handed(h: Handed<Outbound>, m: Member, f: Seq<u8>, d: Delivery) -> bool {
    &&& h.to() == m.tx
    &&& h.what() matches Outbound::Frame(b) && frame_bytes(b) == f
    &&& d == delivery_of(h.answer())
}

/// Whether closes were handed past the queue, for this reason, one on each of these ways.
pub open spec fn closes_handed(
    h: Seq<Handed<&'static str>>,
    ways: Seq<mpsc::Sender<&'static str>>,
    reason: Seq<char>,
) -> bool {
    &&& h.len() == ways.len()
    &&& forall|i: int|
        0 <= i < h.len() ==> (#[trigger] h[i]).to() == ways[i] && h[i].what()@ == reason
}

/// The frame that was compressed for a window size, from `i` on.
pub open spec fn frame_from(frames: Seq<(u8, bytes::Bytes)>, bits: u8, i: int) -> Option<
    bytes::Bytes,
>
    decreases frames.len() - i,
{
    if i >= frames.len() {
        None
    } else if frames[i].0 == bits {
        Some(frames[i].1)
    } else {
        frame_from(frames, bits, i + 1)
    }
}

/// The bytes of the frame that a connection takes.
pub open spec fn frame_of(
    m: Member,
    plain: bytes::Bytes,
    frames: Seq<(u8, bytes::Bytes)>,
) -> Option<Seq<u8>> {
    match m.deflate {
        None => Some(frame_bytes(plain)),
        Some(bits) => match frame_from(frames, bits, 0) {
            Some(f) => Some(frame_bytes(f)),
            None => None,
        },
    }
}

/// No window size is there twice.
pub open spec fn once_each(frames: Seq<(u8, bytes::Bytes)>) -> bool {
    forall|i: int, j: int|
        0 <= i < j < frames.len() ==> (#[trigger] frames[i]).0 != (#[trigger] frames[j]).0
}

proof fn frame_found(frames: Seq<(u8, bytes::Bytes)>, bits: u8, i: int)
    requires
        0 <= i,
    ensures
        frame_from(frames, bits, i) is None ==> forall|j: int|
            i <= j < frames.len() ==> (#[trigger] frames[j]).0 != bits,
        frame_from(frames, bits, i) is Some ==> exists|j: int|
            i <= j < frames.len() && #[trigger] frames[j] == (bits, frame_from(
                frames,
                bits,
                i,
            )->0),
    decreases frames.len() - i,
{
    if i < frames.len() {
        if frames[i].0 == bits {
            assert(frames[i] == (bits, frames[i].1));
        } else {
            frame_found(frames, bits, i + 1);
        }
    }
}

proof fn frame_kept(frames: Seq<(u8, bytes::Bytes)>, x: (u8, bytes::Bytes), bits: u8, i: int)
    requires
        0 <= i <= frames.len(),
    ensures
        frame_from(frames.push(x), bits, i) == match frame_from(frames, bits, i) {
            Some(f) => Some(f),
            None => if x.0 == bits {
                Some(x.1)
            } else {
                None
            },
        },
    decreases frames.len() - i,
{
    let t = frames.push(x);
    if i < frames.len() {
        assert(t[i] == frames[i]);
        if frames[i].0 != bits {
            frame_kept(frames, x, bits, i + 1);
        }
    } else {
        assert(t[i] == x);
        reveal_with_fuel(frame_from, 2);
    }
}

/// The frame that a connection takes. One is compressed only where none was for the window size.
fn variant<C: Fn(&bytes::Bytes, u8) -> bytes::Bytes>(
    deflate: Option<u8>,
    msg: &Outgoing,
    compress: &C,
    frames: &mut Vec<(u8, bytes::Bytes)>,
) -> (r: bytes::Bytes)
    requires
        forall|b: u8| #[trigger] compress.requires((&msg.payload, b)),
        once_each(old(frames)@),
        forall|j: int|
            0 <= j < old(frames)@.len() ==> compress.ensures(
                (&msg.payload, (#[trigger] old(frames)@[j]).0),
                old(frames)@[j].1,
            ),
    ensures
        once_each(final(frames)@),
        forall|j: int|
            0 <= j < final(frames)@.len() ==> compress.ensures(
                (&msg.payload, (#[trigger] final(frames)@[j]).0),
                final(frames)@[j].1,
            ),
        deflate is None ==> final(frames)@ == old(frames)@ && frame_bytes(r) == frame_bytes(
            msg.plain,
        ),
        deflate matches Some(bits) ==> match frame_from(old(frames)@, bits, 0) {
            Some(f) => final(frames)@ == old(frames)@ && frame_bytes(r) == frame_bytes(f),
            None => {
                &&& final(frames)@.len() == old(frames)@.len() + 1
                &&& final(frames)@.drop_last() == old(frames)@
                &&& final(frames)@.last().0 == bits
                &&& frame_bytes(r) == frame_bytes(final(frames)@.last().1)
            },
        },
{
    let bits: u8 = match deflate {
        None => {
            return msg.plain.clone();
        },
        Some(bits) => bits,
    };
    for i in 0..frames.len()
        invariant
            frames@ == old(frames)@,
            frame_from(frames@, bits, 0) == frame_from(frames@, bits, i as int),
            once_each(frames@),
            deflate == Some(bits),
            forall|j: int|
                0 <= j < frames@.len() ==> compress.ensures(
                    (&msg.payload, (#[trigger] frames@[j]).0),
                    frames@[j].1,
                ),
    {
        if frames[i].0 == bits {
            return frames[i].1.clone();
        }
    }
    proof {
        frame_found(frames@, bits, 0);
    }
    let frame = compress(&msg.payload, bits);
    let r = frame.clone();
    frames.push((bits, frame));
    assert(frames@.drop_last() =~= old(frames)@);
    r
}

/// Queues a frame. It never waits, and a frame that is not taken leaves no reservation behind. Says
/// what became of the frame, and what was handed to the queue; nothing is where the budget refuses.
pub fn deliver(
    member: &mut Member,
    frame: bytes::Bytes,
    budget: &Budget,
    ledger: &mut Ledger,
    metrics: &mut Metrics,
    now: u64,
) -> (r: (Delivery, Option<Handed<Outbound>>))
    requires
        old(member).budget.queued <= old(ledger).queued,
    ensures
        tried(
            *budget,
            (Books { members: seq![*old(member)], ledger: *old(ledger), counters: old(metrics)@ }),
            0,
            frame_bytes(frame).len() as usize,
            r.0,
            now,
        ) == (Books {
            members: seq![*final(member)],
            ledger: *final(ledger),
            counters: final(metrics)@,
        }),
        match budget.refusal(
            *old(ledger),
            old(member).budget,
            frame_bytes(frame).len() as usize,
            now,
        ) {
            Some(_) => r.0 == Delivery::Behind && r.1 is None,
            None => r.1 matches Some(h) && frame_handed(
                h,
                *old(member),
                frame_bytes(frame),
                r.0,
            ),
        },
{
    let size: usize = frame_len(&frame);
    let ghost before = Books {
        members: seq![*old(member)],
        ledger: *old(ledger),
        counters: old(metrics)@,
    };
    if !budget.reserve(ledger, &mut member.budget, size, now) {
        assert(*member == *old(member));
        return (Delivery::Behind, None);
    }
    let handed = offer(&member.tx, Outbound::Frame(frame));
    let d = match handed.said() {
        Offer::Taken => {
            record_delivery(metrics, member.slot, size);
            Delivery::Sent
        },
        Offer::Full => {
            Budget::release(ledger, &mut member.budget, size, now);
            Delivery::Behind
        },
        Offer::Closed => {
            Budget::release(ledger, &mut member.budget, size, now);
            Delivery::Gone
        },
    };
    assert(seq![*member] =~= before.members.update(0, *member));
    (d, Some(handed))
}

/// The members of a shard, the ledger and the counters.
#[verifier::ext_equal]
pub struct Books {
    pub members: Seq<Member>,
    pub ledger: Ledger,
    pub counters: Counters,
}

/// The books once a frame was tried. A refusal changes nothing; a frame that is not taken gives
/// its room back.
pub open spec fn tried(b: Budget, s: Books, at: int, size: usize, d: Delivery, now: u64) -> Books {
    let m = s.members[at];
    if b.refusal(s.ledger, m.budget, size, now) is Some {
        s
    } else if d == Delivery::Sent {
        Books {
            members: s.members.update(at, Member { budget: b.conn_with(m.budget, size), ..m }),
            ledger: Budget::ledger_with(s.ledger, size),
            counters: Counters {
                delivered: delivered_more(s.counters.delivered, m.slot, size as u64),
                ..s.counters
            },
        }
    } else {
        Books {
            members: s.members.update(
                at,
                Member {
                    budget: Budget::conn_released(b.conn_with(m.budget, size), size, now),
                    ..m
                },
            ),
            ledger: Ledger {
                queued: s.ledger.queued,
                peak: Budget::ledger_with(s.ledger, size).peak,
            },
            counters: s.counters,
        }
    }
}

/// The books once one recipient was seen to.
pub open spec fn booked(b: Budget, s: Books, e: Entry, now: u64) -> Books {
    match e.fate {
        Fate::Tried(d) => tried(b, s, e.at as int, e.size, d, now),
        _ => s,
    }
}

/// The books once all recipients were seen to, in order.
pub open spec fn all_booked(b: Budget, s: Books, log: Seq<Entry>, now: u64) -> Books
    decreases log.len(),
{
    if log.len() == 0 {
        s
    } else {
        booked(b, all_booked(b, s, log.drop_last(), now), log.last(), now)
    }
}

/// Whether a filter may drop a frame for a connection: a frame without a tag is one that no rule
/// can name, and a connection without a slot is nobody's to filter.
pub open spec fn filterable(m: Member, tag: Option<u64>) -> bool {
    m.filter is Some && tag is Some && m.slot is Some
}

/// Whether what became of a recipient is what had to: one that had fallen behind is skipped, and
/// no other; one whose filter drops the frame is passed over, and no other; one that the budget
/// refuses is behind; and every other was handed its frame.
pub open spec fn fits<D: Fn(u64, u64, SlotKey) -> bool>(
    b: Budget,
    s: Books,
    e: Entry,
    h: Option<Handed<Outbound>>,
    msg: Outgoing,
    tag: Option<u64>,
    frames: Seq<(u8, bytes::Bytes)>,
    drops: D,
    now: u64,
) -> bool {
    let m = s.members[e.at as int];
    match e.fate {
        Fate::Skipped => m.lagged && h is None,
        Fate::Filtered => {
            &&& !m.lagged
            &&& filterable(m, tag)
            &&& drops.ensures((m.filter->0, tag->0, m.slot->0), true)
            &&& h is None
        },
        Fate::Tried(d) => {
            &&& !m.lagged
            &&& filterable(m, tag) ==> drops.ensures((m.filter->0, tag->0, m.slot->0), false)
            &&& frame_of(m, msg.plain, frames) matches Some(f) && e.size == f.len() && match b.refusal(
                s.ledger,
                m.budget,
                e.size,
                now,
            ) {
                Some(_) => d == Delivery::Behind && h is None,
                None => h matches Some(x) && frame_handed(x, m, f, d),
            }
        },
    }
}

/// The connections of those to which something happened.
pub open spec fn conns_of(m: Seq<Member>, log: Seq<Entry>, fate: Fate) -> Seq<ConnId>
    decreases log.len(),
{
    if log.len() == 0 {
        Seq::empty()
    } else {
        let before = conns_of(m, log.drop_last(), fate);
        if log.last().fate == fate {
            before.push(m[log.last().at as int].conn)
        } else {
            before
        }
    }
}

/// Members and counters once connections were closed for falling behind, each once.
pub open spec fn after_lag(m: Seq<Member>, c: Counters, conns: Seq<ConnId>) -> (
    Seq<Member>,
    Counters,
)
    decreases conns.len(),
{
    if conns.len() == 0 {
        (m, c)
    } else {
        let (m, c) = after_lag(m, c, conns.drop_last());
        match seat(m, conns.last()) {
            Some(i) if !m[i].lagged => (
                m.update(i, Member { lagged: true, ..m[i] }),
                Counters { lagged: wrapped(c.lagged, 1), ..c },
            ),
            _ => (m, c),
        }
    }
}

/// The ways on which connections are closed for falling behind, each once.
pub open spec fn lag_ways(m: Seq<Member>, c: Counters, conns: Seq<ConnId>) -> Seq<
    mpsc::Sender<&'static str>,
>
    decreases conns.len(),
{
    if conns.len() == 0 {
        Seq::empty()
    } else {
        let before = lag_ways(m, c, conns.drop_last());
        let (m, _) = after_lag(m, c, conns.drop_last());
        match seat(m, conns.last()) {
            Some(i) if !m[i].lagged => before.push(m[i].close),
            _ => before,
        }
    }
}

/// Members once the writers of connections were found to have ended.
pub open spec fn after_gone(m: Seq<Member>, conns: Seq<ConnId>) -> Seq<Member>
    decreases conns.len(),
{
    if conns.len() == 0 {
        m
    } else {
        let m = after_gone(m, conns.drop_last());
        match seat(m, conns.last()) {
            Some(i) => m.update(i, Member { lagged: true, ..m[i] }),
            None => m,
        }
    }
}

/// Members that are the same but for their accounts.
pub open spec fn same_but_accounts(m: Seq<Member>, t: Seq<Member>) -> bool {
    &&& m.len() == t.len()
    &&& forall|i: int|
        0 <= i < m.len() ==> #[trigger] t[i] == (Member { budget: t[i].budget, ..m[i] })
}

/// The frames that are there stay where they are when one more is put behind them.
proof fn frames_grow(
    m: Member,
    plain: bytes::Bytes,
    old_frames: Seq<(u8, bytes::Bytes)>,
    new_frames: Seq<(u8, bytes::Bytes)>,
)
    requires
        new_frames == old_frames || (new_frames.len() == old_frames.len() + 1
            && new_frames.drop_last() == old_frames),
    ensures
        frame_of(m, plain, old_frames) is Some ==> frame_of(m, plain, new_frames) == frame_of(
            m,
            plain,
            old_frames,
        ),
{
    if new_frames != old_frames {
        assert(new_frames =~= old_frames.push(new_frames.last()));
        if m.deflate is Some {
            frame_kept(old_frames, new_frames.last(), m.deflate->0, 0);
        }
    }
}

/// Asks a filter about a frame.
fn filtered<D: Fn(u64, u64, SlotKey) -> bool>(
    member: &Member,
    tag: Option<u64>,
    drops: &D,
) -> (r: bool)
    requires
        forall|f: u64, t: u64, k: SlotKey| #[trigger] drops.requires((f, t, k)),
    ensures
        r ==> filterable(*member, tag) && drops.ensures(
            (member.filter->0, tag->0, member.slot->0),
            true,
        ),
        !r && filterable(*member, tag) ==> drops.ensures(
            (member.filter->0, tag->0, member.slot->0),
            false,
        ),
{
    match (member.filter, tag, member.slot) {
        (Some(filter), Some(tag), Some(key)) => drops(filter, tag, key),
        _ => false,
    }
}

impl Shard {
    /// Closes connections that do not keep up. The close does not go through the queue, which is
    /// full or is not being read.
    pub fn mark_lagged(&mut self, conns: &Vec<ConnId>, metrics: &mut Metrics) -> (r: Vec<
        Handed<&'static str>,
    >)
        requires
            old(self).wf(),
        ensures
            final(self).wf(),
            closes_handed(
                r@,
                lag_ways(old(self).members@, old(metrics)@, conns@),
                "too slow"@,
            ),
            (final(self).members@, final(metrics)@) == after_lag(
                old(self).members@,
                old(metrics)@,
                conns@,
            ),
            final(self).index() == old(self).index(),
            held_by(final(self).members@) == held_by(old(self).members@),
    {
        let ghost m = self.members@;
        let ghost c = metrics@;
        let ghost by = self.by_slot;
        let mut closes: Vec<Handed<&'static str>> = Vec::new();
        assert(conns@.take(0) =~= Seq::<ConnId>::empty());
        for i in 0..conns.len()
            invariant
                self.wf(),
                self.by_slot == by,
                (self.members@, metrics@) == after_lag(m, c, conns@.take(i as int)),
                closes_handed(closes@, lag_ways(m, c, conns@.take(i as int)), "too slow"@),
                held_by(self.members@) == held_by(m),
        {
            assert(conns@.take(i + 1).drop_last() =~= conns@.take(i as int));
            let ghost t = self.members@;
            if let Some(k) = self.seek(conns[i]) {
                if !self.members[k].lagged {
                    self.members[k].lagged = true;
                    record_lag_disconnect(metrics);
                    closes.push(force_close(&self.members[k], "too slow"));
                    proof {
                        same_slots(t, self.members@);
                        account_changed(t, k as int, self.members@[k as int]);
                    }
                }
            }
        }
        assert(conns@.take(conns@.len() as int) =~= conns@);
        closes
    }

    /// Sends nothing more to connections whose writer has ended. That is no judgment of them, and
    /// is not counted as one.
    pub fn mark_gone(&mut self, conns: &Vec<ConnId>)
        requires
            old(self).wf(),
        ensures
            final(self).wf(),
            final(self).members@ == after_gone(old(self).members@, conns@),
            final(self).index() == old(self).index(),
            held_by(final(self).members@) == held_by(old(self).members@),
    {
        let ghost m = self.members@;
        let ghost by = self.by_slot;
        assert(conns@.take(0) =~= Seq::<ConnId>::empty());
        for i in 0..conns.len()
            invariant
                self.wf(),
                self.by_slot == by,
                self.members@ == after_gone(m, conns@.take(i as int)),
                held_by(self.members@) == held_by(m),
        {
            assert(conns@.take(i + 1).drop_last() =~= conns@.take(i as int));
            let ghost t = self.members@;
            if let Some(k) = self.seek(conns[i]) {
                self.members[k].lagged = true;
                proof {
                    same_slots(t, self.members@);
                    account_changed(t, k as int, self.members@[k as int]);
                }
            }
        }
        assert(conns@.take(conns@.len() as int) =~= conns@);
    }

    /// Queues a message for recipients, one after the other.
    fn queue_for<C: Fn(&bytes::Bytes, u8) -> bytes::Bytes, D: Fn(u64, u64, SlotKey) -> bool>(
        &mut self,
        who: &Vec<usize>,
        msg: &Outgoing,
        tag: Option<u64>,
        compress: &C,
        drops: &D,
        budget: &Budget,
        ledger: &mut Ledger,
        metrics: &mut Metrics,
        now: u64,
    ) -> (r: Sending)
        requires
            forall|j: int| 0 <= j < who@.len() ==> (#[trigger] who@[j]) < old(self).members@.len(),
            held_by(old(self).members@) <= old(ledger).queued,
            forall|b: u8| #[trigger] compress.requires((&msg.payload, b)),
            forall|f: u64, t: u64, k: SlotKey| #[trigger] drops.requires((f, t, k)),
        ensures
            r.log@.map_values(|e: Entry| e.at) == who@,
            (Books {
                members: final(self).members@,
                ledger: *final(ledger),
                counters: final(metrics)@,
            }) == all_booked(
                *budget,
                Books {
                    members: old(self).members@,
                    ledger: *old(ledger),
                    counters: old(metrics)@,
                },
                r.log@,
                now,
            ),
            forall|j: int|
                0 <= j < r.log@.len() ==> fits(
                    *budget,
                    all_booked(
                        *budget,
                        Books {
                            members: old(self).members@,
                            ledger: *old(ledger),
                            counters: old(metrics)@,
                        },
                        r.log@.take(j),
                        now,
                    ),
                    #[trigger] r.log@[j],
                    r.handed@[j],
                    *msg,
                    tag,
                    r.frames@,
                    *drops,
                    now,
                ),
            r.handed@.len() == r.log@.len(),
            r.closes@.len() == 0,
            once_each(r.frames@),
            forall|j: int|
                0 <= j < r.frames@.len() ==> compress.ensures(
                    (&msg.payload, (#[trigger] r.frames@[j]).0),
                    r.frames@[j].1,
                ),
            same_but_accounts(old(self).members@, final(self).members@),
            final(self).by_slot == old(self).by_slot,
            old(ledger).queued - held_by(old(self).members@) == final(ledger).queued - held_by(
                final(self).members@,
            ),
    {
        let ghost books = Books {
            members: self.members@,
            ledger: *ledger,
            counters: metrics@,
        };
        let ghost spare = ledger.queued - held_by(self.members@);
        let ghost by = self.by_slot;
        let mut log: Vec<Entry> = Vec::new();
        let mut frames: Vec<(u8, bytes::Bytes)> = Vec::new();
        let mut handed: Vec<Option<Handed<Outbound>>> = Vec::new();
        for i in 0..who.len()
            invariant
                forall|j: int| 0 <= j < who@.len() ==> (#[trigger] who@[j]) < books.members.len(),
                forall|b: u8| #[trigger] compress.requires((&msg.payload, b)),
                forall|f: u64, t: u64, k: SlotKey| #[trigger] drops.requires((f, t, k)),
                self.by_slot == by,
                same_but_accounts(books.members, self.members@),
                spare >= 0,
                ledger.queued - held_by(self.members@) == spare,
                log@.len() == i,
                handed@.len() == i,
                forall|j: int| 0 <= j < i ==> (#[trigger] log@[j]).at == who@[j],
                (Books { members: self.members@, ledger: *ledger, counters: metrics@ })
                    == all_booked(*budget, books, log@, now),
                forall|j: int|
                    0 <= j < i ==> fits(
                        *budget,
                        all_booked(*budget, books, log@.take(j), now),
                        #[trigger] log@[j],
                        handed@[j],
                        *msg,
                        tag,
                        frames@,
                        *drops,
                        now,
                    ),
                once_each(frames@),
                forall|j: int|
                    0 <= j < frames@.len() ==> compress.ensures(
                        (&msg.payload, (#[trigger] frames@[j]).0),
                        frames@[j].1,
                    ),
        {
            let at: usize = who[i];
            let ghost m = self.members@;
            let ghost s = Books { members: m, ledger: *ledger, counters: metrics@ };
            let ghost l = log@;
            let ghost known = frames@;
            let ghost before = handed@;
            let mut e = Entry { at, size: 0, fate: Fate::Skipped };
            let mut h: Option<Handed<Outbound>> = None;
            if !self.members[at].lagged {
                if filtered(&self.members[at], tag, drops) {
                    e.fate = Fate::Filtered;
                } else {
                    let frame = variant(self.members[at].deflate, msg, compress, &mut frames);
                    e.size = frame_len(&frame);
                    proof {
                        one_account(m, at as int);
                        if m[at as int].deflate is Some && frames@ != known {
                            assert(frames@ =~= known.push(frames@.last()));
                            frame_kept(
                                known,
                                frames@.last(),
                                m[at as int].deflate->0,
                                0,
                            );
                        }
                    }
                    let (d, receipt) = deliver(
                        &mut self.members[at],
                        frame,
                        budget,
                        ledger,
                        metrics,
                        now,
                    );
                    e.fate = Fate::Tried(d);
                    h = receipt;
                    proof {
                        let x = self.members@[at as int];
                        assert(self.members@ =~= m.update(at as int, x));
                        single_tried(*budget, s, at as int, e.size, d, now);
                        assert(seq![x][0] == x);
                        account_changed(m, at as int, x);
                    }
                }
            }
            log.push(e);
            handed.push(h);
            proof {
                assert(log@.drop_last() =~= l);
                assert(log@.take(i as int) =~= l);
                assert(booked(*budget, s, e, now) == (Books {
                    members: self.members@,
                    ledger: *ledger,
                    counters: metrics@,
                }));
                assert forall|j: int| 0 <= j < i + 1 implies fits(
                    *budget,
                    all_booked(*budget, books, log@.take(j), now),
                    #[trigger] log@[j],
                    handed@[j],
                    *msg,
                    tag,
                    frames@,
                    *drops,
                    now,
                ) by {
                    if j < i {
                        assert(log@.take(j) =~= l.take(j));
                        assert(log@[j] == l[j]);
                        assert(handed@[j] == before[j]);
                        frames_grow(
                            all_booked(*budget, books, l.take(j), now).members[l[j].at as int],
                            msg.plain,
                            known,
                            frames@,
                        );
                    }
                }
            }
        }
        assert(log@.map_values(|e: Entry| e.at) =~= who@);
        Sending { log, frames, handed, closes: Vec::new() }
    }
}

/// Trying a frame for one of several members is trying it for that member alone.
proof fn single_tried(b: Budget, s: Books, at: int, size: usize, d: Delivery, now: u64)
    requires
        0 <= at < s.members.len(),
    ensures
        ({
            let one = tried(b, Books { members: seq![s.members[at]], ..s }, 0, size, d, now);
            tried(b, s, at, size, d, now) == (Books {
                members: s.members.update(at, one.members[0]),
                ..one
            })
        }),
{
    let one = tried(b, Books { members: seq![s.members[at]], ..s }, 0, size, d, now);
    assert(s.members.update(at, s.members[at]) =~= s.members);
}

/// Closes a connection without going through its queue.
fn force_close(member: &Member, reason: &'static str) -> (r: Handed<&'static str>)
    ensures
        r.to() == member.close,
        r.what() == reason,
{
    offer(&member.close, reason)
}

/// The books once a message was queued for its recipients, and those that fell behind or were gone
/// are marked.
pub open spec fn settled(b: Budget, s: Books, log: Seq<Entry>, now: u64) -> Books {
    let t = all_booked(b, s, log, now);
    let (m, c) = after_lag(
        t.members,
        t.counters,
        conns_of(s.members, log, Fate::Tried(Delivery::Behind)),
    );
    Books {
        members: after_gone(m, conns_of(s.members, log, Fate::Tried(Delivery::Gone))),
        ledger: t.ledger,
        counters: c,
    }
}

/// Whether a log says what became of recipients as it had to, and those that fell behind were
/// closed.
pub open spec fn rightly_sent<
    C: Fn(&bytes::Bytes, u8) -> bytes::Bytes,
    D: Fn(u64, u64, SlotKey) -> bool,
>(
    b: Budget,
    s: Books,
    r: Sending,
    msg: Outgoing,
    tag: Option<u64>,
    compress: C,
    drops: D,
    now: u64,
) -> bool {
    &&& forall|j: int|
        0 <= j < r.log@.len() ==> fits(
            b,
            all_booked(b, s, r.log@.take(j), now),
            #[trigger] r.log@[j],
            r.handed@[j],
            msg,
            tag,
            r.frames@,
            drops,
            now,
        )
    &&& r.handed@.len() == r.log@.len()
    &&& once_each(r.frames@)
    &&& forall|j: int|
        0 <= j < r.frames@.len() ==> compress.ensures(
            (&msg.payload, (#[trigger] r.frames@[j]).0),
            r.frames@[j].1,
        )
    &&& ({
        let t = all_booked(b, s, r.log@, now);
        closes_handed(
            r.closes@,
            lag_ways(
                t.members,
                t.counters,
                conns_of(s.members, r.log@, Fate::Tried(Delivery::Behind)),
            ),
            "too slow"@,
        )
    })
}

/// What a shard is told.
#[derive(Debug)]
pub enum ShardMsg {
    Add {
        conn: ConnId,
        tx: mpsc::Sender<Outbound>,
        close: mpsc::Sender<&'static str>,
        deflate: Option<u8>,
        scoped: bool,
    },
    Remove { conn: ConnId },
    Update { conn: ConnId, auth: bool, no_text: bool, slot: Option<SlotKey> },
    SetFilter { conn: ConnId, filter: Option<u64> },
    /// The tag is the number of what a filter may call the frame.
    Send { conn: ConnId, msg: Outgoing, tag: Option<u64> },
    Broadcast { to: Recipients, msg: Outgoing, tag: Option<u64> },
    Close { conn: ConnId, reason: &'static str },
    /// Close every connection.
    Sweep { reason: &'static str },
}

/// What came of what a shard was told.
pub enum Handled {
    /// A connection was taken in; the account of the one that it displaced, if it did.
    Added(Option<ConnBudget>),
    /// Its members changed, if anything did.
    Noted,
    Sent(Sending),
    Closed(Closing),
    Swept(Vec<Handed<&'static str>>),
}

impl Handled {
    /// What an account holds that a shard holds no longer.
    pub open spec fn let_go(&self) -> int {
        match self {
            Handled::Added(displaced) => held_in(*displaced),
            _ => 0,
        }
    }
}

/// By which way a connection is closed.
#[derive(Debug, Clone, Copy, PartialEq, Eq, Structural)]
pub enum CloseVia {
    /// Behind what is queued for it.
    Queue,
    /// Past the queue.
    Signal,
}

/// The way to close a connection, given what its queue said to the close.
pub fn close_via(said: Offer) -> (r: CloseVia)
    ensures
        r == if said == Offer::Taken {
            CloseVia::Queue
        } else {
            CloseVia::Signal
        },
{
    match said {
        Offer::Taken => CloseVia::Queue,
        _ => CloseVia::Signal,
    }
}

/// A close that was handed on.
pub struct Closing {
    /// The close behind what is queued.
    pub queued: Handed<Outbound>,
    /// The close past the queue, where there was need of it.
    pub signal: Option<Handed<&'static str>>,
}

/// Whether a connection was closed for a reason: behind what is queued for it, and past the queue
/// where the queue did not take that.
pub open spec fn closed_for(c: Closing, m: Member, reason: &'static str) -> bool {
    &&& c.queued.to() == m.tx
    &&& c.queued.what() == Outbound::Close(reason)
    &&& c.signal is Some <==> c.queued.answer() != Offer::Taken
    &&& c.signal matches Some(h) ==> h.to() == m.close && h.what() == reason
}

impl Closing {
    /// By which way the connection was closed.
    pub fn via(&self) -> (r: CloseVia)
        ensures
            r == if self.queued.answer() == Offer::Taken {
                CloseVia::Queue
            } else {
                CloseVia::Signal
            },
    {
        close_via(self.queued.said())
    }
}

/// Closes a connection: behind what is queued for it where that can be, else past the queue.
fn close_member(member: &Member, reason: &'static str) -> (r: Closing)
    ensures
        closed_for(r, *member, reason),
{
    let queued = offer(&member.tx, Outbound::Close(reason));
    let signal = match close_via(queued.said()) {
        CloseVia::Queue => None,
        CloseVia::Signal => Some(force_close(member, reason)),
    };
    Closing { queued, signal }
}

impl Shard {
    /// The connections to which something happened.
    fn with_fate(&self, log: &Vec<Entry>, fate: Fate) -> (r: Vec<ConnId>)
        requires
            forall|j: int| 0 <= j < log@.len() ==> (#[trigger] log@[j]).at < self.members@.len(),
        ensures
            r@ == conns_of(self.members@, log@, fate),
    {
        let mut r: Vec<ConnId> = Vec::new();
        assert(log@.take(0) =~= Seq::<Entry>::empty());
        for i in 0..log.len()
            invariant
                forall|j: int| 0 <= j < log@.len() ==> (#[trigger] log@[j]).at < self.members@.len(),
                r@ == conns_of(self.members@, log@.take(i as int), fate),
        {
            assert(log@.take(i + 1).drop_last() =~= log@.take(i as int));
            if log[i].fate == fate {
                r.push(self.members[log[i].at].conn);
            }
        }
        assert(log@.take(log@.len() as int) =~= log@);
        r
    }

    /// Queues a message for recipients, and marks those that fell behind or were gone.
    pub fn fan_out<C: Fn(&bytes::Bytes, u8) -> bytes::Bytes, D: Fn(u64, u64, SlotKey) -> bool>(
        &mut self,
        who: &Vec<usize>,
        msg: &Outgoing,
        tag: Option<u64>,
        compress: &C,
        drops: &D,
        budget: &Budget,
        ledger: &mut Ledger,
        metrics: &mut Metrics,
        now: u64,
    ) -> (r: Sending)
        requires
            old(self).wf(),
            forall|j: int| 0 <= j < who@.len() ==> (#[trigger] who@[j]) < old(self).members@.len(),
            held_by(old(self).members@) <= old(ledger).queued,
            forall|b: u8| #[trigger] compress.requires((&msg.payload, b)),
            forall|f: u64, t: u64, k: SlotKey| #[trigger] drops.requires((f, t, k)),
        ensures
            final(self).wf(),
            r.log@.map_values(|e: Entry| e.at) == who@,
            rightly_sent(
                *budget,
                Books {
                    members: old(self).members@,
                    ledger: *old(ledger),
                    counters: old(metrics)@,
                },
                r,
                *msg,
                tag,
                *compress,
                *drops,
                now,
            ),
            (Books {
                members: final(self).members@,
                ledger: *final(ledger),
                counters: final(metrics)@,
            }) == settled(
                *budget,
                Books {
                    members: old(self).members@,
                    ledger: *old(ledger),
                    counters: old(metrics)@,
                },
                r.log@,
                now,
            ),
            final(self).index() == old(self).index(),
            old(ledger).queued - held_by(old(self).members@) == final(ledger).queued - held_by(
                final(self).members@,
            ),
    {
        let ghost m = self.members@;
        let r = self.queue_for(who, msg, tag, compress, drops, budget, ledger, metrics, now);
        proof {
            assert forall|j: int| 0 <= j < r.log@.len() implies (#[trigger] r.log@[j]).at
                < self.members@.len() by {
                assert(r.log@.map_values(|e: Entry| e.at)[j] == who@[j]);
            }
            same_slots(m, self.members@);
            same_conns(m, self.members@, r.log@, Fate::Tried(Delivery::Behind));
            same_conns(m, self.members@, r.log@, Fate::Tried(Delivery::Gone));
        }
        let behind = self.with_fate(&r.log, Fate::Tried(Delivery::Behind));
        let gone = self.with_fate(&r.log, Fate::Tried(Delivery::Gone));
        let closes = self.mark_lagged(&behind, metrics);
        self.mark_gone(&gone);
        Sending { closes, ..r }
    }

    /// Closes a connection, where it is here.
    pub fn close(&self, conn: ConnId, reason: &'static str) -> (r: Option<Closing>)
        ensures
            match seat(self.members@, conn) {
                Some(i) => r matches Some(c) && closed_for(c, self.members@[i], reason),
                None => r is None,
            },
    {
        match self.seek(conn) {
            Some(i) => Some(close_member(&self.members[i], reason)),
            None => None,
        }
    }

    /// Closes every connection past its queue.
    pub fn sweep(&self, reason: &'static str) -> (r: Vec<Handed<&'static str>>)
        ensures
            closes_handed(r@, self.members@.map_values(|m: Member| m.close), reason@),
    {
        let n: usize = self.members.len();
        let mut closes: Vec<Handed<&'static str>> = Vec::new();
        for i in 0..n
            invariant
                n == self.members@.len(),
                closes@.len() == i,
                forall|j: int|
                    0 <= j < i ==> (#[trigger] closes@[j]).to() == self.members@[j].close
                        && closes@[j].what()@ == reason@,
        {
            closes.push(force_close(&self.members[i], reason));
        }
        closes
    }

    /// Does what a shard is told.
    pub fn handle<C: Fn(&bytes::Bytes, u8) -> bytes::Bytes, D: Fn(u64, u64, SlotKey) -> bool>(
        &mut self,
        told: ShardMsg,
        compress: &C,
        drops: &D,
        budget: &Budget,
        ledger: &mut Ledger,
        metrics: &mut Metrics,
        now: u64,
    ) -> (r: Handled)
        requires
            old(self).wf(),
            held_by(old(self).members@) <= old(ledger).queued,
            forall|p: &bytes::Bytes, b: u8| #[trigger] compress.requires((p, b)),
            forall|f: u64, t: u64, k: SlotKey| #[trigger] drops.requires((f, t, k)),
        ensures
            final(self).wf(),
            old(ledger).queued - held_by(old(self).members@) == final(ledger).queued - held_by(
                final(self).members@,
            ) - r.let_go(),
            final(self).index() == match told {
                ShardMsg::Remove { conn } => unlisted(
                    old(self).index(),
                    slot_in(old(self).members@, conn),
                    conn,
                ),
                ShardMsg::Update { conn, slot, .. } => index_after_update(
                    old(self).members@,
                    old(self).index(),
                    conn,
                    slot,
                ),
                _ => old(self).index(),
            },
            match told {
                ShardMsg::Add { conn, tx, close, deflate, scoped } => {
                    &&& final(self).members@ == members_with(
                        old(self).members@,
                        newcomer(conn, tx, close, deflate, scoped, now),
                    )
                    &&& *final(ledger) == *old(ledger)
                    &&& final(metrics)@ == old(metrics)@
                    &&& r == Handled::Added(account_in(old(self).members@, conn))
                },
                ShardMsg::Remove { conn } => {
                    &&& final(self).members@ == members_without(old(self).members@, conn)
                    &&& final(ledger).peak == old(ledger).peak
                    &&& final(ledger).queued == old(ledger).queued - held_in(
                        account_in(old(self).members@, conn),
                    )
                    &&& final(metrics)@ == old(metrics)@
                    &&& r is Noted
                },
                ShardMsg::Update { conn, auth, no_text, slot } => {
                    &&& (final(self).members@, final(metrics)@) == after_update(
                        old(self).members@,
                        old(metrics)@,
                        conn,
                        auth,
                        no_text,
                        slot,
                    )
                    &&& *final(ledger) == *old(ledger)
                    &&& r is Noted
                },
                ShardMsg::SetFilter { conn, filter } => {
                    &&& final(self).members@ == match seat(old(self).members@, conn) {
                        Some(i) => old(self).members@.update(
                            i,
                            Member { filter, ..old(self).members@[i] },
                        ),
                        None => old(self).members@,
                    }
                    &&& *final(ledger) == *old(ledger)
                    &&& final(metrics)@ == old(metrics)@
                    &&& r is Noted
                },
                ShardMsg::Send { conn, msg, tag } => {
                    let s = Books {
                        members: old(self).members@,
                        ledger: *old(ledger),
                        counters: old(metrics)@,
                    };
                    let t = Books {
                        members: final(self).members@,
                        ledger: *final(ledger),
                        counters: final(metrics)@,
                    };
                    match seat(old(self).members@, conn) {
                        Some(i) => {
                            &&& r matches Handled::Sent(sent)
                            &&& sent.log@.len() == 1 && sent.log@[0].at == i
                            &&& rightly_sent(*budget, s, sent, msg, tag, *compress, *drops, now)
                            &&& t == settled(*budget, s, sent.log@, now)
                        },
                        None => t == s && r is Noted,
                    }
                },
                ShardMsg::Broadcast { to, msg, tag } => {
                    let s = Books {
                        members: old(self).members@,
                        ledger: *old(ledger),
                        counters: old(metrics)@,
                    };
                    let t = Books {
                        members: final(self).members@,
                        ledger: *final(ledger),
                        counters: final(metrics)@,
                    };
                    &&& r matches Handled::Sent(sent)
                    &&& reached(s.members, old(self).index(), sent.log@, to)
                    &&& rightly_sent(*budget, s, sent, msg, tag, *compress, *drops, now)
                    &&& t == settled(*budget, s, sent.log@, now)
                },
                ShardMsg::Close { conn, reason } => {
                    &&& match seat(old(self).members@, conn) {
                        Some(i) => r matches Handled::Closed(c) && closed_for(
                            c,
                            old(self).members@[i],
                            reason,
                        ),
                        None => r is Noted,
                    }
                    &&& final(self).members@ == old(self).members@
                    &&& *final(ledger) == *old(ledger)
                    &&& final(metrics)@ == old(metrics)@
                },
                ShardMsg::Sweep { reason } => {
                    &&& r matches Handled::Swept(h) && closes_handed(
                        h@,
                        old(self).members@.map_values(|m: Member| m.close),
                        reason@,
                    )
                    &&& final(self).members@ == old(self).members@
                    &&& *final(ledger) == *old(ledger)
                    &&& final(metrics)@ == old(metrics)@
                },
            },
    {
        match told {
            ShardMsg::Add { conn, tx, close, deflate, scoped } => {
                Handled::Added(self.add(conn, tx, close, deflate, scoped, now))
            },
            ShardMsg::Remove { conn } => {
                self.remove(conn, ledger);
                Handled::Noted
            },
            ShardMsg::Update { conn, auth, no_text, slot } => {
                self.update(conn, auth, no_text, slot, metrics);
                Handled::Noted
            },
            ShardMsg::SetFilter { conn, filter } => {
                self.set_filter(conn, filter);
                Handled::Noted
            },
            ShardMsg::Send { conn, msg, tag } => {
                match self.seek(conn) {
                    Some(i) => {
                        let who: Vec<usize> = vec![i];
                        let r = self.fan_out(
                            &who,
                            &msg,
                            tag,
                            compress,
                            drops,
                            budget,
                            ledger,
                            metrics,
                            now,
                        );
                        assert(r.log@.map_values(|e: Entry| e.at)[0] == who@[0]);
                        Handled::Sent(r)
                    },
                    None => Handled::Noted,
                }
            },
            ShardMsg::Broadcast { to, msg, tag } => {
                let who = self.audience(&to);
                Handled::Sent(
                    self.fan_out(
                        &who,
                        &msg,
                        tag,
                        compress,
                        drops,
                        budget,
                        ledger,
                        metrics,
                        now,
                    ),
                )
            },
            ShardMsg::Close { conn, reason } => {
                match self.close(conn, reason) {
                    Some(c) => Handled::Closed(c),
                    None => Handled::Noted,
                }
            },
            ShardMsg::Sweep { reason } => Handled::Swept(self.sweep(reason)),
        }
    }
}

/// Whether the recipients in a log are those that a message is for.
pub open spec fn reached(
    m: Seq<Member>,
    by: Seq<(SlotKey, Seq<ConnId>)>,
    log: Seq<Entry>,
    to: Recipients,
) -> bool {
    in_audience(m, by, log.map_values(|e: Entry| e.at), to)
}

/// Members with the same connections give the same lists of them.
proof fn same_conns(m: Seq<Member>, t: Seq<Member>, log: Seq<Entry>, fate: Fate)
    requires
        m.len() == t.len(),
        forall|i: int| 0 <= i < m.len() ==> (#[trigger] m[i]).conn == t[i].conn,
        forall|j: int| 0 <= j < log.len() ==> (#[trigger] log[j]).at < m.len(),
    ensures
        conns_of(m, log, fate) == conns_of(t, log, fate),
    decreases log.len(),
{
    if log.len() > 0 {
        assert forall|j: int| 0 <= j < log.drop_last().len() implies (#[trigger] log.drop_last()[j]).at
            < m.len() by {
            assert(log[j].at < m.len());
        }
        same_conns(m, t, log.drop_last(), fate);
        assert(log[log.len() - 1].at < m.len());
        assert(m[log.last().at as int].conn == t[log.last().at as int].conn);
    }
}

/// Marking a connection twice is marking it once: it is counted once and closed once.
pub proof fn a_second_mark_is_harmless(m: Seq<Member>, c: Counters, conn: ConnId)
    ensures
        after_lag(m, c, seq![conn, conn]) == after_lag(m, c, seq![conn]),
        lag_ways(m, c, seq![conn, conn]) == lag_ways(m, c, seq![conn]),
{
    let one = seq![conn];
    let two = seq![conn, conn];
    assert(two.drop_last() =~= one);
    assert(one.drop_last() =~= Seq::<ConnId>::empty());
    let (t, d) = after_lag(m, c, one);
    reveal_with_fuel(after_lag, 3);
    seat_found(m, conn, 0);
    seat_found(t, conn, 0);
    if seat(m, conn) is Some {
        let i = seat(m, conn)->0;
        assert(t[i].conn == conn);
        assert forall|j: int| 0 <= j < m.len() implies (#[trigger] t[j]).conn == m[j].conn by {
        }
        if seat(t, conn) is Some {
            let k = seat(t, conn)->0;
            assert(m[k].conn == conn);
            assert(k == i);
        }
    }
}

/// A connection that has fallen behind hears nothing more: whatever it is sent, nothing is handed to
/// its queue, its account stays as it is, and nothing is counted for it.
pub proof fn nothing_follows_a_close<D: Fn(u64, u64, SlotKey) -> bool>(
    b: Budget,
    s: Books,
    e: Entry,
    h: Option<Handed<Outbound>>,
    msg: Outgoing,
    tag: Option<u64>,
    frames: Seq<(u8, bytes::Bytes)>,
    drops: D,
    now: u64,
)
    requires
        fits(b, s, e, h, msg, tag, frames, drops, now),
        s.members[e.at as int].lagged,
    ensures
        e.fate == Fate::Skipped,
        h is None,
        booked(b, s, e, now) == s,
{
}

/// A frame without a tag reaches every recipient that keeps up: no filter drops it.
pub proof fn an_untagged_frame_is_never_filtered<D: Fn(u64, u64, SlotKey) -> bool>(
    b: Budget,
    s: Books,
    e: Entry,
    h: Option<Handed<Outbound>>,
    msg: Outgoing,
    frames: Seq<(u8, bytes::Bytes)>,
    drops: D,
    now: u64,
)
    requires
        fits(b, s, e, h, msg, None, frames, drops, now),
        !s.members[e.at as int].lagged,
    ensures
        e.fate is Tried,
        b.refusal(s.ledger, s.members[e.at as int].budget, e.size, now) is None ==> h is Some,
{
}

/// What a list keeps without a connection.
proof fn list_without(s: Seq<ConnId>, conn: ConnId)
    ensures
        forall|c: ConnId| #[trigger]
            others(s, conn).contains(c) <==> c != conn && s.contains(c),
        s.no_duplicates() ==> others(s, conn).no_duplicates(),
{
    let p = another(conn);
    assert forall|c: ConnId| #[trigger] others(s, conn).contains(c) <==> c != conn && s.contains(
        c,
    ) by {
        if s.filter(p).contains(c) {
            s.lemma_filter_contains_rev(p, c);
            let j = choose|j: int| 0 <= j < s.filter(p).len() && s.filter(p)[j] == c;
            s.lemma_filter_pred(p, j);
        }
        if c != conn && s.contains(c) {
            let j = choose|j: int| 0 <= j < s.len() && s[j] == c;
            s.lemma_filter_contains(p, j);
        }
    }
    if s.no_duplicates() {
        kept_once(s, p);
    }
}

/// What is kept of a list without duplicates has none.
proof fn kept_once(s: Seq<ConnId>, p: spec_fn(ConnId) -> bool)
    requires
        s.no_duplicates(),
    ensures
        s.filter(p).no_duplicates(),
    decreases s.len(),
{
    reveal(Seq::filter);
    if s.len() > 0 {
        let t = s.drop_last();
        kept_once(t, p);
        if p(s.last()) {
            if t.filter(p).contains(s.last()) {
                t.lemma_filter_contains_rev(p, s.last());
                let j = choose|j: int| 0 <= j < t.len() && t[j] == s.last();
                assert(s[j] == s[s.len() - 1]);
            }
            contains_after_push(t.filter(p), s.last());
        }
    }
}

/// Which connections a slot lists once one was taken off a list.
proof fn lists_after_unlisting(
    by: Seq<(SlotKey, Seq<ConnId>)>,
    slot: Option<SlotKey>,
    conn: ConnId,
    k: SlotKey,
)
    requires
        ascending::<SlotKey, Seq<ConnId>>(by),
    ensures
        ascending::<SlotKey, Seq<ConnId>>(unlisted(by, slot, conn)),
        listed(unlisted(by, slot, conn), k) == if slot == Some(k) {
            others(listed(by, k), conn)
        } else {
            listed(by, k)
        },
{
    if let Some(key) = slot {
        let kept = others(listed(by, key), conn);
        if entry::<SlotKey, Seq<ConnId>>(by, key) is Some {
            setting_is_separate::<SlotKey, Seq<ConnId>>(by, key, kept, k);
        } else {
            reveal(Seq::filter);
            assert(listed(by, key) =~= Seq::<ConnId>::empty());
            assert(kept =~= Seq::<ConnId>::empty());
        }
    }
}

/// Which connections a slot lists once one was put on a list.
proof fn lists_after_enlisting(
    by: Seq<(SlotKey, Seq<ConnId>)>,
    slot: Option<SlotKey>,
    conn: ConnId,
    k: SlotKey,
)
    requires
        ascending::<SlotKey, Seq<ConnId>>(by),
    ensures
        listed(enlisted(by, slot, conn), k) == if slot == Some(k) {
            listed(by, k).push(conn)
        } else {
            listed(by, k)
        },
{
    if let Some(key) = slot {
        setting_is_separate::<SlotKey, Seq<ConnId>>(by, key, listed(by, key).push(conn), k);
    }
}

/// The index is in step once the slot of one connection changed and the index was told.
proof fn index_moves(
    m: Seq<Member>,
    t: Seq<Member>,
    by: Seq<(SlotKey, Seq<ConnId>)>,
    conn: ConnId,
    was: Option<SlotKey>,
    is: Option<SlotKey>,
)
    requires
        ascending::<SlotKey, Seq<ConnId>>(by),
        indexed(m, by),
        slot_in(m, conn) == was,
        forall|c: ConnId| #[trigger]
            slot_in(t, c) == if c == conn {
                is
            } else {
                slot_in(m, c)
            },
    ensures
        indexed(t, enlisted(unlisted(by, was, conn), is, conn)),
{
    let u = unlisted(by, was, conn);
    let a = enlisted(u, is, conn);
    assert forall|k: SlotKey|
        (#[trigger] listed(a, k)).no_duplicates() && forall|c: ConnId|
            listed(a, k).contains(c) <==> if c == conn {
                is == Some(k)
            } else {
                listed(by, k).contains(c)
            } by {
        let l = listed(by, k);
        assert(l.no_duplicates());
        assert(l.contains(conn) <==> slot_in(m, conn) == Some(k));
        lists_after_unlisting(by, was, conn, k);
        lists_after_enlisting(u, is, conn, k);
        list_without(l, conn);
        contains_after_push(listed(u, k), conn);
    }
    index_follows(m, t, by, a, conn, was, is);
}

/// The index keeps step with the members: every slot lists its connections, each once, and no
/// others, also once a connection was taken in that was not there, one was let go, or one changed
/// its slot.
pub proof fn the_index_keeps_step(
    m: Seq<Member>,
    by: Seq<(SlotKey, Seq<ConnId>)>,
    c: Counters,
    x: Member,
    conn: ConnId,
    auth: bool,
    no_text: bool,
    slot: Option<SlotKey>,
)
    requires
        distinct(m),
        ascending::<SlotKey, Seq<ConnId>>(by),
        indexed(m, by),
        x.slot is None,
    ensures
        seat(m, x.conn) is None ==> indexed(members_with(m, x), by),
        indexed(members_without(m, conn), unlisted(by, slot_in(m, conn), conn)),
        indexed(
            after_update(m, c, conn, auth, no_text, slot).0,
            index_after_update(m, by, conn, slot),
        ),
{
    if seat(m, x.conn) is None {
        assert forall|k: SlotKey, d: ConnId|
            (#[trigger] listed(by, k).contains(d)) <==> slot_in(m.push(x), d) == Some(k) by {
            slots_after_push(m, x, d);
            assert(listed(by, k).contains(d) <==> slot_in(m, d) == Some(k));
        }
    }
    seat_found(m, conn, 0);
    if let Some(i) = seat(m, conn) {
        assert forall|d: ConnId| #[trigger]
            slot_in(m.remove(i), d) == if d == conn {
                None
            } else {
                slot_in(m, d)
            } by {
            slots_after_remove(m, i, d);
        }
        index_moves(m, m.remove(i), by, conn, m[i].slot, None);
        let y = Member { auth, no_text, slot, ..m[i] };
        assert forall|d: ConnId| #[trigger]
            slot_in(m.update(i, y), d) == if d == conn {
                slot
            } else {
                slot_in(m, d)
            } by {
            slots_after_update(m, i, y, d);
        }
        if m[i].slot == slot {
            assert forall|k: SlotKey, d: ConnId|
                (#[trigger] listed(by, k).contains(d)) <==> slot_in(m.update(i, y), d) == Some(
                k,
            ) by {
                assert(listed(by, k).contains(d) <==> slot_in(m, d) == Some(k));
            }
        } else {
            index_moves(m, m.update(i, y), by, conn, m[i].slot, slot);
        }
    }
}

/// Where the index is in step, a message reaches exactly those that are to hear it by what is known
/// of them, and each once where they are not listed one by one.
pub proof fn a_message_reaches_whom_it_is_for(
    m: Seq<Member>,
    by: Seq<(SlotKey, Seq<ConnId>)>,
    who: Seq<usize>,
    to: Recipients,
)
    requires
        distinct(m),
        m.len() <= usize::MAX,
        indexed(m, by),
        in_audience(m, by, who, to),
    ensures
        forall|i: usize| i < m.len() ==> (#[trigger] who.contains(i) <==> hears(m[i as int], to)),
        to !is These ==> who.no_duplicates(),
{
    if let Some(list) = asked(by, to) {
        let p = |c: ConnId| here(m, c, |x: Member| takes(x, to));
        let f = |i: usize| m[i as int].conn;
        let conns = who.map_values(f);
        assert forall|i: usize| i < m.len() implies (#[trigger] who.contains(i) <==> hears(
            m[i as int],
            to,
        )) by {
            let c = m[i as int].conn;
            seat_is(m, c, i as int);
            assert(asks_slot(to) matches Some(k) ==> (listed(by, k).contains(c) <==> slot_in(m, c)
                == Some(k)));
            if who.contains(i) {
                let j = choose|j: int| 0 <= j < who.len() && who[j] == i;
                assert(conns[j] == c);
                assert(list.filter(p).contains(c));
                list.lemma_filter_contains_rev(p, c);
                list.lemma_filter_pred(p, j);
            }
            if hears(m[i as int], to) {
                assert(list.contains(c));
                let n = choose|n: int| 0 <= n < list.len() && list[n] == c;
                list.lemma_filter_contains(p, n);
                let j = choose|j: int| 0 <= j < conns.len() && conns[j] == c;
                assert(who[j] < m.len());
                seat_is(m, c, who[j] as int);
                assert(who[j] == i);
            }
        }
        if to !is These {
            assert(list.no_duplicates());
            kept_once(list, p);
            assert forall|a: int, b: int|
                0 <= a < who.len() && 0 <= b < who.len() && a != b implies who[a] != who[b] by {
                assert(conns[a] != conns[b]);
            }
        }
    }
}

/// The slot whose list is asked, if one is.
spec fn asks_slot(to: Recipients) -> Option<SlotKey> {
    match to {
        Recipients::Slot(key) => Some(key),
        Recipients::SlotText(key) => Some(key),
        Recipients::SlotScopedText(key) => Some(key),
        _ => None,
    }
}

/// What is said to everyone reaches each connection that has signed in, and what is said to
/// everyone as text each of those that takes text; no other.
pub proof fn everyone_who_signed_in_hears_what_is_for_all(
    m: Seq<Member>,
    by: Seq<(SlotKey, Seq<ConnId>)>,
    all: Seq<usize>,
    text: Seq<usize>,
    full: Seq<usize>,
    i: usize,
)
    requires
        distinct(m),
        m.len() <= usize::MAX,
        indexed(m, by),
        in_audience(m, by, all, Recipients::All),
        in_audience(m, by, text, Recipients::AllText),
        in_audience(m, by, full, Recipients::AllTextFull),
        i < m.len(),
    ensures
        all.contains(i) <==> m[i as int].auth,
        text.contains(i) <==> m[i as int].auth && !m[i as int].no_text,
        full.contains(i) <==> m[i as int].auth && !m[i as int].no_text && !m[i as int].scoped,
{
    a_message_reaches_whom_it_is_for(m, by, all, Recipients::All);
    a_message_reaches_whom_it_is_for(m, by, text, Recipients::AllText);
    a_message_reaches_whom_it_is_for(m, by, full, Recipients::AllTextFull);
}

/// What is said to a slot reaches the connections that hold it, text those of them that take
/// text, and scoped text those of them on the scoped port; no other.
pub proof fn a_slot_hears_what_is_for_it(
    m: Seq<Member>,
    by: Seq<(SlotKey, Seq<ConnId>)>,
    key: SlotKey,
    every: Seq<usize>,
    text: Seq<usize>,
    scoped: Seq<usize>,
    i: usize,
)
    requires
        distinct(m),
        m.len() <= usize::MAX,
        indexed(m, by),
        in_audience(m, by, every, Recipients::Slot(key)),
        in_audience(m, by, text, Recipients::SlotText(key)),
        in_audience(m, by, scoped, Recipients::SlotScopedText(key)),
        i < m.len(),
    ensures
        every.contains(i) <==> m[i as int].slot == Some(key),
        text.contains(i) <==> m[i as int].slot == Some(key) && !m[i as int].no_text,
        scoped.contains(i) <==> m[i as int].slot == Some(key) && !m[i as int].no_text
            && m[i as int].scoped,
{
    a_message_reaches_whom_it_is_for(m, by, every, Recipients::Slot(key));
    a_message_reaches_whom_it_is_for(m, by, text, Recipients::SlotText(key));
    a_message_reaches_whom_it_is_for(m, by, scoped, Recipients::SlotScopedText(key));
}

/// What is said about a slot reaches every connection that has signed in and takes text and is
/// not on the scoped port, whatever its slot; on the scoped port it reaches of those only the
/// connections that hold the slot.
pub proof fn what_concerns_a_slot_is_narrowed_on_the_scoped_port_alone(
    m: Seq<Member>,
    by: Seq<(SlotKey, Seq<ConnId>)>,
    key: SlotKey,
    who: Seq<usize>,
    i: usize,
)
    requires
        distinct(m),
        m.len() <= usize::MAX,
        indexed(m, by),
        in_audience(m, by, who, Recipients::AllTextAbout(key)),
        i < m.len(),
    ensures
        !m[i as int].auth || m[i as int].no_text ==> !who.contains(i),
        m[i as int].auth && !m[i as int].no_text && !m[i as int].scoped ==> who.contains(i),
        m[i as int].auth && !m[i as int].no_text && m[i as int].scoped ==> (who.contains(i)
            <==> m[i as int].slot == Some(key)),
{
    a_message_reaches_whom_it_is_for(m, by, who, Recipients::AllTextAbout(key));
}

/// What is said about a slot is heard by those that hear it in full and those of the slot that
/// hear it on the scoped port, each once: of the connections that have signed in, the two
/// audiences together are the one, and they have nobody in common.
pub proof fn two_feeds_make_one(
    m: Seq<Member>,
    by: Seq<(SlotKey, Seq<ConnId>)>,
    key: SlotKey,
    about: Seq<usize>,
    full: Seq<usize>,
    scoped: Seq<usize>,
    i: usize,
)
    requires
        distinct(m),
        m.len() <= usize::MAX,
        indexed(m, by),
        in_audience(m, by, about, Recipients::AllTextAbout(key)),
        in_audience(m, by, full, Recipients::AllTextFull),
        in_audience(m, by, scoped, Recipients::SlotScopedText(key)),
        i < m.len(),
        m[i as int].auth,
    ensures
        about.contains(i) <==> full.contains(i) || scoped.contains(i),
        !(full.contains(i) && scoped.contains(i)),
{
    a_message_reaches_whom_it_is_for(m, by, about, Recipients::AllTextAbout(key));
    a_message_reaches_whom_it_is_for(m, by, full, Recipients::AllTextFull);
    a_message_reaches_whom_it_is_for(m, by, scoped, Recipients::SlotScopedText(key));
}

/// What is said to a list of connections reaches those of them that are here, signed in or not,
/// and no other.
pub proof fn a_list_names_its_audience(
    m: Seq<Member>,
    by: Seq<(SlotKey, Seq<ConnId>)>,
    list: Vec<ConnId>,
    who: Seq<usize>,
    i: usize,
)
    requires
        distinct(m),
        m.len() <= usize::MAX,
        indexed(m, by),
        in_audience(m, by, who, Recipients::These(list)),
        i < m.len(),
    ensures
        who.contains(i) <==> list@.contains(m[i as int].conn),
{
    a_message_reaches_whom_it_is_for(m, by, who, Recipients::These(list));
}

/// A connection that was just taken in hears nothing that is for all or for a slot, on either
/// port, until it has signed in: only what is sent to it by its number.
pub proof fn a_newcomer_is_sent_only_what_names_it(
    m: Seq<Member>,
    by: Seq<(SlotKey, Seq<ConnId>)>,
    conn: ConnId,
    tx: mpsc::Sender<Outbound>,
    close: mpsc::Sender<&'static str>,
    deflate: Option<u8>,
    scoped: bool,
    now: u64,
    to: Recipients,
    who: Seq<usize>,
    i: usize,
)
    requires
        distinct(m),
        m.len() < usize::MAX,
        ascending::<SlotKey, Seq<ConnId>>(by),
        indexed(m, by),
        forall|j: int| 0 <= j < m.len() ==> (#[trigger] m[j]).conn != conn,
        in_audience(
            members_with(m, newcomer(conn, tx, close, deflate, scoped, now)),
            by,
            who,
            to,
        ),
        i == m.len(),
    ensures
        ({
            let t = members_with(m, newcomer(conn, tx, close, deflate, scoped, now));
            &&& t.len() == m.len() + 1
            &&& t.take(m.len() as int) == m
            &&& t[i as int].conn == conn && t[i as int].tx == tx && t[i as int].close == close
            &&& t[i as int].deflate == deflate && t[i as int].scoped == scoped
            &&& !t[i as int].lagged && t[i as int].filter is None
            &&& t[i as int].budget.queued == 0 && t[i as int].budget.oversize == 0
            &&& t[i as int].budget.last_progress == now
        }),
        who.contains(i) <==> (to matches Recipients::These(list) && list@.contains(conn)),
{
    let x = newcomer(conn, tx, close, deflate, scoped, now);
    let t = members_with(m, x);
    seat_found(m, conn, 0);
    the_index_keeps_step(
        m,
        by,
        arbitrary(),
        x,
        conn,
        false,
        false,
        None,
    );
    slots_after_push(m, x, conn);
    assert(t.take(m.len() as int) =~= m);
    a_message_reaches_whom_it_is_for(t, by, who, to);
}

/// A connection that was let go is there no longer, and every other stays as it was, in order.
pub proof fn letting_go_takes_one_connection(m: Seq<Member>, conn: ConnId, k: int)
    requires
        distinct(m),
    ensures
        (forall|j: int| 0 <= j < m.len() ==> (#[trigger] m[j]).conn != conn) ==> members_without(
            m,
            conn,
        ) == m,
        0 <= k < m.len() && m[k].conn == conn ==> members_without(m, conn) == m.take(k) + m.skip(
            k + 1,
        ),
{
    seat_found(m, conn, 0);
    if 0 <= k < m.len() && m[k].conn == conn {
        seat_is(m, conn, k);
        assert(m.remove(k) =~= m.take(k) + m.skip(k + 1));
    }
}

/// Noting what a connection holds changes its sign-in, its taste for text and its slot, and
/// nothing else of it or of any other; it is counted as compressing or not once, when it signs
/// in with a slot.
pub proof fn noting_changes_one_connection(
    m: Seq<Member>,
    c: Counters,
    conn: ConnId,
    auth: bool,
    no_text: bool,
    slot: Option<SlotKey>,
    k: int,
)
    requires
        distinct(m),
        0 <= k < m.len(),
    ensures
        ({
            let (t, d) = after_update(m, c, conn, auth, no_text, slot);
            &&& t.len() == m.len()
            &&& m[k].conn != conn ==> t[k] == m[k]
            &&& m[k].conn == conn ==> {
                &&& t[k].auth == auth && t[k].no_text == no_text && t[k].slot == slot
                &&& t[k].conn == conn && t[k].tx == m[k].tx && t[k].close == m[k].close
                &&& t[k].deflate == m[k].deflate && t[k].budget == m[k].budget
                &&& t[k].lagged == m[k].lagged && t[k].filter == m[k].filter
                &&& t[k].scoped == m[k].scoped
                &&& m[k].auth || !auth || slot is None ==> d == c
                &&& !m[k].auth && auth && slot is Some ==> d.deflating == bumped::<(SlotKey, bool)>(
                    c.deflating,
                    (slot->0, m[k].deflate is Some),
                    1,
                )
            }
        }),
{
    seat_found(m, conn, 0);
    if m[k].conn == conn {
        seat_is(m, conn, k);
    }
}

/// What is handed to a recipient goes into its own queue: the plain frame where it takes none
/// compressed, else one that was compressed for its own window size from the payload. What the
/// queue says decides what became of it: taken is sent, full is behind, closed is gone.
pub proof fn a_recipient_is_handed_the_frame_it_takes<
    C: Fn(&bytes::Bytes, u8) -> bytes::Bytes,
    D: Fn(u64, u64, SlotKey) -> bool,
>(
    b: Budget,
    s: Books,
    r: Sending,
    msg: Outgoing,
    tag: Option<u64>,
    compress: C,
    drops: D,
    now: u64,
    j: int,
)
    requires
        rightly_sent(b, s, r, msg, tag, compress, drops, now),
        0 <= j < r.log@.len(),
        r.handed@[j] is Some,
    ensures
        ({
            let m = all_booked(b, s, r.log@.take(j), now).members[r.log@[j].at as int];
            let h = r.handed@[j]->0;
            &&& h.to() == m.tx
            &&& h.what() matches Outbound::Frame(f) && r.log@[j].size == frame_bytes(f).len()
            &&& m.deflate is None ==> frame_bytes(h.what()->Frame_0) == frame_bytes(msg.plain)
            &&& m.deflate matches Some(bits) ==> exists|f: bytes::Bytes|
                frame_bytes(h.what()->Frame_0) == frame_bytes(f) && #[trigger] compress.ensures(
                    (&msg.payload, bits),
                    f,
                )
            &&& h.answer() == Offer::Taken ==> r.log@[j].fate == Fate::Tried(Delivery::Sent)
            &&& h.answer() == Offer::Full ==> r.log@[j].fate == Fate::Tried(Delivery::Behind)
            &&& h.answer() == Offer::Closed ==> r.log@[j].fate == Fate::Tried(Delivery::Gone)
        }),
{
    let t = all_booked(b, s, r.log@.take(j), now);
    let m = t.members[r.log@[j].at as int];
    assert(fits(b, t, r.log@[j], r.handed@[j], msg, tag, r.frames@, drops, now));
    if let Some(bits) = m.deflate {
        frame_found(r.frames@, bits, 0);
        let f = frame_from(r.frames@, bits, 0)->0;
        let n = choose|n: int| 0 <= n < r.frames@.len() && r.frames@[n] == (bits, f);
        assert(r.frames@[n].0 == bits);
        assert(compress.ensures((&msg.payload, bits), f));
    }
}

/// A frame that was sent is on the account of its recipient, on the ledger and among what was
/// delivered; one that was not sent leaves all three counts, and every other account, as they
/// were.
pub proof fn a_frame_is_booked_where_it_was_sent(
    b: Budget,
    s: Books,
    at: int,
    size: usize,
    d: Delivery,
    now: u64,
    k: int,
)
    requires
        0 <= at < s.members.len(),
        0 <= k < s.members.len(),
        s.members[at].budget.queued <= s.ledger.queued,
        b.refusal(s.ledger, s.members[at].budget, size, now) is None,
    ensures
        ({
            let t = tried(b, s, at, size, d, now);
            let sent = if d == Delivery::Sent {
                size as int
            } else {
                0
            };
            &&& t.ledger.queued == s.ledger.queued + sent
            &&& t.ledger.peak >= s.ledger.peak
            &&& t.ledger.peak == s.ledger.peak || t.ledger.peak == s.ledger.queued + size
            &&& t.members[at].budget.queued == s.members[at].budget.queued + sent
            &&& t.members[at].conn == s.members[at].conn
            &&& t.members[at].lagged == s.members[at].lagged
            &&& k != at ==> t.members[k] == s.members[k]
            &&& d != Delivery::Sent ==> t.counters == s.counters
            &&& d == Delivery::Sent ==> t.counters.delivered == delivered_more(
                s.counters.delivered,
                s.members[at].slot,
                size as u64,
            )
        }),
{
}

/// Closing connections for falling behind marks exactly those that are named and leaves all else
/// of every connection as it was.
pub proof fn falling_behind_marks_the_named(
    m: Seq<Member>,
    c: Counters,
    conns: Seq<ConnId>,
    k: int,
)
    requires
        distinct(m),
        0 <= k < m.len(),
    ensures
        after_lag(m, c, conns).0.len() == m.len(),
        after_lag(m, c, conns).0[k] == (Member {
            lagged: m[k].lagged || conns.contains(m[k].conn),
            ..m[k]
        }),
        after_gone(m, conns).len() == m.len(),
        after_gone(m, conns)[k] == (Member {
            lagged: m[k].lagged || conns.contains(m[k].conn),
            ..m[k]
        }),
    decreases conns.len(),
{
    if conns.len() > 0 {
        let rest = conns.drop_last();
        let last = conns.last();
        assert(conns =~= rest.push(last));
        contains_after_push(rest, last);
        assert forall|j: int| 0 <= j < m.len() implies (#[trigger] after_lag(m, c, rest).0[j]).conn
            == m[j].conn && after_gone(m, rest)[j].conn == m[j].conn by {
            falling_behind_marks_the_named(m, c, rest, j);
        }
        falling_behind_marks_the_named(m, c, rest, k);
        let t = after_lag(m, c, rest).0;
        let g = after_gone(m, rest);
        assert(t.len() == m.len() && g.len() == m.len());
        assert forall|i: int, j: int| 0 <= i < j < m.len() implies (#[trigger] t[i]).conn != (
        #[trigger] t[j]).conn by {
            assert(m[i].conn != m[j].conn);
        }
        assert forall|i: int, j: int| 0 <= i < j < m.len() implies (#[trigger] g[i]).conn != (
        #[trigger] g[j]).conn by {
            assert(after_lag(m, c, rest).0[i].conn == m[i].conn);
            assert(after_lag(m, c, rest).0[j].conn == m[j].conn);
        }
        seat_found(t, last, 0);
        seat_found(g, last, 0);
        if m[k].conn == last {
            seat_is(t, last, k);
            seat_is(g, last, k);
        }
    }
}

/// A connection that falls behind for the first time is counted once, however often it is
/// named, and one that had fallen behind before is not counted again.
pub proof fn falling_behind_is_counted_once(m: Seq<Member>, c: Counters, conn: ConnId, k: int)
    requires
        distinct(m),
        0 <= k < m.len(),
        m[k].conn == conn,
        c.lagged < u64::MAX,
    ensures
        after_lag(m, c, seq![conn]).1.lagged == c.lagged + if m[k].lagged {
            0int
        } else {
            1
        },
        lag_ways(m, c, seq![conn]) == if m[k].lagged {
            Seq::<mpsc::Sender<&'static str>>::empty()
        } else {
            seq![m[k].close]
        },
{
    let one = seq![conn];
    assert(one.drop_last() =~= Seq::<ConnId>::empty());
    seat_is(m, conn, k);
    reveal_with_fuel(after_lag, 2);
    reveal_with_fuel(lag_ways, 2);
    assert(Seq::<mpsc::Sender<&'static str>>::empty().push(m[k].close) =~= seq![m[k].close]);
}

/// A filter drops a frame for a recipient exactly where it says so of the number of the filter, the
/// tag of the frame and the slot of the recipient; one without a filter, and one without a slot, is
/// never passed over.
pub proof fn a_filter_decides_by_filter_tag_and_slot<D: Fn(u64, u64, SlotKey) -> bool>(
    b: Budget,
    s: Books,
    e: Entry,
    h: Option<Handed<Outbound>>,
    msg: Outgoing,
    tag: u64,
    frames: Seq<(u8, bytes::Bytes)>,
    drops: D,
    now: u64,
    says: bool,
)
    requires
        fits(b, s, e, h, msg, Some(tag), frames, drops, now),
        !s.members[e.at as int].lagged,
        forall|f: u64, t: u64, k: SlotKey, x: bool, y: bool| #[trigger]
            drops.ensures((f, t, k), x) && #[trigger] drops.ensures((f, t, k), y) ==> x == y,
        s.members[e.at as int].filter is Some && s.members[e.at as int].slot is Some
            ==> drops.ensures(
            (s.members[e.at as int].filter->0, tag, s.members[e.at as int].slot->0),
            says,
        ),
    ensures
        s.members[e.at as int].filter is None || s.members[e.at as int].slot is None
            ==> e.fate is Tried,
        s.members[e.at as int].filter is Some && s.members[e.at as int].slot is Some ==> (e.fate
            == Fate::Filtered <==> says),
        e.fate == Fate::Filtered ==> h is None && booked(b, s, e, now) == s,
{
}

/// A recipient that the budget refuses is behind and is handed nothing; every other that keeps up
/// and whose filter lets the frame through is handed its frame.
pub proof fn the_budget_decides_who_is_behind<D: Fn(u64, u64, SlotKey) -> bool>(
    b: Budget,
    s: Books,
    e: Entry,
    h: Option<Handed<Outbound>>,
    msg: Outgoing,
    tag: Option<u64>,
    frames: Seq<(u8, bytes::Bytes)>,
    drops: D,
    now: u64,
)
    requires
        fits(b, s, e, h, msg, tag, frames, drops, now),
        e.fate is Tried,
    ensures
        b.refusal(s.ledger, s.members[e.at as int].budget, e.size, now) is Some ==> h is None
            && e.fate == Fate::Tried(Delivery::Behind) && booked(b, s, e, now) == s,
        b.refusal(s.ledger, s.members[e.at as int].budget, e.size, now) is None ==> h is Some,
{
}

/// A connection that is closed is told so in its own queue, and past it only where the queue does
/// not take that; one that is not here is not closed.
pub proof fn one_connection_is_closed(
    s: Shard,
    conn: ConnId,
    reason: &'static str,
    r: Option<Closing>,
    i: int,
)
    requires
        distinct(s.members@),
        call_ensures(Shard::close, (&s, conn, reason), r),
    ensures
        0 <= i < s.members@.len() && s.members@[i].conn == conn ==> r is Some
            && r->0.queued.to() == s.members@[i].tx && r->0.queued.what() == Outbound::Close(reason)
            && (r->0.queued.answer() == Offer::Taken ==> r->0.signal is None) && (
        r->0.queued.answer() != Offer::Taken ==> r->0.signal is Some && r->0.signal->0.to()
            == s.members@[i].close && r->0.signal->0.what() == reason),
        (forall|j: int| 0 <= j < s.members@.len() ==> (#[trigger] s.members@[j]).conn != conn)
            ==> r is None,
{
    seat_found(s.members@, conn, 0);
    if 0 <= i < s.members@.len() && s.members@[i].conn == conn {
        seat_is(s.members@, conn, i);
    }
}

/// A sweep closes every connection past its queue, each for the reason given.
pub proof fn a_sweep_closes_every_connection(
    s: Shard,
    reason: &'static str,
    r: Vec<Handed<&'static str>>,
    i: int,
)
    requires
        call_ensures(Shard::sweep, (&s, reason), r),
        0 <= i < s.members@.len(),
    ensures
        r@.len() == s.members@.len(),
        r@[i].to() == s.members@[i].close,
        r@[i].what()@ == reason@,
{
    let ways = s.members@.map_values(|m: Member| m.close);
    assert(ways[i] == s.members@[i].close);
}

} // verus!
