//! Tables ordered by key.

use crate::text::{compare_text, order_text, order_text_from, Order};
use vstd::prelude::*;

verus! {

/// Keys with a strict total order.
pub trait SortKey: DeepView + Sized {
    /// Whether `a` stands before `b`.
    spec fn before(a: Self::V, b: Self::V) -> bool;

    /// The order is strict, transitive and total.
    proof fn order_laws(a: Self::V, b: Self::V, c: Self::V)
        ensures
            !Self::before(a, a),
            Self::before(a, b) && Self::before(b, c) ==> Self::before(a, c),
            a == b || Self::before(a, b) || Self::before(b, a),
    ;

    /// Compares two keys.
    fn compare(&self, other: &Self) -> (r: Order)
        ensures
            r == Order::Less <==> Self::before(self.deep_view(), other.deep_view()),
            r == Order::Equal <==> self.deep_view() == other.deep_view(),
            r == Order::Greater <==> Self::before(other.deep_view(), self.deep_view()),
    ;

    /// A copy of the key.
    fn copied(&self) -> (r: Self)
        ensures
            r.deep_view() == self.deep_view(),
    ;
}

impl SortKey for u32 {
    open spec fn before(a: u32, b: u32) -> bool {
        a < b
    }

    proof fn order_laws(a: u32, b: u32, c: u32) {
    }

    fn compare(&self, other: &u32) -> (r: Order) {
        if *self < *other {
            Order::Less
        } else if *self == *other {
            Order::Equal
        } else {
            Order::Greater
        }
    }

    fn copied(&self) -> (r: u32) {
        *self
    }
}

impl SortKey for i64 {
    open spec fn before(a: i64, b: i64) -> bool {
        a < b
    }

    proof fn order_laws(a: i64, b: i64, c: i64) {
    }

    fn compare(&self, other: &i64) -> (r: Order) {
        if *self < *other {
            Order::Less
        } else if *self == *other {
            Order::Equal
        } else {
            Order::Greater
        }
    }

    fn copied(&self) -> (r: i64) {
        *self
    }
}

/// The lexicographic order of texts is a strict total order.
pub proof fn text_order_laws(a: Seq<char>, b: Seq<char>, c: Seq<char>, i: int)
    requires
        0 <= i <= a.len(),
        i <= b.len(),
        i <= c.len(),
    ensures
        order_text_from(a, a, i) == Order::Equal,
        order_text_from(a, b, i) == Order::Less && order_text_from(b, c, i) == Order::Less
            ==> order_text_from(a, c, i) == Order::Less,
        order_text_from(a, b, i) == Order::Equal ==> a.subrange(i, a.len() as int) == b.subrange(
            i,
            b.len() as int,
        ),
        order_text_from(a, b, i) == Order::Less <==> order_text_from(b, a, i) == Order::Greater,
        order_text_from(a, b, i) == Order::Equal ==> order_text_from(b, a, i) == Order::Equal,
    decreases a.len() - i,
{
    if i < a.len() && i < b.len() && i < c.len() {
        text_order_laws(a, b, c, i + 1);
        if a[i] == b[i] && order_text_from(a, b, i) == Order::Equal {
            let x = a.subrange(i, a.len() as int);
            let y = b.subrange(i, b.len() as int);
            let u = a.subrange(i + 1, a.len() as int);
            let w = b.subrange(i + 1, b.len() as int);
            assert(x =~= seq![a[i]] + u);
            assert(y =~= seq![b[i]] + w);
        }
    } else if i < a.len() && i < b.len() {
        text_order_laws(a, b, b, i + 1);
        if a[i] == b[i] && order_text_from(a, b, i) == Order::Equal {
            let x = a.subrange(i, a.len() as int);
            let y = b.subrange(i, b.len() as int);
            let u = a.subrange(i + 1, a.len() as int);
            let w = b.subrange(i + 1, b.len() as int);
            assert(x =~= seq![a[i]] + u);
            assert(y =~= seq![b[i]] + w);
        }
    } else if i < a.len() {
        text_order_laws(a, a, a, i + 1);
    } else if i < b.len() {
    } else {
        assert(a.subrange(i, a.len() as int) =~= b.subrange(i, b.len() as int));
    }
}

impl SortKey for String {
    open spec fn before(a: Seq<char>, b: Seq<char>) -> bool {
        order_text(a, b) == Order::Less
    }

    proof fn order_laws(a: Seq<char>, b: Seq<char>, c: Seq<char>) {
        text_order_laws(a, b, c, 0);
        text_order_laws(b, a, c, 0);
        assert(a.subrange(0, a.len() as int) =~= a);
        assert(b.subrange(0, b.len() as int) =~= b);
        assert(Self::before(a, a) == (order_text(a, a) == Order::Less));
        assert(Self::before(a, b) == (order_text(a, b) == Order::Less));
        assert(Self::before(b, c) == (order_text(b, c) == Order::Less));
        assert(Self::before(a, c) == (order_text(a, c) == Order::Less));
    }

    fn compare(&self, other: &String) -> (r: Order) {
        proof {
            text_order_laws(self@, other@, other@, 0);
            text_order_laws(other@, self@, self@, 0);
            text_order_laws(self@, self@, self@, 0);
            assert(self@.subrange(0, self@.len() as int) =~= self@);
            assert(other@.subrange(0, other@.len() as int) =~= other@);
        }
        compare_text(self.as_str(), other.as_str())
    }

    fn copied(&self) -> (r: String) {
        self.clone()
    }
}

impl SortKey for u16 {
    open spec fn before(a: u16, b: u16) -> bool {
        a < b
    }

    proof fn order_laws(a: u16, b: u16, c: u16) {
    }

    fn compare(&self, other: &u16) -> (r: Order) {
        if *self < *other {
            Order::Less
        } else if *self == *other {
            Order::Equal
        } else {
            Order::Greater
        }
    }

    fn copied(&self) -> (r: u16) {
        *self
    }
}

impl SortKey for u128 {
    open spec fn before(a: u128, b: u128) -> bool {
        a < b
    }

    proof fn order_laws(a: u128, b: u128, c: u128) {
    }

    fn compare(&self, other: &u128) -> (r: Order) {
        if *self < *other {
            Order::Less
        } else if *self == *other {
            Order::Equal
        } else {
            Order::Greater
        }
    }

    fn copied(&self) -> (r: u128) {
        *self
    }
}

impl SortKey for bool {
    open spec fn before(a: bool, b: bool) -> bool {
        !a && b
    }

    proof fn order_laws(a: bool, b: bool, c: bool) {
    }

    fn compare(&self, other: &bool) -> (r: Order) {
        if *self == *other {
            Order::Equal
        } else if *other {
            Order::Less
        } else {
            Order::Greater
        }
    }

    fn copied(&self) -> (r: bool) {
        *self
    }
}

impl SortKey for &'static str {
    open spec fn before(a: Seq<char>, b: Seq<char>) -> bool {
        order_text(a, b) == Order::Less
    }

    proof fn order_laws(a: Seq<char>, b: Seq<char>, c: Seq<char>) {
        <String as SortKey>::order_laws(a, b, c);
    }

    fn compare(&self, other: &&'static str) -> (r: Order) {
        let a: &str = *self;
        let b: &str = *other;
        a.to_owned().compare(&b.to_owned())
    }

    fn copied(&self) -> (r: &'static str) {
        *self
    }
}

/// Pairs are ordered by their first part, then by their second.
impl<A: SortKey, B: SortKey> SortKey for (A, B) {
    open spec fn before(a: (A::V, B::V), b: (A::V, B::V)) -> bool {
        A::before(a.0, b.0) || (a.0 == b.0 && B::before(a.1, b.1))
    }

    proof fn order_laws(a: (A::V, B::V), b: (A::V, B::V), c: (A::V, B::V)) {
        A::order_laws(a.0, b.0, c.0);
        B::order_laws(a.1, b.1, c.1);
    }

    fn compare(&self, other: &(A, B)) -> (r: Order) {
        proof {
            A::order_laws(self.0.deep_view(), other.0.deep_view(), self.0.deep_view());
            A::order_laws(other.0.deep_view(), self.0.deep_view(), other.0.deep_view());
        }
        match self.0.compare(&other.0) {
            Order::Equal => self.1.compare(&other.1),
            o => o,
        }
    }

    fn copied(&self) -> (r: (A, B)) {
        (self.0.copied(), self.1.copied())
    }
}

/// A key that is absent stands before all others.
impl<A: SortKey> SortKey for Option<A> {
    open spec fn before(a: Option<A::V>, b: Option<A::V>) -> bool {
        match (a, b) {
            (None, Some(_)) => true,
            (Some(x), Some(y)) => A::before(x, y),
            _ => false,
        }
    }

    proof fn order_laws(a: Option<A::V>, b: Option<A::V>, c: Option<A::V>) {
        match (a, b, c) {
            (Some(x), Some(y), Some(z)) => {
                A::order_laws(x, y, z);
            },
            (Some(x), Some(y), None) => {
                A::order_laws(x, y, y);
            },
            (Some(x), None, _) => {
                A::order_laws(x, x, x);
            },
            _ => {},
        }
    }

    fn compare(&self, other: &Option<A>) -> (r: Order) {
        match (self, other) {
            (None, None) => Order::Equal,
            (None, Some(_)) => Order::Less,
            (Some(_), None) => Order::Greater,
            (Some(x), Some(y)) => x.compare(y),
        }
    }

    fn copied(&self) -> (r: Option<A>) {
        match self {
            Some(x) => Some(x.copied()),
            None => None,
        }
    }
}

/// The keys stand in strictly ascending order.
pub open spec fn ascending<K: SortKey, T>(s: Seq<(K::V, T)>) -> bool {
    forall|i: int, j: int| 0 <= i < j < s.len() ==> K::before((#[trigger] s[i]).0, (#[trigger] s[j]).0)
}

/// The earlier of two entries stands before the later.
pub proof fn in_order<K: SortKey, T>(s: Seq<(K::V, T)>, i: int, j: int)
    requires
        ascending::<K, T>(s),
        0 <= i < j < s.len(),
    ensures
        K::before(s[i].0, s[j].0),
{
}

/// Where a key stands or would stand: the first place from `i` on whose key is not before it.
pub open spec fn place<K: SortKey, T>(s: Seq<(K::V, T)>, k: K::V, i: int) -> int
    decreases s.len() - i,
{
    if i >= s.len() || !K::before(s[i].0, k) {
        i
    } else {
        place::<K, T>(s, k, i + 1)
    }
}

/// The table with the key's value set.
pub open spec fn with_entry<K: SortKey, T>(s: Seq<(K::V, T)>, k: K::V, v: T) -> Seq<(K::V, T)> {
    let p = place::<K, T>(s, k, 0);
    if p < s.len() && s[p].0 == k {
        s.update(p, (k, v))
    } else {
        s.insert(p, (k, v))
    }
}

/// The table without a key.
pub open spec fn without_entry<K: SortKey, T>(s: Seq<(K::V, T)>, k: K::V) -> Seq<(K::V, T)> {
    let p = place::<K, T>(s, k, 0);
    if p < s.len() && s[p].0 == k {
        s.remove(p)
    } else {
        s
    }
}

/// The value of a key.
pub open spec fn entry<K: SortKey, T>(s: Seq<(K::V, T)>, k: K::V) -> Option<T> {
    let p = place::<K, T>(s, k, 0);
    if p < s.len() && s[p].0 == k {
        Some(s[p].1)
    } else {
        None
    }
}

/// The table with all of `entries` set, in order.
pub open spec fn with_entries<K: SortKey, T>(s: Seq<(K::V, T)>, entries: Seq<(K::V, T)>) -> Seq<
    (K::V, T),
>
    decreases entries.len(),
{
    if entries.len() == 0 {
        s
    } else {
        with_entry::<K, T>(
            with_entries::<K, T>(s, entries.drop_last()),
            entries.last().0,
            entries.last().1,
        )
    }
}

/// The table of the pairs, where the last of equal keys counts.
pub open spec fn table_of<K: SortKey, T>(entries: Seq<(K::V, T)>) -> Seq<(K::V, T)> {
    with_entries::<K, T>(Seq::empty(), entries)
}

/// The place of a key parts those before it from the others.
pub proof fn place_parts<K: SortKey, T>(s: Seq<(K::V, T)>, k: K::V, i: int)
    requires
        0 <= i <= s.len(),
    ensures
        i <= place::<K, T>(s, k, i) <= s.len(),
        forall|j: int| i <= j < place::<K, T>(s, k, i) ==> K::before((#[trigger] s[j]).0, k),
        place::<K, T>(s, k, i) < s.len() ==> !K::before(s[place::<K, T>(s, k, i)].0, k),
    decreases s.len() - i,
{
    if i < s.len() && K::before(s[i].0, k) {
        place_parts::<K, T>(s, k, i + 1);
    }
}

/// In an ascending table, the place is the only one that parts so.
proof fn place_is<K: SortKey, T>(s: Seq<(K::V, T)>, k: K::V, p: int)
    requires
        0 <= p <= s.len(),
        forall|j: int| 0 <= j < p ==> K::before((#[trigger] s[j]).0, k),
        p < s.len() ==> !K::before(s[p].0, k),
    ensures
        place::<K, T>(s, k, 0) == p,
{
    place_parts::<K, T>(s, k, 0);
    let q = place::<K, T>(s, k, 0);
    if q < p {
        assert(K::before(s[q].0, k));
    } else if p < q {
        assert(K::before(s[p].0, k));
    }
}

/// Every entry of an ascending table is found under its key, and only entries are found.
pub proof fn lookup_is_complete<K: SortKey, T>(s: Seq<(K::V, T)>, k: K::V)
    requires
        ascending::<K, T>(s),
    ensures
        forall|i: int| 0 <= i < s.len() && (#[trigger] s[i]).0 == k ==> entry::<K, T>(s, k) == Some(
            s[i].1,
        ),
        entry::<K, T>(s, k) matches Some(v) ==> exists|i: int|
            0 <= i < s.len() && #[trigger] s[i] == (k, v),
{
    place_parts::<K, T>(s, k, 0);
    let p = place::<K, T>(s, k, 0);
    assert forall|i: int| 0 <= i < s.len() && (#[trigger] s[i]).0 == k implies entry::<K, T>(s, k)
        == Some(s[i].1) by {
        K::order_laws(k, k, k);
        if i < p {
            assert(K::before(s[i].0, k));
        } else if p < i {
            assert(K::before(s[p].0, s[i].0));
        }
    }
    if p < s.len() && s[p].0 == k {
        assert(s[p] == (k, s[p].1));
    }
}

/// Setting a key keeps the table ascending, gives the key its value, and changes no other key.
pub proof fn setting_is_separate<K: SortKey, T>(s: Seq<(K::V, T)>, k: K::V, v: T, other: K::V)
    requires
        ascending::<K, T>(s),
    ensures
        ascending::<K, T>(with_entry::<K, T>(s, k, v)),
        entry::<K, T>(with_entry::<K, T>(s, k, v), k) == Some(v),
        other != k ==> entry::<K, T>(with_entry::<K, T>(s, k, v), other) == entry::<K, T>(s, other),
{
    let t = with_entry::<K, T>(s, k, v);
    place_parts::<K, T>(s, k, 0);
    let p = place::<K, T>(s, k, 0);
    assert(t[p] == (k, v));
    assert forall|i: int, j: int| 0 <= i < j < t.len() implies K::before(
        (#[trigger] t[i]).0,
        (#[trigger] t[j]).0,
    ) by {
        if p < s.len() && s[p].0 == k {
            assert(t[i].0 == s[i].0 && t[j].0 == s[j].0);
            assert(K::before(s[i].0, s[j].0));
        } else {
            let a = if i < p { i } else { i - 1 };
            let b = if j < p { j } else { j - 1 };
            if i == p {
                assert(t[j] == s[b]);
                K::order_laws(k, s[p].0, s[b].0);
                if b > p {
                    assert(K::before(s[p].0, s[b].0));
                }
            } else if j == p {
                assert(t[i] == s[a]);
            } else {
                assert(t[i] == s[a] && t[j] == s[b]);
                assert(K::before(s[a].0, s[b].0));
            }
        }
    }
    lookup_is_complete::<K, T>(t, k);
    if other != k {
        lookup_is_complete::<K, T>(s, other);
        lookup_is_complete::<K, T>(t, other);
        match entry::<K, T>(s, other) {
            Some(w) => {
                let i = choose|i: int| 0 <= i < s.len() && #[trigger] s[i] == (other, w);
                let j = if p < s.len() && s[p].0 == k { i } else if i < p { i } else { i + 1 };
                assert(t[j] == s[i]);
            },
            None => {
                if entry::<K, T>(t, other) is Some {
                    let w = entry::<K, T>(t, other)->0;
                    let j = choose|j: int| 0 <= j < t.len() && #[trigger] t[j] == (other, w);
                    let i = if p < s.len() && s[p].0 == k { j } else if j < p { j } else { j - 1 };
                    assert(s[i] == t[j]);
                }
            },
        }
    }
}

/// A table of pairs is ascending.
pub proof fn tables_ascend<K: SortKey, T>(s: Seq<(K::V, T)>, entries: Seq<(K::V, T)>)
    requires
        ascending::<K, T>(s),
    ensures
        ascending::<K, T>(with_entries::<K, T>(s, entries)),
    decreases entries.len(),
{
    if entries.len() > 0 {
        tables_ascend::<K, T>(s, entries.drop_last());
        let (k, v) = entries.last();
        setting_is_separate::<K, T>(with_entries::<K, T>(s, entries.drop_last()), k, v, k);
    }
}

/// A table ordered by key, with one value for each key.
#[derive(Debug)]
pub struct Table<K: SortKey, T: DeepView> {
    entries: Vec<(K, T)>,
}

impl<K: SortKey, T: DeepView> DeepView for Table<K, T> {
    type V = Seq<(K::V, T::V)>;

    closed spec fn deep_view(&self) -> Seq<(K::V, T::V)> {
        Seq::new(
            self.entries@.len(),
            |i: int| (self.entries@[i].0.deep_view(), self.entries@[i].1.deep_view()),
        )
    }
}

impl<K: SortKey, T: DeepView> Table<K, T> {
    #[verifier::type_invariant]
    spec fn in_order(self) -> bool {
        forall|i: int, j: int|
            0 <= i < j < self.entries@.len() ==> K::before(
                (#[trigger] self.entries@[i]).0.deep_view(),
                (#[trigger] self.entries@[j]).0.deep_view(),
            )
    }

    pub fn new() -> (r: Table<K, T>)
        ensures
            r.deep_view() == Seq::<(K::V, T::V)>::empty(),
    {
        let r = Table { entries: Vec::new() };
        assert(r.deep_view() =~= Seq::<(K::V, T::V)>::empty());
        r
    }

    /// The keys stand in ascending order.
    pub fn know_ascending(&self)
        ensures
            ascending::<K, T::V>(self.deep_view()),
    {
        proof {
            use_type_invariant(self);
            let s = self.deep_view();
            assert forall|i: int, j: int| 0 <= i < j < s.len() implies K::before(
                (#[trigger] s[i]).0,
                (#[trigger] s[j]).0,
            ) by {
                assert(K::before(self.entries@[i].0.deep_view(), self.entries@[j].0.deep_view()));
            }
        }
    }

    /// Where the key stands or would stand, by halving.
    fn seek(&self, key: &K) -> (r: usize)
        ensures
            r == place::<K, T::V>(self.deep_view(), key.deep_view(), 0),
            r <= self.entries@.len(),
    {
        proof {
            use_type_invariant(self);
        }
        let ghost k = key.deep_view();
        let mut low: usize = 0;
        let mut high: usize = self.entries.len();
        while low < high
            invariant
                self.in_order(),
                k == key.deep_view(),
                low <= high <= self.entries@.len(),
                forall|j: int|
                    0 <= j < low ==> K::before((#[trigger] self.entries@[j]).0.deep_view(), k),
                forall|j: int|
                    high <= j < self.entries@.len() ==> !K::before(
                        (#[trigger] self.entries@[j]).0.deep_view(),
                        k,
                    ),
            decreases high - low,
        {
            let mid: usize = low + (high - low) / 2;
            let ghost m = self.entries@[mid as int].0.deep_view();
            match self.entries[mid].0.compare(key) {
                Order::Less => {
                    assert forall|j: int| 0 <= j < mid + 1 implies K::before(
                        (#[trigger] self.entries@[j]).0.deep_view(),
                        k,
                    ) by {
                        if j < mid {
                            K::order_laws(self.entries@[j].0.deep_view(), m, k);
                        }
                    }
                    low = mid + 1;
                },
                _ => {
                    assert forall|j: int| mid <= j < self.entries@.len() implies !K::before(
                        (#[trigger] self.entries@[j]).0.deep_view(),
                        k,
                    ) by {
                        K::order_laws(m, self.entries@[j].0.deep_view(), k);
                        K::order_laws(m, k, m);
                    }
                    high = mid;
                },
            }
        }
        proof {
            let s = self.deep_view();
            assert forall|j: int| 0 <= j < low implies K::before((#[trigger] s[j]).0, k) by {
                assert(K::before(self.entries@[j].0.deep_view(), k));
            }
            place_is::<K, T::V>(s, k, low as int);
        }
        low
    }

    /// The value of a key.
    pub fn get(&self, key: &K) -> (r: Option<&T>)
        ensures
            r.deep_view() == entry::<K, T::V>(self.deep_view(), key.deep_view()),
    {
        let p: usize = self.seek(key);
        if p < self.entries.len() {
            match self.entries[p].0.compare(key) {
                Order::Equal => Some(&self.entries[p].1),
                _ => None,
            }
        } else {
            None
        }
    }

    /// Whether a key has a value.
    pub fn contains_key(&self, key: &K) -> (r: bool)
        ensures
            r == (entry::<K, T::V>(self.deep_view(), key.deep_view()) is Some),
    {
        self.get(key).is_some()
    }

    /// The table with the key's value set.
    pub fn with(self, key: K, value: T) -> (r: Table<K, T>)
        ensures
            r.deep_view() == with_entry::<K, T::V>(
                self.deep_view(),
                key.deep_view(),
                value.deep_view(),
            ),
    {
        let p: usize = self.seek(&key);
        let ghost s = self.deep_view();
        let ghost k = key.deep_view();
        let ghost v = value.deep_view();
        proof {
            use_type_invariant(&self);
            place_parts::<K, T::V>(s, k, 0);
        }
        let mut same: bool = false;
        if p < self.entries.len() {
            match self.entries[p].0.compare(&key) {
                Order::Equal => {
                    same = true;
                },
                _ => {},
            }
        }
        let mut entries = self.entries;
        assert forall|j: int| 0 <= j < p implies K::before(
            (#[trigger] entries@[j]).0.deep_view(),
            k,
        ) by {
            assert(K::before(s[j].0, k));
        }
        if same {
            entries.set(p, (key, value));
        } else {
            assert forall|j: int| p <= j < entries@.len() implies K::before(
                k,
                (#[trigger] entries@[j]).0.deep_view(),
            ) by {
                let q = entries@[p as int].0.deep_view();
                assert(s[p as int].0 == q);
                K::order_laws(q, k, q);
                if j > p {
                    K::order_laws(k, q, entries@[j].0.deep_view());
                }
            }
            entries.insert(p, (key, value));
        }
        let r = Table { entries };
        assert(r.deep_view() =~= with_entry::<K, T::V>(s, k, v));
        r
    }

    /// The table without a key.
    pub fn without(self, key: &K) -> (r: Table<K, T>)
        ensures
            r.deep_view() == without_entry::<K, T::V>(self.deep_view(), key.deep_view()),
    {
        let p: usize = self.seek(key);
        let ghost s = self.deep_view();
        let ghost k = key.deep_view();
        proof {
            use_type_invariant(&self);
            place_parts::<K, T::V>(s, k, 0);
        }
        let mut same: bool = false;
        if p < self.entries.len() {
            match self.entries[p].0.compare(key) {
                Order::Equal => {
                    same = true;
                },
                _ => {},
            }
        }
        let mut entries = self.entries;
        if same {
            let ghost before = entries@;
            let _ = entries.remove(p);
            assert forall|i: int, j: int| 0 <= i < j < entries@.len() implies K::before(
                (#[trigger] entries@[i]).0.deep_view(),
                (#[trigger] entries@[j]).0.deep_view(),
            ) by {
                let x = if i < p {
                    i
                } else {
                    i + 1
                };
                let y = if j < p {
                    j
                } else {
                    j + 1
                };
                assert(K::before(before[x].0.deep_view(), before[y].0.deep_view()));
            }
        }
        let r = Table { entries };
        assert(r.deep_view() =~= without_entry::<K, T::V>(s, k));
        r
    }

    pub fn len(&self) -> (r: usize)
        ensures
            r == self.deep_view().len(),
    {
        self.entries.len()
    }

    /// The key at a place.
    pub fn key_at(&self, i: usize) -> (r: &K)
        requires
            i < self.deep_view().len(),
        ensures
            r.deep_view() == self.deep_view()[i as int].0,
    {
        &self.entries[i].0
    }

    /// The value at a place.
    pub fn value_at(&self, i: usize) -> (r: &T)
        requires
            i < self.deep_view().len(),
        ensures
            r.deep_view() == self.deep_view()[i as int].1,
    {
        &self.entries[i].1
    }
}

/// The value of a key in a table that is only a set of keys.
#[derive(Debug, Clone, Copy, PartialEq, Eq, Structural)]
pub struct Mark {}

impl DeepView for Mark {
    type V = Mark;

    open spec fn deep_view(&self) -> Mark {
        *self
    }
}

/// Values that can be copied whole.
pub trait Duplicate: DeepView + Sized {
    /// A copy of the value.
    fn duplicate(&self) -> (r: Self)
        ensures
            r.deep_view() == self.deep_view(),
    ;
}

impl Duplicate for i64 {
    fn duplicate(&self) -> (r: i64) {
        *self
    }
}

impl Duplicate for u64 {
    fn duplicate(&self) -> (r: u64) {
        *self
    }
}

impl Duplicate for Mark {
    fn duplicate(&self) -> (r: Mark) {
        *self
    }
}

impl Duplicate for String {
    fn duplicate(&self) -> (r: String) {
        self.clone()
    }
}

impl Duplicate for Vec<String> {
    fn duplicate(&self) -> (r: Vec<String>) {
        let mut out: Vec<String> = Vec::new();
        for i in 0..self.len()
            invariant
                out@.len() == i,
                forall|j: int| 0 <= j < i ==> (#[trigger] out@[j])@ == self@[j]@,
        {
            out.push(self[i].clone());
        }
        assert(out.deep_view() =~= self.deep_view());
        out
    }
}

impl<K: SortKey, T: Duplicate> Table<K, T> {
    /// A copy of the table.
    pub fn copied(&self) -> (r: Table<K, T>)
        ensures
            r.deep_view() == self.deep_view(),
    {
        proof {
            use_type_invariant(self);
        }
        let mut entries: Vec<(K, T)> = Vec::new();
        for i in 0..self.entries.len()
            invariant
                entries@.len() == i,
                forall|j: int|
                    0 <= j < i ==> (#[trigger] entries@[j]).0.deep_view()
                        == self.entries@[j].0.deep_view() && entries@[j].1.deep_view()
                        == self.entries@[j].1.deep_view(),
        {
            entries.push((self.entries[i].0.copied(), self.entries[i].1.duplicate()));
        }
        assert forall|i: int, j: int| 0 <= i < j < entries@.len() implies K::before(
            (#[trigger] entries@[i]).0.deep_view(),
            (#[trigger] entries@[j]).0.deep_view(),
        ) by {
            assert(K::before(self.entries@[i].0.deep_view(), self.entries@[j].0.deep_view()));
        }
        let r = Table { entries };
        assert(r.deep_view() =~= self.deep_view());
        r
    }

    /// The table with all entries of another set.
    pub fn with_all(self, more: &Table<K, T>) -> (r: Table<K, T>)
        ensures
            r.deep_view() == with_entries::<K, T::V>(self.deep_view(), more.deep_view()),
    {
        let ghost start = self.deep_view();
        let ghost m = more.deep_view();
        let mut out = self;
        let n: usize = more.len();
        assert(m.take(0) =~= Seq::empty());
        for i in 0..n
            invariant
                n == m.len(),
                m == more.deep_view(),
                out.deep_view() == with_entries::<K, T::V>(start, m.take(i as int)),
        {
            assert(m.take(i + 1).drop_last() =~= m.take(i as int));
            assert(m.take(i + 1).last() == (m[i as int].0, m[i as int].1));
            out = out.with(more.key_at(i).copied(), more.value_at(i).duplicate());
        }
        assert(m.take(n as int) =~= m);
        out
    }
}

/// A key behind all others is added last.
pub proof fn appending<K: SortKey, T>(s: Seq<(K::V, T)>, k: K::V, v: T)
    requires
        forall|i: int| 0 <= i < s.len() ==> K::before((#[trigger] s[i]).0, k),
    ensures
        with_entry::<K, T>(s, k, v) == s.push((k, v)),
{
    place_is::<K, T>(s, k, s.len() as int);
    assert(s.insert(s.len() as int, (k, v)) =~= s.push((k, v)));
}

/// After setting all entries of an ascending table, each of its keys has its value, and every
/// other key the value that it had.
pub proof fn setting_all<K: SortKey, T>(s: Seq<(K::V, T)>, more: Seq<(K::V, T)>, k: K::V)
    requires
        ascending::<K, T>(s),
        ascending::<K, T>(more),
    ensures
        ascending::<K, T>(with_entries::<K, T>(s, more)),
        entry::<K, T>(with_entries::<K, T>(s, more), k) == match entry::<K, T>(more, k) {
            Some(v) => Some(v),
            None => entry::<K, T>(s, k),
        },
    decreases more.len(),
{
    tables_ascend::<K, T>(s, more);
    lookup_is_complete::<K, T>(more, k);
    if more.len() > 0 {
        let init = more.drop_last();
        let (lk, lv) = more.last();
        assert(ascending::<K, T>(init)) by {
            assert forall|i: int, j: int| 0 <= i < j < init.len() implies K::before(
                (#[trigger] init[i]).0,
                (#[trigger] init[j]).0,
            ) by {
                assert(K::before(more[i].0, more[j].0));
            }
        }
        setting_all::<K, T>(s, init, k);
        lookup_is_complete::<K, T>(init, k);
        setting_is_separate::<K, T>(with_entries::<K, T>(s, init), lk, lv, k);
        if k == lk {
            assert(more[more.len() - 1] == (k, lv));
        } else {
            match entry::<K, T>(init, k) {
                Some(v) => {
                    let i = choose|i: int| 0 <= i < init.len() && #[trigger] init[i] == (k, v);
                    assert(more[i] == (k, v));
                },
                None => {
                    if entry::<K, T>(more, k) is Some {
                        let v = entry::<K, T>(more, k)->0;
                        let i = choose|i: int| 0 <= i < more.len() && #[trigger] more[i] == (k, v);
                        assert(init[i] == (k, v));
                    }
                },
            }
        }
    }
}

/// Removing a key keeps the table ascending, takes the key's value away, and changes no other key.
pub proof fn removing_is_separate<K: SortKey, T>(s: Seq<(K::V, T)>, k: K::V, other: K::V)
    requires
        ascending::<K, T>(s),
    ensures
        ascending::<K, T>(without_entry::<K, T>(s, k)),
        entry::<K, T>(without_entry::<K, T>(s, k), k) is None,
        other != k ==> entry::<K, T>(without_entry::<K, T>(s, k), other) == entry::<K, T>(s, other),
{
    let t = without_entry::<K, T>(s, k);
    let p = place::<K, T>(s, k, 0);
    place_parts::<K, T>(s, k, 0);
    assert forall|i: int, j: int| 0 <= i < j < t.len() implies K::before(
        (#[trigger] t[i]).0,
        (#[trigger] t[j]).0,
    ) by {
        if t == s {
            assert(K::before(s[i].0, s[j].0));
        } else {
            let x = if i < p {
                i
            } else {
                i + 1
            };
            let y = if j < p {
                j
            } else {
                j + 1
            };
            assert(K::before(s[x].0, s[y].0));
        }
    }
    lookup_is_complete::<K, T>(s, k);
    lookup_is_complete::<K, T>(t, k);
    lookup_is_complete::<K, T>(s, other);
    lookup_is_complete::<K, T>(t, other);
    K::order_laws(k, k, k);
    if p < s.len() && s[p].0 == k {
        if entry::<K, T>(t, k) is Some {
            let v = entry::<K, T>(t, k)->0;
            let j = choose|j: int| 0 <= j < t.len() && #[trigger] t[j] == (k, v);
            if j < p {
                assert(K::before(s[j].0, s[p].0));
            } else {
                assert(t[j] == s[j + 1]);
                assert(K::before(s[p].0, s[j + 1].0));
            }
        }
        if other != k {
            if entry::<K, T>(s, other) is Some {
                let v = entry::<K, T>(s, other)->0;
                let i = choose|i: int| 0 <= i < s.len() && #[trigger] s[i] == (other, v);
                let j = if i < p {
                    i
                } else {
                    i - 1
                };
                assert(t[j] == s[i]);
            }
            if entry::<K, T>(t, other) is Some {
                let v = entry::<K, T>(t, other)->0;
                let j = choose|j: int| 0 <= j < t.len() && #[trigger] t[j] == (other, v);
                let i = if j < p {
                    j
                } else {
                    j + 1
                };
                assert(s[i] == t[j]);
            }
        }
    }
}

/// Two tables with the same value for every key are the same.
pub proof fn tables_equal<K: SortKey, T>(a: Seq<(K::V, T)>, b: Seq<(K::V, T)>)
    requires
        ascending::<K, T>(a),
        ascending::<K, T>(b),
        forall|k: K::V| #[trigger] entry::<K, T>(a, k) == entry::<K, T>(b, k),
    ensures
        a == b,
    decreases a.len(),
{
    if a.len() == 0 {
        if b.len() > 0 {
            lookup_is_complete::<K, T>(b, b[0].0);
            assert(entry::<K, T>(a, b[0].0) == entry::<K, T>(b, b[0].0));
        }
        assert(a =~= b);
    } else if b.len() == 0 {
        lookup_is_complete::<K, T>(a, a[0].0);
        assert(entry::<K, T>(a, a[0].0) == entry::<K, T>(b, a[0].0));
    } else {
        let x = a.last();
        let y = b.last();
        lookup_is_complete::<K, T>(a, x.0);
        lookup_is_complete::<K, T>(b, x.0);
        lookup_is_complete::<K, T>(a, y.0);
        lookup_is_complete::<K, T>(b, y.0);
        assert(a[a.len() - 1] == x);
        assert(b[b.len() - 1] == y);
        assert(entry::<K, T>(a, x.0) == entry::<K, T>(b, x.0));
        assert(entry::<K, T>(a, y.0) == entry::<K, T>(b, y.0));
        assert(x.0 == y.0) by {
            let j = choose|j: int| 0 <= j < b.len() && #[trigger] b[j] == (x.0, x.1);
            let i = choose|i: int| 0 <= i < a.len() && #[trigger] a[i] == (y.0, y.1);
            if x.0 != y.0 {
                assert(K::before(b[j].0, b[b.len() - 1].0));
                assert(K::before(a[i].0, a[a.len() - 1].0));
                K::order_laws(x.0, y.0, x.0);
            }
        }
        let c = a.drop_last();
        let d = b.drop_last();
        assert forall|i: int, j: int| 0 <= i < j < c.len() implies K::before(
            (#[trigger] c[i]).0,
            (#[trigger] c[j]).0,
        ) by {
            assert(K::before(a[i].0, a[j].0));
        }
        assert forall|i: int, j: int| 0 <= i < j < d.len() implies K::before(
            (#[trigger] d[i]).0,
            (#[trigger] d[j]).0,
        ) by {
            assert(K::before(b[i].0, b[j].0));
        }
        assert forall|k: K::V| #[trigger] entry::<K, T>(c, k) == entry::<K, T>(d, k) by {
            shorter_lookup::<K, T>(a, k);
            shorter_lookup::<K, T>(b, k);
            assert(entry::<K, T>(a, k) == entry::<K, T>(b, k));
        }
        tables_equal::<K, T>(c, d);
        assert(a =~= c.push(x));
        assert(b =~= d.push(y));
    }
}

/// Without its last entry a table has every other key.
proof fn shorter_lookup<K: SortKey, T>(s: Seq<(K::V, T)>, k: K::V)
    requires
        ascending::<K, T>(s),
        s.len() > 0,
    ensures
        entry::<K, T>(s.drop_last(), k) == if k == s.last().0 {
            None
        } else {
            entry::<K, T>(s, k)
        },
{
    let t = s.drop_last();
    assert forall|i: int, j: int| 0 <= i < j < t.len() implies K::before(
        (#[trigger] t[i]).0,
        (#[trigger] t[j]).0,
    ) by {
        assert(K::before(s[i].0, s[j].0));
    }
    lookup_is_complete::<K, T>(s, k);
    lookup_is_complete::<K, T>(t, k);
    if entry::<K, T>(t, k) is Some {
        let v = entry::<K, T>(t, k)->0;
        let i = choose|i: int| 0 <= i < t.len() && #[trigger] t[i] == (k, v);
        assert(s[i] == (k, v));
        assert(K::before(s[i].0, s[s.len() - 1].0));
        K::order_laws(k, k, k);
    }
    if entry::<K, T>(s, k) is Some && k != s.last().0 {
        let v = entry::<K, T>(s, k)->0;
        let i = choose|i: int| 0 <= i < s.len() && #[trigger] s[i] == (k, v);
        assert(t[i] == (k, v));
    }
}

/// A sum that wraps around as machine words do.
pub open spec fn wrapped(a: u64, b: u64) -> u64 {
    ((a + b) % 0x1_0000_0000_0000_0000) as u64
}

/// The count of a key; zero where it was never counted.
pub open spec fn count_of<K: SortKey>(s: Seq<(K::V, u64)>, k: K::V) -> u64 {
    match entry::<K, u64>(s, k) {
        Some(n) => n,
        None => 0,
    }
}

/// The counters after `n` more of a key.
pub open spec fn bumped<K: SortKey>(s: Seq<(K::V, u64)>, k: K::V, n: u64) -> Seq<(K::V, u64)> {
    with_entry::<K, u64>(s, k, wrapped(count_of::<K>(s, k), n))
}

/// Counting one key adds to its count and leaves every other alone.
pub proof fn counting_is_separate<K: SortKey>(s: Seq<(K::V, u64)>, k: K::V, n: u64, other: K::V)
    requires
        ascending::<K, u64>(s),
    ensures
        ascending::<K, u64>(bumped::<K>(s, k, n)),
        count_of::<K>(bumped::<K>(s, k, n), k) == wrapped(count_of::<K>(s, k), n),
        other != k ==> count_of::<K>(bumped::<K>(s, k, n), other) == count_of::<K>(s, other),
{
    setting_is_separate::<K, u64>(s, k, wrapped(count_of::<K>(s, k), n), other);
}

impl<K: SortKey> Table<K, u64> {
    /// Counts `n` more of a key.
    pub fn bump(self, key: K, n: u64) -> (r: Table<K, u64>)
        ensures
            r.deep_view() == bumped::<K>(self.deep_view(), key.deep_view(), n),
    {
        let now: u64 = match self.get(&key) {
            Some(c) => *c,
            None => 0,
        };
        self.with(key, now.wrapping_add(n))
    }
}

/// Counts `n` more of a key, in place.
pub fn count_in<K: SortKey>(table: &mut Table<K, u64>, key: K, n: u64)
    ensures
        final(table).deep_view() == bumped::<K>(old(table).deep_view(), key.deep_view(), n),
{
    let mut taken: Table<K, u64> = Table::new();
    std::mem::swap(table, &mut taken);
    *table = taken.bump(key, n);
}

/// Sets the value of a key, in place.
pub fn set_in<K: SortKey, T: DeepView>(table: &mut Table<K, T>, key: K, value: T)
    ensures
        final(table).deep_view() == with_entry::<K, T::V>(
            old(table).deep_view(),
            key.deep_view(),
            value.deep_view(),
        ),
{
    let mut taken: Table<K, T> = Table::new();
    std::mem::swap(table, &mut taken);
    *table = taken.with(key, value);
}

} // verus!
