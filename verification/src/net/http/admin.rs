//! Authenticating the admin surface.
//!
//! A request that presents the token is never refused. Failures are counted per source and over
//! all of them, and past a limit they are answered differently; the table of sources is bounded.
//!
//! Times are milliseconds of a monotonic clock that the caller reads.

use crate::net::http::response::{bare_answer, Answer, Response};
use crate::net::metrics::{record_auth_failure, record_auth_rate_limited, Counters, Metrics};
use crate::table::{
    appending, ascending, entry, in_order, lookup_is_complete, place_parts, set_in, setting_is_separate, with_entry,
    wrapped, SortKey, Table,
};
use crate::text::{chars_of, text_of, trim, trim_text};
use vstd::prelude::*;

verus! {

/// Failures that one source is allowed in a window.
pub const FAILURE_LIMIT: u32 = 10;

/// The length of a window in milliseconds.
pub const FAILURE_WINDOW_MS: u64 = 60_000;

/// Failures that all sources together are allowed in a window.
pub const FLOOD_LIMIT: u32 = 500;

/// How many sources are tracked at once.
pub const MAX_SOURCES: usize = 1024;

/// The address of a peer: whether it is of the long form, and its bits.
pub type Source = (bool, u128);

/// Failures counted since a time.
#[derive(Debug, Clone, Copy, PartialEq, Eq, Structural)]
pub struct Window {
    pub count: u32,
    pub started: u64,
}

impl DeepView for Window {
    type V = Window;

    open spec fn deep_view(&self) -> Window {
        *self
    }
}

/// Whether a window is over.
pub open spec fn over(w: Window, now: u64) -> bool {
    now - w.started >= FAILURE_WINDOW_MS
}

/// The window with one failure more; one that is over starts anew.
pub open spec fn counted(w: Window, now: u64) -> Window {
    if over(w, now) {
        Window { count: 1, started: now }
    } else {
        Window {
            count: if w.count == u32::MAX {
                u32::MAX
            } else {
                (w.count + 1) as u32
            },
            started: w.started,
        }
    }
}

impl Window {
    pub fn new(now: u64) -> (r: Window)
        ensures
            r == (Window { count: 0, started: now }),
    {
        Window { count: 0, started: now }
    }

    fn expired(&self, now: u64) -> (r: bool)
        ensures
            r == over(*self, now),
    {
        now >= self.started && now - self.started >= FAILURE_WINDOW_MS
    }

    /// The window with one failure more.
    fn recorded(&self, now: u64) -> (r: Window)
        ensures
            r == counted(*self, now),
    {
        if self.expired(now) {
            Window { count: 1, started: now }
        } else {
            Window { count: self.count.saturating_add(1), started: self.started }
        }
    }
}

/// Whether a request may proceed.
#[derive(Debug)]
pub enum Auth {
    Passed,
    /// Answer with this and go no further.
    Refused(Response),
}

/// The token, and the failures that were counted.
#[derive(Debug)]
pub struct Admin {
    pub token: String,
    pub by_source: Table<Source, Window>,
    pub total: Window,
}

/// The model of the failures that were counted.
pub struct Failures {
    pub by_source: Seq<(Source, Window)>,
    pub total: Window,
}

/// The windows that are not over.
pub open spec fn fresh(s: Seq<(Source, Window)>, now: u64) -> Seq<(Source, Window)> {
    s.filter(|e: (Source, Window)| !over(e.1, now))
}

/// The sources that are tracked when a failure of one of them is counted: those whose windows are
/// over make room where a new source finds the table full.
pub open spec fn kept_sources(s: Seq<(Source, Window)>, source: Source, now: u64) -> Seq<
    (Source, Window),
> {
    if s.len() >= MAX_SOURCES && entry::<Source, Window>(s, source) is None {
        fresh(s, now)
    } else {
        s
    }
}

/// What is counted once one failure more is. A new source that finds the table still full is not
/// tracked.
pub open spec fn after_failure(f: Failures, source: Source, now: u64) -> Failures {
    let s = kept_sources(f.by_source, source, now);
    Failures {
        total: counted(f.total, now),
        by_source: match entry::<Source, Window>(s, source) {
            Some(w) => with_entry::<Source, Window>(s, source, counted(w, now)),
            None => if s.len() >= MAX_SOURCES {
                s
            } else {
                with_entry::<Source, Window>(
                    s,
                    source,
                    counted(Window { count: 0, started: now }, now),
                )
            },
        },
    }
}

/// The failures that a source has in its window once one more is counted; none where it is not
/// tracked.
pub open spec fn source_count(f: Failures, source: Source, now: u64) -> u32 {
    let s = kept_sources(f.by_source, source, now);
    match entry::<Source, Window>(s, source) {
        Some(w) => counted(w, now).count,
        None => if s.len() >= MAX_SOURCES {
            0
        } else {
            1
        },
    }
}

/// Whether one failure more is past a limit.
pub open spec fn past_limit(f: Failures, source: Source, now: u64) -> bool {
    source_count(f, source, now) > FAILURE_LIMIT || counted(f.total, now).count > FLOOD_LIMIT
}

/// A character in lower case, as far as it is ASCII.
pub open spec fn ascii_lower(c: char) -> char {
    if 'A' <= c <= 'Z' {
        (c as int + 32) as char
    } else {
        c
    }
}

/// Whether two texts are equal but for the case of ASCII letters.
pub open spec fn same_but_case(a: Seq<char>, b: Seq<char>) -> bool {
    a.len() == b.len() && forall|i: int|
        0 <= i < a.len() ==> ascii_lower(#[trigger] a[i]) == ascii_lower(b[i])
}

/// The first place from `i` on at which a blank stands, or the length.
pub open spec fn first_blank(s: Seq<char>, i: int) -> int
    decreases s.len() - i,
{
    if i >= s.len() || s[i] == ' ' {
        i
    } else {
        first_blank(s, i + 1)
    }
}

/// The credential of a header: what follows the scheme, trimmed.
pub open spec fn credential(header: Option<Seq<char>>) -> Option<Seq<char>> {
    match header {
        None => None,
        Some(h) => {
            let k = first_blank(h, 0);
            if k < h.len() && same_but_case(h.subrange(0, k), "Bearer"@) {
                Some(trim_text(h.subrange(k + 1, h.len() as int)))
            } else {
                None
            }
        },
    }
}

/// Whether a header presents the token.
pub open spec fn presents(header: Option<Seq<char>>, token: Seq<char>) -> bool {
    credential(header) == Some(token)
}

/// The answer to a wrong or missing token.
pub open spec fn unauthorized() -> Answer {
    Answer {
        extra: seq![("WWW-Authenticate"@, "Bearer"@)],
        ..bare_answer(401, "Unauthorized"@)
    }
}

/// The answer to a source that has failed too often.
pub open spec fn too_many() -> Answer {
    Answer { extra: seq![("Retry-After"@, "60"@)], ..bare_answer(429, "Too Many Requests"@) }
}

fn lower(c: char) -> (r: char)
    ensures
        r == ascii_lower(c),
{
    if 'A' <= c && c <= 'Z' {
        (c as u8 + 32) as char
    } else {
        c
    }
}

/// Whether `v[..k]` equals the text but for the case of ASCII letters.
fn matches_scheme(v: &Vec<char>, k: usize, scheme: &str) -> (r: bool)
    requires
        k <= v@.len(),
    ensures
        r == same_but_case(v@.subrange(0, k as int), scheme@),
{
    let s = chars_of(scheme);
    if s.len() != k {
        return false;
    }
    let ghost a = v@.subrange(0, k as int);
    for i in 0..k
        invariant
            k <= v@.len(),
            s@ == scheme@,
            s@.len() == k,
            a == v@.subrange(0, k as int),
            forall|j: int| 0 <= j < i ==> ascii_lower(#[trigger] a[j]) == ascii_lower(s@[j]),
    {
        assert(a[i as int] == v@[i as int]);
        if lower(v[i]) != lower(s[i]) {
            return false;
        }
    }
    true
}

/// The credential of a header.
fn supplied(header: Option<&str>) -> (r: Option<String>)
    ensures
        r.deep_view() == credential(header.deep_view()),
{
    let h = match header {
        Some(h) => h,
        None => {
            return None;
        },
    };
    let v = chars_of(h);
    let n: usize = v.len();
    let mut k: usize = 0;
    while k < n && v[k] != ' '
        invariant
            v@ == h@,
            n == v@.len(),
            k <= n,
            first_blank(h@, 0) == first_blank(h@, k as int),
        decreases n - k,
    {
        k += 1;
    }
    if k >= n || !matches_scheme(&v, k, "Bearer") {
        return None;
    }
    let rest = text_of(&v, k + 1, n);
    Some(trim(rest.as_str()))
}

/// Whether two texts are equal, looking at every character whatever differs.
fn equal_throughout(a: &str, b: &str) -> (r: bool)
    ensures
        r == (a@ == b@),
{
    let x = chars_of(a);
    let y = chars_of(b);
    if x.len() != y.len() {
        return false;
    }
    let mut same: bool = true;
    for i in 0..x.len()
        invariant
            x@.len() == y@.len(),
            same == (forall|j: int| 0 <= j < i ==> #[trigger] x@[j] == y@[j]),
    {
        if x[i] != y[i] {
            same = false;
        }
    }
    assert(same ==> x@ =~= y@);
    same
}

/// The windows that are not over.
fn keep_fresh(t: &Table<Source, Window>, now: u64) -> (r: Table<Source, Window>)
    ensures
        r.deep_view() == fresh(t.deep_view(), now),
{
    let ghost s = t.deep_view();
    let ghost p = |e: (Source, Window)| !over(e.1, now);
    t.know_ascending();
    let n: usize = t.len();
    let mut out: Table<Source, Window> = Table::new();
    proof {
        reveal(Seq::filter);
        assert(s.take(0).filter(p) =~= Seq::<(Source, Window)>::empty());
    }
    for i in 0..n
        invariant
            s == t.deep_view(),
            n == s.len(),
            ascending::<Source, Window>(s),
            p == (|e: (Source, Window)| !over(e.1, now)),
            out.deep_view() == s.take(i as int).filter(p),
    {
        proof {
            reveal(Seq::filter);
            assert(s.take(i + 1).drop_last() =~= s.take(i as int));
            kept_come_before(s, i as int, p);
        }
        let w = *t.value_at(i);
        if !w.expired(now) {
            let k = *t.key_at(i);
            proof {
                appending::<Source, Window>(out.deep_view(), k, w);
            }
            out = out.with(k, w);
        }
    }
    assert(s.take(n as int) =~= s);
    out
}

/// What is kept of the first entries stands before the next one.
proof fn kept_come_before(
    s: Seq<(Source, Window)>,
    i: int,
    p: spec_fn((Source, Window)) -> bool,
)
    requires
        ascending::<Source, Window>(s),
        0 <= i < s.len(),
    ensures
        forall|j: int|
            0 <= j < s.take(i).filter(p).len() ==> <Source as SortKey>::before(
                (#[trigger] s.take(i).filter(p)[j]).0,
                s[i].0,
            ),
{
    let f = s.take(i).filter(p);
    assert forall|j: int| 0 <= j < f.len() implies <Source as SortKey>::before(
        (#[trigger] f[j]).0,
        s[i].0,
    ) by {
        s.take(i).lemma_filter_contains_rev(p, f[j]);
        let k = choose|k: int| 0 <= k < s.take(i).len() && s.take(i)[k] == f[j];
        in_order::<Source, Window>(s, k, i);
    }
}

impl Admin {
    /// The failures that were counted.
    pub open spec fn failures(&self) -> Failures {
        Failures { by_source: self.by_source.deep_view(), total: self.total }
    }

    /// The table of sources is within its bound.
    pub open spec fn bounded(&self) -> bool {
        self.by_source.deep_view().len() <= MAX_SOURCES
    }

    /// None without a token, so that there is no admin surface at all.
    pub fn new(token: Option<String>, now: u64) -> (r: Option<Admin>)
        ensures
            r is Some <==> token is Some,
            r matches Some(a) ==> a.token@ == token->0@ && a.bounded()
                && a.by_source.deep_view().len() == 0 && a.total == (Window {
                count: 0,
                started: now,
            }),
    {
        match token {
            Some(token) => Some(
                Admin { token, by_source: Table::new(), total: Window::new(now) },
            ),
            None => None,
        }
    }

    /// Counts one failure, and says whether it is past a limit.
    fn record_failure(&mut self, source: Source, now: u64) -> (r: bool)
        requires
            old(self).bounded(),
        ensures
            r == past_limit(old(self).failures(), source, now),
            final(self).failures() == after_failure(old(self).failures(), source, now),
            final(self).token == old(self).token,
            final(self).bounded(),
    {
        let ghost f = self.failures();
        self.total = self.total.recorded(now);
        let flooding: bool = self.total.count > FLOOD_LIMIT;
        if self.by_source.len() >= MAX_SOURCES && !self.by_source.contains_key(&source) {
            self.by_source = keep_fresh(&self.by_source, now);
        }
        let ghost s = self.by_source.deep_view();
        assert(s == kept_sources(f.by_source, source, now));
        assert(s.len() <= f.by_source.len()) by {
            let p = |e: (Source, Window)| !over(e.1, now);
            f.by_source.lemma_filter_len(p);
            assert(f.by_source.filter(p) == fresh(f.by_source, now));
        }
        proof {
            place_parts::<Source, Window>(s, source, 0);
        }
        let full: bool = self.by_source.len() >= MAX_SOURCES;
        let known: Option<Window> = match self.by_source.get(&source) {
            Some(w) => Some(*w),
            None => None,
        };
        let mut count: u32 = 0;
        match known {
            Some(w) => {
                let next = w.recorded(now);
                count = next.count;
                set_in(&mut self.by_source, source, next);
            },
            None => {
                if !full {
                    let next = Window::new(now).recorded(now);
                    count = next.count;
                    set_in(&mut self.by_source, source, next);
                }
            },
        }
        count > FAILURE_LIMIT || flooding
    }

    /// Checks the authorization header of a request from a peer. A request that presents the
    /// token passes whatever was counted, and counts nothing.
    pub fn check(
        &mut self,
        header: Option<&str>,
        source: Source,
        now: u64,
        metrics: &mut Metrics,
    ) -> (r: Auth)
        requires
            old(self).bounded(),
        ensures
            final(self).token == old(self).token,
            final(self).bounded(),
            presents(header.deep_view(), old(self).token@) ==> r is Passed && final(self).failures()
                == old(self).failures() && final(metrics)@ == old(metrics)@,
            !presents(header.deep_view(), old(self).token@) ==> {
                &&& final(self).failures() == after_failure(old(self).failures(), source, now)
                &&& r matches Auth::Refused(a)
                &&& a@ == if past_limit(old(self).failures(), source, now) {
                    too_many()
                } else {
                    unauthorized()
                }
                &&& final(metrics)@ == (Counters {
                    unauthorized: wrapped(old(metrics)@.unauthorized, 1),
                    limited: if past_limit(old(self).failures(), source, now) {
                        wrapped(old(metrics)@.limited, 1)
                    } else {
                        old(metrics)@.limited
                    },
                    ..old(metrics)@
                })
            },
    {
        if self.holds_token(header) {
            return Auth::Passed;
        }
        record_auth_failure(metrics);
        if self.record_failure(source, now) {
            record_auth_rate_limited(metrics);
            let r = Response::status(429, "Too Many Requests").with_header(
                "Retry-After",
                "60".to_string(),
            );
            assert(r@ =~= too_many());
            return Auth::Refused(r);
        }
        Auth::Refused(Admin::refusal())
    }

    /// Whether a header presents the token.
    pub fn holds_token(&self, header: Option<&str>) -> (r: bool)
        ensures
            r == presents(header.deep_view(), self.token@),
    {
        match supplied(header) {
            Some(given) => equal_throughout(given.as_str(), self.token.as_str()),
            None => false,
        }
    }

    /// The answer to a wrong or missing token.
    pub fn refusal() -> (r: Response)
        ensures
            r@ == unauthorized(),
    {
        let r = Response::status(401, "Unauthorized").with_header(
            "WWW-Authenticate",
            "Bearer".to_string(),
        );
        assert(r@ =~= unauthorized());
        r
    }

    /// How many sources are tracked.
    pub fn tracked_sources(&self) -> (r: usize)
        ensures
            r == self.by_source.deep_view().len(),
    {
        self.by_source.len()
    }
}

/// What a source has once the windows that are over are dropped.
proof fn fresh_entry(s: Seq<(Source, Window)>, k: Source, now: u64)
    requires
        ascending::<Source, Window>(s),
    ensures
        ascending::<Source, Window>(fresh(s, now)),
        entry::<Source, Window>(fresh(s, now), k) == match entry::<Source, Window>(s, k) {
            Some(w) => if over(w, now) {
                None
            } else {
                Some(w)
            },
            None => None,
        },
{
    let p = |e: (Source, Window)| !over(e.1, now);
    let t = s.filter(p);
    assert(t == fresh(s, now));
    filter_ascends(s, p);
    lookup_is_complete::<Source, Window>(s, k);
    lookup_is_complete::<Source, Window>(t, k);
    if entry::<Source, Window>(s, k) is Some {
        let w = entry::<Source, Window>(s, k)->0;
        if !over(w, now) {
            let i = choose|i: int| 0 <= i < s.len() && #[trigger] s[i] == (k, w);
            s.lemma_filter_contains(p, i);
            let j = choose|j: int| 0 <= j < t.len() && t[j] == s[i];
            assert(t[j].0 == k);
        }
    }
    if entry::<Source, Window>(t, k) is Some {
        let w = entry::<Source, Window>(t, k)->0;
        let j = choose|j: int| 0 <= j < t.len() && #[trigger] t[j] == (k, w);
        s.lemma_filter_contains_rev(p, t[j]);
        s.lemma_filter_pred(p, j);
        let i = choose|i: int| 0 <= i < s.len() && s[i] == t[j];
        assert(s[i].0 == k);
    }
}

/// One source does not spend another's allowance: a failure of one leaves the window of another
/// as it was, unless that window is over.
pub proof fn sources_are_separate(f: Failures, source: Source, other: Source, now: u64)
    requires
        ascending::<Source, Window>(f.by_source),
        other != source,
        entry::<Source, Window>(f.by_source, other) matches Some(w) ==> !over(w, now),
    ensures
        entry::<Source, Window>(after_failure(f, source, now).by_source, other) == entry::<
            Source,
            Window,
        >(f.by_source, other),
{
    let t = kept_sources(f.by_source, source, now);
    fresh_entry(f.by_source, other, now);
    match entry::<Source, Window>(t, source) {
        Some(w) => {
            setting_is_separate::<Source, Window>(t, source, counted(w, now), other);
        },
        None => {
            setting_is_separate::<Source, Window>(
                t,
                source,
                counted(Window { count: 0, started: now }, now),
                other,
            );
        },
    }
}

/// What is kept of an ascending table ascends.
proof fn filter_ascends(s: Seq<(Source, Window)>, p: spec_fn((Source, Window)) -> bool)
    requires
        ascending::<Source, Window>(s),
    ensures
        ascending::<Source, Window>(s.filter(p)),
    decreases s.len(),
{
    reveal(Seq::filter);
    if s.len() > 0 {
        let t = s.drop_last();
        assert(ascending::<Source, Window>(t)) by {
            assert forall|i: int, j: int| 0 <= i < j < t.len() implies <Source as SortKey>::before(
                (#[trigger] t[i]).0,
                (#[trigger] t[j]).0,
            ) by {
                in_order::<Source, Window>(s, i, j);
            }
        }
        filter_ascends(t, p);
        assert(s.take(s.len() - 1) =~= t);
        kept_come_before(s, s.len() - 1, p);
    }
}

/// A source that keeps within its allowance is told that it is not authorized, not that it failed
/// too often, as long as all sources together keep within theirs.
pub proof fn a_first_failure_is_not_too_many(f: Failures, source: Source, now: u64)
    requires
        entry::<Source, Window>(f.by_source, source) matches Some(w) ==> w.count < FAILURE_LIMIT,
        f.total.count < FLOOD_LIMIT,
        ascending::<Source, Window>(f.by_source),
    ensures
        !past_limit(f, source, now),
{
    fresh_entry(f.by_source, source, now);
}

} // verus!
