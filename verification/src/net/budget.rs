//! The outbound memory budget.
//!
//! What is queued is bounded by a global cap in bytes with a share per connection. A
//! connection that cannot keep up is dropped, never a frame. A single message larger than the
//! share is admitted to a connection that is not behind, and does not count against the share
//! of what queues up behind it.
//!
//! Times are milliseconds of a monotonic clock that the caller reads.

use vstd::prelude::*;

verus! {

/// Milliseconds that a connection may hold a backlog without a byte of it reaching its socket
/// before it is judged to have stopped draining.
pub const STALL_DEADLINE_MS: u64 = 120_000;

/// What is queued for every connection together.
#[derive(Debug, Clone, Copy, PartialEq, Eq, Structural)]
pub struct Ledger {
    pub queued: usize,
    pub peak: usize,
}

impl Ledger {
    pub fn new() -> (r: Ledger)
        ensures
            r == (Ledger { queued: 0, peak: 0 }),
    {
        Ledger { queued: 0, peak: 0 }
    }
}

/// Bytes that sit in outbound queues across every connection.
pub fn queued_bytes(ledger: &Ledger) -> (r: usize)
    ensures
        r == ledger.queued,
{
    ledger.queued
}

/// The most that was ever queued at once.
pub fn peak_bytes(ledger: &Ledger) -> (r: usize)
    ensures
        r == ledger.peak,
{
    ledger.peak
}

/// Why a reservation was refused.
#[derive(Debug, Clone, Copy, PartialEq, Eq, Structural)]
pub enum Refused {
    /// The connection holds a full share of ordinary traffic.
    Share { counted: usize, size: usize, share: usize },
    /// The room as a whole is out of outbound budget.
    RoomBudget { queued: usize, size: usize, limit: usize },
    /// The connection has held a backlog without draining any of it.
    Stalled { stalled_ms: u64, deadline_ms: u64 },
}

impl Refused {
    pub fn as_text(self) -> (r: &'static str)
        ensures
            r@ == match self {
                Refused::Share { .. } => "over its own share"@,
                Refused::RoomBudget { .. } => "the room is out of outbound budget"@,
                Refused::Stalled { .. } => "it has not drained anything in two minutes"@,
            },
    {
        match self {
            Refused::Share { .. } => "over its own share",
            Refused::RoomBudget { .. } => "the room is out of outbound budget",
            Refused::Stalled { .. } => "it has not drained anything in two minutes",
        }
    }
}

/// One connection's account.
#[derive(Debug, Clone, Copy, PartialEq, Eq, Structural)]
pub struct ConnBudget {
    pub queued: usize,
    /// Bytes admitted above the share, which are not counted against it.
    pub oversize: usize,
    /// When bytes last reached the socket.
    pub last_progress: u64,
}

impl ConnBudget {
    /// A connection starts having just made progress.
    pub fn new(now: u64) -> (r: ConnBudget)
        ensures
            r == (ConnBudget { queued: 0, oversize: 0, last_progress: now }),
    {
        ConnBudget { queued: 0, oversize: 0, last_progress: now }
    }

    /// Records that bytes reached the socket.
    pub fn made_progress(&mut self, now: u64)
        ensures
            *final(self) == (ConnBudget { last_progress: now, ..*old(self) }),
    {
        self.last_progress = now;
    }

    /// How long a backlog has been held without draining any of it.
    pub open spec fn stall(&self, now: u64) -> Option<u64> {
        if self.queued == 0 {
            None
        } else if now < self.last_progress {
            Some(0u64)
        } else {
            Some((now - self.last_progress) as u64)
        }
    }

    /// How long a backlog has been held without draining any of it; `None` where nothing is
    /// queued.
    pub fn stalled_for(&self, now: u64) -> (r: Option<u64>)
        ensures
            r == self.stall(now),
    {
        if self.queued == 0 {
            return None;
        }
        Some(now.saturating_sub(self.last_progress))
    }

    /// What counts against the share: the queue without what was admitted above it.
    pub open spec fn counted(&self) -> usize {
        if self.oversize >= self.queued {
            0
        } else {
            (self.queued - self.oversize) as usize
        }
    }
}

/// A sum that wraps around as machine words do.
pub open spec fn wrapped_sum(a: usize, b: usize) -> usize {
    if a + b > usize::MAX {
        (a + b - usize::MAX - 1) as usize
    } else {
        (a + b) as usize
    }
}

/// The limits of a room.
#[derive(Debug, Clone, Copy, PartialEq, Eq, Structural)]
pub struct Budget {
    pub limit: usize,
    pub per_connection: usize,
}

impl Budget {
    pub fn new(limit: usize, per_connection: usize) -> (r: Budget)
        ensures
            r == (Budget { limit, per_connection }),
    {
        Budget { limit, per_connection }
    }

    /// Whether a message takes the allowance: it is larger than the share, and the connection
    /// has some of its share left.
    pub open spec fn oversized(&self, conn: ConnBudget, size: usize) -> bool {
        size > self.per_connection && conn.counted() < self.per_connection
    }

    /// Why a reservation is refused, if it is.
    pub open spec fn refusal(&self, ledger: Ledger, conn: ConnBudget, size: usize, now: u64) -> Option<
        Refused,
    > {
        if conn.stall(now) matches Some(ms) && ms > STALL_DEADLINE_MS {
            Some(
                Refused::Stalled {
                    stalled_ms: conn.stall(now)->0,
                    deadline_ms: STALL_DEADLINE_MS,
                },
            )
        } else if !self.oversized(conn, size) && conn.counted() + size > self.per_connection {
            Some(Refused::Share { counted: conn.counted(), size, share: self.per_connection })
        } else if ledger.queued + size > self.limit {
            Some(Refused::RoomBudget { queued: ledger.queued, size, limit: self.limit })
        } else {
            None
        }
    }

    /// The ledger once `size` bytes are reserved.
    pub open spec fn ledger_with(ledger: Ledger, size: usize) -> Ledger {
        let total = (ledger.queued + size) as usize;
        Ledger {
            queued: total,
            peak: if total > ledger.peak {
                total
            } else {
                ledger.peak
            },
        }
    }

    /// The connection once `size` bytes are reserved.
    pub open spec fn conn_with(&self, conn: ConnBudget, size: usize) -> ConnBudget {
        ConnBudget {
            queued: (conn.queued + size) as usize,
            oversize: if self.oversized(conn, size) {
                wrapped_sum(conn.oversize, size)
            } else {
                conn.oversize
            },
            last_progress: conn.last_progress,
        }
    }

    /// Claims room for a frame, or says why it is refused; a refusal changes nothing.
    pub fn reserve_reported(
        &self,
        ledger: &mut Ledger,
        conn: &mut ConnBudget,
        size: usize,
        now: u64,
    ) -> (r: Result<(), Refused>)
        requires
            old(conn).queued <= old(ledger).queued,
        ensures
            match self.refusal(*old(ledger), *old(conn), size, now) {
                Some(why) => r == Err::<(), Refused>(why) && *final(ledger) == *old(ledger)
                    && *final(conn) == *old(conn),
                None => r is Ok && *final(ledger) == Budget::ledger_with(*old(ledger), size)
                    && *final(conn) == self.conn_with(*old(conn), size),
            },
            final(conn).queued <= final(ledger).queued,
    {
        let counted: usize = conn.queued.saturating_sub(conn.oversize);
        if let Some(stalled) = conn.stalled_for(now) {
            if stalled > STALL_DEADLINE_MS {
                return Err(
                    Refused::Stalled { stalled_ms: stalled, deadline_ms: STALL_DEADLINE_MS },
                );
            }
        }
        let share: usize = self.per_connection;
        let oversized: bool = size > share && counted < share;
        if !oversized && (counted > share || size > share - counted) {
            return Err(Refused::Share { counted, size, share });
        }
        if ledger.queued > self.limit || size > self.limit - ledger.queued {
            return Err(Refused::RoomBudget { queued: ledger.queued, size, limit: self.limit });
        }
        let total: usize = ledger.queued + size;
        ledger.queued = total;
        if total > ledger.peak {
            ledger.peak = total;
        }
        conn.queued = conn.queued + size;
        if oversized {
            conn.oversize = conn.oversize.wrapping_add(size);
        }
        Ok(())
    }

    /// Claims room for a frame, or reports that the connection is too far behind.
    pub fn reserve(
        &self,
        ledger: &mut Ledger,
        conn: &mut ConnBudget,
        size: usize,
        now: u64,
    ) -> (r: bool)
        requires
            old(conn).queued <= old(ledger).queued,
        ensures
            r == (self.refusal(*old(ledger), *old(conn), size, now) is None),
            r ==> *final(ledger) == Budget::ledger_with(*old(ledger), size) && *final(conn)
                == self.conn_with(*old(conn), size),
            !r ==> *final(ledger) == *old(ledger) && *final(conn) == *old(conn),
            final(conn).queued <= final(ledger).queued,
    {
        self.reserve_reported(ledger, conn, size, now).is_ok()
    }

    /// What releasing `size` bytes frees: never more than the connection holds.
    pub open spec fn freed(conn: ConnBudget, size: usize) -> usize {
        if size < conn.queued {
            size
        } else {
            conn.queued
        }
    }

    /// The connection once `size` bytes are released.
    pub open spec fn conn_released(conn: ConnBudget, size: usize, now: u64) -> ConnBudget {
        let freed = Budget::freed(conn, size);
        ConnBudget {
            queued: (conn.queued - freed) as usize,
            oversize: if conn.queued == freed {
                0
            } else {
                conn.oversize
            },
            last_progress: if freed > 0 {
                now
            } else {
                conn.last_progress
            },
        }
    }

    /// Gives room back once the bytes have reached the socket: what the connection gives back,
    /// never what the caller asks to give back. The allowance is cleared only when the
    /// connection is empty.
    pub fn release(ledger: &mut Ledger, conn: &mut ConnBudget, size: usize, now: u64)
        requires
            old(conn).queued <= old(ledger).queued,
        ensures
            *final(conn) == Budget::conn_released(*old(conn), size, now),
            *final(ledger) == (Ledger {
                queued: (old(ledger).queued - Budget::freed(*old(conn), size)) as usize,
                peak: old(ledger).peak,
            }),
    {
        let freed: usize = if size < conn.queued {
            size
        } else {
            conn.queued
        };
        conn.queued = conn.queued - freed;
        ledger.queued = ledger.queued - freed;
        if freed > 0 {
            conn.made_progress(now);
        }
        if conn.queued == 0 {
            conn.oversize = 0;
        }
    }

    /// Releases everything a connection still holds, when it goes away without draining.
    pub fn release_all(ledger: &mut Ledger, conn: &mut ConnBudget)
        requires
            old(conn).queued <= old(ledger).queued,
        ensures
            *final(conn) == (ConnBudget { queued: 0, oversize: 0, ..*old(conn) }),
            *final(ledger) == (Ledger {
                queued: (old(ledger).queued - old(conn).queued) as usize,
                peak: old(ledger).peak,
            }),
    {
        ledger.queued = ledger.queued - conn.queued;
        conn.queued = 0;
        conn.oversize = 0;
    }
}

/// What all connections hold together.
pub open spec fn held(conns: Seq<ConnBudget>) -> int
    decreases conns.len(),
{
    if conns.len() == 0 {
        0
    } else {
        held(conns.drop_last()) + conns.last().queued
    }
}

/// Changing one connection changes the sum by its difference, and none holds more than all.
pub proof fn held_update(conns: Seq<ConnBudget>, i: int, c: ConnBudget)
    requires
        0 <= i < conns.len(),
    ensures
        held(conns.update(i, c)) == held(conns) - conns[i].queued + c.queued,
        conns[i].queued <= held(conns),
        0 <= held(conns.drop_last()),
    decreases conns.len(),
{
    held_not_negative(conns.drop_last());
    if i == conns.len() - 1 {
        assert(conns.update(i, c).drop_last() =~= conns.drop_last());
    } else {
        held_update(conns.drop_last(), i, c);
        assert(conns.update(i, c).drop_last() =~= conns.drop_last().update(i, c));
    }
}

/// What connections hold together is not negative.
pub proof fn held_not_negative(conns: Seq<ConnBudget>)
    ensures
        held(conns) >= 0,
    decreases conns.len(),
{
    if conns.len() > 0 {
        held_not_negative(conns.drop_last());
    }
}

/// The ledger is conserved: where it is the sum of what the connections hold, it still is after
/// any reservation, release or disconnect of any connection.
pub proof fn the_ledger_is_conserved(
    budget: Budget,
    ledger: Ledger,
    conns: Seq<ConnBudget>,
    i: int,
    size: usize,
    now: u64,
)
    requires
        0 <= i < conns.len(),
        ledger.queued == held(conns),
    ensures
        conns[i].queued <= ledger.queued,
        budget.refusal(ledger, conns[i], size, now) is None ==> Budget::ledger_with(ledger, size).queued
            == held(conns.update(i, budget.conn_with(conns[i], size))),
        ledger.queued - Budget::freed(conns[i], size) == held(
            conns.update(i, Budget::conn_released(conns[i], size, now)),
        ),
        ledger.queued - conns[i].queued == held(
            conns.update(i, ConnBudget { queued: 0, oversize: 0, ..conns[i] }),
        ),
{
    held_update(conns, i, budget.conn_with(conns[i], size));
    held_update(conns, i, Budget::conn_released(conns[i], size, now));
    held_update(conns, i, ConnBudget { queued: 0, oversize: 0, ..conns[i] });
}

/// The cap holds: a room within its limit stays within it whatever is reserved.
pub proof fn the_cap_holds(budget: Budget, ledger: Ledger, conn: ConnBudget, size: usize, now: u64)
    requires
        budget.refusal(ledger, conn, size, now) is None,
    ensures
        Budget::ledger_with(ledger, size).queued <= budget.limit,
{
}

/// A frame released after the disconnect that already gave it back frees nothing, and so does a
/// disconnect after the release: in either order the same bytes come back once.
pub proof fn nothing_is_freed_twice(conn: ConnBudget, size: usize, now: u64)
    ensures
        Budget::freed(ConnBudget { queued: 0, oversize: 0, ..conn }, size) == 0,
        Budget::freed(conn, size) + Budget::conn_released(conn, size, now).queued == conn.queued,
{
}

/// A client that drains each frame it is given never comes to be refused for its share: after a
/// frame is reserved and released, the connection counts what it counted before.
pub proof fn draining_keeps_the_share(budget: Budget, conn: ConnBudget, size: usize, now: u64)
    requires
        conn.queued + size <= usize::MAX,
        conn.queued > 0,
        !budget.oversized(conn, size),
    ensures
        ({
            let after = Budget::conn_released(budget.conn_with(conn, size), size, now);
            &&& after.queued == conn.queued
            &&& after.counted() == conn.counted()
            &&& size > 0 ==> after.stall(now) == Some(0u64)
        }),
{
}

/// One message of any size reaches a connection that has nothing queued, if the room has budget
/// for it.
pub proof fn one_message_is_deliverable(
    budget: Budget,
    ledger: Ledger,
    conn: ConnBudget,
    size: usize,
    now: u64,
)
    requires
        conn.queued == 0,
        budget.per_connection > 0,
        ledger.queued + size <= budget.limit,
    ensures
        budget.refusal(ledger, conn, size, now) is None,
{
}

/// A connection that holds nothing is never stalled, and any progress clears a stall.
pub proof fn progress_clears_a_stall(conn: ConnBudget, size: usize, now: u64)
    requires
        size > 0,
    ensures
        conn.queued == 0 ==> conn.stall(now) is None,
        Budget::conn_released(conn, size, now).stall(now) matches Some(ms) ==> ms == 0,
{
}

/// When a reservation is refused, and why: a connection with a backlog of which nothing was
/// drained for more than two minutes is stalled; one that would go over its share, by a frame no
/// larger than the share or with its share used up, is over it; else only a room that would go
/// over its limit refuses.
pub proof fn why_a_frame_is_refused(
    budget: Budget,
    ledger: Ledger,
    conn: ConnBudget,
    size: usize,
    now: u64,
)
    requires
        conn.oversize <= conn.queued,
    ensures
        ({
            let counted = conn.queued - conn.oversize;
            let stalled = conn.queued > 0 && now - conn.last_progress > 120_000;
            let over = counted + size > budget.per_connection && (size <= budget.per_connection
                || counted >= budget.per_connection);
            let why = budget.refusal(ledger, conn, size, now);
            &&& stalled <==> why is Some && why->0 is Stalled
            &&& why matches Some(Refused::Stalled { stalled_ms, deadline_ms }) ==> stalled_ms == now
                - conn.last_progress && deadline_ms == 120_000
            &&& !stalled && over <==> why is Some && why->0 is Share
            &&& why matches Some(Refused::Share { counted: c, size: z, share }) ==> c == counted
                && z == size && share == budget.per_connection
            &&& !stalled && !over && ledger.queued + size > budget.limit <==> why is Some
                && why->0 is RoomBudget
            &&& why matches Some(Refused::RoomBudget { queued, size: z, limit }) ==> queued
                == ledger.queued && z == size && limit == budget.limit
        }),
{
}

/// A message larger than the share leaves what counts against the share as it was; any other
/// counts in full.
pub proof fn an_oversized_message_is_not_counted(budget: Budget, conn: ConnBudget, size: usize)
    requires
        conn.oversize <= conn.queued,
        conn.queued + size <= usize::MAX,
        conn.counted() < budget.per_connection,
    ensures
        budget.conn_with(conn, size).queued == conn.queued + size,
        budget.conn_with(conn, size).last_progress == conn.last_progress,
        size > budget.per_connection ==> budget.conn_with(conn, size).counted() == conn.counted(),
        size <= budget.per_connection ==> budget.conn_with(conn, size).counted() == conn.counted()
            + size,
        conn.counted() == conn.queued - conn.oversize,
{
}

/// The peak is the most that was queued: it never falls, is never below what is queued, and
/// rises only to what is queued.
pub proof fn the_peak_is_the_most_that_was_queued(ledger: Ledger, size: usize)
    requires
        ledger.queued + size <= usize::MAX,
    ensures
        Budget::ledger_with(ledger, size).queued == ledger.queued + size,
        Budget::ledger_with(ledger, size).peak >= ledger.peak,
        Budget::ledger_with(ledger, size).peak >= ledger.queued + size,
        Budget::ledger_with(ledger, size).peak == ledger.peak || Budget::ledger_with(
            ledger,
            size,
        ).peak == ledger.queued + size,
{
}

/// What reached the socket comes off the queue, at most all of it; the time of the last progress
/// is now where anything did, and the allowance goes when the queue is empty and not before.
pub proof fn a_release_is_of_what_was_queued(conn: ConnBudget, size: usize, now: u64)
    ensures
        Budget::conn_released(conn, size, now).queued == if size >= conn.queued {
            0int
        } else {
            conn.queued - size
        },
        Budget::freed(conn, size) <= size,
        size > 0 && conn.queued > 0 ==> Budget::conn_released(conn, size, now).last_progress == now,
        size == 0 || conn.queued == 0 ==> Budget::conn_released(conn, size, now).last_progress
            == conn.last_progress,
        size < conn.queued ==> Budget::conn_released(conn, size, now).oversize == conn.oversize,
        size >= conn.queued ==> Budget::conn_released(conn, size, now).oversize == 0,
{
}

} // verus!
