use vstd::prelude::*;
use crate::stats::{Stats, average_seconds, push_history};

verus! {

/// Admission policy: no cap, or at most `n` connections held at once.
#[derive(Clone, Copy, Debug, PartialEq, Eq, Structural)]
pub enum MaxConnections {
    Infinite,
    Max(u32),
}

/// What a held connection needs this tick.
#[derive(Clone, Copy, Debug, PartialEq, Eq, Structural)]
pub enum Action {
    /// Idle past its timeout: write the keep-alive header line.
    Drip,
    /// Within its timeout: write zero bytes to see whether it is still open.
    Probe,
}

/// A held connection: the key under which the caller keeps its stream, and
/// the time (milliseconds) of its last successful activity.
#[derive(Clone, Copy, Debug, PartialEq, Eq, Structural)]
pub struct Socket {
    pub id: u64,
    pub last_update: u64,
}

/// Whether the policy lets one more connection be attempted with `live` held.
pub open spec fn admits(max: MaxConnections, live: int) -> bool {
    match max {
        MaxConnections::Infinite => true,
        MaxConnections::Max(n) => live < n,
    }
}

/// Time since `since`, or 0 where the clock reads earlier than `since`.
pub open spec fn lifetime(now: u64, since: u64) -> u64 {
    if now >= since {
        (now - since) as u64
    } else {
        0
    }
}

/// A connection is due for a drip once strictly more than `timeout` has passed.
pub open spec fn action_for(now: u64, last_update: u64, timeout: u64) -> Action {
    if lifetime(now, last_update) > timeout {
        Action::Drip
    } else {
        Action::Probe
    }
}

/// A surviving connection after the update phase: a successful drip resets
/// its activity time, a successful probe changes nothing.
pub open spec fn after_update(s: Socket, now: u64, timeout: u64) -> Socket {
    match action_for(now, s.last_update, timeout) {
        Action::Drip => Socket { id: s.id, last_update: now },
        Action::Probe => s,
    }
}

/// The connections that stay, in order, where `ok[i]` tells whether the
/// action on `recs[i]` succeeded.
pub open spec fn survivors(recs: Seq<Socket>, ok: Seq<bool>, now: u64, timeout: u64) -> Seq<Socket>
    decreases recs.len(),
{
    if recs.len() == 0 {
        Seq::empty()
    } else {
        let rest = survivors(recs.drop_last(), ok, now, timeout);
        if ok[recs.len() - 1] {
            rest.push(after_update(recs.last(), now, timeout))
        } else {
            rest
        }
    }
}

/// The connections whose action failed, in order, as they were before the tick.
pub open spec fn deaths(recs: Seq<Socket>, ok: Seq<bool>) -> Seq<Socket>
    decreases recs.len(),
{
    if recs.len() == 0 {
        Seq::empty()
    } else {
        let rest = deaths(recs.drop_last(), ok);
        if ok[recs.len() - 1] {
            rest
        } else {
            rest.push(recs.last())
        }
    }
}

/// The history after the deaths in `dead` are recorded one by one, in order.
pub open spec fn death_history(h: Seq<u64>, dead: Seq<Socket>, now: u64) -> Seq<u64>
    decreases dead.len(),
{
    if dead.len() == 0 {
        h
    } else {
        push_history(death_history(h, dead.drop_last(), now), lifetime(now, dead.last().last_update))
    }
}

/// `c + k`, held at the largest `u64`.
pub open spec fn saturating_count(c: u64, k: int) -> u64 {
    if c + k > u64::MAX {
        u64::MAX
    } else {
        (c + k) as u64
    }
}

pub open spec fn ids_unique(s: Seq<Socket>) -> bool {
    forall|i: int, j: int| 0 <= i < j < s.len() ==> s[i].id != s[j].id
}

pub open spec fn ids(s: Seq<Socket>) -> Seq<u64> {
    s.map_values(|x: Socket| x.id)
}

/// Where no connection with id `x` succeeded, no survivor has id `x`.
pub proof fn lemma_survivors_avoid(recs: Seq<Socket>, ok: Seq<bool>, now: u64, timeout: u64, x: u64)
    requires
        ok.len() >= recs.len(),
        forall|j: int| 0 <= j < recs.len() && ok[j] ==> recs[j].id != x,
    ensures
        survivors(recs, ok, now, timeout).len() <= recs.len(),
        forall|k: int|
            0 <= k < survivors(recs, ok, now, timeout).len() ==> #[trigger] survivors(
                recs,
                ok,
                now,
                timeout,
            )[k].id != x,
    decreases recs.len(),
{
    if recs.len() > 0 {
        let init = recs.drop_last();
        assert forall|j: int| 0 <= j < init.len() && ok[j] implies init[j].id != x by {
            assert(init[j] == recs[j]);
        }
        lemma_survivors_avoid(init, ok, now, timeout, x);
    }
}

/// The connection-pool engine: the held connections and the statistics of
/// the pool. Callers keep the streams, keyed by each record's id.
pub struct Pool {
    sockets: Vec<Socket>,
    stats: Stats,
    timeout: u64,
    max: MaxConnections,
    next_id: u64,
}

impl Pool {
    /// At most `n` held under `Max(n)`, ids distinct and below the next id to hand out.
    pub closed spec fn wf(&self) -> bool {
        &&& self.stats.wf()
        &&& admits(self.max, self.sockets@.len() as int - 1)
        &&& ids_unique(self.sockets@)
        &&& forall|i: int| 0 <= i < self.sockets@.len() ==> #[trigger] self.sockets@[i].id < self.next_id
    }

    /// The held connections, oldest admission first.
    pub closed spec fn sockets_spec(&self) -> Seq<Socket> {
        self.sockets@
    }

    pub closed spec fn stats_spec(&self) -> Stats {
        self.stats
    }

    /// Longest idle time (milliseconds) before a drip is due.
    pub closed spec fn timeout_spec(&self) -> u64 {
        self.timeout
    }

    pub closed spec fn max_spec(&self) -> MaxConnections {
        self.max
    }

    /// The id the next admitted connection gets.
    pub closed spec fn next_id_spec(&self) -> u64 {
        self.next_id
    }

    /// An empty pool with idle timeout `timeout` (milliseconds) and admission policy `max`.
    pub fn new(timeout: u64, max: MaxConnections) -> (r: Pool)
        ensures
            r.wf(),
            r.sockets_spec() == Seq::<Socket>::empty(),
            r.timeout_spec() == timeout,
            r.max_spec() == max,
            r.next_id_spec() == 0,
            r.stats_spec().dead_spec() == 0,
            r.stats_spec().failed_spec() == 0,
            r.stats_spec().history_spec() == Seq::<u64>::empty(),
    {
        Pool { sockets: Vec::new(), stats: Stats::new(), timeout, max, next_id: 0 }
    }

    /// Which action each held connection needs at time `now`, in pool order.
    pub fn plan(&self, now: u64) -> (r: Vec<Action>)
        ensures
            r@.len() == self.sockets_spec().len(),
            forall|i: int|
                0 <= i < r@.len() ==> #[trigger] r@[i] == action_for(
                    now,
                    self.sockets_spec()[i].last_update,
                    self.timeout_spec(),
                ),
    {
        let mut r: Vec<Action> = Vec::new();
        let mut i: usize = 0;
        while i < self.sockets.len()
            invariant
                i <= self.sockets@.len(),
                r@.len() == i,
                forall|k: int|
                    0 <= k < i ==> #[trigger] r@[k] == action_for(
                        now,
                        self.sockets@[k].last_update,
                        self.timeout,
                    ),
            decreases self.sockets@.len() - i,
        {
            let idle = now.saturating_sub(self.sockets[i].last_update);
            let a = if idle > self.timeout {
                Action::Drip
            } else {
                Action::Probe
            };
            r.push(a);
            i = i + 1;
        }
        r
    }

    /// Update and eviction phases of a tick at time `now`: `ok[i]` tells whether
    /// the action that `plan` gave for connection `i` succeeded. Connections
    /// whose action failed are removed and folded into the statistics, in pool
    /// order; a successful drip resets the activity time to `now`. Returns the
    /// ids of the removed connections, whose streams the caller closes.
    pub fn update(&mut self, now: u64, ok: &Vec<bool>) -> (r: Vec<u64>)
        requires
            old(self).wf(),
            ok@.len() == old(self).sockets_spec().len(),
        ensures
            final(self).wf(),
            final(self).sockets_spec() == survivors(
                old(self).sockets_spec(),
                ok@,
                now,
                old(self).timeout_spec(),
            ),
            r@ == ids(deaths(old(self).sockets_spec(), ok@)),
            final(self).stats_spec().dead_spec() == saturating_count(
                old(self).stats_spec().dead_spec(),
                deaths(old(self).sockets_spec(), ok@).len() as int,
            ),
            final(self).stats_spec().failed_spec() == old(self).stats_spec().failed_spec(),
            final(self).stats_spec().history_spec() == death_history(
                old(self).stats_spec().history_spec(),
                deaths(old(self).sockets_spec(), ok@),
                now,
            ),
            final(self).timeout_spec() == old(self).timeout_spec(),
            final(self).max_spec() == old(self).max_spec(),
            final(self).next_id_spec() == old(self).next_id_spec(),
    {
        let ghost recs = self.sockets@;
        let ghost stats0 = self.stats;
        let ghost max0 = self.max;
        let ghost next0 = self.next_id;
        let timeout = self.timeout;
        let n = self.sockets.len();
        let mut kept: Vec<Socket> = Vec::new();
        let mut dead: Vec<u64> = Vec::new();
        let mut i: usize = 0;
        while i < n
            invariant
                n == recs.len(),
                self.sockets@ == recs,
                self.timeout == timeout,
                self.max == max0,
                self.next_id == next0,
                admits(max0, n as int - 1),
                ok@.len() == n,
                i <= n,
                ids_unique(recs),
                forall|j: int| 0 <= j < n ==> #[trigger] recs[j].id < self.next_id,
                self.stats.wf(),
                kept@ == survivors(recs.take(i as int), ok@, now, self.timeout),
                kept@.len() <= i,
                ids_unique(kept@),
                forall|k: int| 0 <= k < kept@.len() ==> #[trigger] kept@[k].id < self.next_id,
                dead@ == ids(deaths(recs.take(i as int), ok@)),
                self.stats.dead_spec() == saturating_count(
                    stats0.dead_spec(),
                    deaths(recs.take(i as int), ok@).len() as int,
                ),
                self.stats.failed_spec() == stats0.failed_spec(),
                self.stats.history_spec() == death_history(
                    stats0.history_spec(),
                    deaths(recs.take(i as int), ok@),
                    now,
                ),
            decreases n - i,
        {
            let ghost pre = recs.take(i as int);
            let ghost cur = recs.take(i as int + 1);
            assert(cur.drop_last() =~= pre);
            assert(cur.last() == recs[i as int]);
            let s = self.sockets[i];
            if ok[i] {
                proof {
                    assert forall|j: int| 0 <= j < pre.len() && ok@[j] implies pre[j].id != s.id by {
                        assert(pre[j] == recs[j]);
                    }
                    lemma_survivors_avoid(pre, ok@, now, self.timeout, s.id);
                }
                let idle = now.saturating_sub(s.last_update);
                if idle > self.timeout {
                    kept.push(Socket { id: s.id, last_update: now });
                } else {
                    kept.push(s);
                }
            } else {
                let idle = now.saturating_sub(s.last_update);
                self.stats.record_death(idle);
                dead.push(s.id);
                assert(deaths(cur, ok@).drop_last() =~= deaths(pre, ok@));
                assert(ids(deaths(cur, ok@)) =~= ids(deaths(pre, ok@)).push(s.id));
            }
            i = i + 1;
        }
        assert(recs.take(n as int) =~= recs);
        self.sockets = kept;
        assert(admits(self.max, self.sockets@.len() as int - 1));
        dead
    }

    /// Under `Max(n)` a well-formed pool never holds more than `n` connections;
    /// `new`, `update` and `add_connection` all keep the pool well formed, so
    /// this holds at the end of every tick.
    pub proof fn lemma_admission_bound(&self)
        requires
            self.wf(),
        ensures
            forall|n: u32| self.max_spec() == MaxConnections::Max(n) ==> self.sockets_spec().len() <= n,
    {
    }

    /// Admission phase: whether the policy lets one more connection be attempted.
    pub fn wants_connection(&self) -> (r: bool)
        ensures
            r == admits(self.max_spec(), self.sockets_spec().len() as int),
            self.max_spec() == MaxConnections::Infinite ==> r,
    {
        match self.max {
            MaxConnections::Infinite => true,
            MaxConnections::Max(n) => self.sockets.len() < n as usize,
        }
    }

    /// Registers a connection that was opened at time `now` and returns its id.
    /// Refused (`None`, nothing changed) where the policy admits no more
    /// connections, or where ids or room have run out.
    pub fn add_connection(&mut self, now: u64) -> (r: Option<u64>)
        requires
            old(self).wf(),
        ensures
            final(self).wf(),
            r is Some <==> (admits(old(self).max_spec(), old(self).sockets_spec().len() as int)
                && old(self).next_id_spec() < u64::MAX && old(self).sockets_spec().len()
                < usize::MAX),
            r is Some ==> r == Some(old(self).next_id_spec()) && final(self).sockets_spec()
                == old(self).sockets_spec().push(
                Socket { id: old(self).next_id_spec(), last_update: now },
            ) && final(self).next_id_spec() == old(self).next_id_spec() + 1,
            r is None ==> final(self).sockets_spec() == old(self).sockets_spec()
                && final(self).next_id_spec() == old(self).next_id_spec(),
            final(self).stats_spec() == old(self).stats_spec(),
            final(self).timeout_spec() == old(self).timeout_spec(),
            final(self).max_spec() == old(self).max_spec(),
    {
        if !self.wants_connection() || self.next_id == u64::MAX || self.sockets.len() == usize::MAX {
            return None;
        }
        let id = self.next_id;
        self.sockets.push(Socket { id, last_update: now });
        self.next_id = id + 1;
        Some(id)
    }

    /// Counts one connection attempt that did not succeed.
    pub fn connection_failed(&mut self)
        requires
            old(self).wf(),
        ensures
            final(self).wf(),
            final(self).stats_spec().failed_spec() == saturating_count(
                old(self).stats_spec().failed_spec(),
                1,
            ),
            final(self).stats_spec().dead_spec() == old(self).stats_spec().dead_spec(),
            final(self).stats_spec().history_spec() == old(self).stats_spec().history_spec(),
            final(self).sockets_spec() == old(self).sockets_spec(),
            final(self).next_id_spec() == old(self).next_id_spec(),
            final(self).timeout_spec() == old(self).timeout_spec(),
            final(self).max_spec() == old(self).max_spec(),
    {
        self.stats.record_failure();
    }

    /// Number of connections held.
    pub fn live(&self) -> (r: usize)
        ensures
            r == self.sockets_spec().len(),
    {
        self.sockets.len()
    }

    /// The held connections, oldest admission first.
    pub fn sockets(&self) -> (r: Vec<Socket>)
        ensures
            r@ == self.sockets_spec(),
    {
        self.sockets.clone()
    }

    pub fn stats(&self) -> (r: &Stats)
        requires
            self.wf(),
        ensures
            *r == self.stats_spec(),
            r.wf(),
    {
        &self.stats
    }

    pub fn timeout(&self) -> (r: u64)
        ensures
            r == self.timeout_spec(),
    {
        self.timeout
    }

    pub fn max_connections(&self) -> (r: MaxConnections)
        ensures
            r == self.max_spec(),
    {
        self.max
    }

    /// The read-only view of the pool that a display shows.
    pub fn snapshot(&self) -> (r: Snapshot)
        requires
            self.wf(),
        ensures
            r.live == self.sockets_spec().len(),
            r.dead == self.stats_spec().dead_spec(),
            r.failed == self.stats_spec().failed_spec(),
            r.timeout_seconds == self.timeout_spec() / 1000,
            r.average_lifetime == average_seconds(self.stats_spec().history_spec()),
    {
        Snapshot {
            live: self.sockets.len(),
            dead: self.stats.dead(),
            failed: self.stats.failed(),
            timeout_seconds: self.timeout / 1000,
            average_lifetime: self.stats.average_lifetime(),
        }
    }
}

/// What the pool exposes after each tick.
#[derive(Clone, Copy, Debug, PartialEq, Eq, Structural)]
pub struct Snapshot {
    pub live: usize,
    pub dead: u64,
    pub failed: u64,
    /// Idle timeout in whole seconds.
    pub timeout_seconds: u64,
    /// Mean lifetime in whole seconds of the most recent deaths, 0 if none.
    pub average_lifetime: u64,
}

} // verus!
