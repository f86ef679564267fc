use vstd::prelude::*;

verus! {

/// Number of recent lifetimes kept for the rolling average.
pub const HISTORY_CAPACITY: usize = 5;

/// Milliseconds in a second: lifetimes are kept in milliseconds, averaged in seconds.
pub const MILLIS_PER_SECOND: u64 = 1000;

/// The history after one more lifetime `d` is recorded: `d` goes in front and
/// the oldest entry falls off once more than five are held.
pub open spec fn push_history(h: Seq<u64>, d: u64) -> Seq<u64> {
    let n = seq![d] + h;
    if n.len() > HISTORY_CAPACITY {
        n.take(HISTORY_CAPACITY as int)
    } else {
        n
    }
}

/// Sum of the whole seconds of each lifetime in `h`.
pub open spec fn sum_seconds(h: Seq<u64>) -> int
    decreases h.len(),
{
    if h.len() == 0 {
        0
    } else {
        sum_seconds(h.drop_last()) + (h.last() / MILLIS_PER_SECOND) as int
    }
}

/// Truncated mean of the whole seconds of each lifetime, 0 for no lifetimes.
pub open spec fn average_seconds(h: Seq<u64>) -> int {
    if h.len() == 0 {
        0
    } else {
        sum_seconds(h) / (h.len() as int)
    }
}

/// Running counters of a pool and the lifetimes of its most recent deaths.
pub struct Stats {
    dead: u64,
    failed: u64,
    history: Vec<u64>,
}

impl Stats {
    pub closed spec fn wf(&self) -> bool {
        self.history@.len() <= HISTORY_CAPACITY
    }

    /// Connections evicted as dead so far.
    pub closed spec fn dead_spec(&self) -> u64 {
        self.dead
    }

    /// Connection attempts that failed so far.
    pub closed spec fn failed_spec(&self) -> u64 {
        self.failed
    }

    /// Lifetimes in milliseconds of the most recent deaths, newest first.
    pub closed spec fn history_spec(&self) -> Seq<u64> {
        self.history@
    }

    /// A well-formed history never holds more than five lifetimes.
    pub proof fn lemma_history_bound(&self)
        requires
            self.wf(),
        ensures
            self.history_spec().len() <= HISTORY_CAPACITY,
    {
    }

    pub fn new() -> (r: Stats)
        ensures
            r.wf(),
            r.dead_spec() == 0,
            r.failed_spec() == 0,
            r.history_spec() == Seq::<u64>::empty(),
    {
        Stats { dead: 0, failed: 0, history: Vec::new() }
    }

    pub fn dead(&self) -> (r: u64)
        ensures
            r == self.dead_spec(),
    {
        self.dead
    }

    pub fn failed(&self) -> (r: u64)
        ensures
            r == self.failed_spec(),
    {
        self.failed
    }

    /// The retained lifetimes in milliseconds, newest first.
    pub fn history(&self) -> (r: Vec<u64>)
        ensures
            r@ == self.history_spec(),
    {
        self.history.clone()
    }

    /// Folds one death with lifetime `lifetime` (milliseconds) into the counters
    /// and the history. The dead counter saturates at its maximum.
    pub fn record_death(&mut self, lifetime: u64)
        requires
            old(self).wf(),
        ensures
            final(self).wf(),
            final(self).dead_spec() == (if old(self).dead_spec() == u64::MAX {
                u64::MAX
            } else {
                (old(self).dead_spec() + 1) as u64
            }),
            final(self).failed_spec() == old(self).failed_spec(),
            final(self).history_spec() == push_history(old(self).history_spec(), lifetime),
    {
        self.dead = self.dead.saturating_add(1);
        self.history.insert(0, lifetime);
        if self.history.len() > HISTORY_CAPACITY {
            self.history.pop();
        }
        assert(self.history@ =~= push_history(old(self).history_spec(), lifetime));
    }

    /// Counts one connection attempt that did not succeed; saturates at the maximum.
    pub fn record_failure(&mut self)
        requires
            old(self).wf(),
        ensures
            final(self).wf(),
            final(self).failed_spec() == (if old(self).failed_spec() == u64::MAX {
                u64::MAX
            } else {
                (old(self).failed_spec() + 1) as u64
            }),
            final(self).dead_spec() == old(self).dead_spec(),
            final(self).history_spec() == old(self).history_spec(),
    {
        self.failed = self.failed.saturating_add(1);
    }

    /// Mean lifetime in whole seconds of the retained history, truncated; 0
    /// when no connection has died yet.
    pub fn average_lifetime(&self) -> (r: u64)
        requires
            self.wf(),
        ensures
            r == average_seconds(self.history_spec()),
            self.history_spec().len() == 0 ==> r == 0,
    {
        let n = self.history.len();
        if n == 0 {
            return 0;
        }
        let mut sum: u64 = 0;
        let mut i: usize = 0;
        while i < n
            invariant
                n == self.history@.len(),
                n <= HISTORY_CAPACITY,
                i <= n,
                sum == sum_seconds(self.history@.take(i as int)),
                sum <= i * (u64::MAX / MILLIS_PER_SECOND),
            decreases n - i,
        {
            let s = self.history[i] / MILLIS_PER_SECOND;
            assert(s <= u64::MAX / MILLIS_PER_SECOND) by (nonlinear_arith)
                requires s == self.history@[i as int] / MILLIS_PER_SECOND, MILLIS_PER_SECOND == 1000;
            assert(sum + s <= (i + 1) * (u64::MAX / MILLIS_PER_SECOND)) by (nonlinear_arith)
                requires sum <= i * (u64::MAX / MILLIS_PER_SECOND), s <= u64::MAX / MILLIS_PER_SECOND;
            assert((i + 1) * (u64::MAX / MILLIS_PER_SECOND) <= u64::MAX) by (nonlinear_arith)
                requires i < 5, MILLIS_PER_SECOND == 1000;
            assert(self.history@.take(i as int + 1).drop_last() =~= self.history@.take(i as int));
            sum = sum + s;
            i = i + 1;
        }
        assert(self.history@.take(n as int) =~= self.history@);
        sum / (n as u64)
    }
}

} // verus!
