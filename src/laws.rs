//! Properties of one tick that relate the phases to each other.
use vstd::prelude::*;
use crate::pool::{
    Action, MaxConnections, Socket, action_for, admits, after_update, death_history, deaths,
    ids_unique, lemma_survivors_avoid, lifetime, survivors,
};
use crate::stats::{HISTORY_CAPACITY, push_history};

verus! {

/// Under the unbounded policy an attempt is made whatever the number held.
pub proof fn lemma_unbounded_always_attempts(live: int)
    ensures
        admits(MaxConnections::Infinite, live),
{
}

/// Recording a death never takes the history past five entries.
pub proof fn lemma_history_bound(h: Seq<u64>, d: u64)
    requires
        h.len() <= HISTORY_CAPACITY,
    ensures
        push_history(h, d).len() <= HISTORY_CAPACITY,
{
}

/// With five entries held, a new death drops the oldest: the result is the
/// new lifetime followed by the four most recent earlier ones.
pub proof fn lemma_history_drops_oldest(h: Seq<u64>, d: u64)
    requires
        h.len() == HISTORY_CAPACITY,
    ensures
        push_history(h, d).len() == HISTORY_CAPACITY,
        push_history(h, d) == seq![d] + h.take(HISTORY_CAPACITY - 1),
        push_history(h, d)[0] == d,
        forall|k: int| 1 <= k < HISTORY_CAPACITY ==> #[trigger] push_history(h, d)[k] == h[k - 1],
{
    assert(push_history(h, d) =~= seq![d] + h.take(HISTORY_CAPACITY - 1));
}

/// The deaths of a whole tick keep the history within five entries.
pub proof fn lemma_death_history_bound(h: Seq<u64>, dead: Seq<Socket>, now: u64)
    requires
        h.len() <= HISTORY_CAPACITY,
    ensures
        death_history(h, dead, now).len() <= HISTORY_CAPACITY,
    decreases dead.len(),
{
    if dead.len() > 0 {
        lemma_death_history_bound(h, dead.drop_last(), now);
    }
}

/// Every connection whose action failed is among the deaths of the tick.
pub proof fn lemma_failed_in_deaths(recs: Seq<Socket>, ok: Seq<bool>, i: int)
    requires
        ok.len() >= recs.len(),
        0 <= i < recs.len(),
        !ok[i],
    ensures
        deaths(recs, ok).contains(recs[i]),
    decreases recs.len(),
{
    let d = deaths(recs, ok);
    if i == recs.len() - 1 {
        assert(d.last() == recs[i]);
    } else {
        let init = recs.drop_last();
        lemma_failed_in_deaths(init, ok, i);
        let k = choose|k: int| 0 <= k < deaths(init, ok).len() && deaths(init, ok)[k] == init[i];
        if !ok[recs.len() - 1] {
            assert(d[k] == recs[i]);
        }
    }
}

/// Where no connection with id `x` failed, no death has id `x`.
pub proof fn lemma_deaths_avoid(recs: Seq<Socket>, ok: Seq<bool>, x: u64)
    requires
        ok.len() >= recs.len(),
        forall|j: int| 0 <= j < recs.len() && !ok[j] ==> recs[j].id != x,
    ensures
        forall|k: int| 0 <= k < deaths(recs, ok).len() ==> #[trigger] deaths(recs, ok)[k].id != x,
    decreases recs.len(),
{
    if recs.len() > 0 {
        let init = recs.drop_last();
        assert forall|j: int| 0 <= j < init.len() && !ok[j] implies init[j].id != x by {
            assert(init[j] == recs[j]);
        }
        lemma_deaths_avoid(init, ok, x);
        let rest = deaths(init, ok);
        let d = deaths(recs, ok);
        assert forall|k: int| 0 <= k < d.len() implies #[trigger] d[k].id != x by {
            if k < rest.len() {
                assert(d[k] == rest[k]);
            }
        }
    }
}

/// A connection whose action succeeded stays, updated for the tick.
pub proof fn lemma_succeeded_kept(recs: Seq<Socket>, ok: Seq<bool>, now: u64, timeout: u64, i: int)
    requires
        ok.len() >= recs.len(),
        0 <= i < recs.len(),
        ok[i],
    ensures
        survivors(recs, ok, now, timeout).contains(after_update(recs[i], now, timeout)),
    decreases recs.len(),
{
    let s = survivors(recs, ok, now, timeout);
    let target = after_update(recs[i], now, timeout);
    if i == recs.len() - 1 {
        assert(s.last() == target);
    } else {
        let init = recs.drop_last();
        assert(init[i] == recs[i]);
        lemma_succeeded_kept(init, ok, now, timeout, i);
        let rest = survivors(init, ok, now, timeout);
        let k = choose|k: int| 0 <= k < rest.len() && rest[k] == target;
        assert(s[k] == target);
    }
}

/// A connection whose action failed does not survive the tick: no survivor
/// carries its id, and it is among the deaths folded into the statistics.
pub proof fn lemma_dead_not_kept(recs: Seq<Socket>, ok: Seq<bool>, now: u64, timeout: u64, i: int)
    requires
        ids_unique(recs),
        ok.len() == recs.len(),
        0 <= i < recs.len(),
        !ok[i],
    ensures
        forall|k: int|
            0 <= k < survivors(recs, ok, now, timeout).len() ==> #[trigger] survivors(
                recs,
                ok,
                now,
                timeout,
            )[k].id != recs[i].id,
        deaths(recs, ok).contains(recs[i]),
{
    assert forall|j: int| 0 <= j < recs.len() && ok[j] implies recs[j].id != recs[i].id by {
        if j < i {
            assert(recs[j].id != recs[i].id);
        } else {
            assert(recs[i].id != recs[j].id);
        }
    }
    lemma_survivors_avoid(recs, ok, now, timeout, recs[i].id);
    lemma_failed_in_deaths(recs, ok, i);
}

/// A connection still within its timeout whose probe fails is removed in the
/// same tick, with the lifetime it had reached.
pub proof fn lemma_failed_probe_evicted(
    recs: Seq<Socket>,
    ok: Seq<bool>,
    now: u64,
    timeout: u64,
    i: int,
)
    requires
        ids_unique(recs),
        ok.len() == recs.len(),
        0 <= i < recs.len(),
        lifetime(now, recs[i].last_update) <= timeout,
        !ok[i],
    ensures
        action_for(now, recs[i].last_update, timeout) == Action::Probe,
        forall|k: int|
            0 <= k < survivors(recs, ok, now, timeout).len() ==> #[trigger] survivors(
                recs,
                ok,
                now,
                timeout,
            )[k].id != recs[i].id,
        deaths(recs, ok).contains(recs[i]),
{
    lemma_dead_not_kept(recs, ok, now, timeout, i);
}

/// A connection due for a drip whose drip succeeds stays, with its activity
/// time set to `now`, and is not among the deaths.
pub proof fn lemma_drip_success_extends(
    recs: Seq<Socket>,
    ok: Seq<bool>,
    now: u64,
    timeout: u64,
    i: int,
)
    requires
        ids_unique(recs),
        ok.len() == recs.len(),
        0 <= i < recs.len(),
        action_for(now, recs[i].last_update, timeout) == Action::Drip,
        ok[i],
    ensures
        survivors(recs, ok, now, timeout).contains(Socket { id: recs[i].id, last_update: now }),
        forall|k: int| 0 <= k < deaths(recs, ok).len() ==> #[trigger] deaths(recs, ok)[k].id != recs[i].id,
{
    lemma_succeeded_kept(recs, ok, now, timeout, i);
    assert forall|j: int| 0 <= j < recs.len() && !ok[j] implies recs[j].id != recs[i].id by {
        if j < i {
            assert(recs[j].id != recs[i].id);
        } else {
            assert(recs[i].id != recs[j].id);
        }
    }
    lemma_deaths_avoid(recs, ok, recs[i].id);
}

} // verus!
