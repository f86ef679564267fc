use sloris::pool::{Action, MaxConnections, Pool, Socket};
use sloris::stats::Stats;

fn fill(pool: &mut Pool, now: u64) {
    while pool.wants_connection() {
        assert!(pool.add_connection(now).is_some());
    }
}

#[test]
fn bounded_scenario_from_three_admissions() {
    let mut pool = Pool::new(5000, MaxConnections::Max(3));
    // Tick 1: three admissions succeed.
    fill(&mut pool, 0);
    assert_eq!(pool.live(), 3);
    assert_eq!(pool.stats().failed(), 0);
    assert!(!pool.wants_connection());
    assert_eq!(pool.add_connection(0), None);

    // Tick at 6 s: all three are due for a drip; the second one fails.
    let plan = pool.plan(6000);
    assert_eq!(plan, vec![Action::Drip, Action::Drip, Action::Drip]);
    let dead = pool.update(6000, &vec![true, false, true]);
    assert_eq!(dead, vec![1]);
    assert_eq!(pool.live(), 2);
    assert_eq!(pool.stats().dead(), 1);
    assert_eq!(pool.stats().failed(), 0);
    assert_eq!(pool.stats().history(), vec![6000]);
    assert_eq!(
        pool.sockets(),
        vec![Socket { id: 0, last_update: 6000 }, Socket { id: 2, last_update: 6000 }]
    );

    // Next tick: one more is admitted since 2 < 3.
    assert!(pool.wants_connection());
    assert_eq!(pool.add_connection(6001), Some(3));
    assert_eq!(pool.live(), 3);
}

#[test]
fn bounded_pool_never_exceeds_cap() {
    let mut pool = Pool::new(1000, MaxConnections::Max(2));
    for t in 0..10u64 {
        let n = pool.live();
        pool.update(t, &vec![true; n]);
        if pool.wants_connection() {
            pool.add_connection(t);
        }
        assert!(pool.live() <= 2);
    }
    assert_eq!(pool.live(), 2);
}

#[test]
fn zero_cap_admits_nothing() {
    let mut pool = Pool::new(1000, MaxConnections::Max(0));
    assert!(!pool.wants_connection());
    assert_eq!(pool.add_connection(0), None);
    assert_eq!(pool.live(), 0);
}

#[test]
fn unbounded_always_attempts() {
    let mut pool = Pool::new(1000, MaxConnections::Infinite);
    for t in 0..50u64 {
        assert!(pool.wants_connection());
        assert_eq!(pool.add_connection(t), Some(t));
    }
    assert_eq!(pool.live(), 50);
    assert!(pool.wants_connection());
}

#[test]
fn failed_attempts_are_counted() {
    let mut pool = Pool::new(1000, MaxConnections::Infinite);
    pool.connection_failed();
    pool.connection_failed();
    assert_eq!(pool.stats().failed(), 2);
    assert_eq!(pool.live(), 0);
    assert_eq!(pool.stats().dead(), 0);
}

#[test]
fn failed_probe_evicts_within_timeout() {
    let mut pool = Pool::new(30_000, MaxConnections::Infinite);
    pool.add_connection(1000);
    pool.add_connection(1000);
    let plan = pool.plan(2000);
    assert_eq!(plan, vec![Action::Probe, Action::Probe]);
    let dead = pool.update(2000, &vec![false, true]);
    assert_eq!(dead, vec![0]);
    assert_eq!(pool.sockets(), vec![Socket { id: 1, last_update: 1000 }]);
    assert_eq!(pool.stats().dead(), 1);
    assert_eq!(pool.stats().history(), vec![1000]);
}

#[test]
fn drip_success_resets_activity() {
    let mut pool = Pool::new(5000, MaxConnections::Infinite);
    pool.add_connection(0);
    // Exactly at the timeout no drip is due yet.
    assert_eq!(pool.plan(5000), vec![Action::Probe]);
    assert_eq!(pool.plan(5001), vec![Action::Drip]);
    let dead = pool.update(5001, &vec![true]);
    assert!(dead.is_empty());
    assert_eq!(pool.sockets(), vec![Socket { id: 0, last_update: 5001 }]);
    assert_eq!(pool.stats().dead(), 0);
    // A successful probe leaves the activity time alone.
    pool.update(6000, &vec![true]);
    assert_eq!(pool.sockets(), vec![Socket { id: 0, last_update: 5001 }]);
}

#[test]
fn dead_connection_gone_by_next_tick() {
    let mut pool = Pool::new(1000, MaxConnections::Infinite);
    for t in 0..4u64 {
        pool.add_connection(t);
    }
    let dead = pool.update(10, &vec![true, false, false, true]);
    assert_eq!(dead, vec![1, 2]);
    let ids: Vec<u64> = pool.sockets().iter().map(|s| s.id).collect();
    assert_eq!(ids, vec![0, 3]);
    assert_eq!(pool.plan(11).len(), 2);
    // Deaths go into the history in pool order, newest first.
    assert_eq!(pool.stats().history(), vec![8, 9]);
}

#[test]
fn clock_going_back_counts_as_no_time() {
    let mut pool = Pool::new(1000, MaxConnections::Infinite);
    pool.add_connection(5000);
    assert_eq!(pool.plan(100), vec![Action::Probe]);
    pool.update(100, &vec![false]);
    assert_eq!(pool.stats().history(), vec![0]);
}

#[test]
fn history_keeps_five_newest() {
    let mut stats = Stats::new();
    for d in 1..=6u64 {
        stats.record_death(d * 1000);
    }
    assert_eq!(stats.history(), vec![6000, 5000, 4000, 3000, 2000]);
    assert_eq!(stats.dead(), 6);
    stats.record_death(7000);
    assert_eq!(stats.history(), vec![7000, 6000, 5000, 4000, 3000]);
}

#[test]
fn average_of_empty_history_is_zero() {
    let stats = Stats::new();
    assert_eq!(stats.average_lifetime(), 0);
    let pool = Pool::new(1000, MaxConnections::Infinite);
    assert_eq!(pool.snapshot().average_lifetime, 0);
}

#[test]
fn average_truncates_whole_seconds() {
    let mut stats = Stats::new();
    stats.record_death(1500);
    stats.record_death(2999);
    stats.record_death(4000);
    // Whole seconds 1, 2 and 4: mean 7 / 3 truncated.
    assert_eq!(stats.average_lifetime(), 2);
}

#[test]
fn snapshot_reports_counters() {
    let mut pool = Pool::new(5000, MaxConnections::Max(4));
    fill(&mut pool, 0);
    pool.connection_failed();
    pool.update(10_000, &vec![false, true, true, true]);
    let snap = pool.snapshot();
    assert_eq!(snap.live, 3);
    assert_eq!(snap.dead, 1);
    assert_eq!(snap.failed, 1);
    assert_eq!(snap.timeout_seconds, 5);
    assert_eq!(snap.average_lifetime, 10);
}
