//! The multi-pool monitor.
//!
//! When more than one pool is in scope, the monitor gives every pool its own
//! watcher, all sharing the one read-only token pair, and collects each
//! watcher's terminal outcome independently: one watcher's failure never
//! cancels or obscures its siblings. The spawning itself is the surrounding
//! program's business; what is verified here is the fan-out shape — exactly
//! one watcher per pool, all starting in `Initializing` — and the tally that
//! reports per-pool health, in which every watcher is counted exactly once.

use vstd::prelude::*;
use crate::price::{Address, TokenPair};
use crate::watcher::{PoolWatcher, WatcherOutcome, WatcherState};

verus! {

/// How many of the watchers are closed with the given outcome.
pub open spec fn count_closed(ws: Seq<PoolWatcher>, oc: WatcherOutcome) -> nat
    decreases ws.len(),
{
    if ws.len() == 0 {
        0
    } else {
        count_closed(ws.drop_last(), oc) + if ws.last().state == (WatcherState::Closed {
            outcome: oc,
        }) {
            1nat
        } else {
            0nat
        }
    }
}

/// How many of the watchers are still running, that is, not yet closed.
pub open spec fn count_running(ws: Seq<PoolWatcher>) -> nat
    decreases ws.len(),
{
    if ws.len() == 0 {
        0
    } else {
        count_running(ws.drop_last()) + if ws.last().state is Closed {
            0nat
        } else {
            1nat
        }
    }
}

/// The monitor's view of per-pool health: how many watchers are still
/// running and how many are closed, by outcome. Terminal outcomes are
/// explicit; nothing is inferred from silence.
#[derive(Clone, Copy, PartialEq, Eq, Structural, Debug)]
pub struct MonitorReport {
    pub running: usize,
    pub ended: usize,
    pub cancelled: usize,
    pub connection_failed: usize,
    pub resolution_failed: usize,
}

/// One fresh watcher per pool, every one bound to the shared read-only pair
/// and starting in `Initializing`. The fan-out is exactly one-to-one and in
/// the pools' order.
pub fn init_watchers(pools: &Vec<Address>, pair: &TokenPair) -> (watchers: Vec<PoolWatcher>)
    ensures
        watchers@.len() == pools@.len(),
        forall|i: int| 0 <= i < pools@.len() ==> {
            &&& (#[trigger] watchers@[i]).pool == pools@[i]
            &&& watchers@[i].pair == *pair
            &&& watchers@[i].state is Initializing
        },
{
    let mut watchers: Vec<PoolWatcher> = Vec::new();
    let mut i: usize = 0;
    while i < pools.len()
        invariant
            i <= pools.len(),
            watchers@.len() == i,
            forall|k: int| 0 <= k < i ==> {
                &&& (#[trigger] watchers@[k]).pool == pools@[k]
                &&& watchers@[k].pair == *pair
                &&& watchers@[k].state is Initializing
            },
        decreases pools.len() - i,
    {
        watchers.push(PoolWatcher::new(pools[i], *pair));
        i = i + 1;
    }
    watchers
}

/// Tallies every watcher's current standing. Each watcher lands in exactly
/// one bucket, so the buckets always sum to the number of pools: a caller
/// can tell "pool stopped with error E" from "pool's stream ended normally"
/// from "pool still running", per pool class, at any time.
pub fn summarize(watchers: &Vec<PoolWatcher>) -> (rep: MonitorReport)
    ensures
        rep.running == count_running(watchers@),
        rep.ended == count_closed(watchers@, WatcherOutcome::Ended),
        rep.cancelled == count_closed(watchers@, WatcherOutcome::Cancelled),
        rep.connection_failed == count_closed(watchers@, WatcherOutcome::ConnectionFailed),
        rep.resolution_failed == count_closed(watchers@, WatcherOutcome::ResolutionFailed),
        rep.running + rep.ended + rep.cancelled + rep.connection_failed + rep.resolution_failed
            == watchers@.len(),
{
    let mut running: usize = 0;
    let mut ended: usize = 0;
    let mut cancelled: usize = 0;
    let mut connection_failed: usize = 0;
    let mut resolution_failed: usize = 0;
    let mut i: usize = 0;
    proof {
        assert(watchers@.take(0) =~= Seq::<PoolWatcher>::empty());
    }
    while i < watchers.len()
        invariant
            i <= watchers.len(),
            running == count_running(watchers@.take(i as int)),
            ended == count_closed(watchers@.take(i as int), WatcherOutcome::Ended),
            cancelled == count_closed(watchers@.take(i as int), WatcherOutcome::Cancelled),
            connection_failed == count_closed(
                watchers@.take(i as int),
                WatcherOutcome::ConnectionFailed,
            ),
            resolution_failed == count_closed(
                watchers@.take(i as int),
                WatcherOutcome::ResolutionFailed,
            ),
            running + ended + cancelled + connection_failed + resolution_failed == i,
        decreases watchers.len() - i,
    {
        proof {
            assert(watchers@.take(i + 1).drop_last() =~= watchers@.take(i as int));
            assert(watchers@.take(i + 1).last() == watchers@[i as int]);
        }
        match &watchers[i].state {
            WatcherState::Initializing => {
                running = running + 1;
            },
            WatcherState::Streaming { .. } => {
                running = running + 1;
            },
            WatcherState::Closed { outcome } => match outcome {
                WatcherOutcome::Ended => {
                    ended = ended + 1;
                },
                WatcherOutcome::Cancelled => {
                    cancelled = cancelled + 1;
                },
                WatcherOutcome::ConnectionFailed => {
                    connection_failed = connection_failed + 1;
                },
                WatcherOutcome::ResolutionFailed => {
                    resolution_failed = resolution_failed + 1;
                },
            },
        }
        i = i + 1;
    }
    proof {
        assert(watchers@.take(watchers@.len() as int) =~= watchers@);
    }
    MonitorReport { running, ended, cancelled, connection_failed, resolution_failed }
}

} // verus!
