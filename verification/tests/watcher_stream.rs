//! The watcher state machine, record ordering, and fan-out isolation.

use poolwatch::bignum::BigNat;
use poolwatch::monitor::{init_watchers, summarize};
use poolwatch::price::{Address, Price, Token, TokenPair};
use poolwatch::watcher::{
    convert_stream, PoolWatcher, SignedAmount, SwapEvent, WatchEvent, WatchStep, WatcherOutcome,
    WatcherState,
};

fn addr(tag: u32) -> Address {
    Address { hi: 0, mid: 0, lo: tag }
}

fn pair() -> TokenPair {
    TokenPair {
        base: Token { address: addr(1), decimals: 18 },
        quote: Token { address: addr(2), decimals: 18 },
    }
}

fn amount(v: i128) -> SignedAmount {
    SignedAmount { hi: if v < 0 { -1 } else { 0 }, lo: v as u128 }
}

/// A swap whose sqrt price encodes the exact square root `m`.
fn swap(m: u64, tag: i128) -> SwapEvent {
    SwapEvent {
        sender: addr(90),
        recipient: addr(91),
        amount0: amount(tag),
        amount1: amount(-tag),
        liquidity: 1_000_000,
        tick: 0,
        sqrt_price_x96: BigNat::from_u64(m << 32).shifted(1),
    }
}

/// A degenerate swap with a zero sqrt price.
fn zero_swap() -> SwapEvent {
    SwapEvent {
        sender: addr(90),
        recipient: addr(91),
        amount0: amount(7),
        amount1: amount(-7),
        liquidity: 0,
        tick: 0,
        sqrt_price_x96: BigNat::from_u64(0),
    }
}

fn price_of(step: WatchStep) -> (SignedAmount, Price) {
    match step {
        WatchStep::Emitted(rec) => (rec.amount0, rec.price),
        _ => panic!("expected an emitted record"),
    }
}

#[test]
fn watcher_resolves_once_then_streams_in_order() {
    let mut w = PoolWatcher::new(addr(10), pair());
    assert!(matches!(w.state, WatcherState::Initializing));

    match w.step(WatchEvent::Token0Resolved(addr(1))) {
        WatchStep::Started => {}
        _ => panic!("token-0 resolution must start streaming"),
    }
    assert!(matches!(w.state, WatcherState::Streaming { .. }));

    // E1 then E2: the records come out strictly in that order.
    let (a1, p1) = price_of(w.step(WatchEvent::Swap(swap(1, 11))));
    let (a2, p2) = price_of(w.step(WatchEvent::Swap(swap(2, 22))));
    assert_eq!(a1, amount(11));
    assert_eq!(a2, amount(22));
    let one = Price { num: BigNat::from_u64(1), den: BigNat::from_u64(1) };
    let four = Price { num: BigNat::from_u64(4), den: BigNat::from_u64(1) };
    assert!(p1.same_value(&one));
    assert!(p2.same_value(&four));

    match w.step(WatchEvent::StreamEnded) {
        WatchStep::Stopped(WatcherOutcome::Ended) => {}
        _ => panic!("stream end must close the watcher normally"),
    }
    // Closed is absorbing.
    assert!(matches!(w.step(WatchEvent::Swap(swap(3, 33))), WatchStep::Ignored));
    assert!(matches!(w.state, WatcherState::Closed { outcome: WatcherOutcome::Ended }));
}

#[test]
fn degenerate_swap_is_skipped_and_the_stream_continues() {
    let mut w = PoolWatcher::new(addr(10), pair());
    w.step(WatchEvent::Token0Resolved(addr(1)));
    assert!(matches!(
        w.step(WatchEvent::Swap(zero_swap())),
        WatchStep::SkippedConversion(_)
    ));
    // Still streaming: the next good event is emitted.
    assert!(matches!(w.step(WatchEvent::Swap(swap(1, 5))), WatchStep::Emitted(_)));
    // A transient item error is logged and skipped too.
    assert!(matches!(w.step(WatchEvent::ItemError), WatchStep::SkippedTransient));
    assert!(matches!(w.state, WatcherState::Streaming { .. }));
}

#[test]
fn resolution_failure_is_fatal_to_that_watcher() {
    let mut w = PoolWatcher::new(addr(10), pair());
    match w.step(WatchEvent::Token0Failed) {
        WatchStep::Stopped(WatcherOutcome::ResolutionFailed) => {}
        _ => panic!("a failed token-0 query must close the watcher"),
    }
    assert!(matches!(w.step(WatchEvent::Token0Resolved(addr(1))), WatchStep::Ignored));
}

#[test]
fn cancellation_applies_at_any_suspension_point() {
    let mut w = PoolWatcher::new(addr(10), pair());
    assert!(matches!(
        w.step(WatchEvent::Cancelled),
        WatchStep::Stopped(WatcherOutcome::Cancelled)
    ));
    let mut w2 = PoolWatcher::new(addr(11), pair());
    w2.step(WatchEvent::Token0Resolved(addr(1)));
    assert!(matches!(
        w2.step(WatchEvent::Cancelled),
        WatchStep::Stopped(WatcherOutcome::Cancelled)
    ));
}

#[test]
fn convert_stream_keeps_arrival_order_and_skips_degenerates() {
    let events = vec![swap(1, 11), zero_swap(), swap(2, 22)];
    let records = convert_stream(addr(10), &pair(), addr(1), &events);
    assert_eq!(records.len(), 2);
    assert_eq!(records[0].amount0, amount(11));
    assert_eq!(records[1].amount0, amount(22));
    assert_eq!(records[0].pool, addr(10));
    let one = Price { num: BigNat::from_u64(1), den: BigNat::from_u64(1) };
    assert!(records[0].price.same_value(&one));
}

#[test]
fn convert_stream_of_no_events_emits_nothing() {
    let records = convert_stream(addr(10), &pair(), addr(1), &vec![]);
    assert!(records.is_empty());
}

#[test]
fn one_failed_subscription_does_not_stop_the_siblings() {
    let pools = vec![addr(10), addr(20), addr(30)];
    let mut watchers = init_watchers(&pools, &pair());
    assert_eq!(watchers.len(), 3);

    // Pool 20's subscription immediately fails to open.
    watchers[1].step(WatchEvent::StreamFailed);

    // The other two still resolve, deliver their events, and finish.
    for idx in [0usize, 2usize] {
        watchers[idx].step(WatchEvent::Token0Resolved(addr(1)));
        match watchers[idx].step(WatchEvent::Swap(swap(1, 9))) {
            WatchStep::Emitted(rec) => assert_eq!(rec.pool, pools[idx]),
            _ => panic!("a healthy watcher must keep emitting"),
        }
        watchers[idx].step(WatchEvent::StreamEnded);
    }

    // Exactly one failed outcome, two normal completions, none running.
    let report = summarize(&watchers);
    assert_eq!(report.connection_failed, 1);
    assert_eq!(report.ended, 2);
    assert_eq!(report.running, 0);
    assert_eq!(report.cancelled, 0);
    assert_eq!(report.resolution_failed, 0);
}

#[test]
fn report_counts_every_watcher_exactly_once() {
    let pools = vec![addr(1), addr(2), addr(3), addr(4), addr(5)];
    let mut watchers = init_watchers(&pools, &pair());
    watchers[0].step(WatchEvent::Token0Failed);
    watchers[1].step(WatchEvent::Cancelled);
    watchers[2].step(WatchEvent::Token0Resolved(addr(1)));
    watchers[3].step(WatchEvent::Token0Resolved(addr(1)));
    watchers[3].step(WatchEvent::StreamEnded);
    // watchers[4] still initializing.
    let report = summarize(&watchers);
    assert_eq!(report.resolution_failed, 1);
    assert_eq!(report.cancelled, 1);
    assert_eq!(report.running, 2);
    assert_eq!(report.ended, 1);
    assert_eq!(report.connection_failed, 0);
    let total = report.running + report.ended + report.cancelled + report.connection_failed
        + report.resolution_failed;
    assert_eq!(total, watchers.len());
}
