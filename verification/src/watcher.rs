//! The per-pool watcher.
//!
//! One watcher drives one pool's swap subscription: it resolves which side of
//! the caller's pair is the pool's canonical token 0 exactly once, caches the
//! answer, then turns each arriving swap event into a price record until the
//! stream ends, fails, or the monitor cancels it. The watcher itself is a
//! state machine over plain values; the surrounding program performs the
//! suspending calls and feeds their results in as [`WatchEvent`]s, so every
//! decision the watcher makes is verified here.

use vstd::prelude::*;
use crate::bignum::BigNat;
use crate::price::{
    compute_price, decimal_diff, price_den, price_num, Address, ConversionError, Price, TokenPair,
};

verus! {

/// A signed 256-bit quantity, split into a signed high half and an unsigned
/// low half; its value is `hi * 2^128 + lo`. Swap deltas are carried through
/// to the emitted record unchanged, so no arithmetic is done on them.
#[derive(Clone, Copy, PartialEq, Eq, Structural, Debug)]
pub struct SignedAmount {
    pub hi: i128,
    pub lo: u128,
}

/// One observed swap, as delivered by a pool's event subscription. Consumed
/// immediately: it feeds exactly one conversion and is never retained.
pub struct SwapEvent {
    pub sender: Address,
    pub recipient: Address,
    pub amount0: SignedAmount,
    pub amount1: SignedAmount,
    pub liquidity: u128,
    pub tick: i32,
    pub sqrt_price_x96: BigNat,
}

/// One output record: the pool it came from, the swap's two raw amount
/// deltas, and the computed exact price.
pub struct PriceRecord {
    pub pool: Address,
    pub amount0: SignedAmount,
    pub amount1: SignedAmount,
    pub price: Price,
}

/// Why a watcher reached `Closed`. Terminal outcomes are explicit: the caller
/// can always tell a stream that ended normally from one that failed, and
/// either from a watcher still running.
#[derive(Clone, Copy, PartialEq, Eq, Structural, Debug)]
pub enum WatcherOutcome {
    /// The subscription was exhausted and ended normally.
    Ended,
    /// The monitor's cancellation signal was observed.
    Cancelled,
    /// The subscription failed to open or terminated abnormally.
    ConnectionFailed,
    /// The token-0 query failed; prices cannot be oriented without it.
    ResolutionFailed,
}

/// The watcher's lifecycle. The token-0 side is resolved once, on the way
/// from `Initializing` to `Streaming`, and cached for the watcher's whole
/// life; there is no transition out of `Closed`.
#[derive(Clone, Copy, PartialEq, Eq, Structural, Debug)]
pub enum WatcherState {
    /// Waiting for the one-time token-0 query to come back.
    Initializing,
    /// Consuming the subscription, with the resolved token-0 side cached.
    Streaming { pool_token0: Address },
    /// The subscription is over; the outcome is final.
    Closed { outcome: WatcherOutcome },
}

/// What the surrounding program observed at a suspension point and hands to
/// the watcher: the result of the token-0 query, one item of the event
/// stream, or a lifecycle signal.
pub enum WatchEvent {
    /// The token-0 query answered with the pool's canonical token 0.
    Token0Resolved(Address),
    /// The token-0 query failed.
    Token0Failed,
    /// The subscription delivered one swap.
    Swap(SwapEvent),
    /// The subscription delivered a transient per-item error; the stream
    /// itself is still alive.
    ItemError,
    /// The subscription was exhausted normally.
    StreamEnded,
    /// The subscription failed to open or terminated abnormally.
    StreamFailed,
    /// The monitor's cancellation signal fired.
    Cancelled,
}

/// What one step of the watcher asks the surrounding program to do.
pub enum WatchStep {
    /// The token-0 side is resolved; open the subscription and stream.
    Started,
    /// Deliver this record to the sink.
    Emitted(PriceRecord),
    /// Report the degenerate event and go on with the stream.
    SkippedConversion(ConversionError),
    /// Log the transient delivery error and go on with the stream.
    SkippedTransient,
    /// The watcher is done; surface this outcome to the caller.
    Stopped(WatcherOutcome),
    /// The event does not apply to the current state; nothing changed.
    Ignored,
}

/// The mathematical content of a price record: where it came from, the raw
/// deltas carried through, and the exact rational price.
pub struct RecordModel {
    pub pool: Address,
    pub amount0: SignedAmount,
    pub amount1: SignedAmount,
    pub num: int,
    pub den: int,
}

/// The model a concrete record denotes.
pub open spec fn record_model(r: PriceRecord) -> RecordModel {
    RecordModel {
        pool: r.pool,
        amount0: r.amount0,
        amount1: r.amount1,
        num: r.price.num@ as int,
        den: r.price.den@ as int,
    }
}

/// Whether a swap event has a convertible price: anything but a zero
/// square-root price.
pub open spec fn convertible(e: SwapEvent) -> bool {
    e.sqrt_price_x96@ != 0
}

/// The record a single swap event must produce for a given pool, pair and
/// resolved token-0 side.
pub open spec fn swap_model(pool: Address, pair: TokenPair, pool_token0: Address, e: SwapEvent)
    -> RecordModel {
    RecordModel {
        pool,
        amount0: e.amount0,
        amount1: e.amount1,
        num: price_num(e.sqrt_price_x96@, decimal_diff(pair), pool_token0 == pair.base.address),
        den: price_den(e.sqrt_price_x96@, decimal_diff(pair), pool_token0 == pair.base.address),
    }
}

/// The records an in-order event stream must produce: one per convertible
/// event, in exactly the stream's order; degenerate events are skipped.
pub open spec fn stream_models(
    pool: Address,
    pair: TokenPair,
    pool_token0: Address,
    events: Seq<SwapEvent>,
) -> Seq<RecordModel>
    decreases events.len(),
{
    if events.len() == 0 {
        Seq::empty()
    } else {
        let prefix = stream_models(pool, pair, pool_token0, events.drop_last());
        if convertible(events.last()) {
            prefix.push(swap_model(pool, pair, pool_token0, events.last()))
        } else {
            prefix
        }
    }
}

/// One pool's watcher: the pool it is bound to, the shared read-only pair,
/// and its lifecycle state.
pub struct PoolWatcher {
    pub pool: Address,
    pub pair: TokenPair,
    pub state: WatcherState,
}

impl PoolWatcher {
    /// A fresh watcher for one pool, about to resolve its token-0 side.
    pub fn new(pool: Address, pair: TokenPair) -> (w: PoolWatcher)
        ensures
            w.pool == pool,
            w.pair == pair,
            w.state is Initializing,
    {
        PoolWatcher { pool, pair, state: WatcherState::Initializing }
    }

    /// Advances the state machine by one observed event.
    ///
    /// In `Initializing` the watcher waits only for the token-0 answer; a
    /// failed query is fatal to this watcher alone, as is a subscription
    /// that fails to open, and cancellation applies at every suspension
    /// point. In `Streaming` each swap is converted and emitted in arrival
    /// order; a degenerate swap or a transient item error is reported and
    /// skipped without leaving the stream; stream end, stream failure and
    /// cancellation are terminal. `Closed` is absorbing, and an event that
    /// does not apply to the current state changes nothing.
    pub fn step(&mut self, event: WatchEvent) -> (r: WatchStep)
        ensures
            final(self).pool == old(self).pool,
            final(self).pair == old(self).pair,
            old(self).state is Closed ==> final(self).state == old(self).state && r is Ignored,
            old(self).state is Initializing ==> match event {
                WatchEvent::Token0Resolved(t0) => final(self).state == (WatcherState::Streaming {
                    pool_token0: t0,
                }) && r is Started,
                WatchEvent::Token0Failed => final(self).state == (WatcherState::Closed {
                    outcome: WatcherOutcome::ResolutionFailed,
                }) && r == WatchStep::Stopped(WatcherOutcome::ResolutionFailed),
                WatchEvent::StreamFailed => final(self).state == (WatcherState::Closed {
                    outcome: WatcherOutcome::ConnectionFailed,
                }) && r == WatchStep::Stopped(WatcherOutcome::ConnectionFailed),
                WatchEvent::Cancelled => final(self).state == (WatcherState::Closed {
                    outcome: WatcherOutcome::Cancelled,
                }) && r == WatchStep::Stopped(WatcherOutcome::Cancelled),
                _ => final(self).state == old(self).state && r is Ignored,
            },
            old(self).state matches WatcherState::Streaming { pool_token0 } ==> match event {
                WatchEvent::Swap(e) => final(self).state == old(self).state && (if convertible(e) {
                    r matches WatchStep::Emitted(rec) && record_model(rec) == swap_model(
                        old(self).pool,
                        old(self).pair,
                        pool_token0,
                        e,
                    ) && rec.price.wf()
                } else {
                    r == WatchStep::SkippedConversion(ConversionError::ZeroSqrtPrice)
                }),
                WatchEvent::ItemError => final(self).state == old(self).state
                    && r is SkippedTransient,
                WatchEvent::StreamEnded => final(self).state == (WatcherState::Closed {
                    outcome: WatcherOutcome::Ended,
                }) && r == WatchStep::Stopped(WatcherOutcome::Ended),
                WatchEvent::StreamFailed => final(self).state == (WatcherState::Closed {
                    outcome: WatcherOutcome::ConnectionFailed,
                }) && r == WatchStep::Stopped(WatcherOutcome::ConnectionFailed),
                WatchEvent::Cancelled => final(self).state == (WatcherState::Closed {
                    outcome: WatcherOutcome::Cancelled,
                }) && r == WatchStep::Stopped(WatcherOutcome::Cancelled),
                _ => final(self).state == old(self).state && r is Ignored,
            },
    {
        let current = self.state;
        match current {
            WatcherState::Closed { .. } => WatchStep::Ignored,
            WatcherState::Initializing => match event {
                WatchEvent::Token0Resolved(t0) => {
                    self.state = WatcherState::Streaming { pool_token0: t0 };
                    WatchStep::Started
                },
                WatchEvent::Token0Failed => {
                    self.state = WatcherState::Closed {
                        outcome: WatcherOutcome::ResolutionFailed,
                    };
                    WatchStep::Stopped(WatcherOutcome::ResolutionFailed)
                },
                WatchEvent::StreamFailed => {
                    self.state = WatcherState::Closed {
                        outcome: WatcherOutcome::ConnectionFailed,
                    };
                    WatchStep::Stopped(WatcherOutcome::ConnectionFailed)
                },
                WatchEvent::Cancelled => {
                    self.state = WatcherState::Closed { outcome: WatcherOutcome::Cancelled };
                    WatchStep::Stopped(WatcherOutcome::Cancelled)
                },
                _ => WatchStep::Ignored,
            },
            WatcherState::Streaming { pool_token0 } => match event {
                WatchEvent::Swap(e) => match compute_price(
                    &self.pair,
                    &e.sqrt_price_x96,
                    pool_token0,
                ) {
                    Ok(price) => WatchStep::Emitted(
                        PriceRecord {
                            pool: self.pool,
                            amount0: e.amount0,
                            amount1: e.amount1,
                            price,
                        },
                    ),
                    Err(err) => WatchStep::SkippedConversion(err),
                },
                WatchEvent::ItemError => WatchStep::SkippedTransient,
                WatchEvent::StreamEnded => {
                    self.state = WatcherState::Closed { outcome: WatcherOutcome::Ended };
                    WatchStep::Stopped(WatcherOutcome::Ended)
                },
                WatchEvent::StreamFailed => {
                    self.state = WatcherState::Closed {
                        outcome: WatcherOutcome::ConnectionFailed,
                    };
                    WatchStep::Stopped(WatcherOutcome::ConnectionFailed)
                },
                WatchEvent::Cancelled => {
                    self.state = WatcherState::Closed { outcome: WatcherOutcome::Cancelled };
                    WatchStep::Stopped(WatcherOutcome::Cancelled)
                },
                _ => WatchStep::Ignored,
            },
        }
    }
}

/// Converts a finished stream prefix in one pass: the batch form of the
/// `Streaming` loop, as the single-pool runner uses it. The records come out
/// one per convertible event, in exactly the events' arrival order.
pub fn convert_stream(
    pool: Address,
    pair: &TokenPair,
    pool_token0: Address,
    events: &Vec<SwapEvent>,
) -> (records: Vec<PriceRecord>)
    ensures
        records@.map_values(|r: PriceRecord| record_model(r)) == stream_models(
            pool,
            *pair,
            pool_token0,
            events@,
        ),
        forall|i: int| 0 <= i < records@.len() ==> (#[trigger] records@[i]).price.wf(),
{
    let mut records: Vec<PriceRecord> = Vec::new();
    let mut i: usize = 0;
    proof {
        assert(events@.take(0) =~= Seq::<SwapEvent>::empty());
        assert(records@.map_values(|r: PriceRecord| record_model(r)) =~= Seq::<
            RecordModel,
        >::empty());
    }
    while i < events.len()
        invariant
            i <= events.len(),
            records@.map_values(|r: PriceRecord| record_model(r)) == stream_models(
                pool,
                *pair,
                pool_token0,
                events@.take(i as int),
            ),
            forall|k: int| 0 <= k < records@.len() ==> (#[trigger] records@[k]).price.wf(),
        decreases events.len() - i,
    {
        let e = &events[i];
        let ghost prev = records@;
        match compute_price(pair, &e.sqrt_price_x96, pool_token0) {
            Ok(price) => {
                records.push(
                    PriceRecord { pool, amount0: e.amount0, amount1: e.amount1, price },
                );
            },
            Err(_) => {},
        }
        proof {
            assert(events@.take(i + 1).drop_last() =~= events@.take(i as int));
            assert(events@.take(i + 1).last() == events@[i as int]);
            assert(records@.map_values(|r: PriceRecord| record_model(r)) =~= stream_models(
                pool,
                *pair,
                pool_token0,
                events@.take(i + 1),
            ));
        }
        i = i + 1;
    }
    proof {
        assert(events@.take(events@.len() as int) =~= events@);
    }
    records
}

/// Ordering: a pool that emits two convertible events in the order first,
/// second must have its records delivered in that same order — the stream's
/// model is exactly the two swaps' records, first one first.
pub proof fn lemma_emission_order(
    pool: Address,
    pair: TokenPair,
    pool_token0: Address,
    first: SwapEvent,
    second: SwapEvent,
)
    requires
        convertible(first),
        convertible(second),
    ensures
        stream_models(pool, pair, pool_token0, seq![first, second]) == seq![
            swap_model(pool, pair, pool_token0, first),
            swap_model(pool, pair, pool_token0, second),
        ],
{
    let two = seq![first, second];
    assert(two.drop_last() =~= seq![first]);
    assert(seq![first].drop_last() =~= Seq::<SwapEvent>::empty());
    assert(stream_models(pool, pair, pool_token0, Seq::<SwapEvent>::empty())
        =~= Seq::<RecordModel>::empty());
    assert(seq![first].last() == first);
    assert(stream_models(pool, pair, pool_token0, seq![first])
        =~= seq![swap_model(pool, pair, pool_token0, first)]);
    assert(two.last() == second);
    assert(stream_models(pool, pair, pool_token0, two) =~= seq![
        swap_model(pool, pair, pool_token0, first),
        swap_model(pool, pair, pool_token0, second),
    ]);
}

} // verus!
