//! Watches liquidity-pool swap activity and turns each raw swap event into a
//! human-readable price.
//!
//! The verified core is the fixed-point price conversion engine and the
//! per-pool watcher state machine:
//!
//! - [`bignum`] holds the arbitrary-precision unsigned integers the price
//!   arithmetic is computed with.
//! - [`price`] converts a pool's 96-bit fixed-point square-root price into an
//!   exact rational price, oriented for the caller's token pair.
//! - [`fees`] maps a fee-tier selector to the pools it designates.
//! - [`watcher`] drives one pool's event subscription as a state machine,
//!   emitting one price record per swap event, in arrival order.
//! - [`monitor`] fans a shared token pair out to one watcher per pool and
//!   tallies each watcher's terminal outcome independently.
//!
//! Opening the RPC connection, resolving pool addresses on chain, and
//! performing the suspending calls themselves are left to the surrounding
//! program; the library makes every decision from plain values handed in.

pub mod bignum;
pub mod fees;
pub mod monitor;
pub mod price;
pub mod watcher;
