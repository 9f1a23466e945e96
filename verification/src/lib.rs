//! A verified brokerage order engine: user accounts hold cash and stock
//! positions, purchases and sales go through a two-phase queue-then-commit
//! protocol with lazy expiry, standing triggers execute once a quoted price
//! crosses their threshold, and a single-flight quote cache feeds both the
//! request path and the trigger engine.
//!
//! All money amounts are integer cents; share amounts are whole shares.

use vstd::prelude::*;

pub mod audit;
pub mod cache;
pub mod commands;
pub mod errors;
pub mod laws;
pub mod ledger;
pub mod money;
pub mod orders;
pub mod otel;
pub mod triggers;
pub mod user_info;
pub mod wire;

verus! {

/// Validity window of a queued buy order, in seconds from its creation.
pub const BUY_ORDER_TTL_SECONDS: u64 = 60;

/// Validity window of a queued sell order, in seconds from its creation.
pub const SELL_ORDER_TTL_SECONDS: u64 = 300;

} // verus!
