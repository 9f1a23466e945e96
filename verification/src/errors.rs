//! The failure taxonomy of the order engine.
//!
//! Every operation of the engine maps to exactly one success or failure
//! outcome; these are the failures a caller can observe.

use vstd::prelude::*;

verus! {

/// A typed failure of an engine operation.
#[derive(Clone, Copy, Debug, PartialEq, Eq, Structural)]
pub enum TradeError {
    /// A deposit or reservation amount was not positive.
    InvalidAmount,
    /// A cash debit would have made the balance negative.
    InsufficientFunds,
    /// A share debit would have made a holding negative.
    InsufficientShares,
    /// Commit or cancel was called with no queued order to act on.
    NoPendingOrder,
    /// A trigger operation named a standing order that does not exist.
    NoStandingOrder,
    /// The queued order was older than its validity window; any reserved
    /// funds or shares have been restored.
    OrderExpired,
    /// The quote source could not produce a price.
    QuoteUnavailable,
}

/// The short text of each failure.
pub open spec fn spec_message(e: TradeError) -> Seq<char> {
    match e {
        TradeError::InvalidAmount => "amount must be positive"@,
        TradeError::InsufficientFunds => "insufficient funds"@,
        TradeError::InsufficientShares => "insufficient shares"@,
        TradeError::NoPendingOrder => "no pending order"@,
        TradeError::NoStandingOrder => "no standing order"@,
        TradeError::OrderExpired => "order expired"@,
        TradeError::QuoteUnavailable => "quote unavailable"@,
    }
}

impl TradeError {
    /// A short human-readable name for the failure.
    pub fn message(&self) -> (r: &'static str)
        ensures
            r@ == spec_message(*self),
    {
        match self {
            TradeError::InvalidAmount => "amount must be positive",
            TradeError::InsufficientFunds => "insufficient funds",
            TradeError::InsufficientShares => "insufficient shares",
            TradeError::NoPendingOrder => "no pending order",
            TradeError::NoStandingOrder => "no standing order",
            TradeError::OrderExpired => "order expired",
            TradeError::QuoteUnavailable => "quote unavailable",
        }
    }
}

} // verus!
