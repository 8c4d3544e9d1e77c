//! Errors of the prediction market.

use crate::common::StdFailure;
use vstd::prelude::*;

verus! {

#[derive(Clone, Debug)]
pub enum ContractError {
    Std(StdFailure),
    Unauthorized { role: String },
    MarketNotFound { id: u64 },
    MarketNotActive {},
    MarketEnded {},
    MarketAlreadyResolved {},
    MarketAlreadyCancelled {},
    InvalidOutcome { outcome: String },
    ZeroAmount {},
    InsufficientFunds {},
    InsufficientPosition {},
    /// The price per token the trade would have had, shown in decimal.
    SlippageExceeded { actual: u128 },
    MaxMarketsReached {},
    TooFewOutcomes {},
    InvalidEndTime {},
}

} // verus!
