//! Errors of the reputation registry.

use crate::common::StdFailure;
use vstd::prelude::*;

verus! {

#[derive(Clone, Debug)]
pub enum ContractError {
    Std(StdFailure),
    Unauthorized { role: String },
    BadgeNotFound { id: u64 },
    AgentNotFound { address: String },
    UserNotFound { address: String },
    InvalidTier { tier: String },
    AccuracyUnderflow {},
}

} // verus!
