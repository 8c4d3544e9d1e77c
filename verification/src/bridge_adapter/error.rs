//! Errors of the bridge adapter.

use crate::common::StdFailure;
use vstd::prelude::*;

verus! {

#[derive(Clone, Debug)]
pub enum ContractError {
    Std(StdFailure),
    Unauthorized { role: String },
    TransferNotFound { id: u64 },
    TransferAlreadySettled {},
    AssetNotAllowed { asset: String },
    BelowMinimum {},
    InsufficientFunds {},
}

} // verus!
