//! Errors of the vault manager.

use crate::common::StdFailure;
use vstd::prelude::*;

verus! {

#[derive(Clone, Debug)]
pub enum ContractError {
    Std(StdFailure),
    Unauthorized { role: String },
    VaultNotFound { id: u64 },
    VaultNotActive {},
    InsufficientFunds {},
    InsufficientShares {},
    AssetNotFound { asset: String },
    InvalidStrategy { strategy: String },
    AgentNotWhitelisted {},
    InsufficientAssetBalance {},
}

} // verus!
