//! Messages of the bridge adapter. Amounts are plain integers and times
//! are nanoseconds since the epoch.

use vstd::prelude::*;

verus! {

/// Instantiate the bridge adapter: its admin, its fee rate in basis points
/// and the smallest amount it transfers.
#[derive(Clone, Debug)]
pub struct InstantiateMsg {
    pub admin: String,
    pub fee_rate: u64,
    pub min_transfer: u128,
}

#[derive(Clone, Debug)]
pub enum ExecuteMsg {
    /// Initiate a cross-chain transfer. The transfer amount must be attached.
    InitiateTransfer {
        recipient: String,
        asset: String,
        amount: u128,
        source_chain: String,
        dest_chain: String,
    },
    /// Complete a pending transfer (relayer / bridge module).
    CompleteTransfer { transfer_id: u64 },
    /// Mark a pending transfer as failed, refunding its sender.
    FailTransfer { transfer_id: u64 },
    /// Admin updates the configuration.
    UpdateConfig { admin: Option<String>, fee_rate: Option<u64>, min_transfer: Option<u128> },
    /// Admin adds an asset to, or removes it from, the allowed list.
    SetAllowedAsset { asset: String, allowed: bool },
}

#[derive(Clone, Debug)]
pub enum QueryMsg {
    GetTransfer { transfer_id: u64 },
    ListTransfers {
        sender: Option<String>,
        status: Option<String>,
        start_after: Option<u64>,
        limit: Option<u32>,
    },
    GetConfig,
}

#[derive(Clone, Debug)]
pub struct TransferResponse {
    pub id: u64,
    pub sender: String,
    pub recipient: String,
    pub asset: String,
    pub amount: u128,
    pub fee: u128,
    pub source_chain: String,
    pub dest_chain: String,
    pub status: String,
    pub created_at: u64,
    pub completed_at: Option<u64>,
}

#[derive(Clone, Debug)]
pub struct TransfersResponse {
    pub transfers: Vec<TransferResponse>,
}

#[derive(Clone, Debug)]
pub struct ConfigResponse {
    pub admin: String,
    pub fee_rate: u64,
    pub min_transfer: u128,
    pub allowed_assets: Vec<String>,
    pub transfer_count: u64,
}

} // verus!
