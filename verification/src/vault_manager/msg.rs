//! Messages of the vault manager. Amounts are plain integers and times are
//! nanoseconds since the epoch.

use crate::common::Coin;
use vstd::prelude::*;

verus! {

/// Instantiate the vault manager.
#[derive(Clone, Debug)]
pub struct InstantiateMsg {
    pub admin: String,
    /// Protocol fee in basis points on profits.
    pub fee_rate_bps: u64,
}

#[derive(Clone, Debug)]
pub enum ExecuteMsg {
    /// Create a vault with a strategy: Conservative, Balanced or Aggressive.
    CreateVault { name: String, strategy_type: String },
    /// Deposit the attached coins into a vault and receive shares.
    Deposit { vault_id: u64 },
    /// Withdraw assets by burning shares.
    Withdraw { vault_id: u64, share_amount: u128 },
    /// Move an amount from one asset of a vault to another (whitelisted agents only).
    Rebalance { vault_id: u64, from_asset: String, to_asset: String, amount: u128, reason: String },
    UpdateConfig { admin: Option<String>, fee_rate_bps: Option<u64> },
    /// Whitelist an agent for rebalancing, or remove it.
    UpdateWhitelist { agent: String, add: bool },
    /// Activate or deactivate a vault.
    SetVaultActive { vault_id: u64, active: bool },
}

#[derive(Clone, Debug)]
pub enum QueryMsg {
    GetVault { vault_id: u64 },
    ListVaults { start_after: Option<u64>, limit: Option<u32> },
    GetVaultPositions { vault_id: u64 },
    GetUserDeposits { owner: String, start_after: Option<u64>, limit: Option<u32> },
    GetRebalanceHistory { vault_id: u64, start_after: Option<u64>, limit: Option<u32> },
}

#[derive(Clone, Debug)]
pub struct VaultResponse {
    pub id: u64,
    pub name: String,
    pub strategy_type: String,
    pub owner: String,
    pub assets: Vec<Coin>,
    pub total_value: u128,
    pub total_shares: u128,
    pub performance_history: Vec<PerformancePoint>,
    pub risk_score: u8,
    pub agent_count: u32,
    pub is_active: bool,
    pub created_at: u64,
}

#[derive(PartialEq, Eq, Structural, Clone, Copy, Debug)]
pub struct PerformancePoint {
    pub timestamp: u64,
    pub value: u128,
}

#[derive(Clone, Debug)]
pub struct VaultsResponse {
    pub vaults: Vec<VaultResponse>,
}

#[derive(Clone, Debug)]
pub struct VaultPositionsResponse {
    pub vault_id: u64,
    pub assets: Vec<Coin>,
}

#[derive(Clone, Debug)]
pub struct DepositResponse {
    pub depositor: String,
    pub vault_id: u64,
    pub amount: u128,
    pub deposited_at: u64,
    pub shares: u128,
}

#[derive(Clone, Debug)]
pub struct DepositsResponse {
    pub deposits: Vec<DepositResponse>,
}

#[derive(Clone, Debug)]
pub struct RebalanceEventResponse {
    pub vault_id: u64,
    pub from_asset: String,
    pub to_asset: String,
    pub amount: u128,
    pub triggered_by: String,
    pub reason: String,
    pub executed_at: u64,
}

#[derive(Clone, Debug)]
pub struct RebalanceHistoryResponse {
    pub events: Vec<RebalanceEventResponse>,
}

} // verus!
