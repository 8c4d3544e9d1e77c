//! Stored values of the vault manager. Amounts are plain integers and times
//! are nanoseconds since the epoch.

use crate::common::Coin;
use vstd::prelude::*;

verus! {

#[derive(Clone, Debug)]
pub struct Config {
    pub admin: String,
    pub fee_rate_bps: u64,
}

/// A single performance history data point.
#[derive(PartialEq, Eq, Structural, Clone, Copy, Debug)]
pub struct PerformancePoint {
    pub timestamp: u64,
    pub value: u128,
}

/// A vault that holds assets and is rebalanced by AI agents.
#[derive(Clone, Debug)]
pub struct Vault {
    pub id: u64,
    pub name: String,
    pub strategy_type: String,
    pub owner: String,
    /// Asset allocations, one coin per denomination.
    pub assets: Vec<Coin>,
    /// Total notional value of all assets.
    pub total_value: u128,
    /// Total outstanding vault shares.
    pub total_shares: u128,
    /// At most the last 100 values after a deposit or withdrawal.
    pub performance_history: Vec<PerformancePoint>,
    pub risk_score: u8,
    pub agent_count: u32,
    pub is_active: bool,
    pub created_at: u64,
}

/// A depositor's holding in a vault: the amounts deposited and the shares
/// held, which every deposit adds to; stored under `(vault_id, depositor)`.
#[derive(Clone, Debug)]
pub struct VaultDeposit {
    pub depositor: String,
    pub vault_id: u64,
    pub amount: u128,
    pub deposited_at: u64,
    pub shares: u128,
}

/// A historical record of a rebalance.
#[derive(Clone, Debug)]
pub struct RebalanceEvent {
    pub id: u64,
    pub vault_id: u64,
    pub from_asset: String,
    pub to_asset: String,
    pub amount: u128,
    pub triggered_by: String,
    pub reason: String,
    pub executed_at: u64,
}

} // verus!
