//! Messages of the swarm oracle. Amounts are plain integers and times are
//! nanoseconds since the epoch.

use vstd::prelude::*;

verus! {

/// Instantiate the oracle with its governance parameters.
#[derive(Clone, Debug)]
pub struct InstantiateMsg {
    /// Multisig / DAO address that owns the contract.
    pub owner: String,
    /// Operator allowed to update agent reputations.
    pub admin: String,
    /// Minimum number of agents whose recent prices must lie within
    /// `acceptable_deviation_bps` of the median before a consensus is emitted.
    pub min_agents_for_consensus: u32,
    /// Maximum age, in seconds, of a submission that still counts.
    pub max_age_seconds: u64,
    /// Acceptable price deviation in basis points.
    pub acceptable_deviation_bps: u64,
}

#[derive(Clone, Debug)]
pub enum ExecuteMsg {
    RegisterAgent { name: String, agent_type: String },
    SubmitPrice { asset_pair: String, price: u128, confidence: u8 },
    SubmitStigmergySignal { signal_type: String, data_hash: String, strength: u128, decay_rate: u64 },
    UpdateAgentReputation { agent: String, reputation_delta: i64, accuracy_delta: i64 },
    UpdateConfig {
        admin: Option<String>,
        min_agents_for_consensus: Option<u32>,
        max_age_seconds: Option<u64>,
        acceptable_deviation_bps: Option<u64>,
    },
}

#[derive(Clone, Debug)]
pub enum QueryMsg {
    GetPrice { asset_pair: String },
    GetAgent { address: String },
    ListAgents { start_after: Option<String>, limit: Option<u32> },
    GetConsensusPrice { asset_pair: String },
    GetStigmergySignals { signal_type: Option<String>, start_after: Option<u64>, limit: Option<u32> },
}

#[derive(Clone, Debug)]
pub struct PriceFeedResponse {
    pub asset_pair: String,
    pub price: u128,
    pub confidence: u8,
    pub submitted_by: String,
    pub submitted_at: u64,
    pub consensus_weight: u128,
    pub agent_signatures: Vec<String>,
}

#[derive(Clone, Debug)]
pub struct AgentResponse {
    pub address: String,
    pub name: String,
    pub agent_type: String,
    pub reputation_score: u64,
    pub total_submissions: u64,
    pub accuracy_score: u64,
    pub is_active: bool,
    pub registered_at: u64,
}

#[derive(Clone, Debug)]
pub struct AgentsResponse {
    pub agents: Vec<AgentResponse>,
}

#[derive(Clone, Debug)]
pub struct ConsensusPriceResponse {
    pub asset_pair: String,
    pub price: u128,
    pub agent_count: u32,
    pub computed_at: u64,
    pub confidence: u8,
}

#[derive(Clone, Debug)]
pub struct StigmergySignalsResponse {
    pub signals: Vec<StigmergySignalResponse>,
}

#[derive(Clone, Debug)]
pub struct StigmergySignalResponse {
    pub signal_type: String,
    pub from_agent: String,
    pub data_hash: String,
    pub strength: u128,
    pub deposited_at: u64,
    pub decay_rate: u64,
}

} // verus!
