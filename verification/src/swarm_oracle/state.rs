//! Stored values of the swarm oracle. Times are nanoseconds since the epoch.

use vstd::prelude::*;

verus! {

/// Global configuration.
#[derive(Clone, Debug)]
pub struct Config {
    pub owner: String,
    pub admin: String,
    pub min_agents_for_consensus: u32,
    pub max_age_seconds: u64,
    pub acceptable_deviation_bps: u64,
}

/// A registered AI oracle agent.
#[derive(Clone, Debug)]
pub struct Agent {
    pub address: String,
    pub name: String,
    pub agent_type: String,
    pub reputation_score: u64,
    pub total_submissions: u64,
    pub accuracy_score: u64,
    pub is_active: bool,
    pub registered_at: u64,
}

/// A single price submission from an agent; stored under
/// `(asset_pair, agent address)`, so each agent has one per pair.
#[derive(Clone, Debug)]
pub struct PriceFeed {
    pub asset_pair: String,
    pub price: u128,
    pub confidence: u8,
    pub submitted_by: String,
    pub submitted_at: u64,
    pub consensus_weight: u128,
    pub agent_signatures: Vec<String>,
}

/// The latest consensus price of an asset pair.
#[derive(Clone, Debug)]
pub struct ConsensusPrice {
    pub asset_pair: String,
    pub price: u128,
    pub agent_count: u32,
    pub computed_at: u64,
    pub confidence: u8,
}

/// A coordination signal deposited by an agent (ant-colony inspired).
#[derive(Clone, Debug)]
pub struct StigmergySignal {
    pub signal_type: String,
    pub from_agent: String,
    pub data_hash: String,
    pub strength: u128,
    pub deposited_at: u64,
    pub decay_rate: u64,
}

} // verus!
