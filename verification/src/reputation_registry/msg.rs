//! Messages of the reputation registry. Amounts are plain integers and
//! times are nanoseconds since the epoch.

use vstd::prelude::*;

verus! {

/// Instantiate the reputation registry.
#[derive(Clone, Debug)]
pub struct InstantiateMsg {
    pub admin: String,
}

#[derive(Clone, Debug)]
pub enum ExecuteMsg {
    /// Record a completed task of an agent (success or failure).
    RecordAgentTask { agent: String, successful: bool, accuracy_delta: i64 },
    /// Admin sets an agent's tier (Bronze, Silver, Gold, Platinum).
    UpdateAgentTier { agent: String, tier: String },
    /// Award a badge to a user or agent.
    AwardBadge { recipient: String, badge_id: u64 },
    /// Record the outcome of a user's prediction.
    RecordUserPrediction { user: String, correct: bool, volume: u128 },
    /// Admin creates a badge definition.
    CreateBadge { name: String, description: String, icon: String },
}

#[derive(Clone, Debug)]
pub enum QueryMsg {
    GetAgentReputation { agent: String },
    GetUserReputation { address: String },
    ListTopAgents { start_after: Option<u32>, limit: Option<u32> },
    ListBadges { start_after: Option<u64>, limit: Option<u32> },
    GetUserBadges { address: String },
}

#[derive(Clone, Debug)]
pub struct AgentReputationResponse {
    pub agent_address: String,
    pub total_tasks: u32,
    pub successful_tasks: u32,
    pub accuracy_score: u64,
    pub reliability_score: u64,
    pub tier: String,
    pub updated_at: u64,
}

#[derive(Clone, Debug)]
pub struct UserReputationResponse {
    pub address: String,
    pub total_bets: u32,
    pub correct_bets: u32,
    pub volume_contributed: u128,
    pub badges: Vec<u64>,
    pub created_at: u64,
}

#[derive(Clone, Debug)]
pub struct TopAgentsResponse {
    pub agents: Vec<AgentReputationResponse>,
}

#[derive(Clone, Debug)]
pub struct BadgeResponse {
    pub id: u64,
    pub name: String,
    pub description: String,
    pub icon: String,
}

#[derive(Clone, Debug)]
pub struct BadgesResponse {
    pub badges: Vec<BadgeResponse>,
}

#[derive(Clone, Debug)]
pub struct UserBadgesResponse {
    pub address: String,
    pub badge_ids: Vec<u64>,
}

} // verus!
