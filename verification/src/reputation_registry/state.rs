//! Stored values of the reputation registry. Times are nanoseconds since the epoch.

use vstd::prelude::*;

verus! {

#[derive(Clone, Debug)]
pub struct Config {
    pub admin: String,
}

/// Reputation tier thresholds on the accuracy score (0–1000):
/// - Bronze:   score < 500
/// - Silver:   500 ≤ score < 750
/// - Gold:     750 ≤ score < 900
/// - Platinum: score ≥ 900
#[derive(PartialEq, Eq, Structural, Clone, Copy, Debug)]
pub enum ReputationTier {
    Bronze,
    Silver,
    Gold,
    Platinum,
}

/// The name of a tier.
pub open spec fn tier_label(t: ReputationTier) -> Seq<char> {
    match t {
        ReputationTier::Bronze => "Bronze"@,
        ReputationTier::Silver => "Silver"@,
        ReputationTier::Gold => "Gold"@,
        ReputationTier::Platinum => "Platinum"@,
    }
}

/// The tier a name stands for; any unknown name stands for Bronze.
pub open spec fn parse_tier(s: Seq<char>) -> ReputationTier {
    if s == "Silver"@ {
        ReputationTier::Silver
    } else if s == "Gold"@ {
        ReputationTier::Gold
    } else if s == "Platinum"@ {
        ReputationTier::Platinum
    } else {
        ReputationTier::Bronze
    }
}

/// The tier of an accuracy score.
pub open spec fn tier_of_score(score: u64) -> ReputationTier {
    if score >= 900 {
        ReputationTier::Platinum
    } else if score >= 750 {
        ReputationTier::Gold
    } else if score >= 500 {
        ReputationTier::Silver
    } else {
        ReputationTier::Bronze
    }
}

/// The rank of a tier, Bronze lowest.
pub open spec fn tier_rank(t: ReputationTier) -> int {
    match t {
        ReputationTier::Bronze => 0,
        ReputationTier::Silver => 1,
        ReputationTier::Gold => 2,
        ReputationTier::Platinum => 3,
    }
}

impl ReputationTier {
    pub fn as_str(&self) -> (r: &'static str)
        ensures
            r@ == tier_label(*self),
    {
        match self {
            ReputationTier::Bronze => "Bronze",
            ReputationTier::Silver => "Silver",
            ReputationTier::Gold => "Gold",
            ReputationTier::Platinum => "Platinum",
        }
    }

    /// Determine the tier of an accuracy score.
    pub fn from_score(score: u64) -> (r: Self)
        ensures
            r == tier_of_score(score),
    {
        if score >= 900 {
            ReputationTier::Platinum
        } else if score >= 750 {
            ReputationTier::Gold
        } else if score >= 500 {
            ReputationTier::Silver
        } else {
            ReputationTier::Bronze
        }
    }

    /// Parse a tier name, falling back to Bronze.
    pub fn from_string(s: &str) -> (r: Self)
        ensures
            r == parse_tier(s@),
    {
        let owned: String = s.to_owned();
        if crate::common::same_text(&owned, "Silver") {
            ReputationTier::Silver
        } else if crate::common::same_text(&owned, "Gold") {
            ReputationTier::Gold
        } else if crate::common::same_text(&owned, "Platinum") {
            ReputationTier::Platinum
        } else {
            ReputationTier::Bronze
        }
    }
}

/// Reading back the name of a tier gives the tier.
pub proof fn lemma_tier_label_round_trip(t: ReputationTier)
    ensures
        parse_tier(tier_label(t)) == t,
{
    reveal_strlit("Bronze");
    reveal_strlit("Silver");
    reveal_strlit("Gold");
    reveal_strlit("Platinum");
    assert("Bronze"@.len() == 6);
    assert("Silver"@.len() == 6);
    assert("Gold"@.len() == 4);
    assert("Platinum"@.len() == 8);
    assert("Bronze"@[0] == 'B');
    assert("Silver"@[0] == 'S');
}

/// A higher accuracy score never gives a lower tier.
pub proof fn lemma_tier_monotone(lower: u64, higher: u64)
    requires
        lower <= higher,
    ensures
        tier_rank(tier_of_score(lower)) <= tier_rank(tier_of_score(higher)),
{
}

#[derive(Clone, Debug)]
pub struct AgentReputation {
    pub agent_address: String,
    pub total_tasks: u32,
    pub successful_tasks: u32,
    /// 0–1000.
    pub accuracy_score: u64,
    /// Successful tasks per 10000 tasks (8500 = 85.00%).
    pub reliability_score: u64,
    pub tier: ReputationTier,
    pub updated_at: u64,
}

#[derive(Clone, Debug)]
pub struct UserReputation {
    pub address: String,
    pub total_bets: u32,
    pub correct_bets: u32,
    pub volume_contributed: u128,
    pub badges: Vec<u64>,
    pub created_at: u64,
}

#[derive(Clone, Debug)]
pub struct Badge {
    pub id: u64,
    pub name: String,
    pub description: String,
    pub icon: String,
}

} // verus!
