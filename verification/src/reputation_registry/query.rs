//! Queries of the reputation registry.

use crate::common::{entries_after, keep_after, StdFailure};
use crate::reputation_registry::msg::{
    AgentReputationResponse, BadgeResponse, BadgesResponse, TopAgentsResponse, UserBadgesResponse,
    UserReputationResponse,
};
use crate::reputation_registry::state::{tier_label, AgentReputation, Badge, UserReputation};
use vstd::prelude::*;

verus! {

/// `out` shows the agent reputation `a`, its tier by name.
pub open spec fn shows_agent(out: AgentReputationResponse, a: AgentReputation) -> bool {
    &&& out.agent_address@ == a.agent_address@
    &&& out.total_tasks == a.total_tasks
    &&& out.successful_tasks == a.successful_tasks
    &&& out.accuracy_score == a.accuracy_score
    &&& out.reliability_score == a.reliability_score
    &&& out.tier@ == tier_label(a.tier)
    &&& out.updated_at == a.updated_at
}

pub fn agent_response(a: &AgentReputation) -> (out: AgentReputationResponse)
    ensures
        shows_agent(out, *a),
{
    AgentReputationResponse {
        agent_address: a.agent_address.clone(),
        total_tasks: a.total_tasks,
        successful_tasks: a.successful_tasks,
        accuracy_score: a.accuracy_score,
        reliability_score: a.reliability_score,
        tier: a.tier.as_str().to_owned(),
        updated_at: a.updated_at,
    }
}

/// The reputation of an agent (stored under its validated address).
pub fn query_agent_reputation(rep: Result<AgentReputation, StdFailure>) -> (res: Result<
    AgentReputationResponse,
    StdFailure,
>)
    ensures
        match rep {
            Err(e) => res == Err::<AgentReputationResponse, StdFailure>(e),
            Ok(a) => res matches Ok(out) && shows_agent(out, a),
        },
{
    match rep {
        Err(e) => Err(e),
        Ok(a) => Ok(agent_response(&a)),
    }
}

/// The reputation of a user (stored under its validated address).
pub fn query_user_reputation(rep: Result<UserReputation, StdFailure>) -> (res: Result<
    UserReputationResponse,
    StdFailure,
>)
    ensures
        match rep {
            Err(e) => res == Err::<UserReputationResponse, StdFailure>(e),
            Ok(u) => res matches Ok(out) && out.address == u.address && out.total_bets == u.total_bets
                && out.correct_bets == u.correct_bets && out.volume_contributed == u.volume_contributed
                && out.badges == u.badges && out.created_at == u.created_at,
        },
{
    match rep {
        Err(e) => Err(e),
        Ok(u) => Ok(
            UserReputationResponse {
                address: u.address,
                total_bets: u.total_bets,
                correct_bets: u.correct_bets,
                volume_contributed: u.volume_contributed,
                badges: u.badges,
                created_at: u.created_at,
            },
        ),
    }
}

/// The badges a user holds.
pub fn query_user_badges(rep: Result<UserReputation, StdFailure>) -> (res: Result<UserBadgesResponse, StdFailure>)
    ensures
        match rep {
            Err(e) => res == Err::<UserBadgesResponse, StdFailure>(e),
            Ok(u) => res matches Ok(out) && out.address == u.address && out.badge_ids == u.badges,
        },
{
    match rep {
        Err(e) => Err(e),
        Ok(u) => Ok(UserBadgesResponse { address: u.address, badge_ids: u.badges }),
    }
}

// ── Top agents ────────────────────────────────────────────────────

/// `x` placed into `sorted` after every agent of at least its accuracy.
pub open spec fn insert_by_accuracy(sorted: Seq<AgentReputation>, x: AgentReputation) -> Seq<AgentReputation>
    decreases sorted.len(),
{
    if sorted.len() == 0 {
        seq![x]
    } else if sorted[0].accuracy_score < x.accuracy_score {
        seq![x] + sorted
    } else {
        seq![sorted[0]] + insert_by_accuracy(sorted.drop_first(), x)
    }
}

/// The agents in descending order of accuracy, agents of equal accuracy in
/// their given order (a stable sort).
pub open spec fn by_accuracy_desc(s: Seq<AgentReputation>) -> Seq<AgentReputation>
    decreases s.len(),
{
    if s.len() == 0 {
        Seq::empty()
    } else {
        insert_by_accuracy(by_accuracy_desc(s.drop_last()), s.last())
    }
}

pub open spec fn descending_accuracy(s: Seq<AgentReputation>) -> bool {
    forall|i: int, j: int| 0 <= i < j < s.len() ==> #[trigger] s[i].accuracy_score >= #[trigger] s[j].accuracy_score
}

/// The agents among the first `n` with an accuracy below `bound`, in order.
pub open spec fn below_accuracy(s: Seq<AgentReputation>, n: int, bound: int) -> Seq<AgentReputation>
    decreases n,
{
    if n <= 0 {
        Seq::empty()
    } else {
        let before = below_accuracy(s, n - 1, bound);
        if s[n - 1].accuracy_score < bound {
            before.push(s[n - 1])
        } else {
            before
        }
    }
}

proof fn lemma_insert_at(sorted: Seq<AgentReputation>, x: AgentReputation, j: int)
    requires
        0 <= j <= sorted.len(),
        forall|k: int| 0 <= k < j ==> #[trigger] sorted[k].accuracy_score >= x.accuracy_score,
        j < sorted.len() ==> sorted[j].accuracy_score < x.accuracy_score,
    ensures
        insert_by_accuracy(sorted, x) == sorted.insert(j, x),
    decreases sorted.len(),
{
    if sorted.len() == 0 {
        assert(sorted.insert(j, x) =~= seq![x]);
    } else if j == 0 {
        assert(sorted.insert(j, x) =~= seq![x] + sorted);
    } else {
        let rest = sorted.drop_first();
        assert forall|k: int| 0 <= k < j - 1 implies #[trigger] rest[k].accuracy_score >= x.accuracy_score by {
            assert(rest[k] == sorted[k + 1]);
        }
        lemma_insert_at(rest, x, j - 1);
        assert(sorted.insert(j, x) =~= seq![sorted[0]] + rest.insert(j - 1, x));
    }
}

fn copy_agent(a: &AgentReputation) -> (r: AgentReputation)
    ensures
        r == *a,
{
    AgentReputation {
        agent_address: a.agent_address.clone(),
        total_tasks: a.total_tasks,
        successful_tasks: a.successful_tasks,
        accuracy_score: a.accuracy_score,
        reliability_score: a.reliability_score,
        tier: a.tier,
        updated_at: a.updated_at,
    }
}

/// The best agents by accuracy. `agents` are the stored agent reputations
/// that could be read, in ascending address order. Those with an accuracy
/// below `start_after` (1001 by default, so all) are sorted by accuracy,
/// highest first and stably, and the first `limit` (20 by default) are shown.
pub fn query_list_top_agents(agents: Vec<AgentReputation>, start_after: Option<u32>, limit: Option<u32>) -> (res:
    TopAgentsResponse)
    ensures
        ({
            let bound = match start_after {
                Some(b) => b as int,
                None => 1001,
            };
            let page = match limit {
                Some(l) => l as int,
                None => 20,
            };
            let ranked = by_accuracy_desc(below_accuracy(agents@, agents@.len() as int, bound));
            let shown = if page < ranked.len() { ranked.take(page) } else { ranked };
            &&& res.agents@.len() == shown.len()
            &&& forall|i: int| 0 <= i < shown.len() ==> shows_agent(#[trigger] res.agents@[i], shown[i])
            &&& descending_accuracy(shown)
        }),
{
    let bound: u64 = match start_after {
        Some(b) => b as u64,
        None => 1001,
    };
    let page: u64 = match limit {
        Some(l) => l as u64,
        None => 20,
    };
    let ghost filtered = below_accuracy(agents@, agents@.len() as int, bound as int);
    let mut ranked: Vec<AgentReputation> = Vec::new();
    let mut i: usize = 0;
    while i < agents.len()
        invariant
            i <= agents.len(),
            ranked@ == by_accuracy_desc(below_accuracy(agents@, i as int, bound as int)),
            descending_accuracy(ranked@),
        decreases agents.len() - i,
    {
        if agents[i].accuracy_score < bound {
            let x = copy_agent(&agents[i]);
            let mut j: usize = 0;
            while j < ranked.len() && ranked[j].accuracy_score >= x.accuracy_score
                invariant
                    j <= ranked.len(),
                    forall|k: int| 0 <= k < j ==> #[trigger] ranked@[k].accuracy_score >= x.accuracy_score,
                decreases ranked.len() - j,
            {
                j = j + 1;
            }
            let ghost before = ranked@;
            proof {
                lemma_insert_at(before, x, j as int);
                let s = below_accuracy(agents@, i + 1, bound as int);
                assert(s.drop_last() == below_accuracy(agents@, i as int, bound as int));
                assert(s.last() == x);
            }
            ranked.insert(j, x);
            proof {
                assert forall|a: int, b: int| 0 <= a < b < ranked@.len() implies #[trigger] ranked@[a].accuracy_score
                    >= #[trigger] ranked@[b].accuracy_score by {
                    if b < j {
                        assert(before[a].accuracy_score >= before[b].accuracy_score);
                    } else if b == j {
                        assert(before[a].accuracy_score >= x.accuracy_score);
                    } else {
                        assert(before[j as int].accuracy_score < x.accuracy_score);
                        if b - 1 > j {
                            assert(before[j as int].accuracy_score >= before[b - 1].accuracy_score);
                        }
                        if a < j {
                            assert(before[a].accuracy_score >= x.accuracy_score);
                        } else if a > j {
                            assert(before[a - 1].accuracy_score >= before[b - 1].accuracy_score);
                        }
                    }
                }
            }
        }
        i = i + 1;
    }
    let end: usize = if page < ranked.len() as u64 { page as usize } else { ranked.len() };
    let ghost shown = if (page as int) < ranked@.len() { ranked@.take(page as int) } else { ranked@ };
    let mut out: Vec<AgentReputationResponse> = Vec::new();
    let mut k: usize = 0;
    while k < end
        invariant
            end <= ranked.len(),
            end == shown.len(),
            shown == if (page as int) < ranked@.len() { ranked@.take(page as int) } else { ranked@ },
            k <= end,
            out@.len() == k,
            forall|j: int| 0 <= j < k ==> shows_agent(#[trigger] out@[j], shown[j]),
        decreases end - k,
    {
        out.push(agent_response(&ranked[k]));
        k = k + 1;
    }
    proof {
        assert forall|a: int, b: int| 0 <= a < b < shown.len() implies #[trigger] shown[a].accuracy_score
            >= #[trigger] shown[b].accuracy_score by {
            assert(shown[a] == ranked@[a] && shown[b] == ranked@[b]);
        }
    }
    TopAgentsResponse { agents: out }
}

// ── Badges ────────────────────────────────────────────────────────

/// The badges among the first `n` entries that could be read, in order.
pub open spec fn readable_badges(entries: Seq<Option<Badge>>, n: int) -> Seq<Badge>
    decreases n,
{
    if n <= 0 {
        Seq::empty()
    } else {
        let before = readable_badges(entries, n - 1);
        match entries[n - 1] {
            Some(b) => before.push(b),
            None => before,
        }
    }
}

pub open spec fn shows_badge(out: BadgeResponse, b: Badge) -> bool {
    &&& out.id == b.id
    &&& out.name@ == b.name@
    &&& out.description@ == b.description@
    &&& out.icon@ == b.icon@
}

/// List badge definitions in ascending id order. `stored` are the stored
/// badges with their ids, in ascending id order; of those whose id comes
/// after `start_after`, the first page-size entries (30 by default) are read
/// and those that could be read are shown.
pub fn query_list_badges(stored: Vec<(u64, Option<Badge>)>,
    start_after: Option<u64>, limit: Option<u32>) -> (res: BadgesResponse)
    ensures
        ({
            let page = match limit {
                Some(l) => l as int,
                None => 30,
            };
            let shown = readable_badges(entries_after(stored@, stored@.len() as int, start_after), if page < entries_after(stored@, stored@.len() as int, start_after).len() { page } else { entries_after(stored@, stored@.len() as int, start_after).len() as int });
            &&& res.badges@.len() == shown.len()
            &&& forall|i: int| 0 <= i < shown.len() ==> shows_badge(#[trigger] res.badges@[i], shown[i])
        }),
{
    let entries = keep_after(stored, start_after);
    let page: u64 = match limit {
        Some(l) => l as u64,
        None => 30,
    };
    let end: usize = if page < entries.len() as u64 { page as usize } else { entries.len() };
    let mut badges: Vec<BadgeResponse> = Vec::new();
    let mut i: usize = 0;
    while i < end
        invariant
            end <= entries.len(),
            i <= end,
            badges@.len() == readable_badges(entries@, i as int).len(),
            forall|j: int| 0 <= j < badges@.len() ==> shows_badge(#[trigger] badges@[j], readable_badges(entries@, i as int)[j]),
        decreases end - i,
    {
        match &entries[i] {
            Some(b) => badges.push(
                BadgeResponse {
                    id: b.id,
                    name: b.name.clone(),
                    description: b.description.clone(),
                    icon: b.icon.clone(),
                },
            ),
            None => {},
        }
        i = i + 1;
    }
    BadgesResponse { badges }
}

} // verus!
