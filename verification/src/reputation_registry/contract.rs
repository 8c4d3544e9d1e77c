//! Handlers of the reputation registry. Each takes the stored values it
//! reads, as the storage layer returned them, and gives back what is to be
//! stored and the response; nothing is stored when it returns an error.

use crate::common::{
    flag, flag_attr, move_score, moved_score, num_attr, number, text, text_attr, text_owned,
    MessageInfo, Response, StdFailure,
};
use crate::reputation_registry::error::ContractError;
use crate::reputation_registry::msg::InstantiateMsg;
use crate::reputation_registry::state::{
    parse_tier, tier_label, tier_of_score, AgentReputation, Badge, Config, ReputationTier, UserReputation,
};
use vstd::prelude::*;

verus! {

/// `admin` is the validation of `msg.admin` as an address.
pub fn instantiate(msg: InstantiateMsg, admin: Result<String, StdFailure>) -> (res: Result<
    (Config, Response),
    ContractError,
>)
    ensures
        match admin {
            Err(e) => res == Err::<(Config, Response), ContractError>(ContractError::Std(e)),
            Ok(a) => res matches Ok((c, r)) && c == (Config { admin: a }) && r@.messages.len() == 0
                && r@.attributes == seq![text_attr("action"@, "instantiate"@), text_attr("admin"@, a@)],
        },
{
    let a = match admin {
        Err(e) => return Err(ContractError::Std(e)),
        Ok(a) => a,
    };
    let attributes = vec![text("action", "instantiate"), text_owned("admin", a.clone())];
    let response = Response { messages: Vec::new(), attributes };
    proof {
        assert(response@.attributes =~= seq![text_attr("action"@, "instantiate"@), text_attr("admin"@, a@)]);
    }
    Ok((Config { admin: a }, response))
}

// ── Agents ────────────────────────────────────────────────────────

/// The accuracy score moved by a signed delta, kept within 0..=1000.
pub open spec fn moved_accuracy(score: u64, delta: i64) -> u64 {
    let moved = moved_score(score, delta);
    if moved > 1000 {
        1000
    } else {
        moved
    }
}

/// The reputation an agent starts with before its first task.
pub open spec fn fresh_agent(address: String, now: u64) -> AgentReputation {
    AgentReputation {
        agent_address: address,
        total_tasks: 0,
        successful_tasks: 0,
        accuracy_score: 0,
        reliability_score: 0,
        tier: ReputationTier::Bronze,
        updated_at: now,
    }
}

/// `prev` after one more task: the counts grow, the accuracy moves by the
/// delta within 0..=1000, the reliability is the share of successful tasks
/// in basis points (rounded down), and the tier follows the accuracy.
pub open spec fn after_task(prev: AgentReputation, successful: bool, delta: i64, now: u64) -> AgentReputation {
    let total = prev.total_tasks + 1;
    let succeeded = if successful { prev.successful_tasks + 1 } else { prev.successful_tasks as int };
    let accuracy = moved_accuracy(prev.accuracy_score, delta);
    AgentReputation {
        total_tasks: total as u32,
        successful_tasks: succeeded as u32,
        accuracy_score: accuracy,
        reliability_score: (succeeded * 10_000 / total) as u64,
        tier: tier_of_score(accuracy),
        updated_at: now,
        ..prev
    }
}

/// Record a completed task of an agent. Admin only. Reads the
/// configuration, then (once `agent_addr`, the validation of the agent's
/// address, succeeded) the agent's stored reputation.
pub fn execute_record_agent_task(
    config: Result<Config, StdFailure>,
    info: MessageInfo,
    agent_addr: Result<String, StdFailure>,
    stored: Result<Option<AgentReputation>, StdFailure>,
    now: u64,
    successful: bool,
    accuracy_delta: i64,
) -> (res: Result<(AgentReputation, Response), ContractError>)
    requires
        ({
            &&& config matches Ok(c) && info.sender@ == c.admin@
            &&& agent_addr is Ok
            &&& stored matches Ok(Some(prev))
        }) ==> {
            let prev = stored->Ok_0->Some_0;
            &&& prev.total_tasks < u32::MAX
            &&& successful ==> prev.successful_tasks < u32::MAX
        },
    ensures
        match config {
            Err(e) => res == Err::<(AgentReputation, Response), ContractError>(ContractError::Std(e)),
            Ok(c) => if info.sender@ != c.admin@ {
                res matches Err(ContractError::Unauthorized { role }) && role@ == "admin"@
            } else {
                match agent_addr {
                    Err(e) => res == Err::<(AgentReputation, Response), ContractError>(ContractError::Std(e)),
                    Ok(addr) => match stored {
                        Err(e) => res == Err::<(AgentReputation, Response), ContractError>(ContractError::Std(e)),
                        Ok(s) => res matches Ok((rep, r)) && {
                            let prev = match s {
                                Some(p) => p,
                                None => fresh_agent(addr, now),
                            };
                            &&& rep == after_task(prev, successful, accuracy_delta, now)
                            &&& r@.messages.len() == 0
                            &&& r@.attributes == seq![
                                text_attr("action"@, "record_agent_task"@),
                                text_attr("agent"@, addr@),
                                flag_attr("successful"@, successful),
                                num_attr("accuracy"@, rep.accuracy_score as int),
                                text_attr("tier"@, tier_label(rep.tier)),
                            ]
                        },
                    },
                }
            },
        },
{
    let config = match config {
        Err(e) => return Err(ContractError::Std(e)),
        Ok(c) => c,
    };
    if info.sender != config.admin {
        return Err(ContractError::Unauthorized { role: "admin".to_owned() });
    }
    let addr = match agent_addr {
        Err(e) => return Err(ContractError::Std(e)),
        Ok(a) => a,
    };
    let mut rep = match stored {
        Err(e) => return Err(ContractError::Std(e)),
        Ok(Some(p)) => p,
        Ok(None) => AgentReputation {
            agent_address: addr.clone(),
            total_tasks: 0,
            successful_tasks: 0,
            accuracy_score: 0,
            reliability_score: 0,
            tier: ReputationTier::Bronze,
            updated_at: now,
        },
    };
    rep.total_tasks = rep.total_tasks + 1;
    if successful {
        rep.successful_tasks = rep.successful_tasks + 1;
    }
    let moved = move_score(rep.accuracy_score, accuracy_delta);
    rep.accuracy_score = if moved > 1000 { 1000 } else { moved };
    proof {
        assert(rep.successful_tasks <= u32::MAX);
    }
    rep.reliability_score = (rep.successful_tasks as u64 * 10_000) / rep.total_tasks as u64;
    rep.tier = ReputationTier::from_score(rep.accuracy_score);
    rep.updated_at = now;
    let attributes = vec![
        text("action", "record_agent_task"),
        text_owned("agent", addr),
        flag("successful", successful),
        number("accuracy", rep.accuracy_score as u128),
        text("tier", rep.tier.as_str()),
    ];
    let response = Response { messages: Vec::new(), attributes };
    proof {
        assert(response@.attributes =~= seq![
            text_attr("action"@, "record_agent_task"@),
            text_attr("agent"@, addr@),
            flag_attr("successful"@, successful),
            num_attr("accuracy"@, rep.accuracy_score as int),
            text_attr("tier"@, tier_label(rep.tier)),
        ]);
    }
    Ok((rep, response))
}

/// Admin sets an agent's tier, overriding the tier its accuracy gives; an
/// unknown tier name sets Bronze. Reads the configuration, then (once
/// `agent_addr`, the validation of `agent`, succeeded) the agent's stored
/// reputation; where there is none, the error names `agent` as given.
pub fn execute_update_agent_tier(
    config: Result<Config, StdFailure>,
    info: MessageInfo,
    agent_addr: Result<String, StdFailure>,
    stored: Result<AgentReputation, StdFailure>,
    now: u64,
    agent: String,
    tier: String,
) -> (res: Result<(AgentReputation, Response), ContractError>)
    ensures
        match config {
            Err(e) => res == Err::<(AgentReputation, Response), ContractError>(ContractError::Std(e)),
            Ok(c) => if info.sender@ != c.admin@ {
                res matches Err(ContractError::Unauthorized { role }) && role@ == "admin"@
            } else {
                match agent_addr {
                    Err(e) => res == Err::<(AgentReputation, Response), ContractError>(ContractError::Std(e)),
                    Ok(addr) => match stored {
                        Err(_) => res matches Err(ContractError::AgentNotFound { address }) && address == agent,
                        Ok(prev) => res matches Ok((rep, r)) && rep == (AgentReputation {
                            tier: parse_tier(tier@),
                            updated_at: now,
                            ..prev
                        }) && r@.messages.len() == 0 && r@.attributes == seq![
                            text_attr("action"@, "update_agent_tier"@),
                            text_attr("agent"@, addr@),
                            text_attr("tier"@, tier_label(parse_tier(tier@))),
                        ],
                    },
                }
            },
        },
{
    let config = match config {
        Err(e) => return Err(ContractError::Std(e)),
        Ok(c) => c,
    };
    if info.sender != config.admin {
        return Err(ContractError::Unauthorized { role: "admin".to_owned() });
    }
    let addr = match agent_addr {
        Err(e) => return Err(ContractError::Std(e)),
        Ok(a) => a,
    };
    let new_tier = ReputationTier::from_string(tier.as_str());
    let mut rep = match stored {
        Err(_) => return Err(ContractError::AgentNotFound { address: agent }),
        Ok(p) => p,
    };
    rep.tier = new_tier;
    rep.updated_at = now;
    let attributes = vec![
        text("action", "update_agent_tier"),
        text_owned("agent", addr),
        text("tier", new_tier.as_str()),
    ];
    let response = Response { messages: Vec::new(), attributes };
    proof {
        assert(response@.attributes =~= seq![
            text_attr("action"@, "update_agent_tier"@),
            text_attr("agent"@, addr@),
            text_attr("tier"@, tier_label(parse_tier(tier@))),
        ]);
    }
    Ok((rep, response))
}

// ── Users and badges ──────────────────────────────────────────────

/// The reputation a user starts with; its badge list is `badges`, which
/// the contracts below state separately.
pub open spec fn fresh_user(address: String, now: u64, badges: Vec<u64>) -> UserReputation {
    UserReputation { address, total_bets: 0, correct_bets: 0, volume_contributed: 0, badges, created_at: now }
}

/// The badges a user held before: the stored ones, none for a new user.
pub open spec fn prior_badges(stored: Option<UserReputation>) -> Seq<u64> {
    match stored {
        Some(u) => u.badges@,
        None => Seq::empty(),
    }
}

/// The badge list with `badge_id` added, unless it already holds it.
pub open spec fn with_badge(badges: Seq<u64>, badge_id: u64) -> Seq<u64> {
    if badges.contains(badge_id) {
        badges
    } else {
        badges.push(badge_id)
    }
}

fn holds_badge(badges: &Vec<u64>, badge_id: u64) -> (r: bool)
    ensures
        r == badges@.contains(badge_id),
{
    let mut i: usize = 0;
    while i < badges.len()
        invariant
            i <= badges.len(),
            forall|j: int| 0 <= j < i ==> badges@[j] != badge_id,
        decreases badges.len() - i,
    {
        if badges[i] == badge_id {
            return true;
        }
        i = i + 1;
    }
    false
}

/// Award an existing badge to a recipient, kept on the recipient's user
/// reputation (created where there is none); a badge is held once. Admin
/// only. Reads the configuration, the badge, then (once `recipient`, the
/// validation of the recipient's address, succeeded) the recipient's user
/// reputation.
pub fn execute_award_badge(
    config: Result<Config, StdFailure>,
    info: MessageInfo,
    badge: Result<Option<Badge>, StdFailure>,
    recipient: Result<String, StdFailure>,
    stored: Result<Option<UserReputation>, StdFailure>,
    now: u64,
    badge_id: u64,
) -> (res: Result<(UserReputation, Response), ContractError>)
    ensures
        match config {
            Err(e) => res == Err::<(UserReputation, Response), ContractError>(ContractError::Std(e)),
            Ok(c) => if info.sender@ != c.admin@ {
                res matches Err(ContractError::Unauthorized { role }) && role@ == "admin"@
            } else {
                match badge {
                    Err(e) => res == Err::<(UserReputation, Response), ContractError>(ContractError::Std(e)),
                    Ok(None) => res matches Err(ContractError::BadgeNotFound { id }) && id == badge_id,
                    Ok(Some(_)) => match recipient {
                        Err(e) => res == Err::<(UserReputation, Response), ContractError>(ContractError::Std(e)),
                        Ok(addr) => match stored {
                            Err(e) => res == Err::<(UserReputation, Response), ContractError>(ContractError::Std(e)),
                            Ok(s) => res matches Ok((user, r)) && {
                                let prev = match s {
                                    Some(u) => u,
                                    None => fresh_user(addr, now, user.badges),
                                };
                                &&& user == (UserReputation { badges: user.badges, ..prev })
                                &&& user.badges@ == with_badge(prior_badges(s), badge_id)
                                &&& r@.messages.len() == 0
                                &&& r@.attributes == seq![
                                    text_attr("action"@, "award_badge"@),
                                    text_attr("recipient"@, addr@),
                                    num_attr("badge_id"@, badge_id as int),
                                ]
                            },
                        },
                    },
                }
            },
        },
{
    let config = match config {
        Err(e) => return Err(ContractError::Std(e)),
        Ok(c) => c,
    };
    if info.sender != config.admin {
        return Err(ContractError::Unauthorized { role: "admin".to_owned() });
    }
    match badge {
        Err(e) => return Err(ContractError::Std(e)),
        Ok(None) => return Err(ContractError::BadgeNotFound { id: badge_id }),
        Ok(Some(_)) => {},
    }
    let addr = match recipient {
        Err(e) => return Err(ContractError::Std(e)),
        Ok(a) => a,
    };
    let mut user = match stored {
        Err(e) => return Err(ContractError::Std(e)),
        Ok(Some(u)) => u,
        Ok(None) => UserReputation {
            address: addr.clone(),
            total_bets: 0,
            correct_bets: 0,
            volume_contributed: 0,
            badges: Vec::new(),
            created_at: now,
        },
    };
    if !holds_badge(&user.badges, badge_id) {
        user.badges.push(badge_id);
    }
    let attributes = vec![
        text("action", "award_badge"),
        text_owned("recipient", addr),
        number("badge_id", badge_id as u128),
    ];
    let response = Response { messages: Vec::new(), attributes };
    proof {
        assert(response@.attributes =~= seq![
            text_attr("action"@, "award_badge"@),
            text_attr("recipient"@, addr@),
            num_attr("badge_id"@, badge_id as int),
        ]);
    }
    Ok((user, response))
}

/// Record the outcome of a user's prediction and its volume. Admin only.
/// Reads the configuration, then (once `user_addr`, the validation of the
/// user's address, succeeded) the user's stored reputation.
pub fn execute_record_user_prediction(
    config: Result<Config, StdFailure>,
    info: MessageInfo,
    user_addr: Result<String, StdFailure>,
    stored: Result<Option<UserReputation>, StdFailure>,
    now: u64,
    correct: bool,
    volume: u128,
) -> (res: Result<(UserReputation, Response), ContractError>)
    requires
        ({
            &&& config matches Ok(c) && info.sender@ == c.admin@
            &&& user_addr is Ok
            &&& stored matches Ok(Some(prev))
        }) ==> {
            let prev = stored->Ok_0->Some_0;
            &&& prev.total_bets < u32::MAX
            &&& correct ==> prev.correct_bets < u32::MAX
            &&& prev.volume_contributed + volume <= u128::MAX
        },
    ensures
        match config {
            Err(e) => res == Err::<(UserReputation, Response), ContractError>(ContractError::Std(e)),
            Ok(c) => if info.sender@ != c.admin@ {
                res matches Err(ContractError::Unauthorized { role }) && role@ == "admin"@
            } else {
                match user_addr {
                    Err(e) => res == Err::<(UserReputation, Response), ContractError>(ContractError::Std(e)),
                    Ok(addr) => match stored {
                        Err(e) => res == Err::<(UserReputation, Response), ContractError>(ContractError::Std(e)),
                        Ok(s) => res matches Ok((user, r)) && {
                            let prev = match s {
                                Some(u) => u,
                                None => fresh_user(addr, now, user.badges),
                            };
                            &&& user == (UserReputation {
                                total_bets: (prev.total_bets + 1) as u32,
                                correct_bets: if correct { (prev.correct_bets + 1) as u32 } else { prev.correct_bets },
                                volume_contributed: (prev.volume_contributed + volume) as u128,
                                badges: user.badges,
                                ..prev
                            })
                            &&& user.badges@ == prior_badges(s)
                            &&& r@.messages.len() == 0
                            &&& r@.attributes == seq![
                                text_attr("action"@, "record_user_prediction"@),
                                text_attr("user"@, addr@),
                                flag_attr("correct"@, correct),
                                num_attr("volume"@, volume as int),
                            ]
                        },
                    },
                }
            },
        },
{
    let config = match config {
        Err(e) => return Err(ContractError::Std(e)),
        Ok(c) => c,
    };
    if info.sender != config.admin {
        return Err(ContractError::Unauthorized { role: "admin".to_owned() });
    }
    let addr = match user_addr {
        Err(e) => return Err(ContractError::Std(e)),
        Ok(a) => a,
    };
    let mut user = match stored {
        Err(e) => return Err(ContractError::Std(e)),
        Ok(Some(u)) => u,
        Ok(None) => UserReputation {
            address: addr.clone(),
            total_bets: 0,
            correct_bets: 0,
            volume_contributed: 0,
            badges: Vec::new(),
            created_at: now,
        },
    };
    user.total_bets = user.total_bets + 1;
    if correct {
        user.correct_bets = user.correct_bets + 1;
    }
    user.volume_contributed = user.volume_contributed + volume;
    let attributes = vec![
        text("action", "record_user_prediction"),
        text_owned("user", addr),
        flag("correct", correct),
        number("volume", volume),
    ];
    let response = Response { messages: Vec::new(), attributes };
    proof {
        assert(response@.attributes =~= seq![
            text_attr("action"@, "record_user_prediction"@),
            text_attr("user"@, addr@),
            flag_attr("correct"@, correct),
            num_attr("volume"@, volume as int),
        ]);
    }
    Ok((user, response))
}

/// Admin defines a badge under the next badge id. Reads the configuration,
/// then the badge count. Returns the new id (which is also the new count),
/// the badge and the response.
pub fn execute_create_badge(
    config: Result<Config, StdFailure>,
    info: MessageInfo,
    count: Result<Option<u64>, StdFailure>,
    name: String,
    description: String,
    icon: String,
) -> (res: Result<(u64, Badge, Response), ContractError>)
    requires
        (config matches Ok(c) && info.sender@ == c.admin@) ==> (count matches Ok(n) ==> n.unwrap_or(0)
            < u64::MAX),
    ensures
        match config {
            Err(e) => res == Err::<(u64, Badge, Response), ContractError>(ContractError::Std(e)),
            Ok(c) => if info.sender@ != c.admin@ {
                res matches Err(ContractError::Unauthorized { role }) && role@ == "admin"@
            } else {
                match count {
                    Err(e) => res == Err::<(u64, Badge, Response), ContractError>(ContractError::Std(e)),
                    Ok(n) => res matches Ok((id, badge, r)) && id == n.unwrap_or(0) + 1 && badge == (Badge {
                        id,
                        name,
                        description,
                        icon,
                    }) && r@.messages.len() == 0 && r@.attributes == seq![
                        text_attr("action"@, "create_badge"@),
                        num_attr("badge_id"@, id as int),
                    ],
                }
            },
        },
{
    let config = match config {
        Err(e) => return Err(ContractError::Std(e)),
        Ok(c) => c,
    };
    if info.sender != config.admin {
        return Err(ContractError::Unauthorized { role: "admin".to_owned() });
    }
    let id = match count {
        Err(e) => return Err(ContractError::Std(e)),
        Ok(Some(n)) => n + 1,
        Ok(None) => 1,
    };
    let attributes = vec![text("action", "create_badge"), number("badge_id", id as u128)];
    let response = Response { messages: Vec::new(), attributes };
    proof {
        assert(response@.attributes =~= seq![
            text_attr("action"@, "create_badge"@),
            num_attr("badge_id"@, id as int),
        ]);
    }
    Ok((id, Badge { id, name, description, icon }, response))
}


// ── Laws ──────────────────────────────────────────────────────────

/// Recording a task keeps an agent's reputation consistent: no more
/// successful tasks than tasks, accuracy within 0..=1000, reliability
/// within 0..=10000, and the tier that the accuracy gives.
pub proof fn lemma_task_keeps_reputation_consistent(
    prev: AgentReputation,
    successful: bool,
    delta: i64,
    now: u64,
)
    requires
        prev.successful_tasks <= prev.total_tasks < u32::MAX,
    ensures
        ({
            let next = after_task(prev, successful, delta, now);
            &&& next.successful_tasks <= next.total_tasks
            &&& next.total_tasks == prev.total_tasks + 1
            &&& next.accuracy_score <= 1000
            &&& next.reliability_score <= 10_000
            &&& next.tier == tier_of_score(next.accuracy_score)
        }),
{
    let total = prev.total_tasks + 1;
    let succeeded = if successful { prev.successful_tasks + 1 } else { prev.successful_tasks as int };
    assert(succeeded * 10_000 / total <= 10_000) by (nonlinear_arith)
        requires
            0 <= succeeded <= total,
            total > 0,
    ;
}

/// A badge is held at most once: awarding keeps a badge list free of
/// repeats, and the awarded badge is held afterwards.
pub proof fn lemma_badge_held_once(badges: Seq<u64>, badge_id: u64)
    requires
        badges.no_duplicates(),
    ensures
        with_badge(badges, badge_id).no_duplicates(),
        with_badge(badges, badge_id).contains(badge_id),
{
    if !badges.contains(badge_id) {
        let b = badges.push(badge_id);
        assert(b[b.len() - 1] == badge_id);
        assert forall|i: int, j: int| 0 <= i < b.len() && 0 <= j < b.len() && i != j implies b[i] != b[j] by {
            if i == b.len() - 1 {
                assert(b[j] == badges[j]);
                if badges[j] == badge_id {
                    assert(badges.contains(badge_id));
                }
            } else if j == b.len() - 1 {
                assert(b[i] == badges[i]);
                if badges[i] == badge_id {
                    assert(badges.contains(badge_id));
                }
            }
        }
    }
}

} // verus!
