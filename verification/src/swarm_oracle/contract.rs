//! Handlers of the swarm oracle. Each takes the stored values it reads, as
//! the storage layer returned them, and gives back what is to be stored
//! and the response; nothing is stored when it returns an error.

use crate::common::{
    AttributeView, entries_after, keep_after, minus_seconds, move_score, moved_score, multiply_ratio, num_attr, number, ratio, text, text_attr,
    text_owned, MessageInfo, Response, StdFailure,
};
use crate::swarm_oracle::consensus::{consensus_defined, is_consensus, try_compute_consensus};
use crate::swarm_oracle::error::ContractError;
use crate::swarm_oracle::msg::{
    AgentResponse, AgentsResponse, ConsensusPriceResponse, InstantiateMsg, PriceFeedResponse,
    StigmergySignalResponse, StigmergySignalsResponse,
};
use crate::swarm_oracle::state::{Agent, Config, ConsensusPrice, PriceFeed, StigmergySignal};
use vstd::arithmetic::div_mod::lemma_div_is_ordered;
use vstd::prelude::*;

verus! {

// ── Instantiate ───────────────────────────────────────────────────

/// `owner` and `admin` are the validations of `msg.owner` and `msg.admin`
/// as addresses, made in that order.
pub fn instantiate(
    msg: InstantiateMsg,
    owner: Result<String, StdFailure>,
    admin: Result<String, StdFailure>,
) -> (res: Result<(Config, Response), ContractError>)
    ensures
        match owner {
            Err(e) => res == Err::<(Config, Response), ContractError>(ContractError::Std(e)),
            Ok(o) => match admin {
                Err(e) => res == Err::<(Config, Response), ContractError>(ContractError::Std(e)),
                Ok(a) => res matches Ok((c, r)) && c == (Config {
                    owner: o,
                    admin: a,
                    min_agents_for_consensus: msg.min_agents_for_consensus,
                    max_age_seconds: msg.max_age_seconds,
                    acceptable_deviation_bps: msg.acceptable_deviation_bps,
                }) && r@.messages.len() == 0 && r@.attributes == seq![
                    text_attr("action"@, "instantiate"@),
                    text_attr("owner"@, o@),
                    text_attr("admin"@, a@),
                ],
            },
        },
{
    let owner = match owner {
        Err(e) => return Err(ContractError::Std(e)),
        Ok(o) => o,
    };
    let admin = match admin {
        Err(e) => return Err(ContractError::Std(e)),
        Ok(a) => a,
    };
    let attributes = vec![
        text("action", "instantiate"),
        text_owned("owner", owner.clone()),
        text_owned("admin", admin.clone()),
    ];
    let response = Response { messages: Vec::new(), attributes };
    proof {
        assert(response@.attributes =~= seq![
            text_attr("action"@, "instantiate"@),
            text_attr("owner"@, owner@),
            text_attr("admin"@, admin@),
        ]);
    }
    let config = Config {
        owner,
        admin,
        min_agents_for_consensus: msg.min_agents_for_consensus,
        max_age_seconds: msg.max_age_seconds,
        acceptable_deviation_bps: msg.acceptable_deviation_bps,
    };
    Ok((config, response))
}

// ── Agents ────────────────────────────────────────────────────────

/// The reputation an agent starts with.
pub const INITIAL_REPUTATION: u64 = 100;

/// Register the sender as a new AI agent, active, with the initial
/// reputation. Fails if the sender is already registered. `existing` is
/// what is stored under the sender's address.
pub fn execute_register_agent(
    existing: Result<Option<Agent>, StdFailure>,
    now: u64,
    info: MessageInfo,
    name: String,
    agent_type: String,
) -> (res: Result<(Agent, Response), ContractError>)
    ensures
        match existing {
            Err(e) => res == Err::<(Agent, Response), ContractError>(ContractError::Std(e)),
            Ok(Some(_)) => res matches Err(ContractError::AgentAlreadyRegistered { address })
                && address@ == info.sender@,
            Ok(None) => res matches Ok((agent, r)) && agent == (Agent {
                address: info.sender,
                name,
                agent_type,
                reputation_score: INITIAL_REPUTATION,
                total_submissions: 0,
                accuracy_score: 0,
                is_active: true,
                registered_at: now,
            }) && r@.messages.len() == 0 && r@.attributes == seq![
                text_attr("action"@, "register_agent"@),
                text_attr("agent"@, info.sender@),
            ],
        },
{
    match existing {
        Err(e) => return Err(ContractError::Std(e)),
        Ok(Some(_)) => return Err(ContractError::AgentAlreadyRegistered { address: info.sender }),
        Ok(None) => {},
    }
    let attributes = vec![text("action", "register_agent"), text_owned("agent", info.sender.clone())];
    let response = Response { messages: Vec::new(), attributes };
    proof {
        assert(response@.attributes =~= seq![
            text_attr("action"@, "register_agent"@),
            text_attr("agent"@, info.sender@),
        ]);
    }
    let agent = Agent {
        address: info.sender,
        name,
        agent_type,
        reputation_score: INITIAL_REPUTATION,
        total_submissions: 0,
        accuracy_score: 0,
        is_active: true,
        registered_at: now,
    };
    Ok((agent, response))
}

/// What an accepted price stores: the feed under `(asset_pair, sender)`,
/// the agent with one more submission and, where there is one, the
/// consensus of the pair computed afresh with the new feed.
#[derive(Clone, Debug)]
pub struct SubmittedPrice {
    pub feed: PriceFeed,
    pub agent: Agent,
    pub consensus: Option<ConsensusPrice>,
    pub response: Response,
}

/// The attributes of the response to an accepted price.
pub open spec fn submitted_attributes(
    asset_pair: Seq<char>,
    sender: Seq<char>,
    consensus: Option<ConsensusPrice>,
) -> Seq<AttributeView> {
    seq![
        text_attr("action"@, "submit_price"@),
        text_attr("asset_pair"@, asset_pair),
        text_attr("agent"@, sender),
    ] + match consensus {
        Some(c) => seq![
            num_attr("consensus_price"@, c.price as int),
            num_attr("agent_count"@, c.agent_count as int),
        ],
        None => Seq::empty(),
    }
}

/// The checks of `execute_submit_price` that come before the feed is stored all pass.
pub open spec fn price_accepted(agent: Result<Agent, StdFailure>, price: u128, confidence: u8) -> bool {
    &&& price != 0
    &&& confidence != 0
    &&& agent matches Ok(a) && a.is_active
}

/// An agent submits a price for an asset pair. Its weight in the consensus
/// is its reputation score. `agent` is what is stored under the sender's
/// address; once the feed is stored, the configuration is read and the
/// consensus of the pair is computed afresh from `other_feeds` (the feeds
/// of the pair stored by other agents) and the new feed.
pub fn execute_submit_price(
    agent: Result<Agent, StdFailure>,
    config: Result<Config, StdFailure>,
    other_feeds: Vec<PriceFeed>,
    now: u64,
    info: MessageInfo,
    asset_pair: String,
    price: u128,
    confidence: u8,
) -> (res: Result<SubmittedPrice, ContractError>)
    requires
        price_accepted(agent, price, confidence) ==> {
            &&& agent->Ok_0.total_submissions < u64::MAX
            &&& config matches Ok(c) ==> forall|f: PriceFeed|
                f.price == price && f.confidence == confidence && f.submitted_at == now && f.consensus_weight
                    == agent->Ok_0.reputation_score ==> consensus_defined(c, #[trigger] other_feeds@.push(f), now)
        },
    ensures
        if price == 0 {
            res matches Err(ContractError::ZeroPrice {  })
        } else if confidence == 0 {
            res matches Err(ContractError::InvalidConfidence {  })
        } else {
            match agent {
                Err(_) => res matches Err(ContractError::AgentNotFound { address }) && address@
                    == info.sender@,
                Ok(a) => if !a.is_active {
                    res matches Err(ContractError::AgentInactive {  })
                } else {
                    match config {
                        Err(e) => res == Err::<SubmittedPrice, ContractError>(ContractError::Std(e)),
                        Ok(c) => res matches Ok(out) && out.feed == (PriceFeed {
                            asset_pair,
                            price,
                            confidence,
                            submitted_by: info.sender,
                            submitted_at: now,
                            consensus_weight: a.reputation_score as u128,
                            agent_signatures: out.feed.agent_signatures,
                        }) && out.feed.agent_signatures@ == seq![info.sender] && out.agent == (Agent {
                            total_submissions: (a.total_submissions + 1) as u64,
                            ..a
                        }) && is_consensus(c, other_feeds@.push(out.feed), now, asset_pair@, out.consensus)
                            && out.response@.messages.len() == 0 && out.response@.attributes
                            == submitted_attributes(asset_pair@, info.sender@, out.consensus),
                    }
                },
            }
        },
{
    if price == 0 {
        return Err(ContractError::ZeroPrice {  });
    }
    if confidence == 0 {
        return Err(ContractError::InvalidConfidence {  });
    }
    let mut agent = match agent {
        Err(_) => return Err(ContractError::AgentNotFound { address: info.sender }),
        Ok(a) => a,
    };
    if !agent.is_active {
        return Err(ContractError::AgentInactive {  });
    }
    let feed = PriceFeed {
        asset_pair: asset_pair.clone(),
        price,
        confidence,
        submitted_by: info.sender.clone(),
        submitted_at: now,
        consensus_weight: agent.reputation_score as u128,
        agent_signatures: vec![info.sender.clone()],
    };
    agent.total_submissions = agent.total_submissions + 1;
    let ghost new_feed = feed;
    let mut feeds = other_feeds;
    feeds.push(feed);
    let consensus = match try_compute_consensus(config, &feeds, now, asset_pair.as_str()) {
        Err(e) => return Err(e),
        Ok(c) => c,
    };
    let feed = feeds.pop().unwrap();
    assert(feed == new_feed);
    let response = submit_price_response(&asset_pair, &info.sender, &consensus);
    Ok(SubmittedPrice { feed, agent, consensus, response })
}

/// The response to an accepted price, given the consensus computed after
/// it was stored.
fn submit_price_response(asset_pair: &String, sender: &String, consensus: &Option<ConsensusPrice>) -> (r: Response)
    ensures
        r@.messages.len() == 0,
        r@.attributes == submitted_attributes(asset_pair@, sender@, *consensus),
{
    let mut attributes = vec![
        text("action", "submit_price"),
        text_owned("asset_pair", asset_pair.clone()),
        text_owned("agent", sender.clone()),
    ];
    match consensus {
        Some(c) => {
            attributes.push(number("consensus_price", c.price));
            attributes.push(number("agent_count", c.agent_count as u128));
        },
        None => {},
    }
    let response = Response { messages: Vec::new(), attributes };
    proof {
        assert(response@.attributes =~= submitted_attributes(asset_pair@, sender@, *consensus));
    }
    response
}

// ── Stigmergy ─────────────────────────────────────────────────────

/// Deposit a stigmergy coordination signal under the next signal id.
/// `counter` is the stored signal counter. Returns the new id (which is
/// also the new counter), the signal and the response.
pub fn execute_submit_stigmergy_signal(
    counter: Result<Option<u64>, StdFailure>,
    now: u64,
    info: MessageInfo,
    signal_type: String,
    data_hash: String,
    strength: u128,
    decay_rate: u64,
) -> (res: Result<(u64, StigmergySignal, Response), ContractError>)
    requires
        (strength != 0 && counter is Ok) ==> counter->Ok_0.unwrap_or(0) < u64::MAX,
    ensures
        if strength == 0 {
            res matches Err(ContractError::ZeroSignalStrength {  })
        } else {
            match counter {
                Err(e) => res == Err::<(u64, StigmergySignal, Response), ContractError>(ContractError::Std(e)),
                Ok(n) => res matches Ok((id, signal, r)) && id == n.unwrap_or(0) + 1 && signal == (
                StigmergySignal {
                    signal_type,
                    from_agent: info.sender,
                    data_hash,
                    strength,
                    deposited_at: now,
                    decay_rate,
                }) && r@.messages.len() == 0 && r@.attributes == seq![
                    text_attr("action"@, "submit_stigmergy_signal"@),
                    num_attr("signal_id"@, id as int),
                    text_attr("signal_type"@, signal_type@),
                    text_attr("from_agent"@, info.sender@),
                ],
            }
        },
{
    if strength == 0 {
        return Err(ContractError::ZeroSignalStrength {  });
    }
    let previous = match counter {
        Err(e) => return Err(ContractError::Std(e)),
        Ok(Some(n)) => n,
        Ok(None) => 0,
    };
    let id = previous + 1;
    let attributes = vec![
        text("action", "submit_stigmergy_signal"),
        number("signal_id", id as u128),
        text_owned("signal_type", signal_type.clone()),
        text_owned("from_agent", info.sender.clone()),
    ];
    let response = Response { messages: Vec::new(), attributes };
    proof {
        assert(response@.attributes =~= seq![
            text_attr("action"@, "submit_stigmergy_signal"@),
            num_attr("signal_id"@, id as int),
            text_attr("signal_type"@, signal_type@),
            text_attr("from_agent"@, info.sender@),
        ]);
    }
    let signal = StigmergySignal {
        signal_type,
        from_agent: info.sender,
        data_hash,
        strength,
        deposited_at: now,
        decay_rate,
    };
    Ok((id, signal, response))
}

// ── Reputation ────────────────────────────────────────────────────

/// Admin moves an agent's reputation and accuracy scores by signed deltas,
/// saturating. Reads the configuration, then (once the address `agent_addr`
/// is validated) the agent stored under it.
pub fn execute_update_agent_reputation(
    config: Result<Config, StdFailure>,
    info: MessageInfo,
    agent_addr: Result<String, StdFailure>,
    agent: Result<Agent, StdFailure>,
    reputation_delta: i64,
    accuracy_delta: i64,
) -> (res: Result<(Agent, Response), ContractError>)
    ensures
        match config {
            Err(e) => res == Err::<(Agent, Response), ContractError>(ContractError::Std(e)),
            Ok(c) => if info.sender@ != c.admin@ {
                res matches Err(ContractError::Unauthorized { role }) && role@ == "admin"@
            } else {
                match agent_addr {
                    Err(e) => res == Err::<(Agent, Response), ContractError>(ContractError::Std(e)),
                    Ok(addr) => match agent {
                        Err(_) => res matches Err(ContractError::AgentNotFound { address }) && address@
                            == addr@,
                        Ok(a) => res matches Ok((na, r)) && na == (Agent {
                            reputation_score: moved_score(a.reputation_score, reputation_delta),
                            accuracy_score: moved_score(a.accuracy_score, accuracy_delta),
                            ..a
                        }) && r@.messages.len() == 0 && r@.attributes == seq![
                            text_attr("action"@, "update_agent_reputation"@),
                            text_attr("agent"@, addr@),
                            num_attr("reputation"@, na.reputation_score as int),
                            num_attr("accuracy"@, na.accuracy_score as int),
                        ],
                    },
                }
            },
        },
{
    let config = match config {
        Err(e) => return Err(ContractError::Std(e)),
        Ok(c) => c,
    };
    if info.sender != config.admin {
        return Err(ContractError::Unauthorized { role: "admin".to_owned() });
    }
    let addr = match agent_addr {
        Err(e) => return Err(ContractError::Std(e)),
        Ok(a) => a,
    };
    let mut agent = match agent {
        Err(_) => return Err(ContractError::AgentNotFound { address: addr }),
        Ok(a) => a,
    };
    agent.reputation_score = move_score(agent.reputation_score, reputation_delta);
    agent.accuracy_score = move_score(agent.accuracy_score, accuracy_delta);
    let attributes = vec![
        text("action", "update_agent_reputation"),
        text_owned("agent", addr),
        number("reputation", agent.reputation_score as u128),
        number("accuracy", agent.accuracy_score as u128),
    ];
    let response = Response { messages: Vec::new(), attributes };
    proof {
        assert(response@.attributes =~= seq![
            text_attr("action"@, "update_agent_reputation"@),
            text_attr("agent"@, addr@),
            num_attr("reputation"@, agent.reputation_score as int),
            num_attr("accuracy"@, agent.accuracy_score as int),
        ]);
    }
    Ok((agent, response))
}

// ── Configuration ─────────────────────────────────────────────────

/// Owner updates the configuration; each field given replaces the stored
/// one. `admin` is the validation of the new admin address, where one is given.
pub fn execute_update_config(
    config: Result<Config, StdFailure>,
    info: MessageInfo,
    admin: Option<Result<String, StdFailure>>,
    min_agents_for_consensus: Option<u32>,
    max_age_seconds: Option<u64>,
    acceptable_deviation_bps: Option<u64>,
) -> (res: Result<(Config, Response), ContractError>)
    ensures
        match config {
            Err(e) => res == Err::<(Config, Response), ContractError>(ContractError::Std(e)),
            Ok(c) => if info.sender@ != c.owner@ {
                res matches Err(ContractError::Unauthorized { role }) && role@ == "owner"@
            } else if admin matches Some(Err(e)) {
                res == Err::<(Config, Response), ContractError>(ContractError::Std(admin->Some_0->Err_0))
            } else {
                res matches Ok((nc, r)) && nc == (Config {
                    owner: c.owner,
                    admin: match admin {
                        Some(a) => a->Ok_0,
                        None => c.admin,
                    },
                    min_agents_for_consensus: min_agents_for_consensus.unwrap_or(c.min_agents_for_consensus),
                    max_age_seconds: max_age_seconds.unwrap_or(c.max_age_seconds),
                    acceptable_deviation_bps: acceptable_deviation_bps.unwrap_or(c.acceptable_deviation_bps),
                }) && r@.messages.len() == 0 && r@.attributes == seq![text_attr("action"@, "update_config"@)]
            },
        },
{
    let mut config = match config {
        Err(e) => return Err(ContractError::Std(e)),
        Ok(c) => c,
    };
    if info.sender != config.owner {
        return Err(ContractError::Unauthorized { role: "owner".to_owned() });
    }
    match admin {
        Some(Err(e)) => return Err(ContractError::Std(e)),
        Some(Ok(a)) => config.admin = a,
        None => {},
    }
    match min_agents_for_consensus {
        Some(v) => config.min_agents_for_consensus = v,
        None => {},
    }
    match max_age_seconds {
        Some(v) => config.max_age_seconds = v,
        None => {},
    }
    match acceptable_deviation_bps {
        Some(v) => config.acceptable_deviation_bps = v,
        None => {},
    }
    let response = Response { messages: Vec::new(), attributes: vec![text("action", "update_config")] };
    proof {
        assert(response@.attributes =~= seq![text_attr("action"@, "update_config"@)]);
    }
    Ok((config, response))
}

// ── Queries ───────────────────────────────────────────────────────

/// The index of the latest submission among `feeds`: the greatest
/// submission time, the first such feed where several share it.
pub open spec fn latest_index(feeds: Seq<PriceFeed>) -> int
    decreases feeds.len(),
{
    if feeds.len() <= 1 {
        0
    } else {
        let j = latest_index(feeds.drop_last());
        if feeds.last().submitted_at > feeds[j].submitted_at {
            feeds.len() - 1
        } else {
            j
        }
    }
}

proof fn lemma_latest_index(feeds: Seq<PriceFeed>)
    requires
        feeds.len() > 0,
    ensures
        0 <= latest_index(feeds) < feeds.len(),
        forall|k: int| 0 <= k < feeds.len() ==> (#[trigger] feeds[k]).submitted_at <= feeds[latest_index(feeds)].submitted_at,
        forall|k: int| 0 <= k < latest_index(feeds) ==> (#[trigger] feeds[k]).submitted_at < feeds[latest_index(feeds)].submitted_at,
    decreases feeds.len(),
{
    if feeds.len() > 1 {
        lemma_latest_index(feeds.drop_last());
        assert forall|k: int| 0 <= k < feeds.len() - 1 implies feeds[k] == feeds.drop_last()[k] by {}
    }
}

/// The latest price submitted for a pair: of `feeds`, the feeds stored for
/// the pair, the one submitted last (the first of them where several were
/// submitted at the same time).
pub fn query_price(feeds: Vec<PriceFeed>) -> (res: Result<PriceFeedResponse, StdFailure>)
    ensures
        feeds@.len() == 0 ==> (res matches Err(StdFailure::NotFound { kind }) && kind@ == "PriceFeed"@),
        feeds@.len() > 0 ==> (res matches Ok(out) && {
            let f = feeds@[latest_index(feeds@)];
            &&& out.asset_pair == f.asset_pair
            &&& out.price == f.price
            &&& out.confidence == f.confidence
            &&& out.submitted_by == f.submitted_by
            &&& out.submitted_at == f.submitted_at
            &&& out.consensus_weight == f.consensus_weight
            &&& out.agent_signatures == f.agent_signatures
            &&& forall|k: int| 0 <= k < feeds@.len() ==> (#[trigger] feeds@[k]).submitted_at <= out.submitted_at
        }),
{
    if feeds.len() == 0 {
        return Err(StdFailure::NotFound { kind: "PriceFeed".to_owned() });
    }
    proof {
        lemma_latest_index(feeds@);
    }
    let mut best: usize = 0;
    let mut i: usize = 1;
    while i < feeds.len()
        invariant
            1 <= i <= feeds.len(),
            best < i,
            best as int == latest_index(feeds@.take(i as int)),
        decreases feeds.len() - i,
    {
        assert(feeds@.take(i + 1).drop_last() =~= feeds@.take(i as int));
        assert(feeds@.take(i as int)[best as int] == feeds@[best as int]);
        if feeds[i].submitted_at > feeds[best].submitted_at {
            best = i;
        }
        i = i + 1;
    }
    assert(feeds@.take(feeds@.len() as int) =~= feeds@);
    let mut feeds = feeds;
    let f = feeds.remove(best);
    Ok(PriceFeedResponse {
        asset_pair: f.asset_pair,
        price: f.price,
        confidence: f.confidence,
        submitted_by: f.submitted_by,
        submitted_at: f.submitted_at,
        consensus_weight: f.consensus_weight,
        agent_signatures: f.agent_signatures,
    })
}

/// `out` shows the agent `a`.
pub open spec fn shows_agent(out: AgentResponse, a: Agent) -> bool {
    &&& out.address@ == a.address@
    &&& out.name@ == a.name@
    &&& out.agent_type@ == a.agent_type@
    &&& out.reputation_score == a.reputation_score
    &&& out.total_submissions == a.total_submissions
    &&& out.accuracy_score == a.accuracy_score
    &&& out.is_active == a.is_active
    &&& out.registered_at == a.registered_at
}

pub fn agent_response(a: &Agent) -> (out: AgentResponse)
    ensures
        shows_agent(out, *a),
{
    AgentResponse {
        address: a.address.clone(),
        name: a.name.clone(),
        agent_type: a.agent_type.clone(),
        reputation_score: a.reputation_score,
        total_submissions: a.total_submissions,
        accuracy_score: a.accuracy_score,
        is_active: a.is_active,
        registered_at: a.registered_at,
    }
}

/// The agent stored under a (validated) address.
pub fn query_agent(agent: Result<Agent, StdFailure>) -> (res: Result<AgentResponse, StdFailure>)
    ensures
        match agent {
            Err(e) => res == Err::<AgentResponse, StdFailure>(e),
            Ok(a) => res matches Ok(out) && shows_agent(out, a),
        },
{
    match agent {
        Err(e) => Err(e),
        Ok(a) => Ok(agent_response(&a)),
    }
}

/// The agents among the first `n` entries, in order; an entry that could
/// not be read is `None` and is skipped.
pub open spec fn readable_agents(entries: Seq<Option<Agent>>, n: int) -> Seq<Agent>
    decreases n,
{
    if n <= 0 {
        Seq::empty()
    } else {
        let before = readable_agents(entries, n - 1);
        match entries[n - 1] {
            Some(a) => before.push(a),
            None => before,
        }
    }
}

/// List agents in ascending address order. `entries` are the stored agents
/// from the start bound on; the first page-size entries are read and those
/// that could be read are shown.
pub fn query_list_agents(entries: Vec<Option<Agent>>, limit: Option<u32>) -> (res: AgentsResponse)
    ensures
        ({
            let page = match limit {
                Some(l) => l as int,
                None => 30,
            };
            let window = if page < entries@.len() { page } else { entries@.len() as int };
            let shown = readable_agents(entries@, window);
            &&& res.agents@.len() == shown.len()
            &&& forall|i: int| 0 <= i < shown.len() ==> shows_agent(#[trigger] res.agents@[i], shown[i])
        }),
{
    let page: u64 = match limit {
        Some(l) => l as u64,
        None => 30,
    };
    let window: usize = if page < entries.len() as u64 { page as usize } else { entries.len() };
    let mut agents: Vec<AgentResponse> = Vec::new();
    let mut i: usize = 0;
    while i < window
        invariant
            window <= entries.len(),
            i <= window,
            agents@.len() == readable_agents(entries@, i as int).len(),
            forall|j: int|
                0 <= j < agents@.len() ==> shows_agent(
                    #[trigger] agents@[j],
                    readable_agents(entries@, i as int)[j],
                ),
        decreases window - i,
    {
        match &entries[i] {
            Some(a) => {
                agents.push(agent_response(a));
            },
            None => {},
        }
        i = i + 1;
    }
    AgentsResponse { agents }
}

/// The consensus price of a pair: the stored one, and where none is stored
/// one computed afresh from `feeds` (the pair's stored feeds) under `config`.
/// Reads the stored consensus first, then, where it needs them, the
/// configuration and the feeds.
pub fn query_consensus_price(
    stored: Result<Option<ConsensusPrice>, StdFailure>,
    config: Result<Config, StdFailure>,
    feeds: &Vec<PriceFeed>,
    now: u64,
    asset_pair: &str,
) -> (res: Result<ConsensusPriceResponse, StdFailure>)
    requires
        stored matches Ok(None) && config matches Ok(c) ==> consensus_defined(c, feeds@, now),
    ensures
        match stored {
            Err(e) => res == Err::<ConsensusPriceResponse, StdFailure>(e),
            Ok(Some(c)) => res matches Ok(out) && out.asset_pair == c.asset_pair && out.price == c.price
                && out.agent_count == c.agent_count && out.computed_at == c.computed_at
                && out.confidence == c.confidence,
            Ok(None) => match config {
                Err(e) => res == Err::<ConsensusPriceResponse, StdFailure>(e),
                Ok(cfg) => exists|fresh: Option<ConsensusPrice>|
                    #![trigger is_consensus(cfg, feeds@, now, asset_pair@, fresh)]
                    is_consensus(cfg, feeds@, now, asset_pair@, fresh) && match fresh {
                        None => res matches Err(StdFailure::NotFound { kind }) && kind@
                            == "ConsensusPrice"@,
                        Some(c) => res matches Ok(out) && out.asset_pair@ == c.asset_pair@
                            && out.price == c.price && out.agent_count == c.agent_count
                            && out.computed_at == c.computed_at && out.confidence == c.confidence,
                    },
            },
        },
{
    let stored = match stored {
        Err(e) => return Err(e),
        Ok(s) => s,
    };
    let c = match stored {
        Some(c) => c,
        None => {
            let ghost cfg = config;
            let fresh = match try_compute_consensus(config, feeds, now, asset_pair) {
                Ok(r) => r,
                Err(ContractError::Std(e)) => return Err(e),
                Err(_) => {
                    proof {
                        assert(false);
                    }
                    return Err(StdFailure::Generic { msg: "consensus".to_owned() });
                },
            };
            match fresh {
                Some(c) => c,
                None => return Err(StdFailure::NotFound { kind: "ConsensusPrice".to_owned() }),
            }
        },
    };
    Ok(ConsensusPriceResponse {
        asset_pair: c.asset_pair,
        price: c.price,
        agent_count: c.agent_count,
        computed_at: c.computed_at,
        confidence: c.confidence,
    })
}

/// A signal's strength after `now_secs - deposited_secs` seconds of decay at
/// `decay_rate` basis points per second: it falls linearly to zero.
pub open spec fn decayed_strength(strength: u128, decay_rate: u64, deposited_at: u64, now: u64) -> int {
    let elapsed = now / 1_000_000_000 - deposited_at / 1_000_000_000;
    let decay = decay_rate * elapsed;
    if decay >= 10_000 {
        0
    } else {
        ratio(strength as int, 10_000 - decay, 10_000)
    }
}

/// `s` passes the listing's filters: deposited after `cutoff` and, where a
/// type is asked for, of that type.
pub open spec fn signal_selected(s: StigmergySignal, cutoff: u64, signal_type: Option<String>) -> bool {
    &&& s.deposited_at > cutoff
    &&& signal_type matches Some(t) ==> s.signal_type@ == t@
}

pub open spec fn selected_signals(
    entries: Seq<Option<StigmergySignal>>,
    n: int,
    cutoff: u64,
    signal_type: Option<String>,
) -> Seq<StigmergySignal>
    decreases n,
{
    if n <= 0 {
        Seq::empty()
    } else {
        let before = selected_signals(entries, n - 1, cutoff, signal_type);
        match entries[n - 1] {
            Some(s) => if signal_selected(s, cutoff, signal_type) {
                before.push(s)
            } else {
                before
            },
            None => before,
        }
    }
}

/// `out` shows `s` with its strength decayed to `now`.
pub open spec fn shows_signal(out: StigmergySignalResponse, s: StigmergySignal, now: u64) -> bool {
    &&& out.signal_type@ == s.signal_type@
    &&& out.from_agent@ == s.from_agent@
    &&& out.data_hash@ == s.data_hash@
    &&& out.strength == decayed_strength(s.strength, s.decay_rate, s.deposited_at, now)
    &&& out.deposited_at == s.deposited_at
    &&& out.decay_rate == s.decay_rate
}

/// Every signal of `shown` was deposited no later than the second of `now`.
pub open spec fn deposited_by(shown: Seq<StigmergySignal>, now: u64) -> bool {
    forall|i: int| 0 <= i < shown.len() ==> (#[trigger] shown[i]).deposited_at / 1_000_000_000 <= now
        / 1_000_000_000
}

pub open spec fn page_window(entries_len: int, limit: Option<u32>) -> int {
    let page = match limit {
        Some(l) => l as int,
        None => 30,
    };
    if page < entries_len { page } else { entries_len }
}

/// Live stigmergy signals, oldest first, each with its decayed strength.
/// `stored` are the stored signals with their ids, in ascending id order;
/// of those whose id comes after `start_after`, a page is read, then those
/// deposited within the last `max_age_seconds` and of the type asked for
/// are shown. Reads the configuration first.
pub fn query_stigmergy_signals(
    config: Result<Config, StdFailure>,
    stored: Vec<(u64, Option<StigmergySignal>)>,
    start_after: Option<u64>,
    now: u64,
    signal_type: Option<String>,
    limit: Option<u32>,
) -> (res: Result<StigmergySignalsResponse, StdFailure>)
    requires
        config matches Ok(c) ==> {
            let cutoff = (now - c.max_age_seconds * 1_000_000_000) as u64;
            let shown = selected_signals(entries_after(stored@, stored@.len() as int, start_after), page_window(entries_after(stored@, stored@.len() as int, start_after).len() as int, limit), cutoff, signal_type);
            &&& c.max_age_seconds * 1_000_000_000 <= now
            &&& deposited_by(shown, now)
        },
    ensures
        match config {
            Err(e) => res == Err::<StigmergySignalsResponse, StdFailure>(e),
            Ok(c) => res matches Ok(out) && {
                let cutoff = (now - c.max_age_seconds * 1_000_000_000) as u64;
                let shown = selected_signals(entries_after(stored@, stored@.len() as int, start_after), page_window(entries_after(stored@, stored@.len() as int, start_after).len() as int, limit), cutoff, signal_type);
                &&& out.signals@.len() == shown.len()
                &&& forall|i: int| 0 <= i < shown.len() ==> shows_signal(#[trigger] out.signals@[i], shown[i], now)
            },
        },
{
    let entries = keep_after(stored, start_after);
    let config = match config {
        Err(e) => return Err(e),
        Ok(c) => c,
    };
    let cutoff = minus_seconds(now, config.max_age_seconds);
    let page: u64 = match limit {
        Some(l) => l as u64,
        None => 30,
    };
    let window: usize = if page < entries.len() as u64 { page as usize } else { entries.len() };
    let ghost shown_all = selected_signals(entries@, window as int, cutoff, signal_type);
    assert(window as int == page_window(entries@.len() as int, limit));
    let mut signals: Vec<StigmergySignalResponse> = Vec::new();
    let mut i: usize = 0;
    while i < window
        invariant
            window <= entries.len(),
            window as int == page_window(entries@.len() as int, limit),
            i <= window,
            shown_all == selected_signals(entries@, window as int, cutoff, signal_type),
            deposited_by(shown_all, now),
            signals@.len() == selected_signals(entries@, i as int, cutoff, signal_type).len(),
            forall|j: int|
                0 <= j < signals@.len() ==> shows_signal(
                    #[trigger] signals@[j],
                    selected_signals(entries@, i as int, cutoff, signal_type)[j],
                    now,
                ),
        decreases window - i,
    {
        proof {
            lemma_selected_signals_prefix(entries@, i + 1, window as int, cutoff, signal_type);
        }
        match &entries[i] {
            Some(s) => {
                let type_ok = match &signal_type {
                    Some(t) => s.signal_type == *t,
                    None => true,
                };
                if s.deposited_at > cutoff && type_ok {
                    let k = signals.len();
                    assert(selected_signals(entries@, i + 1, cutoff, signal_type)[k as int] == *s);
                    let deposited_secs = (s.deposited_at / 1_000_000_000) as u128;
                    let now_secs = (now / 1_000_000_000) as u128;
                    proof {
                        let d = s.decay_rate as int;
                        let e = (now_secs - deposited_secs) as int;
                        assert(0 <= d * e <= 0xffff_ffff_ffff_ffff * 0xffff_ffff_ffff_ffff) by (nonlinear_arith)
                            requires
                                0 <= d <= 0xffff_ffff_ffff_ffff,
                                0 <= e <= 0xffff_ffff_ffff_ffff,
                        ;
                    }
                    let decay = s.decay_rate as u128 * (now_secs - deposited_secs);
                    let strength = if decay >= 10_000 {
                        0
                    } else {
                        proof {
                            let v = s.strength as int;
                            let n = (10_000 - decay) as int;
                            assert(v * n / 10_000 <= v) by (nonlinear_arith)
                                requires
                                    0 <= v,
                                    0 <= n <= 10_000,
                            ;
                        }
                        multiply_ratio(s.strength, 10_000 - decay, 10_000)
                    };
                    signals.push(
                        StigmergySignalResponse {
                            signal_type: s.signal_type.clone(),
                            from_agent: s.from_agent.clone(),
                            data_hash: s.data_hash.clone(),
                            strength,
                            deposited_at: s.deposited_at,
                            decay_rate: s.decay_rate,
                        },
                    );
                }
            },
            None => {},
        }
        i = i + 1;
    }
    Ok(StigmergySignalsResponse { signals })
}

/// The signals selected among a prefix are a prefix of those selected among
/// a longer one.
proof fn lemma_selected_signals_prefix(
    entries: Seq<Option<StigmergySignal>>,
    n: int,
    m: int,
    cutoff: u64,
    signal_type: Option<String>,
)
    requires
        0 <= n <= m,
    ensures
        selected_signals(entries, n, cutoff, signal_type).len() <= selected_signals(
            entries,
            m,
            cutoff,
            signal_type,
        ).len(),
        forall|k: int|
            0 <= k < selected_signals(entries, n, cutoff, signal_type).len() ==> #[trigger] selected_signals(
                entries,
                n,
                cutoff,
                signal_type,
            )[k] == selected_signals(entries, m, cutoff, signal_type)[k],
    decreases m - n,
{
    if n < m {
        lemma_selected_signals_prefix(entries, n, m - 1, cutoff, signal_type);
    }
}


// ── Laws ──────────────────────────────────────────────────────────

/// A stigmergy signal only weakens as it ages: its decayed strength is at
/// most its deposited strength.
pub proof fn lemma_decay_never_strengthens(strength: u128, decay_rate: u64, deposited_at: u64, now: u64)
    requires
        deposited_at / 1_000_000_000 <= now / 1_000_000_000,
    ensures
        0 <= decayed_strength(strength, decay_rate, deposited_at, now) <= strength,
{
    let elapsed = now / 1_000_000_000 - deposited_at / 1_000_000_000;
    let d = decay_rate as int;
    assert(d * elapsed >= 0) by (nonlinear_arith)
        requires
            d >= 0,
            elapsed >= 0,
    ;
    let decay = decay_rate * elapsed;
    if decay < 10_000 {
        let v = strength as int;
        let n = 10_000 - decay;
        assert(0 <= v * n / 10_000 <= v) by (nonlinear_arith)
            requires
                0 <= v,
                0 < n <= 10_000,
        ;
    }
}

/// A stigmergy signal keeps weakening as time passes: at a later block time
/// its decayed strength is no greater than at an earlier one.
pub proof fn lemma_decay_monotone(strength: u128, decay_rate: u64, deposited_at: u64, earlier: u64, later: u64)
    requires
        deposited_at / 1_000_000_000 <= earlier / 1_000_000_000,
        earlier <= later,
    ensures
        decayed_strength(strength, decay_rate, deposited_at, later) <= decayed_strength(
            strength,
            decay_rate,
            deposited_at,
            earlier,
        ),
{
    lemma_decay_never_strengthens(strength, decay_rate, deposited_at, later);
    lemma_div_is_ordered(earlier as int, later as int, 1_000_000_000);
    let start = deposited_at / 1_000_000_000;
    let e1 = earlier / 1_000_000_000 - start;
    let e2 = later / 1_000_000_000 - start;
    let r = decay_rate as int;
    assert(r * e1 <= r * e2) by (nonlinear_arith)
        requires
            0 <= e1 <= e2,
            r >= 0,
    ;
    let d1 = decay_rate * e1;
    let d2 = decay_rate * e2;
    if d2 < 10_000 {
        let v = strength as int;
        assert(v * (10_000 - d2) <= v * (10_000 - d1)) by (nonlinear_arith)
            requires
                v >= 0,
                d1 <= d2,
        ;
        lemma_div_is_ordered(v * (10_000 - d2), v * (10_000 - d1), 10_000);
    }
}

} // verus!
