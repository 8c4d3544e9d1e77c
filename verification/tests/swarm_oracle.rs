use swarmfi::common::{AttrValue, Coin, MessageInfo, Response, StdFailure};
use swarmfi::swarm_oracle::consensus::{consensus_computable, try_compute_consensus};
use swarmfi::swarm_oracle::contract::{
    execute_register_agent, execute_submit_price, execute_submit_stigmergy_signal,
    execute_update_agent_reputation, execute_update_config, instantiate, query_agent,
    query_consensus_price, query_list_agents, query_price, query_stigmergy_signals,
};
use swarmfi::swarm_oracle::error::ContractError;
use swarmfi::swarm_oracle::msg::InstantiateMsg;
use swarmfi::swarm_oracle::state::{Agent, Config, ConsensusPrice, PriceFeed, StigmergySignal};

const SECOND: u64 = 1_000_000_000;

fn so_info(sender: &str) -> MessageInfo {
    MessageInfo { sender: sender.to_string(), funds: Vec::<Coin>::new() }
}

fn so_config() -> Config {
    Config {
        owner: "owner".to_string(),
        admin: "admin".to_string(),
        min_agents_for_consensus: 2,
        max_age_seconds: 300,
        acceptable_deviation_bps: 500,
    }
}

fn so_agent(address: &str, reputation: u64, active: bool) -> Agent {
    Agent {
        address: address.to_string(),
        name: "feeder".to_string(),
        agent_type: "price".to_string(),
        reputation_score: reputation,
        total_submissions: 4,
        accuracy_score: 50,
        is_active: active,
        registered_at: 1,
    }
}

fn so_feed(by: &str, price: u128, weight: u128, confidence: u8, at: u64) -> PriceFeed {
    PriceFeed {
        asset_pair: "INIT/USD".to_string(),
        price,
        confidence,
        submitted_by: by.to_string(),
        submitted_at: at,
        consensus_weight: weight,
        agent_signatures: vec![by.to_string()],
    }
}

fn so_signal(kind: &str, strength: u128, at: u64, decay_rate: u64) -> StigmergySignal {
    StigmergySignal {
        signal_type: kind.to_string(),
        from_agent: "agent".to_string(),
        data_hash: "hash".to_string(),
        strength,
        deposited_at: at,
        decay_rate,
    }
}

fn so_attr(r: &Response, key: &str) -> Option<String> {
    r.attributes.iter().find(|a| a.key == key).map(|a| match &a.value {
        AttrValue::Text(s) => s.clone(),
        AttrValue::Number(n) => n.to_string(),
        AttrValue::Flag(b) => b.to_string(),
    })
}

#[test]
fn oracle_instantiate_validates_both_addresses() {
    let msg = InstantiateMsg {
        owner: "owner".to_string(),
        admin: "admin".to_string(),
        min_agents_for_consensus: 3,
        max_age_seconds: 60,
        acceptable_deviation_bps: 100,
    };
    let (c, r) = instantiate(msg.clone(), Ok("owner".to_string()), Ok("admin".to_string())).unwrap();
    assert_eq!(c.min_agents_for_consensus, 3);
    assert_eq!(so_attr(&r, "owner"), Some("owner".to_string()));
    let err = instantiate(msg, Ok("owner".to_string()), Err(StdFailure::Generic { msg: "bad".to_string() }));
    assert!(matches!(err, Err(ContractError::Std(_))));
}

#[test]
fn register_agent_once() {
    let (a, r) = execute_register_agent(Ok(None), 42, so_info("bot"), "n".to_string(), "price".to_string()).unwrap();
    assert_eq!(a.address, "bot");
    assert_eq!(a.reputation_score, 100);
    assert_eq!(a.total_submissions, 0);
    assert!(a.is_active);
    assert_eq!(a.registered_at, 42);
    assert_eq!(so_attr(&r, "agent"), Some("bot".to_string()));
    let again = execute_register_agent(Ok(Some(a)), 43, so_info("bot"), "n".to_string(), "price".to_string());
    assert!(matches!(again, Err(ContractError::AgentAlreadyRegistered { .. })));
}

#[test]
fn submit_price_weights_by_reputation() {
    let out = execute_submit_price(Ok(so_agent("bot", 250, true)), Ok(so_config()), vec![], 1_000 * SECOND, so_info("bot"), "INIT/USD".to_string(), 1_234, 90).unwrap();
    assert_eq!(out.feed.consensus_weight, 250);
    assert_eq!(out.feed.submitted_at, 1_000 * SECOND);
    assert_eq!(out.feed.agent_signatures, vec!["bot".to_string()]);
    assert_eq!(out.agent.total_submissions, 5);
}

#[test]
fn submit_price_errors() {
    let call = |agent: Result<Agent, StdFailure>, price: u128, confidence: u8| {
        execute_submit_price(agent, Ok(so_config()), vec![], 1_000 * SECOND, so_info("bot"), "INIT/USD".to_string(), price, confidence)
    };
    assert!(matches!(call(Ok(so_agent("bot", 1, true)), 0, 5), Err(ContractError::ZeroPrice {})));
    assert!(matches!(call(Ok(so_agent("bot", 1, true)), 5, 0), Err(ContractError::InvalidConfidence {})));
    assert!(matches!(call(Ok(so_agent("bot", 1, false)), 5, 5), Err(ContractError::AgentInactive {})));
    match call(Err(StdFailure::NotFound { kind: "Agent".to_string() }), 5, 5) {
        Err(ContractError::AgentNotFound { address }) => assert_eq!(address, "bot"),
        other => panic!("unexpected {:?}", other),
    }
}

#[test]
fn consensus_drops_outliers_and_takes_weighted_median() {
    let now = 1_000 * SECOND;
    let feeds = vec![
        so_feed("a", 100, 1, 80, now - SECOND),
        so_feed("b", 200, 1, 10, now - SECOND),
        so_feed("c", 102, 1, 90, now - SECOND),
    ];
    let cp = try_compute_consensus(Ok(so_config()), &feeds, now, "INIT/USD").unwrap().unwrap();
    // median 102, threshold 102 * 500 / 10_000 = 5, so 200 is dropped.
    assert_eq!(cp.agent_count, 2);
    assert_eq!(cp.price, 100);
    assert_eq!(cp.confidence, 85);
    assert_eq!(cp.computed_at, now);
    assert_eq!(cp.asset_pair, "INIT/USD");
}

#[test]
fn consensus_weighted_median_follows_weight() {
    let now = 1_000 * SECOND;
    let feeds = vec![
        so_feed("a", 100, 1, 50, now),
        so_feed("b", 101, 10, 50, now),
        so_feed("c", 102, 1, 50, now),
    ];
    let cp = try_compute_consensus(Ok(so_config()), &feeds, now, "INIT/USD").unwrap().unwrap();
    // total weight 12, half 6: reached at price 101.
    assert_eq!(cp.price, 101);
    assert_eq!(cp.agent_count, 3);
}

#[test]
fn consensus_ignores_stale_feeds() {
    let now = 1_000 * SECOND;
    // The cutoff is 300 s before now; a feed at the cutoff is stale.
    let feeds = vec![so_feed("a", 100, 1, 80, now - 300 * SECOND), so_feed("b", 100, 1, 80, now)];
    let none = try_compute_consensus(Ok(so_config()), &feeds, now, "INIT/USD").unwrap();
    assert!(none.is_none());
    let feeds = vec![so_feed("a", 100, 1, 80, now - 299 * SECOND), so_feed("b", 100, 1, 80, now)];
    assert!(try_compute_consensus(Ok(so_config()), &feeds, now, "INIT/USD").unwrap().is_some());
}

#[test]
fn consensus_needs_enough_agents_in_band() {
    let now = 1_000 * SECOND;
    let feeds = vec![so_feed("a", 100, 1, 80, now), so_feed("b", 300, 1, 80, now)];
    // median 300, threshold 15: only one agent in band.
    assert!(try_compute_consensus(Ok(so_config()), &feeds, now, "INIT/USD").unwrap().is_none());
    let err = try_compute_consensus(Err(StdFailure::NotFound { kind: "Config".to_string() }), &feeds, now, "INIT/USD");
    assert!(matches!(err, Err(ContractError::Std(_))));
}

#[test]
fn submit_price_recomputes_consensus() {
    let now = 1_000 * SECOND;
    let others = vec![so_feed("a", 100, 100, 80, now - SECOND)];
    let out = execute_submit_price(Ok(so_agent("bot", 100, true)), Ok(so_config()), others, now, so_info("bot"), "INIT/USD".to_string(), 102, 60).unwrap();
    let cp = out.consensus.expect("two agents agree");
    // Weights 100 and 100, half 100: reached at price 100.
    assert_eq!(cp.price, 100);
    assert_eq!(cp.agent_count, 2);
    assert_eq!(cp.confidence, 70);
    assert_eq!(so_attr(&out.response, "consensus_price"), Some("100".to_string()));
    assert_eq!(so_attr(&out.response, "agent_count"), Some("2".to_string()));
    let alone = execute_submit_price(Ok(so_agent("bot", 100, true)), Ok(so_config()), vec![], now, so_info("bot"), "INIT/USD".to_string(), 102, 60).unwrap();
    assert!(alone.consensus.is_none());
    assert_eq!(alone.response.attributes.len(), 3);
    assert_eq!(so_attr(&alone.response, "consensus_price"), None);
    let no_config = execute_submit_price(Ok(so_agent("bot", 100, true)), Err(StdFailure::NotFound { kind: "Config".to_string() }), vec![], now, so_info("bot"), "INIT/USD".to_string(), 102, 60);
    assert!(matches!(no_config, Err(ContractError::Std(_))));
}

#[test]
fn stigmergy_signal_gets_next_id() {
    let (id, s, r) = execute_submit_stigmergy_signal(Ok(Some(8)), 5, so_info("bot"), "risk".to_string(), "h".to_string(), 1_000, 10).unwrap();
    assert_eq!(id, 9);
    assert_eq!(s.from_agent, "bot");
    assert_eq!(s.deposited_at, 5);
    assert_eq!(so_attr(&r, "signal_id"), Some("9".to_string()));
    let zero = execute_submit_stigmergy_signal(Ok(None), 5, so_info("bot"), "risk".to_string(), "h".to_string(), 0, 10);
    assert!(matches!(zero, Err(ContractError::ZeroSignalStrength {})));
}

#[test]
fn stigmergy_signals_decay() {
    let now = 1_000 * SECOND;
    let entries = vec![
        (1, Some(so_signal("risk", 1_000, now - 10 * SECOND, 100))),
        (2, Some(so_signal("risk", 1_000, now - 200 * SECOND, 100))),
        (3, Some(so_signal("price", 1_000, now, 100))),
        (4, None),
        (5, Some(so_signal("risk", 1_000, now - 400 * SECOND, 1))),
    ];
    let out = query_stigmergy_signals(Ok(so_config()), entries.clone(), None, now, Some("risk".to_string()), None).unwrap();
    // 10 s at 100 per second: 1_000 * (10_000 - 1_000) / 10_000 = 900;
    // 200 s: decay 20_000 >= 10_000, so 0; the last one is older than the cutoff.
    let strengths: Vec<u128> = out.signals.iter().map(|s| s.strength).collect();
    assert_eq!(strengths, vec![900, 0]);
    let all = query_stigmergy_signals(Ok(so_config()), entries.clone(), None, now, None, Some(3)).unwrap();
    assert_eq!(all.signals.len(), 3);
    assert_eq!(all.signals[2].strength, 1_000);
    let later = query_stigmergy_signals(Ok(so_config()), entries, Some(1), now, None, Some(2)).unwrap();
    let strengths: Vec<u128> = later.signals.iter().map(|s| s.strength).collect();
    assert_eq!(strengths, vec![0, 1_000]);
}

#[test]
fn update_agent_reputation_saturates() {
    let (a, r) = execute_update_agent_reputation(
        Ok(so_config()),
        so_info("admin"),
        Ok("bot".to_string()),
        Ok(so_agent("bot", 100, true)),
        -150,
        i64::MAX,
    )
    .unwrap();
    assert_eq!(a.reputation_score, 0);
    assert_eq!(a.accuracy_score, 50 + i64::MAX as u64);
    assert_eq!(so_attr(&r, "reputation"), Some("0".to_string()));
    let (a, _) = execute_update_agent_reputation(Ok(so_config()), so_info("admin"), Ok("bot".to_string()), Ok(so_agent("bot", u64::MAX - 1, true)), 5, i64::MIN).unwrap();
    assert_eq!(a.reputation_score, u64::MAX);
    assert_eq!(a.accuracy_score, 0);
    let denied = execute_update_agent_reputation(Ok(so_config()), so_info("x"), Ok("bot".to_string()), Ok(so_agent("bot", 1, true)), 1, 1);
    assert!(matches!(denied, Err(ContractError::Unauthorized { .. })));
    let missing = execute_update_agent_reputation(Ok(so_config()), so_info("admin"), Ok("bot".to_string()), Err(StdFailure::NotFound { kind: "Agent".to_string() }), 1, 1);
    assert!(matches!(missing, Err(ContractError::AgentNotFound { .. })));
}

#[test]
fn oracle_update_config_fields() {
    let (c, _) = execute_update_config(Ok(so_config()), so_info("owner"), Some(Ok("new".to_string())), Some(5), None, Some(9)).unwrap();
    assert_eq!(c.admin, "new");
    assert_eq!(c.owner, "owner");
    assert_eq!(c.min_agents_for_consensus, 5);
    assert_eq!(c.max_age_seconds, 300);
    assert_eq!(c.acceptable_deviation_bps, 9);
    match execute_update_config(Ok(so_config()), so_info("admin"), None, None, None, None) {
        Err(ContractError::Unauthorized { role }) => assert_eq!(role, "owner"),
        other => panic!("unexpected {:?}", other),
    }
}

#[test]
fn oracle_queries() {
    assert!(matches!(query_price(vec![]), Err(StdFailure::NotFound { .. })));
    // The latest submission is shown, not the first feed.
    let p = query_price(vec![so_feed("z", 5, 1, 1, 2), so_feed("a", 6, 1, 1, 3), so_feed("m", 7, 1, 1, 3)]).unwrap();
    assert_eq!(p.price, 6);
    assert_eq!(p.submitted_by, "a");
    assert_eq!(p.submitted_at, 3);
    let a = query_agent(Ok(so_agent("bot", 3, true))).unwrap();
    assert_eq!(a.reputation_score, 3);
    let list = query_list_agents(vec![Some(so_agent("a", 1, true)), None, Some(so_agent("c", 1, true))], Some(2));
    assert_eq!(list.agents.len(), 1);
    assert_eq!(list.agents[0].address, "a");
}

#[test]
fn consensus_query_prefers_stored() {
    let now = 1_000 * SECOND;
    let stored = ConsensusPrice { asset_pair: "INIT/USD".to_string(), price: 55, agent_count: 4, computed_at: 3, confidence: 70 };
    let out = query_consensus_price(Ok(Some(stored)), Ok(so_config()), &vec![], now, "INIT/USD").unwrap();
    assert_eq!(out.price, 55);
    let feeds = vec![so_feed("a", 100, 1, 80, now), so_feed("b", 101, 1, 60, now)];
    let fresh = query_consensus_price(Ok(None), Ok(so_config()), &feeds, now, "INIT/USD").unwrap();
    assert_eq!(fresh.price, 100);
    assert_eq!(fresh.confidence, 70);
    let none = query_consensus_price(Ok(None), Ok(so_config()), &vec![], now, "INIT/USD");
    assert!(matches!(none, Err(StdFailure::NotFound { .. })));
}

#[test]
fn consensus_computable_marks_overflowing_inputs() {
    let now = 1_000 * SECOND;
    let feeds = vec![so_feed("a", 100, 1, 80, now), so_feed("b", 101, 1, 60, now)];
    assert!(consensus_computable(&so_config(), &feeds, now));
    // The cutoff would fall before the epoch.
    assert!(!consensus_computable(&so_config(), &feeds, 100 * SECOND));
    // Too few recent votes: nothing more is computed.
    assert!(consensus_computable(&so_config(), &feeds[..1].to_vec(), now));
    // No vote at all and no minimum: there is no median.
    let mut any = so_config();
    any.min_agents_for_consensus = 0;
    assert!(!consensus_computable(&any, &vec![], now));
    // The total weight of the votes in band overflows.
    let heavy = vec![so_feed("a", 100, u128::MAX / 2 + 1, 80, now), so_feed("b", 100, u128::MAX / 2 + 1, 80, now)];
    assert!(!consensus_computable(&so_config(), &heavy, now));
    // The outlier threshold overflows.
    let mut wide = so_config();
    wide.acceptable_deviation_bps = u64::MAX;
    let big = vec![so_feed("a", u128::MAX, 1, 80, now), so_feed("b", u128::MAX, 1, 80, now)];
    assert!(!consensus_computable(&wide, &big, now));
}

#[test]
fn stigmergy_strength_keeps_weakening() {
    let deposited = 1_000 * SECOND;
    let signal = so_signal("risk", 10_000, deposited, 7);
    let mut last = u128::MAX;
    for elapsed in [0u64, 1, 5, 30, 200] {
        let now = deposited + elapsed * SECOND;
        let mut config = so_config();
        config.max_age_seconds = 60;
        let out = query_stigmergy_signals(Ok(config), vec![(1, Some(signal.clone()))], None, now, None, None).unwrap();
        let strength = out.signals.first().map(|s| s.strength).unwrap_or(0);
        assert!(strength <= last);
        assert!(strength <= 10_000);
        last = strength;
    }
    // 5 s at 7 per second: 10_000 * (10_000 - 35) / 10_000 = 9_965.
    let out = query_stigmergy_signals(Ok(so_config()), vec![(1, Some(signal))], None, deposited + 5 * SECOND, None, None).unwrap();
    assert_eq!(out.signals[0].strength, 9_965);
}

#[test]
fn consensus_price_splits_weight() {
    let now = 1_000 * SECOND;
    let feeds = vec![
        so_feed("a", 104, 3, 50, now),
        so_feed("b", 100, 4, 50, now),
        so_feed("c", 102, 2, 50, now),
        so_feed("d", 101, 5, 50, now),
    ];
    let cp = try_compute_consensus(Ok(so_config()), &feeds, now, "INIT/USD").unwrap().unwrap();
    // Sorted: 100 (4), 101 (5), 102 (2), 104 (3); total 14, half 7: reached at 101.
    assert_eq!(cp.price, 101);
    let total: u128 = feeds.iter().map(|f| f.consensus_weight).sum();
    let below: u128 = feeds.iter().filter(|f| f.price < cp.price).map(|f| f.consensus_weight).sum();
    let at_most: u128 = feeds.iter().filter(|f| f.price <= cp.price).map(|f| f.consensus_weight).sum();
    assert!(below <= total / 2);
    assert!(at_most >= total / 2);
}
