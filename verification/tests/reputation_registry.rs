use swarmfi::common::{AttrValue, Coin, MessageInfo, Response, StdFailure};
use swarmfi::reputation_registry::contract::{
    execute_award_badge, execute_create_badge, execute_record_agent_task,
    execute_record_user_prediction, execute_update_agent_tier, instantiate,
};
use swarmfi::reputation_registry::error::ContractError;
use swarmfi::reputation_registry::msg::InstantiateMsg;
use swarmfi::reputation_registry::query::{
    query_agent_reputation, query_list_badges, query_list_top_agents, query_user_badges,
    query_user_reputation,
};
use swarmfi::reputation_registry::state::{
    AgentReputation, Badge, Config, ReputationTier, UserReputation,
};

fn rr_info(sender: &str) -> MessageInfo {
    MessageInfo { sender: sender.to_string(), funds: Vec::<Coin>::new() }
}

fn rr_config() -> Config {
    Config { admin: "admin".to_string() }
}

fn rr_agent(address: &str, accuracy: u64) -> AgentReputation {
    AgentReputation {
        agent_address: address.to_string(),
        total_tasks: 3,
        successful_tasks: 2,
        accuracy_score: accuracy,
        reliability_score: 6_666,
        tier: ReputationTier::from_score(accuracy),
        updated_at: 1,
    }
}

fn rr_user(address: &str, badges: Vec<u64>) -> UserReputation {
    UserReputation {
        address: address.to_string(),
        total_bets: 1,
        correct_bets: 1,
        volume_contributed: 10,
        badges,
        created_at: 5,
    }
}

fn rr_badge(id: u64) -> Badge {
    Badge { id, name: "Oracle".to_string(), description: "d".to_string(), icon: "i".to_string() }
}

fn rr_attr(r: &Response, key: &str) -> String {
    let a = r.attributes.iter().find(|a| a.key == key).expect("attribute");
    match &a.value {
        AttrValue::Text(s) => s.clone(),
        AttrValue::Number(n) => n.to_string(),
        AttrValue::Flag(b) => b.to_string(),
    }
}

#[test]
fn tier_from_score_thresholds() {
    assert_eq!(ReputationTier::from_score(0), ReputationTier::Bronze);
    assert_eq!(ReputationTier::from_score(499), ReputationTier::Bronze);
    assert_eq!(ReputationTier::from_score(500), ReputationTier::Silver);
    assert_eq!(ReputationTier::from_score(749), ReputationTier::Silver);
    assert_eq!(ReputationTier::from_score(750), ReputationTier::Gold);
    assert_eq!(ReputationTier::from_score(899), ReputationTier::Gold);
    assert_eq!(ReputationTier::from_score(900), ReputationTier::Platinum);
    assert_eq!(ReputationTier::from_score(u64::MAX), ReputationTier::Platinum);
}

#[test]
fn tier_names_round_trip() {
    for t in [ReputationTier::Bronze, ReputationTier::Silver, ReputationTier::Gold, ReputationTier::Platinum] {
        assert_eq!(ReputationTier::from_string(t.as_str()), t);
    }
    assert_eq!(ReputationTier::Gold.as_str(), "Gold");
    assert_eq!(ReputationTier::from_string("gold"), ReputationTier::Bronze);
}

#[test]
fn registry_instantiate() {
    let (c, r) = instantiate(InstantiateMsg { admin: "admin".to_string() }, Ok("admin".to_string())).unwrap();
    assert_eq!(c.admin, "admin");
    assert_eq!(rr_attr(&r, "action"), "instantiate");
}

#[test]
fn first_task_creates_reputation() {
    let (rep, r) = execute_record_agent_task(Ok(rr_config()), rr_info("admin"), Ok("bot".to_string()), Ok(None), 9, true, 600).unwrap();
    assert_eq!(rep.agent_address, "bot");
    assert_eq!(rep.total_tasks, 1);
    assert_eq!(rep.successful_tasks, 1);
    assert_eq!(rep.accuracy_score, 600);
    assert_eq!(rep.reliability_score, 10_000);
    assert_eq!(rep.tier, ReputationTier::Silver);
    assert_eq!(rep.updated_at, 9);
    assert_eq!(rr_attr(&r, "tier"), "Silver");
    assert_eq!(rr_attr(&r, "successful"), "true");
}

#[test]
fn task_accuracy_is_clamped() {
    let (rep, _) = execute_record_agent_task(Ok(rr_config()), rr_info("admin"), Ok("bot".to_string()), Ok(Some(rr_agent("bot", 950))), 9, false, 500).unwrap();
    // 950 + 500 clamps to 1000; 2 of 4 tasks succeeded.
    assert_eq!(rep.accuracy_score, 1_000);
    assert_eq!(rep.total_tasks, 4);
    assert_eq!(rep.successful_tasks, 2);
    assert_eq!(rep.reliability_score, 5_000);
    assert_eq!(rep.tier, ReputationTier::Platinum);
    let (rep, _) = execute_record_agent_task(Ok(rr_config()), rr_info("admin"), Ok("bot".to_string()), Ok(Some(rr_agent("bot", 100))), 9, true, -300).unwrap();
    assert_eq!(rep.accuracy_score, 0);
    assert_eq!(rep.reliability_score, 7_500);
    assert_eq!(rep.tier, ReputationTier::Bronze);
}

#[test]
fn task_recording_admin_only() {
    let denied = execute_record_agent_task(Ok(rr_config()), rr_info("x"), Ok("bot".to_string()), Ok(None), 9, true, 1);
    assert!(matches!(denied, Err(ContractError::Unauthorized { .. })));
    let bad = execute_record_agent_task(Ok(rr_config()), rr_info("admin"), Err(StdFailure::Generic { msg: "bad".to_string() }), Ok(None), 9, true, 1);
    assert!(matches!(bad, Err(ContractError::Std(_))));
}

#[test]
fn update_agent_tier_sets_named_tier() {
    let (rep, r) = execute_update_agent_tier(
        Ok(rr_config()),
        rr_info("admin"),
        Ok("bot".to_string()),
        Ok(rr_agent("bot", 100)),
        77,
        "bot".to_string(),
        "Gold".to_string(),
    )
    .unwrap();
    assert_eq!(rep.tier, ReputationTier::Gold);
    assert_eq!(rep.updated_at, 77);
    assert_eq!(rep.accuracy_score, 100);
    assert_eq!(rr_attr(&r, "tier"), "Gold");
    let missing = execute_update_agent_tier(
        Ok(rr_config()),
        rr_info("admin"),
        Ok("bot".to_string()),
        Err(StdFailure::NotFound { kind: "AgentReputation".to_string() }),
        77,
        "bot".to_string(),
        "Gold".to_string(),
    );
    match missing {
        Err(ContractError::AgentNotFound { address }) => assert_eq!(address, "bot"),
        other => panic!("unexpected {:?}", other),
    }
}

#[test]
fn award_badge_held_once() {
    let (u, r) = execute_award_badge(Ok(rr_config()), rr_info("admin"), Ok(Some(rr_badge(2))), Ok("alice".to_string()), Ok(Some(rr_user("alice", vec![1]))), 9, 2).unwrap();
    assert_eq!(u.badges, vec![1, 2]);
    assert_eq!(u.total_bets, 1);
    assert_eq!(rr_attr(&r, "badge_id"), "2");
    let (u, _) = execute_award_badge(Ok(rr_config()), rr_info("admin"), Ok(Some(rr_badge(2))), Ok("alice".to_string()), Ok(Some(u)), 10, 2).unwrap();
    assert_eq!(u.badges, vec![1, 2]);
}

#[test]
fn award_badge_creates_user() {
    let (u, _) = execute_award_badge(Ok(rr_config()), rr_info("admin"), Ok(Some(rr_badge(3))), Ok("carol".to_string()), Ok(None), 12, 3).unwrap();
    assert_eq!(u.address, "carol");
    assert_eq!(u.badges, vec![3]);
    assert_eq!(u.total_bets, 0);
    assert_eq!(u.volume_contributed, 0);
    assert_eq!(u.created_at, 12);
}

#[test]
fn award_badge_errors() {
    let missing = execute_award_badge(Ok(rr_config()), rr_info("admin"), Ok(None), Ok("alice".to_string()), Ok(None), 9, 4);
    match missing {
        Err(ContractError::BadgeNotFound { id }) => assert_eq!(id, 4),
        other => panic!("unexpected {:?}", other),
    }
    let denied = execute_award_badge(Ok(rr_config()), rr_info("x"), Ok(Some(rr_badge(4))), Ok("alice".to_string()), Ok(None), 9, 4);
    assert!(matches!(denied, Err(ContractError::Unauthorized { .. })));
}

#[test]
fn user_prediction_accumulates() {
    let (u, r) = execute_record_user_prediction(Ok(rr_config()), rr_info("admin"), Ok("alice".to_string()), Ok(Some(rr_user("alice", vec![]))), 9, false, 40).unwrap();
    assert_eq!(u.total_bets, 2);
    assert_eq!(u.correct_bets, 1);
    assert_eq!(u.volume_contributed, 50);
    assert_eq!(u.created_at, 5);
    assert_eq!(rr_attr(&r, "correct"), "false");
    let (u, _) = execute_record_user_prediction(Ok(rr_config()), rr_info("admin"), Ok("bob".to_string()), Ok(None), 9, true, 7).unwrap();
    assert_eq!(u.total_bets, 1);
    assert_eq!(u.correct_bets, 1);
    assert_eq!(u.volume_contributed, 7);
    assert_eq!(u.created_at, 9);
}

#[test]
fn create_badge_next_id() {
    let (id, b, r) = execute_create_badge(Ok(rr_config()), rr_info("admin"), Ok(Some(4)), "n".to_string(), "d".to_string(), "i".to_string()).unwrap();
    assert_eq!(id, 5);
    assert_eq!(b.id, 5);
    assert_eq!(b.name, "n");
    assert_eq!(rr_attr(&r, "badge_id"), "5");
    let denied = execute_create_badge(Ok(rr_config()), rr_info("x"), Ok(None), "n".to_string(), "d".to_string(), "i".to_string());
    assert!(matches!(denied, Err(ContractError::Unauthorized { .. })));
}

#[test]
fn top_agents_sorted_by_accuracy() {
    let agents = vec![rr_agent("a", 300), rr_agent("b", 900), rr_agent("c", 300), rr_agent("d", 1_000), rr_agent("e", 500)];
    let all = query_list_top_agents(agents.clone(), None, None);
    let names: Vec<String> = all.agents.iter().map(|a| a.agent_address.clone()).collect();
    assert_eq!(names, vec!["d", "b", "e", "a", "c"]);
    let below = query_list_top_agents(agents.clone(), Some(900), Some(2));
    let names: Vec<String> = below.agents.iter().map(|a| a.agent_address.clone()).collect();
    assert_eq!(names, vec!["e", "a"]);
    assert_eq!(all.agents[0].tier, "Platinum");
}

#[test]
fn registry_queries() {
    let a = query_agent_reputation(Ok(rr_agent("bot", 800))).unwrap();
    assert_eq!(a.tier, "Gold");
    let u = query_user_reputation(Ok(rr_user("alice", vec![7]))).unwrap();
    assert_eq!(u.badges, vec![7]);
    let b = query_user_badges(Ok(rr_user("alice", vec![7, 8]))).unwrap();
    assert_eq!(b.badge_ids, vec![7, 8]);
    assert_eq!(b.address, "alice");
    assert!(query_user_badges(Err(StdFailure::NotFound { kind: "UserReputation".to_string() })).is_err());
    let list = query_list_badges(vec![(1, Some(rr_badge(1))), (2, None), (3, Some(rr_badge(3)))], None, None);
    let ids: Vec<u64> = list.badges.iter().map(|b| b.id).collect();
    assert_eq!(ids, vec![1, 3]);
    let after = query_list_badges(vec![(1, Some(rr_badge(1))), (2, None), (3, Some(rr_badge(3)))], Some(1), Some(1));
    assert!(after.badges.is_empty());
}
