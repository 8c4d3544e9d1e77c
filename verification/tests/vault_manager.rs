use swarmfi::common::{AttrValue, Coin, MessageInfo, Response, StdFailure};
use swarmfi::vault_manager::contract::{
    execute_create_vault, execute_deposit, execute_rebalance, execute_set_vault_active,
    execute_update_config, execute_update_whitelist, execute_withdraw, instantiate,
};
use swarmfi::vault_manager::error::ContractError;
use swarmfi::vault_manager::msg::InstantiateMsg;
use swarmfi::vault_manager::query::{
    query_list_vaults, query_rebalance_history, query_user_deposits, query_vault,
    query_vault_positions,
};
use swarmfi::vault_manager::state::{Config, PerformancePoint, RebalanceEvent, Vault, VaultDeposit};

fn vm_coins(v: Vec<(&str, u128)>) -> Vec<Coin> {
    v.into_iter().map(|(d, a)| Coin { denom: d.to_string(), amount: a }).collect()
}

fn vm_info(sender: &str, funds: Vec<(&str, u128)>) -> MessageInfo {
    MessageInfo { sender: sender.to_string(), funds: vm_coins(funds) }
}

fn vm_config() -> Config {
    Config { admin: "admin".to_string(), fee_rate_bps: 50 }
}

fn vm_vault(assets: Vec<(&str, u128)>, value: u128, shares: u128) -> Vault {
    Vault {
        id: 1,
        name: "v".to_string(),
        strategy_type: "Balanced".to_string(),
        owner: "owner".to_string(),
        assets: vm_coins(assets),
        total_value: value,
        total_shares: shares,
        performance_history: vec![],
        risk_score: 5,
        agent_count: 0,
        is_active: true,
        created_at: 1,
    }
}

fn vm_deposit(shares: u128, amount: u128) -> VaultDeposit {
    VaultDeposit { depositor: "alice".to_string(), vault_id: 1, amount, deposited_at: 2, shares }
}

fn vm_pairs(coins: &[Coin]) -> Vec<(String, u128)> {
    coins.iter().map(|c| (c.denom.clone(), c.amount)).collect()
}

fn vm_attr(r: &Response, key: &str) -> String {
    let a = r.attributes.iter().find(|a| a.key == key).expect("attribute");
    match &a.value {
        AttrValue::Text(s) => s.clone(),
        AttrValue::Number(n) => n.to_string(),
        AttrValue::Flag(b) => b.to_string(),
    }
}

fn vm_event(id: u64, vault_id: u64) -> RebalanceEvent {
    RebalanceEvent {
        id,
        vault_id,
        from_asset: "uinit".to_string(),
        to_asset: "uatom".to_string(),
        amount: 5,
        triggered_by: "bot".to_string(),
        reason: "r".to_string(),
        executed_at: 3,
    }
}

#[test]
fn vault_instantiate() {
    let (c, _) = instantiate(InstantiateMsg { admin: "admin".to_string(), fee_rate_bps: 50 }, Ok("admin".to_string())).unwrap();
    assert_eq!(c.fee_rate_bps, 50);
}

#[test]
fn create_vault_sets_risk_by_strategy() {
    let (id, v, r) = execute_create_vault(Ok(Some(3)), 9, vm_info("owner", vec![]), "n".to_string(), "Balanced".to_string()).unwrap();
    assert_eq!(id, 4);
    assert_eq!(v.id, 4);
    assert_eq!(v.risk_score, 5);
    assert!(v.is_active);
    assert!(v.assets.is_empty());
    assert_eq!(v.created_at, 9);
    assert_eq!(vm_attr(&r, "vault_id"), "4");
    let (_, v, _) = execute_create_vault(Ok(None), 9, vm_info("owner", vec![]), "n".to_string(), "Conservative".to_string()).unwrap();
    assert_eq!(v.risk_score, 1);
    let (_, v, _) = execute_create_vault(Ok(None), 9, vm_info("owner", vec![]), "n".to_string(), "Aggressive".to_string()).unwrap();
    assert_eq!(v.risk_score, 9);
    let bad = execute_create_vault(Ok(None), 9, vm_info("owner", vec![]), "n".to_string(), "Yolo".to_string());
    assert!(matches!(bad, Err(ContractError::InvalidStrategy { .. })));
}

#[test]
fn first_deposit_mints_one_share_per_unit() {
    let out = execute_deposit(Ok(vm_vault(vec![], 0, 0)), Ok(None), Ok(None), 7, vm_info("alice", vec![("uinit", 600), ("uatom", 400)]), 1).unwrap();
    assert_eq!(out.deposit.amount, 1_000);
    assert_eq!(out.deposit.shares, 1_000);
    assert_eq!(out.vault.total_value, 1_000);
    assert_eq!(out.vault.total_shares, 1_000);
    assert_eq!(vm_pairs(&out.vault.assets), vec![("uinit".to_string(), 600), ("uatom".to_string(), 400)]);
    assert_eq!(out.vault.performance_history, vec![PerformancePoint { timestamp: 7, value: 1_000 }]);
    assert_eq!(out.user_vaults, Some(vec![1]));
    assert_eq!(vm_attr(&out.response, "shares"), "1000");
}

#[test]
fn later_deposit_mints_at_share_price() {
    let out = execute_deposit(
        Ok(vm_vault(vec![("uinit", 600), ("uatom", 400)], 2_000, 1_000)),
        Ok(Some(vm_deposit(1_000, 2_000))),
        Ok(Some(vec![1, 4])),
        8,
        vm_info("alice", vec![("uinit", 500)]),
        1,
    )
    .unwrap();
    // 500 * 1_000 / 2_000 = 250, added to the 1_000 shares already held.
    assert_eq!(out.deposit.shares, 1_250);
    assert_eq!(out.deposit.amount, 2_500);
    assert_eq!(out.deposit.deposited_at, 8);
    assert_eq!(vm_attr(&out.response, "shares"), "250");
    assert_eq!(out.vault.total_shares, 1_250);
    assert_eq!(out.vault.total_value, 2_500);
    assert_eq!(vm_pairs(&out.vault.assets), vec![("uinit".to_string(), 1_100), ("uatom".to_string(), 400)]);
    // The vault was already listed for the user.
    assert_eq!(out.user_vaults, None);
}

#[test]
fn deposit_errors() {
    let mut inactive = vm_vault(vec![], 0, 0);
    inactive.is_active = false;
    assert!(matches!(execute_deposit(Ok(inactive), Ok(None), Ok(None), 1, vm_info("a", vec![("uinit", 1)]), 1), Err(ContractError::VaultNotActive {})));
    assert!(matches!(execute_deposit(Ok(vm_vault(vec![], 0, 0)), Ok(None), Ok(None), 1, vm_info("a", vec![]), 1), Err(ContractError::InsufficientFunds {})));
    let missing = execute_deposit(Err(StdFailure::NotFound { kind: "Vault".to_string() }), Ok(None), Ok(None), 1, vm_info("a", vec![("uinit", 1)]), 1);
    assert!(matches!(missing, Err(ContractError::Std(StdFailure::NotFound { .. }))));
}

#[test]
fn performance_history_keeps_last_hundred() {
    let mut vault = vm_vault(vec![], 0, 0);
    vault.performance_history = (0..100).map(|i| PerformancePoint { timestamp: i, value: 0 }).collect();
    let out = execute_deposit(Ok(vault), Ok(None), Ok(None), 500, vm_info("a", vec![("uinit", 3)]), 1).unwrap();
    assert_eq!(out.vault.performance_history.len(), 100);
    assert_eq!(out.vault.performance_history[0].timestamp, 1);
    assert_eq!(out.vault.performance_history[99], PerformancePoint { timestamp: 500, value: 3 });
}

#[test]
fn partial_withdrawal_takes_proportional_assets() {
    let out = execute_withdraw(
        Ok(vm_vault(vec![("uinit", 600), ("uatom", 400)], 1_000, 1_000)),
        Ok(vm_deposit(1_000, 1_000)),
        9,
        vm_info("alice", vec![]),
        1,
        250,
    )
    .unwrap();
    assert_eq!(out.vault.total_shares, 750);
    assert_eq!(out.vault.total_value, 750);
    assert_eq!(vm_pairs(&out.vault.assets), vec![("uinit".to_string(), 450), ("uatom".to_string(), 300)]);
    assert_eq!(out.deposit.shares, 750);
    assert_eq!(out.deposit.amount, 750);
    assert_eq!(out.response.messages.len(), 1);
    assert_eq!(out.response.messages[0].to_address, "alice");
    assert_eq!(vm_pairs(&out.response.messages[0].amount), vec![("uinit".to_string(), 150), ("uatom".to_string(), 100)]);
    assert_eq!(vm_attr(&out.response, "value"), "250");
}

#[test]
fn full_withdrawal_empties_vault() {
    let out = execute_withdraw(
        Ok(vm_vault(vec![("uinit", 600), ("uatom", 400)], 1_000, 1_000)),
        Ok(vm_deposit(1_000, 1_000)),
        9,
        vm_info("alice", vec![]),
        1,
        1_000,
    )
    .unwrap();
    assert_eq!(out.vault.total_shares, 0);
    assert_eq!(out.vault.total_value, 0);
    assert!(out.vault.assets.is_empty());
    assert_eq!(vm_pairs(&out.response.messages[0].amount), vec![("uinit".to_string(), 600), ("uatom".to_string(), 400)]);
    assert_eq!(out.vault.performance_history, vec![PerformancePoint { timestamp: 9, value: 0 }]);
}

#[test]
fn withdraw_errors() {
    let v = || Ok(vm_vault(vec![("uinit", 10)], 10, 10));
    assert!(matches!(execute_withdraw(v(), Ok(vm_deposit(5, 5)), 1, vm_info("alice", vec![]), 1, 0), Err(ContractError::InsufficientShares {})));
    assert!(matches!(execute_withdraw(v(), Ok(vm_deposit(5, 5)), 1, vm_info("alice", vec![]), 1, 6), Err(ContractError::InsufficientShares {})));
    let missing = execute_withdraw(v(), Err(StdFailure::NotFound { kind: "VaultDeposit".to_string() }), 1, vm_info("alice", vec![]), 1, 1);
    assert!(matches!(missing, Err(ContractError::Std(_))));
}

#[test]
fn rebalance_moves_between_assets() {
    let out = execute_rebalance(
        Ok(Some(true)),
        Ok(vm_vault(vec![("uinit", 600), ("uatom", 400)], 1_000, 1_000)),
        Ok(Some(2)),
        11,
        vm_info("bot", vec![]),
        1,
        "uinit".to_string(),
        "uatom".to_string(),
        600,
        "risk".to_string(),
    )
    .unwrap();
    // uinit drops to zero and leaves the list.
    assert_eq!(vm_pairs(&out.vault.assets), vec![("uatom".to_string(), 1_000)]);
    assert_eq!(out.vault.agent_count, 1);
    assert_eq!(out.vault.total_value, 1_000);
    assert_eq!(out.event_count, 3);
    assert_eq!(out.event.id, 3);
    assert_eq!(out.event.triggered_by, "bot");
    assert_eq!(out.event.executed_at, 11);
    let out = execute_rebalance(
        Ok(Some(true)),
        Ok(vm_vault(vec![("uinit", 600), ("uatom", 400)], 1_000, 1_000)),
        Ok(None),
        11,
        vm_info("bot", vec![]),
        1,
        "uinit".to_string(),
        "ueth".to_string(),
        100,
        "r".to_string(),
    )
    .unwrap();
    assert_eq!(
        vm_pairs(&out.vault.assets),
        vec![("uinit".to_string(), 500), ("uatom".to_string(), 400), ("ueth".to_string(), 100)]
    );
    assert_eq!(out.event_count, 1);
}

#[test]
fn rebalance_errors() {
    let call = |w: Option<bool>, from: &str, amount: u128| {
        execute_rebalance(
            Ok(w),
            Ok(vm_vault(vec![("uinit", 600)], 600, 600)),
            Ok(None),
            1,
            vm_info("bot", vec![]),
            1,
            from.to_string(),
            "uatom".to_string(),
            amount,
            "r".to_string(),
        )
    };
    assert!(matches!(call(None, "uinit", 1), Err(ContractError::AgentNotWhitelisted {})));
    match call(Some(true), "ueth", 1) {
        Err(ContractError::AssetNotFound { asset }) => assert_eq!(asset, "ueth"),
        other => panic!("unexpected {:?}", other),
    }
    assert!(matches!(call(Some(true), "uinit", 601), Err(ContractError::InsufficientAssetBalance {})));
}

#[test]
fn vault_admin_actions() {
    let (c, _) = execute_update_config(Ok(vm_config()), vm_info("admin", vec![]), None, Some(75)).unwrap();
    assert_eq!(c.fee_rate_bps, 75);
    assert_eq!(c.admin, "admin");
    let (agent, entry, r) = execute_update_whitelist(Ok(vm_config()), vm_info("admin", vec![]), Ok("bot".to_string()), true).unwrap();
    assert_eq!(agent, "bot");
    assert_eq!(entry, Some(true));
    assert_eq!(vm_attr(&r, "add"), "true");
    let (_, entry, _) = execute_update_whitelist(Ok(vm_config()), vm_info("admin", vec![]), Ok("bot".to_string()), false).unwrap();
    assert_eq!(entry, None);
    let (v, _) = execute_set_vault_active(Ok(vm_config()), Ok(vm_vault(vec![], 0, 0)), vm_info("admin", vec![]), 1, false).unwrap();
    assert!(!v.is_active);
    let denied = execute_set_vault_active(Ok(vm_config()), Ok(vm_vault(vec![], 0, 0)), vm_info("x", vec![]), 1, false);
    assert!(matches!(denied, Err(ContractError::Unauthorized { .. })));
}

#[test]
fn vault_queries() {
    let v = query_vault(Ok(vm_vault(vec![("uinit", 3)], 3, 3))).unwrap();
    assert_eq!(v.total_value, 3);
    let p = query_vault_positions(Ok(vm_vault(vec![("uinit", 3)], 3, 3)), 1).unwrap();
    assert_eq!(p.vault_id, 1);
    assert_eq!(vm_pairs(&p.assets), vec![("uinit".to_string(), 3)]);
    let list = query_list_vaults(vec![(1, Some(vm_vault(vec![], 0, 0))), (2, None)], None, None);
    assert_eq!(list.vaults.len(), 1);
    let deposits = query_user_deposits(
        vec![1, 2, 5],
        vec![Some(vm_deposit(1, 1)), None, Some(vm_deposit(5, 5))],
        Some(1),
        None,
    );
    let shares: Vec<u128> = deposits.deposits.iter().map(|d| d.shares).collect();
    assert_eq!(shares, vec![5]);
    let history = query_rebalance_history(
        vec![(4, Some(vm_event(4, 1))), (3, Some(vm_event(3, 2))), (2, None), (1, Some(vm_event(1, 1)))],
        None,
        1,
        Some(1),
    );
    // Twice the limit (two entries) is read, then the vault's events are kept.
    assert_eq!(history.events.len(), 1);
    assert_eq!(history.events[0].vault_id, 1);
    let from_three = query_rebalance_history(
        vec![(4, Some(vm_event(4, 1))), (3, Some(vm_event(3, 2))), (2, None), (1, Some(vm_event(1, 1)))],
        Some(3),
        2,
        None,
    );
    // Events from id 3 on are read, the starting id itself included.
    assert_eq!(from_three.events.len(), 1);
    assert_eq!(from_three.events[0].vault_id, 2);
}

#[test]
fn holding_failure_passes_through() {
    let failed = execute_deposit(
        Ok(vm_vault(vec![], 0, 0)),
        Err(StdFailure::Generic { msg: "corrupt".to_string() }),
        Ok(None),
        1,
        vm_info("a", vec![("uinit", 5)]),
        1,
    );
    assert!(matches!(failed, Err(ContractError::Std(StdFailure::Generic { .. }))));
}
