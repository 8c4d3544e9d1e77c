use swarmfi::bridge_adapter::contract::{
    execute_complete_transfer, execute_fail_transfer, execute_initiate_transfer,
    execute_set_allowed_asset, execute_update_config, instantiate, query_config,
    query_list_transfers, query_transfer,
};
use swarmfi::bridge_adapter::error::ContractError;
use swarmfi::bridge_adapter::msg::InstantiateMsg;
use swarmfi::bridge_adapter::state::{BridgeConfig, TransferRecord, TransferStatus};
use swarmfi::common::{AttrValue, Coin, MessageInfo, Response, StdFailure};

fn bridge_info(sender: &str, funds: Vec<(&str, u128)>) -> MessageInfo {
    MessageInfo {
        sender: sender.to_string(),
        funds: funds
            .into_iter()
            .map(|(d, a)| Coin { denom: d.to_string(), amount: a })
            .collect(),
    }
}

fn bridge_config() -> BridgeConfig {
    BridgeConfig { admin: "admin".to_string(), fee_rate: 30, min_transfer: 1_000 }
}

fn bridge_record(id: u64, sender: &str, status: TransferStatus) -> TransferRecord {
    TransferRecord {
        id,
        sender: sender.to_string(),
        recipient: "init1dest".to_string(),
        asset: "uinit".to_string(),
        amount: 50_000,
        fee: 150,
        source_chain: "swarmfi-1".to_string(),
        dest_chain: "initiation-2".to_string(),
        status,
        created_at: 10,
        completed_at: None,
    }
}

fn bridge_attr(r: &Response, key: &str) -> String {
    let a = r.attributes.iter().find(|a| a.key == key).expect("attribute");
    match &a.value {
        AttrValue::Text(s) => s.clone(),
        AttrValue::Number(n) => n.to_string(),
        AttrValue::Flag(b) => b.to_string(),
    }
}

fn bridge_not_found() -> StdFailure {
    StdFailure::NotFound { kind: "TransferRecord".to_string() }
}

#[test]
fn transfer_status_labels_round_trip() {
    for s in [TransferStatus::Pending, TransferStatus::Completed, TransferStatus::Failed] {
        assert_eq!(TransferStatus::from_string(s.as_str()), s);
    }
    assert_eq!(TransferStatus::Completed.as_str(), "completed");
    assert_eq!(TransferStatus::from_string("unknown"), TransferStatus::Pending);
}

#[test]
fn bridge_instantiate_stores_config() {
    let msg = InstantiateMsg { admin: "admin".to_string(), fee_rate: 30, min_transfer: 1_000 };
    let (c, r) = instantiate(msg.clone(), Ok("admin".to_string())).unwrap();
    assert_eq!(c.admin, "admin");
    assert_eq!(c.fee_rate, 30);
    assert_eq!(c.min_transfer, 1_000);
    assert_eq!(bridge_attr(&r, "action"), "instantiate");
    let err = instantiate(msg, Err(StdFailure::Generic { msg: "bad address".to_string() }));
    assert!(matches!(err, Err(ContractError::Std(StdFailure::Generic { .. }))));
}

#[test]
fn initiate_transfer_charges_fee_and_records() {
    let out = execute_initiate_transfer(
        Ok(Some(true)),
        Ok(bridge_config()),
        Ok(Some(4)),
        Ok(Some(vec![2])),
        77,
        bridge_info("alice", vec![("uother", 5), ("uinit", 50_000)]),
        "init1dest".to_string(),
        "uinit".to_string(),
        50_000,
        "swarmfi-1".to_string(),
        "initiation-2".to_string(),
    )
    .unwrap();
    // 50_000 * 30 / 10_000 = 150
    assert_eq!(out.record.fee, 150);
    assert_eq!(out.transfer_count, 5);
    assert_eq!(out.record.id, 5);
    assert_eq!(out.record.status, TransferStatus::Pending);
    assert_eq!(out.record.created_at, 77);
    assert_eq!(out.record.completed_at, None);
    assert_eq!(out.sender_transfers, vec![2, 5]);
    assert_eq!(bridge_attr(&out.response, "fee"), "150");
    assert_eq!(bridge_attr(&out.response, "transfer_id"), "5");
}

#[test]
fn initiate_transfer_fee_rounds_down() {
    let out = execute_initiate_transfer(
        Ok(Some(true)),
        Ok(bridge_config()),
        Ok(None),
        Ok(None),
        1,
        bridge_info("bob", vec![("uinit", 1_333)]),
        "r".to_string(),
        "uinit".to_string(),
        1_333,
        "a".to_string(),
        "b".to_string(),
    )
    .unwrap();
    // 1_333 * 30 / 10_000 = 3.999 -> 3
    assert_eq!(out.record.fee, 3);
    assert_eq!(out.transfer_count, 1);
    assert_eq!(out.sender_transfers, vec![1]);
}

#[test]
fn initiate_transfer_errors() {
    let call = |allowed: Result<Option<bool>, StdFailure>, amount: u128, paid: u128| {
        execute_initiate_transfer(
            allowed,
            Ok(bridge_config()),
            Ok(None),
            Ok(None),
            1,
            bridge_info("alice", vec![("uinit", paid)]),
            "r".to_string(),
            "uinit".to_string(),
            amount,
            "a".to_string(),
            "b".to_string(),
        )
    };
    assert!(matches!(call(Ok(None), 5_000, 5_000), Err(ContractError::AssetNotAllowed { .. })));
    assert!(matches!(call(Ok(Some(false)), 5_000, 5_000), Err(ContractError::AssetNotAllowed { .. })));
    assert!(matches!(call(Ok(Some(true)), 999, 999), Err(ContractError::BelowMinimum {})));
    assert!(matches!(call(Ok(Some(true)), 5_000, 4_999), Err(ContractError::InsufficientFunds {})));
    assert!(matches!(
        call(Err(StdFailure::Generic { msg: "x".to_string() }), 5_000, 5_000),
        Err(ContractError::Std(_))
    ));
}

#[test]
fn complete_transfer_settles_once() {
    let (rec, r) = execute_complete_transfer(
        Ok(bridge_config()),
        Ok(bridge_record(3, "alice", TransferStatus::Pending)),
        900,
        bridge_info("admin", vec![]),
        3,
    )
    .unwrap();
    assert_eq!(rec.status, TransferStatus::Completed);
    assert_eq!(rec.completed_at, Some(900));
    assert_eq!(bridge_attr(&r, "status"), "completed");
    // Settling again is refused.
    let again = execute_complete_transfer(Ok(bridge_config()), Ok(rec.clone()), 901, bridge_info("admin", vec![]), 3);
    assert!(matches!(again, Err(ContractError::TransferAlreadySettled {})));
    let fail = execute_fail_transfer(Ok(bridge_config()), Ok(rec), 902, bridge_info("admin", vec![]), 3);
    assert!(matches!(fail, Err(ContractError::TransferAlreadySettled {})));
}

#[test]
fn complete_transfer_admin_only() {
    let res = execute_complete_transfer(
        Ok(bridge_config()),
        Ok(bridge_record(3, "alice", TransferStatus::Pending)),
        900,
        bridge_info("mallory", vec![]),
        3,
    );
    match res {
        Err(ContractError::Unauthorized { role }) => assert_eq!(role, "admin"),
        other => panic!("unexpected {:?}", other),
    }
    let missing = execute_complete_transfer(Ok(bridge_config()), Err(bridge_not_found()), 900, bridge_info("admin", vec![]), 3);
    assert!(matches!(missing, Err(ContractError::Std(StdFailure::NotFound { .. }))));
}

#[test]
fn fail_transfer_refunds_amount_and_fee() {
    let (rec, r) = execute_fail_transfer(
        Ok(bridge_config()),
        Ok(bridge_record(3, "alice", TransferStatus::Pending)),
        500,
        bridge_info("admin", vec![]),
        3,
    )
    .unwrap();
    assert_eq!(rec.status, TransferStatus::Failed);
    assert_eq!(rec.completed_at, Some(500));
    assert_eq!(r.messages.len(), 1);
    assert_eq!(r.messages[0].to_address, "alice");
    assert_eq!(r.messages[0].amount.len(), 1);
    assert_eq!(r.messages[0].amount[0].denom, "uinit");
    assert_eq!(r.messages[0].amount[0].amount, 50_150);
    assert_eq!(bridge_attr(&r, "refund"), "50150");
}

#[test]
fn update_config_replaces_given_fields() {
    let (c, _) = execute_update_config(
        Ok(bridge_config()),
        bridge_info("admin", vec![]),
        Some(Ok("newadmin".to_string())),
        None,
        Some(7),
    )
    .unwrap();
    assert_eq!(c.admin, "newadmin");
    assert_eq!(c.fee_rate, 30);
    assert_eq!(c.min_transfer, 7);
    let denied = execute_update_config(Ok(bridge_config()), bridge_info("x", vec![]), None, Some(1), None);
    assert!(matches!(denied, Err(ContractError::Unauthorized { .. })));
}

#[test]
fn set_allowed_asset_entry() {
    let (entry, r) = execute_set_allowed_asset(Ok(bridge_config()), bridge_info("admin", vec![]), "uinit".to_string(), true).unwrap();
    assert_eq!(entry, Some(true));
    assert_eq!(bridge_attr(&r, "allowed"), "true");
    let (entry, _) = execute_set_allowed_asset(Ok(bridge_config()), bridge_info("admin", vec![]), "uinit".to_string(), false).unwrap();
    assert_eq!(entry, None);
}

#[test]
fn query_transfer_shows_status_name() {
    let out = query_transfer(Ok(bridge_record(9, "alice", TransferStatus::Failed))).unwrap();
    assert_eq!(out.id, 9);
    assert_eq!(out.status, "failed");
    assert_eq!(out.amount, 50_000);
    assert!(query_transfer(Err(bridge_not_found())).is_err());
}

#[test]
fn list_transfers_filters_and_limits() {
    let entries = vec![
        (6, Some(bridge_record(6, "carol", TransferStatus::Pending))),
        (5, Some(bridge_record(5, "alice", TransferStatus::Pending))),
        (4, Some(bridge_record(4, "bob", TransferStatus::Pending))),
        (3, None),
        (2, Some(bridge_record(3, "alice", TransferStatus::Completed))),
        (1, Some(bridge_record(2, "alice", TransferStatus::Pending))),
    ];
    let by_alice = query_list_transfers(entries.clone(), None, Some("alice".to_string()), None, None);
    let ids: Vec<u64> = by_alice.transfers.iter().map(|t| t.id).collect();
    assert_eq!(ids, vec![5, 3, 2]);
    let pending = query_list_transfers(entries.clone(), Some(1), None, Some("pending".to_string()), Some(2));
    let ids: Vec<u64> = pending.transfers.iter().map(|t| t.id).collect();
    // Of the ids from 1 on, twice the limit (4 entries) is read, then cut to the limit.
    assert_eq!(ids, vec![6, 5]);
    let one = query_list_transfers(entries.clone(), Some(4), Some("alice".to_string()), Some("pending".to_string()), Some(1));
    // Ids 6, 5 and 4 are at least 4; twice the limit reads 6 and 5.
    let ids: Vec<u64> = one.transfers.iter().map(|t| t.id).collect();
    assert_eq!(ids, vec![5]);
    let from_five = query_list_transfers(entries, Some(5), None, None, None);
    // The starting id itself is listed.
    let ids: Vec<u64> = from_five.transfers.iter().map(|t| t.id).collect();
    assert_eq!(ids, vec![6, 5]);
}

#[test]
fn config_query_lists_allowed_assets() {
    let out = query_config(
        Ok(bridge_config()),
        Ok(Some(12)),
        vec![("uatom".to_string(), true), ("ueth".to_string(), false), ("uinit".to_string(), true)],
    )
    .unwrap();
    assert_eq!(out.allowed_assets, vec!["uatom".to_string(), "uinit".to_string()]);
    assert_eq!(out.transfer_count, 12);
    let none = query_config(Ok(bridge_config()), Ok(None), vec![]).unwrap();
    assert_eq!(none.transfer_count, 0);
}
