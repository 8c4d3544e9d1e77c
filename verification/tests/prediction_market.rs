use swarmfi::common::{AttrValue, Coin, MessageInfo, Response, StdFailure};
use swarmfi::prediction_market::amm::swap_in;
use swarmfi::prediction_market::contract::{
    execute_buy_outcome, execute_cancel_market, execute_create_market, execute_resolve_market,
    execute_sell_outcome, execute_update_config, instantiate, join_outcomes,
};
use swarmfi::prediction_market::error::ContractError;
use swarmfi::prediction_market::liquidity::{execute_add_liquidity, execute_remove_liquidity};
use swarmfi::prediction_market::msg::InstantiateMsg;
use swarmfi::prediction_market::query::{
    query_list_markets, query_market, query_market_orders, query_position, query_user_positions,
};
use swarmfi::prediction_market::state::{
    Config, Market, MarketStatus, Order, OrderSide, OutcomePool, Position,
};

fn pm_info(sender: &str, funds: Vec<(&str, u128)>) -> MessageInfo {
    MessageInfo {
        sender: sender.to_string(),
        funds: funds
            .into_iter()
            .map(|(d, a)| Coin { denom: d.to_string(), amount: a })
            .collect(),
    }
}

fn pm_config() -> Config {
    Config { admin: "admin".to_string(), fee_rate_bps: 200, min_liquidity: 1_000, max_markets: 10 }
}

fn pm_market(id: u64, status: MarketStatus) -> Market {
    Market {
        id,
        creator: "creator".to_string(),
        question: "Will it rain?".to_string(),
        description: "".to_string(),
        outcomes: vec!["Yes".to_string(), "No".to_string()],
        end_time: 1_000,
        resolution_source: None,
        total_volume: 0,
        liquidity: 3_000,
        status,
        winning_outcome: None,
        resolved_at: None,
    }
}

fn pm_attr(r: &Response, key: &str) -> String {
    let a = r.attributes.iter().find(|a| a.key == key).expect("attribute");
    match &a.value {
        AttrValue::Text(s) => s.clone(),
        AttrValue::Number(n) => n.to_string(),
        AttrValue::Flag(b) => b.to_string(),
    }
}

fn pm_position(owner: &str, outcome: &str, amount: u128, avg_price: u128) -> Position {
    Position { owner: owner.to_string(), market_id: 1, outcome: outcome.to_string(), amount, avg_price }
}

fn pm_strings(v: &[&str]) -> Vec<String> {
    v.iter().map(|s| s.to_string()).collect()
}

#[test]
fn pm_instantiate_stores_config() {
    let msg = InstantiateMsg { admin: "admin".to_string(), fee_rate_bps: 200, min_liquidity: 1_000, max_markets: 10 };
    let (c, r) = instantiate(msg, Ok("admin".to_string())).unwrap();
    assert_eq!(c.fee_rate_bps, 200);
    assert_eq!(c.max_markets, 10);
    assert_eq!(pm_attr(&r, "action"), "instantiate");
}

#[test]
fn swap_in_constant_product() {
    let (p, out) = swap_in(OutcomePool { token_reserve: 100, native_reserve: 100_000 }, 10);
    // k = 10_000_000; 10_000_000 / 110 = 90_909
    assert_eq!(p, OutcomePool { token_reserve: 110, native_reserve: 90_909 });
    assert_eq!(out, 9_091);
    assert!(p.token_reserve * p.native_reserve <= 100 * 100_000);
    assert!(100 * 100_000 < p.token_reserve * p.native_reserve + p.token_reserve);
}

#[test]
fn outcomes_are_joined_with_commas() {
    assert_eq!(join_outcomes(&pm_strings(&["Yes", "No", "Maybe"])), "Yes,No,Maybe");
    assert_eq!(join_outcomes(&pm_strings(&["Only"])), "Only");
}

#[test]
fn create_market_splits_liquidity() {
    let out = execute_create_market(
        Ok(pm_config()),
        Ok(Some(2)),
        vec![MarketStatus::Active, MarketStatus::Resolved],
        100,
        pm_info("creator", vec![("uinit", 3_001)]),
        "Q".to_string(),
        "D".to_string(),
        pm_strings(&["Yes", "No"]),
        200,
        None,
    )
    .unwrap();
    assert_eq!(out.market_count, 3);
    assert_eq!(out.market.id, 3);
    assert_eq!(out.market.liquidity, 3_001);
    assert_eq!(out.market.status, MarketStatus::Active);
    assert_eq!(out.creator_shares, 3_001);
    assert_eq!(out.pools.len(), 2);
    assert_eq!(out.pools[0].0, "Yes");
    assert_eq!(out.pools[1].0, "No");
    assert_eq!(out.pools[0].1, OutcomePool { token_reserve: 1_500, native_reserve: 1_500 });
    assert_eq!(pm_attr(&out.response, "outcomes"), "Yes,No");
}

#[test]
fn create_market_errors() {
    let call = |count: u64, outcomes: Vec<String>, end: u64, paid: u128| {
        execute_create_market(
            Ok(pm_config()),
            Ok(Some(count)),
            vec![MarketStatus::Active; count as usize],
            100,
            pm_info("creator", vec![("uinit", paid)]),
            "Q".to_string(),
            "D".to_string(),
            outcomes,
            end,
            None,
        )
    };
    assert!(matches!(call(0, pm_strings(&["Yes"]), 200, 5_000), Err(ContractError::TooFewOutcomes {})));
    assert!(matches!(call(0, pm_strings(&["Yes", "No"]), 100, 5_000), Err(ContractError::InvalidEndTime {})));
    assert!(matches!(call(10, pm_strings(&["Yes", "No"]), 200, 5_000), Err(ContractError::MaxMarketsReached {})));
    assert!(matches!(call(0, pm_strings(&["Yes", "No"]), 200, 999), Err(ContractError::InsufficientFunds {})));
}

#[test]
fn buy_outcome_prices_with_fee() {
    let trade = execute_buy_outcome(
        Ok(pm_market(1, MarketStatus::Active)),
        Ok(pm_config()),
        Ok(OutcomePool { token_reserve: 100, native_reserve: 100_000 }),
        Ok(None),
        Ok(Some(6)),
        50,
        pm_info("alice", vec![("uinit", 10_000)]),
        1,
        "Yes".to_string(),
        10,
        Some(1_000),
    )
    .unwrap();
    // raw 9_091, fee 9_091 * 200 / 10_000 = 181, total 9_272, price 927
    assert_eq!(trade.pool, OutcomePool { token_reserve: 110, native_reserve: 90_909 });
    assert_eq!(trade.position.amount, 10);
    assert_eq!(trade.position.avg_price, 927);
    assert_eq!(trade.market.total_volume, 9_272);
    assert_eq!(trade.order_count, 7);
    assert_eq!(trade.order.id, 7);
    assert_eq!(trade.order.side, OrderSide::Buy);
    assert_eq!(trade.order.price, 927);
    assert_eq!(trade.order.created_at, 50);
    assert_eq!(pm_attr(&trade.response, "fee"), "181");
    assert_eq!(pm_attr(&trade.response, "price"), "927");
}

#[test]
fn buy_outcome_averages_the_price() {
    let trade = execute_buy_outcome(
        Ok(pm_market(1, MarketStatus::Active)),
        Ok(pm_config()),
        Ok(OutcomePool { token_reserve: 100, native_reserve: 100_000 }),
        Ok(Some(pm_position("alice", "Yes", 10, 500))),
        Ok(None),
        50,
        pm_info("alice", vec![("uinit", 10_000)]),
        1,
        "Yes".to_string(),
        10,
        None,
    )
    .unwrap();
    // (10 * 500 + 10 * 927) / 20 = 713
    assert_eq!(trade.position.amount, 20);
    assert_eq!(trade.position.avg_price, 713);
    assert_eq!(trade.order_count, 1);
}

#[test]
fn buy_outcome_errors() {
    let call = |market: Market, outcome: &str, amount: u128, max: Option<u128>, paid: u128| {
        execute_buy_outcome(
            Ok(market),
            Ok(pm_config()),
            Ok(OutcomePool { token_reserve: 100, native_reserve: 100_000 }),
            Ok(None),
            Ok(None),
            50,
            pm_info("alice", vec![("uinit", paid)]),
            1,
            outcome.to_string(),
            amount,
            max,
        )
    };
    assert!(matches!(call(pm_market(1, MarketStatus::Active), "Yes", 0, None, 10_000), Err(ContractError::ZeroAmount {})));
    assert!(matches!(call(pm_market(1, MarketStatus::Resolved), "Yes", 10, None, 10_000), Err(ContractError::MarketNotActive {})));
    assert!(matches!(call(pm_market(1, MarketStatus::Active), "Maybe", 10, None, 10_000), Err(ContractError::InvalidOutcome { .. })));
    match call(pm_market(1, MarketStatus::Active), "Yes", 10, Some(900), 10_000) {
        Err(ContractError::SlippageExceeded { actual }) => assert_eq!(actual, 927),
        other => panic!("unexpected {:?}", other),
    }
    assert!(matches!(call(pm_market(1, MarketStatus::Active), "Yes", 10, None, 9_271), Err(ContractError::InsufficientFunds {})));
}

#[test]
fn sell_outcome_pays_out_less_fee() {
    let trade = execute_sell_outcome(
        Ok(pm_market(1, MarketStatus::Active)),
        Ok(pm_config()),
        Ok(OutcomePool { token_reserve: 110, native_reserve: 90_909 }),
        Ok(pm_position("alice", "Yes", 10, 927)),
        Ok(Some(7)),
        60,
        pm_info("alice", vec![]),
        1,
        "Yes".to_string(),
        10,
        Some(700),
    )
    .unwrap();
    // k = 9_999_990; / 120 = 83_333; raw 7_576; fee 151; payout 7_425; price 742
    assert_eq!(trade.pool, OutcomePool { token_reserve: 120, native_reserve: 83_333 });
    assert_eq!(trade.position.amount, 0);
    assert_eq!(trade.position.avg_price, 927);
    assert_eq!(trade.market.total_volume, 7_576);
    assert_eq!(trade.order.side, OrderSide::Sell);
    assert_eq!(trade.order.price, 742);
    assert_eq!(trade.response.messages.len(), 1);
    assert_eq!(trade.response.messages[0].to_address, "alice");
    assert_eq!(trade.response.messages[0].amount[0].denom, "uinit");
    assert_eq!(trade.response.messages[0].amount[0].amount, 7_425);
    assert_eq!(pm_attr(&trade.response, "payout"), "7425");
    assert_eq!(pm_attr(&trade.response, "fee"), "151");
}

#[test]
fn sell_outcome_errors() {
    let call = |position: Result<Position, StdFailure>, amount: u128, min: Option<u128>| {
        execute_sell_outcome(
            Ok(pm_market(1, MarketStatus::Active)),
            Ok(pm_config()),
            Ok(OutcomePool { token_reserve: 110, native_reserve: 90_909 }),
            position,
            Ok(None),
            60,
            pm_info("alice", vec![]),
            1,
            "Yes".to_string(),
            amount,
            min,
        )
    };
    assert!(matches!(call(Ok(pm_position("alice", "Yes", 10, 1)), 0, None), Err(ContractError::ZeroAmount {})));
    assert!(matches!(call(Ok(pm_position("alice", "Yes", 9, 1)), 10, None), Err(ContractError::InsufficientPosition {})));
    assert!(matches!(
        call(Err(StdFailure::NotFound { kind: "Position".to_string() }), 10, None),
        Err(ContractError::InsufficientPosition {})
    ));
    match call(Ok(pm_position("alice", "Yes", 10, 1)), 10, Some(743)) {
        Err(ContractError::SlippageExceeded { actual }) => assert_eq!(actual, 742),
        other => panic!("unexpected {:?}", other),
    }
}

#[test]
fn resolve_market_after_end() {
    let (m, r) = execute_resolve_market(
        Ok(pm_config()),
        Ok(pm_market(1, MarketStatus::Active)),
        1_000,
        pm_info("admin", vec![]),
        1,
        "No".to_string(),
    )
    .unwrap();
    assert_eq!(m.status, MarketStatus::Resolved);
    assert_eq!(m.winning_outcome, Some("No".to_string()));
    assert_eq!(m.resolved_at, Some(1_000));
    assert_eq!(pm_attr(&r, "winning_outcome"), "No");
    let early = execute_resolve_market(Ok(pm_config()), Ok(pm_market(1, MarketStatus::Active)), 999, pm_info("admin", vec![]), 1, "No".to_string());
    assert!(matches!(early, Err(ContractError::MarketEnded {})));
    let twice = execute_resolve_market(Ok(pm_config()), Ok(m), 2_000, pm_info("admin", vec![]), 1, "No".to_string());
    assert!(matches!(twice, Err(ContractError::MarketAlreadyResolved {})));
    let bad = execute_resolve_market(Ok(pm_config()), Ok(pm_market(1, MarketStatus::Active)), 1_000, pm_info("admin", vec![]), 1, "Maybe".to_string());
    assert!(matches!(bad, Err(ContractError::InvalidOutcome { .. })));
    let denied = execute_resolve_market(Ok(pm_config()), Ok(pm_market(1, MarketStatus::Active)), 1_000, pm_info("x", vec![]), 1, "No".to_string());
    assert!(matches!(denied, Err(ContractError::Unauthorized { .. })));
}

#[test]
fn cancel_market_refunds_every_provider() {
    let providers = vec![
        Ok(("alice".to_string(), 500)),
        Ok(("bob".to_string(), 0)),
        Ok(("creator".to_string(), 3_000)),
    ];
    let (m, r) = execute_cancel_market(
        Ok(pm_config()),
        Ok(pm_market(1, MarketStatus::Active)),
        providers,
        pm_info("creator", vec![]),
        1,
    )
    .unwrap();
    assert_eq!(m.status, MarketStatus::Cancelled);
    assert_eq!(r.messages.len(), 2);
    assert_eq!(r.messages[0].to_address, "alice");
    assert_eq!(r.messages[0].amount[0].amount, 500);
    assert_eq!(r.messages[0].amount[0].denom, "uinit");
    assert_eq!(r.messages[1].to_address, "creator");
    assert_eq!(r.messages[1].amount[0].amount, 3_000);
    let (_, r) = execute_cancel_market(Ok(pm_config()), Ok(pm_market(1, MarketStatus::Active)), vec![], pm_info("admin", vec![]), 1).unwrap();
    assert!(r.messages.is_empty());
    let broken = execute_cancel_market(
        Ok(pm_config()),
        Ok(pm_market(1, MarketStatus::Active)),
        vec![Ok(("alice".to_string(), 5)), Err(StdFailure::Generic { msg: "corrupt".to_string() })],
        pm_info("admin", vec![]),
        1,
    );
    assert!(matches!(broken, Err(ContractError::Std(StdFailure::Generic { .. }))));
    match execute_cancel_market(Ok(pm_config()), Ok(pm_market(1, MarketStatus::Active)), vec![], pm_info("x", vec![]), 1) {
        Err(ContractError::Unauthorized { role }) => assert_eq!(role, "creator/admin"),
        other => panic!("unexpected {:?}", other),
    }
    let again = execute_cancel_market(Ok(pm_config()), Ok(m), vec![], pm_info("admin", vec![]), 1);
    assert!(matches!(again, Err(ContractError::MarketAlreadyCancelled {})));
}

#[test]
fn market_cap_counts_active_markets_only() {
    let create = |statuses: Vec<MarketStatus>, count: u64| {
        execute_create_market(
            Ok(pm_config()),
            Ok(Some(count)),
            statuses,
            100,
            pm_info("creator", vec![("uinit", 5_000)]),
            "Q".to_string(),
            "D".to_string(),
            pm_strings(&["Yes", "No"]),
            200,
            None,
        )
    };
    // Twelve markets were created, but only three are still active.
    let mut statuses = vec![MarketStatus::Resolved; 9];
    statuses.extend(vec![MarketStatus::Active; 3]);
    let out = create(statuses, 12).unwrap();
    assert_eq!(out.market.id, 13);
    let mut statuses = vec![MarketStatus::Cancelled; 2];
    statuses.extend(vec![MarketStatus::Active; 10]);
    assert!(matches!(create(statuses, 12), Err(ContractError::MaxMarketsReached {})));
}

#[test]
fn pm_update_config_fields() {
    let (c, _) = execute_update_config(Ok(pm_config()), pm_info("admin", vec![]), None, Some(50), None, Some(3)).unwrap();
    assert_eq!(c.fee_rate_bps, 50);
    assert_eq!(c.min_liquidity, 1_000);
    assert_eq!(c.max_markets, 3);
}

#[test]
fn add_liquidity_splits_across_pools() {
    let pool = OutcomePool { token_reserve: 1_500, native_reserve: 1_500 };
    let out = execute_add_liquidity(
        Ok(pm_market(1, MarketStatus::Active)),
        vec![Ok(pool), Ok(pool)],
        Ok(Some(100)),
        pm_info("lp", vec![("uinit", 5), ("uinit", 1_001)]),
        1,
        Coin { denom: "uinit".to_string(), amount: 1_000 },
    )
    .unwrap();
    // The first covering coin (1_001) is added in full: 500 per outcome.
    assert_eq!(out.lp_shares, 1_101);
    assert_eq!(out.market.liquidity, 4_001);
    assert_eq!(out.pools.len(), 2);
    assert_eq!(out.pools[0].1, OutcomePool { token_reserve: 2_000, native_reserve: 2_000 });
    assert_eq!(out.pools[1].0, "No");
    assert_eq!(pm_attr(&out.response, "amount"), "1001");
}

#[test]
fn add_liquidity_errors() {
    let pool = OutcomePool { token_reserve: 1, native_reserve: 1 };
    let call = |coin: Coin, paid: u128| {
        execute_add_liquidity(
            Ok(pm_market(1, MarketStatus::Active)),
            vec![Ok(pool), Ok(pool)],
            Ok(None),
            pm_info("lp", vec![("uinit", paid)]),
            1,
            coin,
        )
    };
    assert!(matches!(call(Coin { denom: "uatom".to_string(), amount: 5 }, 5), Err(ContractError::InsufficientFunds {})));
    assert!(matches!(call(Coin { denom: "uinit".to_string(), amount: 0 }, 5), Err(ContractError::ZeroAmount {})));
    assert!(matches!(call(Coin { denom: "uinit".to_string(), amount: 6 }, 5), Err(ContractError::InsufficientFunds {})));
}

#[test]
fn remove_liquidity_withdraws_share() {
    let pool = OutcomePool { token_reserve: 1_500, native_reserve: 100 };
    let out = execute_remove_liquidity(
        Ok(pm_market(1, MarketStatus::Active)),
        Ok(Some(3_000)),
        vec![Ok(pool), Ok(pool)],
        pm_info("creator", vec![]),
        1,
        2_500,
    )
    .unwrap();
    // 3_000 * 2_500 / 10_000 = 750, 375 per outcome (native saturates at 0)
    assert_eq!(out.lp_shares, 2_250);
    assert_eq!(out.market.liquidity, 2_250);
    assert_eq!(out.pools[0].1, OutcomePool { token_reserve: 1_125, native_reserve: 0 });
    assert_eq!(out.response.messages[0].amount[0].amount, 750);
    assert_eq!(pm_attr(&out.response, "withdrawn"), "750");
    let none = execute_remove_liquidity(Ok(pm_market(1, MarketStatus::Active)), Ok(None), vec![Ok(pool), Ok(pool)], pm_info("x", vec![]), 1, 100);
    assert!(matches!(none, Err(ContractError::InsufficientPosition {})));
    let zero = execute_remove_liquidity(Ok(pm_market(1, MarketStatus::Active)), Ok(Some(1)), vec![Ok(pool), Ok(pool)], pm_info("x", vec![]), 1, 10_001);
    assert!(matches!(zero, Err(ContractError::ZeroAmount {})));
}

#[test]
fn pm_queries_show_names() {
    let m = query_market(Ok(pm_market(4, MarketStatus::Cancelled))).unwrap();
    assert_eq!(m.id, 4);
    assert_eq!(m.status, "cancelled");
    let p = query_position(Ok(pm_position("alice", "Yes", 3, 9))).unwrap();
    assert_eq!(p.amount, 3);
    assert_eq!(p.avg_price, 9);
    let stored = vec![
        (1, Some(pm_market(1, MarketStatus::Active))),
        (2, None),
        (3, Some(pm_market(3, MarketStatus::Active))),
        (4, Some(pm_market(4, MarketStatus::Active))),
    ];
    let list = query_list_markets(stored.clone(), None, Some(1));
    assert_eq!(list.markets.len(), 1);
    assert_eq!(list.markets[0].id, 1);
    let list = query_list_markets(stored.clone(), Some(1), Some(2));
    // Ids 2 and 3 are read; 2 could not be.
    let ids: Vec<u64> = list.markets.iter().map(|m| m.id).collect();
    assert_eq!(ids, vec![3]);
    let list = query_list_markets(stored, Some(2), None);
    let ids: Vec<u64> = list.markets.iter().map(|m| m.id).collect();
    assert_eq!(ids, vec![3, 4]);
    let order = Order {
        id: 2,
        market_id: 1,
        owner: "alice".to_string(),
        outcome: "Yes".to_string(),
        side: OrderSide::Sell,
        amount: 5,
        price: 7,
        filled: 5,
        created_at: 3,
    };
    let orders = query_market_orders(vec![Some(order), None]);
    assert_eq!(orders.orders.len(), 1);
    assert_eq!(orders.orders[0].side, "sell");
}

#[test]
fn user_positions_skip_empty() {
    let markets = vec![
        (1, Some(vec![Some(pm_position("alice", "Yes", 0, 1)), Some(pm_position("alice", "No", 4, 2))])),
        (2, None),
        (3, Some(vec![None, Some(pm_position("alice", "No", 6, 3))])),
    ];
    let out = query_user_positions(markets.clone(), None, None);
    let amounts: Vec<u128> = out.positions.iter().map(|p| p.amount).collect();
    assert_eq!(amounts, vec![4, 6]);
    let limited = query_user_positions(markets.clone(), None, Some(1));
    assert_eq!(limited.positions.len(), 1);
    let after_first = query_user_positions(markets, Some(1), None);
    let rest: Vec<u128> = after_first.positions.iter().map(|p| p.amount).collect();
    assert_eq!(rest, vec![6]);
}

#[test]
fn round_trip_never_gains() {
    let start = OutcomePool { token_reserve: 100, native_reserve: 100_000 };
    let bought = execute_buy_outcome(
        Ok(pm_market(1, MarketStatus::Active)),
        Ok(pm_config()),
        Ok(start),
        Ok(None),
        Ok(None),
        1,
        pm_info("alice", vec![("uinit", 1_000_000)]),
        1,
        "Yes".to_string(),
        25,
        None,
    )
    .unwrap();
    let cost = bought.market.total_volume;
    let sold = execute_sell_outcome(
        Ok(bought.market.clone()),
        Ok(pm_config()),
        Ok(bought.pool),
        Ok(bought.position.clone()),
        Ok(Some(bought.order_count)),
        2,
        pm_info("alice", vec![]),
        1,
        "Yes".to_string(),
        25,
        None,
    )
    .unwrap();
    let payout = sold.response.messages[0].amount[0].amount;
    assert!(payout <= cost);
    assert_eq!(sold.position.amount, 0);
}

#[test]
fn storage_failures_pass_through() {
    let missing = execute_buy_outcome(
        Err(StdFailure::NotFound { kind: "Market".to_string() }),
        Ok(pm_config()),
        Ok(OutcomePool { token_reserve: 1, native_reserve: 1 }),
        Ok(None),
        Ok(None),
        1,
        pm_info("alice", vec![]),
        9,
        "Yes".to_string(),
        1,
        None,
    );
    match missing {
        Err(ContractError::Std(StdFailure::NotFound { kind })) => assert_eq!(kind, "Market"),
        other => panic!("unexpected {:?}", other),
    }
    assert!(query_market(Err(StdFailure::Generic { msg: "corrupt".to_string() })).is_err());
}
