//! Handlers of the prediction market. Each takes the stored values it
//! reads, as the storage layer returned them, and gives back what is to be
//! stored and the response; nothing is stored when it returns an error.

use crate::common::{
    amount_of, find_amount, multiply_ratio, num_attr, number, ratio, same_text, text, text_attr,
    text_owned, BankSend, BankSendView, Coin, CoinView, MessageInfo, Response, StdFailure,
};
use crate::prediction_market::amm::{
    bps_fee, native_after, native_out, pool_after, pool_product, swap_defined, swap_in,
};
use crate::prediction_market::error::ContractError;
use crate::prediction_market::msg::InstantiateMsg;
use crate::prediction_market::state::{
    Config, Market, MarketStatus, Order, OrderSide, OutcomePool, Position,
};
use vstd::prelude::*;
use vstd::string::StringExecFns;

verus! {

/// The native denomination that funds markets and trades.
pub open spec fn native_denom() -> Seq<char> {
    "uinit"@
}

pub fn native_denom_string() -> (s: String)
    ensures
        s@ == native_denom(),
{
    "uinit".to_owned()
}

/// `outcomes` holds an outcome named `o`.
pub open spec fn has_outcome(outcomes: Seq<String>, o: Seq<char>) -> bool {
    exists|i: int| 0 <= i < outcomes.len() && (#[trigger] outcomes[i])@ == o
}

pub fn contains_outcome(outcomes: &Vec<String>, o: &String) -> (r: bool)
    ensures
        r == has_outcome(outcomes@, o@),
{
    let mut i: usize = 0;
    while i < outcomes.len()
        invariant
            i <= outcomes.len(),
            forall|j: int| 0 <= j < i ==> (#[trigger] outcomes@[j])@ != o@,
        decreases outcomes.len() - i,
    {
        if outcomes[i] == *o {
            return true;
        }
        i = i + 1;
    }
    false
}

// ── Instantiate ───────────────────────────────────────────────────

/// `admin` is the validation of `msg.admin` as an address.
pub fn instantiate(msg: InstantiateMsg, admin: Result<String, StdFailure>) -> (res: Result<
    (Config, Response),
    ContractError,
>)
    ensures
        match admin {
            Err(e) => res == Err::<(Config, Response), ContractError>(ContractError::Std(e)),
            Ok(a) => res matches Ok((c, r)) && c == (Config {
                admin: a,
                fee_rate_bps: msg.fee_rate_bps,
                min_liquidity: msg.min_liquidity,
                max_markets: msg.max_markets,
            }) && r@.messages.len() == 0 && r@.attributes == seq![
                text_attr("action"@, "instantiate"@),
                text_attr("admin"@, a@),
            ],
        },
{
    let a = match admin {
        Err(e) => return Err(ContractError::Std(e)),
        Ok(a) => a,
    };
    let attributes = vec![text("action", "instantiate"), text_owned("admin", a.clone())];
    let response = Response { messages: Vec::new(), attributes };
    proof {
        assert(response@.attributes =~= seq![text_attr("action"@, "instantiate"@), text_attr("admin"@, a@)]);
    }
    let config = Config {
        admin: a,
        fee_rate_bps: msg.fee_rate_bps,
        min_liquidity: msg.min_liquidity,
        max_markets: msg.max_markets,
    };
    Ok((config, response))
}

// ── Create market ─────────────────────────────────────────────────

/// The outcome names joined with commas.
pub open spec fn joined(names: Seq<String>) -> Seq<char>
    decreases names.len(),
{
    if names.len() == 0 {
        Seq::empty()
    } else if names.len() == 1 {
        names[0]@
    } else {
        joined(names.drop_last()) + ","@ + names.last()@
    }
}

pub fn join_outcomes(names: &Vec<String>) -> (s: String)
    ensures
        s@ == joined(names@),
{
    let mut s = String::new();
    let mut i: usize = 0;
    while i < names.len()
        invariant
            i <= names.len(),
            s@ == joined(names@.take(i as int)),
        decreases names.len() - i,
    {
        assert(names@.take(i + 1).drop_last() =~= names@.take(i as int));
        if i > 0 {
            s.append(",");
        }
        s.append(names[i].as_str());
        proof {
            if i == 0 {
                assert(s@ =~= names@[0]@);
            }
        }
        i = i + 1;
    }
    assert(names@.take(names@.len() as int) =~= names@);
    s
}

/// What a new market stores: the new market count (its id), the market,
/// one pool per outcome (in the order of the outcomes, each funded with an
/// equal share of the liquidity) and the creator's LP shares.
#[derive(Clone, Debug)]
pub struct CreatedMarket {
    pub market_count: u64,
    pub market: Market,
    pub pools: Vec<(String, OutcomePool)>,
    pub creator_shares: u128,
    pub response: Response,
}

/// The number of active markets among `statuses`.
pub open spec fn active_count(statuses: Seq<MarketStatus>) -> int
    decreases statuses.len(),
{
    if statuses.len() == 0 {
        0
    } else {
        active_count(statuses.drop_last()) + if statuses.last() == MarketStatus::Active {
            1int
        } else {
            0
        }
    }
}

/// The checks of `execute_create_market` that come before the new id is taken all pass.
pub open spec fn create_checks_pass(
    config: Result<Config, StdFailure>,
    count: Result<Option<u64>, StdFailure>,
    statuses: Seq<MarketStatus>,
    now: u64,
    info: MessageInfo,
    outcomes: Seq<String>,
    end_time: u64,
) -> bool {
    &&& outcomes.len() >= 2
    &&& end_time > now
    &&& config matches Ok(c) && active_count(statuses) < c.max_markets
    &&& count is Ok
    &&& amount_of(info.funds@, native_denom()) >= config->Ok_0.min_liquidity
}

/// Create a market with at least two outcomes, ending after `now`, funded
/// with at least the minimum liquidity in the native denomination, while
/// fewer than the maximum number of markets are active. Reads the
/// configuration, the market count, then the status of each stored market
/// (`statuses`, those that could be read).
pub fn execute_create_market(
    config: Result<Config, StdFailure>,
    count: Result<Option<u64>, StdFailure>,
    statuses: Vec<MarketStatus>,
    now: u64,
    info: MessageInfo,
    question: String,
    description: String,
    outcomes: Vec<String>,
    end_time: u64,
    resolution_source: Option<String>,
) -> (res: Result<CreatedMarket, ContractError>)
    requires
        create_checks_pass(config, count, statuses@, now, info, outcomes@, end_time) ==> count->Ok_0.unwrap_or(0)
            < u64::MAX,
    ensures
        if outcomes@.len() < 2 {
            res matches Err(ContractError::TooFewOutcomes {  })
        } else if end_time <= now {
            res matches Err(ContractError::InvalidEndTime {  })
        } else {
            match config {
                Err(e) => res == Err::<CreatedMarket, ContractError>(ContractError::Std(e)),
                Ok(c) => match count {
                    Err(e) => res == Err::<CreatedMarket, ContractError>(ContractError::Std(e)),
                    Ok(n) => if active_count(statuses@) >= c.max_markets {
                        res matches Err(ContractError::MaxMarketsReached {  })
                    } else if amount_of(info.funds@, native_denom()) < c.min_liquidity {
                        res matches Err(ContractError::InsufficientFunds {  })
                    } else {
                        res matches Ok(out) && {
                            let id = (n.unwrap_or(0) + 1) as u64;
                            let payment = amount_of(info.funds@, native_denom());
                            let share = payment as int / outcomes@.len() as int;
                            &&& out.market_count == id
                            &&& out.market == (Market {
                                id,
                                creator: info.sender,
                                question,
                                description,
                                outcomes,
                                end_time,
                                resolution_source,
                                total_volume: 0,
                                liquidity: payment,
                                status: MarketStatus::Active,
                                winning_outcome: None,
                                resolved_at: None,
                            })
                            &&& out.pools@.len() == outcomes@.len()
                            &&& forall|i: int|
                                0 <= i < outcomes@.len() ==> (#[trigger] out.pools@[i]).0@ == outcomes@[i]@
                                    && out.pools@[i].1 == (OutcomePool {
                                    token_reserve: share as u128,
                                    native_reserve: share as u128,
                                })
                            &&& out.creator_shares == payment
                            &&& out.response@.messages.len() == 0
                            &&& out.response@.attributes == seq![
                                text_attr("action"@, "create_market"@),
                                num_attr("market_id"@, id as int),
                                text_attr("outcomes"@, joined(outcomes@)),
                            ]
                        }
                    },
                },
            }
        },
{
    if outcomes.len() < 2 {
        return Err(ContractError::TooFewOutcomes {  });
    }
    if end_time <= now {
        return Err(ContractError::InvalidEndTime {  });
    }
    let config = match config {
        Err(e) => return Err(ContractError::Std(e)),
        Ok(c) => c,
    };
    let current = match count {
        Err(e) => return Err(ContractError::Std(e)),
        Ok(Some(n)) => n,
        Ok(None) => 0,
    };
    let mut active: u64 = 0;
    let mut i: usize = 0;
    while i < statuses.len()
        invariant
            i <= statuses.len(),
            active == active_count(statuses@.take(i as int)),
            active <= i,
        decreases statuses.len() - i,
    {
        assert(statuses@.take(i + 1).drop_last() =~= statuses@.take(i as int));
        if statuses[i] == MarketStatus::Active {
            active = active + 1;
        }
        i = i + 1;
    }
    assert(statuses@.take(statuses@.len() as int) =~= statuses@);
    if active >= config.max_markets as u64 {
        return Err(ContractError::MaxMarketsReached {  });
    }
    let payment = find_amount(&info.funds, &native_denom_string());
    if payment < config.min_liquidity {
        return Err(ContractError::InsufficientFunds {  });
    }
    let market_id = current + 1;
    let per_outcome = payment / outcomes.len() as u128;
    let mut pools: Vec<(String, OutcomePool)> = Vec::new();
    let mut i: usize = 0;
    while i < outcomes.len()
        invariant
            i <= outcomes.len(),
            pools@.len() == i,
            forall|j: int|
                0 <= j < i ==> (#[trigger] pools@[j]).0@ == outcomes@[j]@ && pools@[j].1 == (
                OutcomePool { token_reserve: per_outcome, native_reserve: per_outcome }),
        decreases outcomes.len() - i,
    {
        pools.push((outcomes[i].clone(), OutcomePool { token_reserve: per_outcome, native_reserve: per_outcome }));
        i = i + 1;
    }
    let attributes = vec![
        text("action", "create_market"),
        number("market_id", market_id as u128),
        text_owned("outcomes", join_outcomes(&outcomes)),
    ];
    let response = Response { messages: Vec::new(), attributes };
    proof {
        assert(response@.attributes =~= seq![
            text_attr("action"@, "create_market"@),
            num_attr("market_id"@, market_id as int),
            text_attr("outcomes"@, joined(outcomes@)),
        ]);
    }
    let market = Market {
        id: market_id,
        creator: info.sender,
        question,
        description,
        outcomes,
        end_time,
        resolution_source,
        total_volume: 0,
        liquidity: payment,
        status: MarketStatus::Active,
        winning_outcome: None,
        resolved_at: None,
    };
    Ok(CreatedMarket { market_count: market_id, market, pools, creator_shares: payment, response })
}

// ── Trading ───────────────────────────────────────────────────────

/// What a trade stores: the outcome's pool, the trader's position, the
/// market (its volume grown), the order count and the order recorded.
#[derive(Clone, Debug)]
pub struct Trade {
    pub pool: OutcomePool,
    pub position: Position,
    pub market: Market,
    pub order_count: u64,
    pub order: Order,
    pub response: Response,
}

/// Native cost of buying `amount` tokens before the fee.
pub open spec fn buy_raw_cost(p: OutcomePool, amount: u128) -> int {
    native_out(p, amount)
}

/// Native cost of buying `amount` tokens, fee included.
pub open spec fn buy_total_cost(p: OutcomePool, amount: u128, fee_bps: u64) -> int {
    buy_raw_cost(p, amount) + bps_fee(buy_raw_cost(p, amount), fee_bps)
}

/// The price per token of a buy, rounded down.
pub open spec fn buy_price(p: OutcomePool, amount: u128, fee_bps: u64) -> int {
    buy_total_cost(p, amount, fee_bps) / amount as int
}

/// The position a trader holds before a trade: the stored one, or an
/// empty one of the trader in the outcome.
pub open spec fn held_position(
    stored: Option<Position>,
    owner: String,
    market_id: u64,
    outcome: String,
) -> Position {
    match stored {
        Some(p) => p,
        None => Position { owner, market_id, outcome, amount: 0, avg_price: 0 },
    }
}

/// The checks of a buy that come before its cost is computed all pass.
pub open spec fn buy_reaches_quote(
    market: Result<Market, StdFailure>,
    config: Result<Config, StdFailure>,
    pool: Result<OutcomePool, StdFailure>,
    outcome: String,
    amount: u128,
) -> bool {
    &&& amount > 0
    &&& market matches Ok(m) && m.status == MarketStatus::Active && has_outcome(m.outcomes@, outcome@)
    &&& config is Ok
    &&& pool is Ok
}

/// The checks of a buy that come before the position is updated all pass.
pub open spec fn buy_reaches_position(
    market: Result<Market, StdFailure>,
    config: Result<Config, StdFailure>,
    pool: Result<OutcomePool, StdFailure>,
    position: Result<Option<Position>, StdFailure>,
    info: MessageInfo,
    outcome: String,
    amount: u128,
    max_price: Option<u128>,
) -> bool {
    let p = pool->Ok_0;
    let bps = config->Ok_0.fee_rate_bps;
    &&& buy_reaches_quote(market, config, pool, outcome, amount)
    &&& max_price matches Some(max) ==> buy_price(p, amount, bps) <= max
    &&& amount_of(info.funds@, native_denom()) >= buy_total_cost(p, amount, bps)
    &&& position is Ok
}

/// Buy `amount` tokens of `outcome` from its AMM pool, paying the cost plus
/// the fee in the native denomination, at a price per token no higher than
/// `max_price` where one is given. The position's average price becomes the
/// value-weighted average of the held and the bought tokens. Reads the
/// market, the configuration, the outcome's pool, the position and the
/// order count, in that order.
pub fn execute_buy_outcome(
    market: Result<Market, StdFailure>,
    config: Result<Config, StdFailure>,
    pool: Result<OutcomePool, StdFailure>,
    position: Result<Option<Position>, StdFailure>,
    order_count: Result<Option<u64>, StdFailure>,
    now: u64,
    info: MessageInfo,
    market_id: u64,
    outcome: String,
    amount: u128,
    max_price: Option<u128>,
) -> (res: Result<Trade, ContractError>)
    requires
        buy_reaches_quote(market, config, pool, outcome, amount) ==> {
            let p = pool->Ok_0;
            let bps = config->Ok_0.fee_rate_bps;
            &&& swap_defined(p, amount)
            &&& buy_total_cost(p, amount, bps) <= u128::MAX
        },
        buy_reaches_position(market, config, pool, position, info, outcome, amount, max_price) ==> {
            let p = pool->Ok_0;
            let bps = config->Ok_0.fee_rate_bps;
            let held = held_position(position->Ok_0, info.sender, market_id, outcome);
            &&& held.amount * held.avg_price + amount * buy_price(p, amount, bps) <= u128::MAX
            &&& held.amount + amount <= u128::MAX
            &&& market->Ok_0.total_volume + buy_total_cost(p, amount, bps) <= u128::MAX
            &&& order_count matches Ok(n) ==> n.unwrap_or(0) < u64::MAX
        },
    ensures
        if amount == 0 {
            res matches Err(ContractError::ZeroAmount {  })
        } else {
            match market {
                Err(e) => res == Err::<Trade, ContractError>(ContractError::Std(e)),
                Ok(m) => if m.status != MarketStatus::Active {
                    res matches Err(ContractError::MarketNotActive {  })
                } else if !has_outcome(m.outcomes@, outcome@) {
                    res matches Err(ContractError::InvalidOutcome { outcome: o }) && o == outcome
                } else {
                    match config {
                        Err(e) => res == Err::<Trade, ContractError>(ContractError::Std(e)),
                        Ok(c) => match pool {
                            Err(e) => res == Err::<Trade, ContractError>(ContractError::Std(e)),
                            Ok(p) => {
                                let total = buy_total_cost(p, amount, c.fee_rate_bps);
                                let price = buy_price(p, amount, c.fee_rate_bps);
                                if max_price matches Some(max) && price > max {
                                    res matches Err(ContractError::SlippageExceeded { actual }) && actual
                                        == price
                                } else if amount_of(info.funds@, native_denom()) < total {
                                    res matches Err(ContractError::InsufficientFunds {  })
                                } else {
                                    match position {
                                        Err(e) => res == Err::<Trade, ContractError>(ContractError::Std(e)),
                                        Ok(stored) => match order_count {
                                            Err(e) => res == Err::<Trade, ContractError>(ContractError::Std(e)),
                                            Ok(n) => res matches Ok(out) && {
                                                let held = held_position(stored, info.sender, market_id, outcome);
                                                let new_amount = held.amount + amount;
                                                let value = held.amount * held.avg_price + amount * price;
                                                let id = (n.unwrap_or(0) + 1) as u64;
                                                &&& out.pool == pool_after(p, amount)
                                                &&& pool_product(out.pool) <= pool_product(p) < pool_product(out.pool) + out.pool.token_reserve
                                                &&& out.pool.native_reserve <= p.native_reserve
                                                &&& out.position == (Position {
                                                    amount: new_amount as u128,
                                                    avg_price: (value / new_amount) as u128,
                                                    ..held
                                                })
                                                &&& out.market == (Market {
                                                    total_volume: (m.total_volume + total) as u128,
                                                    ..m
                                                })
                                                &&& out.order_count == id
                                                &&& out.order == (Order {
                                                    id,
                                                    market_id,
                                                    owner: info.sender,
                                                    outcome,
                                                    side: OrderSide::Buy,
                                                    amount,
                                                    price: price as u128,
                                                    filled: amount,
                                                    created_at: now,
                                                })
                                                &&& out.response@.messages.len() == 0
                                                &&& out.response@.attributes == seq![
                                                    text_attr("action"@, "buy_outcome"@),
                                                    num_attr("market_id"@, market_id as int),
                                                    text_attr("outcome"@, outcome@),
                                                    num_attr("amount"@, amount as int),
                                                    num_attr("price"@, price),
                                                    num_attr("fee"@, bps_fee(buy_raw_cost(p, amount), c.fee_rate_bps)),
                                                ]
                                            },
                                        },
                                    }
                                }
                            },
                        },
                    }
                },
            }
        },
{
    if amount == 0 {
        return Err(ContractError::ZeroAmount {  });
    }
    let mut market = match market {
        Err(e) => return Err(ContractError::Std(e)),
        Ok(m) => m,
    };
    if market.status != MarketStatus::Active {
        return Err(ContractError::MarketNotActive {  });
    }
    if !contains_outcome(&market.outcomes, &outcome) {
        return Err(ContractError::InvalidOutcome { outcome: outcome.clone() });
    }
    let config = match config {
        Err(e) => return Err(ContractError::Std(e)),
        Ok(c) => c,
    };
    let pool = match pool {
        Err(e) => return Err(ContractError::Std(e)),
        Ok(p) => p,
    };
    let (new_pool, raw_cost) = swap_in(pool, amount);
    proof {
        crate::prediction_market::amm::lemma_swap_keeps_product(pool, amount);
    }
    let fee = multiply_ratio(raw_cost, config.fee_rate_bps as u128, 10_000);
    let total_cost = raw_cost + fee;
    let price = multiply_ratio(total_cost, 1, amount);
    match max_price {
        Some(max) => {
            if price > max {
                return Err(ContractError::SlippageExceeded { actual: price });
            }
        },
        None => {},
    }
    let payment = find_amount(&info.funds, &native_denom_string());
    if payment < total_cost {
        return Err(ContractError::InsufficientFunds {  });
    }
    let mut position = match position {
        Err(e) => return Err(ContractError::Std(e)),
        Ok(Some(p)) => p,
        Ok(None) => Position {
            owner: info.sender.clone(),
            market_id,
            outcome: outcome.clone(),
            amount: 0,
            avg_price: 0,
        },
    };
    proof {
        let pa = position.amount as int;
        let pr = position.avg_price as int;
        assert(0 <= pa * pr) by (nonlinear_arith)
            requires
                0 <= pa,
                0 <= pr,
        ;
        assert(0 <= amount * price) by (nonlinear_arith)
            requires
                0 <= amount,
                0 <= price,
        ;
    }
    let held_value = multiply_ratio(position.amount, position.avg_price, 1);
    let bought_value = multiply_ratio(amount, price, 1);
    let total_value = held_value + bought_value;
    let new_amount = position.amount + amount;
    position.avg_price = total_value / new_amount;
    position.amount = new_amount;
    market.total_volume = market.total_volume + total_cost;
    let order_id = match order_count {
        Err(e) => return Err(ContractError::Std(e)),
        Ok(Some(n)) => n + 1,
        Ok(None) => 1,
    };
    let attributes = vec![
        text("action", "buy_outcome"),
        number("market_id", market_id as u128),
        text_owned("outcome", outcome.clone()),
        number("amount", amount),
        number("price", price),
        number("fee", fee),
    ];
    let response = Response { messages: Vec::new(), attributes };
    proof {
        assert(response@.attributes =~= seq![
            text_attr("action"@, "buy_outcome"@),
            num_attr("market_id"@, market_id as int),
            text_attr("outcome"@, outcome@),
            num_attr("amount"@, amount as int),
            num_attr("price"@, price as int),
            num_attr("fee"@, fee as int),
        ]);
    }
    let order = Order {
        id: order_id,
        market_id,
        owner: info.sender,
        outcome,
        side: OrderSide::Buy,
        amount,
        price,
        filled: amount,
        created_at: now,
    };
    Ok(Trade { pool: new_pool, position, market, order_count: order_id, order, response })
}

/// Native payout of selling `amount` tokens, fee deducted (not below zero).
pub open spec fn sell_payout(p: OutcomePool, amount: u128, fee_bps: u64) -> int {
    let raw = native_out(p, amount);
    let fee = bps_fee(raw, fee_bps);
    if raw >= fee {
        raw - fee
    } else {
        0
    }
}

/// The price per token of a sale, rounded down.
pub open spec fn sell_price(p: OutcomePool, amount: u128, fee_bps: u64) -> int {
    sell_payout(p, amount, fee_bps) / amount as int
}

/// The checks of a sale that come before its payout is computed all pass.
pub open spec fn sell_reaches_quote(
    market: Result<Market, StdFailure>,
    config: Result<Config, StdFailure>,
    pool: Result<OutcomePool, StdFailure>,
    position: Result<Position, StdFailure>,
    amount: u128,
) -> bool {
    &&& amount > 0
    &&& market matches Ok(m) && m.status == MarketStatus::Active
    &&& config is Ok
    &&& pool is Ok
    &&& position matches Ok(pos) && pos.amount >= amount
}

/// Sell `amount` held tokens of `outcome` back to its AMM pool, at a price
/// per token no lower than `min_price` where one is given. The payout, less
/// the fee, is sent to the seller in the native denomination. Reads the
/// market, the configuration, the outcome's pool, the position and the
/// order count, in that order; a position that cannot be read counts as none.
pub fn execute_sell_outcome(
    market: Result<Market, StdFailure>,
    config: Result<Config, StdFailure>,
    pool: Result<OutcomePool, StdFailure>,
    position: Result<Position, StdFailure>,
    order_count: Result<Option<u64>, StdFailure>,
    now: u64,
    info: MessageInfo,
    market_id: u64,
    outcome: String,
    amount: u128,
    min_price: Option<u128>,
) -> (res: Result<Trade, ContractError>)
    requires
        sell_reaches_quote(market, config, pool, position, amount) ==> {
            let p = pool->Ok_0;
            let bps = config->Ok_0.fee_rate_bps;
            &&& swap_defined(p, amount)
            &&& bps_fee(native_out(p, amount), bps) <= u128::MAX
            &&& (min_price matches Some(min) ==> sell_price(p, amount, bps) >= min) ==> {
                &&& market->Ok_0.total_volume + native_out(p, amount) <= u128::MAX
                &&& order_count matches Ok(n) ==> n.unwrap_or(0) < u64::MAX
            }
        },
    ensures
        if amount == 0 {
            res matches Err(ContractError::ZeroAmount {  })
        } else {
            match market {
                Err(e) => res == Err::<Trade, ContractError>(ContractError::Std(e)),
                Ok(m) => if m.status != MarketStatus::Active {
                    res matches Err(ContractError::MarketNotActive {  })
                } else {
                    match config {
                        Err(e) => res == Err::<Trade, ContractError>(ContractError::Std(e)),
                        Ok(c) => match pool {
                            Err(e) => res == Err::<Trade, ContractError>(ContractError::Std(e)),
                            Ok(p) => match position {
                                Err(_) => res matches Err(ContractError::InsufficientPosition {  }),
                                Ok(pos) => if pos.amount < amount {
                                    res matches Err(ContractError::InsufficientPosition {  })
                                } else {
                                    let raw = native_out(p, amount);
                                    let payout = sell_payout(p, amount, c.fee_rate_bps);
                                    let price = sell_price(p, amount, c.fee_rate_bps);
                                    if min_price matches Some(min) && price < min {
                                        res matches Err(ContractError::SlippageExceeded { actual })
                                            && actual == price
                                    } else {
                                        match order_count {
                                            Err(e) => res == Err::<Trade, ContractError>(ContractError::Std(e)),
                                            Ok(n) => res matches Ok(out) && {
                                                let id = (n.unwrap_or(0) + 1) as u64;
                                                &&& out.pool == pool_after(p, amount)
                                                &&& pool_product(out.pool) <= pool_product(p) < pool_product(out.pool) + out.pool.token_reserve
                                                &&& out.pool.native_reserve <= p.native_reserve
                                                &&& out.position == (Position {
                                                    amount: (pos.amount - amount) as u128,
                                                    ..pos
                                                })
                                                &&& out.market == (Market {
                                                    total_volume: (m.total_volume + raw) as u128,
                                                    ..m
                                                })
                                                &&& out.order_count == id
                                                &&& out.order == (Order {
                                                    id,
                                                    market_id,
                                                    owner: info.sender,
                                                    outcome,
                                                    side: OrderSide::Sell,
                                                    amount,
                                                    price: price as u128,
                                                    filled: amount,
                                                    created_at: now,
                                                })
                                                &&& out.response@.messages == seq![
                                                    BankSendView {
                                                        to_address: info.sender@,
                                                        amount: seq![CoinView { denom: native_denom(), amount: payout as u128 }],
                                                    },
                                                ]
                                                &&& out.response@.attributes == seq![
                                                    text_attr("action"@, "sell_outcome"@),
                                                    num_attr("market_id"@, market_id as int),
                                                    text_attr("outcome"@, outcome@),
                                                    num_attr("amount"@, amount as int),
                                                    num_attr("price"@, price),
                                                    num_attr("payout"@, payout),
                                                    num_attr("fee"@, bps_fee(raw, c.fee_rate_bps)),
                                                ]
                                            },
                                        }
                                    }
                                },
                            },
                        },
                    }
                },
            }
        },
{
    if amount == 0 {
        return Err(ContractError::ZeroAmount {  });
    }
    let mut market = match market {
        Err(e) => return Err(ContractError::Std(e)),
        Ok(m) => m,
    };
    if market.status != MarketStatus::Active {
        return Err(ContractError::MarketNotActive {  });
    }
    let config = match config {
        Err(e) => return Err(ContractError::Std(e)),
        Ok(c) => c,
    };
    let pool = match pool {
        Err(e) => return Err(ContractError::Std(e)),
        Ok(p) => p,
    };
    let mut position = match position {
        Err(_) => return Err(ContractError::InsufficientPosition {  }),
        Ok(p) => p,
    };
    if position.amount < amount {
        return Err(ContractError::InsufficientPosition {  });
    }
    let (new_pool, raw_payout) = swap_in(pool, amount);
    proof {
        crate::prediction_market::amm::lemma_swap_keeps_product(pool, amount);
    }
    let fee = multiply_ratio(raw_payout, config.fee_rate_bps as u128, 10_000);
    let net_payout = raw_payout.saturating_sub(fee);
    let price = multiply_ratio(net_payout, 1, amount);
    match min_price {
        Some(min) => {
            if price < min {
                return Err(ContractError::SlippageExceeded { actual: price });
            }
        },
        None => {},
    }
    position.amount = position.amount - amount;
    market.total_volume = market.total_volume + raw_payout;
    let order_id = match order_count {
        Err(e) => return Err(ContractError::Std(e)),
        Ok(Some(n)) => n + 1,
        Ok(None) => 1,
    };
    let payout_coin = Coin { denom: native_denom_string(), amount: net_payout };
    let send = BankSend { to_address: info.sender.clone(), amount: vec![payout_coin] };
    let attributes = vec![
        text("action", "sell_outcome"),
        number("market_id", market_id as u128),
        text_owned("outcome", outcome.clone()),
        number("amount", amount),
        number("price", price),
        number("payout", net_payout),
        number("fee", fee),
    ];
    let response = Response { messages: vec![send], attributes };
    proof {
        assert(response@.messages[0].amount =~= seq![CoinView { denom: native_denom(), amount: net_payout }]);
        assert(response@.messages =~= seq![
            BankSendView {
                to_address: info.sender@,
                amount: seq![CoinView { denom: native_denom(), amount: net_payout }],
            },
        ]);
        assert(response@.attributes =~= seq![
            text_attr("action"@, "sell_outcome"@),
            num_attr("market_id"@, market_id as int),
            text_attr("outcome"@, outcome@),
            num_attr("amount"@, amount as int),
            num_attr("price"@, price as int),
            num_attr("payout"@, net_payout as int),
            num_attr("fee"@, fee as int),
        ]);
    }
    let order = Order {
        id: order_id,
        market_id,
        owner: info.sender,
        outcome,
        side: OrderSide::Sell,
        amount,
        price,
        filled: amount,
        created_at: now,
    };
    Ok(Trade { pool: new_pool, position, market, order_count: order_id, order, response })
}

// ── Resolution and cancellation ───────────────────────────────────

/// Resolve an active market at or after its end time with one of its
/// outcomes. Admin only. Reads the configuration, then the market.
pub fn execute_resolve_market(
    config: Result<Config, StdFailure>,
    market: Result<Market, StdFailure>,
    now: u64,
    info: MessageInfo,
    market_id: u64,
    winning_outcome: String,
) -> (res: Result<(Market, Response), ContractError>)
    ensures
        match config {
            Err(e) => res == Err::<(Market, Response), ContractError>(ContractError::Std(e)),
            Ok(c) => if info.sender@ != c.admin@ {
                res matches Err(ContractError::Unauthorized { role }) && role@ == "admin"@
            } else {
                match market {
                    Err(e) => res == Err::<(Market, Response), ContractError>(ContractError::Std(e)),
                    Ok(m) => if m.status != MarketStatus::Active {
                        res matches Err(ContractError::MarketAlreadyResolved {  })
                    } else if now < m.end_time {
                        res matches Err(ContractError::MarketEnded {  })
                    } else if !has_outcome(m.outcomes@, winning_outcome@) {
                        res matches Err(ContractError::InvalidOutcome { outcome }) && outcome == winning_outcome
                    } else {
                        res matches Ok((nm, r)) && nm == (Market {
                            status: MarketStatus::Resolved,
                            winning_outcome: Some(winning_outcome),
                            resolved_at: Some(now),
                            ..m
                        }) && r@.messages.len() == 0 && r@.attributes == seq![
                            text_attr("action"@, "resolve_market"@),
                            num_attr("market_id"@, market_id as int),
                            text_attr("winning_outcome"@, winning_outcome@),
                        ]
                    },
                }
            },
        },
{
    let config = match config {
        Err(e) => return Err(ContractError::Std(e)),
        Ok(c) => c,
    };
    if info.sender != config.admin {
        return Err(ContractError::Unauthorized { role: "admin".to_owned() });
    }
    let mut market = match market {
        Err(e) => return Err(ContractError::Std(e)),
        Ok(m) => m,
    };
    if market.status != MarketStatus::Active {
        return Err(ContractError::MarketAlreadyResolved {  });
    }
    if now < market.end_time {
        return Err(ContractError::MarketEnded {  });
    }
    if !contains_outcome(&market.outcomes, &winning_outcome) {
        return Err(ContractError::InvalidOutcome { outcome: winning_outcome.clone() });
    }
    let attributes = vec![
        text("action", "resolve_market"),
        number("market_id", market_id as u128),
        text_owned("winning_outcome", winning_outcome.clone()),
    ];
    let response = Response { messages: Vec::new(), attributes };
    proof {
        assert(response@.attributes =~= seq![
            text_attr("action"@, "resolve_market"@),
            num_attr("market_id"@, market_id as int),
            text_attr("winning_outcome"@, winning_outcome@),
        ]);
    }
    market.status = MarketStatus::Resolved;
    market.winning_outcome = Some(winning_outcome);
    market.resolved_at = Some(now);
    Ok((market, response))
}

/// The refund of one liquidity provider: its LP shares in the native denomination.
pub open spec fn refund_of(provider: (String, u128)) -> BankSendView {
    BankSendView {
        to_address: provider.0@,
        amount: seq![CoinView { denom: native_denom(), amount: provider.1 }],
    }
}

/// The refunds of the providers among `entries` holding shares, in order,
/// or the first failure to read an entry.
pub open spec fn provider_refunds(entries: Seq<Result<(String, u128), StdFailure>>) -> Result<
    Seq<BankSendView>,
    StdFailure,
>
    decreases entries.len(),
{
    if entries.len() == 0 {
        Ok(Seq::empty())
    } else {
        match provider_refunds(entries.drop_last()) {
            Err(e) => Err(e),
            Ok(before) => match entries.last() {
                Err(e) => Err(e),
                Ok(p) => if p.1 == 0 {
                    Ok(before)
                } else {
                    Ok(before.push(refund_of(p)))
                },
            },
        }
    }
}

/// Cancel an active market. Creator or admin only. Its liquidity is
/// refunded: each liquidity provider with LP shares is sent them in the
/// native denomination. Reads the configuration, the market, then the LP
/// shares of the market's providers (`providers`, as `(address, shares)`).
#[verifier::loop_isolation(false)]
pub fn execute_cancel_market(
    config: Result<Config, StdFailure>,
    market: Result<Market, StdFailure>,
    providers: Vec<Result<(String, u128), StdFailure>>,
    info: MessageInfo,
    market_id: u64,
) -> (res: Result<(Market, Response), ContractError>)
    ensures
        match config {
            Err(e) => res == Err::<(Market, Response), ContractError>(ContractError::Std(e)),
            Ok(c) => match market {
                Err(e) => res == Err::<(Market, Response), ContractError>(ContractError::Std(e)),
                Ok(m) => if m.status != MarketStatus::Active {
                    res matches Err(ContractError::MarketAlreadyCancelled {  })
                } else if info.sender@ != m.creator@ && info.sender@ != c.admin@ {
                    res matches Err(ContractError::Unauthorized { role }) && role@ == "creator/admin"@
                } else {
                    match provider_refunds(providers@) {
                        Err(e) => res == Err::<(Market, Response), ContractError>(ContractError::Std(e)),
                        Ok(refunds) => res matches Ok((nm, r)) && nm == (Market {
                            status: MarketStatus::Cancelled,
                            ..m
                        }) && r@.attributes == seq![
                            text_attr("action"@, "cancel_market"@),
                            num_attr("market_id"@, market_id as int),
                        ] && r@.messages == refunds,
                    }
                },
            },
        },
{
    let config = match config {
        Err(e) => return Err(ContractError::Std(e)),
        Ok(c) => c,
    };
    let mut market = match market {
        Err(e) => return Err(ContractError::Std(e)),
        Ok(m) => m,
    };
    if market.status != MarketStatus::Active {
        return Err(ContractError::MarketAlreadyCancelled {  });
    }
    if info.sender != market.creator && info.sender != config.admin {
        return Err(ContractError::Unauthorized { role: "creator/admin".to_owned() });
    }
    market.status = MarketStatus::Cancelled;
    let mut messages: Vec<BankSend> = Vec::new();
    assert(providers@.take(0) =~= Seq::<Result<(String, u128), StdFailure>>::empty());
    assert(messages@.map_values(|m: BankSend| m@) =~= Seq::<BankSendView>::empty());
    let mut i: usize = 0;
    while i < providers.len()
        invariant
            i <= providers.len(),
            provider_refunds(providers@.take(i as int)) == Ok::<Seq<BankSendView>, StdFailure>(
                messages@.map_values(|m: BankSend| m@),
            ),
        decreases providers.len() - i,
    {
        assert(providers@.take(i + 1).drop_last() =~= providers@.take(i as int));
        assert(providers@.take(i + 1).last() == providers@[i as int]);
        match &providers[i] {
            Err(e) => {
                proof {
                    lemma_refunds_failure_stays(providers@, i + 1);
                }
                return Err(ContractError::Std(e.duplicate()));
            },
            Ok(p) => {
                if p.1 != 0 {
                    let refund = Coin { denom: native_denom_string(), amount: p.1 };
                    let send = BankSend { to_address: p.0.clone(), amount: vec![refund] };
                    proof {
                        assert(send@.amount =~= seq![CoinView { denom: native_denom(), amount: p.1 }]);
                        assert(send@ == refund_of(*p));
                    }
                    messages.push(send);
                    assert(messages@.map_values(|m: BankSend| m@) =~= provider_refunds(
                        providers@.take(i as int),
                    )->Ok_0.push(refund_of(*p)));
                }
            },
        }
        i = i + 1;
    }
    assert(providers@.take(providers@.len() as int) =~= providers@);
    let attributes = vec![text("action", "cancel_market"), number("market_id", market_id as u128)];
    let response = Response { messages, attributes };
    proof {
        assert(response@.attributes =~= seq![
            text_attr("action"@, "cancel_market"@),
            num_attr("market_id"@, market_id as int),
        ]);
    }
    Ok((market, response))
}

/// Once reading the first `n` entries fails, reading more fails the same way.
proof fn lemma_refunds_failure_stays(entries: Seq<Result<(String, u128), StdFailure>>, n: int)
    requires
        0 <= n <= entries.len(),
        provider_refunds(entries.take(n)) is Err,
    ensures
        provider_refunds(entries) == provider_refunds(entries.take(n)),
    decreases entries.len() - n,
{
    if n < entries.len() {
        assert(entries.take(n + 1).drop_last() =~= entries.take(n));
        lemma_refunds_failure_stays(entries, n + 1);
    } else {
        assert(entries.take(n) =~= entries);
    }
}

// ── Configuration ─────────────────────────────────────────────────

/// Admin updates the configuration; each field given replaces the stored
/// one. `admin` is the validation of the new admin address, where one is given.
pub fn execute_update_config(
    config: Result<Config, StdFailure>,
    info: MessageInfo,
    admin: Option<Result<String, StdFailure>>,
    fee_rate_bps: Option<u64>,
    min_liquidity: Option<u128>,
    max_markets: Option<u32>,
) -> (res: Result<(Config, Response), ContractError>)
    ensures
        match config {
            Err(e) => res == Err::<(Config, Response), ContractError>(ContractError::Std(e)),
            Ok(c) => if info.sender@ != c.admin@ {
                res matches Err(ContractError::Unauthorized { role }) && role@ == "admin"@
            } else if admin matches Some(Err(e)) {
                res == Err::<(Config, Response), ContractError>(ContractError::Std(admin->Some_0->Err_0))
            } else {
                res matches Ok((nc, r)) && nc == (Config {
                    admin: match admin {
                        Some(a) => a->Ok_0,
                        None => c.admin,
                    },
                    fee_rate_bps: fee_rate_bps.unwrap_or(c.fee_rate_bps),
                    min_liquidity: min_liquidity.unwrap_or(c.min_liquidity),
                    max_markets: max_markets.unwrap_or(c.max_markets),
                }) && r@.messages.len() == 0 && r@.attributes == seq![text_attr("action"@, "update_config"@)]
            },
        },
{
    let mut config = match config {
        Err(e) => return Err(ContractError::Std(e)),
        Ok(c) => c,
    };
    if info.sender != config.admin {
        return Err(ContractError::Unauthorized { role: "admin".to_owned() });
    }
    match admin {
        Some(Err(e)) => return Err(ContractError::Std(e)),
        Some(Ok(a)) => config.admin = a,
        None => {},
    }
    match fee_rate_bps {
        Some(v) => config.fee_rate_bps = v,
        None => {},
    }
    match min_liquidity {
        Some(v) => config.min_liquidity = v,
        None => {},
    }
    match max_markets {
        Some(v) => config.max_markets = v,
        None => {},
    }
    let response = Response { messages: Vec::new(), attributes: vec![text("action", "update_config")] };
    proof {
        assert(response@.attributes =~= seq![text_attr("action"@, "update_config"@)]);
    }
    Ok((config, response))
}


// ── Laws ──────────────────────────────────────────────────────────

/// A buyer pays at least the price per token times the tokens bought.
pub proof fn lemma_buy_price_covered(p: OutcomePool, amount: u128, fee_bps: u64)
    requires
        amount > 0,
    ensures
        0 <= buy_price(p, amount, fee_bps) * amount <= buy_total_cost(p, amount, fee_bps),
{
    lemma_fee_nonnegative(buy_raw_cost(p, amount), fee_bps);
    let t = buy_total_cost(p, amount, fee_bps);
    let a = amount as int;
    assert(0 <= (t / a) * a <= t) by (nonlinear_arith)
        requires
            a > 0,
            t >= 0,
    ;
}

/// A seller receives at most the native tokens that leave the pool, which
/// are at most its native reserve.
pub proof fn lemma_sell_payout_bounded(p: OutcomePool, amount: u128, fee_bps: u64)
    requires
        swap_defined(p, amount),
    ensures
        0 <= sell_payout(p, amount, fee_bps) <= native_out(p, amount) <= p.native_reserve,
{
    crate::prediction_market::amm::lemma_swap_keeps_product(p, amount);
    let raw = native_out(p, amount);
    let b = fee_bps as int;
    assert(raw * b / 10_000 >= 0) by (nonlinear_arith)
        requires
            raw >= 0,
            b >= 0,
    ;
}

proof fn lemma_fee_nonnegative(value: int, fee_bps: u64)
    requires
        value >= 0,
    ensures
        bps_fee(value, fee_bps) >= 0,
{
    let b = fee_bps as int;
    assert(value * b / 10_000 >= 0) by (nonlinear_arith)
        requires
            value >= 0,
            b >= 0,
    ;
}

/// No round trip gains: selling back the tokens just bought pays out at
/// most what buying them cost.
pub proof fn lemma_round_trip_never_gains(p: OutcomePool, amount: u128, fee_bps: u64)
    requires
        swap_defined(p, amount),
    ensures
        sell_payout(pool_after(p, amount), amount, fee_bps) <= buy_total_cost(p, amount, fee_bps),
{
    let q = pool_after(p, amount);
    crate::prediction_market::amm::lemma_swap_keeps_product(p, amount);
    lemma_fee_nonnegative(native_out(p, amount), fee_bps);
    let t = p.token_reserve as int;
    let n = p.native_reserve as int;
    let a = amount as int;
    let t1 = q.token_reserve as int;
    let n1 = q.native_reserve as int;
    let t2 = t1 + a;
    let n2 = native_after(q, amount);
    assert(t1 == t + a);
    assert(n1 * t1 <= t * n) by {
        assert(pool_product(q) == t1 * n1);
        assert(t1 * n1 == n1 * t1) by (nonlinear_arith);
    }
    // The first trade: what left the reserve is at least `n * a / t1`.
    let out1 = n - n1;
    assert(out1 == native_out(p, amount));
    assert(out1 * t1 >= n * a) by (nonlinear_arith)
        requires
            n1 * t1 <= t * n,
            t1 == t + a,
            out1 == n - n1,
    ;
    // The second trade: what leaves the reserve is below `n1 * a / t2 + 1`.
    let k1 = t1 * n1;
    assert(n2 == k1 / t2);
    assert(n2 * t2 <= k1 < n2 * t2 + t2) by (nonlinear_arith)
        requires
            t2 > 0,
            k1 >= 0,
            n2 == k1 / t2,
    ;
    assert(n2 <= n1) by (nonlinear_arith)
        requires
            n2 * t2 <= k1,
            k1 == t1 * n1,
            t2 > t1,
            t1 >= 0,
            n1 >= 0,
            t2 > 0,
    ;
    let out2 = n1 - n2;
    assert(out2 == native_out(q, amount));
    assert(out2 * t2 < n1 * a + t2) by (nonlinear_arith)
        requires
            k1 < n2 * t2 + t2,
            k1 == t1 * n1,
            t2 == t1 + a,
            out2 == n1 - n2,
    ;
    assert(out2 <= out1) by (nonlinear_arith)
        requires
            out2 * t2 < n1 * a + t2,
            out1 * t1 >= n * a,
            n1 <= n,
            t2 >= t1,
            t1 > 0,
            a > 0,
            out1 >= 0,
    ;
    lemma_fee_nonnegative(native_out(q, amount), fee_bps);
}

} // verus!
