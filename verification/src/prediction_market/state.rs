//! Stored values of the prediction market. Amounts are plain integers and
//! times are nanoseconds since the epoch.

use vstd::prelude::*;

verus! {

#[derive(Clone, Debug)]
pub struct Config {
    pub admin: String,
    pub fee_rate_bps: u64,
    pub min_liquidity: u128,
    pub max_markets: u32,
}

/// Market status lifecycle: a market starts `Active` and ends `Resolved`
/// or `Cancelled`.
#[derive(PartialEq, Eq, Structural, Clone, Copy, Debug)]
pub enum MarketStatus {
    Active,
    Resolved,
    Cancelled,
}

/// A prediction market.
#[derive(Clone, Debug)]
pub struct Market {
    pub id: u64,
    pub creator: String,
    pub question: String,
    pub description: String,
    pub outcomes: Vec<String>,
    pub end_time: u64,
    pub resolution_source: Option<String>,
    pub total_volume: u128,
    pub liquidity: u128,
    pub status: MarketStatus,
    pub winning_outcome: Option<String>,
    pub resolved_at: Option<u64>,
}

/// A user's position in one outcome of a market; stored under
/// `(market_id, owner, outcome)`.
#[derive(Clone, Debug)]
pub struct Position {
    pub owner: String,
    pub market_id: u64,
    pub outcome: String,
    pub amount: u128,
    pub avg_price: u128,
}

/// The AMM pool of one outcome of a market; stored under
/// `(market_id, outcome)`. Trades keep `token_reserve * native_reserve`
/// at most the product before the trade (constant product, rounded down).
#[derive(PartialEq, Eq, Structural, Clone, Copy, Debug)]
pub struct OutcomePool {
    /// Number of outcome tokens in the pool.
    pub token_reserve: u128,
    /// Native-token reserve backing this outcome.
    pub native_reserve: u128,
}

#[derive(Clone, Debug)]
pub struct Order {
    pub id: u64,
    pub market_id: u64,
    pub owner: String,
    pub outcome: String,
    pub side: OrderSide,
    pub amount: u128,
    pub price: u128,
    pub filled: u128,
    pub created_at: u64,
}

#[derive(PartialEq, Eq, Structural, Clone, Copy, Debug)]
pub enum OrderSide {
    Buy,
    Sell,
}

} // verus!
