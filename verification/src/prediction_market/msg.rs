//! Messages of the prediction market. Amounts are plain integers and times
//! are nanoseconds since the epoch.

use crate::common::Coin;
use vstd::prelude::*;

verus! {

/// Instantiate the prediction market.
#[derive(Clone, Debug)]
pub struct InstantiateMsg {
    /// Admin address (resolves markets, updates the configuration).
    pub admin: String,
    /// Protocol fee in basis points charged on every trade.
    pub fee_rate_bps: u64,
    /// Minimum native liquidity required to create a market.
    pub min_liquidity: u128,
    /// Maximum number of simultaneously active markets.
    pub max_markets: u32,
}

#[derive(Clone, Debug)]
pub enum ExecuteMsg {
    CreateMarket {
        question: String,
        description: String,
        outcomes: Vec<String>,
        end_time: u64,
        resolution_source: Option<String>,
    },
    BuyOutcome { market_id: u64, outcome: String, amount: u128, max_price: Option<u128> },
    SellOutcome { market_id: u64, outcome: String, amount: u128, min_price: Option<u128> },
    ResolveMarket { market_id: u64, winning_outcome: String },
    /// Cancel a market (creator or admin). Refunds liquidity.
    CancelMarket { market_id: u64 },
    AddLiquidity { market_id: u64, amount: Coin },
    RemoveLiquidity { market_id: u64, share_bps: u64 },
    UpdateConfig {
        admin: Option<String>,
        fee_rate_bps: Option<u64>,
        min_liquidity: Option<u128>,
        max_markets: Option<u32>,
    },
}

#[derive(Clone, Debug)]
pub enum QueryMsg {
    GetMarket { market_id: u64 },
    ListMarkets { start_after: Option<u64>, limit: Option<u32> },
    GetPosition { owner: String, market_id: u64, outcome: String },
    GetUserPositions { owner: String, start_after: Option<u64>, limit: Option<u32> },
    GetMarketOrders { market_id: u64 },
}

#[derive(Clone, Debug)]
pub struct MarketResponse {
    pub id: u64,
    pub creator: String,
    pub question: String,
    pub description: String,
    pub outcomes: Vec<String>,
    pub end_time: u64,
    pub resolution_source: Option<String>,
    pub total_volume: u128,
    pub liquidity: u128,
    pub status: String,
    pub winning_outcome: Option<String>,
    pub resolved_at: Option<u64>,
}

#[derive(Clone, Debug)]
pub struct MarketsResponse {
    pub markets: Vec<MarketResponse>,
}

#[derive(Clone, Debug)]
pub struct PositionResponse {
    pub owner: String,
    pub market_id: u64,
    pub outcome: String,
    pub amount: u128,
    pub avg_price: u128,
}

#[derive(Clone, Debug)]
pub struct PositionsResponse {
    pub positions: Vec<PositionResponse>,
}

#[derive(Clone, Debug)]
pub struct OrdersResponse {
    pub orders: Vec<OrderResponse>,
}

#[derive(Clone, Debug)]
pub struct OrderResponse {
    pub id: u64,
    pub market_id: u64,
    pub owner: String,
    pub outcome: String,
    pub side: String,
    pub amount: u128,
    pub price: u128,
    pub filled: u128,
    pub created_at: u64,
}

} // verus!
