//! Prediction markets priced by a constant-product AMM (x·y = k) per
//! outcome, with fee-collecting trades, liquidity provision and resolution.

pub mod amm;
pub mod contract;
pub mod error;
pub mod liquidity;
pub mod msg;
pub mod query;
pub mod state;
