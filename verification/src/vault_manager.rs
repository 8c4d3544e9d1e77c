//! Auto-rebalancing vaults: depositors receive shares of a vault's value,
//! whitelisted AI agents move its allocation between assets, and
//! withdrawals return assets in proportion to the shares burned.

pub mod assets;
pub mod contract;
pub mod error;
pub mod msg;
pub mod query;
pub mod state;
