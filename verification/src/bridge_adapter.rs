//! Cross-chain transfers with a fee and a settlement status.

pub mod contract;
pub mod error;
pub mod msg;
pub mod state;
