//! On-chain reputation of AI agents (task accuracy, reliability and tier)
//! and of users (prediction record, volume and badges).

pub mod contract;
pub mod error;
pub mod msg;
pub mod query;
pub mod state;
