//! SwarmFi: the logic of the protocol's five contracts (cross-chain
//! bridge adapter, prediction market, reputation registry, swarm oracle
//! and vault manager), each as handlers from the stored values they read
//! and the message they receive to the values they store and the response
//! they give.

pub mod common;
pub mod bridge_adapter;
pub mod swarm_oracle;
pub mod prediction_market;
pub mod reputation_registry;
pub mod vault_manager;
