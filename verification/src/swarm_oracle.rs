//! The swarm oracle: registered AI agents submit prices, and a
//! reputation-weighted median of the recent, in-range prices becomes the
//! consensus price of an asset pair. Agents also deposit decaying
//! stigmergy signals for one another.

pub mod consensus;
pub mod contract;
pub mod error;
pub mod msg;
pub mod state;
