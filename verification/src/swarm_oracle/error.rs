//! Errors of the swarm oracle.

use crate::common::StdFailure;
use vstd::prelude::*;

verus! {

#[derive(Clone, Debug)]
pub enum ContractError {
    Std(StdFailure),
    Unauthorized { role: String },
    AgentAlreadyRegistered { address: String },
    AgentNotFound { address: String },
    AgentInactive {},
    InvalidConfidence {},
    ZeroPrice {},
    ZeroSignalStrength {},
    ReputationUnderflow {},
}

} // verus!
