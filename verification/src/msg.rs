//! The messages that the entry points take.

use vstd::prelude::*;

verus! {

/// Sets the contract up.
#[derive(Clone, Debug, PartialEq, Eq)]
pub struct InstantiateMsg {
    /// Address of the randomness provider's proxy contract.
    pub nois_proxy: String,
}

/// What the provider calls back with: the identifier that the request
/// carried, and the randomness for it.
#[derive(Clone, Debug, PartialEq, Eq)]
pub struct NoisCallbackMsg {
    /// The identifier of the job, as it was sent with the request.
    pub id: String,
    /// The randomness, 32 bytes when well formed.
    pub randomness: Vec<u8>,
}

/// A call that may change the state.
#[derive(Clone, Debug, PartialEq, Eq)]
pub enum ExecuteMsg {
    /// Asks the provider for randomness for a new job.
    RollDice {
        /// An identifier for this job, under which the outcome is found later.
        job_id: String,
    },
    /// Delivers the randomness for a job.
    Receive(NoisCallbackMsg),
}

/// A call that only reads the state.
#[derive(Clone, Debug, PartialEq, Eq)]
pub enum QueryMsg {
    /// Asks for the outcome of one job.
    QueryOutcome {
        /// The identifier of the job.
        job_id: String,
    },
    /// Asks for the outcomes of all resolved jobs.
    GetHistoryOfRounds {},
}

/// Who makes a call.
#[derive(Clone, Debug, PartialEq, Eq)]
pub struct MessageInfo {
    /// Address of the caller.
    pub sender: String,
}

} // verus!
