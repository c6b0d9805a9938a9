//! The entry points: instantiation, the two executions (asking for a roll,
//! receiving the randomness for one) and the two queries.
//!
//! Each takes the persistent state as an argument. What only the host can
//! tell, whether an address is valid, comes in as an argument too. A call
//! that fails leaves the state as it was.

use crate::codec::{encode_lines, encode_outcome, outcome_json, text_array_json};
use crate::dice::{dice_outcome, double_roll, is_outcome, payload_outcome};
use crate::error::ContractError;
use crate::laws::law_history_lists_jobs_in_order;
use crate::msg::{ExecuteMsg, InstantiateMsg, MessageInfo, NoisCallbackMsg, QueryMsg};
use crate::response::{
    ProxyExecuteMsg, ProxyExecuteMsgView, Response, ResponseView, WasmExecute, WasmExecuteView,
};
use crate::state::{State, StateView};
use vstd::prelude::*;

verus! {

/// A result with its response as mathematics.
pub open spec fn result_view(r: Result<Response, ContractError>) -> Result<
    ResponseView,
    ContractError,
> {
    match r {
        Ok(response) => Ok(response@),
        Err(e) => Err(e),
    }
}

/// What an instantiation by `sender` answers.
pub open spec fn instantiate_result(sender: Seq<char>, proxy_is_valid: bool) -> Result<
    ResponseView,
    ContractError,
> {
    if proxy_is_valid {
        Ok(
            ResponseView::empty().add_attribute("method"@, "instantiate"@).add_attribute(
                "owner"@,
                sender,
            ),
        )
    } else {
        Err(ContractError::InvalidProxyAddress)
    }
}

/// The one message that asks the proxy at `nois_proxy` for randomness, to be
/// delivered under `job_id`.
pub open spec fn randomness_request(nois_proxy: Seq<char>, job_id: Seq<char>) -> WasmExecuteView {
    WasmExecuteView {
        contract_addr: nois_proxy,
        msg: ProxyExecuteMsgView::GetNextRandomness { callback_id: Some(job_id) },
    }
}

/// What asking for a roll answers.
pub open spec fn roll_dice_result(state: StateView, job_id: Seq<char>) -> Result<
    ResponseView,
    ContractError,
> {
    match state.nois_proxy {
        Some(nois_proxy) => Ok(
            ResponseView::empty().add_message(randomness_request(nois_proxy, job_id)),
        ),
        None => Err(ContractError::NotFound),
    }
}

/// What a delivery of randomness answers.
pub open spec fn receive_result(randomness: Seq<u8>) -> Result<ResponseView, ContractError> {
    if payload_outcome(randomness) is Some {
        Ok(ResponseView::empty())
    } else {
        Err(ContractError::InvalidRandomness)
    }
}

/// What an execution answers.
pub open spec fn execute_result(state: StateView, msg: ExecuteMsg) -> Result<
    ResponseView,
    ContractError,
> {
    match msg {
        ExecuteMsg::RollDice { job_id } => roll_dice_result(state, job_id@),
        ExecuteMsg::Receive(callback) => receive_result(callback.randomness@),
    }
}

/// The state after an execution.
pub open spec fn execute_state(state: StateView, msg: ExecuteMsg) -> StateView {
    match msg {
        ExecuteMsg::RollDice { .. } => state,
        ExecuteMsg::Receive(callback) => state.receive(callback.id@, callback.randomness@),
    }
}

/// The bytes that a query answers with.
pub open spec fn query_reply(state: StateView, msg: QueryMsg) -> Seq<u8> {
    match msg {
        QueryMsg::QueryOutcome { job_id } => outcome_json(state.outcome(job_id@)),
        QueryMsg::GetHistoryOfRounds {  } => text_array_json(state.history()),
    }
}

/// Sets the contract up with the address of the randomness provider's proxy.
///
/// `proxy_is_valid` is the host's verdict on `msg.nois_proxy`. With an invalid
/// address the call fails and the state stays as it was.
pub fn instantiate(
    state: &mut State,
    info: MessageInfo,
    msg: InstantiateMsg,
    proxy_is_valid: bool,
) -> (r: Result<Response, ContractError>)
    ensures
        result_view(r) == instantiate_result(info.sender@, proxy_is_valid),
        final(state)@ == old(state)@.instantiate(msg.nois_proxy@, proxy_is_valid),
{
    if !proxy_is_valid {
        return Err(ContractError::InvalidProxyAddress);
    }
    state.set_nois_proxy(msg.nois_proxy);
    Ok(Response::new().add_attribute("method", "instantiate".to_owned()).add_attribute(
        "owner",
        info.sender,
    ))
}

/// Carries out an execution: asks for a roll, or takes in the randomness for
/// one.
pub fn execute(state: &mut State, info: MessageInfo, msg: ExecuteMsg) -> (r: Result<
    Response,
    ContractError,
>)
    ensures
        result_view(r) == execute_result(old(state)@, msg),
        final(state)@ == execute_state(old(state)@, msg),
{
    match msg {
        ExecuteMsg::RollDice { job_id } => execute_roll_dice(state, info, job_id),
        ExecuteMsg::Receive(NoisCallbackMsg { id: callback_id, randomness }) => execute_receive(
            state,
            info,
            callback_id,
            randomness,
        ),
    }
}

/// Asks the proxy for randomness for the job `job_id`.
///
/// Answers with exactly one message, addressed to the proxy and carrying
/// `job_id` for the proxy to send back. Nothing is recorded. Fails while no
/// proxy address is set.
pub fn execute_roll_dice(state: &State, _info: MessageInfo, job_id: String) -> (r: Result<
    Response,
    ContractError,
>)
    ensures
        result_view(r) == roll_dice_result(state@, job_id@),
{
    let nois_proxy = match state.nois_proxy() {
        Some(addr) => addr.clone(),
        None => {
            return Err(ContractError::NotFound);
        },
    };
    let request = WasmExecute {
        contract_addr: nois_proxy,
        msg: ProxyExecuteMsg::GetNextRandomness { callback_id: Some(job_id) },
    };
    Ok(Response::new().add_message(request))
}

/// Takes in the randomness delivered for the job `callback_id`, and records
/// the sum of the two dice it selects in place of any earlier outcome of that
/// job.
///
/// Fails, and records nothing, unless the randomness is 32 bytes long. Who
/// calls is not looked at.
pub fn execute_receive(
    state: &mut State,
    _info: MessageInfo,
    callback_id: String,
    randomness: Vec<u8>,
) -> (r: Result<Response, ContractError>)
    ensures
        result_view(r) == receive_result(randomness@),
        final(state)@ == old(state)@.receive(callback_id@, randomness@),
        r is Ok ==> final(state)@.outcome(callback_id@) == Some(dice_outcome(randomness@) as u8)
            && is_outcome(dice_outcome(randomness@)),
{
    let double_dice_outcome = match double_roll(&randomness) {
        Some(sum) => sum,
        None => {
            return Err(ContractError::InvalidRandomness);
        },
    };
    state.save_outcome(callback_id, double_dice_outcome);
    Ok(Response::default())
}

/// Answers a query in its wire form, JSON: the outcome of one job, or the
/// history of all resolved jobs.
pub fn query(state: &State, msg: QueryMsg) -> (r: Result<Vec<u8>, ContractError>)
    ensures
        r matches Ok(binary) && binary@ == query_reply(state@, msg),
{
    match msg {
        QueryMsg::GetHistoryOfRounds {  } => encode_lines(&query_history(state)),
        QueryMsg::QueryOutcome { job_id } => encode_outcome(query_outcome(state, job_id)),
    }
}

/// The outcome of the job `job_id`: none before randomness was delivered for
/// it, afterwards the sum derived from the randomness delivered last.
pub fn query_outcome(state: &State, job_id: String) -> (outcome: Option<u8>)
    ensures
        outcome == state@.outcome(job_id@),
        outcome matches Some(sum) ==> is_outcome(sum as int),
{
    state.outcomes().may_load(job_id.as_str())
}

/// One line `<job id>:<outcome>` per resolved job, in ascending order of job
/// identifier.
pub fn query_history(state: &State) -> (lines: Vec<String>)
    ensures
        lines.deep_view() == state@.history(),
        lines@.len() == state@.outcomes.dom().len(),
{
    proof {
        state.lemma_finite();
        law_history_lists_jobs_in_order(state@);
    }
    state.outcomes().history()
}

} // verus!
