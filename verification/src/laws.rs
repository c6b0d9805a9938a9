//! What holds of the contract over every state and every run of calls.

use crate::contract::{instantiate_result, receive_result, roll_dice_result};
use crate::dice::{dice_outcome, RANDOMNESS_LEN};
use crate::error::ContractError;
use crate::response::ResponseView;
use crate::history::{lemma_ascending_no_duplicates, lemma_listing_exists, ordered_ids};
use crate::order::ascending;
use crate::state::StateView;
use crate::text::history_entry;
use vstd::prelude::*;

verus! {

/// One call of the contract, as the state sees it.
pub enum Call {
    /// An instantiation with an address that the host found valid or not.
    Instantiate { nois_proxy: Seq<char>, proxy_is_valid: bool },
    /// A request for a roll.
    RollDice { job_id: Seq<char> },
    /// A delivery of randomness.
    Receive { id: Seq<char>, randomness: Seq<u8> },
}

impl Call {
    /// Whether this call delivers well-formed randomness for job `id`.
    pub open spec fn resolves(self, id: Seq<char>) -> bool {
        self matches Call::Receive { id: job, randomness } && job == id && randomness.len()
            == RANDOMNESS_LEN
    }

    /// Whether this call sets the proxy address.
    pub open spec fn sets_proxy(self) -> bool {
        self matches Call::Instantiate { nois_proxy, proxy_is_valid } && proxy_is_valid
    }
}

impl StateView {
    /// The state after one call.
    pub open spec fn step(self, call: Call) -> StateView {
        match call {
            Call::Instantiate { nois_proxy, proxy_is_valid } => self.instantiate(
                nois_proxy,
                proxy_is_valid,
            ),
            Call::RollDice { job_id } => self,
            Call::Receive { id, randomness } => self.receive(id, randomness),
        }
    }

    /// The state after a run of calls, the first of them first.
    pub open spec fn run(self, calls: Seq<Call>) -> StateView
        decreases calls.len(),
    {
        if calls.len() == 0 {
            self
        } else {
            self.run(calls.drop_last()).step(calls.last())
        }
    }
}

/// The outcome that the last well-formed delivery for job `id` in a run of
/// calls derives, if the run holds such a delivery.
pub open spec fn last_delivered(calls: Seq<Call>, id: Seq<char>) -> Option<u8>
    decreases calls.len(),
{
    if calls.len() == 0 {
        None
    } else if calls.last().resolves(id) {
        Some(dice_outcome(calls.last()->randomness) as u8)
    } else {
        last_delivered(calls.drop_last(), id)
    }
}

/// A payload of 32 bytes settles the sum of the faces that its first two
/// bytes select, a number from 2 to 12, and the delivery records it.
pub proof fn law_delivery_records_dice_sum(state: StateView, id: Seq<char>, randomness: Seq<u8>)
    requires
        randomness.len() == RANDOMNESS_LEN,
    ensures
        receive_result(randomness) is Ok,
        state.receive(id, randomness).outcome(id) == Some(dice_outcome(randomness) as u8),
        dice_outcome(randomness) == (randomness[0] % 6 + 1) + (randomness[1] % 6 + 1),
        2 <= dice_outcome(randomness) <= 12,
{
}

/// A payload of any other length is turned down and changes nothing.
pub proof fn law_malformed_delivery_changes_nothing(
    state: StateView,
    id: Seq<char>,
    randomness: Seq<u8>,
)
    requires
        randomness.len() != RANDOMNESS_LEN,
    ensures
        receive_result(randomness) == Err::<ResponseView, ContractError>(ContractError::InvalidRandomness),
        state.receive(id, randomness) == state,
{
}

/// A fresh state is valid.
pub proof fn law_fresh_state_valid()
    ensures
        StateView::init().valid(),
{
}

/// Every call keeps a valid state valid: no call records anything but a sum
/// of two dice.
pub proof fn law_calls_keep_valid(state: StateView, call: Call)
    requires
        state.valid(),
    ensures
        state.step(call).valid(),
{
}

/// A job has no outcome in a fresh state, and a call that does not deliver
/// well-formed randomness for it leaves its outcome as it is.
pub proof fn law_outcome_only_by_delivery(state: StateView, call: Call, id: Seq<char>)
    requires
        !call.resolves(id),
    ensures
        StateView::init().outcome(id) is None,
        state.step(call).outcome(id) == state.outcome(id),
{
}

/// After any run of calls on a fresh contract, a job has an outcome exactly
/// if randomness was delivered for it, and the outcome is the one that the
/// last such delivery derives.
pub proof fn law_outcome_is_last_delivered(calls: Seq<Call>, id: Seq<char>)
    ensures
        StateView::init().run(calls).outcome(id) == last_delivered(calls, id),
    decreases calls.len(),
{
    if calls.len() > 0 {
        law_outcome_is_last_delivered(calls.drop_last(), id);
    }
}

/// Delivering the same randomness for the same job twice leaves the state
/// that delivering it once leaves.
pub proof fn law_delivery_idempotent(state: StateView, id: Seq<char>, randomness: Seq<u8>)
    ensures
        state.receive(id, randomness).receive(id, randomness) == state.receive(id, randomness),
{
    let once = state.receive(id, randomness);
    assert(once.receive(id, randomness).outcomes =~= once.outcomes);
}

/// Of two deliveries for one job the later one stays: the state is the one
/// that the later delivery alone leaves.
pub proof fn law_last_delivery_wins(
    state: StateView,
    id: Seq<char>,
    first: Seq<u8>,
    second: Seq<u8>,
)
    requires
        second.len() == RANDOMNESS_LEN,
    ensures
        state.receive(id, first).receive(id, second) == state.receive(id, second),
        state.receive(id, first).receive(id, second).outcome(id) == Some(
            dice_outcome(second) as u8,
        ),
{
    let both = state.receive(id, first).receive(id, second);
    assert(both.outcomes =~= state.receive(id, second).outcomes);
}

/// The history lists each resolved job once, in ascending order of job
/// identifier, as `<job id>:<outcome>`.
pub proof fn law_history_lists_jobs_in_order(state: StateView)
    requires
        state.outcomes.dom().finite(),
    ensures
        ({
            let ids = ordered_ids(state.outcomes.dom());
            &&& ascending(ids)
            &&& ids.no_duplicates()
            &&& ids.to_set() == state.outcomes.dom()
            &&& state.history().len() == ids.len() == state.outcomes.dom().len()
            &&& forall|i: int|
                0 <= i < ids.len() ==> #[trigger] state.history()[i] == history_entry(
                    ids[i],
                    state.outcomes[ids[i]],
                )
        }),
{
    let ids = ordered_ids(state.outcomes.dom());
    lemma_listing_exists(state.outcomes.dom());
    lemma_ascending_no_duplicates(ids);
    ids.unique_seq_to_set();
}

/// Each resolved job has its line in the history.
pub proof fn law_history_holds_every_job(state: StateView, id: Seq<char>)
    requires
        state.outcomes.dom().finite(),
        state.outcomes.contains_key(id),
    ensures
        state.history().contains(history_entry(id, state.outcomes[id])),
{
    let ids = ordered_ids(state.outcomes.dom());
    lemma_listing_exists(state.outcomes.dom());
    assert(ids.to_set().contains(id));
    let i = choose|i: int| 0 <= i < ids.len() && ids[i] == id;
    assert(state.history()[i] == history_entry(id, state.outcomes[id]));
}

/// Asking for a roll fails as long as no instantiation with a valid address
/// took place.
pub proof fn law_roll_needs_proxy(calls: Seq<Call>, job_id: Seq<char>)
    requires
        forall|i: int| 0 <= i < calls.len() ==> !(#[trigger] calls[i]).sets_proxy(),
    ensures
        StateView::init().run(calls).nois_proxy is None,
        roll_dice_result(StateView::init().run(calls), job_id) == Err::<ResponseView, ContractError>(
            ContractError::NotFound,
        ),
    decreases calls.len(),
{
    if calls.len() > 0 {
        let before = calls.drop_last();
        assert forall|i: int| 0 <= i < before.len() implies !(#[trigger] before[i]).sets_proxy() by {
            assert(before[i] == calls[i]);
        }
        law_roll_needs_proxy(before, job_id);
        assert(!calls[calls.len() - 1].sets_proxy());
    }
}

/// An instantiation with an address that the host turns down fails and
/// leaves the state, and with it the unset proxy address, as it was.
pub proof fn law_invalid_proxy_changes_nothing(
    state: StateView,
    sender: Seq<char>,
    nois_proxy: Seq<char>,
)
    ensures
        instantiate_result(sender, false) == Err::<ResponseView, ContractError>(
            ContractError::InvalidProxyAddress,
        ),
        state.instantiate(nois_proxy, false) == state,
        StateView::init().instantiate(nois_proxy, false).nois_proxy is None,
{
}

/// Once the proxy address is set, asking for a roll answers with one message
/// to that address and leaves the state alone.
pub proof fn law_roll_after_instantiate(
    state: StateView,
    nois_proxy: Seq<char>,
    job_id: Seq<char>,
)
    ensures
        roll_dice_result(state.instantiate(nois_proxy, true), job_id) matches Ok(response)
            && response.messages.len() == 1 && response.messages[0].contract_addr == nois_proxy,
{
}

} // verus!
