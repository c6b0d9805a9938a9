//! The contract's persistent state: the address of the randomness provider's
//! proxy, set once the contract is instantiated, and the outcome store.

use crate::dice::{is_outcome, payload_outcome, MAX_OUTCOME, MIN_OUTCOME};
use crate::history::history;
use crate::store::{all_outcomes, OutcomeStore};
use vstd::prelude::*;

verus! {

/// The state as mathematics: what the contracts of the entry points are
/// stated over.
pub struct StateView {
    /// The proxy address, once set.
    pub nois_proxy: Option<Seq<char>>,
    /// The outcome of every resolved job, by job identifier.
    pub outcomes: Map<Seq<char>, u8>,
}

impl StateView {
    /// The state of a contract that was never called.
    pub open spec fn init() -> StateView {
        StateView { nois_proxy: None, outcomes: Map::empty() }
    }

    /// Whether finitely many jobs are resolved, each with a sum that two dice
    /// can show.
    pub open spec fn valid(self) -> bool {
        &&& self.outcomes.dom().finite()
        &&& forall|id: Seq<char>| #[trigger]
            self.outcomes.contains_key(id) ==> is_outcome(self.outcomes[id] as int)
    }

    /// The state after an instantiation with `nois_proxy`, which the host
    /// found valid or not.
    pub open spec fn instantiate(self, nois_proxy: Seq<char>, proxy_is_valid: bool) -> StateView {
        if proxy_is_valid {
            StateView { nois_proxy: Some(nois_proxy), outcomes: self.outcomes }
        } else {
            self
        }
    }

    /// The state after `randomness` was delivered for job `id`.
    pub open spec fn receive(self, id: Seq<char>, randomness: Seq<u8>) -> StateView {
        match payload_outcome(randomness) {
            Some(sum) => StateView {
                nois_proxy: self.nois_proxy,
                outcomes: self.outcomes.insert(id, sum),
            },
            None => self,
        }
    }

    /// The outcome of job `id`, once it is resolved.
    pub open spec fn outcome(self, id: Seq<char>) -> Option<u8> {
        self.outcomes.get(id)
    }

    /// One line per resolved job, in ascending order of job identifier.
    pub open spec fn history(self) -> Seq<Seq<char>> {
        history(self.outcomes)
    }
}

/// An optional text as mathematics.
pub open spec fn text_of(text: Option<String>) -> Option<Seq<char>> {
    match text {
        Some(t) => Some(t@),
        None => None,
    }
}

/// The map that results from binding each record in turn; of two records
/// for one identifier the later one stays.
pub open spec fn bindings(records: Seq<(String, u8)>) -> Map<Seq<char>, u8>
    decreases records.len(),
{
    if records.len() == 0 {
        Map::empty()
    } else {
        bindings(records.drop_last()).insert(records.last().0@, records.last().1)
    }
}

/// The contract's persistent state.
pub struct State {
    nois_proxy: Option<String>,
    outcomes: OutcomeStore,
}

impl View for State {
    type V = StateView;

    closed spec fn view(&self) -> StateView {
        StateView { nois_proxy: text_of(self.nois_proxy), outcomes: self.outcomes@ }
    }
}

impl State {
    /// Every state has finitely many resolved jobs.
    pub proof fn lemma_finite(self)
        ensures
            self@.outcomes.dom().finite(),
    {
        self.outcomes.lemma_finite();
    }

    /// The state of a contract that was never called.
    pub fn new() -> (state: Self)
        ensures
            state@ == StateView::init(),
    {
        State { nois_proxy: None, outcomes: OutcomeStore::new() }
    }

    /// A state with the given proxy address and the given records, bound in
    /// turn. There is none if a record holds a number that is no sum of two
    /// dice.
    pub fn restore(nois_proxy: Option<String>, records: &Vec<(String, u8)>) -> (state: Option<Self>)
        ensures
            state is Some <==> all_outcomes(records@),
            state matches Some(s) ==> s@ == (StateView {
                nois_proxy: text_of(nois_proxy),
                outcomes: bindings(records@),
            }),
    {
        let mut outcomes = OutcomeStore::new();
        let n: usize = records.len();
        let mut i: usize = 0;
        while i < n
            invariant
                i <= n,
                n == records@.len(),
                all_outcomes(records@.take(i as int)),
                outcomes@ == bindings(records@.take(i as int)),
            decreases n - i,
        {
            let outcome: u8 = records[i].1;
            if outcome < MIN_OUTCOME || outcome > MAX_OUTCOME {
                assert(!is_outcome(records@[i as int].1 as int));
                return None;
            }
            let id = records[i].0.clone();
            outcomes.save(id, outcome);
            proof {
                let next = records@.take(i + 1);
                assert(next.drop_last() =~= records@.take(i as int));
                assert(next.last() == records@[i as int]);
                assert forall|j: int| 0 <= j < next.len() implies is_outcome(
                    #[trigger] next[j].1 as int,
                ) by {
                    if j < i {
                        assert(records@.take(i as int)[j] == next[j]);
                    }
                }
            }
            i += 1;
        }
        proof {
            assert(records@.take(n as int) =~= records@);
        }
        Some(State { nois_proxy, outcomes })
    }

    /// The proxy address, once set.
    pub fn nois_proxy(&self) -> (addr: Option<&String>)
        ensures
            addr matches Some(a) ==> self@.nois_proxy == Some(a@),
            addr is Some <==> self@.nois_proxy is Some,
    {
        self.nois_proxy.as_ref()
    }

    /// The outcome store.
    pub fn outcomes(&self) -> (store: &OutcomeStore)
        ensures
            store@ == self@.outcomes,
    {
        &self.outcomes
    }

    /// Sets the proxy address.
    pub(crate) fn set_nois_proxy(&mut self, addr: String)
        ensures
            final(self)@ == (StateView { nois_proxy: Some(addr@), outcomes: old(self)@.outcomes }),
    {
        self.nois_proxy = Some(addr);
    }

    /// Records the outcome of a job, in place of an earlier one.
    pub(crate) fn save_outcome(&mut self, id: String, outcome: u8)
        requires
            is_outcome(outcome as int),
        ensures
            final(self)@ == (StateView {
                nois_proxy: old(self)@.nois_proxy,
                outcomes: old(self)@.outcomes.insert(id@, outcome),
            }),
    {
        self.outcomes.save(id, outcome);
    }
}

} // verus!
