//! The outcome store: a map from job identifier to the outcome recorded for
//! it, kept in ascending order of identifier.

use crate::dice::is_outcome;
use crate::history::{history, lemma_insert_keeps_ascending, lemma_ordered_ids_is};
use crate::order::{
    ascending, id_lt, lemma_id_lt_asymmetric, lemma_id_lt_transitive, rank, Rank,
};
use crate::text::{format_entry, history_entry};
use vstd::prelude::*;

verus! {

/// The identifiers of a run of records, in the order of the records.
spec fn ids_of(records: Seq<(String, u8)>) -> Seq<Seq<char>> {
    Seq::new(records.len(), |i: int| records[i].0@)
}

/// The map that a run of records with distinct identifiers stands for.
spec fn map_of(records: Seq<(String, u8)>) -> Map<Seq<char>, u8> {
    Map::new(
        |id: Seq<char>| ids_of(records).contains(id),
        |id: Seq<char>| records[ids_of(records).index_of(id)].1,
    )
}

/// Whether every record of a run holds a sum that two dice can show.
pub open spec fn all_outcomes(records: Seq<(String, u8)>) -> bool {
    forall|i: int| 0 <= i < records.len() ==> is_outcome(#[trigger] records[i].1 as int)
}

/// In an ascending run, each record is what the map holds for its identifier.
proof fn lemma_map_of_at(records: Seq<(String, u8)>, i: int)
    requires
        ascending(ids_of(records)),
        0 <= i < records.len(),
    ensures
        map_of(records).contains_key(records[i].0@),
        map_of(records)[records[i].0@] == records[i].1,
{
    let ids = ids_of(records);
    assert(ids[i] == records[i].0@);
    assert(ids.contains(ids[i]));
    let j = ids.index_of(ids[i]);
    assert(0 <= j < ids.len() && ids[j] == ids[i]);
    if j < i {
        lemma_id_lt_asymmetric(ids[j], ids[i]);
    } else if i < j {
        lemma_id_lt_asymmetric(ids[i], ids[j]);
    }
}

/// The domain of the map is the set of the identifiers.
proof fn lemma_map_of_dom(records: Seq<(String, u8)>)
    ensures
        map_of(records).dom() == ids_of(records).to_set(),
        map_of(records).dom().finite(),
{
    broadcast use vstd::seq_lib::seq_to_set_is_finite;

    assert(map_of(records).dom() =~= ids_of(records).to_set());
}

/// A new record put in its place adds one binding to the map.
proof fn lemma_insert_record(records: Seq<(String, u8)>, slot: int, record: (String, u8))
    requires
        ascending(ids_of(records)),
        0 <= slot <= records.len(),
        forall|i: int| 0 <= i < slot ==> id_lt(#[trigger] ids_of(records)[i], record.0@),
        forall|i: int| slot <= i < records.len() ==> id_lt(record.0@, #[trigger] ids_of(records)[i]),
    ensures
        ascending(ids_of(records.insert(slot, record))),
        map_of(records.insert(slot, record)) == map_of(records).insert(record.0@, record.1),
{
    let after = records.insert(slot, record);
    records.insert_ensures(slot, record);
    let ids = ids_of(records);
    ids.insert_ensures(slot, record.0@);
    assert(ids_of(after) =~= ids.insert(slot, record.0@));
    lemma_insert_keeps_ascending(ids, slot, record.0@);
    lemma_map_of_dom(records);
    lemma_map_of_dom(after);
    let want = map_of(records).insert(record.0@, record.1);
    assert(map_of(after).dom() =~= want.dom());
    assert forall|id: Seq<char>| map_of(after).contains_key(id) implies map_of(after)[id]
        == want[id] by {
        let i = choose|i: int| 0 <= i < after.len() && ids_of(after)[i] == id;
        lemma_map_of_at(after, i);
        if i < slot {
            lemma_map_of_at(records, i);
            lemma_id_lt_asymmetric(ids[i], record.0@);
        } else if i > slot {
            lemma_map_of_at(records, i - 1);
            lemma_id_lt_asymmetric(record.0@, ids[i - 1]);
        }
    }
    assert(map_of(after) =~= want);
}

/// A record written over the one with the same identifier rebinds that
/// identifier in the map.
proof fn lemma_replace_record(records: Seq<(String, u8)>, at: int, record: (String, u8))
    requires
        ascending(ids_of(records)),
        0 <= at < records.len(),
        records[at].0@ == record.0@,
    ensures
        ids_of(records.update(at, record)) == ids_of(records),
        map_of(records.update(at, record)) == map_of(records).insert(record.0@, record.1),
{
    let after = records.update(at, record);
    assert(ids_of(after) =~= ids_of(records));
    lemma_map_of_dom(records);
    lemma_map_of_dom(after);
    lemma_map_of_at(records, at);
    let want = map_of(records).insert(record.0@, record.1);
    assert(map_of(after).dom() =~= want.dom());
    assert forall|id: Seq<char>| map_of(after).contains_key(id) implies map_of(after)[id]
        == want[id] by {
        let i = choose|i: int| 0 <= i < after.len() && ids_of(after)[i] == id;
        lemma_map_of_at(after, i);
        lemma_map_of_at(records, i);
        if i != at {
            if i < at {
                lemma_id_lt_asymmetric(ids_of(records)[i], ids_of(records)[at]);
            } else {
                lemma_id_lt_asymmetric(ids_of(records)[at], ids_of(records)[i]);
            }
        }
    }
    assert(map_of(after) =~= want);
}

/// Outcomes by job identifier. Every outcome held is a sum that two dice can
/// show, and no identifier is held twice.
pub struct OutcomeStore {
    records: Vec<(String, u8)>,
}

impl View for OutcomeStore {
    type V = Map<Seq<char>, u8>;

    closed spec fn view(&self) -> Map<Seq<char>, u8> {
        map_of(self.records@)
    }
}

impl OutcomeStore {
    #[verifier::type_invariant]
    spec fn well_formed(&self) -> bool {
        ascending(ids_of(self.records@)) && all_outcomes(self.records@)
    }

    /// A store maps finitely many identifiers.
    pub proof fn lemma_finite(self)
        ensures
            self@.dom().finite(),
    {
        lemma_map_of_dom(self.records@);
    }

    /// A store that holds nothing.
    pub fn new() -> (store: Self)
        ensures
            store@ == Map::<Seq<char>, u8>::empty(),
    {
        let store = OutcomeStore { records: Vec::new() };
        assert(store@ =~= Map::<Seq<char>, u8>::empty());
        store
    }

    /// Where `id` is held, or where it would go: the index of the first
    /// record whose identifier does not come before `id`, and whether that
    /// record is the one for `id`.
    fn find(&self, id: &str) -> (r: (usize, bool))
        ensures
            r.0 <= self.records@.len(),
            forall|i: int| 0 <= i < r.0 ==> id_lt(#[trigger] ids_of(self.records@)[i], id@),
            r.1 ==> r.0 < self.records@.len() && self.records@[r.0 as int].0@ == id@,
            !r.1 ==> forall|i: int|
                r.0 <= i < self.records@.len() ==> id_lt(id@, #[trigger] ids_of(self.records@)[i]),
    {
        proof {
            use_type_invariant(self);
        }
        let ghost ids = ids_of(self.records@);
        let mut lo: usize = 0;
        let mut hi: usize = self.records.len();
        while lo < hi
            invariant
                lo <= hi <= self.records@.len(),
                ids == ids_of(self.records@),
                ascending(ids),
                forall|i: int| 0 <= i < lo ==> id_lt(#[trigger] ids[i], id@),
                forall|i: int| hi <= i < ids.len() ==> id_lt(id@, #[trigger] ids[i]),
            decreases hi - lo,
        {
            let mid: usize = lo + (hi - lo) / 2;
            assert(ids[mid as int] == self.records@[mid as int].0@);
            match rank(self.records[mid].0.as_str(), id) {
                Rank::Same => {
                    return (mid, true);
                },
                Rank::Before => {
                    assert forall|i: int| 0 <= i < mid + 1 implies id_lt(#[trigger] ids[i], id@) by {
                        if i < mid {
                            lemma_id_lt_transitive(ids[i], ids[mid as int], id@);
                        }
                    }
                    lo = mid + 1;
                },
                Rank::After => {
                    assert forall|i: int| mid <= i < ids.len() implies id_lt(
                        id@,
                        #[trigger] ids[i],
                    ) by {
                        if mid < i {
                            lemma_id_lt_transitive(id@, ids[mid as int], ids[i]);
                        }
                    }
                    hi = mid;
                },
            }
        }
        (lo, false)
    }

    /// The outcome recorded for `id`, if there is one.
    pub fn may_load(&self, id: &str) -> (outcome: Option<u8>)
        ensures
            outcome == self@.get(id@),
            outcome matches Some(sum) ==> is_outcome(sum as int),
    {
        proof {
            use_type_invariant(self);
        }
        let (at, found) = self.find(id);
        if found {
            proof {
                lemma_map_of_at(self.records@, at as int);
            }
            Some(self.records[at].1)
        } else {
            proof {
                let ids = ids_of(self.records@);
                if ids.contains(id@) {
                    let i = choose|i: int| 0 <= i < ids.len() && ids[i] == id@;
                    if i < at {
                        lemma_id_lt_asymmetric(ids[i], id@);
                    } else {
                        lemma_id_lt_asymmetric(id@, ids[i]);
                    }
                }
            }
            None
        }
    }

    /// Records `outcome` for `id`, in place of whatever was recorded for it.
    pub(crate) fn save(&mut self, id: String, outcome: u8)
        requires
            is_outcome(outcome as int),
        ensures
            final(self)@ == old(self)@.insert(id@, outcome),
    {
        proof {
            use_type_invariant(&*self);
        }
        let (at, found) = self.find(id.as_str());
        let ghost record = (id, outcome);
        let mut records: Vec<(String, u8)> = Vec::new();
        core::mem::swap(&mut self.records, &mut records);
        let ghost before = records@;
        if found {
            proof {
                lemma_replace_record(before, at as int, record);
                assert(all_outcomes(before.update(at as int, record)));
            }
            records.set(at, (id, outcome));
        } else {
            proof {
                lemma_insert_record(before, at as int, record);
                before.insert_ensures(at as int, record);
                assert(all_outcomes(before.insert(at as int, record))) by {
                    let after = before.insert(at as int, record);
                    assert forall|i: int| 0 <= i < after.len() implies is_outcome(
                        #[trigger] after[i].1 as int,
                    ) by {
                        if i < at {
                            assert(after[i] == before[i]);
                        } else if i > at {
                            assert(after[i] == before[i - 1]);
                        }
                    }
                }
            }
            records.insert(at, (id, outcome));
        }
        self.records = records;
    }

    /// One line per recorded outcome, in ascending order of identifier.
    pub fn history(&self) -> (lines: Vec<String>)
        ensures
            lines.deep_view() == history(self@),
    {
        proof {
            use_type_invariant(self);
        }
        let mut lines: Vec<String> = Vec::new();
        let n: usize = self.records.len();
        let mut i: usize = 0;
        while i < n
            invariant
                i <= n,
                n == self.records@.len(),
                lines@.len() == i,
                forall|j: int|
                    0 <= j < i ==> (#[trigger] lines@[j])@ == history_entry(
                        self.records@[j].0@,
                        self.records@[j].1,
                    ),
            decreases n - i,
        {
            let line = format_entry(self.records[i].0.as_str(), self.records[i].1);
            lines.push(line);
            i += 1;
        }
        proof {
            let ids = ids_of(self.records@);
            lemma_map_of_dom(self.records@);
            lemma_ordered_ids_is(ids, self@.dom());
            assert forall|j: int| 0 <= j < ids.len() implies lines.deep_view()[j] == history(
                self@,
            )[j] by {
                lemma_map_of_at(self.records@, j);
            }
            assert(lines.deep_view() =~= history(self@));
        }
        lines
    }
}

} // verus!
