//! The history of rounds as a function of the recorded outcomes: one entry
//! per resolved job, in ascending order of job identifier.

use crate::order::{
    ascending, id_lt, lemma_id_lt_asymmetric, lemma_id_lt_total, lemma_id_lt_transitive,
};
use crate::text::history_entry;
use vstd::prelude::*;

verus! {

/// Whether `ids` holds exactly the identifiers in `set`, each once, in
/// ascending order.
pub open spec fn lists_in_order(ids: Seq<Seq<char>>, set: Set<Seq<char>>) -> bool {
    ascending(ids) && ids.to_set() == set
}

/// The identifiers in `set` in ascending order.
pub open spec fn ordered_ids(set: Set<Seq<char>>) -> Seq<Seq<char>> {
    choose|ids: Seq<Seq<char>>| lists_in_order(ids, set)
}

/// The history that a map of outcomes gives rise to.
pub open spec fn history(outcomes: Map<Seq<char>, u8>) -> Seq<Seq<char>> {
    let ids = ordered_ids(outcomes.dom());
    Seq::new(ids.len(), |i: int| history_entry(ids[i], outcomes[ids[i]]))
}

/// An ascending sequence holds no identifier twice.
pub proof fn lemma_ascending_no_duplicates(ids: Seq<Seq<char>>)
    requires
        ascending(ids),
    ensures
        ids.no_duplicates(),
{
    assert forall|i: int, j: int| 0 <= i < ids.len() && 0 <= j < ids.len() && i != j implies ids[i]
        != ids[j] by {
        if i < j {
            lemma_id_lt_asymmetric(ids[i], ids[j]);
        } else {
            lemma_id_lt_asymmetric(ids[j], ids[i]);
        }
    }
}

/// Putting an identifier between those before it and those after it keeps a
/// sequence ascending.
pub proof fn lemma_insert_keeps_ascending(ids: Seq<Seq<char>>, slot: int, id: Seq<char>)
    requires
        ascending(ids),
        0 <= slot <= ids.len(),
        forall|i: int| 0 <= i < slot ==> id_lt(#[trigger] ids[i], id),
        forall|i: int| slot <= i < ids.len() ==> id_lt(id, #[trigger] ids[i]),
    ensures
        ascending(ids.insert(slot, id)),
        ids.insert(slot, id).to_set() == ids.to_set().insert(id),
{
    let out = ids.insert(slot, id);
    ids.insert_ensures(slot, id);
    assert forall|i: int, j: int| 0 <= i < j < out.len() implies id_lt(
        #[trigger] out[i],
        #[trigger] out[j],
    ) by {
        if j < slot {
        } else if j == slot {
        } else {
            assert(out[j] == ids[j - 1]);
            if i < slot {
                assert(out[i] == ids[i]);
            } else if i == slot {
            } else {
                assert(out[i] == ids[i - 1]);
            }
        }
    }
    assert forall|k: Seq<char>| out.to_set().contains(k) <==> ids.to_set().insert(id).contains(
        k,
    ) by {
        if out.contains(k) {
            let i = choose|i: int| 0 <= i < out.len() && out[i] == k;
            if i < slot {
                assert(ids[i] == k);
            } else if i > slot {
                assert(ids[i - 1] == k);
            }
        }
        if ids.contains(k) {
            let i = choose|i: int| 0 <= i < ids.len() && ids[i] == k;
            if i < slot {
                assert(out[i] == k);
            } else {
                assert(out[i + 1] == k);
            }
        }
        if k == id {
            assert(out[slot] == k);
        }
    }
    assert(out.to_set() =~= ids.to_set().insert(id));
}

/// In an ascending sequence every identifier that is not yet listed has a
/// place.
pub proof fn lemma_slot_exists(ids: Seq<Seq<char>>, id: Seq<char>) -> (slot: int)
    requires
        ascending(ids),
        !ids.contains(id),
    ensures
        0 <= slot <= ids.len(),
        forall|i: int| 0 <= i < slot ==> id_lt(#[trigger] ids[i], id),
        forall|i: int| slot <= i < ids.len() ==> id_lt(id, #[trigger] ids[i]),
    decreases ids.len(),
{
    if ids.len() == 0 {
        0
    } else {
        let front = ids.drop_last();
        let last = ids.last();
        assert(ids.contains(last));
        assert forall|i: int, j: int| 0 <= i < j < front.len() implies id_lt(
            #[trigger] front[i],
            #[trigger] front[j],
        ) by {
            assert(front[i] == ids[i] && front[j] == ids[j]);
        }
        if front.contains(id) {
            let i = choose|i: int| 0 <= i < front.len() && front[i] == id;
            assert(ids[i] == id);
        }
        let at = lemma_slot_exists(front, id);
        lemma_id_lt_total(last, id);
        if at == front.len() && id_lt(last, id) {
            assert forall|i: int| 0 <= i < ids.len() implies id_lt(#[trigger] ids[i], id) by {
                if i < front.len() {
                    assert(front[i] == ids[i]);
                }
            }
            ids.len() as int
        } else {
            if at < front.len() {
                assert(front[at] == ids[at]);
                lemma_id_lt_transitive(id, ids[at], last);
            }
            assert forall|i: int| 0 <= i < at implies id_lt(#[trigger] ids[i], id) by {
                assert(front[i] == ids[i]);
            }
            assert forall|i: int| at <= i < ids.len() implies id_lt(id, #[trigger] ids[i]) by {
                if i < front.len() {
                    assert(front[i] == ids[i]);
                }
            }
            at
        }
    }
}

/// Every finite set of identifiers can be listed in ascending order.
pub proof fn lemma_listing_exists(set: Set<Seq<char>>)
    requires
        set.finite(),
    ensures
        lists_in_order(ordered_ids(set), set),
    decreases set.len(),
{
    if set.len() == 0 {
        let none = Seq::<Seq<char>>::empty();
        assert(none.to_set() =~= set);
        assert(lists_in_order(none, set));
    } else {
        let id = set.choose();
        let rest = set.remove(id);
        lemma_listing_exists(rest);
        let ids = ordered_ids(rest);
        assert(!ids.contains(id)) by {
            assert(!ids.to_set().contains(id));
        }
        let slot = lemma_slot_exists(ids, id);
        lemma_insert_keeps_ascending(ids, slot, id);
        assert(rest.insert(id) =~= set);
        assert(lists_in_order(ids.insert(slot, id), set));
    }
}

/// A set of identifiers has only one ascending listing.
pub proof fn lemma_listing_unique(a: Seq<Seq<char>>, b: Seq<Seq<char>>, set: Set<Seq<char>>)
    requires
        lists_in_order(a, set),
        lists_in_order(b, set),
    ensures
        a == b,
    decreases a.len(),
{
    if a.len() == 0 {
        if b.len() > 0 {
            assert(b.contains(b[0]));
            assert(b.to_set().contains(b[0]));
            assert(a.to_set().contains(b[0]));
        }
        assert(a =~= b);
    } else {
        assert(a.contains(a[0]));
        assert(a.to_set().contains(a[0]));
        assert(b.to_set().contains(a[0]));
        let j = choose|j: int| 0 <= j < b.len() && b[j] == a[0];
        assert(b.contains(b[0]));
        assert(b.to_set().contains(b[0]));
        assert(a.to_set().contains(b[0]));
        let i = choose|i: int| 0 <= i < a.len() && a[i] == b[0];
        if i > 0 && j > 0 {
            assert(id_lt(a[0], a[i]));
            assert(id_lt(b[0], b[j]));
            lemma_id_lt_asymmetric(a[0], b[0]);
        }
        assert(a[0] == b[0]);
        let rest = set.remove(a[0]);
        lemma_tail_lists_rest(a, set);
        lemma_tail_lists_rest(b, set);
        lemma_listing_unique(a.drop_first(), b.drop_first(), rest);
        assert(a =~= seq![a[0]] + a.drop_first());
        assert(b =~= seq![b[0]] + b.drop_first());
    }
}

/// Without its first identifier, an ascending listing lists the rest of the
/// set.
proof fn lemma_tail_lists_rest(ids: Seq<Seq<char>>, set: Set<Seq<char>>)
    requires
        lists_in_order(ids, set),
        ids.len() > 0,
    ensures
        lists_in_order(ids.drop_first(), set.remove(ids[0])),
{
    let tail = ids.drop_first();
    assert forall|i: int, j: int| 0 <= i < j < tail.len() implies id_lt(
        #[trigger] tail[i],
        #[trigger] tail[j],
    ) by {
        assert(tail[i] == ids[i + 1] && tail[j] == ids[j + 1]);
    }
    assert forall|k: Seq<char>| tail.to_set().contains(k) <==> set.remove(ids[0]).contains(
        k,
    ) by {
        if tail.contains(k) {
            let i = choose|i: int| 0 <= i < tail.len() && tail[i] == k;
            assert(ids[i + 1] == k);
            assert(ids.contains(k));
            assert(ids.to_set().contains(k));
            lemma_id_lt_asymmetric(ids[0], ids[i + 1]);
        }
        if set.remove(ids[0]).contains(k) {
            assert(ids.to_set().contains(k));
            let i = choose|i: int| 0 <= i < ids.len() && ids[i] == k;
            assert(tail[i - 1] == k);
        }
    }
    assert(tail.to_set() =~= set.remove(ids[0]));
}

/// Any ascending listing of the recorded identifiers is the one the history
/// follows.
pub proof fn lemma_ordered_ids_is(ids: Seq<Seq<char>>, set: Set<Seq<char>>)
    requires
        lists_in_order(ids, set),
    ensures
        ordered_ids(set) == ids,
{
    lemma_listing_unique(ordered_ids(set), ids, set);
}

} // verus!
