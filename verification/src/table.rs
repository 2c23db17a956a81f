//! Walking tables that are keyed by id.

use std::collections::{HashMap, HashSet};

use vstd::prelude::*;

use crate::ids::Id;

verus! {

/// Whether `ids` lists the keys of `m`, each exactly once.
pub open spec fn lists_keys<V>(ids: Seq<Id>, m: Map<Id, V>) -> bool {
    &&& ids.no_duplicates()
    &&& ids.to_set() == m.dom()
}

/// Whether `values` holds what `m` has under each of its keys, once per key and
/// in some order.
pub open spec fn lists_values<V>(values: Seq<V>, m: Map<Id, V>) -> bool {
    exists|ids: Seq<Id>| #[trigger] lists_keys(ids, m) && values == values_at(ids, m)
}

/// What `m` holds under each of `ids`.
pub open spec fn values_at<V>(ids: Seq<Id>, m: Map<Id, V>) -> Seq<V> {
    Seq::new(ids.len(), |i: int| m[ids[i]])
}

/// The keys of a table, in the order in which the table is walked.
pub fn keys_of<V>(m: &HashMap<Id, V>) -> (r: Vec<Id>)
    ensures
        lists_keys(r@, m@),
        r@.len() == m@.dom().len(),
{
    broadcast use vstd::std_specs::hash::group_hash_axioms;

    let keys = m.keys();
    let ghost listed: Seq<Id> = vstd::std_specs::hash::into_iter_keys(keys);
    assert(listed.to_set() == m@.dom());
    assert(listed.no_duplicates());
    let mut r: Vec<Id> = Vec::new();
    for k in it: keys
        invariant
            r@.len() == it.index(),
            listed == it.seq().unref(),
            forall|i: int| 0 <= i < r@.len() ==> r@[i] == listed[i],
    {
        r.push(*k);
    }
    assert(r@ =~= listed);
    r
}

/// The members of a set, in the order in which the set is walked.
pub fn members_of(s: &HashSet<Id>) -> (r: Vec<Id>)
    ensures
        r@.no_duplicates(),
        r@.to_set() == s@,
{
    broadcast use vstd::std_specs::hash::group_hash_axioms;

    let members = s.iter();
    let ghost listed: Seq<Id> = vstd::std_specs::hash::into_iter_hash_keys(members);
    let mut r: Vec<Id> = Vec::new();
    for k in it: members
        invariant
            r@.len() == it.index(),
            listed == it.seq().unref(),
            forall|i: int| 0 <= i < r@.len() ==> r@[i] == listed[i],
    {
        r.push(*k);
    }
    assert(r@ =~= listed);
    r
}

/// A listing of a table holds as many values as the table, each of which the
/// table has under some id, and misses none.
pub proof fn law_listing_is_complete<V>(values: Seq<V>, m: Map<Id, V>)
    requires
        lists_values(values, m),
        m.dom().finite(),
    ensures
        values.len() == m.dom().len(),
        forall|id: Id| #[trigger] m.contains_key(id) ==> values.contains(m[id]),
        forall|i: int| 0 <= i < values.len() ==> m.values().contains(#[trigger] values[i]),
{
    let ids = choose|ids: Seq<Id>| #[trigger] lists_keys(ids, m) && values == values_at(ids, m);
    ids.unique_seq_to_set();
    assert forall|id: Id| #[trigger] m.contains_key(id) implies values.contains(m[id]) by {
        assert(ids.to_set().contains(id));
        let i = choose|i: int| 0 <= i < ids.len() && ids[i] == id;
        assert(values[i] == m[id]);
    }
    assert forall|i: int| 0 <= i < values.len() implies m.values().contains(
        #[trigger] values[i],
    ) by {
        assert(ids.to_set().contains(ids[i]));
        assert(m.contains_key(ids[i]));
    }
}

/// A listing of a table holds a value once for each id that it stands under: the
/// values come in the order of some listing of the ids, in which no id occurs
/// twice.
pub proof fn law_listing_has_each_id_once<V>(values: Seq<V>, m: Map<Id, V>)
    requires
        lists_values(values, m),
    ensures
        exists|ids: Seq<Id>|
            {
                &&& #[trigger] ids.no_duplicates()
                &&& ids.len() == values.len()
                &&& forall|id: Id| ids.contains(id) <==> #[trigger] m.contains_key(id)
                &&& forall|i: int| 0 <= i < ids.len() ==> values[i] == m[#[trigger] ids[i]]
            },
{
    let ids = choose|ids: Seq<Id>| #[trigger] lists_keys(ids, m) && values == values_at(ids, m);
    assert forall|id: Id| ids.contains(id) <==> #[trigger] m.contains_key(id) by {
        assert(ids.to_set().contains(id) <==> m.dom().contains(id));
    }
    assert(ids.no_duplicates());
}

} // verus!
