//! Walking a hash map that is keyed by an integer.

use std::collections::HashMap;
use vstd::prelude::*;
use vstd::std_specs::iter::IteratorSpec;

verus! {

/// The keys of a map, each once, in the order in which the map hands them out.
pub fn keys_of<V>(m: &HashMap<u64, V>) -> (v: Vec<u64>)
    ensures
        v@.no_duplicates(),
        v@.to_set() == m@.dom(),
        forall|i: int| 0 <= i < v@.len() ==> m@.contains_key(#[trigger] v@[i]),
        forall|k: u64| m@.contains_key(k) ==> v@.contains(k),
{
    broadcast use vstd::std_specs::hash::group_hash_axioms;

    let mut v: Vec<u64> = Vec::new();
    let ks = m.keys();
    assert(ks == vstd::std_specs::hash::spec_keys_iter(m));
    for k in it: ks
        invariant
            v@.len() == it.index(),
            forall|j: int| 0 <= j < v@.len() ==> v@[j] == *it.seq()[j],
            it.seq() == vstd::std_specs::hash::spec_keys_iter(m).remaining(),
        ensures
            v@ =~= vstd::std_specs::hash::spec_keys_iter(m).remaining().unref(),
    {
        v.push(*k);
    }
    proof {
        assert forall|i: int| 0 <= i < v@.len() implies m@.contains_key(#[trigger] v@[i]) by {
            assert(v@.to_set().contains(v@[i]));
        }
        assert forall|k: u64| m@.contains_key(k) implies v@.contains(k) by {
            assert(v@.to_set().contains(k));
        }
    }
    v
}

} // verus!
