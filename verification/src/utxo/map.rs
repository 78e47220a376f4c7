//! A map from outpoints to values, held in the order of the outpoints.
//!
//! The entries are kept in a sorted vector. A flush writes them in the order
//! of their outpoints, which a walk over the vector gives as it is. A hash
//! map would leave that order open, and of a hash map that is keyed by a
//! struct nothing can be proved: vstd specifies `HashMap` for keys whose
//! hashing it knows, which are the integers and a few types of the
//! standard library.

use crate::chain::transaction::{lemma_outpoint_order_total, lemma_outpoint_order_transitive, OutPoint};
use vstd::prelude::*;

verus! {

/// One entry of the map.
#[derive(Debug, PartialEq, Eq)]
pub struct Slot<V> {
    pub key: OutPoint,
    pub value: V,
}

/// A map from outpoints to values. The entries stand in the order of their
/// outpoints, so that no outpoint occurs twice and a walk over the entries
/// meets the outpoints in their order.
#[derive(Debug, PartialEq, Eq)]
pub struct OutPointMap<V> {
    pub slots: Vec<Slot<V>>,
}

/// Whether the keys of the entries rise strictly.
pub open spec fn sorted<V>(slots: Seq<Slot<V>>) -> bool {
    forall|i: int, j: int| 0 <= i < j < slots.len() ==> slots[i].key.spec_lt(slots[j].key)
}

/// Whether an entry of the list has this key.
pub open spec fn has_key<V>(slots: Seq<Slot<V>>, key: OutPoint) -> bool {
    exists|i: int| 0 <= i < slots.len() && (#[trigger] slots[i]).key == key
}

/// The place of the entry with this key.
pub open spec fn index_of<V>(slots: Seq<Slot<V>>, key: OutPoint) -> int {
    choose|i: int| 0 <= i < slots.len() && (#[trigger] slots[i]).key == key
}

/// The map that a list of entries stands for.
pub open spec fn as_map<V>(slots: Seq<Slot<V>>) -> Map<OutPoint, V> {
    Map::new(|k: OutPoint| has_key(slots, k), |k: OutPoint| slots[index_of(slots, k)].value)
}

/// In a sorted list each key has one place.
pub proof fn lemma_index_unique<V>(slots: Seq<Slot<V>>, i: int)
    requires
        sorted(slots),
        0 <= i < slots.len(),
    ensures
        has_key(slots, slots[i].key),
        index_of(slots, slots[i].key) == i,
        as_map(slots).contains_key(slots[i].key),
        as_map(slots)[slots[i].key] == slots[i].value,
{
    let j = index_of(slots, slots[i].key);
    assert(slots[j].key == slots[i].key);
    lemma_outpoint_order_total(slots[i].key, slots[j].key);
    if i < j {
        assert(slots[i].key.spec_lt(slots[j].key));
    }
    if j < i {
        assert(slots[j].key.spec_lt(slots[i].key));
    }
}

impl<V> OutPointMap<V> {
    /// The entries stand in the order of their outpoints.
    pub open spec fn wf(&self) -> bool {
        sorted(self.slots@)
    }

    /// The map that is held.
    pub open spec fn view(&self) -> Map<OutPoint, V> {
        as_map(self.slots@)
    }

    /// An empty map.
    pub fn new() -> (r: Self)
        ensures
            r.wf(),
            r@ == Map::<OutPoint, V>::empty(),
            r.slots@.len() == 0,
    {
        let r = OutPointMap { slots: Vec::new() };
        assert(r@ =~= Map::<OutPoint, V>::empty());
        r
    }

    /// The number of entries.
    pub fn len(&self) -> (r: usize)
        ensures
            r == self.slots@.len(),
    {
        self.slots.len()
    }

    /// The place of a key: where it stands, or else where it would have to
    /// be put.
    pub fn position(&self, key: &OutPoint) -> (r: Result<usize, usize>)
        requires
            self.wf(),
        ensures
            match r {
                Ok(i) => i < self.slots@.len() && self.slots@[i as int].key == *key
                    && self@.contains_key(*key) && self@[*key] == self.slots@[i as int].value,
                Err(i) => {
                    &&& i <= self.slots@.len()
                    &&& !self@.contains_key(*key)
                    &&& forall|k: int| 0 <= k < i ==> self.slots@[k].key.spec_lt(*key)
                    &&& forall|k: int|
                        i <= k < self.slots@.len() ==> key.spec_lt(self.slots@[k].key)
                },
            },
    {
        let mut i: usize = 0;
        while i < self.slots.len()
            invariant
                self.wf(),
                i <= self.slots@.len(),
                forall|k: int| 0 <= k < i ==> self.slots@[k].key.spec_lt(*key),
            decreases self.slots@.len() - i,
        {
            if self.slots[i].key == *key {
                proof {
                    lemma_index_unique(self.slots@, i as int);
                }
                return Ok(i);
            }
            if key.lt(&self.slots[i].key) {
                proof {
                    assert forall|k: int| i <= k < self.slots@.len() implies key.spec_lt(
                        self.slots@[k].key,
                    ) by {
                        if k > i {
                            lemma_outpoint_order_transitive(
                                *key,
                                self.slots@[i as int].key,
                                self.slots@[k].key,
                            );
                        }
                    }
                    self.lemma_absent(*key, i as int);
                }
                return Err(i);
            }
            proof {
                lemma_outpoint_order_total(*key, self.slots@[i as int].key);
            }
            i = i + 1;
        }
        proof {
            self.lemma_absent(*key, i as int);
        }
        Err(i)
    }

    /// A key that is above the entries before a place and below those from
    /// the place on is not in the map.
    proof fn lemma_absent(&self, key: OutPoint, i: int)
        requires
            0 <= i <= self.slots@.len(),
            forall|k: int| 0 <= k < i ==> self.slots@[k].key.spec_lt(key),
            forall|k: int| i <= k < self.slots@.len() ==> key.spec_lt(self.slots@[k].key),
        ensures
            !self@.contains_key(key),
    {
        if has_key(self.slots@, key) {
            let j = index_of(self.slots@, key);
            lemma_outpoint_order_total(key, key);
            if j < i {
                assert(self.slots@[j].key.spec_lt(key));
            } else {
                assert(key.spec_lt(self.slots@[j].key));
            }
        }
    }

    /// The value of a key, if it has one.
    pub fn get(&self, key: &OutPoint) -> (r: Option<&V>)
        requires
            self.wf(),
        ensures
            match r {
                Some(v) => self@.contains_key(*key) && *v == self@[*key],
                None => !self@.contains_key(*key),
            },
    {
        match self.position(key) {
            Ok(i) => Some(&self.slots[i].value),
            Err(_) => None,
        }
    }

    /// Whether the key has a value.
    pub fn contains(&self, key: &OutPoint) -> (r: bool)
        requires
            self.wf(),
        ensures
            r == self@.contains_key(*key),
    {
        self.position(key).is_ok()
    }

    /// Gives the key this value; returns the value it had.
    pub fn insert(&mut self, key: OutPoint, value: V) -> (r: Option<V>)
        requires
            old(self).wf(),
        ensures
            final(self).wf(),
            final(self)@ == old(self)@.insert(key, value),
            match r {
                Some(v) => old(self)@.contains_key(key) && v == old(self)@[key],
                None => !old(self)@.contains_key(key),
            },
    {
        let ghost before = self.slots@;
        match self.position(&key) {
            Ok(i) => {
                let old_slot = self.slots.remove(i);
                self.slots.insert(i, Slot { key, value });
                proof {
                    let after = self.slots@;
                    assert(after =~= before.update(i as int, Slot { key, value }));
                    assert forall|a: int, b: int| 0 <= a < b < after.len() implies after[a].key.spec_lt(
                        after[b].key,
                    ) by {
                        assert(after[a].key == before[a].key);
                        assert(after[b].key == before[b].key);
                    }
                    lemma_same_keys_update(before, after, i as int, key, value);
                }
                Some(old_slot.value)
            },
            Err(i) => {
                self.slots.insert(i, Slot { key, value });
                proof {
                    let after = self.slots@;
                    assert(after =~= before.insert(i as int, Slot { key, value }));
                    assert forall|a: int, b: int| 0 <= a < b < after.len() implies after[a].key.spec_lt(
                        after[b].key,
                    ) by {
                        if a < i && b > i {
                            assert(after[a] == before[a]);
                            assert(after[b] == before[b - 1]);
                        } else if a < i && b < i {
                            assert(after[a] == before[a]);
                            assert(after[b] == before[b]);
                        } else if a > i {
                            assert(after[a] == before[a - 1]);
                            assert(after[b] == before[b - 1]);
                        } else if a == i {
                            assert(after[b] == before[b - 1]);
                        } else {
                            assert(after[a] == before[a]);
                        }
                    }
                    lemma_insert_new(before, after, i as int, key, value);
                }
                None
            },
        }
    }

    /// Takes the key out of the map; returns the value it had.
    pub fn remove(&mut self, key: &OutPoint) -> (r: Option<V>)
        requires
            old(self).wf(),
        ensures
            final(self).wf(),
            final(self)@ == old(self)@.remove(*key),
            match r {
                Some(v) => old(self)@.contains_key(*key) && v == old(self)@[*key],
                None => !old(self)@.contains_key(*key),
            },
    {
        let ghost before = self.slots@;
        match self.position(key) {
            Ok(i) => {
                let old_slot = self.slots.remove(i);
                proof {
                    let after = self.slots@;
                    assert(after =~= before.remove(i as int));
                    assert forall|a: int, b: int| 0 <= a < b < after.len() implies after[a].key.spec_lt(
                        after[b].key,
                    ) by {
                        let a0 = if a < i {
                            a
                        } else {
                            a + 1
                        };
                        let b0 = if b < i {
                            b
                        } else {
                            b + 1
                        };
                        assert(after[a] == before[a0]);
                        assert(after[b] == before[b0]);
                    }
                    lemma_remove_key(before, after, i as int);
                }
                Some(old_slot.value)
            },
            Err(_) => {
                assert(self@ =~= old(self)@.remove(*key));
                None
            },
        }
    }
}

/// Replacing the value at a place changes the map at that key only.
proof fn lemma_same_keys_update<V>(before: Seq<Slot<V>>, after: Seq<Slot<V>>, i: int, key: OutPoint, value: V)
    requires
        sorted(before),
        sorted(after),
        0 <= i < before.len(),
        before[i].key == key,
        after == before.update(i, Slot { key, value }),
    ensures
        as_map(after) == as_map(before).insert(key, value),
{
    let m1 = as_map(after);
    let m2 = as_map(before).insert(key, value);
    assert forall|k: OutPoint| m1.contains_key(k) == m2.contains_key(k) by {
        if has_key(after, k) {
            let j = index_of(after, k);
            assert(before[j].key == k);
        }
        if has_key(before, k) {
            let j = index_of(before, k);
            assert(after[j].key == k);
        }
        if k == key {
            assert(after[i].key == k);
        }
    }
    assert forall|k: OutPoint| m1.contains_key(k) implies m1[k] == m2[k] by {
        let j = index_of(after, k);
        lemma_index_unique(after, j);
        if k != key {
            assert(before[j].key == k);
            lemma_index_unique(before, j);
        } else {
            lemma_index_unique(after, i);
        }
    }
    assert(m1 =~= m2);
}

/// Putting an entry with a new key at its place adds that key to the map.
proof fn lemma_insert_new<V>(before: Seq<Slot<V>>, after: Seq<Slot<V>>, i: int, key: OutPoint, value: V)
    requires
        sorted(before),
        sorted(after),
        0 <= i <= before.len(),
        !has_key(before, key),
        after == before.insert(i, Slot { key, value }),
    ensures
        as_map(after) == as_map(before).insert(key, value),
{
    let m1 = as_map(after);
    let m2 = as_map(before).insert(key, value);
    assert forall|k: OutPoint| m1.contains_key(k) == m2.contains_key(k) by {
        if has_key(after, k) && k != key {
            let j = index_of(after, k);
            if j < i {
                assert(before[j].key == k);
            } else {
                assert(before[j - 1].key == k);
            }
        }
        if has_key(before, k) {
            let j = index_of(before, k);
            if j < i {
                assert(after[j].key == k);
            } else {
                assert(after[j + 1].key == k);
            }
        }
        if k == key {
            assert(after[i].key == k);
        }
    }
    assert forall|k: OutPoint| m1.contains_key(k) implies m1[k] == m2[k] by {
        let j = index_of(after, k);
        lemma_index_unique(after, j);
        if k != key {
            if j < i {
                assert(before[j].key == k);
                lemma_index_unique(before, j);
            } else {
                assert(before[j - 1].key == k);
                lemma_index_unique(before, j - 1);
            }
        } else {
            lemma_index_unique(after, i);
        }
    }
    assert(m1 =~= m2);
}

/// Taking the entry at a place out removes its key from the map.
proof fn lemma_remove_key<V>(before: Seq<Slot<V>>, after: Seq<Slot<V>>, i: int)
    requires
        sorted(before),
        sorted(after),
        0 <= i < before.len(),
        after == before.remove(i),
    ensures
        as_map(after) == as_map(before).remove(before[i].key),
{
    let key = before[i].key;
    let m1 = as_map(after);
    let m2 = as_map(before).remove(key);
    lemma_index_unique(before, i);
    assert forall|k: OutPoint| m1.contains_key(k) == m2.contains_key(k) by {
        if has_key(after, k) {
            let j = index_of(after, k);
            let j0 = if j < i {
                j
            } else {
                j + 1
            };
            assert(before[j0].key == k);
            lemma_index_unique(before, j0);
        }
        if has_key(before, k) && k != key {
            let j = index_of(before, k);
            if j < i {
                assert(after[j].key == k);
            } else {
                assert(after[j - 1].key == k);
            }
        }
    }
    assert forall|k: OutPoint| m1.contains_key(k) implies m1[k] == m2[k] by {
        let j = index_of(after, k);
        lemma_index_unique(after, j);
        let j0 = if j < i {
            j
        } else {
            j + 1
        };
        assert(before[j0].key == k);
        lemma_index_unique(before, j0);
    }
    assert(m1 =~= m2);
}

} // verus!
