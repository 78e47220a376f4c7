//! The cache that stands in front of a view of the unspent outputs.

use crate::chain::transaction::OutPoint;
use crate::primitives::H256;
use crate::utxo::map::OutPointMap;
use crate::utxo::types::{
    apply_entries, entries_view, opt_view, EntryAt, FlushableUtxosView, NoParent, Utxo,
    UtxoEntry, UtxoEntryView, UtxoError, UtxoView, UtxosView,
};
use vstd::prelude::*;

verus! {

/// The views of the entries of a map.
pub open spec fn entry_views(m: Map<OutPoint, UtxoEntry>) -> Map<OutPoint, UtxoEntryView> {
    m.map_values(|e: UtxoEntry| e@)
}

/// What is seen through a cache with these entries over a parent with these
/// outputs: at an outpoint that has an entry, what the entry holds; at any
/// other, what the parent has.
pub open spec fn seen_through(
    entries: Map<OutPoint, UtxoEntryView>,
    parent: Map<OutPoint, UtxoView>,
) -> Map<OutPoint, UtxoView> {
    Map::new(
        |o: OutPoint|
            if entries.contains_key(o) {
                entries[o].utxo.is_some()
            } else {
                parent.contains_key(o)
            },
        |o: OutPoint|
            if entries.contains_key(o) {
                entries[o].utxo.unwrap()
            } else {
                parent[o]
            },
    )
}

/// Whether the entries keep the rules of freshness over this parent: a
/// fresh entry holds an output, is dirty, and is of an outpoint that the
/// parent does not have.
pub open spec fn fresh_entries_are_new(
    entries: Map<OutPoint, UtxoEntryView>,
    parent: Map<OutPoint, UtxoView>,
) -> bool {
    forall|o: OutPoint| #[trigger]
        entries.contains_key(o) && entries[o].fresh ==> entries[o].utxo.is_some()
            && entries[o].dirty && !parent.contains_key(o)
}

/// The entry that marks an outpoint as spent, to be deleted on flush.
pub open spec fn spent_marker() -> UtxoEntryView {
    UtxoEntryView { utxo: None, dirty: true, fresh: false }
}

/// The entries after an output has been added at an outpoint: the outpoint
/// has a dirty entry that holds the output. The entry is fresh if the one
/// before it was, or, where none was there, if the parent has no output at
/// the outpoint.
pub open spec fn entries_after_add(
    entries: Map<OutPoint, UtxoEntryView>,
    parent: Map<OutPoint, UtxoView>,
    o: OutPoint,
    utxo: UtxoView,
) -> Map<OutPoint, UtxoEntryView> {
    entries.insert(
        o,
        UtxoEntryView {
            utxo: Some(utxo),
            dirty: true,
            fresh: if entries.contains_key(o) {
                entries[o].fresh
            } else {
                !parent.contains_key(o)
            },
        },
    )
}

/// The entries after the output at an outpoint has been spent: where no
/// output was seen there, nothing changes; a fresh entry is removed, so
/// that nothing is written back for it; any other outpoint gets the dirty
/// marker that deletes it on flush.
pub open spec fn entries_after_spend(
    entries: Map<OutPoint, UtxoEntryView>,
    parent: Map<OutPoint, UtxoView>,
    o: OutPoint,
) -> Map<OutPoint, UtxoEntryView> {
    if !seen_through(entries, parent).contains_key(o) {
        entries
    } else if entries.contains_key(o) && entries[o].fresh {
        entries.remove(o)
    } else {
        entries.insert(o, spent_marker())
    }
}

/// The entries of a cache after one entry of a cache in front of it has
/// been merged into them. An entry that is not dirty changes nothing. A
/// dirty entry with an output is taken over as a dirty entry, which is
/// fresh if the entry before it was. A dirty entry without an output
/// removes a fresh entry and leaves the marker at any other outpoint.
pub open spec fn merge_entry(entries: Map<OutPoint, UtxoEntryView>, e: EntryAt) -> Map<
    OutPoint,
    UtxoEntryView,
> {
    let was_fresh = entries.contains_key(e.outpoint) && entries[e.outpoint].fresh;
    if !e.entry.dirty {
        entries
    } else {
        match e.entry.utxo {
            Some(u) => entries.insert(
                e.outpoint,
                UtxoEntryView { utxo: Some(u), dirty: true, fresh: was_fresh },
            ),
            None => if was_fresh {
                entries.remove(e.outpoint)
            } else {
                entries.insert(e.outpoint, spent_marker())
            },
        }
    }
}

/// The entries of a cache after the entries of a cache in front of it have
/// been merged into them, one after the other.
pub open spec fn merge_entries(entries: Map<OutPoint, UtxoEntryView>, s: Seq<EntryAt>) -> Map<
    OutPoint,
    UtxoEntryView,
>
    decreases s.len(),
{
    if s.len() == 0 {
        entries
    } else {
        merge_entry(merge_entries(entries, s.drop_last()), s.last())
    }
}

/// A cache of unspent outputs in front of a parent view. What has been
/// added or spent since the cache was made is held in entries; everything
/// else is read from the parent.
pub struct UtxosCache<'a, P: UtxosView> {
    pub parent: &'a P,
    pub current_block_hash: Option<H256>,
    pub utxos: OutPointMap<UtxoEntry>,
}

impl<'a, P: UtxosView> UtxosCache<'a, P> {
    /// The entries of the cache.
    pub open spec fn entries(&self) -> Map<OutPoint, UtxoEntryView> {
        entry_views(self.utxos@)
    }

    /// What holds of every cache: each outpoint has one entry at most, the
    /// parent can be used, and a fresh entry is unspent, dirty and unknown
    /// to the parent, so that an output which is added and spent within the
    /// cache leaves no trace.
    pub open spec fn wf(&self) -> bool {
        &&& self.utxos.wf()
        &&& self.parent.inv()
        &&& fresh_entries_are_new(self.entries(), self.parent.utxos())
    }

    /// An empty cache in front of a parent, at the block of the parent.
    pub fn new(parent: &'a P) -> (r: Self)
        requires
            parent.inv(),
        ensures
            r.wf(),
            r.parent == parent,
            r.entries() == Map::<OutPoint, UtxoEntryView>::empty(),
            r.utxos() == parent.utxos(),
            r.best_block() == parent.best_block(),
    {
        let r = UtxosCache {
            parent,
            current_block_hash: parent.get_best_block_hash(),
            utxos: OutPointMap::new(),
        };
        assert(r.entries() =~= Map::<OutPoint, UtxoEntryView>::empty());
        assert(r.utxos() =~= parent.utxos());
        r
    }

    /// Moves the cache to another block.
    pub fn set_best_block(&mut self, block_hash: H256)
        ensures
            final(self).current_block_hash == Some(block_hash),
            final(self).parent == old(self).parent,
            final(self).utxos == old(self).utxos,
    {
        self.current_block_hash = Some(block_hash);
    }

    /// The entry of an outpoint, if the cache holds one.
    pub fn get_entry(&self, outpoint: &OutPoint) -> (r: Option<&UtxoEntry>)
        requires
            self.wf(),
        ensures
            match r {
                Some(e) => self.entries().contains_key(*outpoint) && e@ == self.entries()[*outpoint],
                None => !self.entries().contains_key(*outpoint),
            },
    {
        self.utxos.get(outpoint)
    }

    /// Adds an unspent output at an outpoint.
    ///
    /// Where an unspent output is seen at the outpoint and overwriting is
    /// not permitted, nothing changes and the error is `OverwritingUtxo`.
    /// Otherwise the output is seen at the outpoint afterwards and nothing
    /// else has changed: the outpoint has a dirty entry with the output,
    /// which is fresh if the entry before it was or, without one, if the
    /// parent has no output there.
    pub fn add_utxo(&mut self, utxo: Utxo, outpoint: &OutPoint, possible_overwrite: bool) -> (r:
        Result<(), UtxoError>)
        requires
            old(self).wf(),
        ensures
            final(self).wf(),
            final(self).parent == old(self).parent,
            final(self).current_block_hash == old(self).current_block_hash,
            match r {
                Ok(_) => (possible_overwrite || !old(self).utxos().contains_key(*outpoint))
                    && final(self).utxos() == old(self).utxos().insert(*outpoint, utxo@)
                    && final(self).entries() == entries_after_add(
                    old(self).entries(),
                    old(self).parent.utxos(),
                    *outpoint,
                    utxo@,
                ),
                Err(e) => e == UtxoError::OverwritingUtxo && !possible_overwrite && old(
                    self,
                ).utxos().contains_key(*outpoint) && final(self).utxos == old(self).utxos,
            },
    {
        let ghost before = self.entries();
        let fresh = match self.utxos.get(outpoint) {
            Some(e) => {
                if !possible_overwrite && e.utxo.is_some() {
                    return Err(UtxoError::OverwritingUtxo);
                }
                e.fresh
            },
            None => {
                let in_parent = self.parent.has_utxo(outpoint);
                if !possible_overwrite && in_parent {
                    return Err(UtxoError::OverwritingUtxo);
                }
                !in_parent
            },
        };
        let entry = UtxoEntry { utxo: Some(utxo), dirty: true, fresh };
        self.utxos.insert(*outpoint, entry);
        proof {
            assert(self.entries() =~= before.insert(*outpoint, entry@));
            assert(self.entries() =~= entries_after_add(
                before,
                self.parent.utxos(),
                *outpoint,
                utxo@,
            ));
            assert(self.utxos() =~= old(self).utxos().insert(*outpoint, utxo@));
            assert(before.contains_key(*outpoint) && before[*outpoint].fresh
                ==> !self.parent.utxos().contains_key(*outpoint));
            assert forall|o: OutPoint| #[trigger]
                self.entries().contains_key(o) && self.entries()[o].fresh implies self.entries()[o].utxo.is_some()
                && self.entries()[o].dirty && !self.parent.utxos().contains_key(o) by {
                if o != *outpoint {
                    assert(before.contains_key(o));
                }
            }
        }
        Ok(())
    }

    /// Spends the output at an outpoint and returns it, for undoing.
    ///
    /// What is returned is what `get_utxo` gave before; afterwards
    /// `get_utxo` gives nothing at the outpoint, and nothing else has
    /// changed. An entry that was fresh is removed rather than marked as
    /// spent; any other outpoint at which an output was seen is left with
    /// the dirty marker that deletes it on flush.
    pub fn spend_utxo(&mut self, outpoint: &OutPoint) -> (r: Option<Utxo>)
        requires
            old(self).wf(),
        ensures
            final(self).wf(),
            final(self).parent == old(self).parent,
            final(self).current_block_hash == old(self).current_block_hash,
            opt_view(r) == if old(self).utxos().contains_key(*outpoint) {
                Some(old(self).utxos()[*outpoint])
            } else {
                None
            },
            final(self).utxos() == old(self).utxos().remove(*outpoint),
            !final(self).utxos().contains_key(*outpoint),
            final(self).entries() == entries_after_spend(
                old(self).entries(),
                old(self).parent.utxos(),
                *outpoint,
            ),
    {
        let ghost before = self.entries();
        let state = match self.utxos.get(outpoint) {
            Some(e) => Some((e.utxo(), e.fresh)),
            None => None,
        };
        match state {
            Some((None, _)) => {
                assert(self.utxos() =~= old(self).utxos().remove(*outpoint));
                None
            },
            Some((Some(u), true)) => {
                self.utxos.remove(outpoint);
                proof {
                    assert(self.entries() =~= before.remove(*outpoint));
                    assert(before.contains_key(*outpoint));
                    assert(self.utxos() =~= old(self).utxos().remove(*outpoint));
                }
                Some(u)
            },
            Some((Some(u), false)) => {
                let marker = UtxoEntry::spent();
                self.utxos.insert(*outpoint, marker);
                proof {
                    assert(self.entries() =~= before.insert(*outpoint, marker@));
                    assert(self.utxos() =~= old(self).utxos().remove(*outpoint));
                }
                Some(u)
            },
            None => {
                match self.parent.get_utxo(outpoint) {
                    Some(u) => {
                        let marker = UtxoEntry::spent();
                        self.utxos.insert(*outpoint, marker);
                        proof {
                            assert(self.entries() =~= before.insert(*outpoint, marker@));
                            assert(self.utxos() =~= old(self).utxos().remove(*outpoint));
                        }
                        Some(u)
                    },
                    None => {
                        assert(self.utxos() =~= old(self).utxos().remove(*outpoint));
                        None
                    },
                }
            },
        }
    }

    /// Hands out the entries of the cache, which ends with this.
    pub fn consume(self) -> (r: OutPointMap<UtxoEntry>)
        ensures
            r == self.utxos,
    {
        self.utxos
    }
}

impl<'a, P: UtxosView> UtxosView for UtxosCache<'a, P> {
    open spec fn utxos(&self) -> Map<OutPoint, UtxoView> {
        seen_through(entry_views(self.utxos@), self.parent.utxos())
    }

    open spec fn best_block(&self) -> Option<H256> {
        self.current_block_hash
    }

    open spec fn inv(&self) -> bool {
        self.wf()
    }

    /// Reads from the cache; on a miss, from the parent. A spent outpoint
    /// gives nothing.
    fn get_utxo(&self, outpoint: &OutPoint) -> (r: Option<Utxo>) {
        match self.utxos.get(outpoint) {
            Some(e) => e.utxo(),
            None => self.parent.get_utxo(outpoint),
        }
    }

    fn has_utxo(&self, outpoint: &OutPoint) -> (r: bool) {
        match self.utxos.get(outpoint) {
            Some(e) => e.utxo.is_some(),
            None => self.parent.has_utxo(outpoint),
        }
    }

    fn get_best_block_hash(&self) -> (r: Option<H256>) {
        self.current_block_hash
    }
}

impl<'a, P: UtxosView> FlushableUtxosView for UtxosCache<'a, P> {
    /// Merges the entries of a cache that stood in front of this one. A
    /// dirty entry with an output is taken over; a dirty entry without one
    /// removes a fresh entry here and marks any other outpoint as spent.
    fn batch_write(&mut self, utxos: OutPointMap<UtxoEntry>, block_hash: H256) -> (r: Result<
        (),
        UtxoError,
    >)
        ensures
            r.is_ok(),
            final(self).parent == old(self).parent,
            final(self).entries() == merge_entries(old(self).entries(), entries_view(utxos.slots@)),
    {
        let ghost ev = entries_view(utxos.slots@);
        let ghost start = self.utxos();
        let ghost first = self.entries();
        let mut i: usize = 0;
        assert(ev.take(0) =~= Seq::<EntryAt>::empty());
        while i < utxos.slots.len()
            invariant
                i <= utxos.slots@.len(),
                ev == entries_view(utxos.slots@),
                self.wf(),
                self.parent == old(self).parent,
                self.utxos() == apply_entries(start, ev.take(i as int)),
                self.entries() == merge_entries(first, ev.take(i as int)),
            decreases utxos.slots@.len() - i,
        {
            let ghost before = self.entries();
            let ghost seen = self.utxos();
            let slot = &utxos.slots[i];
            proof {
                assert(ev.take(i as int + 1).drop_last() =~= ev.take(i as int));
                assert(ev.take(i as int + 1).last() == ev[i as int]);
                assert(ev[i as int] == (EntryAt { outpoint: slot.key, entry: slot.value@ }));
            }
            if slot.value.dirty {
                match slot.value.utxo() {
                    Some(u) => {
                        let fresh = match self.utxos.get(&slot.key) {
                            Some(e) => e.fresh,
                            None => false,
                        };
                        let entry = UtxoEntry { utxo: Some(u), dirty: true, fresh };
                        self.utxos.insert(slot.key, entry);
                        proof {
                            assert(self.entries() =~= before.insert(slot.key, entry@));
                            assert(self.utxos() =~= seen.insert(slot.key, u@));
                        }
                    },
                    None => {
                        let fresh = match self.utxos.get(&slot.key) {
                            Some(e) => e.fresh,
                            None => false,
                        };
                        if fresh {
                            self.utxos.remove(&slot.key);
                            proof {
                                assert(self.entries() =~= before.remove(slot.key));
                                assert(before.contains_key(slot.key));
                                assert(self.utxos() =~= seen.remove(slot.key));
                            }
                        } else {
                            let marker = UtxoEntry::spent();
                            self.utxos.insert(slot.key, marker);
                            proof {
                                assert(self.entries() =~= before.insert(slot.key, marker@));
                                assert(self.utxos() =~= seen.remove(slot.key));
                            }
                        }
                    },
                }
            }
            i = i + 1;
        }
        assert(ev.take(utxos.slots@.len() as int) =~= ev);
        self.current_block_hash = Some(block_hash);
        Ok(())
    }
}

/// A cache that stands alone, without a parent.
pub fn standalone_cache(parent: &NoParent) -> (r: UtxosCache<'_, NoParent>)
    ensures
        r.wf(),
        r.utxos() == Map::<OutPoint, UtxoView>::empty(),
        r.best_block().is_none(),
{
    UtxosCache::new(parent)
}

/// Writes the entries of a cache to a base and moves the base to the given
/// block. Every dirty entry is applied in the order of the outpoints: with
/// an output it is put, without one the outpoint is deleted. Entries that
/// are not dirty are passed over. A base whose store fails is left as it
/// was, and its error is returned.
pub fn flush_to_base<'a, P: UtxosView, B: FlushableUtxosView>(
    cache: UtxosCache<'a, P>,
    block_hash: H256,
    base: &mut B,
) -> (r: Result<(), UtxoError>)
    requires
        cache.wf(),
        old(base).inv(),
    ensures
        final(base).inv(),
        match r {
            Ok(_) => final(base).utxos() == apply_entries(
                old(base).utxos(),
                entries_view(cache.utxos.slots@),
            ) && final(base).best_block() == Some(block_hash),
            Err(e) => e == UtxoError::DBError && final(base).utxos() == old(base).utxos()
                && final(base).best_block() == old(base).best_block(),
        },
{
    let utxos = cache.consume();
    base.batch_write(utxos, block_hash)
}

/// After spending, nothing is read at the outpoint and nothing else has
/// changed; the rules of freshness are kept; and where an output was seen,
/// the outpoint is left with the marker, or without an entry over a parent
/// that has no output there.
pub proof fn lemma_spend_then_get_is_none(
    entries: Map<OutPoint, UtxoEntryView>,
    parent: Map<OutPoint, UtxoView>,
    o: OutPoint,
)
    requires
        fresh_entries_are_new(entries, parent),
    ensures
        !seen_through(entries_after_spend(entries, parent, o), parent).contains_key(o),
        seen_through(entries_after_spend(entries, parent, o), parent) == seen_through(
            entries,
            parent,
        ).remove(o),
        fresh_entries_are_new(entries_after_spend(entries, parent, o), parent),
        seen_through(entries, parent).contains_key(o) ==> {
            let after = entries_after_spend(entries, parent, o);
            if after.contains_key(o) {
                after[o] == spent_marker()
            } else {
                !parent.contains_key(o)
            }
        },
{
    let after = entries_after_spend(entries, parent, o);
    assert(entries.contains_key(o) && entries[o].fresh ==> !parent.contains_key(o));
    assert(seen_through(after, parent) =~= seen_through(entries, parent).remove(o));
}

/// An output that was seen through a cache and is spent there is not in
/// the base once the entries of the cache have been written to a base
/// that holds what the parent held: a marker deletes it, and a fresh entry
/// was never there.
pub proof fn lemma_spent_is_deleted_on_flush(
    before: Map<OutPoint, UtxoEntryView>,
    after: OutPointMap<UtxoEntry>,
    base: Map<OutPoint, UtxoView>,
    o: OutPoint,
)
    requires
        after.wf(),
        fresh_entries_are_new(before, base),
        seen_through(before, base).contains_key(o),
        entry_views(after@) == entries_after_spend(before, base, o),
    ensures
        !apply_entries(base, entries_view(after.slots@)).contains_key(o),
{
    let ev = entries_view(after.slots@);
    let entries = entry_views(after@);
    crate::utxo::types::lemma_entries_in_outpoint_order(after);
    crate::utxo::types::lemma_apply_entries_pointwise(base, ev, o);
    assert(entries.contains_key(o) == after@.contains_key(o));
    if before.contains_key(o) && before[o].fresh {
        assert(!entries.contains_key(o));
        assert forall|i: int| 0 <= i < ev.len() implies !((#[trigger] ev[i]).outpoint == o
            && ev[i].entry.dirty) by {
            crate::utxo::map::lemma_index_unique(after.slots@, i);
        }
        assert(!base.contains_key(o));
    } else {
        assert(entries[o] == spent_marker());
        let i = crate::utxo::map::index_of(after.slots@, o);
        assert(crate::utxo::map::has_key(after.slots@, o));
        crate::utxo::map::lemma_index_unique(after.slots@, i);
        assert(ev[i].outpoint == o);
        assert(ev[i].entry == spent_marker());
    }
}

} // verus!
