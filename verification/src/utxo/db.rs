//! The store of unspent outputs and the view of it that caches flush into.

use crate::chain::transaction::OutPoint;
use crate::primitives::{BlockId, H256};
use crate::utxo::cache::UtxosCache;
use crate::utxo::map::OutPointMap;
use crate::utxo::types::{
    apply_entries, entries_view, opt_view, utxo_views, EntryAt, FlushableUtxosView, Utxo, UtxoEntry,
    UtxoError, UtxoView, UtxosView,
};
use vstd::prelude::*;

verus! {

/// What is persisted: one output for each unspent outpoint, and the id of
/// the best block under a key of its own.
#[derive(Debug, PartialEq, Eq)]
pub struct Store {
    pub utxos: OutPointMap<Utxo>,
    pub best_block_id: Option<BlockId>,
}

impl Store {
    /// The outputs are held in order.
    pub open spec fn wf(&self) -> bool {
        self.utxos.wf()
    }

    /// The unspent outputs that are stored.
    pub open spec fn view(&self) -> Map<OutPoint, UtxoView> {
        utxo_views(self.utxos@)
    }

    /// A store that holds nothing.
    pub fn new_empty() -> (r: Store)
        ensures
            r.wf(),
            r@ == Map::<OutPoint, UtxoView>::empty(),
            r.best_block_id.is_none(),
    {
        let r = Store { utxos: OutPointMap::new(), best_block_id: None };
        assert(r@ =~= Map::<OutPoint, UtxoView>::empty());
        r
    }

    /// A copy of the output stored at the outpoint.
    pub fn get_utxo(&self, outpoint: &OutPoint) -> (r: Option<Utxo>)
        requires
            self.wf(),
        ensures
            opt_view(r) == if self@.contains_key(*outpoint) {
                Some(self@[*outpoint])
            } else {
                None
            },
    {
        match self.utxos.get(outpoint) {
            Some(u) => Some(u.clone()),
            None => None,
        }
    }

    /// Stores the output at the outpoint, in place of what may be there.
    pub fn add_utxo(&mut self, outpoint: &OutPoint, utxo: Utxo)
        requires
            old(self).wf(),
        ensures
            final(self).wf(),
            final(self)@ == old(self)@.insert(*outpoint, utxo@),
            final(self).best_block_id == old(self).best_block_id,
    {
        self.utxos.insert(*outpoint, utxo);
        assert(self@ =~= old(self)@.insert(*outpoint, utxo@));
    }

    /// Deletes what is stored at the outpoint.
    pub fn del_utxo(&mut self, outpoint: &OutPoint)
        requires
            old(self).wf(),
        ensures
            final(self).wf(),
            final(self)@ == old(self)@.remove(*outpoint),
            final(self).best_block_id == old(self).best_block_id,
    {
        self.utxos.remove(outpoint);
        assert(self@ =~= old(self)@.remove(*outpoint));
    }

    /// Stores the id of the best block.
    pub fn set_best_block_id(&mut self, id: &BlockId)
        ensures
            final(self).best_block_id == Some(*id),
            final(self).utxos == old(self).utxos,
    {
        self.best_block_id = Some(*id);
    }

    /// The id of the best block, if one has been stored.
    pub fn get_best_block_id(&self) -> (r: Option<BlockId>)
        ensures
            r == self.best_block_id,
    {
        self.best_block_id
    }
}

/// The view of the store through which caches read and into which they flush.
#[derive(Debug, PartialEq, Eq)]
pub struct UtxoDB {
    pub store: Store,
}

/// The hash inside the id of a block that may be absent.
pub open spec fn hash_of(id: Option<BlockId>) -> Option<H256> {
    match id {
        Some(id) => Some(id.hash),
        None => None,
    }
}

impl UtxoDB {
    pub fn new(store: Store) -> (r: Self)
        ensures
            r.store == store,
    {
        UtxoDB { store }
    }

    /// A cache in front of the store, at the block of the store.
    pub fn derive_cache(&self) -> (r: UtxosCache<'_, UtxoDB>)
        requires
            self.inv(),
        ensures
            r.wf(),
            r.parent == self,
            r.entries() == Map::<OutPoint, crate::utxo::types::UtxoEntryView>::empty(),
            r.utxos() == self.utxos(),
            r.best_block() == self.best_block(),
    {
        UtxosCache::new(self)
    }
}

impl UtxosView for UtxoDB {
    open spec fn utxos(&self) -> Map<OutPoint, UtxoView> {
        self.store@
    }

    open spec fn best_block(&self) -> Option<H256> {
        hash_of(self.store.best_block_id)
    }

    open spec fn inv(&self) -> bool {
        self.store.wf()
    }

    fn get_utxo(&self, outpoint: &OutPoint) -> (r: Option<Utxo>) {
        self.store.get_utxo(outpoint)
    }

    fn has_utxo(&self, outpoint: &OutPoint) -> (r: bool) {
        self.get_utxo(outpoint).is_some()
    }

    fn get_best_block_hash(&self) -> (r: Option<H256>) {
        match self.store.get_best_block_id() {
            Some(id) => Some(id.get()),
            None => None,
        }
    }
}

impl FlushableUtxosView for UtxoDB {
    /// Writes each dirty entry to the store, in the order of the outpoints:
    /// an entry with an output is stored, one without deletes the outpoint.
    /// Then the best block is set.
    fn batch_write(&mut self, utxos: OutPointMap<UtxoEntry>, block_hash: H256) -> (r: Result<
        (),
        UtxoError,
    >)
        ensures
            r.is_ok(),
    {
        let ghost ev = entries_view(utxos.slots@);
        let ghost start = self.utxos();
        let mut i: usize = 0;
        assert(ev.take(0) =~= Seq::<EntryAt>::empty());
        // check each entry if it's dirty. Only then will the db be updated.
        while i < utxos.slots.len()
            invariant
                i <= utxos.slots@.len(),
                ev == entries_view(utxos.slots@),
                self.store.wf(),
                self.utxos() == apply_entries(start, ev.take(i as int)),
            decreases utxos.slots@.len() - i,
        {
            let slot = &utxos.slots[i];
            proof {
                assert(ev.take(i as int + 1).drop_last() =~= ev.take(i as int));
                assert(ev.take(i as int + 1).last() == ev[i as int]);
                assert(ev[i as int] == (EntryAt { outpoint: slot.key, entry: slot.value@ }));
            }
            if slot.value.is_dirty() {
                match slot.value.utxo() {
                    Some(utxo) => {
                        self.store.add_utxo(&slot.key, utxo);
                    },
                    None => {
                        // entry is spent
                        self.store.del_utxo(&slot.key);
                    },
                }
            }
            i = i + 1;
        }
        assert(ev.take(utxos.slots@.len() as int) =~= ev);
        self.store.set_best_block_id(&BlockId::new(block_hash));
        Ok(())
    }
}

} // verus!
