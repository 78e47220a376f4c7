//! Unspent outputs, the entries that a cache holds of them, and what it
//! means to write entries back.

use crate::chain::transaction::{OutPoint, TxOutput, TxOutputView};
use crate::primitives::{BlockHeight, H256};
use crate::utxo::map::{OutPointMap, Slot};
use vstd::prelude::*;

verus! {

/// What an unspent output is.
pub struct UtxoView {
    pub output: TxOutputView,
    pub coinbase: bool,
    pub height: BlockHeight,
}

/// An unspent transaction output: the output, whether a block reward made
/// it, and the height of the block that mined it.
#[derive(Debug, PartialEq, Eq)]
pub struct Utxo {
    pub output: TxOutput,
    pub coinbase: bool,
    pub height: BlockHeight,
}

impl View for Utxo {
    type V = UtxoView;

    open spec fn view(&self) -> UtxoView {
        UtxoView { output: self.output@, coinbase: self.coinbase, height: self.height }
    }
}

impl Clone for Utxo {
    fn clone(&self) -> (r: Self)
        ensures
            r@ == self@,
    {
        Utxo { output: self.output.clone(), coinbase: self.coinbase, height: self.height }
    }
}

impl Utxo {
    pub fn new(output: TxOutput, is_block_reward: bool, height: BlockHeight) -> (r: Utxo)
        ensures
            r.output == output,
            r.coinbase == is_block_reward,
            r.height == height,
    {
        Utxo { output, coinbase: is_block_reward, height }
    }

    pub fn is_block_reward(&self) -> (r: bool)
        ensures
            r == self.coinbase,
    {
        self.coinbase
    }

    pub fn height(&self) -> (r: BlockHeight)
        ensures
            r == self.height,
    {
        self.height
    }

    pub fn output(&self) -> (r: &TxOutput)
        ensures
            *r == self.output,
    {
        &self.output
    }
}

/// The view of an output that may be absent.
pub open spec fn opt_view(u: Option<Utxo>) -> Option<UtxoView> {
    match u {
        Some(u) => Some(u@),
        None => None,
    }
}

/// What a cache entry is.
pub struct UtxoEntryView {
    pub utxo: Option<UtxoView>,
    pub dirty: bool,
    pub fresh: bool,
}

/// What a cache holds of one outpoint. Without an output the outpoint is
/// spent. A dirty entry differs from the parent view and is written back on
/// flush. A fresh entry is of an outpoint that the parent view does not have.
#[derive(Debug, PartialEq, Eq)]
pub struct UtxoEntry {
    pub utxo: Option<Utxo>,
    pub dirty: bool,
    pub fresh: bool,
}

impl View for UtxoEntry {
    type V = UtxoEntryView;

    open spec fn view(&self) -> UtxoEntryView {
        UtxoEntryView { utxo: opt_view(self.utxo), dirty: self.dirty, fresh: self.fresh }
    }
}

impl Clone for UtxoEntry {
    fn clone(&self) -> (r: Self)
        ensures
            r@ == self@,
    {
        let utxo = match &self.utxo {
            Some(u) => Some(u.clone()),
            None => None,
        };
        UtxoEntry { utxo, dirty: self.dirty, fresh: self.fresh }
    }
}

impl UtxoEntry {
    /// An entry that holds an unspent output.
    pub fn new(utxo: Utxo, is_fresh: bool, is_dirty: bool) -> (r: UtxoEntry)
        ensures
            r.utxo == Some(utxo),
            r.fresh == is_fresh,
            r.dirty == is_dirty,
    {
        UtxoEntry { utxo: Some(utxo), dirty: is_dirty, fresh: is_fresh }
    }

    /// An entry that marks an outpoint as spent, to be deleted on flush.
    pub fn spent() -> (r: UtxoEntry)
        ensures
            r@ == (UtxoEntryView { utxo: None, dirty: true, fresh: false }),
    {
        UtxoEntry { utxo: None, dirty: true, fresh: false }
    }

    pub fn is_dirty(&self) -> (r: bool)
        ensures
            r == self.dirty,
    {
        self.dirty
    }

    pub fn is_fresh(&self) -> (r: bool)
        ensures
            r == self.fresh,
    {
        self.fresh
    }

    pub fn is_spent(&self) -> (r: bool)
        ensures
            r == self@.utxo.is_none(),
    {
        self.utxo.is_none()
    }

    /// A copy of the output, if the outpoint is unspent.
    pub fn utxo(&self) -> (r: Option<Utxo>)
        ensures
            opt_view(r) == self@.utxo,
    {
        match &self.utxo {
            Some(u) => Some(u.clone()),
            None => None,
        }
    }
}

/// Errors of the cache.
#[derive(Clone, Copy, Debug, PartialEq, Eq, Structural)]
pub enum UtxoError {
    /// An unspent output stands at the outpoint and may not be overwritten.
    OverwritingUtxo,
    /// The store failed.
    DBError,
}

/// One entry with its outpoint, as a value of the model.
pub struct EntryAt {
    pub outpoint: OutPoint,
    pub entry: UtxoEntryView,
}

/// The entries of a cache with their outpoints, in the order of the outpoints.
pub open spec fn entries_view(slots: Seq<Slot<UtxoEntry>>) -> Seq<EntryAt> {
    slots.map_values(|s: Slot<UtxoEntry>| EntryAt { outpoint: s.key, entry: s.value@ })
}

/// A set of unspent outputs after one entry has been written to it: a
/// dirty entry with an output puts it, a dirty entry without one deletes
/// what is there, and an entry that is not dirty changes nothing.
pub open spec fn apply_entry(m: Map<OutPoint, UtxoView>, e: EntryAt) -> Map<OutPoint, UtxoView> {
    if !e.entry.dirty {
        m
    } else {
        match e.entry.utxo {
            Some(u) => m.insert(e.outpoint, u),
            None => m.remove(e.outpoint),
        }
    }
}

/// A set of unspent outputs after the entries have been written to it one
/// after the other, in their order.
pub open spec fn apply_entries(m: Map<OutPoint, UtxoView>, entries: Seq<EntryAt>) -> Map<
    OutPoint,
    UtxoView,
>
    decreases entries.len(),
{
    if entries.len() == 0 {
        m
    } else {
        apply_entry(apply_entries(m, entries.drop_last()), entries.last())
    }
}

/// The views of the outputs of a map.
pub open spec fn utxo_views(m: Map<OutPoint, Utxo>) -> Map<OutPoint, UtxoView> {
    m.map_values(|u: Utxo| u@)
}

/// A read-only view of a set of unspent outputs.
pub trait UtxosView {
    /// The unspent outputs that are seen through the view.
    spec fn utxos(&self) -> Map<OutPoint, UtxoView>;

    /// The block up to which the view is.
    spec fn best_block(&self) -> Option<H256>;

    /// What must hold of the view for it to be used.
    spec fn inv(&self) -> bool;

    /// The unspent output at the outpoint, if there is one.
    fn get_utxo(&self, outpoint: &OutPoint) -> (r: Option<Utxo>)
        requires
            self.inv(),
        ensures
            opt_view(r) == if self.utxos().contains_key(*outpoint) {
                Some(self.utxos()[*outpoint])
            } else {
                None
            },
    ;

    /// Whether an unspent output is at the outpoint.
    fn has_utxo(&self, outpoint: &OutPoint) -> (r: bool)
        requires
            self.inv(),
        ensures
            r == self.utxos().contains_key(*outpoint),
    ;

    /// The block up to which the view is.
    fn get_best_block_hash(&self) -> (r: Option<H256>)
        requires
            self.inv(),
        ensures
            r == self.best_block(),
    ;
}

/// A view that entries can be written back to.
pub trait FlushableUtxosView: UtxosView {
    /// Writes the entries to the view, in the order of their outpoints, and
    /// then moves the view to the given block. Only dirty entries count.
    ///
    /// The write is all or nothing: a view whose store fails returns
    /// `DBError` and is left as it was.
    fn batch_write(&mut self, utxos: OutPointMap<UtxoEntry>, block_hash: H256) -> (r: Result<
        (),
        UtxoError,
    >)
        requires
            old(self).inv(),
            utxos.wf(),
        ensures
            final(self).inv(),
            match r {
                Ok(_) => final(self).utxos() == apply_entries(
                    old(self).utxos(),
                    entries_view(utxos.slots@),
                ) && final(self).best_block() == Some(block_hash),
                Err(e) => e == UtxoError::DBError && final(self).utxos() == old(self).utxos()
                    && final(self).best_block() == old(self).best_block(),
            },
    ;
}

/// A view without any output, for a cache that stands alone.
#[derive(Clone, Copy, Debug)]
pub struct NoParent;

impl UtxosView for NoParent {
    open spec fn utxos(&self) -> Map<OutPoint, UtxoView> {
        Map::empty()
    }

    open spec fn best_block(&self) -> Option<H256> {
        None
    }

    open spec fn inv(&self) -> bool {
        true
    }

    fn get_utxo(&self, outpoint: &OutPoint) -> (r: Option<Utxo>) {
        None
    }

    fn has_utxo(&self, outpoint: &OutPoint) -> (r: bool) {
        false
    }

    fn get_best_block_hash(&self) -> (r: Option<H256>) {
        None
    }
}

/// The entries of a cache stand in the order of their outpoints, so that
/// they are written in that order and no outpoint is written twice.
pub proof fn lemma_entries_in_outpoint_order(map: OutPointMap<UtxoEntry>)
    requires
        map.wf(),
    ensures
        forall|i: int, j: int|
            0 <= i < j < entries_view(map.slots@).len() ==> entries_view(
                map.slots@,
            )[i].outpoint.spec_lt(entries_view(map.slots@)[j].outpoint),
        forall|i: int, j: int|
            0 <= i < j < entries_view(map.slots@).len() ==> entries_view(map.slots@)[i].outpoint
                != entries_view(map.slots@)[j].outpoint,
{
    let ev = entries_view(map.slots@);
    assert forall|i: int, j: int| 0 <= i < j < ev.len() implies ev[i].outpoint.spec_lt(
        ev[j].outpoint,
    ) by {
        assert(map.slots@[i].key.spec_lt(map.slots@[j].key));
    }
    assert forall|i: int, j: int| 0 <= i < j < ev.len() implies ev[i].outpoint
        != ev[j].outpoint by {
        assert(map.slots@[i].key.spec_lt(map.slots@[j].key));
        crate::chain::transaction::lemma_outpoint_order_total(ev[i].outpoint, ev[j].outpoint);
    }
}

/// Entries that are not dirty have no effect: writing a list of entries
/// gives what writing its dirty entries alone gives.
pub proof fn lemma_clean_entries_have_no_effect(m: Map<OutPoint, UtxoView>, entries: Seq<EntryAt>)
    ensures
        apply_entries(m, entries) == apply_entries(m, entries.filter(|e: EntryAt| e.entry.dirty)),
    decreases entries.len(),
{
    let dirty = |e: EntryAt| e.entry.dirty;
    if entries.len() == 0 {
        assert(entries.filter(dirty) =~= entries) by {
            reveal(Seq::filter);
        }
    } else {
        let init = entries.drop_last();
        let last = entries.last();
        lemma_clean_entries_have_no_effect(m, init);
        assert(entries =~= init.push(last));
        assert(entries.filter(dirty) == if dirty(last) {
            init.filter(dirty).push(last)
        } else {
            init.filter(dirty)
        }) by {
            reveal(Seq::filter);
        }
        if dirty(last) {
            let f = init.filter(dirty).push(last);
            assert(f.drop_last() =~= init.filter(dirty));
            assert(f.last() == last);
        }
    }
}

/// What writing entries with distinct outpoints gives at each outpoint: the
/// output of the dirty entry at that outpoint, or nothing if that entry is
/// spent; and what was there before where no dirty entry names the outpoint.
pub proof fn lemma_apply_entries_pointwise(m: Map<OutPoint, UtxoView>, entries: Seq<EntryAt>, o: OutPoint)
    requires
        forall|i: int, j: int|
            0 <= i < j < entries.len() ==> entries[i].outpoint != entries[j].outpoint,
    ensures
        (forall|i: int| 0 <= i < entries.len() ==> !((#[trigger] entries[i]).outpoint == o
            && entries[i].entry.dirty)) ==> (apply_entries(m, entries).contains_key(o)
            == m.contains_key(o) && (m.contains_key(o) ==> apply_entries(m, entries)[o] == m[o])),
        forall|i: int|
            0 <= i < entries.len() && (#[trigger] entries[i]).outpoint == o && entries[i].entry.dirty
                ==> (apply_entries(m, entries).contains_key(o) == entries[i].entry.utxo.is_some() && (
            entries[i].entry.utxo matches Some(u) ==> apply_entries(m, entries)[o] == u)),
    decreases entries.len(),
{
    if entries.len() > 0 {
        let init = entries.drop_last();
        let last = entries.last();
        lemma_apply_entries_pointwise(m, init, o);
        assert forall|i: int|
            0 <= i < entries.len() && (#[trigger] entries[i]).outpoint == o
                && entries[i].entry.dirty implies (apply_entries(m, entries).contains_key(o)
            == entries[i].entry.utxo.is_some() && (entries[i].entry.utxo matches Some(u)
            ==> apply_entries(m, entries)[o] == u)) by {
            if i < entries.len() - 1 {
                assert(init[i] == entries[i]);
                assert(entries[i].outpoint != last.outpoint);
            }
        }
        if forall|i: int|
            0 <= i < entries.len() ==> !((#[trigger] entries[i]).outpoint == o
                && entries[i].entry.dirty) {
            assert forall|i: int| 0 <= i < init.len() implies !((#[trigger] init[i]).outpoint == o
                && init[i].entry.dirty) by {
                assert(init[i] == entries[i]);
            }
            assert(!(entries[entries.len() - 1].outpoint == o && entries[entries.len()
                - 1].entry.dirty));
        }
    }
}

} // verus!
