use mintlayer::chain::transaction::{Destination, OutPoint, TxOutput};
use mintlayer::primitives::{Amount, BlockHeight, TxId, H256};
use mintlayer::utxo::cache::{flush_to_base, standalone_cache, UtxosCache};
use mintlayer::utxo::db::{Store, UtxoDB};
use mintlayer::utxo::map::OutPointMap;
use mintlayer::utxo::types::{
    FlushableUtxosView, NoParent, Utxo, UtxoEntry, UtxoError, UtxoView, UtxosView,
};

fn hash(n: u64) -> H256 {
    let mut b = [0u8; 32];
    b[24..].copy_from_slice(&n.to_be_bytes());
    H256::from_bytes(b)
}

fn create_utxo(n: u64, block_height: u64) -> (Utxo, OutPoint) {
    let output = TxOutput::new(Amount::from_atoms(10), Destination::PublicKey(vec![n as u8]));
    let utxo = Utxo::new(output, false, BlockHeight::new(block_height));
    let outpoint = OutPoint::new(TxId::new(hash(1000 + n)), 0);
    (utxo, outpoint)
}

fn create_utxos(num_of_utxos: u8) -> OutPointMap<UtxoEntry> {
    let mut map = OutPointMap::new();
    // not in the order of the outpoints
    for n in (0..num_of_utxos).rev() {
        let (utxo, outpoint) = create_utxo(n as u64, 0);
        let entry = UtxoEntry::new(utxo, true, true);
        map.insert(outpoint, entry);
    }
    map
}

#[test]
fn test_utxo() {
    let utxos = create_utxos(10);
    assert_eq!(utxos.len(), 10);

    let store = Store::new_empty();
    let mut utxo_db = UtxoDB::new(store);

    // test batch_write
    let new_best_block_hash = hash(1);
    let res = utxo_db.batch_write(create_utxos(10), new_best_block_hash);
    assert!(res.is_ok());

    for key in 0..10usize {
        let outpoint = utxos.slots[key].key;

        // test the get_utxo
        let utxo_opt = utxo_db.get_utxo(&outpoint);

        let utxo_entry = utxos.get(&outpoint).expect("an entry should be found");
        assert_eq!(utxo_entry.utxo(), utxo_opt);

        // check has_utxo
        assert!(utxo_db.has_utxo(&outpoint));
    }

    //check the best block hash
    assert_eq!(utxo_db.get_best_block_hash(), Some(new_best_block_hash));

    // try to write a non-dirty utxo
    {
        let (utxo, outpoint) = create_utxo(50, 1);
        let mut map = OutPointMap::new();
        let entry = UtxoEntry::new(utxo, true, false);
        map.insert(outpoint, entry);

        let new_hash = hash(2);
        utxo_db.batch_write(map, new_hash).expect("batch write should work");

        assert!(!utxo_db.has_utxo(&outpoint));
        assert_eq!(utxo_db.get_best_block_hash(), Some(new_hash));
    }

    // write down a spent utxo.
    {
        let outpoint = utxos.slots[3].key;
        let utxo = utxos
            .get(&outpoint)
            .expect("entry should exist")
            .utxo()
            .expect("utxo should exist");

        let root = NoParent;
        let mut parent = standalone_cache(&root);
        assert!(parent.add_utxo(utxo, &outpoint, false).is_ok());
        parent.set_best_block(utxo_db.get_best_block_hash().expect("best block should be there"));

        let mut child = UtxosCache::new(&parent);
        assert!(child.spend_utxo(&outpoint).is_some());

        let new_block_hash = hash(3);
        let res = flush_to_base(child, new_block_hash, &mut utxo_db);
        assert!(res.is_ok());

        assert!(!utxo_db.has_utxo(&outpoint));
        assert_eq!(utxo_db.get_best_block_hash(), Some(new_block_hash));
        assert_eq!(utxo_db.store.utxos.len(), 9);
    }
}

#[test]
fn outpoint_map_keeps_the_order_of_outpoints() {
    let map = create_utxos(10);
    for i in 1..map.slots.len() {
        assert!(map.slots[i - 1].key.lt(&map.slots[i].key));
        assert!(!map.slots[i].key.lt(&map.slots[i - 1].key));
    }
    let a = OutPoint::new(TxId::new(hash(5)), 7);
    let b = OutPoint::new(TxId::new(hash(5)), 8);
    let c = OutPoint::new(TxId::new(hash(6)), 0);
    assert!(a.lt(&b) && b.lt(&c) && a.lt(&c));
    assert!(!a.lt(&a));
    assert!(OutPoint::coinbase().is_coinbase());
    assert_eq!(OutPoint::coinbase().get_output_index(), 4294967295);
    assert!(!a.is_coinbase());
}

#[test]
fn spend_returns_what_get_returned() {
    let mut db = UtxoDB::new(Store::new_empty());
    let (in_db, o_db) = create_utxo(1, 5);
    let mut seed = OutPointMap::new();
    seed.insert(o_db, UtxoEntry::new(in_db.clone(), false, true));
    db.batch_write(seed, hash(1)).unwrap();

    let mut cache = db.derive_cache();
    assert_eq!(cache.get_best_block_hash(), Some(hash(1)));
    let (fresh, o_fresh) = create_utxo(2, 6);
    cache.add_utxo(fresh.clone(), &o_fresh, false).unwrap();
    let (_, o_none) = create_utxo(3, 7);

    for o in [o_db, o_fresh, o_none] {
        let got = cache.get_utxo(&o);
        let spent = cache.spend_utxo(&o);
        assert_eq!(got, spent);
        assert_eq!(cache.get_utxo(&o), None);
        assert!(!cache.has_utxo(&o));
        assert_eq!(cache.spend_utxo(&o), None);
    }
    // the output of the store is marked as spent; the fresh one has left no trace
    assert_eq!(cache.utxos.len(), 1);
    let marker = cache.get_entry(&o_db).unwrap();
    assert!(marker.is_spent() && marker.is_dirty() && !marker.is_fresh());
    assert!(cache.get_entry(&o_fresh).is_none());

    let entries = cache.consume();
    db.batch_write(entries, hash(2)).unwrap();
    assert!(!db.has_utxo(&o_db));
    assert_eq!(db.store.utxos.len(), 0);
}

#[test]
fn add_utxo_conflicts() {
    let root = NoParent;
    let mut cache = standalone_cache(&root);
    let (u1, o) = create_utxo(1, 1);
    let (u2, _) = create_utxo(2, 2);
    assert_eq!(cache.add_utxo(u1.clone(), &o, false), Ok(()));
    assert_eq!(cache.add_utxo(u2.clone(), &o, false), Err(UtxoError::OverwritingUtxo));
    assert_eq!(cache.get_utxo(&o), Some(u1));
    assert_eq!(cache.add_utxo(u2.clone(), &o, true), Ok(()));
    assert_eq!(cache.get_utxo(&o), Some(u2.clone()));
    // once spent, the outpoint can be filled again
    assert!(cache.spend_utxo(&o).is_some());
    assert_eq!(cache.add_utxo(u2.clone(), &o, false), Ok(()));
    assert_eq!(cache.get_utxo(&o), Some(u2));
}

#[test]
fn add_utxo_conflicts_with_the_parent() {
    let mut db = UtxoDB::new(Store::new_empty());
    let (u1, o) = create_utxo(1, 1);
    let mut seed = OutPointMap::new();
    seed.insert(o, UtxoEntry::new(u1.clone(), false, true));
    db.batch_write(seed, hash(1)).unwrap();
    let mut cache = db.derive_cache();
    let (u2, _) = create_utxo(2, 2);
    assert_eq!(cache.add_utxo(u2.clone(), &o, false), Err(UtxoError::OverwritingUtxo));
    assert_eq!(cache.add_utxo(u2.clone(), &o, true), Ok(()));
    assert!(!cache.get_entry(&o).unwrap().is_fresh());
    assert_eq!(cache.get_utxo(&o), Some(u2));
}

#[test]
fn flush_applies_dirty_entries_only() {
    let mut db = UtxoDB::new(Store::new_empty());
    let (u1, o1) = create_utxo(1, 1);
    let (u2, o2) = create_utxo(2, 2);
    let (u3, o3) = create_utxo(3, 3);
    let mut seed = OutPointMap::new();
    seed.insert(o1, UtxoEntry::new(u1.clone(), false, true));
    seed.insert(o2, UtxoEntry::new(u2.clone(), false, true));
    db.batch_write(seed, hash(1)).unwrap();

    let mut entries = OutPointMap::new();
    // dirty and spent: deleted
    entries.insert(o1, UtxoEntry::spent());
    // not dirty: no effect, though it holds another output
    entries.insert(o2, UtxoEntry::new(u3.clone(), false, false));
    // dirty with an output: put
    entries.insert(o3, UtxoEntry::new(u3.clone(), true, true));
    db.batch_write(entries, hash(2)).unwrap();

    assert_eq!(db.get_utxo(&o1), None);
    assert_eq!(db.get_utxo(&o2), Some(u2));
    assert_eq!(db.get_utxo(&o3), Some(u3));
    assert_eq!(db.get_best_block_hash(), Some(hash(2)));
}

#[test]
fn entries_after_adding_and_spending() {
    let mut db = UtxoDB::new(Store::new_empty());
    let (in_db, o_db) = create_utxo(1, 5);
    let (also_in_db, o_db2) = create_utxo(4, 5);
    let mut seed = OutPointMap::new();
    seed.insert(o_db, UtxoEntry::new(in_db.clone(), false, true));
    seed.insert(o_db2, UtxoEntry::new(also_in_db.clone(), false, true));
    db.batch_write(seed, hash(1)).unwrap();

    let mut cache = db.derive_cache();
    assert_eq!(cache.utxos.len(), 0);

    // an output that the parent does not have: fresh and dirty
    let (new, o_new) = create_utxo(2, 6);
    cache.add_utxo(new.clone(), &o_new, false).unwrap();
    let entry = cache.get_entry(&o_new).unwrap();
    assert_eq!(entry.utxo(), Some(new.clone()));
    assert!(entry.is_dirty() && entry.is_fresh());

    // an output over one of the parent: dirty, not fresh
    let (over, _) = create_utxo(3, 7);
    cache.add_utxo(over.clone(), &o_db, true).unwrap();
    let entry = cache.get_entry(&o_db).unwrap();
    assert_eq!(entry.utxo(), Some(over.clone()));
    assert!(entry.is_dirty() && !entry.is_fresh());

    // a refused output leaves the entries as they were
    assert_eq!(cache.add_utxo(new.clone(), &o_db, false), Err(UtxoError::OverwritingUtxo));
    assert_eq!(cache.utxos.len(), 2);
    assert_eq!(cache.get_entry(&o_db).unwrap().utxo(), Some(over.clone()));

    // spending a fresh entry removes it
    assert_eq!(cache.spend_utxo(&o_new), Some(new));
    assert!(cache.get_entry(&o_new).is_none());
    // spending any other leaves the marker
    assert_eq!(cache.spend_utxo(&o_db), Some(over));
    let marker = cache.get_entry(&o_db).unwrap();
    assert_eq!(marker.utxo(), None);
    assert!(marker.is_dirty() && !marker.is_fresh());
    // also where the cache had no entry yet
    assert_eq!(cache.spend_utxo(&o_db2), Some(also_in_db));
    let marker = cache.get_entry(&o_db2).unwrap();
    assert_eq!(marker.utxo(), None);
    assert!(marker.is_dirty() && !marker.is_fresh());
    // spending what is not there changes nothing
    let (_, o_none) = create_utxo(9, 9);
    assert_eq!(cache.spend_utxo(&o_none), None);
    assert_eq!(cache.utxos.len(), 2);

    // on flush both outputs are deleted in the store
    let entries = cache.consume();
    assert_eq!(db.batch_write(entries, hash(2)), Ok(()));
    assert!(!db.has_utxo(&o_db));
    assert!(!db.has_utxo(&o_db2));
    assert_eq!(db.store.utxos.len(), 0);
    assert_eq!(db.get_best_block_hash(), Some(hash(2)));
}

/// A base whose store always fails.
struct BrokenBase;

impl UtxosView for BrokenBase {
    fn utxos(&self) -> vstd::map::Map<OutPoint, UtxoView> {
        vstd::map::Map::empty()
    }

    fn best_block(&self) -> Option<H256> {
        None
    }

    fn inv(&self) -> bool {
        true
    }

    fn get_utxo(&self, _outpoint: &OutPoint) -> Option<Utxo> {
        None
    }

    fn has_utxo(&self, _outpoint: &OutPoint) -> bool {
        false
    }

    fn get_best_block_hash(&self) -> Option<H256> {
        None
    }
}

impl FlushableUtxosView for BrokenBase {
    fn batch_write(&mut self, _utxos: OutPointMap<UtxoEntry>, _block_hash: H256) -> Result<(), UtxoError> {
        Err(UtxoError::DBError)
    }
}

#[test]
fn flush_hands_on_the_failure_of_the_base() {
    let root = NoParent;
    let mut cache = standalone_cache(&root);
    let (u, o) = create_utxo(1, 1);
    cache.add_utxo(u, &o, false).unwrap();
    let mut base = BrokenBase;
    assert_eq!(flush_to_base(cache, hash(3), &mut base), Err(UtxoError::DBError));
    assert_eq!(base.get_best_block_hash(), None);
}

#[test]
fn a_spend_goes_down_through_two_caches() {
    let mut db = UtxoDB::new(Store::new_empty());
    let (in_db, o_db) = create_utxo(1, 5);
    let mut seed = OutPointMap::new();
    seed.insert(o_db, UtxoEntry::new(in_db.clone(), false, true));
    db.batch_write(seed, hash(1)).unwrap();

    let mut parent = db.derive_cache();
    let (new, o_new) = create_utxo(2, 6);
    parent.add_utxo(new.clone(), &o_new, false).unwrap();

    // the entries of a cache in front of the parent
    let mut entries = OutPointMap::new();
    entries.insert(o_db, UtxoEntry::spent());
    entries.insert(o_new, UtxoEntry::spent());
    let (other, o_other) = create_utxo(3, 7);
    entries.insert(o_other, UtxoEntry::new(other.clone(), true, true));
    let (clean, o_clean) = create_utxo(4, 8);
    entries.insert(o_clean, UtxoEntry::new(clean, false, false));
    assert_eq!(parent.batch_write(entries, hash(2)), Ok(()));
    assert_eq!(parent.get_best_block_hash(), Some(hash(2)));

    // the output of the store is marked, the fresh one is gone, the new one is dirty
    let marker = parent.get_entry(&o_db).unwrap();
    assert!(marker.is_spent() && marker.is_dirty() && !marker.is_fresh());
    assert!(parent.get_entry(&o_new).is_none());
    let taken = parent.get_entry(&o_other).unwrap();
    assert_eq!(taken.utxo(), Some(other.clone()));
    assert!(taken.is_dirty() && !taken.is_fresh());
    assert!(parent.get_entry(&o_clean).is_none());

    let entries = parent.consume();
    assert_eq!(db.batch_write(entries, hash(2)), Ok(()));
    assert!(!db.has_utxo(&o_db));
    assert!(!db.has_utxo(&o_new));
    assert!(!db.has_utxo(&o_clean));
    assert_eq!(db.get_utxo(&o_other), Some(other));
    assert_eq!(db.store.utxos.len(), 1);
}
