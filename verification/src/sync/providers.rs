//! Which peers are known to have which blocks.

use crate::primitives::BlockId;
use crate::sync::manager::SyncManager;
use crate::sync::peer::PeerContextView;
use crate::sync::request::PeerId;
use crate::sync::table::keys_of;
use vstd::prelude::*;

verus! {

broadcast use vstd::std_specs::hash::group_hash_axioms;

/// The peers that are known to have the block with this id.
pub open spec fn providers_of(peers: Map<PeerId, PeerContextView>, id: BlockId) -> Set<PeerId> {
    Set::new(|p: PeerId| peers.contains_key(p) && peers[p].known.contains(id))
}

/// Whether some peer is known to have the block with this id.
pub open spec fn has_provider(peers: Map<PeerId, PeerContextView>, id: BlockId) -> bool {
    exists|p: PeerId| peers.contains_key(p) && (#[trigger] peers[p]).known.contains(id)
}

/// Those of the ids that have a provider, in their order.
pub open spec fn provided(peers: Map<PeerId, PeerContextView>, ids: Seq<BlockId>) -> Seq<BlockId> {
    ids.filter(|id: BlockId| has_provider(peers, id))
}

/// A block and the peers that are known to have it.
#[derive(Debug, PartialEq, Eq)]
pub struct Providers {
    pub block_id: BlockId,
    pub peers: Vec<PeerId>,
}

/// The ids of the blocks of a list of providers.
pub open spec fn block_ids_of(s: Seq<Providers>) -> Seq<BlockId> {
    s.map_values(|e: Providers| e.block_id)
}

/// Whether `index` lists the providers of these ids: one entry for each id
/// that has a provider, in the order of the ids, and with each the peers
/// that are known to have that block, each once.
pub open spec fn is_provider_index(
    peers: Map<PeerId, PeerContextView>,
    ids: Seq<BlockId>,
    index: Seq<Providers>,
) -> bool {
    &&& block_ids_of(index) == provided(peers, ids)
    &&& forall|i: int|
        0 <= i < index.len() ==> (#[trigger] index[i]).peers@.no_duplicates()
            && index[i].peers@.to_set() == providers_of(peers, index[i].block_id)
}

/// What one more id adds to the ids that have a provider.
proof fn lemma_provided_push(peers: Map<PeerId, PeerContextView>, ids: Seq<BlockId>, id: BlockId)
    ensures
        provided(peers, ids.push(id)) == if has_provider(peers, id) {
            provided(peers, ids).push(id)
        } else {
            provided(peers, ids)
        },
{
    reveal(Seq::filter);
    assert(ids.push(id).drop_last() =~= ids);
}

impl SyncManager {
    /// The peers that are known to have the block with this id, each once,
    /// in the order in which the peer table hands them out.
    pub fn peers_knowing(&self, id: &BlockId) -> (r: Vec<PeerId>)
        ensures
            r@.no_duplicates(),
            r@.to_set() == providers_of(self@.peers, *id),
            r@.len() > 0 <==> has_provider(self@.peers, *id),
    {
        let keys = keys_of(&self.peers);
        let mut out: Vec<PeerId> = Vec::new();
        let mut i: usize = 0;
        proof {
            self.lemma_domains();
        }
        while i < keys.len()
            invariant
                i <= keys@.len(),
                keys@.no_duplicates(),
                self@.peers.dom() == self.peers@.dom(),
                forall|k: int| 0 <= k < keys@.len() ==> self.peers@.contains_key(#[trigger] keys@[k]),
                out@.no_duplicates(),
                forall|j: int|
                    0 <= j < out@.len() ==> exists|k: int|
                        0 <= k < i && keys@[k] == #[trigger] out@[j],
                forall|j: int|
                    0 <= j < out@.len() ==> self@.peers[#[trigger] out@[j]].known.contains(*id),
                forall|k: int|
                    0 <= k < i && self@.peers[#[trigger] keys@[k]].known.contains(*id)
                        ==> out@.contains(keys@[k]),
            decreases keys@.len() - i,
        {
            let key = keys[i];
            let ghost before = out@;
            match self.peers.get(&key) {
                Some(ctx) => {
                    assert(ctx@ == self@.peers[key]);
                    if ctx.knows(id) {
                        proof {
                            if before.contains(key) {
                                let j = choose|j: int| 0 <= j < before.len() && before[j] == key;
                                let k = choose|k: int| 0 <= k < i && keys@[k] == before[j];
                                assert(keys@[k] == keys@[i as int]);
                            }
                        }
                        out.push(key);
                        proof {
                            assert forall|j: int| 0 <= j < out@.len() implies exists|k: int|
                                0 <= k < i + 1 && keys@[k] == #[trigger] out@[j] by {
                                if j < before.len() {
                                    assert(out@[j] == before[j]);
                                    let k = choose|k: int| 0 <= k < i && keys@[k] == before[j];
                                    assert(keys@[k] == out@[j]);
                                } else {
                                    assert(keys@[i as int] == out@[j]);
                                }
                            }
                            assert forall|k: int|
                                0 <= k < i + 1 && self@.peers[#[trigger] keys@[k]].known.contains(
                                    *id,
                                ) implies out@.contains(keys@[k]) by {
                                if k < i {
                                    assert(before.contains(keys@[k]));
                                    let j = choose|j: int|
                                        0 <= j < before.len() && before[j] == keys@[k];
                                    assert(out@[j] == keys@[k]);
                                } else {
                                    assert(out@[before.len() as int] == keys@[k]);
                                }
                            }
                        }
                    }
                },
                None => {},
            }
            i = i + 1;
        }
        proof {
            let peers = self@.peers;
            assert forall|p: PeerId| out@.to_set().contains(p) == providers_of(peers, *id).contains(
                p,
            ) by {
                if out@.contains(p) {
                    let j = choose|j: int| 0 <= j < out@.len() && out@[j] == p;
                    let k = choose|k: int| 0 <= k < i && keys@[k] == out@[j];
                    assert(self.peers@.contains_key(keys@[k]));
                    assert(peers.dom().contains(p));
                }
                if peers.contains_key(p) && peers[p].known.contains(*id) {
                    assert(self.peers@.dom().contains(p));
                    assert(keys@.contains(p));
                    let k = choose|k: int| 0 <= k < keys@.len() && keys@[k] == p;
                    assert(out@.contains(keys@[k]));
                }
            }
            assert(out@.to_set() =~= providers_of(peers, *id));
            if out@.len() > 0 {
                assert(out@.to_set().contains(out@[0]));
                assert(peers.contains_key(out@[0]) && peers[out@[0]].known.contains(*id));
            }
            if has_provider(peers, *id) {
                let p = choose|p: PeerId|
                    peers.contains_key(p) && (#[trigger] peers[p]).known.contains(*id);
                assert(providers_of(peers, *id).contains(p));
                assert(out@.contains(p));
            }
        }
        out
    }

    /// The providers of the blocks with these ids: for each id that some
    /// peer is known to have, in the order of the ids, the peers that are
    /// known to have it.
    pub fn get_providers(&self, ids: &Vec<BlockId>) -> (r: Vec<Providers>)
        ensures
            is_provider_index(self@.peers, ids@, r@),
    {
        let mut out: Vec<Providers> = Vec::new();
        let mut i: usize = 0;
        proof {
            reveal(Seq::filter);
            assert(ids@.take(0) =~= Seq::<BlockId>::empty());
            assert(block_ids_of(out@) =~= provided(self@.peers, ids@.take(0)));
        }
        while i < ids.len()
            invariant
                i <= ids@.len(),
                is_provider_index(self@.peers, ids@.take(i as int), out@),
            decreases ids@.len() - i,
        {
            let ghost before = out@;
            let block_id = ids[i];
            let peers = self.peers_knowing(&block_id);
            proof {
                assert(ids@.take(i as int + 1) =~= ids@.take(i as int).push(block_id));
                lemma_provided_push(self@.peers, ids@.take(i as int), block_id);
            }
            if peers.len() > 0 {
                let entry = Providers { block_id, peers };
                out.push(entry);
                proof {
                    assert(block_ids_of(out@) =~= block_ids_of(before).push(block_id));
                    assert forall|j: int| 0 <= j < out@.len() implies (#[trigger] out@[j]).peers@.no_duplicates()
                        && out@[j].peers@.to_set() == providers_of(self@.peers, out@[j].block_id) by {
                        if j < before.len() {
                            assert(out@[j] == before[j]);
                        }
                    }
                }
            }
            i = i + 1;
        }
        assert(ids@.take(ids@.len() as int) =~= ids@);
        out
    }
}

} // verus!
