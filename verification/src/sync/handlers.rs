//! What the sync manager does on each event. For every handler a spec
//! function says which manager and which action follow from the manager
//! before, the event and the local chain; the handler is proved to do
//! exactly that.

use crate::chain::block::{Block, BlockHeader, BlockHeaderView, BlockView};
use crate::error::{P2pError, PeerError, ProtocolError, StateName};
use crate::primitives::BlockId;
use crate::sync::locator::{headers_view, is_contiguous, ChainView, IndexedHeader, IndexedHeaderView};
use crate::sync::manager::{
    all_idle, all_synced, block_request_send, block_response_message, header_request_send,
    header_response_message, indexed_blocks_view, IndexedBlock, IndexedBlockView, PendingSend,
    PendingSendView, SyncAction, SyncActionView, SyncManager, SyncManagerView, SyncState,
};
use crate::sync::peer::{PeerContext, PeerContextView, PeerSyncState, PeerSyncStateView};
use crate::sync::request::{
    error_action, has_request_for, ErrorAction, ErrorActionView, PeerId,
    RequestId, RequestStateView, RequestType, RequestTypeView, TransportError,
};
use crate::sync::table::keys_of;
use vstd::prelude::*;

verus! {

broadcast use vstd::std_specs::hash::group_hash_axioms;

/// The record of a peer of which nothing has been asked yet.
pub open spec fn fresh_peer() -> PeerContextView {
    PeerContextView {
        state: PeerSyncStateView::Unknown,
        best_known: None,
        pending: Seq::empty(),
        known: Seq::empty(),
    }
}

/// What follows when a peer is to be sent a locator.
pub open spec fn spec_send_header_request(
    pre: SyncManagerView,
    peer_id: PeerId,
    locator: Seq<BlockId>,
    retry_count: u32,
) -> (SyncManagerView, Result<PendingSendView, P2pError>) {
    if pre.peers.contains_key(peer_id) {
        (
            pre.set_peer(peer_id, pre.peers[peer_id].after_header_request(locator)),
            Ok(header_request_send(pre.magic, peer_id, locator, retry_count)),
        )
    } else {
        (pre, Err(P2pError::PeerError(PeerError::PeerDoesntExist)))
    }
}

/// What follows when a peer is to be asked for a block.
pub open spec fn spec_send_block_request(
    pre: SyncManagerView,
    peer_id: PeerId,
    block_id: BlockId,
    retry_count: u32,
) -> (SyncManagerView, Result<PendingSendView, P2pError>) {
    if pre.peers.contains_key(peer_id) {
        (
            pre.set_peer(peer_id, pre.peers[peer_id].after_block_request(block_id)),
            Ok(block_request_send(pre.magic, peer_id, seq![block_id], retry_count)),
        )
    } else {
        (pre, Err(P2pError::PeerError(PeerError::PeerDoesntExist)))
    }
}

/// What follows when a peer connects: it gets a record and is sent the
/// locator of the local chain, unless it has a record already.
pub open spec fn spec_register_peer(pre: SyncManagerView, peer_id: PeerId, chain: ChainView) -> (
    SyncManagerView,
    Result<PendingSendView, P2pError>,
) {
    if pre.peers.contains_key(peer_id) {
        (pre, Err(P2pError::PeerError(PeerError::PeerAlreadyExists)))
    } else {
        (
            pre.set_peer(peer_id, fresh_peer().after_header_request(chain.spec_locator())),
            Ok(header_request_send(pre.magic, peer_id, chain.spec_locator(), 0)),
        )
    }
}

/// What follows when the transport has taken a request and given it an id:
/// the request is tracked, unless the peer has no record or another request
/// to it is in flight.
pub open spec fn spec_request_sent(
    pre: SyncManagerView,
    request_id: RequestId,
    peer_id: PeerId,
    request_type: RequestTypeView,
    retry_count: u32,
) -> (SyncManagerView, Result<(), P2pError>) {
    if !pre.peers.contains_key(peer_id) {
        (pre, Err(P2pError::PeerError(PeerError::PeerDoesntExist)))
    } else if has_request_for(pre.requests, peer_id) {
        (
            pre,
            Err(
                P2pError::ProtocolError(
                    ProtocolError::InvalidState(StateName::RequestInFlight, StateName::NoRequest),
                ),
            ),
        )
    } else {
        (
            SyncManagerView {
                requests: pre.requests.insert(
                    request_id,
                    RequestStateView { peer_id, request_type, retry_count },
                ),
                ..pre
            },
            Ok(()),
        )
    }
}

/// The headers of a list of indexed headers.
pub open spec fn plain_headers(s: Seq<IndexedHeaderView>) -> Seq<BlockHeaderView> {
    s.map_values(|h: IndexedHeaderView| h.header)
}

/// The ids of a list of indexed headers.
pub open spec fn header_ids(s: Seq<IndexedHeaderView>) -> Seq<BlockId> {
    s.map_values(|h: IndexedHeaderView| h.id)
}

/// What is answered to a peer that asks for headers: the headers of the
/// main chain above the first entry of its locator that is found there. A
/// peer without a record gets no answer.
pub open spec fn spec_header_request(
    pre: SyncManagerView,
    peer_id: PeerId,
    request_id: RequestId,
    locator: Seq<BlockId>,
    chain: ChainView,
) -> SyncActionView {
    if pre.peers.contains_key(peer_id) {
        SyncActionView::SendResponse {
            request_id,
            message: header_response_message(
                pre.magic,
                plain_headers(chain.spec_get_headers(locator)),
            ),
        }
    } else {
        SyncActionView::Nothing
    }
}

/// The blocks among `store` that `ids` ask for, in the order of `ids`; an
/// id that names no stored block gives nothing.
pub open spec fn blocks_found(store: Seq<IndexedBlockView>, ids: Seq<BlockId>) -> Seq<BlockView>
    decreases ids.len(),
{
    if ids.len() == 0 {
        Seq::empty()
    } else {
        let rest = blocks_found(store, ids.drop_last());
        match first_with_id(store, ids.last()) {
            Some(b) => rest.push(b),
            None => rest,
        }
    }
}

/// The first block of the store that has this id.
pub open spec fn first_with_id(store: Seq<IndexedBlockView>, id: BlockId) -> Option<BlockView>
    decreases store.len(),
{
    if store.len() == 0 {
        None
    } else if store[0].id == id {
        Some(store[0].block)
    } else {
        first_with_id(store.skip(1), id)
    }
}

/// What is answered to a peer that asks for blocks: those that are stored.
/// A peer without a record gets no answer.
pub open spec fn spec_block_request(
    pre: SyncManagerView,
    peer_id: PeerId,
    request_id: RequestId,
    block_ids: Seq<BlockId>,
    store: Seq<IndexedBlockView>,
) -> SyncActionView {
    if pre.peers.contains_key(peer_id) {
        SyncActionView::SendResponse {
            request_id,
            message: block_response_message(pre.magic, blocks_found(store, block_ids)),
        }
    } else {
        SyncActionView::Nothing
    }
}

/// What follows when a peer answers with headers.
///
/// A peer without a record is ignored. A peer that does not owe headers is
/// dropped, and so is one whose headers do not follow each other or do not
/// connect to a stored block. Otherwise the last header is what the peer
/// has declared; with nothing unknown among the headers the peer is idle,
/// else it is asked for the first unknown block and the others wait.
pub open spec fn spec_header_response(
    pre: SyncManagerView,
    peer_id: PeerId,
    headers: Seq<IndexedHeaderView>,
    chain: ChainView,
) -> (SyncManagerView, SyncActionView) {
    if !pre.peers.contains_key(peer_id) {
        (pre, SyncActionView::Nothing)
    } else if !(pre.peers[peer_id].state is UploadingHeaders) {
        (
            pre.drop_peer(peer_id),
            SyncActionView::DropPeer {
                peer_id,
                reason: Some(
                    ProtocolError::InvalidState(
                        pre.peers[peer_id].state.name(),
                        StateName::UploadingHeaders,
                    ),
                ),
            },
        )
    } else if !is_contiguous(headers) || chain.spec_filter_unknown(headers).is_none() {
        (
            pre.drop_peer(peer_id),
            SyncActionView::DropPeer { peer_id, reason: Some(ProtocolError::UnconnectedHeaders) },
        )
    } else {
        let unknown = header_ids(chain.spec_filter_unknown(headers).unwrap());
        let last = if headers.len() > 0 {
            Some(headers.last().id)
        } else {
            None
        };
        let known = if unknown.len() == 0 {
            seq![chain.spec_best_block_id()]
        } else {
            header_ids(headers)
        };
        (
            pre.set_peer(peer_id, pre.peers[peer_id].after_headers(last, unknown, known)),
            if unknown.len() == 0 {
                SyncActionView::Nothing
            } else {
                SyncActionView::SendRequest(
                    block_request_send(pre.magic, peer_id, seq![unknown[0]], 0),
                )
            },
        )
    }
}

/// What follows when a peer answers with blocks.
///
/// A peer without a record is ignored. The answer must be the one block
/// that the peer owes, and the block it builds on must be stored; else the
/// peer is dropped. The block is then to be validated.
pub open spec fn spec_block_response(
    pre: SyncManagerView,
    peer_id: PeerId,
    blocks: Seq<IndexedBlockView>,
    chain: ChainView,
) -> (SyncManagerView, SyncActionView) {
    if !pre.peers.contains_key(peer_id) {
        (pre, SyncActionView::Nothing)
    } else if blocks.len() != 1 || pre.peers[peer_id].state != PeerSyncStateView::UploadingBlocks(
        blocks[0].id,
    ) {
        (
            pre.drop_peer(peer_id),
            SyncActionView::DropPeer { peer_id, reason: Some(ProtocolError::UnexpectedBlock) },
        )
    } else if !chain.known(blocks[0].block.header().hash_prev_block) {
        (
            pre.drop_peer(peer_id),
            SyncActionView::DropPeer { peer_id, reason: Some(ProtocolError::InvalidBlock) },
        )
    } else {
        (pre, SyncActionView::ProcessBlock { peer_id, block: blocks[0] })
    }
}

/// What follows when block validation has judged the block that a peer sent.
///
/// Where the peer does not owe this block, nothing follows. A peer whose
/// block was rejected is dropped. After an accepted block the next block
/// that waits is asked for; where none waits, the peer is sent the locator
/// of the chain as it now stands, in case it has more.
pub open spec fn spec_block_processed(
    pre: SyncManagerView,
    peer_id: PeerId,
    block_id: BlockId,
    accepted: bool,
    chain: ChainView,
) -> (SyncManagerView, SyncActionView) {
    if !pre.peers.contains_key(peer_id) || pre.peers[peer_id].state
        != PeerSyncStateView::UploadingBlocks(block_id) {
        (pre, SyncActionView::Nothing)
    } else if !accepted {
        (
            pre.drop_peer(peer_id),
            SyncActionView::DropPeer { peer_id, reason: Some(ProtocolError::InvalidBlock) },
        )
    } else {
        let ctx = pre.peers[peer_id].after_block();
        match ctx.state {
            PeerSyncStateView::UploadingBlocks(next) => (
                pre.set_peer(peer_id, ctx),
                SyncActionView::SendRequest(block_request_send(pre.magic, peer_id, seq![next], 0)),
            ),
            _ => (
                pre.set_peer(peer_id, ctx.after_header_request(chain.spec_locator())),
                SyncActionView::SendRequest(
                    header_request_send(pre.magic, peer_id, chain.spec_locator(), 0),
                ),
            ),
        }
    }
}

/// Why a peer is dropped after this error of the transport, as far as the
/// peer is to blame.
pub open spec fn misbehaviour_of(err: TransportError) -> Option<ProtocolError> {
    match err {
        TransportError::Malformed => Some(ProtocolError::InvalidMessage),
        TransportError::WrongMagic => Some(ProtocolError::InvalidProtocol),
        TransportError::UnconnectedHeaders => Some(ProtocolError::UnconnectedHeaders),
        _ => None,
    }
}

/// What follows when the transport reports that a request failed.
///
/// A fatal error stops the node. An error of a request that is not tracked
/// is ignored. After a transient error the request is sent again, up to the
/// limit; beyond it, and after a protocol error, the peer is dropped.
pub open spec fn spec_error(pre: SyncManagerView, request_id: RequestId, err: TransportError) -> (
    SyncManagerView,
    SyncActionView,
) {
    let entry = if pre.requests.contains_key(request_id) {
        Some(pre.requests[request_id])
    } else {
        None
    };
    let untracked = SyncManagerView { requests: pre.requests.remove(request_id), ..pre };
    match error_action(entry, err, pre.max_retries) {
        ErrorActionView::Shutdown => (pre, SyncActionView::Shutdown),
        ErrorActionView::Ignore => (untracked, SyncActionView::Nothing),
        ErrorActionView::Disconnect { peer_id } => (
            untracked.drop_peer(peer_id),
            SyncActionView::DropPeer { peer_id, reason: misbehaviour_of(err) },
        ),
        ErrorActionView::Resend { peer_id, request_type, retry_count } => match request_type {
            RequestTypeView::GetBlocks(ids) => (
                untracked,
                SyncActionView::SendRequest(
                    block_request_send(pre.magic, peer_id, ids, retry_count),
                ),
            ),
            RequestTypeView::GetHeaders => match pre.peers[peer_id].state {
                PeerSyncStateView::UploadingHeaders(locator) => (
                    untracked,
                    SyncActionView::SendRequest(
                        header_request_send(pre.magic, peer_id, locator, retry_count),
                    ),
                ),
                other => (
                    untracked.drop_peer(peer_id),
                    SyncActionView::DropPeer {
                        peer_id,
                        reason: Some(
                            ProtocolError::InvalidState(other.name(), StateName::UploadingHeaders),
                        ),
                    },
                ),
            },
        },
    }
}

impl SyncManager {
    /// Send header request to remote peer
    ///
    /// Notes that the peer owes headers for this locator and returns the
    /// request to send. Fails with `PeerDoesntExist` where the peer has no
    /// record.
    pub fn send_header_request(&mut self, peer_id: PeerId, locator: Vec<BlockId>, retry_count: u32) -> (r:
        Result<PendingSend, P2pError>)
        requires
            old(self).wf(),
        ensures
            final(self).wf(),
            final(self)@ == spec_send_header_request(old(self)@, peer_id, locator@, retry_count).0,
            final(self)@.state is Idle ==> all_idle(final(self)@.peers),
            match r {
                Ok(p) => Ok::<PendingSendView, P2pError>(p@) == spec_send_header_request(
                    old(self)@,
                    peer_id,
                    locator@,
                    retry_count,
                ).1,
                Err(e) => Err::<PendingSendView, P2pError>(e) == spec_send_header_request(
                    old(self)@,
                    peer_id,
                    locator@,
                    retry_count,
                ).1,
            },
    {
        match self.peer_copy(peer_id) {
            None => Err(P2pError::PeerError(PeerError::PeerDoesntExist)),
            Some(mut ctx) => {
                let kept = crate::sync::message::clone_ids(&locator);
                let (message, request_type) = self.make_header_request(locator);
                ctx.set_header_request(kept);
                self.put_peer(peer_id, ctx);
                Ok(PendingSend { peer_id, message, request_type, retry_count })
            },
        }
    }

    /// Send block request to remote peer
    ///
    /// Notes that the peer owes this block and returns the request to send.
    /// Only one block is asked for at a time. Fails with `PeerDoesntExist`
    /// where the peer has no record.
    pub fn send_block_request(&mut self, peer_id: PeerId, block_id: BlockId, retry_count: u32) -> (r:
        Result<PendingSend, P2pError>)
        requires
            old(self).wf(),
        ensures
            final(self).wf(),
            final(self)@ == spec_send_block_request(old(self)@, peer_id, block_id, retry_count).0,
            final(self)@.state is Idle ==> all_idle(final(self)@.peers),
            match r {
                Ok(p) => Ok::<PendingSendView, P2pError>(p@) == spec_send_block_request(
                    old(self)@,
                    peer_id,
                    block_id,
                    retry_count,
                ).1,
                Err(e) => Err::<PendingSendView, P2pError>(e) == spec_send_block_request(
                    old(self)@,
                    peer_id,
                    block_id,
                    retry_count,
                ).1,
            },
    {
        match self.peer_copy(peer_id) {
            None => Err(P2pError::PeerError(PeerError::PeerDoesntExist)),
            Some(mut ctx) => {
                let mut ids: Vec<BlockId> = Vec::new();
                ids.push(block_id);
                assert(ids@ =~= seq![block_id]);
                let (message, request_type) = self.make_block_request(ids);
                ctx.set_block_request(block_id);
                self.put_peer(peer_id, ctx);
                Ok(PendingSend { peer_id, message, request_type, retry_count })
            },
        }
    }

    /// Send header response to remote peer
    pub fn send_header_response(&self, request_id: RequestId, headers: Vec<BlockHeader>) -> (r:
        SyncAction)
        ensures
            r@ == (SyncActionView::SendResponse {
                request_id,
                message: header_response_message(
                    self.magic,
                    crate::chain::block::block_headers_view(headers@),
                ),
            }),
    {
        SyncAction::SendResponse { request_id, message: self.make_header_response(headers) }
    }

    /// Send block response to remote peer
    pub fn send_block_response(&self, request_id: RequestId, blocks: Vec<Block>) -> (r: SyncAction)
        ensures
            r@ == (SyncActionView::SendResponse {
                request_id,
                message: block_response_message(
                    self.magic,
                    crate::chain::block::blocks_view(blocks@),
                ),
            }),
    {
        SyncAction::SendResponse { request_id, message: self.make_block_response(blocks) }
    }

    /// Gives a peer that has connected a record and returns the request for
    /// headers to send to it. Fails with `PeerAlreadyExists` where the peer
    /// has a record, and then changes nothing.
    pub fn register_peer(&mut self, peer_id: PeerId, chain: &ChainView) -> (r: Result<
        PendingSend,
        P2pError,
    >)
        requires
            old(self).wf(),
            chain.wf(),
        ensures
            final(self).wf(),
            final(self)@ == spec_register_peer(old(self)@, peer_id, *chain).0,
            final(self)@.state is Idle ==> all_idle(final(self)@.peers),
            match r {
                Ok(p) => Ok::<PendingSendView, P2pError>(p@) == spec_register_peer(
                    old(self)@,
                    peer_id,
                    *chain,
                ).1,
                Err(e) => Err::<PendingSendView, P2pError>(e) == spec_register_peer(
                    old(self)@,
                    peer_id,
                    *chain,
                ).1,
            },
    {
        if self.has_peer(peer_id) {
            return Err(P2pError::PeerError(PeerError::PeerAlreadyExists));
        }
        let ghost before = self@;
        self.put_peer(peer_id, PeerContext::new());
        let locator = chain.build_locator();
        let r = self.send_header_request(peer_id, locator, 0);
        proof {
            assert(self@.peers =~= before.peers.insert(
                peer_id,
                fresh_peer().after_header_request(chain.spec_locator()),
            ));
        }
        r
    }

    /// Starts to track a request that the transport has taken. Fails where
    /// the peer has no record or another request to it is in flight, and
    /// then changes nothing.
    pub fn request_sent(
        &mut self,
        request_id: RequestId,
        peer_id: PeerId,
        request_type: RequestType,
        retry_count: u32,
    ) -> (r: Result<(), P2pError>)
        requires
            old(self).wf(),
        ensures
            final(self).wf(),
            (final(self)@, r) == spec_request_sent(
                old(self)@,
                request_id,
                peer_id,
                request_type@,
                retry_count,
            ),
    {
        if !self.has_peer(peer_id) {
            return Err(P2pError::PeerError(PeerError::PeerDoesntExist));
        }
        let ghost before = self@;
        let r = self.requests.record_retry(request_id, peer_id, request_type, retry_count);
        proof {
            self.lemma_domains();
            assert(self@.peers =~= before.peers);
            match r {
                Ok(u) => {
                    assert(u == ());
                    assert(self@ == (SyncManagerView {
                        requests: before.requests.insert(
                            request_id,
                            RequestStateView { peer_id, request_type: request_type@, retry_count },
                        ),
                        ..before
                    }));
                },
                Err(_) => {
                    assert(self@ == before);
                },
            }
        }
        r
    }

    /// Answers a request for headers.
    pub fn process_header_request(
        &self,
        peer_id: PeerId,
        request_id: RequestId,
        locator: &Vec<BlockId>,
        chain: &ChainView,
    ) -> (r: SyncAction)
        requires
            chain.wf(),
        ensures
            r@ == spec_header_request(self@, peer_id, request_id, locator@, *chain),
    {
        if !self.has_peer(peer_id) {
            return SyncAction::Nothing;
        }
        let found = chain.get_headers(locator);
        let mut headers: Vec<BlockHeader> = Vec::new();
        let mut i: usize = 0;
        while i < found.len()
            invariant
                i <= found@.len(),
                headers@.len() == i,
                forall|k: int| 0 <= k < i ==> (#[trigger] headers@[k])@ == found@[k]@.header,
            decreases found@.len() - i,
        {
            headers.push(found[i].header.clone());
            i = i + 1;
        }
        assert(crate::chain::block::block_headers_view(headers@) =~= plain_headers(
            headers_view(found@),
        ));
        self.send_header_response(request_id, headers)
    }

    /// Answers a request for blocks with those of them that are stored.
    pub fn process_block_request(
        &self,
        peer_id: PeerId,
        request_id: RequestId,
        block_ids: &Vec<BlockId>,
        store: &Vec<IndexedBlock>,
    ) -> (r: SyncAction)
        ensures
            r@ == spec_block_request(
                self@,
                peer_id,
                request_id,
                block_ids@,
                indexed_blocks_view(store@),
            ),
    {
        if !self.has_peer(peer_id) {
            return SyncAction::Nothing;
        }
        let ghost sv = indexed_blocks_view(store@);
        let mut blocks: Vec<Block> = Vec::new();
        let mut i: usize = 0;
        assert(block_ids@.take(0) =~= Seq::<BlockId>::empty());
        assert(crate::chain::block::blocks_view(blocks@) =~= Seq::<BlockView>::empty());
        while i < block_ids.len()
            invariant
                i <= block_ids@.len(),
                sv == indexed_blocks_view(store@),
                crate::chain::block::blocks_view(blocks@) == blocks_found(sv, block_ids@.take(i as int)),
            decreases block_ids@.len() - i,
        {
            let ghost before = crate::chain::block::blocks_view(blocks@);
            let found = find_block(store, &block_ids[i]);
            proof {
                let ids = block_ids@.take(i as int + 1);
                assert(ids.drop_last() =~= block_ids@.take(i as int));
                assert(ids.last() == block_ids@[i as int]);
            }
            match found {
                Some(b) => {
                    blocks.push(b);
                    assert(crate::chain::block::blocks_view(blocks@) =~= before.push(b@));
                },
                None => {},
            }
            i = i + 1;
        }
        assert(block_ids@.take(block_ids@.len() as int) =~= block_ids@);
        self.send_block_response(request_id, blocks)
    }

    /// Handles the headers that a peer has sent in answer to a locator.
    pub fn process_header_response(
        &mut self,
        peer_id: PeerId,
        headers: &Vec<IndexedHeader>,
        chain: &ChainView,
    ) -> (r: SyncAction)
        requires
            old(self).wf(),
            chain.wf(),
        ensures
            final(self).wf(),
            (final(self)@, r@) == spec_header_response(
                old(self)@,
                peer_id,
                headers_view(headers@),
                *chain,
            ),
    {
        let ghost hv = headers_view(headers@);
        let mut ctx = match self.peer_copy(peer_id) {
            None => {
                return SyncAction::Nothing;
            },
            Some(ctx) => ctx,
        };
        match ctx.state {
            PeerSyncState::UploadingHeaders(_) => {},
            _ => {
                let got = ctx.state.name();
                self.unregister_peer(peer_id);
                return SyncAction::DropPeer {
                    peer_id,
                    reason: Some(ProtocolError::InvalidState(got, StateName::UploadingHeaders)),
                };
            },
        }
        if !all_follow(headers) {
            self.unregister_peer(peer_id);
            return SyncAction::DropPeer {
                peer_id,
                reason: Some(ProtocolError::UnconnectedHeaders),
            };
        }
        let unknown = match chain.filter_unknown(headers) {
            Err(_) => {
                self.unregister_peer(peer_id);
                return SyncAction::DropPeer {
                    peer_id,
                    reason: Some(ProtocolError::UnconnectedHeaders),
                };
            },
            Ok(unknown) => unknown,
        };
        let mut ids: Vec<BlockId> = Vec::new();
        let mut i: usize = 0;
        while i < unknown.len()
            invariant
                i <= unknown@.len(),
                ids@.len() == i,
                forall|k: int| 0 <= k < i ==> #[trigger] ids@[k] == unknown@[k].id,
            decreases unknown@.len() - i,
        {
            ids.push(unknown[i].id);
            i = i + 1;
        }
        assert(ids@ =~= header_ids(headers_view(unknown@)));
        let last = if headers.len() > 0 {
            Some(headers[headers.len() - 1].id)
        } else {
            None
        };
        let mut known: Vec<BlockId> = Vec::new();
        if ids.len() == 0 {
            known.push(chain.best_block_id());
            assert(known@ =~= seq![chain.spec_best_block_id()]);
        } else {
            let mut k: usize = 0;
            while k < headers.len()
                invariant
                    k <= headers@.len(),
                    known@.len() == k,
                    forall|j: int| 0 <= j < k ==> #[trigger] known@[j] == headers@[j].id,
                decreases headers@.len() - k,
            {
                known.push(headers[k].id);
                k = k + 1;
            }
            assert(known@ =~= header_ids(hv));
        }
        let next = ctx.set_headers(last, ids, known);
        self.put_peer(peer_id, ctx);
        match next {
            None => SyncAction::Nothing,
            Some(id) => {
                let mut one: Vec<BlockId> = Vec::new();
                one.push(id);
                assert(one@ =~= seq![id]);
                let (message, request_type) = self.make_block_request(one);
                SyncAction::SendRequest(PendingSend { peer_id, message, request_type, retry_count: 0 })
            },
        }
    }

    /// Handles the blocks that a peer has sent in answer to a request.
    pub fn process_block_response(
        &mut self,
        peer_id: PeerId,
        blocks: Vec<IndexedBlock>,
        chain: &ChainView,
    ) -> (r: SyncAction)
        requires
            old(self).wf(),
            chain.wf(),
        ensures
            final(self).wf(),
            (final(self)@, r@) == spec_block_response(
                old(self)@,
                peer_id,
                indexed_blocks_view(blocks@),
                *chain,
            ),
    {
        let mut blocks = blocks;
        let ghost bv = indexed_blocks_view(blocks@);
        let ctx = match self.peer_copy(peer_id) {
            None => {
                return SyncAction::Nothing;
            },
            Some(ctx) => ctx,
        };
        if blocks.len() != 1 {
            self.unregister_peer(peer_id);
            return SyncAction::DropPeer { peer_id, reason: Some(ProtocolError::UnexpectedBlock) };
        }
        assert(bv[0] == blocks@[0]@);
        if ctx.expects_block(&blocks[0].id).is_err() {
            self.unregister_peer(peer_id);
            return SyncAction::DropPeer { peer_id, reason: Some(ProtocolError::UnexpectedBlock) };
        }
        let prev = blocks[0].block.prev_block_id();
        if !chain.contains(&prev) {
            self.unregister_peer(peer_id);
            return SyncAction::DropPeer { peer_id, reason: Some(ProtocolError::InvalidBlock) };
        }
        let block = blocks.remove(0);
        SyncAction::ProcessBlock { peer_id, block }
    }

    /// Takes the verdict of block validation on the block that a peer sent,
    /// without bringing the state of the node up to date.
    pub fn process_block_verdict(
        &mut self,
        peer_id: PeerId,
        block_id: BlockId,
        accepted: bool,
        chain: &ChainView,
    ) -> (r: SyncAction)
        requires
            old(self).wf(),
            chain.wf(),
        ensures
            final(self).wf(),
            (final(self)@, r@) == spec_block_processed(
                old(self)@,
                peer_id,
                block_id,
                accepted,
                *chain,
            ),
    {
        let mut ctx = match self.peer_copy(peer_id) {
            None => {
                return SyncAction::Nothing;
            },
            Some(ctx) => ctx,
        };
        if ctx.expects_block(&block_id).is_err() {
            return SyncAction::Nothing;
        }
        if !accepted {
            self.unregister_peer(peer_id);
            return SyncAction::DropPeer { peer_id, reason: Some(ProtocolError::InvalidBlock) };
        }
        match ctx.set_block_done() {
            Some(next) => {
                self.put_peer(peer_id, ctx);
                let mut one: Vec<BlockId> = Vec::new();
                one.push(next);
                assert(one@ =~= seq![next]);
                let (message, request_type) = self.make_block_request(one);
                SyncAction::SendRequest(PendingSend { peer_id, message, request_type, retry_count: 0 })
            },
            None => {
                let locator = chain.build_locator();
                let kept = crate::sync::message::clone_ids(&locator);
                ctx.set_header_request(kept);
                self.put_peer(peer_id, ctx);
                let (message, request_type) = self.make_header_request(locator);
                SyncAction::SendRequest(PendingSend { peer_id, message, request_type, retry_count: 0 })
            },
        }
    }

    /// Handles the failure of a request.
    pub fn process_error(&mut self, request_id: RequestId, err: TransportError) -> (r: SyncAction)
        requires
            old(self).wf(),
        ensures
            final(self).wf(),
            (final(self)@, r@) == spec_error(old(self)@, request_id, err),
    {
        let ghost before = self@;
        let action = self.requests.on_error(request_id, err);
        proof {
            self.lemma_domains();
            assert(self@.peers =~= before.peers);
            assert forall|r: RequestId| #[trigger] self@.requests.contains_key(r) implies self@.peers.contains_key(
                self@.requests[r].peer_id,
            ) by {
                assert(before.requests.contains_key(r));
            }
        }
        match action {
            ErrorAction::Shutdown => SyncAction::Shutdown,
            ErrorAction::Ignore => SyncAction::Nothing,
            ErrorAction::Disconnect { peer_id } => {
                self.unregister_peer(peer_id);
                SyncAction::DropPeer { peer_id, reason: blame(err) }
            },
            ErrorAction::Resend { peer_id, request_type, retry_count } => match request_type {
                RequestType::GetBlocks(ids) => {
                    let (message, request_type) = self.make_block_request(ids);
                    SyncAction::SendRequest(
                        PendingSend { peer_id, message, request_type, retry_count },
                    )
                },
                RequestType::GetHeaders => {
                    let ctx = self.peer_copy(peer_id);
                    assert(before.peers.contains_key(peer_id));
                    match ctx {
                        Some(PeerContext { state: PeerSyncState::UploadingHeaders(locator), .. }) => {
                            let (message, request_type) = self.make_header_request(locator);
                            SyncAction::SendRequest(
                                PendingSend { peer_id, message, request_type, retry_count },
                            )
                        },
                        Some(other) => {
                            let got = other.state.name();
                            self.unregister_peer(peer_id);
                            SyncAction::DropPeer {
                                peer_id,
                                reason: Some(
                                    ProtocolError::InvalidState(got, StateName::UploadingHeaders),
                                ),
                            }
                        },
                        None => SyncAction::Nothing,
                    }
                },
            },
        }
    }

    /// Brings the state of the node up to date with its peers and the local
    /// chain. Returns whether the end of the initial block download is to be
    /// signalled, which happens once: the first time the state is idle.
    ///
    /// The state is idle if and only if every peer is idle and every header
    /// that a peer has declared is on the local main chain.
    pub fn check_state(&mut self, chain: &ChainView) -> (r: bool)
        requires
            old(self).wf(),
        ensures
            final(self).wf(),
            final(self)@ == old(self)@.refresh(*chain),
            r == old(self)@.refresh_ends_ibd(*chain),
            final(self)@.state == SyncState::Idle ==> all_synced(final(self)@.peers, *chain),
    {
        let keys = keys_of(&self.peers);
        let mut synced = true;
        let mut blocks = false;
        let mut i: usize = 0;
        proof {
            self.lemma_domains();
        }
        while i < keys.len()
            invariant
                i <= keys@.len(),
                forall|k: int| 0 <= k < keys@.len() ==> self@.peers.contains_key(#[trigger] keys@[k]),
                synced == forall|k: int|
                    0 <= k < i ==> self@.peers[#[trigger] keys@[k]].state is Idle && (
                    self@.peers[keys@[k]].best_known matches Some(b) ==> chain.on_main_chain(b)),
                blocks == exists|k: int|
                    0 <= k < i && self@.peers[#[trigger] keys@[k]].state is UploadingBlocks,
            decreases keys@.len() - i,
        {
            let k = keys[i];
            match self.peers.get(&k) {
                Some(ctx) => {
                    let on_chain = match ctx.best_known {
                        Some(b) => chain.main_chain_height(&b).is_some(),
                        None => true,
                    };
                    if !(ctx.is_idle() && on_chain) {
                        synced = false;
                    }
                    match ctx.state {
                        PeerSyncState::UploadingBlocks(_) => {
                            blocks = true;
                        },
                        _ => {},
                    }
                },
                None => {},
            }
            i = i + 1;
        }
        proof {
            let peers = self@.peers;
            if synced {
                assert forall|p: PeerId| #[trigger] peers.contains_key(p) implies peers[p].state is Idle
                    && (peers[p].best_known matches Some(b) ==> chain.on_main_chain(b)) by {
                    assert(keys@.contains(p));
                    let k = choose|k: int| 0 <= k < keys@.len() && keys@[k] == p;
                    assert(peers[keys@[k]].state is Idle);
                }
            } else {
                let k = choose|k: int|
                    0 <= k < keys@.len() && !(self@.peers[#[trigger] keys@[k]].state is Idle && (
                    self@.peers[keys@[k]].best_known matches Some(b) ==> chain.on_main_chain(b)));
                assert(peers.contains_key(keys@[k]));
            }
            if blocks {
                let k = choose|k: int|
                    0 <= k < keys@.len() && self@.peers[#[trigger] keys@[k]].state is UploadingBlocks;
                assert(peers.contains_key(keys@[k]));
            } else {
                assert forall|p: PeerId| #[trigger] peers.contains_key(p) implies !(
                peers[p].state is UploadingBlocks) by {
                    assert(keys@.contains(p));
                    let k = choose|k: int| 0 <= k < keys@.len() && keys@[k] == p;
                    assert(!(peers[keys@[k]].state is UploadingBlocks));
                }
            }
        }
        let state = if synced {
            SyncState::Idle
        } else if blocks {
            SyncState::DownloadingBlocks
        } else {
            SyncState::DownloadingHeaders
        };
        let ends = state == SyncState::Idle && !self.ibd_done;
        self.state = state;
        if ends {
            self.ibd_done = true;
        }
        proof {
            self.lemma_domains();
            assert(self@.peers =~= old(self)@.peers);
        }
        ends
    }
}

/// Why a peer is dropped after this error of the transport, as far as the
/// peer is to blame.
pub fn blame(err: TransportError) -> (r: Option<ProtocolError>)
    ensures
        r == misbehaviour_of(err),
{
    match err {
        TransportError::Malformed => Some(ProtocolError::InvalidMessage),
        TransportError::WrongMagic => Some(ProtocolError::InvalidProtocol),
        TransportError::UnconnectedHeaders => Some(ProtocolError::UnconnectedHeaders),
        _ => None,
    }
}

/// Whether each header of the list but the first builds on the one before it.
pub fn all_follow(headers: &Vec<IndexedHeader>) -> (r: bool)
    ensures
        r == is_contiguous(headers_view(headers@)),
{
    let mut i: usize = 1;
    while i < headers.len()
        invariant
            1 <= i,
            forall|k: int|
                1 <= k < i && k < headers@.len() ==> (#[trigger] headers_view(
                    headers@,
                )[k]).header.hash_prev_block == headers_view(headers@)[k - 1].id,
        decreases headers@.len() - i,
    {
        if headers[i].header.hash_prev_block != headers[i - 1].id {
            assert(headers_view(headers@)[i as int].header.hash_prev_block != headers_view(
                headers@,
            )[i as int - 1].id);
            return false;
        }
        i = i + 1;
    }
    true
}

/// A copy of the first stored block that has this id.
pub fn find_block(store: &Vec<IndexedBlock>, id: &BlockId) -> (r: Option<Block>)
    ensures
        match r {
            Some(b) => first_with_id(indexed_blocks_view(store@), *id) == Some(b@),
            None => first_with_id(indexed_blocks_view(store@), *id).is_none(),
        },
{
    let ghost sv = indexed_blocks_view(store@);
    let mut i: usize = 0;
    assert(sv.skip(0) =~= sv);
    while i < store.len()
        invariant
            i <= store@.len(),
            sv == indexed_blocks_view(store@),
            first_with_id(sv, *id) == first_with_id(sv.skip(i as int), *id),
        decreases store@.len() - i,
    {
        proof {
            let s = sv.skip(i as int);
            assert(s[0] == store@[i as int]@);
            assert(s.skip(1) =~= sv.skip(i as int + 1));
        }
        if store[i].id == *id {
            return Some(store[i].block.clone());
        }
        i = i + 1;
    }
    None
}

} // verus!
