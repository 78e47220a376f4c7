//! The sync manager: the table of peers, the requests in flight and the
//! state of the node as a whole, driven one event at a time. Each handler
//! takes the local view of the chain as it stands and returns the one action
//! that the caller is to perform.

use crate::chain::block::{Block, BlockHeader, BlockHeaderView, BlockView};
use crate::error::ProtocolError;
use crate::primitives::BlockId;
use crate::sync::locator::ChainView;
use crate::sync::message::{
    Message, MessageType, MessageTypeView, MessageView, SyncingMessage, SyncingMessageView,
    SyncingRequest, SyncingRequestView, SyncingResponse, SyncingResponseView,
};
use crate::sync::peer::{PeerContext, PeerContextView, PeerSyncState, PeerSyncStateView};
use crate::sync::request::{
    has_request_for, one_request_per_peer, without_peer, PeerId, RequestId, RequestStateView,
    RequestTracker, RequestType, RequestTypeView,
};
use std::collections::HashMap;
use vstd::prelude::*;

verus! {

broadcast use vstd::std_specs::hash::group_hash_axioms;

/// State of the node as a whole.
#[derive(Clone, Copy, Debug, PartialEq, Eq, Structural)]
pub enum SyncState {
    /// No event has been handled yet.
    Uninitialized,
    /// A peer owes headers, or has declared a header that is not on the
    /// local main chain.
    DownloadingHeaders,
    /// A peer owes a block.
    DownloadingBlocks,
    /// Every peer is idle and has declared nothing beyond the local chain.
    Idle,
}

/// What an indexed block is.
pub struct IndexedBlockView {
    pub id: BlockId,
    pub block: BlockView,
}

/// A block together with the id that the hash of its header gives it.
#[derive(Debug, PartialEq, Eq)]
pub struct IndexedBlock {
    pub id: BlockId,
    pub block: Block,
}

impl View for IndexedBlock {
    type V = IndexedBlockView;

    open spec fn view(&self) -> IndexedBlockView {
        IndexedBlockView { id: self.id, block: self.block@ }
    }
}

impl Clone for IndexedBlock {
    fn clone(&self) -> (r: Self)
        ensures
            r@ == self@,
    {
        IndexedBlock { id: self.id, block: self.block.clone() }
    }
}

impl IndexedBlock {
    pub fn new(id: BlockId, block: Block) -> (r: IndexedBlock)
        ensures
            r.id == id,
            r.block == block,
    {
        IndexedBlock { id, block }
    }
}

/// The views of a list of indexed blocks, in order.
pub open spec fn indexed_blocks_view(s: Seq<IndexedBlock>) -> Seq<IndexedBlockView> {
    s.map_values(|b: IndexedBlock| b@)
}

/// What a request that waits to be sent is.
pub struct PendingSendView {
    pub peer_id: PeerId,
    pub message: MessageView,
    pub request_type: RequestTypeView,
    pub retry_count: u32,
}

/// A request that the caller is to send. Once the transport has given it an
/// id, it is handed back to `request_sent`.
#[derive(Debug, PartialEq, Eq)]
pub struct PendingSend {
    pub peer_id: PeerId,
    pub message: Message,
    pub request_type: RequestType,
    pub retry_count: u32,
}

impl View for PendingSend {
    type V = PendingSendView;

    open spec fn view(&self) -> PendingSendView {
        PendingSendView {
            peer_id: self.peer_id,
            message: self.message@,
            request_type: self.request_type@,
            retry_count: self.retry_count,
        }
    }
}

/// What an action is.
pub enum SyncActionView {
    Nothing,
    SendRequest(PendingSendView),
    SendResponse { request_id: RequestId, message: MessageView },
    ProcessBlock { peer_id: PeerId, block: IndexedBlockView },
    DropPeer { peer_id: PeerId, reason: Option<ProtocolError> },
    Shutdown,
}

/// What the caller is to do after an event has been handled.
#[derive(Debug, PartialEq, Eq)]
pub enum SyncAction {
    /// Nothing.
    Nothing,
    /// Send this request, then report the id it was given.
    SendRequest(PendingSend),
    /// Answer this request of a peer.
    SendResponse { request_id: RequestId, message: Message },
    /// Hand this block, which the peer sent, to block validation, then
    /// report the verdict.
    ProcessBlock { peer_id: PeerId, block: IndexedBlock },
    /// Close the connection to this peer, whose record is gone. With a
    /// reason, the peer has misbehaved and this is to be announced.
    DropPeer { peer_id: PeerId, reason: Option<ProtocolError> },
    /// Stop: the node cannot go on.
    Shutdown,
}

impl View for SyncAction {
    type V = SyncActionView;

    open spec fn view(&self) -> SyncActionView {
        match self {
            SyncAction::Nothing => SyncActionView::Nothing,
            SyncAction::SendRequest(p) => SyncActionView::SendRequest(p@),
            SyncAction::SendResponse { request_id, message } => SyncActionView::SendResponse {
                request_id: *request_id,
                message: message@,
            },
            SyncAction::ProcessBlock { peer_id, block } => SyncActionView::ProcessBlock {
                peer_id: *peer_id,
                block: block@,
            },
            SyncAction::DropPeer { peer_id, reason } => SyncActionView::DropPeer {
                peer_id: *peer_id,
                reason: *reason,
            },
            SyncAction::Shutdown => SyncActionView::Shutdown,
        }
    }
}

/// The message that asks for headers with this locator.
pub open spec fn header_request_message(magic: [u8; 4], locator: Seq<BlockId>) -> MessageView {
    MessageView {
        magic,
        msg: MessageTypeView::Syncing(
            SyncingMessageView::Request(SyncingRequestView::GetHeaders { locator }),
        ),
    }
}

/// The message that asks for the blocks with these ids.
pub open spec fn block_request_message(magic: [u8; 4], block_ids: Seq<BlockId>) -> MessageView {
    MessageView {
        magic,
        msg: MessageTypeView::Syncing(
            SyncingMessageView::Request(SyncingRequestView::GetBlocks { block_ids }),
        ),
    }
}

/// The message that answers with these headers.
pub open spec fn header_response_message(magic: [u8; 4], headers: Seq<BlockHeaderView>) -> MessageView {
    MessageView {
        magic,
        msg: MessageTypeView::Syncing(
            SyncingMessageView::Response(SyncingResponseView::Headers { headers }),
        ),
    }
}

/// The message that answers with these blocks.
pub open spec fn block_response_message(magic: [u8; 4], blocks: Seq<BlockView>) -> MessageView {
    MessageView {
        magic,
        msg: MessageTypeView::Syncing(
            SyncingMessageView::Response(SyncingResponseView::Blocks { blocks }),
        ),
    }
}

/// The request for headers that is owed to a peer, ready to be sent.
pub open spec fn header_request_send(
    magic: [u8; 4],
    peer_id: PeerId,
    locator: Seq<BlockId>,
    retry_count: u32,
) -> PendingSendView {
    PendingSendView {
        peer_id,
        message: header_request_message(magic, locator),
        request_type: RequestTypeView::GetHeaders,
        retry_count,
    }
}

/// The request for one block, ready to be sent.
pub open spec fn block_request_send(
    magic: [u8; 4],
    peer_id: PeerId,
    block_ids: Seq<BlockId>,
    retry_count: u32,
) -> PendingSendView {
    PendingSendView {
        peer_id,
        message: block_request_message(magic, block_ids),
        request_type: RequestTypeView::GetBlocks(block_ids),
        retry_count,
    }
}

/// Whether every peer is idle and has declared no header that is off the
/// local main chain.
pub open spec fn all_synced(peers: Map<PeerId, PeerContextView>, chain: ChainView) -> bool {
    forall|p: PeerId| #[trigger]
        peers.contains_key(p) ==> peers[p].state is Idle && (peers[p].best_known matches Some(b)
            ==> chain.on_main_chain(b))
}

/// Whether some peer owes a block.
pub open spec fn any_uploading_blocks(peers: Map<PeerId, PeerContextView>) -> bool {
    exists|p: PeerId| #[trigger] peers.contains_key(p) && peers[p].state is UploadingBlocks
}

/// The state of the node as a whole, given its peers and the local chain:
/// idle if and only if every peer is idle and every header that a peer has
/// declared is on the local main chain.
pub open spec fn global_state(peers: Map<PeerId, PeerContextView>, chain: ChainView) -> SyncState {
    if all_synced(peers, chain) {
        SyncState::Idle
    } else if any_uploading_blocks(peers) {
        SyncState::DownloadingBlocks
    } else {
        SyncState::DownloadingHeaders
    }
}

/// Whether every peer is idle.
pub open spec fn all_idle(peers: Map<PeerId, PeerContextView>) -> bool {
    forall|p: PeerId| #[trigger] peers.contains_key(p) ==> peers[p].state is Idle
}

/// The state of a node that gives a peer a record in this state. An idle
/// node stays idle only with an idle peer: it is downloading blocks when
/// the peer owes a block, and headers otherwise. A node that was not idle
/// stays as it was until its state is next brought up to date.
pub open spec fn state_with(state: SyncState, peer: PeerSyncStateView) -> SyncState {
    if state is Idle && !(peer is Idle) {
        if peer is UploadingBlocks {
            SyncState::DownloadingBlocks
        } else {
            SyncState::DownloadingHeaders
        }
    } else {
        state
    }
}

/// What the manager is.
pub struct SyncManagerView {
    pub magic: [u8; 4],
    pub state: SyncState,
    pub peers: Map<PeerId, PeerContextView>,
    pub requests: Map<RequestId, RequestStateView>,
    pub ibd_done: bool,
    pub announced: Seq<BlockId>,
    pub max_retries: u32,
}

impl SyncManagerView {
    /// No peer has two requests in flight, every request in flight was
    /// sent to a peer that has a record, no block was announced twice, and
    /// the node is idle only while every peer is.
    pub open spec fn wf(self) -> bool {
        &&& self.peers.dom().finite()
        &&& self.requests.dom().finite()
        &&& one_request_per_peer(self.requests)
        &&& forall|r: RequestId| #[trigger]
            self.requests.contains_key(r) ==> self.peers.contains_key(self.requests[r].peer_id)
        &&& self.announced.no_duplicates()
        &&& self.state is Idle ==> all_idle(self.peers)
    }

    /// The manager without this peer and without what was in flight to it.
    pub open spec fn drop_peer(self, peer_id: PeerId) -> SyncManagerView {
        SyncManagerView {
            peers: self.peers.remove(peer_id),
            requests: without_peer(self.requests, peer_id),
            ..self
        }
    }

    /// The manager with this record for this peer. A node that was idle
    /// is no longer so when the record is not idle.
    pub open spec fn set_peer(self, peer_id: PeerId, ctx: PeerContextView) -> SyncManagerView {
        SyncManagerView {
            peers: self.peers.insert(peer_id, ctx),
            state: state_with(self.state, ctx.state),
            ..self
        }
    }

    /// The manager after its state has been brought up to date with its
    /// peers and the chain. The first time the state is idle, the end of the
    /// initial block download is noted.
    pub open spec fn refresh(self, chain: ChainView) -> SyncManagerView {
        let state = global_state(self.peers, chain);
        SyncManagerView { state, ibd_done: self.ibd_done || state == SyncState::Idle, ..self }
    }

    /// Whether bringing the state up to date ends the initial block download.
    pub open spec fn refresh_ends_ibd(self, chain: ChainView) -> bool {
        !self.ibd_done && global_state(self.peers, chain) == SyncState::Idle
    }
}

/// The sync manager.
#[derive(Debug, PartialEq, Eq)]
pub struct SyncManager {
    /// The magic bytes of the chain.
    pub magic: [u8; 4],
    /// Syncing state of the local node
    pub state: SyncState,
    /// Connected peers
    pub peers: HashMap<PeerId, PeerContext>,
    /// Requests in flight
    pub requests: RequestTracker,
    /// Whether the end of the initial block download has been signalled.
    pub ibd_done: bool,
    /// The ids of the blocks that have been announced.
    pub announced: Vec<BlockId>,
}

impl View for SyncManager {
    type V = SyncManagerView;

    open spec fn view(&self) -> SyncManagerView {
        SyncManagerView {
            magic: self.magic,
            state: self.state,
            peers: self.peers@.map_values(|c: PeerContext| c@),
            requests: self.requests@,
            ibd_done: self.ibd_done,
            announced: self.announced@,
            max_retries: self.requests.max_retries,
        }
    }
}

impl SyncManager {
    /// The invariant of the manager.
    pub open spec fn wf(&self) -> bool {
        self@.wf() && self.requests.wf()
    }

    /// The maps of the model have the keys of the maps that are held.
    pub(crate) proof fn lemma_domains(&self)
        ensures
            self@.peers.dom() == self.peers@.dom(),
            self@.requests.dom() == self.requests.requests@.dom(),
            self@.peers.dom().finite(),
    {
        assert(self@.peers.dom() =~= self.peers@.dom());
        assert(self@.requests.dom() =~= self.requests.requests@.dom());
    }

    /// A manager without peers, for the chain with these magic bytes.
    pub fn new(magic: [u8; 4]) -> (r: SyncManager)
        ensures
            r.wf(),
            r@ == (SyncManagerView {
                magic,
                state: SyncState::Uninitialized,
                peers: Map::empty(),
                requests: Map::empty(),
                ibd_done: false,
                announced: Seq::empty(),
                max_retries: crate::sync::request::MAX_RETRIES,
            }),
    {
        let r = SyncManager {
            magic,
            state: SyncState::Uninitialized,
            peers: HashMap::new(),
            requests: RequestTracker::new(),
            ibd_done: false,
            announced: Vec::new(),
        };
        assert(r@.peers =~= Map::empty());
        r
    }

    /// The state of the node as a whole.
    pub fn state(&self) -> (r: &SyncState)
        ensures
            *r == self@.state,
    {
        &self.state
    }

    /// Whether the peer has a record.
    pub fn has_peer(&self, peer_id: PeerId) -> (r: bool)
        ensures
            r == self@.peers.contains_key(peer_id),
    {
        self.peers.contains_key(&peer_id)
    }

    /// The number of peers that have a record.
    pub fn peer_count(&self) -> (r: usize)
        ensures
            r == self@.peers.len(),
    {
        proof {
            assert(self@.peers.dom() =~= self.peers@.dom());
        }
        self.peers.len()
    }

    /// Make a block request message
    ///
    /// Return `GetBlocks` message and an associated `GetBlocks` request type entry
    /// that is used to track the progress of the request.
    pub fn make_block_request(&self, block_ids: Vec<BlockId>) -> (r: (Message, RequestType))
        ensures
            r.0@ == block_request_message(self.magic, block_ids@),
            r.1@ == RequestTypeView::GetBlocks(block_ids@),
    {
        let ids = crate::sync::message::clone_ids(&block_ids);
        (
            Message {
                magic: self.magic,
                msg: MessageType::Syncing(
                    SyncingMessage::Request(SyncingRequest::GetBlocks { block_ids: ids }),
                ),
            },
            RequestType::GetBlocks(block_ids),
        )
    }

    /// Make header request message
    ///
    /// Return `GetHeaders` message and an associated `GetHeaders` request type entry
    /// that is used to track the progress of the request.
    pub fn make_header_request(&self, locator: Vec<BlockId>) -> (r: (Message, RequestType))
        ensures
            r.0@ == header_request_message(self.magic, locator@),
            r.1@ == RequestTypeView::GetHeaders,
    {
        (
            Message {
                magic: self.magic,
                msg: MessageType::Syncing(
                    SyncingMessage::Request(SyncingRequest::GetHeaders { locator }),
                ),
            },
            RequestType::GetHeaders,
        )
    }

    /// Make header response
    pub fn make_header_response(&self, headers: Vec<BlockHeader>) -> (r: Message)
        ensures
            r@ == header_response_message(
                self.magic,
                crate::chain::block::block_headers_view(headers@),
            ),
    {
        Message {
            magic: self.magic,
            msg: MessageType::Syncing(SyncingMessage::Response(SyncingResponse::Headers { headers })),
        }
    }

    /// Make block response
    pub fn make_block_response(&self, blocks: Vec<Block>) -> (r: Message)
        ensures
            r@ == block_response_message(self.magic, crate::chain::block::blocks_view(blocks@)),
    {
        Message {
            magic: self.magic,
            msg: MessageType::Syncing(SyncingMessage::Response(SyncingResponse::Blocks { blocks })),
        }
    }

    /// Removes the record of a peer and whatever is in flight to it.
    pub fn unregister_peer(&mut self, peer_id: PeerId) -> (r: bool)
        requires
            old(self).wf(),
        ensures
            final(self).wf(),
            r == old(self)@.peers.contains_key(peer_id),
            final(self)@ == old(self)@.drop_peer(peer_id),
            final(self)@.state is Idle ==> all_idle(final(self)@.peers),
            !final(self)@.peers.contains_key(peer_id),
            !has_request_for(final(self)@.requests, peer_id),
    {
        let ghost before = self@;
        let removed = self.peers.remove(&peer_id);
        self.requests.remove_peer(peer_id);
        proof {
            self.lemma_domains();
            assert(self@.peers =~= before.peers.remove(peer_id));
            assert forall|r: RequestId| #[trigger] self@.requests.contains_key(r) implies self@.peers.contains_key(
                self@.requests[r].peer_id,
            ) by {
                assert(before.requests.contains_key(r));
                assert(before.requests[r].peer_id != peer_id);
            }
        }
        removed.is_some()
    }

    /// Puts a record in the place of the one that the peer has.
    pub(crate) fn put_peer(&mut self, peer_id: PeerId, ctx: PeerContext)
        requires
            old(self).wf(),
        ensures
            final(self).wf(),
            final(self)@ == old(self)@.set_peer(peer_id, ctx@),
    {
        let ghost before = self@;
        if self.state == SyncState::Idle {
            match ctx.state {
                PeerSyncState::Idle => {},
                PeerSyncState::UploadingBlocks(_) => {
                    self.state = SyncState::DownloadingBlocks;
                },
                _ => {
                    self.state = SyncState::DownloadingHeaders;
                },
            }
        }
        self.peers.insert(peer_id, ctx);
        proof {
            self.lemma_domains();
            assert(self@.peers =~= before.peers.insert(peer_id, ctx@));
            assert forall|r: RequestId| #[trigger] self@.requests.contains_key(r) implies self@.peers.contains_key(
                self@.requests[r].peer_id,
            ) by {
                assert(before.requests.contains_key(r));
            }
        }
    }

    /// A copy of the record of a peer.
    pub(crate) fn peer_copy(&self, peer_id: PeerId) -> (r: Option<PeerContext>)
        ensures
            match r {
                Some(c) => self@.peers.contains_key(peer_id) && c@ == self@.peers[peer_id],
                None => !self@.peers.contains_key(peer_id),
            },
    {
        match self.peers.get(&peer_id) {
            Some(c) => Some(c.clone()),
            None => None,
        }
    }
}

} // verus!
