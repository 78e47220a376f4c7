//! The three streams of events that the manager consumes, and the rule
//! that decides when blocks are announced. Every handler ends by bringing the state
//! of the node up to date, so that the state is idle only while every peer
//! is idle and has declared nothing beyond the local chain.

use crate::chain::block::Block;
use crate::error::ProtocolError;
use crate::primitives::BlockId;
use crate::sync::handlers::{
    spec_block_processed, spec_block_request, spec_block_response, spec_error,
    spec_header_request, spec_header_response, spec_register_peer,
};
use crate::sync::locator::{headers_view, ChainView, IndexedHeader, IndexedHeaderView};
use crate::sync::manager::{
    all_synced, block_response_message, indexed_blocks_view, IndexedBlock, IndexedBlockView,
    SyncAction, SyncActionView, SyncManager, SyncManagerView, SyncState,
};
use crate::sync::message::{
    Message, MessageType, MessageTypeView, MessageView, PubSubMessage, PubSubMessageView,
    PubSubTopic,
};
use crate::sync::peer::PeerSyncStateView;
use crate::sync::request::{
    PeerId, RequestId, RequestTypeView, TransportError,
};
use vstd::prelude::*;

verus! {

broadcast use vstd::std_specs::hash::group_hash_axioms;

/// What the connectivity layer reports.
#[derive(Clone, Copy, Debug, PartialEq, Eq, Structural)]
pub enum SyncControlEvent {
    /// A connection to the peer stands.
    Connected { peer_id: PeerId },
    /// The connection to the peer is gone.
    Disconnected { peer_id: PeerId },
}

/// What a peer event is.
pub enum PeerSyncEventView {
    GetHeaders { peer_id: PeerId, request_id: RequestId, locator: Seq<BlockId> },
    GetBlocks { peer_id: PeerId, request_id: RequestId, block_ids: Seq<BlockId> },
    Headers { peer_id: PeerId, request_id: RequestId, headers: Seq<IndexedHeaderView> },
    Blocks { peer_id: PeerId, request_id: RequestId, blocks: Seq<IndexedBlockView> },
    Error { peer_id: PeerId, request_id: RequestId, error: TransportError },
}

/// What the request and response transport reports.
#[derive(Debug, PartialEq, Eq)]
pub enum PeerSyncEvent {
    /// The peer asks for headers.
    GetHeaders { peer_id: PeerId, request_id: RequestId, locator: Vec<BlockId> },
    /// The peer asks for blocks.
    GetBlocks { peer_id: PeerId, request_id: RequestId, block_ids: Vec<BlockId> },
    /// The peer answers a request with headers.
    Headers { peer_id: PeerId, request_id: RequestId, headers: Vec<IndexedHeader> },
    /// The peer answers a request with blocks.
    Blocks { peer_id: PeerId, request_id: RequestId, blocks: Vec<IndexedBlock> },
    /// A request to the peer failed.
    Error { peer_id: PeerId, request_id: RequestId, error: TransportError },
}

impl View for PeerSyncEvent {
    type V = PeerSyncEventView;

    open spec fn view(&self) -> PeerSyncEventView {
        match self {
            PeerSyncEvent::GetHeaders { peer_id, request_id, locator } => PeerSyncEventView::GetHeaders {
                peer_id: *peer_id,
                request_id: *request_id,
                locator: locator@,
            },
            PeerSyncEvent::GetBlocks { peer_id, request_id, block_ids } => PeerSyncEventView::GetBlocks {
                peer_id: *peer_id,
                request_id: *request_id,
                block_ids: block_ids@,
            },
            PeerSyncEvent::Headers { peer_id, request_id, headers } => PeerSyncEventView::Headers {
                peer_id: *peer_id,
                request_id: *request_id,
                headers: headers_view(headers@),
            },
            PeerSyncEvent::Blocks { peer_id, request_id, blocks } => PeerSyncEventView::Blocks {
                peer_id: *peer_id,
                request_id: *request_id,
                blocks: indexed_blocks_view(blocks@),
            },
            PeerSyncEvent::Error { peer_id, request_id, error } => PeerSyncEventView::Error {
                peer_id: *peer_id,
                request_id: *request_id,
                error: *error,
            },
        }
    }
}

/// What the publish and subscribe layer reports: a message that a peer has
/// published on a topic, with the id of the block where it holds one.
#[derive(Debug, PartialEq, Eq)]
pub struct FloodsubEvent {
    pub peer_id: PeerId,
    pub topic: PubSubTopic,
    pub message: Message,
    pub block_id: BlockId,
}

/// Where a validated block came from.
#[derive(Clone, Copy, Debug, PartialEq, Eq, Structural)]
pub enum BlockSource {
    /// A peer sent it in answer to a request.
    Peer,
    /// It was produced by this node.
    Local,
    /// A peer published it.
    PubSub,
}

/// What follows when the connectivity layer reports, before the state is
/// brought up to date: a peer that connects is registered and sent a
/// locator; one that disconnects loses its record.
pub open spec fn spec_sync_event(pre: SyncManagerView, event: SyncControlEvent, chain: ChainView) -> (
    SyncManagerView,
    SyncActionView,
) {
    match event {
        SyncControlEvent::Connected { peer_id } => (
            spec_register_peer(pre, peer_id, chain).0,
            match spec_register_peer(pre, peer_id, chain).1 {
                Ok(p) => SyncActionView::SendRequest(p),
                Err(_) => SyncActionView::Nothing,
            },
        ),
        SyncControlEvent::Disconnected { peer_id } => (
            pre.drop_peer(peer_id),
            SyncActionView::Nothing,
        ),
    }
}

/// What follows when an answer arrives, before the state is brought up to
/// date. An answer to a request that is not tracked is ignored. If the
/// request was sent to another peer or asked for something else, the sender
/// is dropped, with what was in flight to it: a request that was sent to
/// another peer stays in the tracker and waits for that peer's answer. Else
/// the request leaves the tracker and the answer is handled.
pub open spec fn spec_response(
    pre: SyncManagerView,
    peer_id: PeerId,
    request_id: RequestId,
    headers: Option<Seq<IndexedHeaderView>>,
    blocks: Option<Seq<IndexedBlockView>>,
    chain: ChainView,
) -> (SyncManagerView, SyncActionView) {
    if !pre.requests.contains_key(request_id) {
        (pre, SyncActionView::Nothing)
    } else {
        let entry = pre.requests[request_id];
        let untracked = SyncManagerView { requests: pre.requests.remove(request_id), ..pre };
        let fits = entry.peer_id == peer_id && match entry.request_type {
            RequestTypeView::GetHeaders => headers.is_some(),
            RequestTypeView::GetBlocks(_) => blocks.is_some(),
        };
        if !fits {
            (
                pre.drop_peer(peer_id),
                SyncActionView::DropPeer { peer_id, reason: Some(ProtocolError::InvalidMessage) },
            )
        } else if headers.is_some() {
            spec_header_response(untracked, peer_id, headers.unwrap(), chain)
        } else {
            spec_block_response(untracked, peer_id, blocks.unwrap(), chain)
        }
    }
}

/// What follows when the transport reports, before the state is brought up
/// to date.
pub open spec fn spec_peer_event(
    pre: SyncManagerView,
    event: PeerSyncEventView,
    chain: ChainView,
    store: Seq<IndexedBlockView>,
) -> (SyncManagerView, SyncActionView) {
    match event {
        PeerSyncEventView::GetHeaders { peer_id, request_id, locator } => (
            pre,
            spec_header_request(pre, peer_id, request_id, locator, chain),
        ),
        PeerSyncEventView::GetBlocks { peer_id, request_id, block_ids } => (
            pre,
            spec_block_request(pre, peer_id, request_id, block_ids, store),
        ),
        PeerSyncEventView::Headers { peer_id, request_id, headers } => spec_response(
            pre,
            peer_id,
            request_id,
            Some(headers),
            None,
            chain,
        ),
        PeerSyncEventView::Blocks { peer_id, request_id, blocks } => spec_response(
            pre,
            peer_id,
            request_id,
            None,
            Some(blocks),
            chain,
        ),
        PeerSyncEventView::Error { peer_id, request_id, error } => spec_error(pre, request_id, error),
    }
}

/// What follows when a peer has published a message: a block on the block
/// topic is to be validated; anything else is passed over.
pub open spec fn spec_floodsub_event(
    peer_id: PeerId,
    topic: PubSubTopic,
    message: MessageView,
    block_id: BlockId,
) -> SyncActionView {
    match (topic, message.msg) {
        (
            PubSubTopic::Blocks,
            MessageTypeView::PubSub(PubSubMessageView::Block(block)),
        ) => SyncActionView::ProcessBlock {
            peer_id,
            block: IndexedBlockView { id: block_id, block },
        },
        _ => SyncActionView::Nothing,
    }
}

/// Whether a validated block is to be published: only once the initial
/// block download has ended, never a block that came in by publication, and
/// no block twice.
pub open spec fn spec_should_announce(pre: SyncManagerView, block_id: BlockId, source: BlockSource) -> bool {
    pre.ibd_done && source != BlockSource::PubSub && !pre.announced.contains(block_id)
}

impl SyncManager {
    /// Handle control-related sync event from the connectivity layer
    ///
    /// Returns the action to perform and whether the end of the initial
    /// block download is to be signalled.
    pub fn on_sync_event(&mut self, event: SyncControlEvent, chain: &ChainView) -> (r: (
        SyncAction,
        bool,
    ))
        requires
            old(self).wf(),
            chain.wf(),
        ensures
            final(self).wf(),
            final(self)@ == spec_sync_event(old(self)@, event, *chain).0.refresh(*chain),
            r.0@ == spec_sync_event(old(self)@, event, *chain).1,
            r.1 == spec_sync_event(old(self)@, event, *chain).0.refresh_ends_ibd(*chain),
            final(self)@.state == SyncState::Idle ==> all_synced(final(self)@.peers, *chain),
    {
        let action = match event {
            SyncControlEvent::Connected { peer_id } => match self.register_peer(peer_id, chain) {
                Ok(p) => SyncAction::SendRequest(p),
                Err(_) => SyncAction::Nothing,
            },
            SyncControlEvent::Disconnected { peer_id } => {
                self.unregister_peer(peer_id);
                SyncAction::Nothing
            },
        };
        let ends = self.check_state(chain);
        (action, ends)
    }

    /// Says whether an answer fits the request that it names, and takes
    /// the request out of the tracker if it does.
    fn take_request(&mut self, peer_id: PeerId, request_id: RequestId, is_headers: bool) -> (r: Option<
        bool,
    >)
        requires
            old(self).wf(),
        ensures
            final(self).wf(),
            match r {
                None => !old(self)@.requests.contains_key(request_id) && final(self)@ == old(self)@,
                Some(fits) => {
                    &&& old(self)@.requests.contains_key(request_id)
                    &&& fits == (old(self)@.requests[request_id].peer_id == peer_id
                        && match old(self)@.requests[request_id].request_type {
                        RequestTypeView::GetHeaders => is_headers,
                        RequestTypeView::GetBlocks(_) => !is_headers,
                    })
                    &&& final(self)@ == if fits {
                        SyncManagerView {
                            requests: old(self)@.requests.remove(request_id),
                            ..old(self)@
                        }
                    } else {
                        old(self)@
                    }
                },
            },
    {
        let ghost before = self@;
        let fits = match self.requests.requests.get(&request_id) {
            None => {
                return None;
            },
            Some(entry) => {
                let kind_fits = match entry.request_type {
                    crate::sync::request::RequestType::GetHeaders => is_headers,
                    crate::sync::request::RequestType::GetBlocks(_) => !is_headers,
                };
                entry.peer_id == peer_id && kind_fits
            },
        };
        if fits {
            let _ = self.requests.on_response(request_id);
            proof {
                self.lemma_domains();
                assert(self@.peers =~= before.peers);
                assert forall|r: RequestId| #[trigger] self@.requests.contains_key(r) implies self@.peers.contains_key(
                    self@.requests[r].peer_id,
                ) by {
                    assert(before.requests.contains_key(r));
                }
            }
        }
        Some(fits)
    }

    /// Handle syncing-related event received from a remote peer
    ///
    /// Returns the action to perform and whether the end of the initial
    /// block download is to be signalled.
    pub fn on_peer_event(&mut self, event: PeerSyncEvent, chain: &ChainView, store: &Vec<IndexedBlock>) -> (r:
        (SyncAction, bool))
        requires
            old(self).wf(),
            chain.wf(),
        ensures
            final(self).wf(),
            final(self)@ == spec_peer_event(
                old(self)@,
                event@,
                *chain,
                indexed_blocks_view(store@),
            ).0.refresh(*chain),
            r.0@ == spec_peer_event(old(self)@, event@, *chain, indexed_blocks_view(store@)).1,
            r.1 == spec_peer_event(
                old(self)@,
                event@,
                *chain,
                indexed_blocks_view(store@),
            ).0.refresh_ends_ibd(*chain),
            final(self)@.state == SyncState::Idle ==> all_synced(final(self)@.peers, *chain),
    {
        let action = match event {
            PeerSyncEvent::GetHeaders { peer_id, request_id, locator } => self.process_header_request(
                peer_id,
                request_id,
                &locator,
                chain,
            ),
            PeerSyncEvent::GetBlocks { peer_id, request_id, block_ids } => self.process_block_request(
                peer_id,
                request_id,
                &block_ids,
                store,
            ),
            PeerSyncEvent::Headers { peer_id, request_id, headers } => {
                match self.take_request(peer_id, request_id, true) {
                    None => SyncAction::Nothing,
                    Some(false) => {
                        self.unregister_peer(peer_id);
                        SyncAction::DropPeer {
                            peer_id,
                            reason: Some(ProtocolError::InvalidMessage),
                        }
                    },
                    Some(true) => self.process_header_response(peer_id, &headers, chain),
                }
            },
            PeerSyncEvent::Blocks { peer_id, request_id, blocks } => {
                match self.take_request(peer_id, request_id, false) {
                    None => SyncAction::Nothing,
                    Some(false) => {
                        self.unregister_peer(peer_id);
                        SyncAction::DropPeer {
                            peer_id,
                            reason: Some(ProtocolError::InvalidMessage),
                        }
                    },
                    Some(true) => self.process_block_response(peer_id, blocks, chain),
                }
            },
            PeerSyncEvent::Error { peer_id, request_id, error } => self.process_error(
                request_id,
                error,
            ),
        };
        let ends = self.check_state(chain);
        (action, ends)
    }

    /// Handles the verdict of block validation on the block that a peer
    /// sent, with the chain as it stands after validation.
    ///
    /// Returns the action to perform and whether the end of the initial
    /// block download is to be signalled.
    pub fn on_block_processed(
        &mut self,
        peer_id: PeerId,
        block_id: BlockId,
        accepted: bool,
        chain: &ChainView,
    ) -> (r: (SyncAction, bool))
        requires
            old(self).wf(),
            chain.wf(),
        ensures
            final(self).wf(),
            final(self)@ == spec_block_processed(
                old(self)@,
                peer_id,
                block_id,
                accepted,
                *chain,
            ).0.refresh(*chain),
            r.0@ == spec_block_processed(old(self)@, peer_id, block_id, accepted, *chain).1,
            r.1 == spec_block_processed(
                old(self)@,
                peer_id,
                block_id,
                accepted,
                *chain,
            ).0.refresh_ends_ibd(*chain),
            final(self)@.state == SyncState::Idle ==> all_synced(final(self)@.peers, *chain),
    {
        let action = self.process_block_verdict(peer_id, block_id, accepted, chain);
        let ends = self.check_state(chain);
        (action, ends)
    }

    /// Handles the running out of the time that a peer is waited for: the
    /// peer loses its record and what was in flight to it, and its
    /// connection is to be closed. A peer without a record is passed over.
    ///
    /// Returns the action to perform and whether the end of the initial
    /// block download is to be signalled.
    pub fn on_peer_timeout(&mut self, peer_id: PeerId, chain: &ChainView) -> (r: (SyncAction, bool))
        requires
            old(self).wf(),
            chain.wf(),
        ensures
            final(self).wf(),
            final(self)@ == old(self)@.drop_peer(peer_id).refresh(*chain),
            r.0@ == if old(self)@.peers.contains_key(peer_id) {
                SyncActionView::DropPeer { peer_id, reason: None }
            } else {
                SyncActionView::Nothing
            },
            r.1 == old(self)@.drop_peer(peer_id).refresh_ends_ibd(*chain),
            final(self)@.state == SyncState::Idle ==> all_synced(final(self)@.peers, *chain),
    {
        let had = self.unregister_peer(peer_id);
        let ends = self.check_state(chain);
        if had {
            (SyncAction::DropPeer { peer_id, reason: None }, ends)
        } else {
            (SyncAction::Nothing, ends)
        }
    }

    /// Handle floodsub event
    ///
    /// A block that a peer has published is to be validated, whether or not
    /// the peer has a record. The manager itself does not change.
    pub fn on_floodsub_event(&self, event: FloodsubEvent) -> (r: SyncAction)
        ensures
            r@ == spec_floodsub_event(event.peer_id, event.topic, event.message@, event.block_id),
    {
        let FloodsubEvent { peer_id, topic, message, block_id } = event;
        match topic {
            PubSubTopic::Transactions => SyncAction::Nothing,
            PubSubTopic::Blocks => match message.msg {
                MessageType::PubSub(PubSubMessage::Block(block)) => SyncAction::ProcessBlock {
                    peer_id,
                    block: IndexedBlock { id: block_id, block },
                },
                _ => SyncAction::Nothing,
            },
        }
    }

    /// Decides whether a block that has been validated is to be published,
    /// and notes it as announced if so.
    pub fn on_block_validated(&mut self, block_id: BlockId, source: BlockSource) -> (r: bool)
        requires
            old(self).wf(),
        ensures
            final(self).wf(),
            r == spec_should_announce(old(self)@, block_id, source),
            final(self)@ == (SyncManagerView {
                announced: if r {
                    old(self)@.announced.push(block_id)
                } else {
                    old(self)@.announced
                },
                ..old(self)@
            }),
    {
        if !self.ibd_done || source == BlockSource::PubSub {
            return false;
        }
        let mut i: usize = 0;
        while i < self.announced.len()
            invariant
                i <= self.announced@.len(),
                forall|k: int| 0 <= k < i ==> self.announced@[k] != block_id,
                *self == *old(self),
                self.wf(),
                self.ibd_done && source != BlockSource::PubSub,
            decreases self.announced@.len() - i,
        {
            if self.announced[i] == block_id {
                assert(self.announced@.contains(block_id));
                return false;
            }
            i = i + 1;
        }
        let ghost before = self@;
        self.announced.push(block_id);
        proof {
            self.lemma_domains();
            assert(self@.peers =~= before.peers);
            assert(!before.announced.contains(block_id));
            assert forall|a: int, b: int|
                0 <= a < self@.announced.len() && 0 <= b < self@.announced.len() && a
                    != b implies self@.announced[a] != self@.announced[b] by {
                if a < before.announced.len() && b < before.announced.len() {
                    assert(before.announced[a] != before.announced[b]);
                } else if a < before.announced.len() {
                    assert(before.announced.contains(before.announced[a]));
                } else {
                    assert(before.announced.contains(before.announced[b]));
                }
            }
        }
        true
    }

    /// The message that publishes a block.
    pub fn make_announcement(&self, block: Block) -> (r: Message)
        ensures
            r@ == (MessageView {
                magic: self.magic,
                msg: MessageTypeView::PubSub(PubSubMessageView::Block(block@)),
            }),
            r.spec_topic() == Some(PubSubTopic::Blocks),
    {
        Message { magic: self.magic, msg: MessageType::PubSub(PubSubMessage::Block(block)) }
    }
}

/// No peer has two requests in flight: two tracked requests that name the
/// same peer are one request.
pub proof fn lemma_at_most_one_request_per_peer(
    manager: SyncManagerView,
    peer_id: PeerId,
    a: RequestId,
    b: RequestId,
)
    requires
        manager.wf(),
        manager.requests.contains_key(a),
        manager.requests.contains_key(b),
        manager.requests[a].peer_id == peer_id,
        manager.requests[b].peer_id == peer_id,
    ensures
        a == b,
{
}

/// Once the state has been brought up to date, it is idle if and only if
/// every peer is idle and every header that a peer has declared is on the
/// local main chain, that is the local tip or one of its ancestors.
pub proof fn lemma_idle_means_synced(manager: SyncManagerView, chain: ChainView)
    ensures
        manager.refresh(chain).state == SyncState::Idle <==> all_synced(manager.peers, chain),
        manager.refresh(chain).state == SyncState::Idle ==> forall|p: PeerId, b: BlockId|
            #![trigger manager.peers[p], chain.on_main_chain(b)]
            manager.peers.contains_key(p) && manager.peers[p].best_known == Some(b)
                ==> chain.on_main_chain(b),
{
    if all_synced(manager.peers, chain) {
        assert forall|p: PeerId, b: BlockId|
            #![trigger manager.peers[p], chain.on_main_chain(b)]
            manager.peers.contains_key(p) && manager.peers[p].best_known == Some(
                b,
            ) implies chain.on_main_chain(b) by {
            assert(manager.peers.contains_key(p));
        }
    }
}

/// The end of the initial block download is signalled once: after the
/// state has been brought up to date and found idle, bringing it up to date
/// again never signals the end again, whatever the chain is by then.
pub proof fn lemma_initial_download_ends_once(
    manager: SyncManagerView,
    first: ChainView,
    later: ChainView,
)
    ensures
        manager.ibd_done ==> manager.refresh(first).ibd_done && !manager.refresh_ends_ibd(first),
        manager.refresh_ends_ibd(first) ==> manager.refresh(first).ibd_done,
        manager.refresh(first).ibd_done ==> !manager.refresh(first).refresh_ends_ibd(later),
{
}

/// A request for no blocks is answered with no blocks.
pub proof fn lemma_empty_block_request(
    manager: SyncManagerView,
    peer_id: PeerId,
    request_id: RequestId,
    store: Seq<IndexedBlockView>,
)
    requires
        manager.peers.contains_key(peer_id),
    ensures
        spec_block_request(manager, peer_id, request_id, Seq::empty(), store) == (
        SyncActionView::SendResponse {
            request_id,
            message: block_response_message(manager.magic, Seq::empty()),
        }),
{
}

/// A block that builds on a block that is not stored is rejected and the
/// peer that sent it is dropped, whatever else holds of the block.
pub proof fn lemma_block_with_unknown_parent_is_rejected(
    manager: SyncManagerView,
    peer_id: PeerId,
    block: IndexedBlockView,
    chain: ChainView,
)
    requires
        manager.peers.contains_key(peer_id),
        !chain.known(block.block.header().hash_prev_block),
    ensures
        spec_block_response(manager, peer_id, seq![block], chain).1 is DropPeer,
        spec_block_response(manager, peer_id, seq![block], chain).1->DropPeer_peer_id == peer_id,
        !spec_block_response(manager, peer_id, seq![block], chain).0.peers.contains_key(peer_id),
        manager.peers[peer_id].state == PeerSyncStateView::UploadingBlocks(block.id)
            ==> spec_block_response(manager, peer_id, seq![block], chain).1 == (
        SyncActionView::DropPeer { peer_id, reason: Some(ProtocolError::InvalidBlock) }),
{
}

/// While the node is idle every peer is idle: a node that was idle is no
/// longer so once a peer is registered, sent a locator or asked for a
/// block, whether or not its state has been brought up to date since.
pub proof fn lemma_idle_node_has_idle_peers(m: SyncManagerView, p: PeerId)
    requires
        m.wf(),
        m.state is Idle,
        m.peers.contains_key(p),
    ensures
        m.peers[p].state is Idle,
{
}

} // verus!
