use mintlayer::chain::block::{Block, BlockHeader, BlockV1};
use mintlayer::error::ProtocolError;
use mintlayer::primitives::{BlockId, H256};
use mintlayer::sync::events::{BlockSource, FloodsubEvent, PeerSyncEvent, SyncControlEvent};
use mintlayer::sync::handlers::find_block;
use mintlayer::sync::locator::{ChainView, IndexedHeader};
use mintlayer::sync::manager::{IndexedBlock, SyncAction, SyncManager, SyncState};
use mintlayer::sync::message::{
    Message, MessageType, PubSubMessage, PubSubTopic, SyncingMessage, SyncingRequest,
    SyncingResponse,
};
use mintlayer::sync::peer::{PeerContext, PeerSyncState};
use mintlayer::sync::providers::Providers;
use mintlayer::sync::request::{RequestType, TransportError};
use std::collections::VecDeque;

const MAGIC: [u8; 4] = [1, 2, 3, 4];

fn hash(n: u64) -> H256 {
    let mut b = [0u8; 32];
    b[..8].copy_from_slice(&n.to_be_bytes());
    H256::from_bytes(b)
}

fn bid(n: u64) -> BlockId {
    BlockId::new(hash(n))
}

fn block(n: u64, prev: u64) -> IndexedBlock {
    let header = BlockHeader::new(bid(prev), hash(0), hash(0), n as u32, vec![]);
    IndexedBlock::new(bid(n), Block::V1(BlockV1::new(header, vec![])))
}

fn id_of(header: &BlockHeader) -> BlockId {
    bid(header.time as u64)
}

fn indexed(b: &IndexedBlock) -> IndexedHeader {
    IndexedHeader::new(b.id, b.block.header().clone())
}

// blocks `first..first + count`, the first of which builds on `on`
fn branch(first: u64, count: u64, on: u64) -> Vec<IndexedBlock> {
    let mut v = vec![];
    for k in 0..count {
        let prev = if k == 0 { on } else { first + k - 1 };
        v.push(block(first + k, prev));
    }
    v
}

// genesis and `count` blocks on top of it
fn common_chain(count: u64) -> Vec<IndexedBlock> {
    let mut v = vec![block(0, u64::MAX)];
    v.extend(branch(1, count, 0));
    v
}

enum Wire {
    Request { from: u64, to: u64, request_id: u64, request: SyncingRequest },
    Response { from: u64, to: u64, request_id: u64, response: SyncingResponse },
}

struct Node {
    peer_id: u64,
    mgr: SyncManager,
    blocks: Vec<IndexedBlock>,
    heights: Vec<usize>,
    tip: usize,
    next_request: u64,
    ibd_done: usize,
    sent_get_headers: usize,
    sent_get_blocks: usize,
    served_get_headers: usize,
    largest_block_request: usize,
    announced: Vec<BlockId>,
    dropped: Vec<(u64, Option<ProtocolError>)>,
}

impl Node {
    fn new(peer_id: u64, chain: Vec<IndexedBlock>) -> Node {
        let mut node = Node {
            peer_id,
            mgr: SyncManager::new(MAGIC),
            blocks: vec![],
            heights: vec![],
            tip: 0,
            next_request: 1,
            ibd_done: 0,
            sent_get_headers: 0,
            sent_get_blocks: 0,
            served_get_headers: 0,
            largest_block_request: 0,
            announced: vec![],
            dropped: vec![],
        };
        for b in chain {
            assert!(node.process_block(b));
        }
        node
    }

    fn index_of(&self, id: &BlockId) -> Option<usize> {
        self.blocks.iter().position(|b| b.id == *id)
    }

    // a stand-in for block validation: a block is taken if the block it
    // builds on is stored, and the longest chain is the main chain
    fn process_block(&mut self, b: IndexedBlock) -> bool {
        if self.index_of(&b.id).is_some() {
            return true;
        }
        let height = if self.blocks.is_empty() {
            0
        } else {
            match self.index_of(&b.block.prev_block_id()) {
                Some(p) => self.heights[p] + 1,
                None => return false,
            }
        };
        self.blocks.push(b);
        self.heights.push(height);
        if height > self.heights[self.tip] {
            self.tip = self.blocks.len() - 1;
        }
        true
    }

    fn add_blocks(&mut self, blocks: Vec<IndexedBlock>) {
        for b in blocks {
            assert!(self.process_block(b));
        }
    }

    fn tip_id(&self) -> BlockId {
        self.blocks[self.tip].id
    }

    fn height(&self) -> usize {
        self.heights[self.tip]
    }

    fn chain(&self) -> ChainView {
        let mut on_main = vec![false; self.blocks.len()];
        let mut main = vec![];
        let mut at = self.tip;
        loop {
            on_main[at] = true;
            main.push(indexed(&self.blocks[at]));
            if self.heights[at] == 0 {
                break;
            }
            at = self.index_of(&self.blocks[at].block.prev_block_id()).unwrap();
        }
        main.reverse();
        let mut side = vec![];
        for (i, b) in self.blocks.iter().enumerate() {
            if !on_main[i] {
                side.push(indexed(b));
            }
        }
        ChainView::from_parts(main, side).unwrap()
    }
}

struct Net {
    nodes: Vec<Node>,
    queue: VecDeque<Wire>,
}

impl Net {
    fn new(nodes: Vec<Node>) -> Net {
        Net { nodes, queue: VecDeque::new() }
    }

    fn at(&self, peer_id: u64) -> usize {
        self.nodes.iter().position(|n| n.peer_id == peer_id).unwrap()
    }

    fn node(&mut self, peer_id: u64) -> &mut Node {
        let i = self.at(peer_id);
        &mut self.nodes[i]
    }

    fn register(&mut self, local: u64, remote: u64) {
        let i = self.at(local);
        let chain = self.nodes[i].chain();
        let (action, ends) =
            self.nodes[i].mgr.on_sync_event(SyncControlEvent::Connected { peer_id: remote }, &chain);
        if ends {
            self.nodes[i].ibd_done += 1;
        }
        self.perform(i, action);
    }

    fn unregister(&mut self, local: u64, remote: u64) {
        let i = self.at(local);
        let chain = self.nodes[i].chain();
        let (action, ends) = self.nodes[i]
            .mgr
            .on_sync_event(SyncControlEvent::Disconnected { peer_id: remote }, &chain);
        if ends {
            self.nodes[i].ibd_done += 1;
        }
        self.perform(i, action);
    }

    fn perform(&mut self, i: usize, action: SyncAction) {
        match action {
            SyncAction::Nothing => {}
            SyncAction::SendRequest(p) => {
                let node = &mut self.nodes[i];
                assert!(p.message.has_magic(&MAGIC));
                let request = match p.message.msg {
                    MessageType::Syncing(SyncingMessage::Request(r)) => r,
                    other => panic!("not a request: {:?}", other),
                };
                match &request {
                    SyncingRequest::GetHeaders { .. } => node.sent_get_headers += 1,
                    SyncingRequest::GetBlocks { block_ids } => {
                        node.sent_get_blocks += 1;
                        node.largest_block_request = node.largest_block_request.max(block_ids.len());
                    }
                }
                let request_id = node.next_request;
                node.next_request += 1;
                node.mgr
                    .request_sent(request_id, p.peer_id, p.request_type, p.retry_count)
                    .unwrap();
                let from = node.peer_id;
                self.queue.push_back(Wire::Request { from, to: p.peer_id, request_id, request });
            }
            SyncAction::SendResponse { .. } => panic!("a response without a request"),
            SyncAction::ProcessBlock { peer_id, block } => {
                let node = &mut self.nodes[i];
                let id = block.id;
                let accepted = node.process_block(block);
                let chain = node.chain();
                let (next, ends) = node.mgr.on_block_processed(peer_id, id, accepted, &chain);
                if ends {
                    node.ibd_done += 1;
                }
                if accepted && node.mgr.on_block_validated(id, BlockSource::Peer) {
                    node.announced.push(id);
                }
                self.perform(i, next);
            }
            SyncAction::DropPeer { peer_id, reason } => {
                self.nodes[i].dropped.push((peer_id, reason));
            }
            SyncAction::Shutdown => panic!("shutdown"),
        }
    }

    fn deliver(&mut self, w: Wire) {
        match w {
            Wire::Request { from, to, request_id, request } => {
                let i = self.at(to);
                let node = &mut self.nodes[i];
                let chain = node.chain();
                if let SyncingRequest::GetHeaders { .. } = request {
                    node.served_get_headers += 1;
                }
                let response = if node.mgr.has_peer(from) {
                    let event = match request {
                        SyncingRequest::GetHeaders { locator } => {
                            PeerSyncEvent::GetHeaders { peer_id: from, request_id, locator }
                        }
                        SyncingRequest::GetBlocks { block_ids } => {
                            PeerSyncEvent::GetBlocks { peer_id: from, request_id, block_ids }
                        }
                    };
                    let (action, ends) = node.mgr.on_peer_event(event, &chain, &node.blocks);
                    if ends {
                        node.ibd_done += 1;
                    }
                    match action {
                        SyncAction::SendResponse { request_id: r, message } => {
                            assert_eq!(r, request_id);
                            match message.msg {
                                MessageType::Syncing(SyncingMessage::Response(r)) => r,
                                other => panic!("not a response: {:?}", other),
                            }
                        }
                        other => panic!("no response: {:?}", other),
                    }
                } else {
                    // the node has no record of the peer: answer from its chain by hand
                    match request {
                        SyncingRequest::GetHeaders { locator } => SyncingResponse::Headers {
                            headers: chain
                                .get_headers(&locator)
                                .into_iter()
                                .map(|h| h.header)
                                .collect(),
                        },
                        SyncingRequest::GetBlocks { block_ids } => SyncingResponse::Blocks {
                            blocks: block_ids
                                .iter()
                                .filter_map(|id| find_block(&node.blocks, id))
                                .collect(),
                        },
                    }
                };
                self.queue.push_back(Wire::Response { from: to, to: from, request_id, response });
            }
            Wire::Response { from, to, request_id, response } => {
                let i = self.at(to);
                let node = &mut self.nodes[i];
                let chain = node.chain();
                let event = match response {
                    SyncingResponse::Headers { headers } => PeerSyncEvent::Headers {
                        peer_id: from,
                        request_id,
                        headers: headers
                            .into_iter()
                            .map(|h| IndexedHeader::new(id_of(&h), h))
                            .collect(),
                    },
                    SyncingResponse::Blocks { blocks } => PeerSyncEvent::Blocks {
                        peer_id: from,
                        request_id,
                        blocks: blocks
                            .into_iter()
                            .map(|b| IndexedBlock::new(id_of(b.header()), b))
                            .collect(),
                    },
                };
                let (action, ends) = node.mgr.on_peer_event(event, &chain, &node.blocks);
                if ends {
                    node.ibd_done += 1;
                }
                self.perform(i, action);
            }
        }
    }

    fn step(&mut self) -> bool {
        match self.queue.pop_front() {
            Some(w) => {
                self.deliver(w);
                true
            }
            None => false,
        }
    }

    fn run(&mut self) {
        let mut steps = 0;
        while self.step() {
            steps += 1;
            assert!(steps < 10_000);
        }
    }
}

// after any event: an idle manager has only idle peers whose declared
// headers are on the local main chain, and no peer has two requests in flight
fn check_invariants(node: &Node) {
    let chain = node.chain();
    let mut per_peer = std::collections::HashMap::new();
    for state in node.mgr.requests.requests.values() {
        *per_peer.entry(state.peer_id).or_insert(0) += 1;
        assert!(node.mgr.has_peer(state.peer_id));
    }
    assert!(per_peer.values().all(|n| *n <= 1));
    if *node.mgr.state() == SyncState::Idle {
        for ctx in node.mgr.peers.values() {
            assert_eq!(ctx.state, PeerSyncState::Idle);
            if let Some(best) = ctx.best_known {
                assert!(chain.main_chain_height(&best).is_some());
            }
        }
    }
}

fn run_checked(net: &mut Net) {
    let mut steps = 0;
    while net.step() {
        for node in &net.nodes {
            check_invariants(node);
        }
        steps += 1;
        assert!(steps < 10_000);
    }
}

#[test]
fn local_and_remote_in_sync() {
    let mut net = Net::new(vec![Node::new(1, common_chain(8)), Node::new(2, common_chain(8))]);
    net.register(1, 2);
    run_checked(&mut net);

    let local = net.node(1);
    assert_eq!(local.sent_get_headers, 1);
    assert_eq!(local.sent_get_blocks, 0);
    assert_eq!(local.mgr.state(), &SyncState::Idle);
    assert_eq!(local.ibd_done, 1);
    assert_eq!(local.tip_id(), bid(8));
    assert_eq!(net.node(2).tip_id(), bid(8));
    assert_eq!(net.node(2).sent_get_headers, 0);
}

#[test]
fn remote_ahead_by_7_blocks() {
    let mut remote = Node::new(2, common_chain(8));
    remote.add_blocks(branch(100, 7, 8));
    let mut net = Net::new(vec![Node::new(1, common_chain(8)), remote]);
    net.register(1, 2);

    // until the tips agree: one round trip for headers, seven for blocks
    let mut steps = 0;
    while net.node(1).tip_id() != bid(106) {
        assert!(net.step());
        steps += 1;
    }
    assert_eq!(net.node(1).sent_get_headers, 2);
    assert_eq!(net.node(1).sent_get_blocks, 7);
    assert_eq!(net.node(1).largest_block_request, 1);
    assert_eq!(steps, 2 * 8);

    run_checked(&mut net);
    let local = net.node(1);
    assert_eq!(local.sent_get_headers, 2);
    assert_eq!(local.sent_get_blocks, 7);
    assert_eq!(local.tip_id(), bid(106));
    assert_eq!(local.height(), 15);
    assert_eq!(local.mgr.state(), &SyncState::Idle);
    assert_eq!(local.ibd_done, 1);
    assert!(local.dropped.is_empty());
    assert_eq!(net.node(2).tip_id(), bid(106));
}

#[test]
fn local_ahead_by_12_blocks() {
    let mut local = Node::new(1, common_chain(8));
    local.add_blocks(branch(100, 12, 8));
    let mut net = Net::new(vec![local, Node::new(2, common_chain(8))]);
    net.register(1, 2);
    net.register(2, 1);
    run_checked(&mut net);

    assert_eq!(net.node(1).tip_id(), bid(111));
    assert_eq!(net.node(1).sent_get_blocks, 0);
    assert_eq!(net.node(1).mgr.state(), &SyncState::Idle);
    assert_eq!(net.node(1).ibd_done, 1);
    assert_eq!(net.node(2).sent_get_blocks, 12);
    assert_eq!(net.node(2).largest_block_request, 1);
    assert_eq!(net.node(2).tip_id(), bid(111));
    assert_eq!(net.node(2).height(), 20);
    assert_eq!(net.node(2).mgr.state(), &SyncState::Idle);
}

#[test]
fn remote_local_diff_chains_local_higher() {
    let mut local = Node::new(1, common_chain(8));
    local.add_blocks(branch(100, 14, 8));
    let mut remote = Node::new(2, common_chain(8));
    remote.add_blocks(branch(200, 7, 8));
    let local_tip = local.tip_id();
    let remote_tip = remote.tip_id();
    assert_ne!(local_tip, remote_tip);

    let mut net = Net::new(vec![local, remote]);
    net.register(1, 2);
    net.register(2, 1);
    run_checked(&mut net);

    // the remote has reorganised to the chain of the local node
    assert_eq!(net.node(1).tip_id(), local_tip);
    assert_eq!(net.node(2).tip_id(), local_tip);
    assert_eq!(net.node(2).height(), 22);
    assert_eq!(net.node(2).sent_get_blocks, 14);
    // the local node has fetched the shorter branch and kept its own
    assert_eq!(net.node(1).sent_get_blocks, 7);
    assert!(net.node(1).index_of(&remote_tip).is_some());
    assert!(net.node(1).dropped.is_empty());
    assert!(net.node(2).dropped.is_empty());
    // The remote has declared the tip of its own branch, which is not on the
    // main chain of the local node, and has answered the next locator with
    // headers that are all stored. So the peer is idle, but the node is not:
    // it is idle only while every header that a peer has declared is on the
    // local main chain. The end of the initial download is not signalled.
    assert_eq!(net.node(1).mgr.peers[&2].state, PeerSyncState::Idle);
    assert_eq!(net.node(1).mgr.peers[&2].best_known, Some(remote_tip));
    assert_eq!(net.node(1).mgr.state(), &SyncState::DownloadingHeaders);
    assert_eq!(net.node(1).ibd_done, 0);
    // the remote, which has taken over the longer chain, is idle
    assert_eq!(net.node(2).mgr.state(), &SyncState::Idle);
    assert_eq!(net.node(2).ibd_done, 1);
}

#[test]
fn remote_local_diff_chains_remote_higher() {
    let mut local = Node::new(1, common_chain(8));
    local.add_blocks(branch(100, 5, 8));
    let mut remote = Node::new(2, common_chain(8));
    remote.add_blocks(branch(200, 12, 8));
    let local_tip = local.tip_id();
    let remote_tip = remote.tip_id();

    let mut net = Net::new(vec![local, remote]);
    net.register(1, 2);
    net.register(2, 1);
    run_checked(&mut net);

    assert_eq!(net.node(1).tip_id(), remote_tip);
    assert_eq!(net.node(1).height(), 20);
    assert_eq!(net.node(1).sent_get_blocks, 12);
    assert_eq!(net.node(2).tip_id(), remote_tip);
    assert_eq!(net.node(2).sent_get_blocks, 5);
    assert!(net.node(2).index_of(&local_tip).is_some());
    assert_eq!(net.node(1).mgr.state(), &SyncState::Idle);
    assert_eq!(net.node(1).ibd_done, 1);
}

#[test]
fn two_remote_nodes_different_chains() {
    let local = Node::new(1, common_chain(8));
    let mut r2 = Node::new(2, common_chain(8));
    r2.add_blocks(branch(100, 5, 8));
    let mut r3 = Node::new(3, common_chain(8));
    r3.add_blocks(branch(200, 7, 8));
    let r2_tip = r2.tip_id();
    let r3_tip = r3.tip_id();

    let mut net = Net::new(vec![local, r2, r3]);
    net.register(1, 2);
    net.register(1, 3);
    run_checked(&mut net);

    assert_eq!(net.node(1).tip_id(), r3_tip);
    assert_eq!(net.node(1).height(), 15);
    assert_eq!(net.node(1).sent_get_blocks, 12);
    assert!(net.node(1).index_of(&r2_tip).is_some());
    assert_eq!(net.node(2).tip_id(), r2_tip);
    assert_eq!(net.node(3).tip_id(), r3_tip);
    assert!(net.node(1).dropped.is_empty());
    // The peer on the shorter chain has declared a tip that is not on the
    // main chain of the local node: both peers are idle, the node is not,
    // and the end of the initial download is not signalled.
    assert_eq!(net.node(1).mgr.peers[&2].state, PeerSyncState::Idle);
    assert_eq!(net.node(1).mgr.peers[&3].state, PeerSyncState::Idle);
    assert_eq!(net.node(1).mgr.peers[&2].best_known, Some(r2_tip));
    assert_eq!(net.node(1).mgr.peers[&3].best_known, Some(r3_tip));
    assert_eq!(net.node(1).mgr.state(), &SyncState::DownloadingHeaders);
    assert_eq!(net.node(1).ibd_done, 0);
}

#[test]
fn two_remote_nodes_same_chains() {
    let local = Node::new(1, common_chain(8));
    let mut r2 = Node::new(2, common_chain(8));
    r2.add_blocks(branch(100, 6, 8));
    let mut r3 = Node::new(3, common_chain(8));
    r3.add_blocks(branch(100, 6, 8));

    let mut net = Net::new(vec![local, r2, r3]);
    net.register(1, 2);
    net.register(1, 3);
    run_checked(&mut net);

    assert_eq!(net.node(1).tip_id(), bid(105));
    assert_eq!(net.node(1).height(), 14);
    assert_eq!(net.node(1).mgr.state(), &SyncState::Idle);
    assert_eq!(net.node(1).ibd_done, 1);
    assert!(net.node(1).dropped.is_empty());
    assert_eq!(net.node(1).blocks.len(), 15);
}

// two remotes on the same chain, which both grow by the same blocks once
// they have answered the first request for headers
#[test]
fn two_remote_nodes_same_chains_new_blocks() {
    let local = Node::new(1, common_chain(8));
    let mut r2 = Node::new(2, common_chain(8));
    let mut r3 = Node::new(3, common_chain(8));
    r2.add_blocks(branch(100, 32, 8));
    r3.add_blocks(branch(100, 32, 8));
    let more = branch(200, 10, 131);

    let mut net = Net::new(vec![local, r2, r3]);
    net.register(1, 2);
    net.register(1, 3);
    net.register(2, 1);
    net.register(3, 1);

    let mut grown = [false, false];
    let mut steps = 0;
    while net.step() {
        for (k, remote) in [2, 3].into_iter().enumerate() {
            if !grown[k] && net.node(remote).served_get_headers > 0 {
                net.node(remote).add_blocks(more.clone());
                grown[k] = true;
            }
        }
        for node in &net.nodes {
            check_invariants(node);
        }
        steps += 1;
        assert!(steps < 10_000);
    }
    assert_eq!(grown, [true, true]);

    assert_eq!(net.node(1).tip_id(), net.node(3).tip_id());
    assert_eq!(net.node(2).tip_id(), net.node(3).tip_id());
    assert_eq!(net.node(1).tip_id(), bid(209));
    assert_eq!(net.node(1).height(), 50);
    assert_eq!(net.node(1).mgr.state(), &SyncState::Idle);
    assert_eq!(net.node(1).ibd_done, 1);
    assert_eq!(net.node(1).largest_block_request, 1);
    assert!(net.node(1).dropped.is_empty());
}

#[test]
fn test_connect_disconnect_resyncing() {
    let mut net = Net::new(vec![Node::new(1, common_chain(8)), Node::new(2, common_chain(8))]);
    net.register(1, 2);
    run_checked(&mut net);
    assert_eq!(net.node(1).mgr.state(), &SyncState::Idle);
    assert_eq!(net.node(1).ibd_done, 1);
    assert_eq!(net.node(1).sent_get_headers, 1);

    net.unregister(1, 2);
    assert_eq!(net.node(1).mgr.peer_count(), 0);
    net.node(2).add_blocks(branch(100, 7, 8));
    assert_ne!(net.node(1).tip_id(), net.node(2).tip_id());

    net.register(1, 2);
    run_checked(&mut net);
    assert_eq!(net.node(1).tip_id(), net.node(2).tip_id());
    assert_eq!(net.node(1).height(), 15);
    assert_eq!(net.node(1).sent_get_blocks, 7);
    assert_eq!(net.node(1).sent_get_headers, 1 + 2);
    assert_eq!(net.node(1).mgr.state(), &SyncState::Idle);
    // the end of the initial block download is signalled once only
    assert_eq!(net.node(1).ibd_done, 1);
    // blocks that arrive after it are announced, each once
    assert_eq!(net.node(1).announced.len(), 7);
}

// handle peer connection event
#[test]
fn test_peer_connected() {
    let node = Node::new(1, common_chain(4));
    let mut mgr = SyncManager::new(MAGIC);
    let chain = node.chain();
    let (action, _) = mgr.on_sync_event(SyncControlEvent::Connected { peer_id: 7 }, &chain);
    assert_eq!(mgr.peer_count(), 1);
    match action {
        SyncAction::SendRequest(p) => {
            assert_eq!(p.peer_id, 7);
            assert_eq!(p.request_type, RequestType::GetHeaders);
            assert_eq!(p.retry_count, 0);
            assert_eq!(
                p.message,
                Message {
                    magic: MAGIC,
                    msg: MessageType::Syncing(SyncingMessage::Request(
                        SyncingRequest::GetHeaders {
                            locator: vec![bid(4), bid(3), bid(2), bid(1), bid(0)]
                        }
                    )),
                }
            );
        }
        other => panic!("unexpected action {:?}", other),
    }
    // a peer that has a record is not registered again
    assert_eq!(
        mgr.register_peer(7, &chain).err(),
        Some(mintlayer::error::P2pError::PeerError(mintlayer::error::PeerError::PeerAlreadyExists))
    );
    assert_eq!(
        mgr.send_block_request(8, bid(1), 0).err(),
        Some(mintlayer::error::P2pError::PeerError(mintlayer::error::PeerError::PeerDoesntExist))
    );
    let (again, _) = mgr.on_sync_event(SyncControlEvent::Connected { peer_id: 7 }, &chain);
    assert_eq!(again, SyncAction::Nothing);
    assert_eq!(mgr.peer_count(), 1);
}

// handle peer disconnection event
#[test]
fn test_peer_disconnected() {
    let node = Node::new(1, common_chain(4));
    let mut mgr = SyncManager::new(MAGIC);
    let chain = node.chain();
    let (action, _) = mgr.on_sync_event(SyncControlEvent::Connected { peer_id: 7 }, &chain);
    match action {
        SyncAction::SendRequest(p) => {
            assert_eq!(mgr.request_sent(1, p.peer_id, p.request_type, 0), Ok(()));
        }
        other => panic!("unexpected action {:?}", other),
    }
    assert_eq!(mgr.peer_count(), 1);
    assert_eq!(mgr.requests.len(), 1);

    // no peer with this id exist, nothing happens
    let (action, _) = mgr.on_sync_event(SyncControlEvent::Disconnected { peer_id: 8 }, &chain);
    assert_eq!(action, SyncAction::Nothing);
    assert_eq!(mgr.peer_count(), 1);

    let (action, _) = mgr.on_sync_event(SyncControlEvent::Disconnected { peer_id: 7 }, &chain);
    assert_eq!(action, SyncAction::Nothing);
    assert_eq!(mgr.peer_count(), 0);
    // what was in flight to the peer is gone with it
    assert_eq!(mgr.requests.len(), 0);
}

#[test]
fn new_block_from_floodsub() {
    let mgr = SyncManager::new([1, 2, 3, 4]);
    let announced_block = block(1337, 8);
    let action = mgr.on_floodsub_event(FloodsubEvent {
        peer_id: 7,
        topic: PubSubTopic::Blocks,
        message: Message {
            magic: [1, 2, 3, 4],
            msg: MessageType::PubSub(PubSubMessage::Block(announced_block.block.clone())),
        },
        block_id: announced_block.id,
    });
    assert_eq!(action, SyncAction::ProcessBlock { peer_id: 7, block: announced_block });

    let ignored = mgr.on_floodsub_event(FloodsubEvent {
        peer_id: 7,
        topic: PubSubTopic::Transactions,
        message: Message {
            magic: [1, 2, 3, 4],
            msg: MessageType::PubSub(PubSubMessage::Block(block(1, 0).block)),
        },
        block_id: bid(1),
    });
    assert_eq!(ignored, SyncAction::Nothing);
}

#[test]
fn empty_block_request_gets_empty_answer() {
    let node = Node::new(1, common_chain(3));
    let mut mgr = SyncManager::new(MAGIC);
    mgr.register_peer(9, &node.chain()).unwrap();
    let action = mgr.process_block_request(9, 5, &vec![], &node.blocks);
    assert_eq!(
        action,
        SyncAction::SendResponse {
            request_id: 5,
            message: Message {
                magic: MAGIC,
                msg: MessageType::Syncing(SyncingMessage::Response(SyncingResponse::Blocks {
                    blocks: vec![]
                })),
            },
        }
    );
    // ids that are not stored are passed over
    let action = mgr.process_block_request(9, 6, &vec![bid(77), bid(2), bid(78)], &node.blocks);
    match action {
        SyncAction::SendResponse { message, .. } => match message.msg {
            MessageType::Syncing(SyncingMessage::Response(SyncingResponse::Blocks { blocks })) => {
                assert_eq!(blocks, vec![block(2, 1).block]);
            }
            other => panic!("{:?}", other),
        },
        other => panic!("{:?}", other),
    }
}

fn uploading_blocks(node: &Node, peer: u64, first_unknown: u64) -> SyncManager {
    let chain = node.chain();
    let mut mgr = SyncManager::new(MAGIC);
    let p = mgr.register_peer(peer, &chain).unwrap();
    mgr.request_sent(1, peer, p.request_type, 0).unwrap();
    let tip = node.tip_id();
    let tip_n = node.blocks[node.tip].block.header().time as u64;
    let headers = vec![
        indexed(&block(first_unknown, tip_n)),
        indexed(&block(first_unknown + 1, first_unknown)),
    ];
    assert_eq!(headers[0].header.hash_prev_block, tip);
    let (action, _) = mgr.on_peer_event(
        PeerSyncEvent::Headers { peer_id: peer, request_id: 1, headers },
        &chain,
        &node.blocks,
    );
    match action {
        SyncAction::SendRequest(p) => {
            assert_eq!(p.request_type, RequestType::GetBlocks(vec![bid(first_unknown)]));
            mgr.request_sent(2, peer, p.request_type, 0).unwrap();
        }
        other => panic!("{:?}", other),
    }
    assert_eq!(mgr.state(), &SyncState::DownloadingBlocks);
    mgr
}

#[test]
fn block_with_unknown_parent_is_rejected() {
    let node = Node::new(1, common_chain(3));
    let mut mgr = uploading_blocks(&node, 9, 50);
    // the block has the id that was asked for, but builds on a block that is not stored
    let (action, _) = mgr.on_peer_event(
        PeerSyncEvent::Blocks { peer_id: 9, request_id: 2, blocks: vec![block(50, 49)] },
        &node.chain(),
        &node.blocks,
    );
    assert_eq!(
        action,
        SyncAction::DropPeer { peer_id: 9, reason: Some(ProtocolError::InvalidBlock) }
    );
    assert!(!mgr.has_peer(9));
    assert_eq!(mgr.requests.len(), 0);
}

#[test]
fn unexpected_block_drops_the_peer() {
    let node = Node::new(1, common_chain(3));
    let mut mgr = uploading_blocks(&node, 9, 50);
    let (action, _) = mgr.on_peer_event(
        PeerSyncEvent::Blocks { peer_id: 9, request_id: 2, blocks: vec![block(51, 50)] },
        &node.chain(),
        &node.blocks,
    );
    assert_eq!(
        action,
        SyncAction::DropPeer { peer_id: 9, reason: Some(ProtocolError::UnexpectedBlock) }
    );
    assert!(!mgr.has_peer(9));
}

#[test]
fn rejected_block_drops_the_peer() {
    let node = Node::new(1, common_chain(3));
    let mut mgr = uploading_blocks(&node, 9, 50);
    let chain = node.chain();
    let (action, _) = mgr.on_peer_event(
        PeerSyncEvent::Blocks { peer_id: 9, request_id: 2, blocks: vec![block(50, 3)] },
        &chain,
        &node.blocks,
    );
    assert_eq!(action, SyncAction::ProcessBlock { peer_id: 9, block: block(50, 3) });
    let (action, _) = mgr.on_block_processed(9, bid(50), false, &chain);
    assert_eq!(
        action,
        SyncAction::DropPeer { peer_id: 9, reason: Some(ProtocolError::InvalidBlock) }
    );
    assert!(!mgr.has_peer(9));
}

#[test]
fn unconnected_headers_drop_the_peer() {
    let node = Node::new(1, common_chain(3));
    let chain = node.chain();
    let mut mgr = SyncManager::new(MAGIC);
    let p = mgr.register_peer(9, &chain).unwrap();
    mgr.request_sent(1, 9, p.request_type, 0).unwrap();
    let headers = vec![indexed(&block(60, 59)), indexed(&block(61, 60))];
    let (action, _) = mgr.on_peer_event(
        PeerSyncEvent::Headers { peer_id: 9, request_id: 1, headers },
        &chain,
        &node.blocks,
    );
    assert_eq!(
        action,
        SyncAction::DropPeer { peer_id: 9, reason: Some(ProtocolError::UnconnectedHeaders) }
    );
    assert!(!mgr.has_peer(9));
}

#[test]
fn answers_that_were_not_asked_for() {
    let node = Node::new(1, common_chain(3));
    let chain = node.chain();
    let mut mgr = SyncManager::new(MAGIC);
    let p = mgr.register_peer(9, &chain).unwrap();
    mgr.request_sent(1, 9, p.request_type, 0).unwrap();
    // an answer to a request that is not tracked is ignored
    let (action, _) = mgr.on_peer_event(
        PeerSyncEvent::Headers { peer_id: 9, request_id: 42, headers: vec![] },
        &chain,
        &node.blocks,
    );
    assert_eq!(action, SyncAction::Nothing);
    assert!(mgr.has_peer(9));
    // blocks in answer to a request for headers: the peer is dropped
    let (action, _) = mgr.on_peer_event(
        PeerSyncEvent::Blocks { peer_id: 9, request_id: 1, blocks: vec![] },
        &chain,
        &node.blocks,
    );
    assert_eq!(
        action,
        SyncAction::DropPeer { peer_id: 9, reason: Some(ProtocolError::InvalidMessage) }
    );
    assert!(!mgr.has_peer(9));
}

#[test]
fn transient_errors_are_retried_three_times() {
    let node = Node::new(1, common_chain(3));
    let chain = node.chain();
    let mut mgr = SyncManager::new(MAGIC);
    let p = mgr.register_peer(9, &chain).unwrap();
    mgr.request_sent(1, 9, p.request_type, 0).unwrap();
    for attempt in 1u32..=3 {
        let (action, _) = mgr.on_peer_event(
            PeerSyncEvent::Error {
                peer_id: 9,
                request_id: attempt as u64,
                error: TransportError::Timeout,
            },
            &chain,
            &node.blocks,
        );
        match action {
            SyncAction::SendRequest(p) => {
                assert_eq!(p.retry_count, attempt);
                assert_eq!(p.request_type, RequestType::GetHeaders);
                mgr.request_sent(attempt as u64 + 1, 9, p.request_type, p.retry_count).unwrap();
            }
            other => panic!("{:?}", other),
        }
    }
    let (action, _) = mgr.on_peer_event(
        PeerSyncEvent::Error { peer_id: 9, request_id: 4, error: TransportError::TemporaryIo },
        &chain,
        &node.blocks,
    );
    assert_eq!(action, SyncAction::DropPeer { peer_id: 9, reason: None });
    assert!(!mgr.has_peer(9));
}

#[test]
fn protocol_and_fatal_errors() {
    let node = Node::new(1, common_chain(3));
    let chain = node.chain();
    let mut mgr = SyncManager::new(MAGIC);
    let p = mgr.register_peer(9, &chain).unwrap();
    mgr.request_sent(1, 9, p.request_type, 0).unwrap();
    let (action, _) = mgr.on_peer_event(
        PeerSyncEvent::Error { peer_id: 9, request_id: 1, error: TransportError::ChannelClosed },
        &chain,
        &node.blocks,
    );
    assert_eq!(action, SyncAction::Shutdown);
    assert!(mgr.has_peer(9));
    let (action, _) = mgr.on_peer_event(
        PeerSyncEvent::Error { peer_id: 9, request_id: 77, error: TransportError::Malformed },
        &chain,
        &node.blocks,
    );
    assert_eq!(action, SyncAction::Nothing);
    let (action, _) = mgr.on_peer_event(
        PeerSyncEvent::Error { peer_id: 9, request_id: 1, error: TransportError::WrongMagic },
        &chain,
        &node.blocks,
    );
    assert_eq!(
        action,
        SyncAction::DropPeer { peer_id: 9, reason: Some(ProtocolError::InvalidProtocol) }
    );
    assert!(!mgr.has_peer(9));
}

#[test]
fn second_request_to_a_peer_is_refused() {
    let node = Node::new(1, common_chain(3));
    let mut mgr = SyncManager::new(MAGIC);
    let p = mgr.register_peer(9, &node.chain()).unwrap();
    assert_eq!(mgr.request_sent(1, 9, p.request_type, 0), Ok(()));
    assert!(mgr.request_sent(2, 9, RequestType::GetHeaders, 0).is_err());
    assert_eq!(mgr.requests.len(), 1);
    assert!(mgr.request_sent(3, 10, RequestType::GetHeaders, 0).is_err());
}

#[test]
fn announcements_start_after_the_initial_download() {
    let node = Node::new(1, common_chain(3));
    let chain = node.chain();
    let mut mgr = SyncManager::new(MAGIC);
    assert_eq!(mgr.state(), &SyncState::Uninitialized);
    // while syncing nothing is announced
    assert!(!mgr.on_block_validated(bid(1), BlockSource::Local));
    assert!(mgr.check_state(&chain));
    assert_eq!(mgr.state(), &SyncState::Idle);
    assert!(!mgr.check_state(&chain));
    assert!(mgr.on_block_validated(bid(1), BlockSource::Local));
    // not twice, and not what came in by publication
    assert!(!mgr.on_block_validated(bid(1), BlockSource::Peer));
    assert!(!mgr.on_block_validated(bid(2), BlockSource::PubSub));
    assert!(mgr.on_block_validated(bid(2), BlockSource::Peer));
    let msg = mgr.make_announcement(block(2, 1).block);
    assert_eq!(msg.topic(), Some(PubSubTopic::Blocks));
}

#[test]
fn a_silent_peer_is_dropped() {
    let node = Node::new(1, common_chain(3));
    let chain = node.chain();
    let mut mgr = SyncManager::new(MAGIC);
    let p = mgr.register_peer(9, &chain).unwrap();
    mgr.request_sent(1, 9, p.request_type, 0).unwrap();
    assert!(!mgr.check_state(&chain));
    assert_eq!(mgr.state(), &SyncState::DownloadingHeaders);
    let (action, ends) = mgr.on_peer_timeout(9, &chain);
    assert_eq!(action, SyncAction::DropPeer { peer_id: 9, reason: None });
    assert!(!mgr.has_peer(9));
    assert_eq!(mgr.requests.len(), 0);
    // without peers the node is idle
    assert!(ends);
    assert_eq!(mgr.state(), &SyncState::Idle);
    assert_eq!(mgr.on_peer_timeout(9, &chain), (SyncAction::Nothing, false));
}

#[test]
fn an_answer_from_another_peer_leaves_the_request_in_flight() {
    let node = Node::new(1, common_chain(3));
    let chain = node.chain();
    let mut mgr = SyncManager::new(MAGIC);
    let p = mgr.register_peer(9, &chain).unwrap();
    mgr.request_sent(1, 9, p.request_type, 0).unwrap();
    let q = mgr.register_peer(5, &chain).unwrap();
    mgr.request_sent(2, 5, q.request_type, 0).unwrap();
    // peer 5 answers the request that went to peer 9
    let (action, _) = mgr.on_peer_event(
        PeerSyncEvent::Headers { peer_id: 5, request_id: 1, headers: vec![] },
        &chain,
        &node.blocks,
    );
    assert_eq!(
        action,
        SyncAction::DropPeer { peer_id: 5, reason: Some(ProtocolError::InvalidMessage) }
    );
    assert!(!mgr.has_peer(5));
    assert!(!mgr.requests.contains(2));
    // the request to peer 9 is still tracked, and its answer is taken
    assert!(mgr.has_peer(9));
    assert!(mgr.requests.contains(1));
    assert_eq!(mgr.requests.find_by_peer(9), Some(1));
    let (action, _) = mgr.on_peer_event(
        PeerSyncEvent::Headers { peer_id: 9, request_id: 1, headers: vec![] },
        &chain,
        &node.blocks,
    );
    assert_eq!(action, SyncAction::Nothing);
    assert!(!mgr.requests.contains(1));
    assert_eq!(mgr.peers[&9].state, PeerSyncState::Idle);
    assert_eq!(mgr.state(), &SyncState::Idle);
}

#[test]
fn an_idle_node_is_idle_only_while_every_peer_is() {
    let node = Node::new(1, common_chain(3));
    let chain = node.chain();
    let mut mgr = SyncManager::new(MAGIC);
    assert_eq!(mgr.state(), &SyncState::Uninitialized);
    let p = mgr.register_peer(9, &chain).unwrap();
    // a node that has handled no event stays as it was
    assert_eq!(mgr.state(), &SyncState::Uninitialized);
    mgr.request_sent(1, 9, p.request_type, 0).unwrap();
    mgr.on_peer_event(
        PeerSyncEvent::Headers { peer_id: 9, request_id: 1, headers: vec![] },
        &chain,
        &node.blocks,
    );
    assert_eq!(mgr.state(), &SyncState::Idle);
    // a new peer owes headers
    mgr.register_peer(5, &chain).unwrap();
    assert_eq!(mgr.state(), &SyncState::DownloadingHeaders);
    assert!(mgr.unregister_peer(5));
    assert!(!mgr.check_state(&chain));
    assert_eq!(mgr.state(), &SyncState::Idle);
    // a peer that is asked for a block owes it
    mgr.send_block_request(9, bid(77), 0).unwrap();
    assert_eq!(mgr.state(), &SyncState::DownloadingBlocks);
    assert_eq!(mgr.peers[&9].state, PeerSyncState::UploadingBlocks(bid(77)));
    mgr.check_state(&chain);
    assert_eq!(mgr.state(), &SyncState::DownloadingBlocks);
    // and one that is sent a locator owes headers
    assert!(mgr.unregister_peer(9));
    mgr.check_state(&chain);
    assert_eq!(mgr.state(), &SyncState::Idle);
    let locator = chain.build_locator();
    assert!(mgr.send_header_request(4, locator.clone(), 0).is_err());
    assert_eq!(mgr.state(), &SyncState::Idle);
    mgr.register_peer(4, &chain).unwrap();
    assert_eq!(mgr.state(), &SyncState::DownloadingHeaders);
    mgr.check_state(&chain);
    assert_eq!(mgr.state(), &SyncState::DownloadingHeaders);
}

fn providers(mgr: &SyncManager, ids: &[u64]) -> Vec<(u64, Vec<u64>)> {
    let query: Vec<BlockId> = ids.iter().map(|n| bid(*n)).collect();
    mgr.get_providers(&query)
        .into_iter()
        .map(|Providers { block_id, mut peers }| {
            peers.sort();
            let n = ids.iter().copied().find(|n| bid(*n) == block_id).unwrap();
            (n, peers)
        })
        .collect()
}

#[test]
fn test_get_providers() {
    let mut mgr = SyncManager::new(MAGIC);
    let peer1 = 8888;
    let peer2 = 9999;
    let mut ctx1 = PeerContext::new();
    ctx1.known = [444, 666, 777, 1337, 1338, 1339, 1342, 1343, 1344].map(bid).to_vec();
    let mut ctx2 = PeerContext::new();
    ctx2.known = [444, 666, 777, 1337, 1338, 1339, 1351, 1352, 1353, 1354].map(bid).to_vec();
    mgr.peers.insert(peer1, ctx1);
    mgr.peers.insert(peer2, ctx2);

    assert_eq!(
        providers(&mgr, &[666, 1337, 1339]),
        vec![(666, vec![peer1, peer2]), (1337, vec![peer1, peer2]), (1339, vec![peer1, peer2])]
    );
    assert_eq!(providers(&mgr, &[666, 677, 1340]), vec![(666, vec![peer1, peer2])]);
    assert_eq!(providers(&mgr, &[677, 1340]), vec![]);
    assert_eq!(
        providers(&mgr, &[1343, 1344, 1352, 1353, 1354]),
        vec![
            (1343, vec![peer1]),
            (1344, vec![peer1]),
            (1352, vec![peer2]),
            (1353, vec![peer2]),
            (1354, vec![peer2]),
        ]
    );
    assert_eq!(mgr.peers_knowing(&bid(1351)), vec![peer2]);
    assert!(mgr.peers_knowing(&bid(1340)).is_empty());
}

#[test]
fn the_index_of_a_peer_follows_its_answers() {
    let node = Node::new(1, common_chain(3));
    let chain = node.chain();
    let mut mgr = SyncManager::new(MAGIC);
    let p = mgr.register_peer(9, &chain).unwrap();
    assert!(mgr.peers[&9].known.is_empty());
    mgr.request_sent(1, 9, p.request_type, 0).unwrap();
    // two headers above the local tip: the peer has both blocks
    let ahead = branch(50, 2, 3);
    let headers: Vec<IndexedHeader> = ahead.iter().map(indexed).collect();
    let ids: Vec<BlockId> = headers.iter().map(|h| h.id).collect();
    let (action, _) = mgr.on_peer_event(
        PeerSyncEvent::Headers { peer_id: 9, request_id: 1, headers },
        &chain,
        &node.blocks,
    );
    assert!(matches!(action, SyncAction::SendRequest(_)));
    assert_eq!(mgr.peers[&9].known, ids);
    assert_eq!(providers(&mgr, &[51, 3, 50]), vec![(51, vec![9]), (50, vec![9])]);

    // an answer with nothing new: the peer has what the local node has
    let mut mgr = SyncManager::new(MAGIC);
    let p = mgr.register_peer(9, &chain).unwrap();
    mgr.request_sent(1, 9, p.request_type, 0).unwrap();
    mgr.on_peer_event(
        PeerSyncEvent::Headers { peer_id: 9, request_id: 1, headers: vec![] },
        &chain,
        &node.blocks,
    );
    assert_eq!(mgr.peers[&9].known, vec![chain.best_block_id()]);
    assert_eq!(providers(&mgr, &[3, 2]), vec![(3, vec![9])]);
}
