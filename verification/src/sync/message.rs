//! The messages that two nodes exchange while they synchronise.

use crate::chain::block::{block_headers_view, blocks_view, Block, BlockHeader, BlockHeaderView, BlockView};
use crate::primitives::BlockId;
use vstd::prelude::*;

verus! {

/// Copies a list of block ids.
pub fn clone_ids(v: &Vec<BlockId>) -> (r: Vec<BlockId>)
    ensures
        r@ == v@,
{
    let mut r: Vec<BlockId> = Vec::new();
    let mut i: usize = 0;
    while i < v.len()
        invariant
            i <= v.len(),
            r@ == v@.take(i as int),
        decreases v.len() - i,
    {
        r.push(v[i]);
        assert(v@.take(i as int + 1) =~= v@.take(i as int).push(v@[i as int]));
        i = i + 1;
    }
    assert(v@.take(v.len() as int) =~= v@);
    r
}

/// What a request is.
pub enum SyncingRequestView {
    GetHeaders { locator: Seq<BlockId> },
    GetBlocks { block_ids: Seq<BlockId> },
}

/// A request of one node to another.
#[derive(Debug, PartialEq, Eq)]
pub enum SyncingRequest {
    /// Asks for the headers above the first block of the locator that the
    /// other node has on its main chain.
    GetHeaders { locator: Vec<BlockId> },
    /// Asks for the blocks with these ids.
    GetBlocks { block_ids: Vec<BlockId> },
}

impl View for SyncingRequest {
    type V = SyncingRequestView;

    open spec fn view(&self) -> SyncingRequestView {
        match self {
            SyncingRequest::GetHeaders { locator } => SyncingRequestView::GetHeaders {
                locator: locator@,
            },
            SyncingRequest::GetBlocks { block_ids } => SyncingRequestView::GetBlocks {
                block_ids: block_ids@,
            },
        }
    }
}

/// What a response is.
pub enum SyncingResponseView {
    Headers { headers: Seq<BlockHeaderView> },
    Blocks { blocks: Seq<BlockView> },
}

/// The answer to a request.
#[derive(Debug, PartialEq, Eq)]
pub enum SyncingResponse {
    Headers { headers: Vec<BlockHeader> },
    Blocks { blocks: Vec<Block> },
}

impl View for SyncingResponse {
    type V = SyncingResponseView;

    open spec fn view(&self) -> SyncingResponseView {
        match self {
            SyncingResponse::Headers { headers } => SyncingResponseView::Headers {
                headers: block_headers_view(headers@),
            },
            SyncingResponse::Blocks { blocks } => SyncingResponseView::Blocks {
                blocks: blocks_view(blocks@),
            },
        }
    }
}

/// What a syncing message is.
pub enum SyncingMessageView {
    Request(SyncingRequestView),
    Response(SyncingResponseView),
}

/// A message of the request and response protocol.
#[derive(Debug, PartialEq, Eq)]
pub enum SyncingMessage {
    Request(SyncingRequest),
    Response(SyncingResponse),
}

impl View for SyncingMessage {
    type V = SyncingMessageView;

    open spec fn view(&self) -> SyncingMessageView {
        match self {
            SyncingMessage::Request(r) => SyncingMessageView::Request(r@),
            SyncingMessage::Response(r) => SyncingMessageView::Response(r@),
        }
    }
}

/// What a published message is.
pub enum PubSubMessageView {
    Block(BlockView),
}

/// A message published to every subscriber of a topic.
#[derive(Debug, PartialEq, Eq)]
pub enum PubSubMessage {
    Block(Block),
}

impl View for PubSubMessage {
    type V = PubSubMessageView;

    open spec fn view(&self) -> PubSubMessageView {
        match self {
            PubSubMessage::Block(b) => PubSubMessageView::Block(b@),
        }
    }
}

/// What the body of a message is.
pub enum MessageTypeView {
    Syncing(SyncingMessageView),
    PubSub(PubSubMessageView),
}

/// The body of a message.
#[derive(Debug, PartialEq, Eq)]
pub enum MessageType {
    Syncing(SyncingMessage),
    PubSub(PubSubMessage),
}

impl View for MessageType {
    type V = MessageTypeView;

    open spec fn view(&self) -> MessageTypeView {
        match self {
            MessageType::Syncing(m) => MessageTypeView::Syncing(m@),
            MessageType::PubSub(m) => MessageTypeView::PubSub(m@),
        }
    }
}

/// What a message is.
pub struct MessageView {
    pub magic: [u8; 4],
    pub msg: MessageTypeView,
}

/// A message on the wire: the magic bytes of the chain, then the body.
#[derive(Debug, PartialEq, Eq)]
pub struct Message {
    pub magic: [u8; 4],
    pub msg: MessageType,
}

impl View for Message {
    type V = MessageView;

    open spec fn view(&self) -> MessageView {
        MessageView { magic: self.magic, msg: self.msg@ }
    }
}

/// The topics that messages are published on.
#[derive(Clone, Copy, Debug, PartialEq, Eq, Structural)]
pub enum PubSubTopic {
    Transactions,
    Blocks,
}

/// The largest encoded message that may be published: 2 MiB.
pub const PUBSUB_MAX_FRAME_SIZE: usize = 2097152;

impl Message {
    /// Whether the message carries the magic bytes of this chain.
    pub fn has_magic(&self, magic: &[u8; 4]) -> (r: bool)
        ensures
            r == (self.magic == *magic),
    {
        let r = self.magic[0] == magic[0] && self.magic[1] == magic[1] && self.magic[2] == magic[2]
            && self.magic[3] == magic[3];
        proof {
            if r {
                assert(self.magic =~= *magic);
            }
        }
        r
    }

    /// The topic that the message is published on, if it can be published:
    /// whole blocks go to the block topic, and nothing else is published.
    pub open spec fn spec_topic(&self) -> Option<PubSubTopic> {
        match self.msg {
            MessageType::PubSub(PubSubMessage::Block(_)) => Some(PubSubTopic::Blocks),
            _ => None,
        }
    }

    /// The topic that the message is published on, if it can be published.
    pub fn topic(&self) -> (r: Option<PubSubTopic>)
        ensures
            r == self.spec_topic(),
    {
        match &self.msg {
            MessageType::PubSub(PubSubMessage::Block(_)) => Some(PubSubTopic::Blocks),
            _ => None,
        }
    }
}

} // verus!
