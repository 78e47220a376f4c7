//! The wire encoding of messages: the magic bytes of the chain, then a tag
//! for each choice that the body makes, then what the body holds.

use crate::chain::block::{block_headers_view, blocks_view, Block, BlockHeader, BlockHeaderView, BlockView};
use crate::codec::prim::{decode_h256, encode_h256, lemma_h256_roundtrip, spec_encode_h256, spec_parse_h256};
use crate::codec::wire::{
    check_list_encodable, decode_list, encode_list, lemma_list_roundtrip, list_encodable,
    spec_encode_list, spec_parse_list, views, Wire,
};
use crate::primitives::BlockId;
use crate::sync::message::{
    Message, MessageType, MessageTypeView, MessageView, PubSubMessage, PubSubMessageView,
    SyncingMessage, SyncingMessageView, SyncingRequest, SyncingRequestView, SyncingResponse,
    SyncingResponseView,
};
use vstd::prelude::*;

verus! {

impl Wire for BlockId {
    /// The 32 bytes of the hash.
    open spec fn spec_encode(v: BlockId) -> Seq<u8> {
        spec_encode_h256(v.hash)
    }

    open spec fn spec_parse(s: Seq<u8>) -> Option<(BlockId, int)> {
        match spec_parse_h256(s) {
            Some((h, k)) => Some((BlockId { hash: h }, k)),
            None => None,
        }
    }

    open spec fn encodable(v: BlockId) -> bool {
        true
    }

    proof fn lemma_roundtrip(v: BlockId, rest: Seq<u8>) {
        lemma_h256_roundtrip(v.hash, rest);
    }

    fn check_encodable(&self) -> (r: bool) {
        true
    }

    fn encode_to(&self, out: &mut Vec<u8>) {
        encode_h256(&self.hash, out);
    }

    fn decode_from(data: &[u8], pos: usize) -> (r: Option<(Self, usize)>) {
        match decode_h256(data, pos) {
            Some((h, next)) => Some((BlockId { hash: h }, next)),
            None => None,
        }
    }
}

/// The tags of the body of a message, and of the choices below it.
pub const TAG_SYNCING: u8 = 0;

pub const TAG_PUBSUB: u8 = 1;

pub const TAG_REQUEST: u8 = 0;

pub const TAG_RESPONSE: u8 = 1;

pub const TAG_GET_HEADERS: u8 = 0;

pub const TAG_GET_BLOCKS: u8 = 1;

pub const TAG_HEADERS: u8 = 0;

pub const TAG_BLOCKS: u8 = 1;

pub const TAG_PUBSUB_BLOCK: u8 = 0;

/// The encoding of the body of a message.
pub open spec fn spec_encode_body(m: MessageTypeView) -> Seq<u8> {
    match m {
        MessageTypeView::Syncing(
            SyncingMessageView::Request(SyncingRequestView::GetHeaders { locator }),
        ) => seq![TAG_SYNCING, TAG_REQUEST, TAG_GET_HEADERS].add(spec_encode_list::<BlockId>(locator)),
        MessageTypeView::Syncing(
            SyncingMessageView::Request(SyncingRequestView::GetBlocks { block_ids }),
        ) => seq![TAG_SYNCING, TAG_REQUEST, TAG_GET_BLOCKS].add(spec_encode_list::<BlockId>(block_ids)),
        MessageTypeView::Syncing(
            SyncingMessageView::Response(SyncingResponseView::Headers { headers }),
        ) => seq![TAG_SYNCING, TAG_RESPONSE, TAG_HEADERS].add(spec_encode_list::<BlockHeader>(headers)),
        MessageTypeView::Syncing(
            SyncingMessageView::Response(SyncingResponseView::Blocks { blocks }),
        ) => seq![TAG_SYNCING, TAG_RESPONSE, TAG_BLOCKS].add(spec_encode_list::<Block>(blocks)),
        MessageTypeView::PubSub(PubSubMessageView::Block(block)) => seq![
            TAG_PUBSUB,
            TAG_PUBSUB_BLOCK,
        ].add(Block::spec_encode(block)),
    }
}

/// The body that a byte string is the encoding of: no byte may be left over.
pub open spec fn spec_decode_body(s: Seq<u8>) -> Option<MessageTypeView> {
    if s.len() < 2 {
        None
    } else if s[0] == TAG_PUBSUB {
        if s[1] == TAG_PUBSUB_BLOCK {
            match Block::spec_parse(s.skip(2)) {
                Some((block, k)) => if k == s.len() - 2 {
                    Some(MessageTypeView::PubSub(PubSubMessageView::Block(block)))
                } else {
                    None
                },
                None => None,
            }
        } else {
            None
        }
    } else if s[0] == TAG_SYNCING && s.len() >= 3 {
        let t = s.skip(3);
        if s[1] == TAG_REQUEST && s[2] == TAG_GET_HEADERS {
            match spec_parse_list::<BlockId>(t) {
                Some((locator, k)) => if k == t.len() {
                    Some(
                        MessageTypeView::Syncing(
                            SyncingMessageView::Request(SyncingRequestView::GetHeaders { locator }),
                        ),
                    )
                } else {
                    None
                },
                None => None,
            }
        } else if s[1] == TAG_REQUEST && s[2] == TAG_GET_BLOCKS {
            match spec_parse_list::<BlockId>(t) {
                Some((block_ids, k)) => if k == t.len() {
                    Some(
                        MessageTypeView::Syncing(
                            SyncingMessageView::Request(SyncingRequestView::GetBlocks { block_ids }),
                        ),
                    )
                } else {
                    None
                },
                None => None,
            }
        } else if s[1] == TAG_RESPONSE && s[2] == TAG_HEADERS {
            match spec_parse_list::<BlockHeader>(t) {
                Some((headers, k)) => if k == t.len() {
                    Some(
                        MessageTypeView::Syncing(
                            SyncingMessageView::Response(SyncingResponseView::Headers { headers }),
                        ),
                    )
                } else {
                    None
                },
                None => None,
            }
        } else if s[1] == TAG_RESPONSE && s[2] == TAG_BLOCKS {
            match spec_parse_list::<Block>(t) {
                Some((blocks, k)) => if k == t.len() {
                    Some(
                        MessageTypeView::Syncing(
                            SyncingMessageView::Response(SyncingResponseView::Blocks { blocks }),
                        ),
                    )
                } else {
                    None
                },
                None => None,
            }
        } else {
            None
        }
    } else {
        None
    }
}

/// Whether the body of a message can be written.
pub open spec fn body_encodable(m: MessageTypeView) -> bool {
    match m {
        MessageTypeView::Syncing(
            SyncingMessageView::Request(SyncingRequestView::GetHeaders { locator }),
        ) => list_encodable::<BlockId>(locator),
        MessageTypeView::Syncing(
            SyncingMessageView::Request(SyncingRequestView::GetBlocks { block_ids }),
        ) => list_encodable::<BlockId>(block_ids),
        MessageTypeView::Syncing(
            SyncingMessageView::Response(SyncingResponseView::Headers { headers }),
        ) => list_encodable::<BlockHeader>(headers),
        MessageTypeView::Syncing(
            SyncingMessageView::Response(SyncingResponseView::Blocks { blocks }),
        ) => list_encodable::<Block>(blocks),
        MessageTypeView::PubSub(PubSubMessageView::Block(block)) => Block::encodable(block),
    }
}

/// The encoding of a message: the magic bytes, then the body.
pub open spec fn spec_encode_message(m: MessageView) -> Seq<u8> {
    m.magic@.add(spec_encode_body(m.msg))
}

/// The message that a byte string is the encoding of.
pub open spec fn spec_decode_message(s: Seq<u8>) -> Option<MessageView> {
    if s.len() < 4 {
        None
    } else {
        match spec_decode_body(s.skip(4)) {
            Some(msg) => Some(
                MessageView { magic: choose|a: [u8; 4]| a@ == s.subrange(0, 4), msg },
            ),
            None => None,
        }
    }
}

/// Decoding the encoding of a body gives the body back.
pub proof fn lemma_body_roundtrip(m: MessageTypeView)
    requires
        body_encodable(m),
    ensures
        spec_decode_body(spec_encode_body(m)) == Some(m),
{
    let s = spec_encode_body(m);
    let nothing = Seq::<u8>::empty();
    match m {
        MessageTypeView::Syncing(
            SyncingMessageView::Request(SyncingRequestView::GetHeaders { locator }),
        ) => {
            let e = spec_encode_list::<BlockId>(locator);
            assert(s.skip(3) =~= e);
            assert(e.add(nothing) =~= e);
            lemma_list_roundtrip::<BlockId>(locator, nothing);
        },
        MessageTypeView::Syncing(
            SyncingMessageView::Request(SyncingRequestView::GetBlocks { block_ids }),
        ) => {
            let e = spec_encode_list::<BlockId>(block_ids);
            assert(s.skip(3) =~= e);
            assert(e.add(nothing) =~= e);
            lemma_list_roundtrip::<BlockId>(block_ids, nothing);
        },
        MessageTypeView::Syncing(
            SyncingMessageView::Response(SyncingResponseView::Headers { headers }),
        ) => {
            let e = spec_encode_list::<BlockHeader>(headers);
            assert(s.skip(3) =~= e);
            assert(e.add(nothing) =~= e);
            lemma_list_roundtrip::<BlockHeader>(headers, nothing);
        },
        MessageTypeView::Syncing(
            SyncingMessageView::Response(SyncingResponseView::Blocks { blocks }),
        ) => {
            let e = spec_encode_list::<Block>(blocks);
            assert(s.skip(3) =~= e);
            assert(e.add(nothing) =~= e);
            lemma_list_roundtrip::<Block>(blocks, nothing);
        },
        MessageTypeView::PubSub(PubSubMessageView::Block(block)) => {
            let e = Block::spec_encode(block);
            assert(s.skip(2) =~= e);
            assert(e.add(nothing) =~= e);
            Block::lemma_roundtrip(block, nothing);
        },
    }
}

/// Decoding the encoding of a message gives the message back.
pub proof fn lemma_message_roundtrip(m: MessageView)
    requires
        body_encodable(m.msg),
    ensures
        spec_decode_message(spec_encode_message(m)) == Some(m),
{
    let s = spec_encode_message(m);
    assert(m.magic@.len() == 4);
    assert(s.skip(4) =~= spec_encode_body(m.msg));
    assert(s.subrange(0, 4) =~= m.magic@);
    lemma_body_roundtrip(m.msg);
    let a = choose|a: [u8; 4]| a@ == s.subrange(0, 4);
    assert(a@ == m.magic@);
    assert(a =~= m.magic);
}

/// Whether the body of a message can be written.
pub fn check_body_encodable(m: &MessageType) -> (r: bool)
    ensures
        r == body_encodable(m@),
{
    match m {
        MessageType::Syncing(SyncingMessage::Request(SyncingRequest::GetHeaders { locator })) => {
            assert(views(locator@) =~= locator@);
            check_list_encodable(locator)
        },
        MessageType::Syncing(SyncingMessage::Request(SyncingRequest::GetBlocks { block_ids })) => {
            assert(views(block_ids@) =~= block_ids@);
            check_list_encodable(block_ids)
        },
        MessageType::Syncing(SyncingMessage::Response(SyncingResponse::Headers { headers })) => {
            assert(views(headers@) =~= block_headers_view(headers@));
            check_list_encodable(headers)
        },
        MessageType::Syncing(SyncingMessage::Response(SyncingResponse::Blocks { blocks })) => {
            assert(views(blocks@) =~= blocks_view(blocks@));
            check_list_encodable(blocks)
        },
        MessageType::PubSub(PubSubMessage::Block(block)) => block.check_encodable(),
    }
}

/// The encoding of a message; nothing where a list in it is too long to be
/// written.
pub fn encode_message(m: &Message) -> (r: Option<Vec<u8>>)
    ensures
        match r {
            Some(bytes) => body_encodable(m@.msg) && bytes@ == spec_encode_message(m@),
            None => !body_encodable(m@.msg),
        },
{
    if !check_body_encodable(&m.msg) {
        return None;
    }
    let mut out: Vec<u8> = Vec::new();
    out.push(m.magic[0]);
    out.push(m.magic[1]);
    out.push(m.magic[2]);
    out.push(m.magic[3]);
    assert(out@ =~= m.magic@);
    match &m.msg {
        MessageType::Syncing(SyncingMessage::Request(SyncingRequest::GetHeaders { locator })) => {
            assert(views(locator@) =~= locator@);
            out.push(TAG_SYNCING);
            out.push(TAG_REQUEST);
            out.push(TAG_GET_HEADERS);
            encode_list(locator, &mut out);
        },
        MessageType::Syncing(SyncingMessage::Request(SyncingRequest::GetBlocks { block_ids })) => {
            assert(views(block_ids@) =~= block_ids@);
            out.push(TAG_SYNCING);
            out.push(TAG_REQUEST);
            out.push(TAG_GET_BLOCKS);
            encode_list(block_ids, &mut out);
        },
        MessageType::Syncing(SyncingMessage::Response(SyncingResponse::Headers { headers })) => {
            assert(views(headers@) =~= block_headers_view(headers@));
            out.push(TAG_SYNCING);
            out.push(TAG_RESPONSE);
            out.push(TAG_HEADERS);
            encode_list(headers, &mut out);
        },
        MessageType::Syncing(SyncingMessage::Response(SyncingResponse::Blocks { blocks })) => {
            assert(views(blocks@) =~= blocks_view(blocks@));
            out.push(TAG_SYNCING);
            out.push(TAG_RESPONSE);
            out.push(TAG_BLOCKS);
            encode_list(blocks, &mut out);
        },
        MessageType::PubSub(PubSubMessage::Block(block)) => {
            out.push(TAG_PUBSUB);
            out.push(TAG_PUBSUB_BLOCK);
            block.encode_to(&mut out);
        },
    }
    assert(out@ =~= spec_encode_message(m@));
    Some(out)
}

/// The body that the bytes from `pos` on are the encoding of.
fn decode_body(data: &[u8], pos: usize) -> (r: Option<MessageType>)
    requires
        pos <= data@.len(),
    ensures
        match r {
            Some(m) => spec_decode_body(data@.skip(pos as int)) == Some(m@),
            None => spec_decode_body(data@.skip(pos as int)).is_none(),
        },
{
    let ghost s = data@.skip(pos as int);
    if data.len() - pos < 2 {
        return None;
    }
    let a = data[pos];
    let b = data[pos + 1];
    assert(s[0] == a && s[1] == b);
    if a == TAG_PUBSUB {
        if b != TAG_PUBSUB_BLOCK {
            return None;
        }
        assert(s.skip(2) =~= data@.skip(pos + 2));
        return match Block::decode_from(data, pos + 2) {
            Some((block, next)) => if next == data.len() {
                Some(MessageType::PubSub(PubSubMessage::Block(block)))
            } else {
                None
            },
            None => None,
        };
    }
    if a != TAG_SYNCING || data.len() - pos < 3 {
        return None;
    }
    let c = data[pos + 2];
    assert(s[2] == c);
    assert(s.skip(3) =~= data@.skip(pos + 3));
    if b == TAG_REQUEST && c == TAG_GET_HEADERS {
        match decode_list::<BlockId>(data, pos + 3) {
            Some((locator, next)) => if next == data.len() {
                assert(views(locator@) =~= locator@);
                Some(
                    MessageType::Syncing(
                        SyncingMessage::Request(SyncingRequest::GetHeaders { locator }),
                    ),
                )
            } else {
                None
            },
            None => None,
        }
    } else if b == TAG_REQUEST && c == TAG_GET_BLOCKS {
        match decode_list::<BlockId>(data, pos + 3) {
            Some((block_ids, next)) => if next == data.len() {
                assert(views(block_ids@) =~= block_ids@);
                Some(
                    MessageType::Syncing(
                        SyncingMessage::Request(SyncingRequest::GetBlocks { block_ids }),
                    ),
                )
            } else {
                None
            },
            None => None,
        }
    } else if b == TAG_RESPONSE && c == TAG_HEADERS {
        match decode_list::<BlockHeader>(data, pos + 3) {
            Some((headers, next)) => if next == data.len() {
                assert(views(headers@) =~= block_headers_view(headers@));
                Some(
                    MessageType::Syncing(
                        SyncingMessage::Response(SyncingResponse::Headers { headers }),
                    ),
                )
            } else {
                None
            },
            None => None,
        }
    } else if b == TAG_RESPONSE && c == TAG_BLOCKS {
        match decode_list::<Block>(data, pos + 3) {
            Some((blocks, next)) => if next == data.len() {
                assert(views(blocks@) =~= blocks_view(blocks@));
                Some(
                    MessageType::Syncing(SyncingMessage::Response(SyncingResponse::Blocks { blocks })),
                )
            } else {
                None
            },
            None => None,
        }
    } else {
        None
    }
}

/// The message that the bytes are the encoding of; nothing where they are
/// not the encoding of a message.
pub fn decode_message(data: &[u8]) -> (r: Option<Message>)
    ensures
        match r {
            Some(m) => spec_decode_message(data@) == Some(m@),
            None => spec_decode_message(data@).is_none(),
        },
{
    if data.len() < 4 {
        return None;
    }
    let magic: [u8; 4] = [data[0], data[1], data[2], data[3]];
    match decode_body(data, 4) {
        Some(msg) => {
            proof {
                assert(magic@ =~= data@.subrange(0, 4));
                let a = choose|a: [u8; 4]| a@ == data@.subrange(0, 4);
                assert(a =~= magic);
            }
            Some(Message { magic, msg })
        },
        None => None,
    }
}

/// What an incoming syncing message holds.
pub enum IncomingView {
    GetHeaders { locator: Seq<BlockId> },
    GetBlocks { block_ids: Seq<BlockId> },
    Headers { headers: Seq<BlockHeaderView> },
    Blocks { blocks: Seq<BlockView> },
}

/// What an incoming syncing message holds, once it has been decoded and
/// checked.
#[derive(Debug, PartialEq, Eq)]
pub enum Incoming {
    GetHeaders { locator: Vec<BlockId> },
    GetBlocks { block_ids: Vec<BlockId> },
    Headers { headers: Vec<BlockHeader> },
    Blocks { blocks: Vec<Block> },
}

impl View for Incoming {
    type V = IncomingView;

    open spec fn view(&self) -> IncomingView {
        match self {
            Incoming::GetHeaders { locator } => IncomingView::GetHeaders { locator: locator@ },
            Incoming::GetBlocks { block_ids } => IncomingView::GetBlocks { block_ids: block_ids@ },
            Incoming::Headers { headers } => IncomingView::Headers {
                headers: block_headers_view(headers@),
            },
            Incoming::Blocks { blocks } => IncomingView::Blocks { blocks: blocks_view(blocks@) },
        }
    }
}

/// What is made of the bytes that came in as a request or as an answer:
/// bytes that are not the encoding of a message are malformed; a message
/// of another chain has the wrong magic bytes; and a message that is not
/// of the kind that it came in as is malformed too.
pub open spec fn spec_read_incoming(magic: [u8; 4], bytes: Seq<u8>, is_request: bool) -> Result<
    IncomingView,
    crate::sync::request::TransportError,
> {
    match spec_decode_message(bytes) {
        None => Err(crate::sync::request::TransportError::Malformed),
        Some(m) => if m.magic != magic {
            Err(crate::sync::request::TransportError::WrongMagic)
        } else {
            match m.msg {
                MessageTypeView::Syncing(
                    SyncingMessageView::Request(SyncingRequestView::GetHeaders { locator }),
                ) => if is_request {
                    Ok(IncomingView::GetHeaders { locator })
                } else {
                    Err(crate::sync::request::TransportError::Malformed)
                },
                MessageTypeView::Syncing(
                    SyncingMessageView::Request(SyncingRequestView::GetBlocks { block_ids }),
                ) => if is_request {
                    Ok(IncomingView::GetBlocks { block_ids })
                } else {
                    Err(crate::sync::request::TransportError::Malformed)
                },
                MessageTypeView::Syncing(
                    SyncingMessageView::Response(SyncingResponseView::Headers { headers }),
                ) => if !is_request {
                    Ok(IncomingView::Headers { headers })
                } else {
                    Err(crate::sync::request::TransportError::Malformed)
                },
                MessageTypeView::Syncing(
                    SyncingMessageView::Response(SyncingResponseView::Blocks { blocks }),
                ) => if !is_request {
                    Ok(IncomingView::Blocks { blocks })
                } else {
                    Err(crate::sync::request::TransportError::Malformed)
                },
                MessageTypeView::PubSub(_) => Err(crate::sync::request::TransportError::Malformed),
            }
        },
    }
}

/// The view of what reading gave.
pub open spec fn incoming_view(r: Result<Incoming, crate::sync::request::TransportError>) -> Result<
    IncomingView,
    crate::sync::request::TransportError,
> {
    match r {
        Ok(i) => Ok(i@),
        Err(e) => Err(e),
    }
}

/// Decodes and checks the bytes that came in over the request and response
/// transport, as a request or as an answer.
pub fn read_incoming(magic: &[u8; 4], bytes: &[u8], is_request: bool) -> (r: Result<
    Incoming,
    crate::sync::request::TransportError,
>)
    ensures
        incoming_view(r) == spec_read_incoming(*magic, bytes@, is_request),
{
    let message = match decode_message(bytes) {
        Some(m) => m,
        None => {
            return Err(crate::sync::request::TransportError::Malformed);
        },
    };
    if !message.has_magic(magic) {
        return Err(crate::sync::request::TransportError::WrongMagic);
    }
    match message.msg {
        MessageType::Syncing(SyncingMessage::Request(SyncingRequest::GetHeaders { locator })) => {
            if is_request {
                Ok(Incoming::GetHeaders { locator })
            } else {
                Err(crate::sync::request::TransportError::Malformed)
            }
        },
        MessageType::Syncing(SyncingMessage::Request(SyncingRequest::GetBlocks { block_ids })) => {
            if is_request {
                Ok(Incoming::GetBlocks { block_ids })
            } else {
                Err(crate::sync::request::TransportError::Malformed)
            }
        },
        MessageType::Syncing(SyncingMessage::Response(SyncingResponse::Headers { headers })) => {
            if !is_request {
                Ok(Incoming::Headers { headers })
            } else {
                Err(crate::sync::request::TransportError::Malformed)
            }
        },
        MessageType::Syncing(SyncingMessage::Response(SyncingResponse::Blocks { blocks })) => {
            if !is_request {
                Ok(Incoming::Blocks { blocks })
            } else {
                Err(crate::sync::request::TransportError::Malformed)
            }
        },
        MessageType::PubSub(_) => Err(crate::sync::request::TransportError::Malformed),
    }
}

} // verus!
