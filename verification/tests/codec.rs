use mintlayer::chain::block::{Block, BlockHeader, BlockV1};
use mintlayer::chain::transaction::{
    Destination, Transaction, TransactionV1, TxInput, TxOutput,
};
use mintlayer::codec::chain::{
    block_id_preimage, decode_block, encode_block, tx_id_preimage,
};
use mintlayer::codec::prim::{
    decode_bytes, decode_compact, decode_u128, decode_u32, encode_bytes, encode_compact,
    encode_u128, encode_u32,
};
use mintlayer::primitives::{Amount, BlockId, TxId, H256};
use mintlayer::codec::message::{decode_message, encode_message, read_incoming, Incoming};
use mintlayer::sync::request::TransportError;
use mintlayer::sync::message::{
    Message, MessageType, PubSubMessage, SyncingMessage, SyncingRequest, SyncingResponse,
};
use parity_scale_codec::{Compact, Encode};

fn hash(n: u8) -> H256 {
    H256::from_bytes([n; 32])
}

fn sample_tx(witness: Vec<u8>) -> TransactionV1 {
    TransactionV1::new(
        1,
        vec![
            TxInput::new(TxId::new(hash(7)), 2, witness),
            TxInput::new(TxId::new(hash(8)), 0xffff_ffff, vec![]),
        ],
        vec![
            TxOutput::new(Amount::from_atoms(10), Destination::AnyoneCanSpend),
            TxOutput::new(Amount::from_atoms(1 << 100), Destination::PublicKey(vec![1, 2, 3])),
            TxOutput::new(Amount::from_atoms(0), Destination::Address(vec![9; 70])),
            TxOutput::new(Amount::from_atoms(u128::MAX), Destination::ScriptHash(hash(5))),
        ],
        77,
    )
    .unwrap()
}

fn sample_block() -> Block {
    let header = BlockHeader::new(BlockId::new(hash(1)), hash(2), hash(3), 0x01020304, vec![0xaa, 0xbb]);
    Block::V1(BlockV1::new(
        header,
        vec![Transaction::V1(sample_tx(vec![4, 5, 6])), Transaction::V1(sample_tx(vec![]))],
    ))
}

#[test]
fn block_roundtrip() {
    let block = sample_block();
    let bytes = encode_block(&block).unwrap();
    assert_eq!(decode_block(&bytes), Some(block));
}

#[test]
fn empty_block_has_the_expected_bytes() {
    let header = BlockHeader::new(BlockId::new(hash(1)), hash(2), hash(3), 0x01020304, vec![0xaa, 0xbb]);
    let block = Block::V1(BlockV1::new(header.clone(), vec![]));
    let mut expected = vec![0x01];
    expected.extend([1u8; 32]);
    expected.extend([2u8; 32]);
    expected.extend([3u8; 32]);
    expected.extend([0x04, 0x03, 0x02, 0x01]);
    expected.extend([0x08, 0xaa, 0xbb]);
    expected.push(0x00);
    assert_eq!(encode_block(&block), Some(expected.clone()));
    assert_eq!(decode_block(&expected), Some(block));
    // the id of a block is over the version byte and the header alone
    assert_eq!(block_id_preimage(&header), Some(expected[..expected.len() - 1].to_vec()));
}

#[test]
fn decoding_refuses_what_is_not_a_block() {
    let bytes = encode_block(&sample_block()).unwrap();
    assert_eq!(decode_block(&[]), None);
    // a byte too few, a byte too many, another version
    assert_eq!(decode_block(&bytes[..bytes.len() - 1]), None);
    let mut longer = bytes.clone();
    longer.push(0);
    assert_eq!(decode_block(&longer), None);
    let mut other = bytes.clone();
    other[0] = 2;
    assert_eq!(decode_block(&other), None);
    // a destination of an unknown kind
    let header = BlockHeader::new(BlockId::new(hash(1)), hash(2), hash(3), 0, vec![]);
    let tx = TransactionV1::new(
        0,
        vec![],
        vec![TxOutput::new(Amount::from_atoms(1), Destination::AnyoneCanSpend)],
        0,
    )
    .unwrap();
    let mut bytes =
        encode_block(&Block::V1(BlockV1::new(header, vec![Transaction::V1(tx)]))).unwrap();
    let tag_at = bytes.len() - 5;
    assert_eq!(bytes[tag_at], 0);
    bytes[tag_at] = 9;
    assert_eq!(decode_block(&bytes), None);
}

#[test]
fn integers_are_encoded_as_the_codec_does() {
    for n in [0u32, 1, 63, 64, 255, 16383, 16384, 65535, 1 << 20, (1 << 30) - 1, 1 << 30, u32::MAX] {
        let mut out = vec![0xee];
        encode_compact(n, &mut out);
        assert_eq!(out[1..], Compact(n).encode()[..]);
        out.push(0x55);
        assert_eq!(decode_compact(&out, 1), Some((n, out.len() - 1)));

        let mut out = vec![];
        encode_u32(n, &mut out);
        assert_eq!(out, n.to_le_bytes().to_vec());
        assert_eq!(decode_u32(&out, 0), Some((n, 4)));
    }
    let mut out = vec![];
    encode_compact(300, &mut out);
    assert_eq!(out, vec![0xb1, 0x04]);
    // a number written with more bytes than it needs is refused
    assert_eq!(decode_compact(&[0x01, 0x00], 0), None);
    assert_eq!(decode_compact(&[0xb1], 0), None);
    assert_eq!(decode_compact(&[], 0), None);
    assert_eq!(decode_u32(&[1, 2, 3], 0), None);

    let big = 0x0102030405060708090a0b0c0d0e0f10u128;
    let mut out = vec![];
    encode_u128(big, &mut out);
    assert_eq!(out, big.to_le_bytes().to_vec());
    assert_eq!(decode_u128(&out, 0), Some((big, 16)));
    assert_eq!(decode_u128(&out[1..], 0), None);
}

#[test]
fn byte_strings() {
    let data = vec![7u8; 100];
    let mut out = vec![];
    encode_bytes(&data, &mut out);
    assert_eq!(out, data.encode());
    assert_eq!(out.len(), 102);
    assert_eq!(decode_bytes(&out, 0), Some((data, 102)));
    assert_eq!(decode_bytes(&out[..50], 0), None);
}

#[test]
fn transaction_id_ignores_witnesses() {
    let a = tx_id_preimage(&sample_tx(vec![1, 2, 3])).unwrap();
    let b = tx_id_preimage(&sample_tx(vec![])).unwrap();
    assert_eq!(a, b);
    assert_eq!(a[0], 1);
    assert_eq!(a[1..5], [1, 0, 0, 0]);
    assert_eq!(a[5], 2 << 2);
    let mut other = sample_tx(vec![]);
    other.lock_time = 78;
    assert_ne!(tx_id_preimage(&other).unwrap(), a);
    assert!(sample_tx(vec![]).is_replaceable());
    assert!(!TransactionV1::new(2, vec![], vec![], 0).unwrap().is_replaceable());
}

#[test]
fn message_roundtrip() {
    let header = BlockHeader::new(BlockId::new(hash(1)), hash(2), hash(3), 4, vec![5]);
    let bodies = vec![
        MessageType::Syncing(SyncingMessage::Request(SyncingRequest::GetHeaders {
            locator: vec![BlockId::new(hash(1)), BlockId::new(hash(2))],
        })),
        MessageType::Syncing(SyncingMessage::Request(SyncingRequest::GetBlocks {
            block_ids: vec![],
        })),
        MessageType::Syncing(SyncingMessage::Response(SyncingResponse::Headers {
            headers: vec![header.clone(), header.clone()],
        })),
        MessageType::Syncing(SyncingMessage::Response(SyncingResponse::Blocks {
            blocks: vec![sample_block()],
        })),
        MessageType::PubSub(PubSubMessage::Block(sample_block())),
    ];
    for msg in bodies {
        let message = Message { magic: [0xde, 0xad, 0xbe, 0xef], msg };
        let bytes = encode_message(&message).unwrap();
        assert_eq!(bytes[..4], [0xde, 0xad, 0xbe, 0xef]);
        assert_eq!(decode_message(&bytes), Some(message));
        assert_eq!(decode_message(&bytes[..bytes.len() - 1]), None);
    }
    let request = Message {
        magic: [1, 2, 3, 4],
        msg: MessageType::Syncing(SyncingMessage::Request(SyncingRequest::GetHeaders {
            locator: vec![BlockId::new(hash(9))],
        })),
    };
    let mut expected = vec![1, 2, 3, 4, 0, 0, 0, 4];
    expected.extend([9u8; 32]);
    assert_eq!(encode_message(&request), Some(expected));
    assert_eq!(decode_message(&[1, 2, 3]), None);
    assert_eq!(decode_message(&[1, 2, 3, 4, 2, 0, 0]), None);
    assert_eq!(decode_message(&[1, 2, 3, 4, 0, 0, 2, 0]), None);
}

#[test]
fn incoming_bytes_are_checked() {
    let magic = [1, 2, 3, 4];
    let request = Message {
        magic,
        msg: MessageType::Syncing(SyncingMessage::Request(SyncingRequest::GetBlocks {
            block_ids: vec![BlockId::new(hash(9))],
        })),
    };
    let bytes = encode_message(&request).unwrap();
    assert_eq!(
        read_incoming(&magic, &bytes, true),
        Ok(Incoming::GetBlocks { block_ids: vec![BlockId::new(hash(9))] })
    );
    // a request that comes in as an answer, another chain, no message at all
    assert_eq!(read_incoming(&magic, &bytes, false), Err(TransportError::Malformed));
    assert_eq!(read_incoming(&[1, 2, 3, 5], &bytes, true), Err(TransportError::WrongMagic));
    assert_eq!(read_incoming(&magic, &bytes[..10], true), Err(TransportError::Malformed));
    let published = Message { magic, msg: MessageType::PubSub(PubSubMessage::Block(sample_block())) };
    let bytes = encode_message(&published).unwrap();
    assert_eq!(read_incoming(&magic, &bytes, false), Err(TransportError::Malformed));
}
