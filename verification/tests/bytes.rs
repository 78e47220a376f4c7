use mintlayer::bytes::{Bytes, TaggedBytes};
use mintlayer::hexcode::HexError;
use mintlayer::rpc::bytes::{Bytes as RpcBytes, BytesFormatError};

#[test]
fn test_bytes_from_hex() {
    let bytes: Bytes = "0145".parse().unwrap();
    assert!(bytes == Bytes::from_vec(vec![0x01, 0x45]));
}

#[test]
fn test_bytes_debug_formatter() {
    let bytes: Bytes = "0145".parse().unwrap();
    assert_eq!(bytes.to_hex(), "0145".to_owned());
}

#[test]
fn test_bytes_serialize() {
    let bytes = RpcBytes(hex::decode("0123456789abcdef").unwrap());
    let serialized = serde_json::to_string(&bytes.serialized()).unwrap();
    assert_eq!(serialized, r#""0123456789abcdef""#);
}

fn from_json(text: &str) -> Result<RpcBytes, BytesFormatError> {
    let value: String = serde_json::from_str(text).unwrap();
    RpcBytes::visit_str(&value)
}

#[test]
fn test_bytes_deserialize() {
    let bytes1 = from_json(r#""""#);
    let bytes2 = from_json(r#""123""#);
    let bytes3 = from_json(r#""gg""#);

    let bytes4: RpcBytes = from_json(r#""12""#).unwrap();
    let bytes5: RpcBytes = from_json(r#""0123""#).unwrap();

    assert!(bytes1.is_err());
    assert!(bytes2.is_err());
    assert!(bytes3.is_err());
    assert_eq!(bytes4, RpcBytes(vec![0x12]));
    assert_eq!(bytes5, RpcBytes(vec![0x1, 0x23]));
}

#[test]
fn rpc_bytes_errors_are_told_apart() {
    assert_eq!(from_json(r#""""#), Err(BytesFormatError::InvalidFormat));
    assert_eq!(from_json(r#""123""#), Err(BytesFormatError::InvalidFormat));
    assert_eq!(from_json(r#""gg""#), Err(BytesFormatError::InvalidHex));
    assert_eq!(RpcBytes::new(vec![1, 2]).to_vec(), vec![1, 2]);
}

#[test]
fn hex_errors() {
    assert!(Bytes::parse_hex("123") == Err(HexError::OddLength));
    assert!(Bytes::parse_hex("12g4") == Err(HexError::InvalidHexCharacter { c: 'g', index: 2 }));
    assert!(Bytes::parse_hex("zz1") == Err(HexError::OddLength));
    assert!(Bytes::parse_hex("") == Ok(Bytes::new()));
    assert!(Bytes::parse_hex("AbCd") == Ok(Bytes::from_vec(vec![0xab, 0xcd])));
    assert_eq!(Bytes::from_vec(vec![0x00, 0xff, 0x10]).to_hex(), "00ff10");
}

#[test]
fn bytes_append_and_split() {
    let mut a = Bytes::from_vec(vec![1, 2, 3]);
    let mut b = Bytes::from_vec(vec![4, 5]);
    a.append(&mut b);
    assert_eq!(a.len(), 5);
    assert_eq!(b.len(), 0);
    let tail = a.split_off(2);
    assert_eq!(a.take(), vec![1, 2]);
    assert_eq!(tail.take(), vec![3, 4, 5]);
    let zeros = Bytes::new_with_len(4);
    assert_eq!(zeros.take(), vec![0, 0, 0, 0]);
    let tagged: TaggedBytes<u32> = TaggedBytes::new(Bytes::from_vec(vec![9]));
    assert!(tagged.into_raw() == Bytes::from_vec(vec![9]));
}
