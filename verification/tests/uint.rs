use mintlayer::rpc::uint::{
    bits, from_big_endian, from_str, is_zero, to_big_endian, to_hex, UintError, U256,
};

#[test]
fn u256_serialize() {
    let u256 = U256::from_u64(256);
    let serialized = serde_json::to_string(&to_hex(&u256)).unwrap();
    assert_eq!(serialized, r#""100""#);
}

#[test]
fn u256_deserialize() {
    let u256 = U256::from_u64(256);
    let text: String = serde_json::from_str(r#""100""#).unwrap();
    let deserialized = from_str(&text).unwrap();
    assert_eq!(deserialized, u256);
}

#[test]
fn u256_text() {
    let zero = U256::from_u64(0);
    assert!(is_zero(&zero));
    assert_eq!(bits(&zero), 0);
    assert_eq!(to_hex(&zero), "0");
    assert_eq!(to_hex(&U256::from_u64(0xf)), "f");
    assert_eq!(to_hex(&U256::from_u64(0x10)), "10");
    assert_eq!(to_hex(&U256::from_u64(0xabcdef)), "abcdef");
    assert_eq!(to_hex(&U256::from_u64(u64::MAX)), "ffffffffffffffff");
    let big = U256 { words: [1, 0, 0, 0x0123] };
    assert!(!is_zero(&big));
    assert_eq!(bits(&big), 192 + 9);
    assert_eq!(bits(&U256::from_u64(1)), 1);
    assert_eq!(bits(&U256 { words: [0, 1, 0, 0] }), 65);
    assert_eq!(
        to_hex(&big),
        "123000000000000000000000000000000000000000000000001"
    );
    let mut expected = vec![0u8; 32];
    expected[6] = 0x01;
    expected[7] = 0x23;
    expected[31] = 0x01;
    assert_eq!(to_big_endian(&big), expected);
    assert_eq!(from_big_endian(&expected), big);
    assert_eq!(from_big_endian(&[0x01, 0x00]), U256::from_u64(256));
    assert_eq!(from_big_endian(&[]), zero);
    assert_eq!(from_str("123000000000000000000000000000000000000000000000001"), Ok(big));
    assert_eq!(from_str("ABC"), Ok(U256::from_u64(0xabc)));
    // white space is passed over; a text of odd length gets a zero before it
    assert_eq!(from_str(" 10 "), Ok(U256::from_u64(0x10)));
    assert_eq!(from_str(" 1 0\n"), Err(UintError::InvalidHexLength));
    assert_eq!(from_str("1g"), Err(UintError::InvalidHexCharacter(1)));
    assert_eq!(from_str("g"), Err(UintError::InvalidHexCharacter(1)));
    assert_eq!(from_str(&"1".repeat(65)), Err(UintError::TooLong));
    assert_eq!(from_str(&"f".repeat(64)), Ok(U256 { words: [u64::MAX; 4] }));
}
