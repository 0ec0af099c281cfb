use eth_labs::client::{parse_address, EthereumClientError};
use eth_labs::address::Address;

#[test]
fn parses_prefixed_address() {
    let a = Address::parse("0x00000000000000000000000000000000000000ff").unwrap();
    let mut expected = [0u8; 20];
    expected[19] = 0xff;
    assert_eq!(a.bytes, expected);
}

#[test]
fn parses_unprefixed_mixed_case_address() {
    let a = Address::parse("ABcdef0123456789abcdef0123456789ABCDEF01").unwrap();
    assert_eq!(a.bytes[0], 0xab);
    assert_eq!(a.bytes[1], 0xcd);
    assert_eq!(a.bytes[19], 0x01);
}

#[test]
fn rejects_malformed_addresses() {
    assert!(Address::parse("").is_none());
    assert!(Address::parse("0x").is_none());
    assert!(Address::parse("0x123").is_none());
    assert!(Address::parse("0x00000000000000000000000000000000000000fff").is_none());
    assert!(Address::parse("0x00000000000000000000000000000000000000fg").is_none());
    assert!(Address::parse("0X00000000000000000000000000000000000000ff").is_none());
}

#[test]
fn renders_lower_case_hex() {
    let a = Address::parse("0xABCDEF0123456789ABCDEF0123456789ABCDEF01").unwrap();
    assert_eq!(a.to_hex(), "0xabcdef0123456789abcdef0123456789abcdef01");
    let zero = Address { bytes: [0u8; 20] };
    assert_eq!(zero.to_hex(), "0x0000000000000000000000000000000000000000");
}

#[test]
fn parse_address_reports_bad_text() {
    assert_eq!(parse_address("0x00000000000000000000000000000000000000ff").unwrap().bytes[19], 0xff);
    match parse_address("0xzz") {
        Err(EthereumClientError::AddressParseError(t)) => assert_eq!(t, "0xzz"),
        _ => panic!("expected AddressParseError"),
    }
}
