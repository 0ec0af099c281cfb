use eth_labs::block::{parse_block_id, BlockIdError, BlockRef};
use eth_labs::client::EthereumClientError;
use eth_labs::text::{account_addresses, proposal_names, summary_labels, trim_text};

#[test]
fn trims_unicode_white_space() {
    assert_eq!(trim_text("  a b \t\n"), "a b");
    assert_eq!(trim_text("\u{3000}x\u{a0}"), "x");
    assert_eq!(trim_text("   "), "");
    assert_eq!(trim_text(""), "");
}

#[test]
fn proposal_names_one_per_line() {
    assert_eq!(proposal_names("Alice\n  Bob \n\n Carol"), vec!["Alice", "Bob", "Carol"]);
    assert_eq!(proposal_names(""), Vec::<String>::new());
    assert_eq!(proposal_names("\n \n"), Vec::<String>::new());
}

#[test]
fn summary_labels_cut_at_last_arrow() {
    assert_eq!(
        summary_labels("Alice => 3\nBob => 0\n"),
        vec!["Alice", "Bob"]
    );
    assert_eq!(summary_labels("a => b => 1\nplain\n  => 2"), vec!["a => b", "plain"]);
}

#[test]
fn account_list_parses() {
    let v = account_addresses(
        "0x00000000000000000000000000000000000000aa",
        " 0x00000000000000000000000000000000000000BB\n\t00000000000000000000000000000000000000cc ",
    )
    .unwrap();
    assert_eq!(v.len(), 3);
    assert_eq!(v[0].bytes[19], 0xaa);
    assert_eq!(v[1].bytes[19], 0xbb);
    assert_eq!(v[2].bytes[19], 0xcc);
}

#[test]
fn account_list_reports_first_bad_address() {
    match account_addresses("0x12", "") {
        Err(EthereumClientError::AddressParseError(t)) => assert_eq!(t, "0x12"),
        _ => panic!("expected AddressParseError"),
    }
    match account_addresses("0x00000000000000000000000000000000000000aa", "0x1 0x2") {
        Err(EthereumClientError::AddressParseError(t)) => assert_eq!(t, "0x1"),
        _ => panic!("expected AddressParseError"),
    }
    assert_eq!(account_addresses("0x00000000000000000000000000000000000000aa", "").unwrap().len(), 1);
}

#[test]
fn account_list_accepts_upper_case_prefix() {
    let v = account_addresses(
        "0x00000000000000000000000000000000000000aa",
        "0X00000000000000000000000000000000000000BB",
    )
    .unwrap();
    assert_eq!(v.len(), 2);
    assert_eq!(v[1].bytes[19], 0xbb);
    match account_addresses("0X00000000000000000000000000000000000000aa", "") {
        Err(EthereumClientError::AddressParseError(t)) => assert_eq!(t, "0X00000000000000000000000000000000000000aa"),
        _ => panic!("the primary account is read as written"),
    }
    match account_addresses("0x00000000000000000000000000000000000000aa", "0XZZ") {
        Err(EthereumClientError::AddressParseError(t)) => assert_eq!(t, "0xzz"),
        _ => panic!("expected AddressParseError"),
    }
}

#[test]
fn ascii_lowercase_leaves_other_characters() {
    assert_eq!(eth_labs::text::ascii_lowercase("0XAbC \u{c9}z"), "0xabc \u{c9}z");
}

#[test]
fn block_id_by_number() {
    assert_eq!(parse_block_id("42"), Ok(BlockRef::Number(42)));
    assert_eq!(parse_block_id("+7"), Ok(BlockRef::Number(7)));
    assert_eq!(parse_block_id("18446744073709551615"), Ok(BlockRef::Number(u64::MAX)));
    assert_eq!(
        parse_block_id("18446744073709551616"),
        Err(BlockIdError::InvalidNumber("18446744073709551616".to_string()))
    );
    assert!(matches!(parse_block_id(""), Err(BlockIdError::InvalidNumber(_))));
    assert!(matches!(parse_block_id("-1"), Err(BlockIdError::InvalidNumber(_))));
    assert!(matches!(parse_block_id("+"), Err(BlockIdError::InvalidNumber(_))));
    assert!(matches!(parse_block_id("1a"), Err(BlockIdError::InvalidNumber(_))));
    assert!(matches!(parse_block_id(" 1"), Err(BlockIdError::InvalidNumber(_))));
    assert!(matches!(parse_block_id("99999999999999999999x"), Err(BlockIdError::InvalidNumber(_))));
    assert_eq!(parse_block_id("007"), Ok(BlockRef::Number(7)));
    assert!(matches!(parse_block_id("0x12"), Err(BlockIdError::InvalidNumber(_))));
}

#[test]
fn block_id_by_hash() {
    let text = format!("0x{}", "ab".repeat(32));
    assert_eq!(parse_block_id(&text), Ok(BlockRef::Hash([0xab; 32])));
    let upper = format!("0x{}", "CD".repeat(32));
    assert_eq!(parse_block_id(&upper), Ok(BlockRef::Hash([0xcd; 32])));
    let bad = format!("0x{}zz", "ab".repeat(31));
    match parse_block_id(&bad) {
        Err(e @ BlockIdError::InvalidHex(_)) => assert!(e.message().starts_with("invalid character 'z'")),
        _ => panic!("expected InvalidHex"),
    }
    let doubled = format!("0x0x{}", "ab".repeat(31));
    match parse_block_id(&doubled) {
        Err(e @ BlockIdError::InvalidHash(_)) => assert_eq!(e.message(), format!("invalid block hash: {}", doubled)),
        _ => panic!("expected InvalidHash"),
    }
}
