use eth_labs::revert::{decode_revert_error, revert_message};

fn word(n: u32) -> Vec<u8> {
    let mut w = vec![0u8; 28];
    w.extend_from_slice(&n.to_be_bytes());
    w
}

fn error_string_payload(text: &str) -> Vec<u8> {
    let mut p = vec![0x08, 0xc3, 0x79, 0xa0];
    p.extend(word(32));
    p.extend(word(text.len() as u32));
    let mut data = text.as_bytes().to_vec();
    while data.len() % 32 != 0 {
        data.push(0);
    }
    p.extend(data);
    p
}

#[test]
fn decodes_error_string_reason() {
    let payload = error_string_payload("insufficient funds");
    assert_eq!(
        decode_revert_error(&payload, "raw node error"),
        "transaction reverted: insufficient funds"
    );
}

#[test]
fn other_selector_keeps_raw_message() {
    let mut payload = vec![0x4e, 0x48, 0x7b, 0x71];
    payload.extend(word(32));
    payload.extend(word(18));
    payload.extend(b"insufficient funds".iter());
    assert_eq!(decode_revert_error(&payload, "execution reverted"), "execution reverted");
}

#[test]
fn arbitrary_bytes_after_other_selector_keep_raw_message() {
    let payload = vec![0xde, 0xad, 0xbe, 0xef, 1, 2, 3, 4, 5, 6, 7];
    assert_eq!(decode_revert_error(&payload, "0xdeadbeef01020304050607"), "0xdeadbeef01020304050607");
}

#[test]
fn short_payload_keeps_raw_message() {
    assert_eq!(decode_revert_error(&[0x08, 0xc3, 0x79], "short"), "short");
    assert_eq!(decode_revert_error(&[], "empty"), "empty");
}

#[test]
fn truncated_string_keeps_raw_message() {
    let mut payload = error_string_payload("insufficient funds");
    payload.truncate(4 + 64 + 10);
    assert_eq!(decode_revert_error(&payload, "raw"), "raw");
}

#[test]
fn oversized_offset_keeps_raw_message() {
    let mut payload = vec![0x08, 0xc3, 0x79, 0xa0];
    let mut w = vec![1u8; 32];
    w[31] = 32;
    payload.extend(w);
    payload.extend(word(2));
    payload.extend(vec![b'h', b'i']);
    assert_eq!(decode_revert_error(&payload, "raw"), "raw");
}

#[test]
fn empty_reason_string() {
    let payload = error_string_payload("");
    assert_eq!(decode_revert_error(&payload, "raw"), "transaction reverted: ");
}

#[test]
fn revert_message_with_and_without_reason() {
    assert_eq!(revert_message(Some("nope"), "raw"), "transaction reverted: nope");
    assert_eq!(revert_message(None, "raw"), "raw");
}

#[test]
fn non_utf8_reason_keeps_raw_message() {
    let mut payload = vec![0x08, 0xc3, 0x79, 0xa0];
    payload.extend(word(32));
    payload.extend(word(1));
    let mut data = vec![0xffu8];
    data.resize(32, 0);
    payload.extend(data);
    assert_eq!(decode_revert_error(&payload, "x"), "x");
}

#[test]
fn multibyte_utf8_reason_is_decoded() {
    let payload = error_string_payload("caf\u{e9} \u{2603}");
    assert_eq!(decode_revert_error(&payload, "raw"), "transaction reverted: caf\u{e9} \u{2603}");
}
