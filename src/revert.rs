//! Revert-reason decoding for failed on-chain calls.
//!
//! A failed call hands back a payload: a four-byte selector, then the
//! ABI-encoded arguments of the error. For the standard `Error(string)`
//! selector the string is decoded and reported; anything else degrades to the
//! raw message of the failure.

use vstd::prelude::*;
use vstd::utf8::{valid_utf8, decode_utf8, encode_utf8, encode_utf8_decode_utf8, encode_utf8_valid_utf8};

verus! {

/// Value of the last four bytes of the 32-byte word at `at`, big-endian.
pub open spec fn word_low_u32(data: Seq<u8>, at: int) -> int {
    data[at + 28] as int * 0x1000000 + data[at + 29] as int * 0x10000
        + data[at + 30] as int * 0x100 + data[at + 31] as int
}

/// The 32-byte word at `at` lies inside `data` and its first 28 bytes are zero.
pub open spec fn word_fits_u32(data: Seq<u8>, at: int) -> bool {
    0 <= at && at + 32 <= data.len() && forall|i: int| at <= i < at + 28 ==> data[i] == 0
}

/// Where the bytes of an ABI-encoded `string` (or `bytes`) lie: the first
/// word is an offset, the word there is the length, the bytes follow it.
/// `None` where a word does not fit 32 bits or runs past the data.
pub open spec fn abi_string_span(data: Seq<u8>) -> Option<(int, int)> {
    if word_fits_u32(data, 0) {
        let off = word_low_u32(data, 0);
        if word_fits_u32(data, off) {
            let len = word_low_u32(data, off);
            if off + 32 + len <= data.len() {
                Some((off + 32, len))
            } else {
                None
            }
        } else {
            None
        }
    } else {
        None
    }
}

pub open spec fn is_abi_string(data: Seq<u8>) -> bool {
    abi_string_span(data) is Some
}

/// The bytes of a well-formed ABI-encoded `string`.
pub open spec fn abi_string_bytes(data: Seq<u8>) -> Seq<u8>
    recommends
        is_abi_string(data),
{
    let (start, len) = abi_string_span(data).unwrap();
    data.subrange(start, start + len)
}

/// Relies on `ethers::abi::decode` with the single type `bytes`: it succeeds
/// exactly where the offset word, the length word and the bytes they point at
/// lie inside the data with both words below 2^32, and yields one bytes
/// token holding those bytes.
#[verifier::external_body]
fn abi_decode_bytes(data: &[u8]) -> (r: Option<Vec<u8>>)
    ensures
        r is Some <==> is_abi_string(data@),
        r matches Some(b) ==> b@ == abi_string_bytes(data@),
{
    match ethers::abi::decode(&[ethers::abi::ParamType::Bytes], data) {
        Ok(tokens) => match tokens.into_iter().next() {
            Some(ethers::abi::Token::Bytes(b)) => Some(b),
            _ => None,
        },
        Err(_) => None,
    }
}

/// Relies on `String::from_utf8` (std): it accepts exactly the valid UTF-8
/// byte sequences, and the string holds the characters they encode.
#[verifier::external_body]
fn utf8_text(bytes: Vec<u8>) -> (r: Option<String>)
    ensures
        r is Some <==> valid_utf8(bytes@),
        r matches Some(s) ==> s@ == decode_utf8(bytes@),
{
    String::from_utf8(bytes).ok()
}

/// The payload starts with the selector of `Error(string)`, `0x08c379a0`.
pub open spec fn has_error_selector(p: Seq<u8>) -> bool {
    p.len() >= 4 && p[0] == 0x08u8 && p[1] == 0xc3u8 && p[2] == 0x79u8 && p[3] == 0xa0u8
}

pub open spec fn reverted_prefix() -> Seq<char> {
    seq![
        't', 'r', 'a', 'n', 's', 'a', 'c', 't', 'i', 'o', 'n', ' ',
        'r', 'e', 'v', 'e', 'r', 't', 'e', 'd', ':', ' ',
    ]
}

/// What a failure is reported as, given the decoded reason if there is one.
pub open spec fn reported_failure(reason: Option<Seq<char>>, raw: Seq<char>) -> Seq<char> {
    match reason {
        Some(t) => reverted_prefix() + t,
        None => raw,
    }
}

/// The reason carried by a payload: the string of an `Error(string)` payload
/// whose argument is a well-formed ABI string of valid UTF-8.
pub open spec fn revert_reason(payload: Seq<u8>) -> Option<Seq<char>> {
    if has_error_selector(payload) && is_abi_string(payload.skip(4)) && valid_utf8(
        abi_string_bytes(payload.skip(4)),
    ) {
        Some(decode_utf8(abi_string_bytes(payload.skip(4))))
    } else {
        None
    }
}

/// `"transaction reverted: "` followed by the reason, or the raw message where
/// there is no reason.
pub fn revert_message(reason: Option<&str>, raw: &str) -> (r: String)
    ensures
        r@ == reported_failure(
            match reason {
                Some(t) => Some(t@),
                None => None,
            },
            raw@,
        ),
{
    match reason {
        Some(t) => {
            let prefix = "transaction reverted: ";
            proof {
                reveal_strlit("transaction reverted: ");
                assert(prefix@ =~= reverted_prefix());
            }
            String::from_str(prefix).concat(t)
        },
        None => String::from_str(raw),
    }
}

/// Decodes the revert reason of a failed call's payload. Where the payload is
/// not an `Error(string)` payload, or its string is malformed or not UTF-8,
/// the failure's raw message `raw` comes back unchanged.
pub fn decode_revert_error(payload: &[u8], raw: &str) -> (r: String)
    ensures
        r@ == reported_failure(revert_reason(payload@), raw@),
        !has_error_selector(payload@) ==> r@ == raw@,
{
    if payload.len() >= 4 && payload[0] == 0x08u8 && payload[1] == 0xc3u8 && payload[2] == 0x79u8
        && payload[3] == 0xa0u8 {
        let (_, args) = payload.split_at(4);
        assert(args@ =~= payload@.skip(4));
        match abi_decode_bytes(args) {
            Some(bytes) => match utf8_text(bytes) {
                Some(reason) => revert_message(Some(reason.as_str()), raw),
                None => revert_message(None, raw),
            },
            None => revert_message(None, raw),
        }
    } else {
        revert_message(None, raw)
    }
}

/// A 32-byte ABI word holding `n` (below 2^32): 28 zero bytes, then `n`
/// big-endian.
pub open spec fn abi_word(n: nat) -> Seq<u8> {
    Seq::new(28, |i: int| 0u8) + seq![
        ((n / 0x1000000) % 0x100) as u8,
        ((n / 0x10000) % 0x100) as u8,
        ((n / 0x100) % 0x100) as u8,
        (n % 0x100) as u8,
    ]
}

/// The standard ABI encoding of a lone `string` argument with bytes `b`:
/// offset word, length word, the bytes, zero padding to a whole word.
pub open spec fn abi_string_encoding(b: Seq<u8>) -> Seq<u8> {
    abi_word(32) + abi_word(b.len()) + b + Seq::new(((32 - b.len() % 32) % 32) as nat, |i: int| 0u8)
}

/// The revert payload of `Error(string)` with the string's bytes `b`.
pub open spec fn error_string_payload(b: Seq<u8>) -> Seq<u8> {
    seq![0x08u8, 0xc3u8, 0x79u8, 0xa0u8] + abi_string_encoding(b)
}

proof fn lemma_word_value(n: nat, data: Seq<u8>, at: int)
    requires
        n < 0x100000000,
        0 <= at,
        at + 32 <= data.len(),
        data.subrange(at, at + 32) == abi_word(n),
    ensures
        word_fits_u32(data, at),
        word_low_u32(data, at) == n,
{
    assert forall|i: int| at <= i < at + 28 implies data[i] == 0 by {
        assert(data.subrange(at, at + 32)[i - at] == data[i]);
    }
    assert(data[at + 28] == abi_word(n)[28]);
    assert(data[at + 29] == abi_word(n)[29]);
    assert(data[at + 30] == abi_word(n)[30]);
    assert(data[at + 31] == abi_word(n)[31]);
    let a = n / 0x1000000;
    let b = (n / 0x10000) % 0x100;
    let c = (n / 0x100) % 0x100;
    let d = n % 0x100;
    assert(a < 0x100) by (nonlinear_arith)
        requires
            n < 0x100000000,
            a == n / 0x1000000,
    ;
    assert(a * 0x1000000 + b * 0x10000 + c * 0x100 + d == n) by (nonlinear_arith)
        requires
            a == n / 0x1000000,
            b == (n / 0x10000) % 0x100,
            c == (n / 0x100) % 0x100,
            d == n % 0x100,
    ;
}

/// Decoding round trip: the `Error(string)` payload of any text, in the
/// standard encoding, is reported as `transaction reverted: ` and that text;
/// a payload whose string bytes are not UTF-8 is reported as the raw message.
pub proof fn lemma_error_string_round_trip(t: Seq<char>, b: Seq<u8>, raw: Seq<char>)
    requires
        b.len() < 0x100000000,
    ensures
        b == encode_utf8(t) ==> reported_failure(revert_reason(error_string_payload(b)), raw)
            == reverted_prefix() + t,
        !valid_utf8(b) ==> reported_failure(revert_reason(error_string_payload(b)), raw) == raw,
{
    broadcast use encode_utf8_decode_utf8, encode_utf8_valid_utf8;

    let p = error_string_payload(b);
    let e = abi_string_encoding(b);
    assert(p.skip(4) =~= e);
    assert(e.subrange(0, 32) =~= abi_word(32));
    assert(e.subrange(32, 64) =~= abi_word(b.len()));
    lemma_word_value(32, e, 0);
    lemma_word_value(b.len(), e, 32);
    assert(has_error_selector(p));
    assert(abi_string_bytes(e) =~= b);
}

} // verus!
