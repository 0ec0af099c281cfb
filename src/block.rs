//! Block identifiers as users type them: a `0x`-prefixed 32-byte hash or a
//! decimal block number.

use vstd::prelude::*;
use crate::address::{is_hex_digit, hex_value};

verus! {

/// A block, by hash or by number.
#[derive(Clone, Copy, Debug, PartialEq, Eq)]
pub enum BlockRef {
    Hash([u8; 32]),
    Number(u64),
}

/// Why a block identifier was refused.
#[derive(Debug, PartialEq, Eq)]
pub enum BlockIdError {
    /// Looks like a hash but the hex decoder refused what follows the `0x`;
    /// the decoder's error text.
    InvalidHex(String),
    /// Looks like a hash and decodes, but not to 32 bytes; the text.
    InvalidHash(String),
    /// Not a decimal number that fits 64 bits; the text.
    InvalidNumber(String),
}

/// The text without one leading `0x` or `0X`.
pub open spec fn strip_hex_prefix_any_case(s: Seq<char>) -> Seq<char> {
    if s.len() >= 2 && s[0] == '0' && (s[1] == 'x' || s[1] == 'X') {
        s.skip(2)
    } else {
        s
    }
}

pub open spec fn all_hex_digits(s: Seq<char>) -> bool {
    forall|i: int| 0 <= i < s.len() ==> is_hex_digit(#[trigger] s[i])
}

/// Hex text that `hex::decode` accepts: an even number of characters, then,
/// past an optional `0x`/`0X`, hex digits only.
pub open spec fn is_hex_text(s: Seq<char>) -> bool {
    s.len() % 2 == 0 && all_hex_digits(strip_hex_prefix_any_case(s))
}

/// The bytes of a run of hex digits, two per byte, high digit first.
pub open spec fn hex_bytes(d: Seq<char>) -> Seq<u8> {
    Seq::new(d.len() / 2, |i: int| (hex_value(d[2 * i]) * 16 + hex_value(d[2 * i + 1])) as u8)
}

pub open spec fn is_ascii_digit(c: char) -> bool {
    '0' <= c && c <= '9'
}

/// The value of a run of decimal digits.
pub open spec fn decimal_value(d: Seq<char>) -> int
    decreases d.len(),
{
    if d.len() == 0 {
        0
    } else {
        decimal_value(d.drop_last()) * 10 + (d.last() as int - '0' as int)
    }
}

/// The digits of a decimal text: past an optional `+`.
pub open spec fn decimal_digits(s: Seq<char>) -> Seq<char> {
    if s.len() > 0 && s[0] == '+' {
        s.skip(1)
    } else {
        s
    }
}

/// Text that names a `u64`: an optional `+`, then one or more ASCII digits
/// whose value is below 2^64.
pub open spec fn is_u64_text(s: Seq<char>) -> bool {
    let d = decimal_digits(s);
    d.len() > 0 && (forall|i: int| 0 <= i < d.len() ==> is_ascii_digit(#[trigger] d[i]))
        && decimal_value(d) <= u64::MAX
}

/// The text of the error that `hex::decode` reports for refused input.
pub uninterp spec fn hex_error_text(text: Seq<char>) -> Seq<char>;

/// Relies on `ethers::utils::hex::decode` (the const-hex crate): it refuses
/// text of odd length, strips one `0x`/`0X`, and decodes hex digits of either
/// case two per byte, refusing any other character; a refusal is rendered with
/// `FromHexError`'s `Display`, which depends on the text alone.
#[verifier::external_body]
fn decode_hex(text: &str) -> (r: Result<Vec<u8>, String>)
    ensures
        r is Ok <==> is_hex_text(text@),
        r matches Ok(b) ==> b@ == hex_bytes(strip_hex_prefix_any_case(text@)),
        r matches Err(e) ==> e@ == hex_error_text(text@),
{
    match ethers::utils::hex::decode(text) {
        Ok(b) => Ok(b),
        Err(e) => Err(e.to_string()),
    }
}

pub open spec fn all_ascii_digits(d: Seq<char>) -> bool {
    forall|i: int| 0 <= i < d.len() ==> is_ascii_digit(#[trigger] d[i])
}

proof fn lemma_decimal_prefix(s: Seq<char>, j: int)
    requires
        all_ascii_digits(s),
        0 <= j <= s.len(),
    ensures
        0 <= decimal_value(s.take(j)) <= decimal_value(s),
    decreases s.len(),
{
    if j < s.len() {
        let t = s.drop_last();
        assert(all_ascii_digits(t)) by {
            assert forall|i: int| 0 <= i < t.len() implies is_ascii_digit(#[trigger] t[i]) by {
                assert(t[i] == s[i]);
            }
        }
        lemma_decimal_prefix(t, j);
        assert(t.take(j) =~= s.take(j));
        lemma_decimal_prefix(t, t.len() as int);
        assert(t.take(t.len() as int) =~= t);
        assert(is_ascii_digit(s[s.len() - 1]));
    } else {
        assert(s.take(j) =~= s);
        if s.len() > 0 {
            let t = s.drop_last();
            assert(all_ascii_digits(t)) by {
                assert forall|i: int| 0 <= i < t.len() implies is_ascii_digit(#[trigger] t[i]) by {
                    assert(t[i] == s[i]);
                }
            }
            lemma_decimal_prefix(t, t.len() as int);
            assert(t.take(t.len() as int) =~= t);
            assert(is_ascii_digit(s[s.len() - 1]));
        }
    }
}

/// Reads a `u64` written in decimal with an optional `+`, as `u64`'s
/// `FromStr` does.
fn parse_u64(text: &str) -> (r: Option<u64>)
    ensures
        r is Some <==> is_u64_text(text@),
        r matches Some(n) ==> n == decimal_value(decimal_digits(text@)),
{
    let n = text.unicode_len();
    let mut start: usize = 0;
    if n > 0 && text.get_char(0) == '+' {
        start = 1;
    }
    let ghost d = decimal_digits(text@);
    assert(d =~= text@.skip(start as int));
    if start == n {
        return None;
    }
    let mut v: u64 = 0;
    let mut i: usize = start;
    assert(d.take(0) =~= Seq::<char>::empty());
    while i < n
        invariant
            n == text@.len(),
            start < n,
            start <= i <= n,
            d == text@.skip(start as int),
            d == decimal_digits(text@),
            all_ascii_digits(d.take(i - start)),
            v == decimal_value(d.take(i - start)),
        decreases n - i,
    {
        let c = text.get_char(i);
        assert(d[i - start] == c);
        let ghost t = d.take(i - start + 1);
        assert(t.drop_last() =~= d.take(i - start));
        if !('0' <= c && c <= '9') {
            assert(!is_ascii_digit(d[i - start]));
            return None;
        }
        assert(all_ascii_digits(t));
        let digit = (c as u32 - '0' as u32) as u64;
        assert(digit <= 9 && digit as int == c as int - '0' as int);
        assert(decimal_value(t) == v * 10 + digit);
        if v > 1844674407370955161u64 || (v == 1844674407370955161u64 && digit > 5) {
            proof {
                assert(v * 10 + digit > 18446744073709551615u64) by (nonlinear_arith)
                    requires
                        v > 1844674407370955161u64 || (v == 1844674407370955161u64 && digit > 5),
                ;
                if is_u64_text(text@) {
                    assert(all_ascii_digits(d));
                    lemma_decimal_prefix(d, i - start + 1);
                }
            }
            return None;
        }
        assert(v * 10 + digit <= 18446744073709551615u64) by (nonlinear_arith)
            requires
                v <= 1844674407370955161u64,
                v < 1844674407370955161u64 || digit <= 5,
                digit <= 9,
        ;
        v = v * 10 + digit;
        i = i + 1;
    }
    assert(d.take(n - start) =~= d);
    Some(v)
}

/// The text reads as a hash: 66 characters starting with `0x`.
pub open spec fn looks_like_hash(s: Seq<char>) -> bool {
    s.len() == 66 && s[0] == '0' && s[1] == 'x'
}

/// Reads a block identifier: text of 66 characters that starts with `0x` is
/// a hash and must carry 64 hex digits after it (a refusal of the hex
/// decoder carries its error text); any other text is a decimal block number.
pub fn parse_block_id(input: &str) -> (r: Result<BlockRef, BlockIdError>)
    ensures
        looks_like_hash(input@) ==> (r is Ok <==> is_hex_text(input@.skip(2))
            && strip_hex_prefix_any_case(input@.skip(2)).len() == 64),
        looks_like_hash(input@) && r is Ok ==> (r matches Ok(BlockRef::Hash(h)) && h@ == hex_bytes(
            input@.skip(2),
        )),
        looks_like_hash(input@) && !is_hex_text(input@.skip(2)) ==> (r matches Err(
            BlockIdError::InvalidHex(t),
        ) && t@ == hex_error_text(input@.skip(2))),
        looks_like_hash(input@) && is_hex_text(input@.skip(2)) && r is Err ==> (r matches Err(
            BlockIdError::InvalidHash(t),
        ) && t@ == input@),
        !looks_like_hash(input@) ==> (r is Ok <==> is_u64_text(input@)),
        !looks_like_hash(input@) && r is Ok ==> (r matches Ok(BlockRef::Number(n)) && n
            == decimal_value(decimal_digits(input@))),
        !looks_like_hash(input@) && r is Err ==> (r matches Err(BlockIdError::InvalidNumber(t))
            && t@ == input@),
{
    let n = input.unicode_len();
    if n == 66 && input.get_char(0) == '0' && input.get_char(1) == 'x' {
        let rest = input.substring_char(2, 66);
        match decode_hex(rest) {
            Ok(bytes) => {
                if bytes.len() == 32 {
                    let mut hash = [0u8; 32];
                    let mut i: usize = 0;
                    while i < 32
                        invariant
                            0 <= i <= 32,
                            bytes@.len() == 32,
                            forall|j: int| 0 <= j < i ==> hash@[j] == bytes@[j],
                        decreases 32 - i,
                    {
                        hash.set(i, bytes[i]);
                        i = i + 1;
                    }
                    assert(hash@ =~= bytes@);
                    proof {
                        let d = strip_hex_prefix_any_case(rest@);
                        assert(d.len() == 64);
                        assert(d =~= rest@);
                    }
                    Ok(BlockRef::Hash(hash))
                } else {
                    Err(BlockIdError::InvalidHash(String::from_str(input)))
                }
            },
            Err(text) => Err(BlockIdError::InvalidHex(text)),
        }
    } else {
        match parse_u64(input) {
            Some(v) => Ok(BlockRef::Number(v)),
            None => Err(BlockIdError::InvalidNumber(String::from_str(input))),
        }
    }
}

impl BlockIdError {
    /// The text of the error, as it is shown to users.
    pub fn message(&self) -> (r: String)
        ensures
            self matches BlockIdError::InvalidHex(t) ==> r@ == t@,
            self matches BlockIdError::InvalidHash(t) ==> r@ == "invalid block hash: "@ + t@,
            self matches BlockIdError::InvalidNumber(t) ==> r@ == "invalid block number: "@ + t@,
    {
        match self {
            BlockIdError::InvalidHex(t) => t.clone(),
            BlockIdError::InvalidHash(t) => String::from_str("invalid block hash: ").concat(t.as_str()),
            BlockIdError::InvalidNumber(t) => String::from_str("invalid block number: ").concat(
                t.as_str(),
            ),
        }
    }
}

} // verus!
