//! Account and contract addresses: twenty bytes, parsed from hex text and
//! rendered back as `0x`-prefixed lower-case hex.

use vstd::prelude::*;

verus! {

/// A twenty-byte Ethereum address.
#[derive(Clone, Copy, Debug, PartialEq, Eq)]
pub struct Address {
    pub bytes: [u8; 20],
}

/// Separators that the hex reader skips between digits.
pub open spec fn is_hex_space(c: char) -> bool {
    c == ' ' || c == '\r' || c == '\n' || c == '\t'
}

pub open spec fn is_hex_digit(c: char) -> bool {
    ('0' <= c && c <= '9') || ('a' <= c && c <= 'f') || ('A' <= c && c <= 'F')
}

pub open spec fn hex_value(c: char) -> int {
    if '0' <= c && c <= '9' {
        c as int - '0' as int
    } else if 'a' <= c && c <= 'f' {
        c as int - 'a' as int + 10
    } else {
        c as int - 'A' as int + 10
    }
}

/// The text without a leading `0x`, if it has one.
pub open spec fn strip_hex_prefix(s: Seq<char>) -> Seq<char> {
    if s.len() >= 2 && s[0] == '0' && s[1] == 'x' {
        s.skip(2)
    } else {
        s
    }
}

/// The characters of an address text that carry digits.
pub open spec fn address_digits(s: Seq<char>) -> Seq<char> {
    strip_hex_prefix(s).filter(|c: char| !is_hex_space(c))
}

/// Text that names an address: an optional `0x`, then exactly forty hex
/// digits of either case, with spaces, tabs and line breaks allowed between them.
pub open spec fn is_address_text(s: Seq<char>) -> bool {
    let d = address_digits(s);
    d.len() == 40 && forall|i: int| 0 <= i < d.len() ==> is_hex_digit(#[trigger] d[i])
}

/// The bytes that an address text denotes, two digits per byte, high digit first.
pub open spec fn address_bytes(s: Seq<char>) -> Seq<u8> {
    let d = address_digits(s);
    Seq::new(20, |i: int| (hex_value(d[2 * i]) * 16 + hex_value(d[2 * i + 1])) as u8)
}

/// Lower-case hex digit of a value below sixteen.
pub open spec fn lower_hex_digit(n: int) -> char {
    if n < 10 {
        ('0' as int + n) as char
    } else {
        ('a' as int + n - 10) as char
    }
}

/// Two lower-case hex digits per byte, high digit first.
pub open spec fn lower_hex(b: Seq<u8>) -> Seq<char>
    decreases b.len(),
{
    if b.len() == 0 {
        Seq::empty()
    } else {
        lower_hex(b.drop_last()) + seq![
            lower_hex_digit(b.last() as int / 16),
            lower_hex_digit(b.last() as int % 16),
        ]
    }
}

/// `0x` followed by the forty lower-case digits of the address.
pub open spec fn address_text(a: Address) -> Seq<char> {
    seq!['0', 'x'] + lower_hex(a.bytes@)
}

/// Relies on `ethers::types::Address` (fixed-hash's `H160`) `FromStr`: it
/// strips one leading `0x`, reads hex digits of either case while skipping
/// ` `, `\r`, `\n` and `\t`, and accepts exactly twenty bytes' worth.
#[verifier::external_body]
fn parse_h160(text: &str) -> (r: Option<[u8; 20]>)
    ensures
        r is Some <==> is_address_text(text@),
        r matches Some(b) ==> b@ == address_bytes(text@),
{
    text.parse::<ethers::types::Address>().ok().map(|a| a.0)
}

impl Address {
    /// Reads an address from text, or `None` where the text names none.
    pub fn parse(text: &str) -> (r: Option<Address>)
        ensures
            r is Some <==> is_address_text(text@),
            r matches Some(a) ==> a.bytes@ == address_bytes(text@),
    {
        match parse_h160(text) {
            Some(bytes) => Some(Address { bytes }),
            None => None,
        }
    }

    /// The address as `0x` and forty lower-case hex digits.
    pub fn to_hex(&self) -> (r: String)
        ensures
            r@ == address_text(*self),
    {
        let digits = "0123456789abcdef";
        proof {
            reveal_strlit("0123456789abcdef");
            reveal_strlit("0x");
        }
        let ghost table = seq!['0', '1', '2', '3', '4', '5', '6', '7', '8', '9', 'a', 'b', 'c', 'd', 'e', 'f'];
        assert(digits@ =~= table);
        assert forall|n: int| 0 <= n < 16 implies table[n] == lower_hex_digit(n) by {}
        let mut out = String::from_str("0x");
        let mut i: usize = 0;
        while i < 20
            invariant
                0 <= i <= 20,
                digits@ == table,
                table.len() == 16,
                forall|n: int| 0 <= n < 16 ==> table[n] == lower_hex_digit(n),
                out@ == seq!['0', 'x'] + lower_hex(self.bytes@.take(i as int)),
            decreases 20 - i,
        {
            let b = self.bytes[i];
            let hi = (b / 16) as usize;
            let lo = (b % 16) as usize;
            out.append(digits.substring_char(hi, hi + 1));
            out.append(digits.substring_char(lo, lo + 1));
            proof {
                let t = self.bytes@.take(i as int + 1);
                assert(t.drop_last() =~= self.bytes@.take(i as int));
                assert(t.last() == b);
            }
            i = i + 1;
        }
        assert(self.bytes@.take(20) =~= self.bytes@);
        out
    }
}

} // verus!
