//! Line and field splitting, trimming, and the list-valued settings built
//! with them: ballot proposal names, the proposal summary a ballot reports,
//! and the account address list.

use vstd::prelude::*;
use crate::address::{Address, is_address_text, address_bytes};
use crate::client::EthereumClientError;

verus! {

/// Characters with the Unicode `White_Space` property.
pub open spec fn is_white_space(c: char) -> bool {
    ('\u{9}' <= c && c <= '\u{d}') || c == ' ' || c == '\u{85}' || c == '\u{a0}' || c == '\u{1680}'
        || ('\u{2000}' <= c && c <= '\u{200a}') || c == '\u{2028}' || c == '\u{2029}' || c
        == '\u{202f}' || c == '\u{205f}' || c == '\u{3000}'
}

pub open spec fn is_line_break(c: char) -> bool {
    c == '\n'
}

/// The pieces of `s` between separators, empty pieces included: a text
/// with `k` separators has `k + 1` pieces.
pub open spec fn split_by(s: Seq<char>, sep: spec_fn(char) -> bool) -> Seq<Seq<char>>
    decreases s.len(),
{
    if s.len() == 0 {
        seq![Seq::empty()]
    } else {
        let p = split_by(s.drop_last(), sep);
        if sep(s.last()) {
            p.push(Seq::empty())
        } else {
            p.update(p.len() - 1, p.last().push(s.last()))
        }
    }
}

pub open spec fn trim_start(s: Seq<char>) -> Seq<char>
    decreases s.len(),
{
    if s.len() > 0 && is_white_space(s[0]) {
        trim_start(s.skip(1))
    } else {
        s
    }
}

pub open spec fn trim_end(s: Seq<char>) -> Seq<char>
    decreases s.len(),
{
    if s.len() > 0 && is_white_space(s.last()) {
        trim_end(s.drop_last())
    } else {
        s
    }
}

/// `s` without leading and trailing white space.
pub open spec fn trimmed(s: Seq<char>) -> Seq<char> {
    trim_end(trim_start(s))
}

/// The pieces that are not empty, in order.
pub open spec fn non_empty(p: Seq<Seq<char>>) -> Seq<Seq<char>>
    decreases p.len(),
{
    if p.len() == 0 {
        Seq::empty()
    } else if p.last().len() > 0 {
        non_empty(p.drop_last()).push(p.last())
    } else {
        non_empty(p.drop_last())
    }
}

/// Each piece trimmed.
pub open spec fn trim_all(p: Seq<Seq<char>>) -> Seq<Seq<char>> {
    p.map_values(|x: Seq<char>| trimmed(x))
}

/// The names in a list with one name per line, trimmed, blank lines dropped.
pub open spec fn listed_names(s: Seq<char>) -> Seq<Seq<char>> {
    non_empty(trim_all(split_by(s, |c: char| is_line_break(c))))
}

/// `t` occurs in `s` at `i`.
pub open spec fn occurs_at(s: Seq<char>, t: Seq<char>, i: int) -> bool {
    0 <= i && i + t.len() <= s.len() && s.subrange(i, i + t.len()) == t
}

pub open spec fn arrow() -> Seq<char> {
    seq![' ', '=', '>', ' ']
}

/// A summary line up to its last ` => `, or the whole line without one.
pub open spec fn before_last_arrow(s: Seq<char>) -> Seq<char> {
    if exists|i: int| occurs_at(s, arrow(), i) {
        let i = choose|i: int| occurs_at(s, arrow(), i) && forall|j: int| i < j ==> !occurs_at(s, arrow(), j);
        s.take(i)
    } else {
        s
    }
}

/// The proposal names of a summary with one `name => votes` line per proposal.
pub open spec fn labels_of_summary(s: Seq<char>) -> Seq<Seq<char>> {
    non_empty(split_by(s, |c: char| is_line_break(c)).map_values(|l: Seq<char>| trimmed(before_last_arrow(l))))
}

pub fn is_white_space_char(c: char) -> (r: bool)
    ensures
        r == is_white_space(c),
{
    ('\u{9}' <= c && c <= '\u{d}') || c == ' ' || c == '\u{85}' || c == '\u{a0}' || c == '\u{1680}'
        || ('\u{2000}' <= c && c <= '\u{200a}') || c == '\u{2028}' || c == '\u{2029}' || c
        == '\u{202f}' || c == '\u{205f}' || c == '\u{3000}'
}

proof fn lemma_split_nonempty(s: Seq<char>, sep: spec_fn(char) -> bool)
    ensures
        split_by(s, sep).len() >= 1,
    decreases s.len(),
{
    if s.len() > 0 {
        lemma_split_nonempty(s.drop_last(), sep);
    }
}

/// The pieces of `s` between line breaks (`line_breaks`) or between white
/// space characters (otherwise).
fn split_pieces(s: &str, line_breaks: bool) -> (r: Vec<String>)
    ensures
        line_breaks ==> r@.map_values(|x: String| x@) == split_by(s@, |c: char| is_line_break(c)),
        !line_breaks ==> r@.map_values(|x: String| x@) == split_by(s@, |c: char| is_white_space(c)),
{
    let ghost sep: spec_fn(char) -> bool = if line_breaks {
        |c: char| is_line_break(c)
    } else {
        |c: char| is_white_space(c)
    };
    let n = s.unicode_len();
    let mut pieces: Vec<String> = Vec::new();
    let mut start: usize = 0;
    let mut i: usize = 0;
    assert(s@.take(0) =~= Seq::<char>::empty());
    assert(pieces@.map_values(|x: String| x@) =~= Seq::<Seq<char>>::empty());
    assert(s@.subrange(0, 0) =~= Seq::<char>::empty());
    while i < n
        invariant
            n == s@.len(),
            0 <= start <= i <= n,
            sep == (if line_breaks {
                |c: char| is_line_break(c)
            } else {
                |c: char| is_white_space(c)
            }),
            split_by(s@.take(i as int), sep) == pieces@.map_values(|x: String| x@).push(
                s@.subrange(start as int, i as int),
            ),
        decreases n - i,
    {
        let c = s.get_char(i);
        let is_sep = if line_breaks {
            c == '\n'
        } else {
            is_white_space_char(c)
        };
        let ghost before = pieces@.map_values(|x: String| x@);
        proof {
            assert(s@.take(i + 1).drop_last() =~= s@.take(i as int));
            assert(s@.take(i + 1).last() == c);
            assert(is_sep == sep(c));
        }
        if is_sep {
            let piece_start = start;
            pieces.push(s.substring_char(start, i).to_string());
            start = i + 1;
            assert(pieces@.map_values(|x: String| x@) =~= before.push(s@.subrange(piece_start as int, i as int)));
            assert(s@.subrange(start as int, i + 1) =~= Seq::<char>::empty());
        } else {
            assert(s@.subrange(start as int, i + 1) =~= s@.subrange(start as int, i as int).push(c));
        }
        i = i + 1;
    }
    let ghost before = pieces@.map_values(|x: String| x@);
    pieces.push(s.substring_char(start, n).to_string());
    assert(s@.take(n as int) =~= s@);
    assert(pieces@.map_values(|x: String| x@) =~= before.push(s@.subrange(start as int, n as int)));
    pieces
}

proof fn lemma_trim_start(s: Seq<char>, a: int)
    requires
        0 <= a <= s.len(),
        forall|j: int| 0 <= j < a ==> is_white_space(#[trigger] s[j]),
        a == s.len() || !is_white_space(s[a]),
    ensures
        trim_start(s) == s.skip(a),
    decreases a,
{
    if a > 0 {
        assert forall|j: int| 0 <= j < a - 1 implies is_white_space(#[trigger] s.skip(1)[j]) by {
            assert(s.skip(1)[j] == s[j + 1]);
        }
        lemma_trim_start(s.skip(1), a - 1);
        assert(s.skip(1).skip(a - 1) =~= s.skip(a));
    } else {
        assert(s.skip(0) =~= s);
    }
}

proof fn lemma_trim_end(s: Seq<char>, b: int)
    requires
        0 <= b <= s.len(),
        forall|j: int| b <= j < s.len() ==> is_white_space(#[trigger] s[j]),
        b == 0 || !is_white_space(s[b - 1]),
    ensures
        trim_end(s) == s.take(b),
    decreases s.len() - b,
{
    if b < s.len() {
        lemma_trim_end(s.drop_last(), b);
        assert(s.drop_last().take(b) =~= s.take(b));
    } else {
        assert(s.take(b) =~= s);
    }
}

/// `s` without leading and trailing white space.
pub fn trim_text(s: &str) -> (r: String)
    ensures
        r@ == trimmed(s@),
{
    let n = s.unicode_len();
    let mut a: usize = 0;
    while a < n && is_white_space_char(s.get_char(a))
        invariant
            n == s@.len(),
            0 <= a <= n,
            forall|j: int| 0 <= j < a ==> is_white_space(#[trigger] s@[j]),
        decreases n - a,
    {
        a = a + 1;
    }
    let mut b: usize = n;
    while b > a && is_white_space_char(s.get_char(b - 1))
        invariant
            n == s@.len(),
            0 <= a <= b <= n,
            a == n || !is_white_space(s@[a as int]),
            forall|j: int| b <= j < n ==> is_white_space(#[trigger] s@[j]),
        decreases b,
    {
        b = b - 1;
    }
    proof {
        lemma_trim_start(s@, a as int);
        let t = s@.skip(a as int);
        assert forall|j: int| b - a <= j < t.len() implies is_white_space(#[trigger] t[j]) by {
            assert(t[j] == s@[j + a]);
        }
        if b > a {
            assert(t[b - a - 1] == s@[b - 1]);
        }
        lemma_trim_end(t, (b - a) as int);
        assert(t.take(b - a) =~= s@.subrange(a as int, b as int));
    }
    s.substring_char(a, b).to_string()
}

/// The names of a list with one name per line, each trimmed, blank lines
/// dropped.
pub fn proposal_names(list: &str) -> (r: Vec<String>)
    ensures
        r@.map_values(|x: String| x@) == listed_names(list@),
{
    let pieces = split_pieces(list, true);
    let ghost all = pieces@.map_values(|x: String| x@);
    let mut out: Vec<String> = Vec::new();
    let mut k: usize = 0;
    assert(trim_all(all.take(0)) =~= Seq::<Seq<char>>::empty());
    assert(out@.map_values(|x: String| x@) =~= Seq::<Seq<char>>::empty());
    while k < pieces.len()
        invariant
            0 <= k <= pieces@.len(),
            all == pieces@.map_values(|x: String| x@),
            out@.map_values(|x: String| x@) == non_empty(trim_all(all.take(k as int))),
        decreases pieces@.len() - k,
    {
        let t = trim_text(pieces[k].as_str());
        let ghost before = out@.map_values(|x: String| x@);
        proof {
            let u = trim_all(all.take(k + 1));
            assert(u.drop_last() =~= trim_all(all.take(k as int)));
            assert(u.last() == trimmed(all[k as int]));
        }
        if !t.as_str().is_empty() {
            out.push(t);
            assert(out@.map_values(|x: String| x@) =~= before.push(trimmed(all[k as int])));
        }
        k = k + 1;
    }
    assert(all.take(pieces@.len() as int) =~= all);
    out
}

/// The last place where ` => ` starts in `s`, if any.
fn last_arrow(s: &str) -> (r: Option<usize>)
    ensures
        r matches Some(i) ==> occurs_at(s@, arrow(), i as int) && forall|j: int|
            i < j ==> !occurs_at(s@, arrow(), j),
        r is None ==> forall|j: int| !occurs_at(s@, arrow(), j),
{
    let n = s.unicode_len();
    if n < 4 {
        return None;
    }
    let mut i: usize = n - 3;
    while i > 0
        invariant
            n == s@.len(),
            n >= 4,
            0 <= i <= n - 3,
            forall|j: int| i <= j ==> !occurs_at(s@, arrow(), j),
        decreases i,
    {
        i = i - 1;
        if s.get_char(i) == ' ' && s.get_char(i + 1) == '=' && s.get_char(i + 2) == '>' && s.get_char(
            i + 3,
        ) == ' ' {
            assert(s@.subrange(i as int, i + 4) =~= arrow());
            return Some(i);
        }
    }
    None
}

/// A summary line up to its last ` => `, or the whole line without one.
fn cut_at_last_arrow(s: &str) -> (r: &str)
    ensures
        r@ == before_last_arrow(s@),
{
    match last_arrow(s) {
        Some(i) => {
            let ghost c = choose|i: int| occurs_at(s@, arrow(), i) && forall|j: int| i < j ==> !occurs_at(s@, arrow(), j);
            assert(occurs_at(s@, arrow(), i as int));
            assert(c == i as int) by {
                if c < i {
                } else if c > i {
                }
            }
            s.substring_char(0, i)
        },
        None => s,
    }
}

/// The proposal names of a ballot summary that holds one `name => votes`
/// line per proposal: each line up to its last ` => `, trimmed, blank ones
/// dropped.
pub fn summary_labels(summary: &str) -> (r: Vec<String>)
    ensures
        r@.map_values(|x: String| x@) == labels_of_summary(summary@),
{
    let pieces = split_pieces(summary, true);
    let ghost all = pieces@.map_values(|x: String| x@);
    let ghost cut = all.map_values(|l: Seq<char>| trimmed(before_last_arrow(l)));
    let mut out: Vec<String> = Vec::new();
    let mut k: usize = 0;
    assert(cut.take(0) =~= Seq::<Seq<char>>::empty());
    assert(out@.map_values(|x: String| x@) =~= Seq::<Seq<char>>::empty());
    while k < pieces.len()
        invariant
            0 <= k <= pieces@.len(),
            all == pieces@.map_values(|x: String| x@),
            cut == all.map_values(|l: Seq<char>| trimmed(before_last_arrow(l))),
            out@.map_values(|x: String| x@) == non_empty(cut.take(k as int)),
        decreases pieces@.len() - k,
    {
        let t = trim_text(cut_at_last_arrow(pieces[k].as_str()));
        let ghost before = out@.map_values(|x: String| x@);
        proof {
            let u = cut.take(k + 1);
            assert(u.drop_last() =~= cut.take(k as int));
            assert(u.last() == cut[k as int]);
        }
        if !t.as_str().is_empty() {
            out.push(t);
            assert(out@.map_values(|x: String| x@) =~= before.push(cut[k as int]));
        }
        k = k + 1;
    }
    assert(cut.take(pieces@.len() as int) =~= cut);
    out
}

pub open spec fn lower_alphabet() -> Seq<char> {
    seq![
        'a', 'b', 'c', 'd', 'e', 'f', 'g', 'h', 'i', 'j', 'k', 'l', 'm', 'n', 'o', 'p', 'q', 'r',
        's', 't', 'u', 'v', 'w', 'x', 'y', 'z',
    ]
}

/// `c` with an ASCII upper-case letter made lower-case.
pub open spec fn ascii_lower_char(c: char) -> char {
    if 'A' <= c && c <= 'Z' {
        lower_alphabet()[c as int - 'A' as int]
    } else {
        c
    }
}

/// `s` with its ASCII upper-case letters made lower-case.
pub open spec fn ascii_lower(s: Seq<char>) -> Seq<char> {
    s.map_values(|c: char| ascii_lower_char(c))
}

/// `s` with its ASCII upper-case letters made lower-case.
pub fn ascii_lowercase(s: &str) -> (r: String)
    ensures
        r@ == ascii_lower(s@),
{
    let letters = "abcdefghijklmnopqrstuvwxyz";
    proof {
        reveal_strlit("abcdefghijklmnopqrstuvwxyz");
        assert(letters@ =~= lower_alphabet());
    }
    let n = s.unicode_len();
    let mut out = String::new();
    let mut i: usize = 0;
    while i < n
        invariant
            n == s@.len(),
            0 <= i <= n,
            letters@ == lower_alphabet(),
            out@ == ascii_lower(s@.take(i as int)),
        decreases n - i,
    {
        let c = s.get_char(i);
        if 'A' <= c && c <= 'Z' {
            let k = (c as u32 - 'A' as u32) as usize;
            out.append(letters.substring_char(k, k + 1));
        } else {
            out.append(s.substring_char(i, i + 1));
        }
        assert(ascii_lower(s@.take(i + 1)) =~= ascii_lower(s@.take(i as int)).push(ascii_lower_char(c)));
        i = i + 1;
    }
    assert(s@.take(n as int) =~= s@);
    out
}

/// The non-empty pieces, in order, each with ASCII letters made lower-case.
pub open spec fn lowered_non_empty(p: Seq<Seq<char>>) -> Seq<Seq<char>>
    decreases p.len(),
{
    if p.len() == 0 {
        Seq::empty()
    } else if p.last().len() > 0 {
        lowered_non_empty(p.drop_last()).push(ascii_lower(p.last()))
    } else {
        lowered_non_empty(p.drop_last())
    }
}

/// The white-space separated fields of `s`, each with ASCII letters made
/// lower-case.
pub open spec fn lowered_fields(s: Seq<char>) -> Seq<Seq<char>> {
    lowered_non_empty(split_by(s, |c: char| is_white_space(c)))
}

/// The first field of `f` that names no address, if any.
pub open spec fn first_bad_field(f: Seq<Seq<char>>) -> Option<Seq<char>>
    decreases f.len(),
{
    if f.len() == 0 {
        None
    } else {
        match first_bad_field(f.drop_last()) {
            Some(t) => Some(t),
            None => if is_address_text(f.last()) {
                None
            } else {
                Some(f.last())
            },
        }
    }
}

/// The primary account's address followed by those of the other accounts,
/// which are listed separated by white space and read with ASCII letters
/// made lower-case (so a `0X` prefix is accepted there). The first text
/// that names no address is reported.
pub fn account_addresses(current: &str, others: &str) -> (r: Result<Vec<Address>, EthereumClientError>)
    ensures
        r is Ok <==> is_address_text(current@) && first_bad_field(lowered_fields(others@)) is None,
        r matches Ok(v) ==> v@.len() == lowered_fields(others@).len() + 1 && v@[0].bytes@ == address_bytes(
            current@,
        ) && forall|k: int|
            0 <= k < lowered_fields(others@).len() ==> #[trigger] v@[k + 1].bytes@ == address_bytes(
                lowered_fields(others@)[k],
            ),
        !is_address_text(current@) ==> (r matches Err(EthereumClientError::AddressParseError(t))
            && t@ == current@),
        is_address_text(current@) ==> (first_bad_field(lowered_fields(others@)) matches Some(b) ==> (
        r matches Err(EthereumClientError::AddressParseError(t)) && t@ == b)),
{
    let first = match Address::parse(current) {
        Some(a) => a,
        None => {
            return Err(EthereumClientError::AddressParseError(String::from_str(current)));
        },
    };
    assert(is_address_text(current@));
    let pieces = split_pieces(others, false);
    let ghost all = pieces@.map_values(|x: String| x@);
    assert(all == split_by(others@, |c: char| is_white_space(c)));
    assert(lowered_fields(others@) == lowered_non_empty(all));
    let mut out: Vec<Address> = Vec::new();
    out.push(first);
    let mut k: usize = 0;
    while k < pieces.len()
        invariant
            0 <= k <= pieces@.len(),
            all == pieces@.map_values(|x: String| x@),
            lowered_fields(others@) == lowered_non_empty(all),
            is_address_text(current@),
            out@.len() == lowered_non_empty(all.take(k as int)).len() + 1,
            out@[0].bytes@ == address_bytes(current@),
            forall|m: int|
                0 <= m < lowered_non_empty(all.take(k as int)).len() ==> #[trigger] out@[m + 1].bytes@
                    == address_bytes(lowered_non_empty(all.take(k as int))[m]),
            first_bad_field(lowered_non_empty(all.take(k as int))) is None,
        decreases pieces@.len() - k,
    {
        let ghost prev = lowered_non_empty(all.take(k as int));
        proof {
            let u = all.take(k + 1);
            assert(u.drop_last() =~= all.take(k as int));
            assert(u.last() == all[k as int]);
        }
        if !pieces[k].as_str().is_empty() {
            let lowered = ascii_lowercase(pieces[k].as_str());
            let piece = lowered.as_str();
            match Address::parse(piece) {
                Some(a) => {
                    out.push(a);
                    assert(lowered_non_empty(all.take(k + 1)) == prev.push(ascii_lower(all[k as int])));
                    assert(lowered_non_empty(all.take(k + 1)).drop_last() =~= prev);
                },
                None => {
                    proof {
                        let f = lowered_non_empty(all.take(k + 1));
                        assert(f.drop_last() =~= prev);
                        lemma_bad_field_stays(all, k as int + 1);
                        assert(first_bad_field(f) == Some(piece@));
                    }
                    return Err(EthereumClientError::AddressParseError(String::from_str(piece)));
                },
            }
        }
        k = k + 1;
    }
    assert(all.take(pieces@.len() as int) =~= all);
    Ok(out)
}

/// Once a prefix of the pieces holds a bad field, so does every longer prefix,
/// and it is the same one.
proof fn lemma_bad_field_stays(all: Seq<Seq<char>>, k: int)
    requires
        0 <= k <= all.len(),
        first_bad_field(lowered_non_empty(all.take(k))) is Some,
    ensures
        first_bad_field(lowered_non_empty(all)) == first_bad_field(lowered_non_empty(all.take(k))),
    decreases all.len() - k,
{
    if k < all.len() {
        let u = all.take(k + 1);
        assert(u.drop_last() =~= all.take(k));
        if u.last().len() > 0 {
            assert(lowered_non_empty(u).drop_last() =~= lowered_non_empty(all.take(k)));
        }
        lemma_bad_field_stays(all, k + 1);
    } else {
        assert(all.take(k) =~= all);
    }
}

} // verus!
