//! Byte-level text helpers: ASCII literals, decimal numerals, prefixes and
//! the search for the blank line that ends an HTTP head.
use vstd::prelude::*;
use vstd::utf8::{is_ascii_chars, is_ascii_chars_encode_utf8};

verus! {

/// The bytes of an ASCII text, one byte per character.
pub open spec fn ascii(s: Seq<char>) -> Seq<u8> {
    Seq::new(s.len(), |i: int| s[i] as u8)
}

/// The bytes of an ASCII string literal.
pub fn ascii_literal(s: &str) -> (r: Vec<u8>)
    requires
        is_ascii_chars(s@),
    ensures
        r@ == ascii(s@),
{
    proof {
        is_ascii_chars_encode_utf8(s@);
    }
    let v = vstd::slice::slice_to_vec(s.as_bytes());
    assert(v@ =~= ascii(s@));
    v
}

/// The decimal numeral of `n`, most significant digit first, without
/// leading zeros (`0` is the single digit `0`).
pub open spec fn decimal(n: nat) -> Seq<u8>
    decreases n,
{
    if n < 10 {
        seq![(48 + n) as u8]
    } else {
        decimal(n / 10).push((48 + n % 10) as u8)
    }
}

/// Appends the decimal numeral of `n` to `out`.
pub fn append_decimal(out: &mut Vec<u8>, n: u64)
    ensures
        final(out)@ == old(out)@ + decimal(n as nat),
    decreases n,
{
    if n >= 10 {
        append_decimal(out, n / 10);
    }
    let digit: u8 = (n % 10) as u8;
    out.push(48u8 + digit);
    assert(final(out)@ =~= old(out)@ + decimal(n as nat));
}

/// Appends the bytes of `tail` to `out`.
pub fn append_bytes(out: &mut Vec<u8>, tail: &[u8])
    ensures
        final(out)@ == old(out)@ + tail@,
{
    let mut i: usize = 0;
    while i < tail.len()
        invariant
            i <= tail@.len(),
            out@ == old(out)@ + tail@.take(i as int),
        decreases tail@.len() - i,
    {
        out.push(tail[i]);
        i = i + 1;
        assert(out@ =~= old(out)@ + tail@.take(i as int));
    }
    assert(tail@.take(i as int) =~= tail@);
}

/// `bytes` begins with `prefix`.
pub open spec fn has_prefix(bytes: Seq<u8>, prefix: Seq<u8>) -> bool {
    prefix.len() <= bytes.len() && bytes.take(prefix.len() as int) == prefix
}

pub fn starts_with(bytes: &[u8], prefix: &[u8]) -> (r: bool)
    ensures
        r == has_prefix(bytes@, prefix@),
{
    if prefix.len() > bytes.len() {
        return false;
    }
    let mut i: usize = 0;
    while i < prefix.len()
        invariant
            i <= prefix@.len() <= bytes@.len(),
            forall|j: int| 0 <= j < i ==> bytes@[j] == prefix@[j],
        decreases prefix@.len() - i,
    {
        if bytes[i] != prefix[i] {
            assert(bytes@.take(prefix@.len() as int)[i as int] != prefix@[i as int]);
            return false;
        }
        i = i + 1;
    }
    assert(bytes@.take(prefix@.len() as int) =~= prefix@);
    true
}

/// A CR LF CR LF sequence starts at index `i` of `bytes`.
pub open spec fn blank_line_at(bytes: Seq<u8>, i: int) -> bool {
    &&& 0 <= i
    &&& i + 4 <= bytes.len()
    &&& bytes[i] == 13 && bytes[i + 1] == 10 && bytes[i + 2] == 13 && bytes[i + 3] == 10
}

/// The first index at or after `from` where a CR LF CR LF sequence starts.
pub open spec fn blank_line_from(bytes: Seq<u8>, from: nat) -> Option<nat>
    decreases bytes.len() - from,
{
    if from + 4 > bytes.len() {
        None
    } else if blank_line_at(bytes, from as int) {
        Some(from)
    } else {
        blank_line_from(bytes, from + 1)
    }
}

/// The index of the first CR LF CR LF in `bytes`, if there is one.
pub fn find_blank_line(bytes: &[u8]) -> (r: Option<usize>)
    ensures
        r matches Some(i) ==> blank_line_from(bytes@, 0) == Some(i as nat) && blank_line_at(bytes@, i as int),
        r is None ==> blank_line_from(bytes@, 0) is None,
{
    let mut i: usize = 0;
    while i < bytes.len() && bytes.len() - i >= 4
        invariant
            i <= bytes@.len(),
            blank_line_from(bytes@, 0) == blank_line_from(bytes@, i as nat),
        decreases bytes@.len() - i,
    {
        if bytes[i] == 13u8 && bytes[i + 1] == 10u8 && bytes[i + 2] == 13u8 && bytes[i + 3] == 10u8 {
            return Some(i);
        }
        i = i + 1;
    }
    None
}

} // verus!
