//! Compact integers of the SCALE encoding.
//!
//! The two low bits of the first byte select one of four forms. In the first three, the rest of
//! the first byte and the following zero, one or three bytes hold the number. In the last one, the
//! rest of the first byte holds the number of bytes that follow, minus four, and these bytes hold
//! the number. All numbers are little endian.

use vstd::arithmetic::power::{lemma_pow_increases, pow};
use vstd::prelude::*;

verus! {

/// Little endian number made of the given bytes.
pub open spec fn little_endian(bytes: Seq<u8>) -> nat
    decreases bytes.len(),
{
    if bytes.len() == 0 {
        0
    } else {
        bytes[0] as nat + 256 * little_endian(bytes.skip(1))
    }
}

/// Number of bytes of a compact integer, as its first byte tells.
pub open spec fn compact_len(first: u8) -> nat {
    if first % 4 == 0 {
        1
    } else if first % 4 == 1 {
        2
    } else if first % 4 == 2 {
        4
    } else {
        (first / 4) as nat + 5
    }
}

/// Whether the number that the compact integer holds is of a width that `usize` has room for.
pub open spec fn compact_fits(first: u8) -> bool {
    first % 4 == 3 ==> 8 * (compact_len(first) - 1) <= usize::BITS
}

/// Number held by a compact integer that takes up the given bytes.
pub open spec fn compact_value(bytes: Seq<u8>) -> nat {
    if bytes[0] % 4 == 3 {
        little_endian(bytes.skip(1))
    } else {
        little_endian(bytes) / 4
    }
}

/// Number held by the compact integer that starts at `position`, and position of what follows.
/// `None` if the bytes end too early or if the number is too wide for a `usize`.
pub open spec fn compact_usize_at(bytes: Seq<u8>, position: int) -> Option<(nat, int)> {
    if position >= bytes.len() || position + compact_len(bytes[position]) > bytes.len()
        || !compact_fits(bytes[position]) {
        None
    } else {
        let end = position + compact_len(bytes[position]);
        Some((compact_value(bytes.subrange(position, end)), end))
    }
}

/// A little endian number is less than the number of its possible values.
proof fn lemma_little_endian_bound(bytes: Seq<u8>)
    ensures
        little_endian(bytes) < pow(256, bytes.len()),
    decreases bytes.len(),
{
    reveal(pow);
    if bytes.len() > 0 {
        lemma_little_endian_bound(bytes.skip(1));
    }
}

/// As many bytes as a `usize` has hold nothing more than a `usize`.
proof fn lemma_usize_bound(bytes: Seq<u8>)
    requires
        8 * bytes.len() <= usize::BITS,
    ensures
        little_endian(bytes) <= usize::MAX,
{
    lemma_little_endian_bound(bytes);
    assert(pow(256, 4) == 0x1_0000_0000) by {
        reveal_with_fuel(pow, 5);
    }
    assert(pow(256, 8) == 0x1_0000_0000_0000_0000) by {
        reveal_with_fuel(pow, 9);
    }
    if usize::BITS == 32 {
        lemma_pow_increases(256, bytes.len(), 4);
    } else {
        lemma_pow_increases(256, bytes.len(), 8);
    }
}

/// Reads the little endian number made of the bytes between two positions.
fn read_little_endian(bytes: &[u8], start: usize, end: usize) -> (value: usize)
    requires
        start <= end <= bytes@.len(),
        8 * (end - start) <= usize::BITS,
    ensures
        value == little_endian(bytes@.subrange(start as int, end as int)),
{
    let mut value: usize = 0;
    let mut i: usize = end;
    while i > start
        invariant
            start <= i <= end <= bytes@.len(),
            8 * (end - start) <= usize::BITS,
            value == little_endian(bytes@.subrange(i as int, end as int)),
        decreases i,
    {
        i -= 1;
        proof {
            let rest = bytes@.subrange(i as int, end as int);
            assert(rest.skip(1) =~= bytes@.subrange(i + 1, end as int));
            lemma_usize_bound(rest);
        }
        value = bytes[i] as usize + 256 * value;
    }
    value
}

/// Decodes the compact integer that starts at `position`. Returns the number and the position of
/// what follows.
pub fn decode_compact_usize(bytes: &[u8], position: usize) -> (decoded: Option<(usize, usize)>)
    ensures
        match decoded {
            Some((value, end)) => compact_usize_at(bytes@, position as int) == Some(
                (value as nat, end as int),
            ),
            None => compact_usize_at(bytes@, position as int) is None,
        },
{
    if position >= bytes.len() {
        return None;
    }
    let first: u8 = bytes[position];
    let remaining: usize = bytes.len() - position;
    if first % 4 == 3 {
        let width: usize = (first / 4) as usize + 4;
        if remaining < width + 1 || 8 * width > usize::BITS as usize {
            return None;
        }
        let end: usize = position + 1 + width;
        proof {
            assert(bytes@.subrange(position as int, end as int).skip(1) =~= bytes@.subrange(
                position + 1,
                end as int,
            ));
        }
        return Some((read_little_endian(bytes, position + 1, end), end));
    }
    let width: usize = if first % 4 == 0 {
        1
    } else if first % 4 == 1 {
        2
    } else {
        4
    };
    if remaining < width {
        return None;
    }
    Some((read_little_endian(bytes, position, position + width) / 4, position + width))
}

} // verus!
