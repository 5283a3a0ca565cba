//! What holds of the wire format: what is written in it is read back.
//!
//! The laws speak of what the functions return: `call_ensures(f, args, result)` says that `result`
//! is something that `f` returns on `args`.

use vstd::arithmetic::power::{lemma_pow_increases, pow};
use vstd::prelude::*;

use crate::scale::{compact_usize_at, decode_compact_usize, little_endian};
use crate::service::ChainNetwork;
use crate::warp_sync::{
    decode_grandpa_warp_sync_response, fragment_at, fragment_with_length_at, fragments_at,
    lemma_fragments_split, no_fragment_at, response_broken, response_holds,
    GrandpaWarpSyncRequestError, GrandpaWarpSyncResponseFragment,
};

verus! {

/// The number, written over `width` bytes, the lowest first.
pub open spec fn little_endian_bytes(value: nat, width: nat) -> Seq<u8>
    decreases width,
{
    if width == 0 {
        Seq::empty()
    } else {
        seq![(value % 256) as u8] + little_endian_bytes(value / 256, (width - 1) as nat)
    }
}

/// Number of bytes that it takes to write the number.
pub open spec fn width_of(value: nat) -> nat
    decreases value,
{
    if value < 256 {
        1
    } else {
        1 + width_of(value / 256)
    }
}

/// The number, written as a compact integer: in one, two or four bytes with the form in the two low
/// bits where these have room for it, and otherwise as one byte with the width, then the number.
pub open spec fn compact_encoding(value: nat) -> Seq<u8> {
    if value < 64 {
        little_endian_bytes(4 * value, 1)
    } else if value < 16384 {
        little_endian_bytes(4 * value + 1, 2)
    } else if value < 1073741824 {
        little_endian_bytes(4 * value + 2, 4)
    } else {
        seq![(4 * (width_of(value) - 4) + 3) as u8] + little_endian_bytes(value, width_of(value))
    }
}

/// As many bytes are written as asked for, and the number is read back from them.
proof fn lemma_little_endian_bytes(value: nat, width: nat)
    ensures
        little_endian_bytes(value, width).len() == width,
        value < pow(256, width) ==> little_endian(little_endian_bytes(value, width)) == value,
    decreases width,
{
    reveal(pow);
    if width > 0 {
        let rest = little_endian_bytes(value / 256, (width - 1) as nat);
        lemma_little_endian_bytes(value / 256, (width - 1) as nat);
        assert(little_endian_bytes(value, width).skip(1) =~= rest);
        assert(pow(256, width) == 256 * pow(256, (width - 1) as nat));
    }
}

/// The width of a number is the least that has room for it.
proof fn lemma_width_of(value: nat)
    ensures
        width_of(value) >= 1,
        value < pow(256, width_of(value)),
        value > 0 ==> pow(256, (width_of(value) - 1) as nat) <= value,
    decreases value,
{
    reveal(pow);
    assert(pow(256, 0) == 1);
    assert(pow(256, 1) == 256) by {
        reveal_with_fuel(pow, 2);
    }
    if value >= 256 {
        lemma_width_of(value / 256);
        let width = width_of(value / 256);
        assert(pow(256, width + 1) == 256 * pow(256, width));
        assert(pow(256, width) == 256 * pow(256, (width - 1) as nat));
    }
}

/// Where a number is written as a compact integer, it is found, with the position of what follows.
proof fn lemma_compact_found(bytes: Seq<u8>, position: int, value: usize)
    requires
        0 <= position,
        position + compact_encoding(value as nat).len() <= bytes.len(),
        bytes.subrange(position, position + compact_encoding(value as nat).len())
            == compact_encoding(value as nat),
    ensures
        compact_encoding(value as nat).len() > 0,
        compact_usize_at(bytes, position) == Some(
            (value as nat, position + compact_encoding(value as nat).len()),
        ),
{
    let value = value as nat;
    let encoding = compact_encoding(value);
    let end = position + encoding.len();
    assert(pow(256, 1) == 0x100 && pow(256, 2) == 0x1_0000 && pow(256, 3) == 0x100_0000
        && pow(256, 4) == 0x1_0000_0000) by {
        reveal_with_fuel(pow, 5);
    }
    assert(pow(256, 8) == 0x1_0000_0000_0000_0000) by {
        reveal_with_fuel(pow, 9);
    }
    lemma_width_of(value);
    let width = width_of(value);
    if value < 64 {
        lemma_little_endian_bytes(4 * value, 1);
    } else if value < 16384 {
        lemma_little_endian_bytes(4 * value + 1, 2);
    } else if value < 1073741824 {
        lemma_little_endian_bytes(4 * value + 2, 4);
    } else {
        lemma_little_endian_bytes(value, width);
        if width < 4 {
            lemma_pow_increases(256, width, 3);
        }
        if usize::BITS == 32 {
            if width > 4 {
                lemma_pow_increases(256, 4, (width - 1) as nat);
            }
        } else {
            if width > 8 {
                lemma_pow_increases(256, 8, (width - 1) as nat);
            }
        }
        assert(4 <= width <= 8);
        assert(encoding.skip(1) =~= little_endian_bytes(value, width));
    }
    assert(bytes[position] == encoding[0]);
}

/// A number that is written as a compact integer is read back, wherever it stands and whatever
/// stands around it.
pub proof fn law_compact_integer_read_back(
    bytes: &[u8],
    position: usize,
    value: usize,
    decoded: Option<(usize, usize)>,
)
    requires
        position + compact_encoding(value as nat).len() <= bytes@.len(),
        bytes@.subrange(position as int, position + compact_encoding(value as nat).len())
            == compact_encoding(value as nat),
        call_ensures(decode_compact_usize, (bytes, position), decoded),
    ensures
        match decoded {
            Some((found, end)) => found == value && end == position + compact_encoding(
                value as nat,
            ).len(),
            None => false,
        },
{
    lemma_compact_found(bytes@, position as int, value);
}

/// A compact integer of one, two or four bytes holds the bits above the two low ones. It is read
/// whenever its bytes are there.
pub proof fn law_short_compact_integer(
    bytes: &[u8],
    position: usize,
    decoded: Option<(usize, usize)>,
)
    requires
        call_ensures(decode_compact_usize, (bytes, position), decoded),
        position < bytes@.len(),
        bytes@[position as int] % 4 != 3,
    ensures
        ({
            let first = bytes@[position as int];
            let remaining = bytes@.len() - position;
            match decoded {
                Some((value, end)) => {
                    &&& first % 4 == 0 ==> end == position + 1 && value == first / 4
                    &&& first % 4 == 1 ==> remaining >= 2 && end == position + 2 && value == (first
                        + 256 * bytes@[position + 1]) / 4
                    &&& first % 4 == 2 ==> remaining >= 4 && end == position + 4 && value == (first
                        + 256 * bytes@[position + 1] + 65536 * bytes@[position + 2] + 16777216
                        * bytes@[position + 3]) / 4
                },
                None => (first % 4 == 1 && remaining < 2) || (first % 4 == 2 && remaining < 4),
            }
        }),
{
    let first = bytes@[position as int];
    let width: int = if first % 4 == 0 {
        1
    } else if first % 4 == 1 {
        2
    } else {
        4
    };
    if position + width <= bytes@.len() {
        let taken = bytes@.subrange(position as int, position + width);
        reveal_with_fuel(little_endian, 5);
        if width == 4 {
            assert(taken.skip(1).skip(1) =~= taken.skip(2));
            assert(taken.skip(2).skip(1) =~= taken.skip(3));
            assert(taken.skip(3)[0] == bytes@[position + 3]);
            assert(taken.skip(2)[0] == bytes@[position + 2]);
            assert(taken.skip(1)[0] == bytes@[position + 1]);
        }
    }
}

/// A compact integer that gives its width holds the number made of the bytes that follow, the
/// lowest first. It is read whenever these bytes are there and are no more than a `usize` has.
pub proof fn law_wide_compact_integer(
    bytes: &[u8],
    position: usize,
    width: nat,
    decoded: Option<(usize, usize)>,
)
    requires
        call_ensures(decode_compact_usize, (bytes, position), decoded),
        position < bytes@.len(),
        bytes@[position as int] == 4 * (width - 4) + 3,
        4 <= width,
    ensures
        match decoded {
            Some((value, end)) => {
                &&& 8 * width <= usize::BITS
                &&& end == position + 1 + width
                &&& end <= bytes@.len()
                &&& little_endian_bytes(value as nat, width) == bytes@.subrange(
                    position + 1,
                    end as int,
                )
            },
            None => 8 * width > usize::BITS || position + 1 + width > bytes@.len(),
        },
{
    if let Some((value, end)) = decoded {
        let taken = bytes@.subrange(position as int, end as int);
        assert(taken.skip(1) =~= bytes@.subrange(position + 1, end as int));
        lemma_little_endian_unique(taken.skip(1));
    }
}

/// Bytes are what is written of the number that they make up.
proof fn lemma_little_endian_unique(bytes: Seq<u8>)
    ensures
        little_endian_bytes(little_endian(bytes), bytes.len()) == bytes,
    decreases bytes.len(),
{
    if bytes.len() > 0 {
        lemma_little_endian_unique(bytes.skip(1));
        let value = little_endian(bytes);
        assert(value % 256 == bytes[0] && value / 256 == little_endian(bytes.skip(1)));
        assert(seq![bytes[0]] + bytes.skip(1) =~= bytes);
    } else {
        assert(little_endian_bytes(little_endian(bytes), bytes.len()) =~= bytes);
    }
}

/// There is no compact integer where the bytes have ended.
pub proof fn law_no_compact_integer_at_the_end(
    bytes: &[u8],
    position: usize,
    decoded: Option<(usize, usize)>,
)
    requires
        call_ensures(decode_compact_usize, (bytes, position), decoded),
        position >= bytes@.len(),
    ensures
        decoded is None,
{
}

/// A fragment, written on the wire: the header, the length as a compact integer, the justification.
pub open spec fn fragment_encoding<H, J>(
    write_header: spec_fn(H) -> Seq<u8>,
    write_justification: spec_fn(J) -> Seq<u8>,
    fragment: GrandpaWarpSyncResponseFragment<H, J>,
    length: usize,
) -> Seq<u8> {
    write_header(fragment.header) + compact_encoding(length as nat) + write_justification(
        fragment.justification,
    )
}

/// Fragments, written on the wire one after the other.
pub open spec fn fragments_encoding<H, J>(
    write_header: spec_fn(H) -> Seq<u8>,
    write_justification: spec_fn(J) -> Seq<u8>,
    fragments: Seq<GrandpaWarpSyncResponseFragment<H, J>>,
    lengths: Seq<usize>,
) -> Seq<u8>
    decreases fragments.len(),
{
    if fragments.len() == 0 {
        Seq::empty()
    } else {
        fragments_encoding(
            write_header,
            write_justification,
            fragments.drop_last(),
            lengths.drop_last(),
        ) + fragment_encoding(write_header, write_justification, fragments.last(), lengths.last())
    }
}

/// Whether `decode` reads back from `bytes` what `write` has written there, wherever that is.
pub open spec fn reads_back<T, F: Fn(&[u8], usize) -> Option<(T, usize)>>(
    decode: F,
    write: spec_fn(T) -> Seq<u8>,
    bytes: &[u8],
) -> bool {
    forall|start: usize, value: T, found: Option<(T, usize)>|
        #![trigger decode.ensures((bytes, start), found), write(value)]
        start + write(value).len() <= bytes@.len() && bytes@.subrange(
            start as int,
            start + write(value).len(),
        ) == write(value) && decode.ensures((bytes, start), found) ==> found == Some(
            (value, (start + write(value).len()) as usize),
        )
}

/// Whether `decode` finds nothing at the given position.
pub open spec fn nothing_found<T, F: Fn(&[u8], usize) -> Option<(T, usize)>>(
    decode: F,
    bytes: Seq<u8>,
    position: usize,
) -> bool {
    forall|slice: &[u8], value: T, end: usize|
        slice@ == bytes ==> !#[trigger] decode.ensures((slice, position), Some((value, end)))
}

/// Each fragment stands behind the ones that come before it.
proof fn lemma_fragment_in_encoding<H, J>(
    write_header: spec_fn(H) -> Seq<u8>,
    write_justification: spec_fn(J) -> Seq<u8>,
    fragments: Seq<GrandpaWarpSyncResponseFragment<H, J>>,
    lengths: Seq<usize>,
    k: int,
)
    requires
        0 <= k < fragments.len(),
        lengths.len() == fragments.len(),
    ensures
        ({
            let all = fragments_encoding(write_header, write_justification, fragments, lengths);
            let before = fragments_encoding(
                write_header,
                write_justification,
                fragments.take(k),
                lengths.take(k),
            ).len();
            let this = fragment_encoding(
                write_header,
                write_justification,
                fragments[k],
                lengths[k],
            );
            &&& before + this.len() <= all.len()
            &&& all.subrange(before as int, (before + this.len()) as int) == this
            &&& before + this.len() == fragments_encoding(
                write_header,
                write_justification,
                fragments.take(k + 1),
                lengths.take(k + 1),
            ).len()
        }),
    decreases fragments.len(),
{
    let all = fragments_encoding(write_header, write_justification, fragments, lengths);
    let this = fragment_encoding(write_header, write_justification, fragments[k], lengths[k]);
    let before = fragments_encoding(
        write_header,
        write_justification,
        fragments.take(k),
        lengths.take(k),
    );
    assert(fragments.take(k + 1).drop_last() =~= fragments.take(k));
    assert(lengths.take(k + 1).drop_last() =~= lengths.take(k));
    if k == fragments.len() - 1 {
        assert(fragments.drop_last() =~= fragments.take(k));
        assert(lengths.drop_last() =~= lengths.take(k));
        assert(all.subrange(before.len() as int, (before.len() + this.len()) as int) =~= this);
        assert(fragments.take(k + 1) =~= fragments);
        assert(lengths.take(k + 1) =~= lengths);
    } else {
        let fewer = fragments_encoding(
            write_header,
            write_justification,
            fragments.drop_last(),
            lengths.drop_last(),
        );
        lemma_fragment_in_encoding(
            write_header,
            write_justification,
            fragments.drop_last(),
            lengths.drop_last(),
            k,
        );
        assert(fragments.drop_last().take(k) =~= fragments.take(k));
        assert(lengths.drop_last().take(k) =~= lengths.take(k));
        let end = (before.len() + this.len()) as int;
        assert(all.subrange(before.len() as int, end) =~= fewer.subrange(before.len() as int, end));
    }
}

/// Where a fragment is written, it is found, and nothing else is.
proof fn lemma_fragment_found<
    H,
    J,
    F: Fn(&[u8], usize) -> Option<(H, usize)>,
    G: Fn(&[u8], usize) -> Option<(J, usize)>,
>(
    bytes: &[u8],
    header: F,
    justification: G,
    write_header: spec_fn(H) -> Seq<u8>,
    write_justification: spec_fn(J) -> Seq<u8>,
    start: usize,
    fragment: GrandpaWarpSyncResponseFragment<H, J>,
    length: usize,
)
    requires
        reads_back(header, write_header, bytes),
        reads_back(justification, write_justification, bytes),
        ({
            let this = fragment_encoding(write_header, write_justification, fragment, length);
            &&& start + this.len() <= bytes@.len()
            &&& bytes@.subrange(start as int, start + this.len()) == this
        }),
    ensures
        !no_fragment_at(bytes, header, justification, start),
        forall|found: GrandpaWarpSyncResponseFragment<H, J>, end: usize| #[trigger]
            fragment_at(bytes, header, justification, start, found, end) ==> found == fragment
                && end == start + fragment_encoding(
                write_header,
                write_justification,
                fragment,
                length,
            ).len(),
{
    assert(bytes@.len() == bytes.len());
    let this = fragment_encoding(write_header, write_justification, fragment, length);
    let first = write_header(fragment.header);
    let second = compact_encoding(length as nat);
    let third = write_justification(fragment.justification);
    let header_end = (start + first.len()) as usize;
    let length_end = (header_end + second.len()) as usize;
    assert(bytes@.subrange(start as int, start + first.len()) =~= this.subrange(
        0,
        first.len() as int,
    ));
    assert(this.subrange(0, first.len() as int) =~= first);
    assert(bytes@.subrange(header_end as int, header_end + second.len()) =~= this.subrange(
        first.len() as int,
        (first.len() + second.len()) as int,
    ));
    assert(this.subrange(first.len() as int, (first.len() + second.len()) as int) =~= second);
    assert(bytes@.subrange(length_end as int, length_end + third.len()) =~= this.subrange(
        (first.len() + second.len()) as int,
        this.len() as int,
    ));
    assert(this.subrange((first.len() + second.len()) as int, this.len() as int) =~= third);
    lemma_compact_found(bytes@, header_end as int, length);
    assert forall|found: GrandpaWarpSyncResponseFragment<H, J>, end: usize| #[trigger]
        fragment_at(bytes, header, justification, start, found, end) implies found == fragment
        && end == start + this.len() by {
        let length_start = choose|length_start: usize| #[trigger]
            fragment_with_length_at(
                bytes,
                header,
                justification,
                start,
                found,
                length_start,
                end,
            );
        assert(header.ensures((bytes, start), Some((found.header, length_start))));
        assert(length_start == header_end);
        assert(justification.ensures(
            (bytes, length_end),
            Some((found.justification, end)),
        ));
    }
}

/// Where fragments are written, what is read from the start is the first of them.
proof fn lemma_fragments_found<
    H,
    J,
    F: Fn(&[u8], usize) -> Option<(H, usize)>,
    G: Fn(&[u8], usize) -> Option<(J, usize)>,
>(
    bytes: &[u8],
    header: F,
    justification: G,
    write_header: spec_fn(H) -> Seq<u8>,
    write_justification: spec_fn(J) -> Seq<u8>,
    start: usize,
    fragments: Seq<GrandpaWarpSyncResponseFragment<H, J>>,
    lengths: Seq<usize>,
    read: Seq<GrandpaWarpSyncResponseFragment<H, J>>,
    end: usize,
)
    requires
        reads_back(header, write_header, bytes),
        reads_back(justification, write_justification, bytes),
        lengths.len() == fragments.len(),
        ({
            let all = fragments_encoding(write_header, write_justification, fragments, lengths);
            &&& start + all.len() <= bytes@.len()
            &&& bytes@.subrange(start as int, start + all.len()) == all
        }),
        read.len() <= fragments.len(),
        fragments_at(bytes, header, justification, start, read, end),
    ensures
        read == fragments.take(read.len() as int),
        end == start + fragments_encoding(
            write_header,
            write_justification,
            fragments.take(read.len() as int),
            lengths.take(read.len() as int),
        ).len(),
        read.len() < fragments.len() ==> !no_fragment_at(bytes, header, justification, end),
    decreases read.len(),
{
    assert(bytes@.len() == bytes.len());
    let all = fragments_encoding(write_header, write_justification, fragments, lengths);
    let n = read.len() as int;
    if n == 0 {
        assert(read =~= fragments.take(0));
    } else {
        let middle = choose|middle: usize|
            fragments_at(bytes, header, justification, start, read.drop_last(), middle)
                && #[trigger] fragment_at(bytes, header, justification, middle, read.last(), end);
        lemma_fragments_found(
            bytes,
            header,
            justification,
            write_header,
            write_justification,
            start,
            fragments,
            lengths,
            read.drop_last(),
            middle,
        );
        lemma_fragment_in_encoding(write_header, write_justification, fragments, lengths, n - 1);
        let this = fragment_encoding(
            write_header,
            write_justification,
            fragments[n - 1],
            lengths[n - 1],
        );
        assert(bytes@.subrange(middle as int, middle + this.len()) =~= all.subrange(
            middle - start,
            middle - start + this.len(),
        ));
        lemma_fragment_found(
            bytes,
            header,
            justification,
            write_header,
            write_justification,
            middle,
            fragments[n - 1],
            lengths[n - 1],
        );
        assert(read =~= fragments.take(n)) by {
            assert(read =~= read.drop_last().push(read.last()));
        }
    }
    if n < fragments.len() {
        lemma_fragment_in_encoding(write_header, write_justification, fragments, lengths, n);
        let next = fragment_encoding(write_header, write_justification, fragments[n], lengths[n]);
        assert(bytes@.subrange(end as int, end + next.len()) =~= all.subrange(
            end - start,
            end - start + next.len(),
        ));
        lemma_fragment_found(
            bytes,
            header,
            justification,
            write_header,
            write_justification,
            end,
            fragments[n],
            lengths[n],
        );
    }
}

/// A response on the wire: how many fragments follow, the fragments, and anything behind them.
pub open spec fn response_encoding<H, J>(
    write_header: spec_fn(H) -> Seq<u8>,
    write_justification: spec_fn(J) -> Seq<u8>,
    num_fragments: usize,
    fragments: Seq<GrandpaWarpSyncResponseFragment<H, J>>,
    lengths: Seq<usize>,
    trailing: Seq<u8>,
) -> Seq<u8> {
    compact_encoding(num_fragments as nat) + fragments_encoding(
        write_header,
        write_justification,
        fragments,
        lengths,
    ) + trailing
}

/// The number of fragments and the fragments of a response are found where they are written.
proof fn lemma_response_parts<H, J>(
    bytes: Seq<u8>,
    write_header: spec_fn(H) -> Seq<u8>,
    write_justification: spec_fn(J) -> Seq<u8>,
    num_fragments: usize,
    fragments: Seq<GrandpaWarpSyncResponseFragment<H, J>>,
    lengths: Seq<usize>,
    trailing: Seq<u8>,
)
    requires
        bytes == response_encoding(
            write_header,
            write_justification,
            num_fragments,
            fragments,
            lengths,
            trailing,
        ),
    ensures
        ({
            let start = compact_encoding(num_fragments as nat).len() as int;
            let all = fragments_encoding(write_header, write_justification, fragments, lengths);
            &&& compact_usize_at(bytes, 0) == Some((num_fragments as nat, start))
            &&& start + all.len() <= bytes.len()
            &&& bytes.subrange(start, start + all.len()) == all
            &&& bytes.skip(start + all.len()) == trailing
        }),
{
    let count = compact_encoding(num_fragments as nat);
    let start = count.len() as int;
    let all = fragments_encoding(write_header, write_justification, fragments, lengths);
    assert(bytes.subrange(0, start) =~= count);
    lemma_compact_found(bytes, 0, num_fragments);
    assert(bytes.subrange(start, start + all.len()) =~= all);
    assert(bytes.skip(start + all.len()) =~= trailing);
}

/// A response that is written with as many fragments as it announces isn't broken, and holds these
/// fragments and no others.
proof fn lemma_response_read_back<
    H,
    J,
    F: Fn(&[u8], usize) -> Option<(H, usize)>,
    G: Fn(&[u8], usize) -> Option<(J, usize)>,
>(
    bytes: &[u8],
    header: F,
    justification: G,
    write_header: spec_fn(H) -> Seq<u8>,
    write_justification: spec_fn(J) -> Seq<u8>,
    num_fragments: usize,
    fragments: Seq<GrandpaWarpSyncResponseFragment<H, J>>,
    lengths: Seq<usize>,
    trailing: Seq<u8>,
)
    requires
        reads_back(header, write_header, bytes),
        reads_back(justification, write_justification, bytes),
        num_fragments == fragments.len(),
        lengths.len() == fragments.len(),
        bytes@ == response_encoding(
            write_header,
            write_justification,
            num_fragments,
            fragments,
            lengths,
            trailing,
        ),
    ensures
        !response_broken(bytes, header, justification),
        forall|read: Seq<GrandpaWarpSyncResponseFragment<H, J>>|
            response_holds(bytes, header, justification, read) ==> read == fragments,
{
    assert(bytes@.len() == bytes.len());
    lemma_response_parts(
        bytes@,
        write_header,
        write_justification,
        num_fragments,
        fragments,
        lengths,
        trailing,
    );
    let start = compact_encoding(num_fragments as nat).len() as usize;
    assert forall|read: Seq<GrandpaWarpSyncResponseFragment<H, J>>|
        response_holds(bytes, header, justification, read) implies read == fragments by {
        let end = choose|end: usize| #[trigger]
            fragments_at(bytes, header, justification, start, read, end);
        lemma_fragments_found(
            bytes,
            header,
            justification,
            write_header,
            write_justification,
            start,
            fragments,
            lengths,
            read,
            end,
        );
        assert(fragments.take(read.len() as int) =~= fragments);
    }
    if response_broken(bytes, header, justification) {
        let (read, middle) = choose|
            read: Seq<GrandpaWarpSyncResponseFragment<H, J>>,
            middle: usize,
        | #[trigger]
            fragments_at(bytes, header, justification, start, read, middle) && read.len()
                < num_fragments && no_fragment_at(bytes, header, justification, middle);
        lemma_fragments_found(
            bytes,
            header,
            justification,
            write_header,
            write_justification,
            start,
            fragments,
            lengths,
            read,
            middle,
        );
    }
}

/// Fragments that are written on the wire are read back, all of them and in order, however many
/// there are, whatever their lengths say and whatever comes behind them, with codecs that read back
/// headers and justifications.
pub proof fn law_fragments_read_back<
    H,
    J,
    R,
    F: Fn(&[u8], usize) -> Option<(H, usize)>,
    G: Fn(&[u8], usize) -> Option<(J, usize)>,
>(
    bytes: &[u8],
    header: F,
    justification: G,
    write_header: spec_fn(H) -> Seq<u8>,
    write_justification: spec_fn(J) -> Seq<u8>,
    num_fragments: usize,
    fragments: Seq<GrandpaWarpSyncResponseFragment<H, J>>,
    lengths: Seq<usize>,
    trailing: Seq<u8>,
    outcome: Result<Vec<GrandpaWarpSyncResponseFragment<H, J>>, GrandpaWarpSyncRequestError<R>>,
)
    requires
        reads_back(header, write_header, bytes),
        reads_back(justification, write_justification, bytes),
        num_fragments == fragments.len(),
        lengths.len() == fragments.len(),
        bytes@ == response_encoding(
            write_header,
            write_justification,
            num_fragments,
            fragments,
            lengths,
            trailing,
        ),
        call_ensures(
            decode_grandpa_warp_sync_response::<H, J, R, F, G>,
            (bytes, header, justification),
            outcome,
        ),
    ensures
        match outcome {
            Ok(read) => read@ == fragments,
            Err(_) => false,
        },
{
    lemma_response_read_back(
        bytes,
        header,
        justification,
        write_header,
        write_justification,
        num_fragments,
        fragments,
        lengths,
        trailing,
    );
}

/// Fragments that a peer has written on the wire are what its response is found to hold, and a
/// request that has failed gives its error.
pub proof fn law_response_fragments_read_back<
    H,
    J,
    R,
    F: Fn(&[u8], usize) -> Option<(H, usize)>,
    G: Fn(&[u8], usize) -> Option<(J, usize)>,
>(
    response: Result<Vec<u8>, R>,
    header: F,
    justification: G,
    write_header: spec_fn(H) -> Seq<u8>,
    write_justification: spec_fn(J) -> Seq<u8>,
    num_fragments: usize,
    fragments: Seq<GrandpaWarpSyncResponseFragment<H, J>>,
    lengths: Seq<usize>,
    trailing: Seq<u8>,
    outcome: Result<Vec<GrandpaWarpSyncResponseFragment<H, J>>, GrandpaWarpSyncRequestError<R>>,
)
    requires
        forall|bytes: &[u8]| #[trigger] reads_back(header, write_header, bytes),
        forall|bytes: &[u8]| #[trigger] reads_back(justification, write_justification, bytes),
        num_fragments == fragments.len(),
        lengths.len() == fragments.len(),
        match response {
            Ok(body) => body@ == response_encoding(
                write_header,
                write_justification,
                num_fragments,
                fragments,
                lengths,
                trailing,
            ),
            Err(_) => true,
        },
        call_ensures(
            ChainNetwork::grandpa_warp_sync_response::<H, J, R, F, G>,
            (response, header, justification),
            outcome,
        ),
    ensures
        match (response, outcome) {
            (Ok(_), Ok(read)) => read@ == fragments,
            (Err(error), Err(GrandpaWarpSyncRequestError::Request(reported))) => reported == error,
            _ => false,
        },
{
    if let Ok(body) = response {
        let bytes = choose|bytes: &[u8]| #[trigger]
            bytes@ == body@ && match outcome {
                Ok(read) => response_holds(bytes, header, justification, read@),
                Err(error) => error is BadResponse && response_broken(bytes, header, justification),
            };
        assert(reads_back(header, write_header, bytes));
        assert(reads_back(justification, write_justification, bytes));
        lemma_response_read_back(
            bytes,
            header,
            justification,
            write_header,
            write_justification,
            num_fragments,
            fragments,
            lengths,
            trailing,
        );
    }
}

/// There are as many fragments in a response as the compact integer at its start says, and without
/// this integer the response is refused. No other error than that of a bad response is reported.
pub proof fn law_as_many_fragments_as_announced<
    H,
    J,
    R,
    F: Fn(&[u8], usize) -> Option<(H, usize)>,
    G: Fn(&[u8], usize) -> Option<(J, usize)>,
>(
    bytes: &[u8],
    header: F,
    justification: G,
    announced: Option<(usize, usize)>,
    outcome: Result<Vec<GrandpaWarpSyncResponseFragment<H, J>>, GrandpaWarpSyncRequestError<R>>,
)
    requires
        call_ensures(decode_compact_usize, (bytes, 0usize), announced),
        call_ensures(
            decode_grandpa_warp_sync_response::<H, J, R, F, G>,
            (bytes, header, justification),
            outcome,
        ),
    ensures
        match (announced, outcome) {
            (Some((num_fragments, _)), Ok(read)) => read@.len() == num_fragments,
            (None, Ok(_)) => false,
            (_, Err(error)) => error is BadResponse,
        },
{
}

/// A response doesn't hold anything if it announces more fragments than are written and what comes
/// behind these isn't a fragment.
proof fn lemma_missing_fragment<
    H,
    J,
    F: Fn(&[u8], usize) -> Option<(H, usize)>,
    G: Fn(&[u8], usize) -> Option<(J, usize)>,
>(
    bytes: &[u8],
    header: F,
    justification: G,
    write_header: spec_fn(H) -> Seq<u8>,
    write_justification: spec_fn(J) -> Seq<u8>,
    num_fragments: usize,
    fragments: Seq<GrandpaWarpSyncResponseFragment<H, J>>,
    lengths: Seq<usize>,
    trailing: Seq<u8>,
    position: usize,
)
    requires
        reads_back(header, write_header, bytes),
        reads_back(justification, write_justification, bytes),
        fragments.len() < num_fragments,
        lengths.len() == fragments.len(),
        bytes@ == response_encoding(
            write_header,
            write_justification,
            num_fragments,
            fragments,
            lengths,
            trailing,
        ),
        position == bytes@.len() - trailing.len(),
        forall|found: GrandpaWarpSyncResponseFragment<H, J>, end: usize|
            !#[trigger] fragment_at(bytes, header, justification, position, found, end),
    ensures
        forall|read: Seq<GrandpaWarpSyncResponseFragment<H, J>>|
            !response_holds(bytes, header, justification, read),
{
    assert(bytes@.len() == bytes.len());
    lemma_response_parts(
        bytes@,
        write_header,
        write_justification,
        num_fragments,
        fragments,
        lengths,
        trailing,
    );
    let start = compact_encoding(num_fragments as nat).len() as usize;
    let n = fragments.len() as int;
    assert forall|read: Seq<GrandpaWarpSyncResponseFragment<H, J>>|
        !response_holds(bytes, header, justification, read) by {
        if response_holds(bytes, header, justification, read) {
            let end = choose|end: usize| #[trigger]
                fragments_at(bytes, header, justification, start, read, end);
            let (here, _, next) = lemma_fragments_split(
                bytes,
                header,
                justification,
                start,
                read,
                end,
                n,
            );
            lemma_fragments_found(
                bytes,
                header,
                justification,
                write_header,
                write_justification,
                start,
                fragments,
                lengths,
                read.take(n),
                here,
            );
            assert(fragments.take(n) =~= fragments);
            assert(lengths.take(n) =~= lengths);
            assert(here == position);
            assert(fragment_at(bytes, header, justification, position, read[n], next));
        }
    }
}

/// What the trailing bytes start with stands where the trailing bytes stand.
proof fn lemma_header_behind(bytes: Seq<u8>, trailing: Seq<u8>, prefix: Seq<u8>, position: int)
    requires
        prefix.is_prefix_of(trailing),
        0 <= position == bytes.len() - trailing.len(),
        bytes.skip(position) == trailing,
    ensures
        bytes.subrange(position, position + prefix.len()) == prefix,
{
    assert(bytes.subrange(position, position + prefix.len()) =~= trailing.take(
        prefix.len() as int,
    ));
    assert(trailing.take(prefix.len() as int) =~= prefix);
}

/// A response is refused if it announces more fragments than are there and no header follows.
pub proof fn law_missing_header_refused<
    H,
    J,
    R,
    F: Fn(&[u8], usize) -> Option<(H, usize)>,
    G: Fn(&[u8], usize) -> Option<(J, usize)>,
>(
    bytes: &[u8],
    header: F,
    justification: G,
    write_header: spec_fn(H) -> Seq<u8>,
    write_justification: spec_fn(J) -> Seq<u8>,
    num_fragments: usize,
    fragments: Seq<GrandpaWarpSyncResponseFragment<H, J>>,
    lengths: Seq<usize>,
    trailing: Seq<u8>,
    position: usize,
    outcome: Result<Vec<GrandpaWarpSyncResponseFragment<H, J>>, GrandpaWarpSyncRequestError<R>>,
)
    requires
        reads_back(header, write_header, bytes),
        reads_back(justification, write_justification, bytes),
        fragments.len() < num_fragments,
        lengths.len() == fragments.len(),
        bytes@ == response_encoding(
            write_header,
            write_justification,
            num_fragments,
            fragments,
            lengths,
            trailing,
        ),
        position == bytes@.len() - trailing.len(),
        forall|found: H, end: usize|
            !#[trigger] header.ensures((bytes, position), Some((found, end))),
        call_ensures(
            decode_grandpa_warp_sync_response::<H, J, R, F, G>,
            (bytes, header, justification),
            outcome,
        ),
    ensures
        match outcome {
            Ok(_) => false,
            Err(error) => error is BadResponse,
        },
{
    lemma_missing_fragment(
        bytes,
        header,
        justification,
        write_header,
        write_justification,
        num_fragments,
        fragments,
        lengths,
        trailing,
        position,
    );
}

/// A response is refused if it announces more fragments than are there and no length follows behind
/// the next header, be it that the bytes end there or that the length is too wide.
pub proof fn law_missing_length_refused<
    H,
    J,
    R,
    F: Fn(&[u8], usize) -> Option<(H, usize)>,
    G: Fn(&[u8], usize) -> Option<(J, usize)>,
>(
    bytes: &[u8],
    header: F,
    justification: G,
    write_header: spec_fn(H) -> Seq<u8>,
    write_justification: spec_fn(J) -> Seq<u8>,
    num_fragments: usize,
    fragments: Seq<GrandpaWarpSyncResponseFragment<H, J>>,
    lengths: Seq<usize>,
    trailing: Seq<u8>,
    position: usize,
    next_header: H,
    header_end: usize,
    outcome: Result<Vec<GrandpaWarpSyncResponseFragment<H, J>>, GrandpaWarpSyncRequestError<R>>,
)
    requires
        reads_back(header, write_header, bytes),
        reads_back(justification, write_justification, bytes),
        fragments.len() < num_fragments,
        lengths.len() == fragments.len(),
        bytes@ == response_encoding(
            write_header,
            write_justification,
            num_fragments,
            fragments,
            lengths,
            trailing,
        ),
        position == bytes@.len() - trailing.len(),
        write_header(next_header).is_prefix_of(trailing),
        header_end == position + write_header(next_header).len(),
        call_ensures(decode_compact_usize, (bytes, header_end), None),
        call_ensures(
            decode_grandpa_warp_sync_response::<H, J, R, F, G>,
            (bytes, header, justification),
            outcome,
        ),
    ensures
        match outcome {
            Ok(_) => false,
            Err(error) => error is BadResponse,
        },
{
    assert(bytes@.len() == bytes.len());
    lemma_response_parts(
        bytes@,
        write_header,
        write_justification,
        num_fragments,
        fragments,
        lengths,
        trailing,
    );
    lemma_header_behind(bytes@, trailing, write_header(next_header), position as int);
    lemma_missing_fragment(
        bytes,
        header,
        justification,
        write_header,
        write_justification,
        num_fragments,
        fragments,
        lengths,
        trailing,
        position,
    );
}

/// A response is refused if it announces more fragments than are there and no justification follows
/// behind the next header and its length.
pub proof fn law_missing_justification_refused<
    H,
    J,
    R,
    F: Fn(&[u8], usize) -> Option<(H, usize)>,
    G: Fn(&[u8], usize) -> Option<(J, usize)>,
>(
    bytes: &[u8],
    header: F,
    justification: G,
    write_header: spec_fn(H) -> Seq<u8>,
    write_justification: spec_fn(J) -> Seq<u8>,
    num_fragments: usize,
    fragments: Seq<GrandpaWarpSyncResponseFragment<H, J>>,
    lengths: Seq<usize>,
    trailing: Seq<u8>,
    position: usize,
    next_header: H,
    length: usize,
    length_end: usize,
    outcome: Result<Vec<GrandpaWarpSyncResponseFragment<H, J>>, GrandpaWarpSyncRequestError<R>>,
)
    requires
        reads_back(header, write_header, bytes),
        reads_back(justification, write_justification, bytes),
        fragments.len() < num_fragments,
        lengths.len() == fragments.len(),
        bytes@ == response_encoding(
            write_header,
            write_justification,
            num_fragments,
            fragments,
            lengths,
            trailing,
        ),
        position == bytes@.len() - trailing.len(),
        (write_header(next_header) + compact_encoding(length as nat)).is_prefix_of(trailing),
        length_end == position + write_header(next_header).len() + compact_encoding(
            length as nat,
        ).len(),
        forall|found: J, end: usize|
            !#[trigger] justification.ensures((bytes, length_end), Some((found, end))),
        call_ensures(
            decode_grandpa_warp_sync_response::<H, J, R, F, G>,
            (bytes, header, justification),
            outcome,
        ),
    ensures
        match outcome {
            Ok(_) => false,
            Err(error) => error is BadResponse,
        },
{
    assert(bytes@.len() == bytes.len());
    lemma_response_parts(
        bytes@,
        write_header,
        write_justification,
        num_fragments,
        fragments,
        lengths,
        trailing,
    );
    let first = write_header(next_header);
    let second = compact_encoding(length as nat);
    lemma_header_behind(bytes@, trailing, first + second, position as int);
    let both = bytes@.subrange(position as int, length_end as int);
    let header_end = position + first.len();
    assert(bytes@.subrange(position as int, header_end) =~= both.take(first.len() as int));
    assert(both.take(first.len() as int) =~= first);
    assert(bytes@.subrange(header_end, length_end as int) =~= both.skip(first.len() as int));
    assert(both.skip(first.len() as int) =~= second);
    lemma_compact_found(bytes@, header_end, length);
    lemma_missing_fragment(
        bytes,
        header,
        justification,
        write_header,
        write_justification,
        num_fragments,
        fragments,
        lengths,
        trailing,
        position,
    );
}

/// The response of a peer holds as many fragments as the compact integer at its start says. It is
/// refused without this integer, and also if fewer fragments are there and no header follows.
pub proof fn law_response_of_peer_complete<
    H,
    J,
    R,
    F: Fn(&[u8], usize) -> Option<(H, usize)>,
    G: Fn(&[u8], usize) -> Option<(J, usize)>,
>(
    body: Vec<u8>,
    slice: &[u8],
    header: F,
    justification: G,
    announced: Option<(usize, usize)>,
    outcome: Result<Vec<GrandpaWarpSyncResponseFragment<H, J>>, GrandpaWarpSyncRequestError<R>>,
)
    requires
        slice@ == body@,
        call_ensures(decode_compact_usize, (slice, 0usize), announced),
        call_ensures(
            ChainNetwork::grandpa_warp_sync_response::<H, J, R, F, G>,
            (Ok::<Vec<u8>, R>(body), header, justification),
            outcome,
        ),
    ensures
        match (announced, outcome) {
            (Some((num_fragments, _)), Ok(read)) => read@.len() == num_fragments,
            (None, Ok(_)) => false,
            (_, Err(error)) => error is BadResponse,
        },
        forall|
            write_header: spec_fn(H) -> Seq<u8>,
            write_justification: spec_fn(J) -> Seq<u8>,
            num_fragments: usize,
            fragments: Seq<GrandpaWarpSyncResponseFragment<H, J>>,
            lengths: Seq<usize>,
            trailing: Seq<u8>,
            position: usize,
        |
            fragments.len() < num_fragments && lengths.len() == fragments.len() && body@
                == #[trigger] response_encoding(
                write_header,
                write_justification,
                num_fragments,
                fragments,
                lengths,
                trailing,
            ) && position == body@.len() - trailing.len() && (forall|bytes: &[u8]|
                #![trigger bytes@]
                bytes@ == body@ ==> reads_back(header, write_header, bytes) && reads_back(
                    justification,
                    write_justification,
                    bytes,
                )) && (#[trigger] nothing_found(header, body@, position)) ==> outcome is Err,
{
    let bytes = choose|bytes: &[u8]| #[trigger]
        bytes@ == body@ && match outcome {
            Ok(read) => response_holds(bytes, header, justification, read@),
            Err(error) => error is BadResponse && response_broken(bytes, header, justification),
        };
    assert forall|
        write_header: spec_fn(H) -> Seq<u8>,
        write_justification: spec_fn(J) -> Seq<u8>,
        num_fragments: usize,
        fragments: Seq<GrandpaWarpSyncResponseFragment<H, J>>,
        lengths: Seq<usize>,
        trailing: Seq<u8>,
        position: usize,
    |
        fragments.len() < num_fragments && lengths.len() == fragments.len() && body@
            == #[trigger] response_encoding(
            write_header,
            write_justification,
            num_fragments,
            fragments,
            lengths,
            trailing,
        ) && position == body@.len() - trailing.len() && (forall|bytes: &[u8]|
            #![trigger bytes@]
            bytes@ == body@ ==> reads_back(header, write_header, bytes) && reads_back(
                justification,
                write_justification,
                bytes,
            )) && (#[trigger] nothing_found(header, body@, position)) implies outcome is Err by {
        assert(bytes@ == body@);
        lemma_missing_fragment(
            bytes,
            header,
            justification,
            write_header,
            write_justification,
            num_fragments,
            fragments,
            lengths,
            trailing,
            position,
        );
    }
}

/// Any bytes can be decoded with codecs that can be called anywhere in them and that neither go
/// backwards nor past the end, and any position can be looked at for a compact integer.
pub proof fn law_any_bytes_can_be_decoded<
    H,
    J,
    R,
    F: Fn(&[u8], usize) -> Option<(H, usize)>,
    G: Fn(&[u8], usize) -> Option<(J, usize)>,
>(bytes: &[u8], position: usize, header: F, justification: G)
    requires
        forall|start: usize| start <= bytes@.len() ==> #[trigger] header.requires((bytes, start)),
        forall|start: usize|
            start <= bytes@.len() ==> #[trigger] justification.requires((bytes, start)),
        forall|start: usize, found: H, end: usize|
            start <= bytes@.len() && #[trigger] header.ensures((bytes, start), Some((found, end)))
                ==> start <= end <= bytes@.len(),
        forall|start: usize, found: J, end: usize|
            start <= bytes@.len() && #[trigger] justification.ensures(
                (bytes, start),
                Some((found, end)),
            ) ==> start <= end <= bytes@.len(),
    ensures
        call_requires(decode_compact_usize, (bytes, position)),
        call_requires(
            decode_grandpa_warp_sync_response::<H, J, R, F, G>,
            (bytes, header, justification),
        ),
{
}

/// Whether `fragments` are read one after the other: the fragment `k` has its header at
/// `positions[k]`, behind it, at `lengths[k].0`, a compact integer, and behind that, at
/// `lengths[k].1`, its justification, which ends where the next fragment has its header.
pub open spec fn read_in_turn<
    H,
    J,
    F: Fn(&[u8], usize) -> Option<(H, usize)>,
    G: Fn(&[u8], usize) -> Option<(J, usize)>,
>(
    bytes: &[u8],
    header: F,
    justification: G,
    fragments: Seq<GrandpaWarpSyncResponseFragment<H, J>>,
    positions: Seq<usize>,
    lengths: Seq<(usize, usize)>,
) -> bool {
    &&& positions.len() == fragments.len() + 1
    &&& lengths.len() == fragments.len()
    &&& forall|k: int|
        #![trigger lengths[k]]
        0 <= k < fragments.len() ==> {
            &&& header.ensures(
                (bytes, positions[k]),
                Some((fragments[k].header, lengths[k].0)),
            )
            &&& forall|decoded: Option<(usize, usize)>| #[trigger]
                call_ensures(decode_compact_usize, (bytes, lengths[k].0), decoded)
                    ==> match decoded {
                    Some((_, end)) => end == lengths[k].1,
                    None => false,
                }
            &&& justification.ensures(
                (bytes, lengths[k].1),
                Some((fragments[k].justification, positions[k + 1])),
            )
        }
}

/// Whether there is no whole fragment at `position`: the header isn't found, or else there is no
/// compact integer behind it, or else no justification behind that.
pub open spec fn stops_at<
    H,
    J,
    F: Fn(&[u8], usize) -> Option<(H, usize)>,
    G: Fn(&[u8], usize) -> Option<(J, usize)>,
>(bytes: &[u8], header: F, justification: G, position: usize) -> bool {
    ||| header.ensures((bytes, position), None::<(H, usize)>)
    ||| exists|found: H, header_end: usize| #[trigger]
        header.ensures((bytes, position), Some((found, header_end)))
            && forall|decoded: Option<(usize, usize)>| #[trigger]
            call_ensures(decode_compact_usize, (bytes, header_end), decoded) ==> match decoded {
                Some((_, length_end)) => justification.ensures(
                    (bytes, length_end),
                    None::<(J, usize)>,
                ),
                None => true,
            }
}

/// Fragments that take up the bytes between two positions are read one after the other.
proof fn lemma_fragments_in_turn<
    H,
    J,
    F: Fn(&[u8], usize) -> Option<(H, usize)>,
    G: Fn(&[u8], usize) -> Option<(J, usize)>,
>(
    bytes: &[u8],
    header: F,
    justification: G,
    start: usize,
    fragments: Seq<GrandpaWarpSyncResponseFragment<H, J>>,
    end: usize,
) -> (places: (Seq<usize>, Seq<(usize, usize)>))
    requires
        fragments_at(bytes, header, justification, start, fragments, end),
    ensures
        read_in_turn(bytes, header, justification, fragments, places.0, places.1),
        places.0.first() == start,
        places.0.last() == end,
    decreases fragments.len(),
{
    assert(bytes@.len() == bytes.len());
    if fragments.len() == 0 {
        (seq![start], Seq::empty())
    } else {
        let middle = choose|middle: usize|
            fragments_at(bytes, header, justification, start, fragments.drop_last(), middle)
                && #[trigger] fragment_at(
                bytes,
                header,
                justification,
                middle,
                fragments.last(),
                end,
            );
        let length_start = choose|length_start: usize| #[trigger]
            fragment_with_length_at(
                bytes,
                header,
                justification,
                middle,
                fragments.last(),
                length_start,
                end,
            );
        let length_end = compact_usize_at(bytes@, length_start as int).unwrap().1 as usize;
        let fewer = lemma_fragments_in_turn(
            bytes,
            header,
            justification,
            start,
            fragments.drop_last(),
            middle,
        );
        let lengths = fewer.1.push((length_start, length_end));
        assert forall|k: int| #![trigger lengths[k]] 0 <= k < fragments.len() - 1 implies lengths[k]
            == fewer.1[k] by {}
        (fewer.0.push(end), lengths)
    }
}

/// What a response is found to hold has been read in turn from behind the number of fragments, with
/// any codecs. A response is only refused if there is no number of fragments, or if fewer fragments
/// are read in turn and no whole one follows.
pub proof fn law_response_read_in_turn<
    H,
    J,
    R,
    F: Fn(&[u8], usize) -> Option<(H, usize)>,
    G: Fn(&[u8], usize) -> Option<(J, usize)>,
>(
    bytes: &[u8],
    header: F,
    justification: G,
    announced: Option<(usize, usize)>,
    outcome: Result<Vec<GrandpaWarpSyncResponseFragment<H, J>>, GrandpaWarpSyncRequestError<R>>,
)
    requires
        call_ensures(decode_compact_usize, (bytes, 0usize), announced),
        call_ensures(
            decode_grandpa_warp_sync_response::<H, J, R, F, G>,
            (bytes, header, justification),
            outcome,
        ),
    ensures
        match (announced, outcome) {
            (Some((num_fragments, start)), Ok(read)) => {
                &&& read@.len() == num_fragments
                &&& exists|positions: Seq<usize>, lengths: Seq<(usize, usize)>|
                    positions.first() == start && #[trigger] read_in_turn(
                        bytes,
                        header,
                        justification,
                        read@,
                        positions,
                        lengths,
                    )
            },
            (Some((num_fragments, start)), Err(_)) => exists|
                read: Seq<GrandpaWarpSyncResponseFragment<H, J>>,
                positions: Seq<usize>,
                lengths: Seq<(usize, usize)>,
            |
                read.len() < num_fragments && positions.first() == start && #[trigger] read_in_turn(
                    bytes,
                    header,
                    justification,
                    read,
                    positions,
                    lengths,
                ) && stops_at(bytes, header, justification, positions.last()),
            (None, Ok(_)) => false,
            (None, Err(error)) => error is BadResponse,
        },
{
    lemma_outcome_read_in_turn(bytes, header, justification, announced, outcome);
}

/// What is held by a response is read in turn, and a broken response stops somewhere.
proof fn lemma_outcome_read_in_turn<
    H,
    J,
    R,
    F: Fn(&[u8], usize) -> Option<(H, usize)>,
    G: Fn(&[u8], usize) -> Option<(J, usize)>,
>(
    bytes: &[u8],
    header: F,
    justification: G,
    announced: Option<(usize, usize)>,
    outcome: Result<Vec<GrandpaWarpSyncResponseFragment<H, J>>, GrandpaWarpSyncRequestError<R>>,
)
    requires
        call_ensures(decode_compact_usize, (bytes, 0usize), announced),
        match outcome {
            Ok(read) => response_holds(bytes, header, justification, read@),
            Err(error) => error is BadResponse && response_broken(bytes, header, justification),
        },
    ensures
        match (announced, outcome) {
            (Some((num_fragments, start)), Ok(read)) => exists|
                positions: Seq<usize>,
                lengths: Seq<(usize, usize)>,
            |
                positions.first() == start && #[trigger] read_in_turn(
                    bytes,
                    header,
                    justification,
                    read@,
                    positions,
                    lengths,
                ),
            (Some((num_fragments, start)), Err(_)) => exists|
                read: Seq<GrandpaWarpSyncResponseFragment<H, J>>,
                positions: Seq<usize>,
                lengths: Seq<(usize, usize)>,
            |
                read.len() < num_fragments && positions.first() == start && #[trigger] read_in_turn(
                    bytes,
                    header,
                    justification,
                    read,
                    positions,
                    lengths,
                ) && stops_at(bytes, header, justification, positions.last()),
            _ => true,
        },
{
    assert(bytes@.len() == bytes.len());
    if let Some((num_fragments, start)) = announced {
        if let Ok(read) = outcome {
            let end = choose|end: usize| #[trigger]
                fragments_at(bytes, header, justification, start, read@, end);
            let places = lemma_fragments_in_turn(bytes, header, justification, start, read@, end);
        } else {
            let (read, middle) = choose|
                read: Seq<GrandpaWarpSyncResponseFragment<H, J>>,
                middle: usize,
            | #[trigger]
                fragments_at(bytes, header, justification, start, read, middle) && read.len()
                    < num_fragments && no_fragment_at(bytes, header, justification, middle);
            let places = lemma_fragments_in_turn(bytes, header, justification, start, read, middle);
            if !header.ensures((bytes, middle), None::<(H, usize)>) {
                let (found, header_end) = choose|found: H, header_end: usize| #[trigger]
                    header.ensures((bytes, middle), Some((found, header_end)))
                        && match compact_usize_at(bytes@, header_end as int) {
                        Some((_, length_end)) => justification.ensures(
                            (bytes, length_end as usize),
                            None::<(J, usize)>,
                        ),
                        None => true,
                    };
                assert(header.ensures((bytes, middle), Some((found, header_end))));
            }
            assert(stops_at(bytes, header, justification, middle));
        }
    }
}

/// What the response of a peer is found to hold has been read in turn from its bytes, and it is
/// only refused where fewer fragments are read in turn than announced.
pub proof fn law_response_of_peer_read_in_turn<
    H,
    J,
    R,
    F: Fn(&[u8], usize) -> Option<(H, usize)>,
    G: Fn(&[u8], usize) -> Option<(J, usize)>,
>(
    body: Vec<u8>,
    header: F,
    justification: G,
    outcome: Result<Vec<GrandpaWarpSyncResponseFragment<H, J>>, GrandpaWarpSyncRequestError<R>>,
)
    requires
        call_ensures(
            ChainNetwork::grandpa_warp_sync_response::<H, J, R, F, G>,
            (Ok::<Vec<u8>, R>(body), header, justification),
            outcome,
        ),
    ensures
        exists|bytes: &[u8]|
            #![trigger bytes@]
            bytes@ == body@ && forall|num_fragments: usize, start: usize| #[trigger]
                call_ensures(decode_compact_usize, (bytes, 0usize), Some((num_fragments, start)))
                    ==> match outcome {
                    Ok(read) => read@.len() == num_fragments && exists|
                        positions: Seq<usize>,
                        lengths: Seq<(usize, usize)>,
                    |
                        positions.first() == start && #[trigger] read_in_turn(
                            bytes,
                            header,
                            justification,
                            read@,
                            positions,
                            lengths,
                        ),
                    Err(_) => exists|
                        read: Seq<GrandpaWarpSyncResponseFragment<H, J>>,
                        positions: Seq<usize>,
                        lengths: Seq<(usize, usize)>,
                    |
                        read.len() < num_fragments && positions.first() == start
                            && #[trigger] read_in_turn(
                            bytes,
                            header,
                            justification,
                            read,
                            positions,
                            lengths,
                        ) && stops_at(bytes, header, justification, positions.last()),
                },
{
    let bytes = choose|bytes: &[u8]| #[trigger]
        bytes@ == body@ && match outcome {
            Ok(read) => response_holds(bytes, header, justification, read@),
            Err(error) => error is BadResponse && response_broken(bytes, header, justification),
        };
    assert forall|num_fragments: usize, start: usize| #[trigger]
        call_ensures(
            decode_compact_usize,
            (bytes, 0usize),
            Some((num_fragments, start)),
        ) implies match outcome {
        Ok(read) => read@.len() == num_fragments && exists|
            positions: Seq<usize>,
            lengths: Seq<(usize, usize)>,
        |
            positions.first() == start && #[trigger] read_in_turn(
                bytes,
                header,
                justification,
                read@,
                positions,
                lengths,
            ),
        Err(_) => exists|
            read: Seq<GrandpaWarpSyncResponseFragment<H, J>>,
            positions: Seq<usize>,
            lengths: Seq<(usize, usize)>,
        |
            read.len() < num_fragments && positions.first() == start && #[trigger] read_in_turn(
                bytes,
                header,
                justification,
                read,
                positions,
                lengths,
            ) && stops_at(bytes, header, justification, positions.last()),
    } by {
        lemma_outcome_read_in_turn(
            bytes,
            header,
            justification,
            Some((num_fragments, start)),
            outcome,
        );
    }
    assert(bytes@ == body@);
}

/// The response of a peer can be made sense of with codecs that can be called anywhere in its bytes
/// and that neither go backwards nor past the end, and a request that has failed with any codecs.
pub proof fn law_any_response_can_be_read<
    H,
    J,
    R,
    F: Fn(&[u8], usize) -> Option<(H, usize)>,
    G: Fn(&[u8], usize) -> Option<(J, usize)>,
>(response: Result<Vec<u8>, R>, header: F, justification: G)
    requires
        match response {
            Ok(body) => {
                &&& forall|bytes: &[u8], start: usize|
                    bytes@ == body@ && start <= body@.len() ==> #[trigger] header.requires(
                        (bytes, start),
                    )
                &&& forall|bytes: &[u8], start: usize|
                    bytes@ == body@ && start <= body@.len() ==> #[trigger] justification.requires(
                        (bytes, start),
                    )
                &&& forall|bytes: &[u8], start: usize, found: H, end: usize|
                    bytes@ == body@ && start <= body@.len() && #[trigger] header.ensures(
                        (bytes, start),
                        Some((found, end)),
                    ) ==> start <= end <= body@.len()
                &&& forall|bytes: &[u8], start: usize, found: J, end: usize|
                    bytes@ == body@ && start <= body@.len() && #[trigger] justification.ensures(
                        (bytes, start),
                        Some((found, end)),
                    ) ==> start <= end <= body@.len()
            },
            Err(_) => true,
        },
    ensures
        call_requires(
            ChainNetwork::grandpa_warp_sync_response::<H, J, R, F, G>,
            (response, header, justification),
        ),
{
}

} // verus!
