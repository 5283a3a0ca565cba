//! GrandPa warp sync requests and responses.
//!
//! A request is the hash of a block. A response is a compact integer that tells how many fragments
//! follow, then the fragments. A fragment is a block header, a compact integer with the length of
//! the justification, and the justification. The codecs of headers and of justifications are
//! supplied by the caller.

use parity_scale_codec::Encode;
use vstd::prelude::*;

use crate::scale::{compact_usize_at, decode_compact_usize};

verus! {

/// Request for the fragments that follow the given block.
#[derive(Debug, Copy, Clone, PartialEq, Eq)]
pub struct GrandpaWarpSyncRequest {
    /// Hash of the block to start from.
    pub begin: [u8; 32],
}

/// Calls `parity_scale_codec::Encode::encode` on an array of 32 bytes. Trusted to return these
/// bytes as they are, with nothing before or after: fixed-size arrays are encoded item by item
/// without a length, and a byte is encoded as itself.
#[verifier::external_body]
fn encode_hash(hash: &[u8; 32]) -> (encoded: Vec<u8>)
    ensures
        encoded@ == hash@,
{
    hash.encode()
}

impl GrandpaWarpSyncRequest {
    /// Returns the bytes that go on the wire.
    pub fn encode(&self) -> (encoded: Vec<u8>)
        ensures
            encoded@ == self.begin@,
    {
        encode_hash(&self.begin)
    }
}

/// Element of a warp sync response.
#[derive(Debug, Clone, PartialEq, Eq)]
pub struct GrandpaWarpSyncResponseFragment<THeader, TJustification> {
    pub header: THeader,
    pub justification: TJustification,
}

/// Error returned by a warp sync request.
#[derive(Debug, Clone, PartialEq, Eq)]
pub enum GrandpaWarpSyncRequestError<TRequestError> {
    /// The request itself has failed.
    Request(TRequestError),
    /// The response isn't in the right format.
    BadResponse,
}

/// Whether `decode` can be called anywhere in `bytes`, end included, and never claims to have read
/// past the end or backwards. It is given all the bytes and the position to start from, and returns
/// what it has found together with the position of what follows.
pub open spec fn stays_within<T, F: Fn(&[u8], usize) -> Option<(T, usize)>>(
    decode: F,
    bytes: &[u8],
) -> bool {
    &&& forall|start: usize| start <= bytes@.len() ==> #[trigger] decode.requires((bytes, start))
    &&& forall|start: usize, value: T, end: usize|
        start <= bytes@.len() && #[trigger] decode.ensures((bytes, start), Some((value, end)))
            ==> start <= end <= bytes@.len()
}

/// Whether what `decode` finds in `bytes` depends on the position alone.
pub open spec fn is_functional<T, F: Fn(&[u8], usize) -> Option<(T, usize)>>(
    decode: F,
    bytes: &[u8],
) -> bool {
    forall|start: usize, a: Option<(T, usize)>, b: Option<(T, usize)>| #[trigger]
        decode.ensures((bytes, start), a) && #[trigger] decode.ensures((bytes, start), b) ==> a == b
}

/// Whether `fragment` takes up the bytes between two positions, with the length of its
/// justification at `length_start`.
pub open spec fn fragment_with_length_at<
    H,
    J,
    F: Fn(&[u8], usize) -> Option<(H, usize)>,
    G: Fn(&[u8], usize) -> Option<(J, usize)>,
>(
    bytes: &[u8],
    header: F,
    justification: G,
    start: usize,
    fragment: GrandpaWarpSyncResponseFragment<H, J>,
    length_start: usize,
    end: usize,
) -> bool {
    &&& header.ensures((bytes, start), Some((fragment.header, length_start)))
    &&& match compact_usize_at(bytes@, length_start as int) {
        Some((_, length_end)) => justification.ensures(
            (bytes, length_end as usize),
            Some((fragment.justification, end)),
        ),
        None => false,
    }
}

/// Whether `fragment` takes up the bytes between two positions.
pub open spec fn fragment_at<
    H,
    J,
    F: Fn(&[u8], usize) -> Option<(H, usize)>,
    G: Fn(&[u8], usize) -> Option<(J, usize)>,
>(
    bytes: &[u8],
    header: F,
    justification: G,
    start: usize,
    fragment: GrandpaWarpSyncResponseFragment<H, J>,
    end: usize,
) -> bool {
    exists|length_start: usize| #[trigger]
        fragment_with_length_at(
            bytes,
            header,
            justification,
            start,
            fragment,
            length_start,
            end,
        )
}

/// Whether what starts at `start` isn't a fragment.
pub open spec fn no_fragment_at<
    H,
    J,
    F: Fn(&[u8], usize) -> Option<(H, usize)>,
    G: Fn(&[u8], usize) -> Option<(J, usize)>,
>(bytes: &[u8], header: F, justification: G, start: usize) -> bool {
    ||| header.ensures((bytes, start), None::<(H, usize)>)
    ||| exists|found: H, header_end: usize| #[trigger]
        header.ensures((bytes, start), Some((found, header_end))) && match compact_usize_at(
            bytes@,
            header_end as int,
        ) {
            Some((_, length_end)) => justification.ensures(
                (bytes, length_end as usize),
                None::<(J, usize)>,
            ),
            None => true,
        }
}

/// Whether `fragments` take up the bytes between two positions, one after the other.
pub open spec fn fragments_at<
    H,
    J,
    F: Fn(&[u8], usize) -> Option<(H, usize)>,
    G: Fn(&[u8], usize) -> Option<(J, usize)>,
>(
    bytes: &[u8],
    header: F,
    justification: G,
    start: usize,
    fragments: Seq<GrandpaWarpSyncResponseFragment<H, J>>,
    end: usize,
) -> bool
    decreases fragments.len(),
{
    if fragments.len() == 0 {
        start == end
    } else {
        exists|middle: usize|
            fragments_at(bytes, header, justification, start, fragments.drop_last(), middle)
                && #[trigger] fragment_at(bytes, header, justification, middle, fragments.last(), end)
    }
}

/// Whether `fragments` stand one after the other from `start` on.
pub open spec fn fragments_present<
    H,
    J,
    F: Fn(&[u8], usize) -> Option<(H, usize)>,
    G: Fn(&[u8], usize) -> Option<(J, usize)>,
>(
    bytes: &[u8],
    header: F,
    justification: G,
    start: usize,
    fragments: Seq<GrandpaWarpSyncResponseFragment<H, J>>,
) -> bool {
    exists|end: usize| #[trigger]
        fragments_at(bytes, header, justification, start, fragments, end)
}

/// Whether the response is made of its number of fragments, then of `fragments`. What comes after
/// that doesn't matter.
pub open spec fn response_holds<
    H,
    J,
    F: Fn(&[u8], usize) -> Option<(H, usize)>,
    G: Fn(&[u8], usize) -> Option<(J, usize)>,
>(
    bytes: &[u8],
    header: F,
    justification: G,
    fragments: Seq<GrandpaWarpSyncResponseFragment<H, J>>,
) -> bool {
    &&& compact_usize_at(bytes@, 0) matches Some((num_fragments, start))
    &&& fragments.len() == num_fragments
    &&& fragments_present(bytes, header, justification, start as usize, fragments)
}

/// Whether fewer than `num_fragments` fragments are followed by something else.
pub open spec fn fragments_missing<
    H,
    J,
    F: Fn(&[u8], usize) -> Option<(H, usize)>,
    G: Fn(&[u8], usize) -> Option<(J, usize)>,
>(bytes: &[u8], header: F, justification: G, start: usize, num_fragments: nat) -> bool {
    exists|fragments: Seq<GrandpaWarpSyncResponseFragment<H, J>>, middle: usize| #[trigger]
        fragments_at(bytes, header, justification, start, fragments, middle) && fragments.len()
            < num_fragments && no_fragment_at(bytes, header, justification, middle)
}

/// Whether the response is cut short or otherwise broken: there is no number of fragments, or
/// something else stands in place of one of the fragments.
pub open spec fn response_broken<
    H,
    J,
    F: Fn(&[u8], usize) -> Option<(H, usize)>,
    G: Fn(&[u8], usize) -> Option<(J, usize)>,
>(bytes: &[u8], header: F, justification: G) -> bool {
    match compact_usize_at(bytes@, 0) {
        Some((num_fragments, start)) => fragments_missing(
            bytes,
            header,
            justification,
            start as usize,
            num_fragments,
        ),
        None => true,
    }
}

/// Decodes the fragment that starts at `start`. Returns it with the position of what follows.
fn decode_fragment<
    H,
    J,
    F: Fn(&[u8], usize) -> Option<(H, usize)>,
    G: Fn(&[u8], usize) -> Option<(J, usize)>,
>(bytes: &[u8], header: &F, justification: &G, start: usize) -> (decoded: Option<
    (GrandpaWarpSyncResponseFragment<H, J>, usize),
>)
    requires
        start <= bytes@.len(),
        stays_within(*header, bytes),
        stays_within(*justification, bytes),
    ensures
        match decoded {
            Some((fragment, end)) => {
                &&& fragment_at(bytes, *header, *justification, start, fragment, end)
                &&& end <= bytes@.len()
            },
            None => no_fragment_at(bytes, *header, *justification, start),
        },
{
    let (found_header, header_end) = match header(bytes, start) {
        Some(found) => found,
        None => return None,
    };
    let (_, length_end) = match decode_compact_usize(bytes, header_end) {
        Some(found) => found,
        None => return None,
    };
    let (found_justification, end) = match justification(bytes, length_end) {
        Some(found) => found,
        None => return None,
    };
    let fragment = GrandpaWarpSyncResponseFragment {
        header: found_header,
        justification: found_justification,
    };
    assert(fragment_with_length_at(
        bytes,
        *header,
        *justification,
        start,
        fragment,
        header_end,
        end,
    ));
    Some((fragment, end))
}

/// Decodes a warp sync response.
pub fn decode_grandpa_warp_sync_response<
    H,
    J,
    TRequestError,
    F: Fn(&[u8], usize) -> Option<(H, usize)>,
    G: Fn(&[u8], usize) -> Option<(J, usize)>,
>(bytes: &[u8], header: F, justification: G) -> (decoded: Result<
    Vec<GrandpaWarpSyncResponseFragment<H, J>>,
    GrandpaWarpSyncRequestError<TRequestError>,
>)
    requires
        stays_within(header, bytes),
        stays_within(justification, bytes),
    ensures
        match decoded {
            Ok(fragments) => response_holds(bytes, header, justification, fragments@),
            Err(error) => error is BadResponse && response_broken(bytes, header, justification),
        },
{
    let (num_fragments, start) = match decode_compact_usize(bytes, 0) {
        Some(decoded) => decoded,
        None => return Err(GrandpaWarpSyncRequestError::BadResponse),
    };
    let mut fragments: Vec<GrandpaWarpSyncResponseFragment<H, J>> = Vec::new();
    let mut position: usize = start;
    while fragments.len() < num_fragments
        invariant
            stays_within(header, bytes),
            stays_within(justification, bytes),
            compact_usize_at(bytes@, 0) == Some((num_fragments as nat, start as int)),
            position <= bytes@.len(),
            fragments.len() <= num_fragments,
            fragments_at(bytes, header, justification, start, fragments@, position),
        decreases num_fragments - fragments.len(),
    {
        match decode_fragment(bytes, &header, &justification, position) {
            Some((fragment, end)) => {
                let ghost before = fragments@;
                fragments.push(fragment);
                assert(fragments@.drop_last() =~= before);
                assert(fragment_at(bytes, header, justification, position, fragments@.last(), end));
                position = end;
            },
            None => {
                assert(fragments_missing(
                    bytes,
                    header,
                    justification,
                    start,
                    num_fragments as nat,
                ));
                return Err(GrandpaWarpSyncRequestError::BadResponse);
            },
        }
    }
    assert(fragments_present(bytes, header, justification, start, fragments@));
    Ok(fragments)
}

/// Fragments that take up the same bytes are the same, and end at the same position.
proof fn lemma_fragments_unique<
    H,
    J,
    F: Fn(&[u8], usize) -> Option<(H, usize)>,
    G: Fn(&[u8], usize) -> Option<(J, usize)>,
>(
    bytes: &[u8],
    header: F,
    justification: G,
    start: usize,
    a: Seq<GrandpaWarpSyncResponseFragment<H, J>>,
    a_end: usize,
    b: Seq<GrandpaWarpSyncResponseFragment<H, J>>,
    b_end: usize,
)
    requires
        is_functional(header, bytes),
        is_functional(justification, bytes),
        a.len() == b.len(),
        fragments_at(bytes, header, justification, start, a, a_end),
        fragments_at(bytes, header, justification, start, b, b_end),
    ensures
        a == b,
        a_end == b_end,
    decreases a.len(),
{
    if a.len() == 0 {
        assert(a =~= b);
    } else {
        let a_middle = choose|middle: usize|
            fragments_at(bytes, header, justification, start, a.drop_last(), middle)
                && #[trigger] fragment_at(bytes, header, justification, middle, a.last(), a_end);
        let b_middle = choose|middle: usize|
            fragments_at(bytes, header, justification, start, b.drop_last(), middle)
                && #[trigger] fragment_at(bytes, header, justification, middle, b.last(), b_end);
        lemma_fragments_unique(
            bytes,
            header,
            justification,
            start,
            a.drop_last(),
            a_middle,
            b.drop_last(),
            b_middle,
        );
        assert(a.last() == b.last());
        assert(a =~= a.drop_last().push(a.last()));
        assert(b =~= b.drop_last().push(b.last()));
    }
}

/// Each fragment is preceded and followed by the others, and has its length somewhere.
pub(crate) proof fn lemma_fragments_split<
    H,
    J,
    F: Fn(&[u8], usize) -> Option<(H, usize)>,
    G: Fn(&[u8], usize) -> Option<(J, usize)>,
>(
    bytes: &[u8],
    header: F,
    justification: G,
    start: usize,
    fragments: Seq<GrandpaWarpSyncResponseFragment<H, J>>,
    end: usize,
    n: int,
) -> (positions: (usize, usize, usize))
    requires
        0 <= n < fragments.len(),
        fragments_at(bytes, header, justification, start, fragments, end),
    ensures
        fragments_at(bytes, header, justification, start, fragments.take(n), positions.0),
        fragment_with_length_at(
            bytes,
            header,
            justification,
            positions.0,
            fragments[n],
            positions.1,
            positions.2,
        ),
        fragments_at(bytes, header, justification, positions.2, fragments.skip(n + 1), end),
    decreases fragments.len(),
{
    let last_start = choose|middle: usize|
        fragments_at(bytes, header, justification, start, fragments.drop_last(), middle)
            && #[trigger] fragment_at(bytes, header, justification, middle, fragments.last(), end);
    if n == fragments.len() - 1 {
        assert(fragments.take(n) =~= fragments.drop_last());
        assert(fragments.skip(n + 1) =~= Seq::empty());
        let length_start = choose|length_start: usize| #[trigger]
            fragment_with_length_at(
                bytes,
                header,
                justification,
                last_start,
                fragments.last(),
                length_start,
                end,
            );
        (last_start, length_start, end)
    } else {
        assert(fragments.drop_last().take(n) =~= fragments.take(n));
        let positions = lemma_fragments_split(
            bytes,
            header,
            justification,
            start,
            fragments.drop_last(),
            last_start,
            n,
        );
        let rest = fragments.skip(n + 1);
        assert(rest.drop_last() =~= fragments.drop_last().skip(n + 1));
        assert(rest.last() == fragments.last());
        assert(fragment_at(bytes, header, justification, last_start, rest.last(), end));
        positions
    }
}

/// A response that holds fragments holds no others and isn't broken, as long as what the codecs
/// find depends on nothing but the bytes. A correct response is thus never refused, and a broken
/// one never accepted.
pub proof fn law_response_has_one_reading<
    H,
    J,
    F: Fn(&[u8], usize) -> Option<(H, usize)>,
    G: Fn(&[u8], usize) -> Option<(J, usize)>,
>(
    bytes: &[u8],
    header: F,
    justification: G,
    fragments: Seq<GrandpaWarpSyncResponseFragment<H, J>>,
)
    requires
        is_functional(header, bytes),
        is_functional(justification, bytes),
        response_holds(bytes, header, justification, fragments),
    ensures
        forall|others: Seq<GrandpaWarpSyncResponseFragment<H, J>>|
            response_holds(bytes, header, justification, others) ==> others == fragments,
        !response_broken(bytes, header, justification),
{
    let start = compact_usize_at(bytes@, 0).unwrap().1 as usize;
    let end = choose|end: usize| #[trigger]
        fragments_at(bytes, header, justification, start, fragments, end);
    assert forall|others: Seq<GrandpaWarpSyncResponseFragment<H, J>>|
        response_holds(bytes, header, justification, others) implies others == fragments by {
        let others_end = choose|end: usize| #[trigger]
            fragments_at(bytes, header, justification, start, others, end);
        lemma_fragments_unique(
            bytes,
            header,
            justification,
            start,
            fragments,
            end,
            others,
            others_end,
        );
    }
    if response_broken(bytes, header, justification) {
        let (read, middle) = choose|
            read: Seq<GrandpaWarpSyncResponseFragment<H, J>>,
            middle: usize,
        | #[trigger]
            fragments_at(bytes, header, justification, start, read, middle) && read.len()
                < fragments.len() && no_fragment_at(bytes, header, justification, middle);
        let (here, _, next) = lemma_fragments_split(
            bytes,
            header,
            justification,
            start,
            fragments,
            end,
            read.len() as int,
        );
        lemma_fragments_unique(
            bytes,
            header,
            justification,
            start,
            read,
            middle,
            fragments.take(read.len() as int),
            here,
        );
        assert(fragment_at(
            bytes,
            header,
            justification,
            middle,
            fragments[read.len() as int],
            next,
        ));
    }
}

/// Whether the bytes between `from` and `to` are also found in `other`, `shift` positions further.
pub open spec fn bytes_shifted(
    bytes: Seq<u8>,
    from: int,
    to: int,
    other: Seq<u8>,
    shift: int,
) -> bool {
    &&& 0 <= from <= to <= bytes.len()
    &&& 0 <= from + shift
    &&& to + shift <= other.len()
    &&& bytes.subrange(from, to) == other.subrange(from + shift, to + shift)
}

/// Whether what `decode` finds in `bytes` between `from` and `to`, it can also find in `other`,
/// `shift` positions further.
pub open spec fn finds_shifted<T, F: Fn(&[u8], usize) -> Option<(T, usize)>>(
    decode: F,
    bytes: &[u8],
    from: int,
    to: int,
    other: &[u8],
    shift: int,
) -> bool {
    forall|start: usize, value: T, end: usize|
        from <= start && end <= to && #[trigger] decode.ensures((bytes, start), Some((value, end)))
            ==> decode.ensures(
            (other, (start + shift) as usize),
            Some((value, (end + shift) as usize)),
        )
}

/// A compact integer that is found in both places holds the same number.
proof fn lemma_compact_shifted(
    bytes: Seq<u8>,
    from: int,
    to: int,
    other: Seq<u8>,
    shift: int,
    position: int,
)
    requires
        bytes_shifted(bytes, from, to, other, shift),
        from <= position,
        compact_usize_at(bytes, position) matches Some((_, end)) && end <= to,
    ensures
        compact_usize_at(bytes, position) matches Some((value, end)) && compact_usize_at(
            other,
            position + shift,
        ) == Some((value, end + shift)),
{
    let end = compact_usize_at(bytes, position).unwrap().1;
    let shared = bytes.subrange(from, to);
    assert(position < end);
    assert(bytes[position] == shared[position - from]);
    assert(other[position + shift] == shared[position - from]);
    assert(bytes.subrange(position, end) =~= shared.subrange(position - from, end - from));
    assert(other.subrange(position + shift, end + shift) =~= shared.subrange(
        position - from,
        end - from,
    ));
}

/// Fragments are never read backwards.
proof fn lemma_fragments_forward<
    H,
    J,
    F: Fn(&[u8], usize) -> Option<(H, usize)>,
    G: Fn(&[u8], usize) -> Option<(J, usize)>,
>(
    bytes: &[u8],
    header: F,
    justification: G,
    start: usize,
    fragments: Seq<GrandpaWarpSyncResponseFragment<H, J>>,
    end: usize,
)
    requires
        stays_within(header, bytes),
        stays_within(justification, bytes),
        start <= bytes@.len(),
        fragments_at(bytes, header, justification, start, fragments, end),
    ensures
        start <= end <= bytes@.len(),
    decreases fragments.len(),
{
    assert(bytes@.len() == bytes.len());
    if fragments.len() > 0 {
        let middle = choose|middle: usize|
            fragments_at(bytes, header, justification, start, fragments.drop_last(), middle)
                && #[trigger] fragment_at(
                bytes,
                header,
                justification,
                middle,
                fragments.last(),
                end,
            );
        lemma_fragments_forward(
            bytes,
            header,
            justification,
            start,
            fragments.drop_last(),
            middle,
        );
    }
}

/// Fragments that are found in both places are the same.
proof fn lemma_fragments_shifted<
    H,
    J,
    F: Fn(&[u8], usize) -> Option<(H, usize)>,
    G: Fn(&[u8], usize) -> Option<(J, usize)>,
>(
    bytes: &[u8],
    header: F,
    justification: G,
    from: int,
    to: int,
    other: &[u8],
    shift: int,
    start: usize,
    fragments: Seq<GrandpaWarpSyncResponseFragment<H, J>>,
    end: usize,
)
    requires
        stays_within(header, bytes),
        stays_within(justification, bytes),
        bytes_shifted(bytes@, from, to, other@, shift),
        finds_shifted(header, bytes, from, to, other, shift),
        finds_shifted(justification, bytes, from, to, other, shift),
        from <= start,
        end <= to,
        start <= bytes@.len(),
        fragments_at(bytes, header, justification, start, fragments, end),
    ensures
        fragments_at(
            other,
            header,
            justification,
            (start + shift) as usize,
            fragments,
            (end + shift) as usize,
        ),
    decreases fragments.len(),
{
    assert(other@.len() == other.len());
    assert(bytes@.len() == bytes.len());
    if fragments.len() > 0 {
        let middle = choose|middle: usize|
            fragments_at(bytes, header, justification, start, fragments.drop_last(), middle)
                && #[trigger] fragment_at(
                bytes,
                header,
                justification,
                middle,
                fragments.last(),
                end,
            );
        lemma_fragments_forward(
            bytes,
            header,
            justification,
            start,
            fragments.drop_last(),
            middle,
        );
        let length_start = choose|length_start: usize| #[trigger]
            fragment_with_length_at(
                bytes,
                header,
                justification,
                middle,
                fragments.last(),
                length_start,
                end,
            );
        let length_end = compact_usize_at(bytes@, length_start as int).unwrap().1;
        assert(middle <= length_start <= length_end <= end <= to);
        lemma_compact_shifted(bytes@, from, to, other@, shift, length_start as int);
        assert(fragment_with_length_at(
            other,
            header,
            justification,
            (middle + shift) as usize,
            fragments.last(),
            (length_start + shift) as usize,
            (end + shift) as usize,
        ));
        lemma_fragments_shifted(
            bytes,
            header,
            justification,
            from,
            to,
            other,
            shift,
            start,
            fragments.drop_last(),
            middle,
        );
        assert(fragment_at(
            other,
            header,
            justification,
            (middle + shift) as usize,
            fragments.last(),
            (end + shift) as usize,
        ));
    }
}

/// Bytes that come after the announced number of fragments change nothing: a response that is
/// followed by anything else holds the same fragments, for codecs that aren't disturbed by what
/// follows.
pub proof fn law_trailing_bytes_ignored<
    H,
    J,
    F: Fn(&[u8], usize) -> Option<(H, usize)>,
    G: Fn(&[u8], usize) -> Option<(J, usize)>,
>(
    bytes: &[u8],
    longer: &[u8],
    header: F,
    justification: G,
    fragments: Seq<GrandpaWarpSyncResponseFragment<H, J>>,
)
    requires
        bytes@.is_prefix_of(longer@),
        stays_within(header, bytes),
        stays_within(justification, bytes),
        finds_shifted(header, bytes, 0, bytes@.len() as int, longer, 0),
        finds_shifted(justification, bytes, 0, bytes@.len() as int, longer, 0),
        response_holds(bytes, header, justification, fragments),
    ensures
        response_holds(longer, header, justification, fragments),
        is_functional(header, longer) && is_functional(justification, longer) ==> !response_broken(
            longer,
            header,
            justification,
        ),
{
    let len = bytes@.len() as int;
    let start = compact_usize_at(bytes@, 0).unwrap().1 as usize;
    let end = choose|end: usize| #[trigger]
        fragments_at(bytes, header, justification, start, fragments, end);
    assert(bytes@.subrange(0, len) =~= longer@.subrange(0, len));
    lemma_compact_shifted(bytes@, 0, len, longer@, 0, 0);
    lemma_fragments_forward(bytes, header, justification, start, fragments, end);
    lemma_fragments_shifted(
        bytes,
        header,
        justification,
        0,
        len,
        longer,
        0,
        start,
        fragments,
        end,
    );
    assert(fragments_present(longer, header, justification, start, fragments));
    if is_functional(header, longer) && is_functional(justification, longer) {
        law_response_has_one_reading(longer, header, justification, fragments);
    }
}

/// Whether the response holds `fragments`, read in such a way that the length of the justification
/// of the fragment `n` stands at `length_start`.
pub open spec fn response_holds_with_length_at<
    H,
    J,
    F: Fn(&[u8], usize) -> Option<(H, usize)>,
    G: Fn(&[u8], usize) -> Option<(J, usize)>,
>(
    bytes: &[u8],
    header: F,
    justification: G,
    fragments: Seq<GrandpaWarpSyncResponseFragment<H, J>>,
    n: int,
    length_start: usize,
) -> bool {
    &&& compact_usize_at(bytes@, 0) matches Some((num_fragments, start))
    &&& fragments.len() == num_fragments
    &&& 0 <= n < fragments.len()
    &&& exists|before: usize, after: usize|
        fragments_at(bytes, header, justification, start as usize, fragments.take(n), before)
            && #[trigger] fragment_with_length_at(
            bytes,
            header,
            justification,
            before,
            fragments[n],
            length_start,
            after,
        ) && fragments_present(bytes, header, justification, after, fragments.skip(n + 1))
}

/// Whether the two byte strings are the same but for the compact integer that both have at
/// `position`.
pub open spec fn differ_in_compact_at(bytes: Seq<u8>, other: Seq<u8>, position: int) -> bool {
    match (compact_usize_at(bytes, position), compact_usize_at(other, position)) {
        (Some((_, end)), Some((_, other_end))) => {
            &&& bytes.take(position) == other.take(position)
            &&& bytes.skip(end) == other.skip(other_end)
        },
        _ => false,
    }
}

/// Whether what `decode` finds in `bytes` before or after the compact integer at `position`, it can
/// also find in `other`, in the same place before it or after it.
pub open spec fn finds_around_compact<T, F: Fn(&[u8], usize) -> Option<(T, usize)>>(
    decode: F,
    bytes: &[u8],
    other: &[u8],
    position: int,
) -> bool {
    match (compact_usize_at(bytes@, position), compact_usize_at(other@, position)) {
        (Some((_, end)), Some((_, other_end))) => {
            &&& finds_shifted(decode, bytes, 0, position, other, 0)
            &&& finds_shifted(decode, bytes, end, bytes@.len() as int, other, other_end - end)
        },
        _ => false,
    }
}

/// Fragments followed by other fragments are fragments.
proof fn lemma_fragments_joined<
    H,
    J,
    F: Fn(&[u8], usize) -> Option<(H, usize)>,
    G: Fn(&[u8], usize) -> Option<(J, usize)>,
>(
    bytes: &[u8],
    header: F,
    justification: G,
    start: usize,
    first: Seq<GrandpaWarpSyncResponseFragment<H, J>>,
    middle: usize,
    second: Seq<GrandpaWarpSyncResponseFragment<H, J>>,
    end: usize,
)
    requires
        fragments_at(bytes, header, justification, start, first, middle),
        fragments_at(bytes, header, justification, middle, second, end),
    ensures
        fragments_at(bytes, header, justification, start, first + second, end),
    decreases second.len(),
{
    if second.len() == 0 {
        assert(first + second =~= first);
    } else {
        let last_start = choose|last_start: usize|
            fragments_at(bytes, header, justification, middle, second.drop_last(), last_start)
                && #[trigger] fragment_at(
                bytes,
                header,
                justification,
                last_start,
                second.last(),
                end,
            );
        lemma_fragments_joined(
            bytes,
            header,
            justification,
            start,
            first,
            middle,
            second.drop_last(),
            last_start,
        );
        assert((first + second).drop_last() =~= first + second.drop_last());
        assert((first + second).last() == second.last());
        assert(fragment_at(
            bytes,
            header,
            justification,
            last_start,
            (first + second).last(),
            end,
        ));
    }
}

/// In a response that holds fragments, the length of the justification of each of them stands
/// somewhere.
pub proof fn law_every_fragment_has_a_length<
    H,
    J,
    F: Fn(&[u8], usize) -> Option<(H, usize)>,
    G: Fn(&[u8], usize) -> Option<(J, usize)>,
>(
    bytes: &[u8],
    header: F,
    justification: G,
    fragments: Seq<GrandpaWarpSyncResponseFragment<H, J>>,
    n: int,
)
    requires
        0 <= n < fragments.len(),
        response_holds(bytes, header, justification, fragments),
    ensures
        exists|length_start: usize|
            response_holds_with_length_at(
                bytes,
                header,
                justification,
                fragments,
                n,
                length_start,
            ),
{
    let start = compact_usize_at(bytes@, 0).unwrap().1 as usize;
    let end = choose|end: usize| #[trigger]
        fragments_at(bytes, header, justification, start, fragments, end);
    let positions = lemma_fragments_split(
        bytes,
        header,
        justification,
        start,
        fragments,
        end,
        n,
    );
    assert(fragments_present(
        bytes,
        header,
        justification,
        positions.2,
        fragments.skip(n + 1),
    ));
    assert(response_holds_with_length_at(
        bytes,
        header,
        justification,
        fragments,
        n,
        positions.1,
    ));
}

/// The length between the header and the justification of a fragment has to be there, but its
/// value has no influence: with any other length in its place, the response holds the same
/// fragments, for codecs that find the same around it.
pub proof fn law_length_value_ignored<
    H,
    J,
    F: Fn(&[u8], usize) -> Option<(H, usize)>,
    G: Fn(&[u8], usize) -> Option<(J, usize)>,
>(
    bytes: &[u8],
    other: &[u8],
    header: F,
    justification: G,
    fragments: Seq<GrandpaWarpSyncResponseFragment<H, J>>,
    n: int,
    length_start: usize,
)
    requires
        stays_within(header, bytes),
        stays_within(justification, bytes),
        response_holds_with_length_at(bytes, header, justification, fragments, n, length_start),
        differ_in_compact_at(bytes@, other@, length_start as int),
        finds_around_compact(header, bytes, other, length_start as int),
        finds_around_compact(justification, bytes, other, length_start as int),
    ensures
        response_holds(bytes, header, justification, fragments),
        response_holds(other, header, justification, fragments),
        is_functional(header, other) && is_functional(justification, other) ==> !response_broken(
            other,
            header,
            justification,
        ),
{
    assert(bytes@.len() == bytes.len());
    assert(other@.len() == other.len());
    let position = length_start as int;
    let len = bytes@.len() as int;
    let length_end = compact_usize_at(bytes@, position).unwrap().1;
    let other_end = compact_usize_at(other@, position).unwrap().1;
    let shift = other_end - length_end;
    let start = compact_usize_at(bytes@, 0).unwrap().1 as usize;
    let (before, after) = choose|before: usize, after: usize|
        fragments_at(bytes, header, justification, start, fragments.take(n), before)
            && #[trigger] fragment_with_length_at(
            bytes,
            header,
            justification,
            before,
            fragments[n],
            length_start,
            after,
        ) && fragments_present(bytes, header, justification, after, fragments.skip(n + 1));
    let end = choose|end: usize| #[trigger]
        fragments_at(bytes, header, justification, after, fragments.skip(n + 1), end);
    let whole = fragments.take(n).push(fragments[n]);
    assert(whole.drop_last() =~= fragments.take(n));
    assert(whole + fragments.skip(n + 1) =~= fragments);

    // The response as it is.
    assert(fragment_at(bytes, header, justification, before, whole.last(), after));
    assert(fragments_at(bytes, header, justification, start, whole, after));
    lemma_fragments_joined(
        bytes,
        header,
        justification,
        start,
        whole,
        after,
        fragments.skip(n + 1),
        end,
    );
    assert(fragments_present(bytes, header, justification, start, fragments));

    // What stands before the length.
    lemma_fragments_forward(bytes, header, justification, start, fragments.take(n), before);
    assert(before <= length_start);
    assert(bytes@.subrange(0, position) =~= bytes@.take(position));
    assert(other@.subrange(0, position) =~= other@.take(position));
    lemma_compact_shifted(bytes@, 0, position, other@, 0, 0);
    lemma_fragments_shifted(
        bytes,
        header,
        justification,
        0,
        position,
        other,
        0,
        start,
        fragments.take(n),
        before,
    );

    // What stands after the length.
    assert(length_end <= after);
    lemma_fragments_forward(
        bytes,
        header,
        justification,
        after,
        fragments.skip(n + 1),
        end,
    );
    assert(bytes@.skip(length_end).len() == other@.skip(other_end).len());
    assert(bytes@.subrange(length_end, len) =~= bytes@.skip(length_end));
    assert(other@.subrange(other_end, len + shift) =~= other@.skip(other_end));
    lemma_fragments_shifted(
        bytes,
        header,
        justification,
        length_end,
        len,
        other,
        shift,
        after,
        fragments.skip(n + 1),
        end,
    );

    // All of it.
    let other_after = (after + shift) as usize;
    assert(fragment_with_length_at(
        other,
        header,
        justification,
        before,
        fragments[n],
        length_start,
        other_after,
    ));
    assert(fragment_at(other, header, justification, before, whole.last(), other_after));
    assert(fragments_at(other, header, justification, start, whole, other_after));
    lemma_fragments_joined(
        other,
        header,
        justification,
        start,
        whole,
        other_after,
        fragments.skip(n + 1),
        (end + shift) as usize,
    );
    assert(fragments_present(other, header, justification, start, fragments));
    if is_functional(header, other) && is_functional(justification, other) {
        law_response_has_one_reading(other, header, justification, fragments);
    }
}

} // verus!
