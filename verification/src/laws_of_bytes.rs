//! What holds of buffers that are put together and taken apart.
//!
//! The laws speak of what the functions return: `call_ensures(f, args, result)` says that `result`
//! is something that `f` returns on `args`.

use vstd::prelude::*;

use crate::announce::{EncodedBlockAnnounce, EncodedBlockAnnounceHandshake};
use crate::bytes::{decode_buffer, decode_valid, duplicate, join_chunks};

verus! {

/// Number of bytes that the chunks have together.
pub open spec fn total_len(chunks: Seq<Vec<u8>>) -> nat
    decreases chunks.len(),
{
    if chunks.len() == 0 {
        0
    } else {
        total_len(chunks.drop_last()) + chunks.last()@.len()
    }
}

/// Without chunks there are no bytes.
pub proof fn law_no_chunk_no_byte(chunks: Vec<Vec<u8>>, buffer: Vec<u8>)
    requires
        call_ensures(join_chunks, (&chunks,), buffer),
        chunks@.len() == 0,
    ensures
        buffer@.len() == 0,
{
    assert(chunks@.map_values(|chunk: Vec<u8>| chunk@) =~= Seq::empty());
}

/// A single chunk is taken as it is, whatever its length.
pub proof fn law_single_chunk_as_it_is(chunks: Vec<Vec<u8>>, buffer: Vec<u8>)
    requires
        call_ensures(join_chunks, (&chunks,), buffer),
        chunks@.len() == 1,
    ensures
        buffer@ == chunks@[0]@,
{
    chunks@.map_values(|chunk: Vec<u8>| chunk@).lemma_flatten_one_element();
}

/// One more chunk brings exactly its bytes, behind those of the others.
pub proof fn law_one_more_chunk(
    chunks: Vec<Vec<u8>>,
    buffer: Vec<u8>,
    more_chunks: Vec<Vec<u8>>,
    longer_buffer: Vec<u8>,
    chunk: Vec<u8>,
)
    requires
        call_ensures(join_chunks, (&chunks,), buffer),
        call_ensures(join_chunks, (&more_chunks,), longer_buffer),
        more_chunks@ == chunks@.push(chunk),
    ensures
        longer_buffer@ == buffer@ + chunk@,
{
    let views = chunks@.map_values(|chunk: Vec<u8>| chunk@);
    views.lemma_flatten_push(chunk@);
    assert(more_chunks@.map_values(|chunk: Vec<u8>| chunk@) =~= views.push(chunk@));
}

/// The chunks of two lists together give the bytes of the one list, then those of the other.
pub proof fn law_chunks_of_two_lists(
    first: Vec<Vec<u8>>,
    first_buffer: Vec<u8>,
    second: Vec<Vec<u8>>,
    second_buffer: Vec<u8>,
    both: Vec<Vec<u8>>,
    buffer: Vec<u8>,
)
    requires
        call_ensures(join_chunks, (&first,), first_buffer),
        call_ensures(join_chunks, (&second,), second_buffer),
        call_ensures(join_chunks, (&both,), buffer),
        both@ == first@ + second@,
    ensures
        buffer@ == first_buffer@ + second_buffer@,
{
    let first_views = first@.map_values(|chunk: Vec<u8>| chunk@);
    let second_views = second@.map_values(|chunk: Vec<u8>| chunk@);
    vstd::seq_lib::lemma_flatten_concat(first_views, second_views);
    assert(both@.map_values(|chunk: Vec<u8>| chunk@) =~= first_views + second_views);
}

/// The first chunks, put together, are as long as these chunks, and so is everything.
proof fn lemma_flatten_len(chunks: Seq<Vec<u8>>)
    ensures
        chunks.map_values(|chunk: Vec<u8>| chunk@).flatten().len() == total_len(chunks),
    decreases chunks.len(),
{
    let views = chunks.map_values(|chunk: Vec<u8>| chunk@);
    if chunks.len() == 0 {
        assert(views =~= Seq::empty());
    } else {
        lemma_flatten_len(chunks.drop_last());
        let fewer = chunks.drop_last().map_values(|chunk: Vec<u8>| chunk@);
        fewer.lemma_flatten_push(chunks.last()@);
        assert(views =~= fewer.push(chunks.last()@));
    }
}

/// The buffer has as many bytes as the chunks have together, and each chunk stands in it, in full,
/// behind the chunks that come before it.
pub proof fn law_each_chunk_in_its_place(chunks: Vec<Vec<u8>>, buffer: Vec<u8>, k: int)
    requires
        call_ensures(join_chunks, (&chunks,), buffer),
        0 <= k < chunks@.len(),
    ensures
        buffer@.len() == total_len(chunks@),
        total_len(chunks@.take(k)) + chunks@[k]@.len() <= buffer@.len(),
        buffer@.subrange(
            total_len(chunks@.take(k)) as int,
            (total_len(chunks@.take(k)) + chunks@[k]@.len()) as int,
        ) == chunks@[k]@,
{
    let before = chunks@.take(k);
    let after = chunks@.skip(k + 1);
    let before_views = before.map_values(|chunk: Vec<u8>| chunk@);
    let after_views = after.map_values(|chunk: Vec<u8>| chunk@);
    let views = chunks@.map_values(|chunk: Vec<u8>| chunk@);
    lemma_flatten_len(chunks@);
    lemma_flatten_len(before);
    before_views.lemma_flatten_push(chunks@[k]@);
    vstd::seq_lib::lemma_flatten_concat(before_views.push(chunks@[k]@), after_views);
    assert(views =~= before_views.push(chunks@[k]@) + after_views);
    assert(buffer@ =~= before_views.flatten() + chunks@[k]@ + after_views.flatten());
}

/// A duplicate has the same bytes.
pub proof fn law_duplicate_has_same_bytes(bytes: Vec<u8>, copy: Vec<u8>)
    requires
        call_ensures(duplicate, (&bytes,), copy),
    ensures
        copy@.len() == bytes@.len(),
        forall|i: int| 0 <= i < bytes@.len() ==> copy@[i] == bytes@[i],
{
}

/// Decoding a buffer gives what the decoder gives on the bytes of the buffer.
pub proof fn law_buffer_decoded<T, E, F: Fn(&[u8]) -> Result<T, E>>(
    decode: F,
    buffer: Vec<u8>,
    outcome: Result<T, E>,
    decoded: T,
)
    ensures
        call_ensures(decode_buffer::<T, E, F>, (&decode, &buffer), outcome) ==> exists|
            slice: &[u8],
        |
            slice@ == buffer@ && #[trigger] decode.ensures((slice,), outcome),
        call_ensures(decode_valid::<T, E, F>, (&decode, &buffer), decoded) ==> exists|slice: &[u8]|
            slice@ == buffer@ && #[trigger] decode.ensures((slice,), Ok::<T, E>(decoded)),
{
}

/// A block announce is decoded from the very bytes that it was made of.
pub proof fn law_announce_decoded_from_its_bytes<T, E, F: Fn(&[u8]) -> Result<T, E>>(
    bytes: Vec<u8>,
    announce: EncodedBlockAnnounce,
    decode: F,
    decoded: T,
)
    requires
        call_ensures(EncodedBlockAnnounce::new, (bytes,), announce),
        call_ensures(EncodedBlockAnnounce::decode::<T, E, F>, (&announce, decode), decoded),
    ensures
        exists|slice: &[u8]|
            slice@ == bytes@ && #[trigger] decode.ensures((slice,), Ok::<T, E>(decoded)),
{
}

/// A block announces handshake is decoded from the very bytes that it was made of.
pub proof fn law_handshake_decoded_from_its_bytes<T, E, F: Fn(&[u8]) -> Result<T, E>>(
    bytes: Vec<u8>,
    handshake: EncodedBlockAnnounceHandshake,
    decode: F,
    decoded: T,
)
    requires
        call_ensures(EncodedBlockAnnounceHandshake::new, (bytes,), handshake),
        call_ensures(
            EncodedBlockAnnounceHandshake::decode::<T, E, F>,
            (&handshake, decode),
            decoded,
        ),
    ensures
        exists|slice: &[u8]|
            slice@ == bytes@ && #[trigger] decode.ensures((slice,), Ok::<T, E>(decoded)),
{
}

/// Chunks can always be put together and a buffer can always be duplicated. A buffer can be decoded
/// with a decoder that takes its bytes. A message that was found to be valid can be decoded.
pub proof fn law_buffers_can_be_decoded<T, E, F: Fn(&[u8]) -> Result<T, E>>(
    chunks: Vec<Vec<u8>>,
    bytes: Vec<u8>,
    announce: EncodedBlockAnnounce,
    handshake: EncodedBlockAnnounceHandshake,
    decode: F,
)
    requires
        call_ensures(EncodedBlockAnnounce::new, (bytes,), announce),
        call_ensures(EncodedBlockAnnounceHandshake::new, (bytes,), handshake),
        forall|slice: &[u8]| slice@ == bytes@ ==> #[trigger] decode.requires((slice,)),
    ensures
        call_requires(join_chunks, (&chunks,)),
        call_requires(duplicate, (&bytes,)),
        call_requires(EncodedBlockAnnounce::new, (bytes,)),
        call_requires(EncodedBlockAnnounceHandshake::new, (bytes,)),
        call_requires(decode_buffer::<T, E, F>, (&decode, &bytes)),
        (forall|slice: &[u8], outcome: Result<T, E>|
            slice@ == bytes@ && #[trigger] decode.ensures((slice,), outcome) ==> outcome is Ok)
            ==> {
            &&& call_requires(decode_valid::<T, E, F>, (&decode, &bytes))
            &&& call_requires(EncodedBlockAnnounce::decode::<T, E, F>, (&announce, decode))
            &&& call_requires(
                EncodedBlockAnnounceHandshake::decode::<T, E, F>,
                (&handshake, decode),
            )
        },
{
}

} // verus!
