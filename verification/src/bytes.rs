//! Byte buffers, and what decoders make of them.

use vstd::prelude::*;

verus! {

/// The chunks one after the other.
pub open spec fn concatenated(chunks: Seq<Vec<u8>>) -> Seq<u8> {
    chunks.map_values(|chunk: Vec<u8>| chunk@).flatten()
}

/// Puts the chunks that an encoder yields into a single buffer, in order.
pub fn join_chunks(chunks: &Vec<Vec<u8>>) -> (buffer: Vec<u8>)
    ensures
        buffer@ == concatenated(chunks@),
{
    let ghost views = chunks@.map_values(|chunk: Vec<u8>| chunk@);
    let mut buffer: Vec<u8> = Vec::new();
    let mut i: usize = 0;
    assert(views.take(0) =~= Seq::empty());
    while i < chunks.len()
        invariant
            0 <= i <= chunks.len(),
            views == chunks@.map_values(|chunk: Vec<u8>| chunk@),
            buffer@ == views.take(i as int).flatten(),
        decreases chunks.len() - i,
    {
        let ghost before = buffer@;
        buffer.extend_from_slice(chunks[i].as_slice());
        proof {
            assert(buffer@ =~= before + views[i as int]);
            views.take(i as int).lemma_flatten_push(views[i as int]);
            assert(views.take(i as int).push(views[i as int]) =~= views.take(i + 1));
        }
        i += 1;
    }
    assert(views.take(chunks.len() as int) =~= views);
    buffer
}

/// Duplicates a buffer.
pub fn duplicate(bytes: &Vec<u8>) -> (copy: Vec<u8>)
    ensures
        copy@ == bytes@,
{
    let copy: Vec<u8> = bytes.clone();
    assert(copy@ =~= bytes@);
    copy
}

/// Whether `decode` can be called on the given bytes.
pub open spec fn can_decode<T, E, F: Fn(&[u8]) -> Result<T, E>>(decode: F, bytes: Seq<u8>) -> bool {
    forall|slice: &[u8]| slice@ == bytes ==> #[trigger] decode.requires((slice,))
}

/// Whether `outcome` is something that `decode` returns on the given bytes.
pub open spec fn decodes_to<T, E, F: Fn(&[u8]) -> Result<T, E>>(
    decode: F,
    bytes: Seq<u8>,
    outcome: Result<T, E>,
) -> bool {
    exists|slice: &[u8]| slice@ == bytes && #[trigger] decode.ensures((slice,), outcome)
}

/// Whether the given bytes are valid as far as `decode` is concerned.
pub open spec fn is_valid<T, E, F: Fn(&[u8]) -> Result<T, E>>(decode: F, bytes: Seq<u8>) -> bool {
    &&& can_decode(decode, bytes)
    &&& forall|outcome: Result<T, E>| #[trigger]
        decodes_to(decode, bytes, outcome) ==> outcome is Ok
}

/// Calls `decode` on a buffer.
pub fn decode_buffer<T, E, F: Fn(&[u8]) -> Result<T, E>>(decode: &F, buffer: &Vec<u8>) -> (outcome:
    Result<T, E>)
    requires
        can_decode(*decode, buffer@),
    ensures
        decodes_to(*decode, buffer@, outcome),
{
    decode(buffer.as_slice())
}

/// Calls `decode` on a buffer that is valid.
pub fn decode_valid<T, E, F: Fn(&[u8]) -> Result<T, E>>(decode: &F, buffer: &Vec<u8>) -> (decoded:
    T)
    requires
        is_valid(*decode, buffer@),
    ensures
        decodes_to(*decode, buffer@, Ok::<T, E>(decoded)),
{
    match decode_buffer(decode, buffer) {
        Ok(decoded) => decoded,
        Err(_) => vstd::pervasive::unreached(),
    }
}

} // verus!
