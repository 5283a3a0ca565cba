//! Codecs of the block announces protocol, as supplied by the caller.

use vstd::prelude::*;

use crate::bytes::{concatenated, join_chunks};
use crate::config::ChainConfig;
use crate::event::{chain_of, is_block_announces};
use crate::types::BlockAnnouncesHandshake;

verus! {

/// The codecs that the service needs while it works towards an event.
pub struct Codecs<F, G, H> {
    /// Decodes the handshake of a remote.
    pub decode_handshake: F,
    /// Encodes the local handshake, in one or more pieces.
    pub encode_handshake: G,
    /// Decodes a block announce.
    pub decode_announce: H,
}

/// Whether `bytes` are something that `encode` makes of `handshake`.
pub open spec fn encodes_to<G: Fn(BlockAnnouncesHandshake) -> Vec<Vec<u8>>>(
    encode: G,
    handshake: BlockAnnouncesHandshake,
    bytes: Seq<u8>,
) -> bool {
    exists|chunks: Vec<Vec<u8>>| #[trigger]
        encode.ensures((handshake,), chunks) && bytes == concatenated(chunks@)
}

/// Whether the bytes that `encode` makes of a handshake depend on the handshake alone.
pub open spec fn encodes_one_way<G: Fn(BlockAnnouncesHandshake) -> Vec<Vec<u8>>>(encode: G) -> bool {
    forall|handshake: BlockAnnouncesHandshake, a: Seq<u8>, b: Seq<u8>| #[trigger]
        encodes_to(encode, handshake, a) && #[trigger] encodes_to(encode, handshake, b) ==> a == b
}

/// Handshake that the local node sends on the block announces substreams of `chain`.
pub open spec fn local_handshake(chain: ChainConfig) -> BlockAnnouncesHandshake {
    BlockAnnouncesHandshake {
        best_hash: chain.best_hash,
        best_number: chain.best_number,
        genesis_hash: chain.genesis_hash,
        role: chain.role,
    }
}

/// Whether `bytes` are the handshake that the local node sends on the substreams of the given
/// notifications protocol: the encoded state of the chain for block announces, nothing for
/// transactions.
pub open spec fn sends_handshake<G: Fn(BlockAnnouncesHandshake) -> Vec<Vec<u8>>>(
    chains: Seq<ChainConfig>,
    overlay_network_index: usize,
    encode: G,
    bytes: Seq<u8>,
) -> bool {
    if is_block_announces(overlay_network_index) {
        encodes_to(
            encode,
            local_handshake(chains[chain_of(overlay_network_index) as int]),
            bytes,
        )
    } else {
        bytes == Seq::<u8>::empty()
    }
}

/// Encodes the handshake that the local node sends on the block announces substreams of `chain`.
pub fn encode_local_handshake<G: Fn(BlockAnnouncesHandshake) -> Vec<Vec<u8>>>(
    chain: &ChainConfig,
    encode: &G,
) -> (bytes: Vec<u8>)
    requires
        encode.requires((local_handshake(*chain),)),
    ensures
        encodes_to(*encode, local_handshake(*chain), bytes@),
{
    let chunks = encode(
        BlockAnnouncesHandshake {
            best_hash: chain.best_hash,
            best_number: chain.best_number,
            genesis_hash: chain.genesis_hash,
            role: chain.role,
        },
    );
    join_chunks(&chunks)
}

} // verus!
