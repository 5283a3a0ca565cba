//! Opening of notifications substreams.

use vstd::prelude::*;

use crate::codecs::{encode_local_handshake, local_handshake, sends_handshake};
use crate::config::ChainConfig;
use crate::event::{chain_of, is_block_announces};
use crate::types::BlockAnnouncesHandshake;

verus! {

/// Substream that is ready to be opened.
#[derive(Debug)]
pub struct SubstreamOpen<'a> {
    /// Notifications protocol of the substream.
    pub overlay_network_index: usize,
    /// See [`Config::chains`](crate::config::Config::chains).
    pub chains: &'a Vec<ChainConfig>,
}

/// What [`ChainNetwork::next_substream`](crate::service::ChainNetwork::next_substream) asks its
/// caller to do.
#[derive(Debug)]
pub enum NextSubstream<'a> {
    /// Give the substream to the user.
    Open(SubstreamOpen<'a>),
    /// Wait until a connection is established, then look for a substream again.
    Wait,
}

impl<'a> SubstreamOpen<'a> {
    /// Returns the handshake to open the substream with: the encoded local handshake if this is a
    /// block announces substream, and nothing otherwise.
    pub fn open<G: Fn(BlockAnnouncesHandshake) -> Vec<Vec<u8>>>(self, encode: G) -> (handshake: Vec<
        u8,
    >)
        requires
            chain_of(self.overlay_network_index) < self.chains@.len(),
            is_block_announces(self.overlay_network_index) ==> encode.requires(
                (local_handshake(self.chains@[chain_of(self.overlay_network_index) as int]),),
            ),
        ensures
            sends_handshake(self.chains@, self.overlay_network_index, encode, handshake@),
    {
        let chain_config = &self.chains[self.overlay_network_index / 2];
        if self.overlay_network_index % 2 == 0 {
            encode_local_handshake(chain_config, &encode)
        } else {
            Vec::new()
        }
    }
}

} // verus!
