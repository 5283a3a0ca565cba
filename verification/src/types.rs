//! Plain values that the rest of the crate passes around.

use vstd::prelude::*;

verus! {

/// Identity of a node, in its binary form.
#[derive(Debug, Clone, PartialEq, Eq)]
pub struct PeerId(pub Vec<u8>);

/// Network address, in its binary form.
#[derive(Debug, Clone, PartialEq, Eq)]
pub struct Multiaddr(pub Vec<u8>);

/// Identifier of a pending connection requested by the network through an
/// [`Event::StartConnect`](crate::event::Event::StartConnect).
///
/// Holds the number under which the connection layer knows the pending connection.
#[derive(Debug, Copy, Clone, PartialEq, Eq, PartialOrd, Ord, Hash)]
pub struct PendingId(pub usize);

/// Identifier of a connection spawned by the [`ChainNetwork`](crate::service::ChainNetwork).
///
/// Holds the number under which the connection layer knows the connection.
#[derive(Debug, Copy, Clone, PartialEq, Eq, PartialOrd, Ord, Hash)]
pub struct ConnectionId(pub usize);

/// Role that a node reports playing on the network.
#[derive(Debug, Copy, Clone, PartialEq, Eq, Structural)]
pub enum Role {
    Full,
    Light,
    Authority,
}

/// Content of the handshake that opens a block announces substream.
#[derive(Debug, Copy, Clone, PartialEq, Eq)]
pub struct BlockAnnouncesHandshake {
    /// Hash of the best block according to the node that sends the handshake.
    pub best_hash: [u8; 32],
    /// Height of the best block according to the node that sends the handshake.
    pub best_number: u64,
    /// Hash of the genesis block according to the node that sends the handshake.
    pub genesis_hash: [u8; 32],
    /// Role of the node that sends the handshake.
    pub role: Role,
}

} // verus!
