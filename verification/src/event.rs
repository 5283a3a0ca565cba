//! Events of the connection layer, events of the service, and what lies in between.

use vstd::prelude::*;

use crate::announce::EncodedBlockAnnounce;
use crate::types::{BlockAnnouncesHandshake, Multiaddr, PeerId, PendingId, Role};

verus! {

/// Event generated by the connection layer.
///
/// Connections are designated by the number under which the connection layer knows them.
#[derive(Debug, Clone, PartialEq, Eq)]
pub enum NetworkEvent {
    /// Handshake of a connection has succeeded.
    Connected(PeerId),
    /// Connection has been closed.
    Disconnected {
        peer_id: PeerId,
        /// Notifications protocols for which an outbound substream was open.
        out_overlay_network_indices: Vec<usize>,
    },
    /// User must start connecting to the given address.
    StartConnect { id: usize, multiaddr: Multiaddr },
    /// Outbound notifications substream has been accepted by the remote.
    NotificationsOutAccept {
        id: usize,
        overlay_network_index: usize,
        remote_handshake: Vec<u8>,
    },
    /// Outbound notifications substream has been refused by the remote.
    NotificationsOutReject { id: usize, overlay_network_index: usize },
    /// Outbound notifications substream has been closed.
    NotificationsOutClose { id: usize, overlay_network_index: usize },
    /// Remote wants to open a notifications substream.
    NotificationsInOpen { id: usize, overlay_network_index: usize, remote_handshake: Vec<u8> },
    /// Remote has sent a notification.
    NotificationsIn {
        id: usize,
        peer_id: PeerId,
        overlay_network_index: usize,
        notification: Vec<u8>,
    },
}

/// Event generated by [`ChainNetwork::next_event`](crate::service::ChainNetwork::next_event).
#[derive(Clone, PartialEq, Eq)]
pub enum Event {
    /// Connection with the given peer has been established.
    Connected(PeerId),
    /// Connection with the given peer has been closed.
    Disconnected {
        peer_id: PeerId,
        /// Chains of which the peer was a part.
        chain_indices: Vec<usize>,
    },
    /// User must start connecting to the given address.
    ///
    /// The outcome of the attempt must later be reported for the given identifier.
    StartConnect { id: PendingId, multiaddr: Multiaddr },
    /// Peer takes part in the given chain.
    ChainConnected {
        chain_index: usize,
        peer_id: PeerId,
        /// Role the node reports playing on the network.
        role: Role,
        /// Height of the best block according to this node.
        best_number: u64,
        /// Hash of the best block according to this node.
        best_hash: [u8; 32],
    },
    /// Peer no longer takes part in the given chain.
    ChainDisconnected { chain_index: usize, peer_id: PeerId },
    /// Peer announces a block of the given chain.
    BlockAnnounce { chain_index: usize, peer_id: PeerId, announce: EncodedBlockAnnounce },
}

/// What has become of an outbound block announces substream.
#[derive(Debug, Copy, Clone, PartialEq, Eq)]
pub enum SubstreamChange {
    /// The remote has accepted the substream, with the given handshake.
    Opened(BlockAnnouncesHandshake),
    /// The substream has been closed.
    Closed,
}

/// Outbound block announces substream that has been opened or closed.
#[derive(Debug, Copy, Clone, PartialEq, Eq)]
pub struct OutboundSubstream {
    /// Connection the substream belongs to.
    pub id: usize,
    /// Chain the substream is about.
    pub chain_index: usize,
    /// What has become of the substream.
    pub change: SubstreamChange,
}

/// What [`ChainNetwork::next_event`](crate::service::ChainNetwork::next_event) asks its caller to
/// do.
#[derive(Clone, PartialEq, Eq)]
pub enum Step {
    /// Accept an inbound substream, then hand back [`Input::Accepted`].
    AcceptNotificationsIn { id: usize, overlay_network_index: usize, handshake: Vec<u8> },
    /// Wait for the next event of the connection layer, then hand back [`Input::Network`].
    PollNetwork,
    /// Find the identity of the peer, then hand back [`Input::PeerIdentified`].
    IdentifyPeer { outbound: OutboundSubstream },
    /// Give the event to the user. If `wake_substreams` is true, substreams can be opened that
    /// couldn't before, and whoever waits for one must be told.
    Return { event: Event, wake_substreams: bool },
}

/// What the caller of [`ChainNetwork::next_event`](crate::service::ChainNetwork::next_event) has
/// to say.
#[derive(Debug, Clone, PartialEq, Eq)]
pub enum Input {
    /// The user wants an event. Can be given at any time. An inbound substream that has to be
    /// accepted is asked for again, and a peer that had to be identified is given up.
    Resume,
    /// Answer to [`Step::AcceptNotificationsIn`].
    Accepted,
    /// Answer to [`Step::PollNetwork`].
    Network(NetworkEvent),
    /// Answer to [`Step::IdentifyPeer`].
    PeerIdentified { outbound: OutboundSubstream, peer_id: PeerId },
}

/// Whether a notifications protocol is the block announces protocol of its chain. If not, it is
/// the transactions protocol.
pub open spec fn is_block_announces(overlay_network_index: usize) -> bool {
    overlay_network_index % 2 == 0
}

/// Chain that a notifications protocol belongs to.
pub open spec fn chain_of(overlay_network_index: usize) -> usize {
    overlay_network_index / 2
}

/// Chains whose block announces protocol is in the list, in the order of the list.
pub open spec fn announced_chains(overlay_network_indices: Seq<usize>) -> Seq<usize> {
    overlay_network_indices.filter(|index: usize| is_block_announces(index)).map_values(
        |index: usize| chain_of(index),
    )
}

/// Returns the chains whose block announces protocol is in the list, in the order of the list.
pub fn find_announced_chains(overlay_network_indices: &Vec<usize>) -> (chain_indices: Vec<usize>)
    ensures
        chain_indices@ == announced_chains(overlay_network_indices@),
{
    let mut chain_indices: Vec<usize> = Vec::new();
    let ghost keep = |index: usize| is_block_announces(index);
    let ghost halve = |index: usize| chain_of(index);
    let mut i: usize = 0;
    reveal(Seq::filter);
    assert(overlay_network_indices@.take(0).filter(keep).map_values(halve) =~= Seq::empty());
    while i < overlay_network_indices.len()
        invariant
            0 <= i <= overlay_network_indices.len(),
            keep == (|index: usize| is_block_announces(index)),
            halve == (|index: usize| chain_of(index)),
            chain_indices@ == overlay_network_indices@.take(i as int).filter(keep).map_values(
                halve,
            ),
        decreases overlay_network_indices.len() - i,
    {
        let index: usize = overlay_network_indices[i];
        let ghost seen = overlay_network_indices@.take(i as int);
        let ghost before = chain_indices@;
        if index % 2 == 0 {
            chain_indices.push(index / 2);
        }
        proof {
            reveal(Seq::filter);
            assert(overlay_network_indices@.take(i + 1).drop_last() =~= seen);
            assert(overlay_network_indices@.take(i + 1).last() == index);
            if keep(index) {
                assert(seen.filter(keep).push(index).map_values(halve) =~= before.push(
                    halve(index),
                ));
            }
        }
        i += 1;
    }
    assert(overlay_network_indices@.take(i as int) =~= overlay_network_indices@);
    chain_indices
}

} // verus!
