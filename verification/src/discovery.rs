//! Discovery of other nodes through the Kademlia protocol.

use vstd::prelude::*;

use crate::bytes::{can_decode, decode_buffer, decodes_to};
use crate::config::{protocol_index, KAD_PROTOCOL};
use crate::request::Request;
use crate::service::ChainNetwork;
use crate::types::{Multiaddr, PeerId};

verus! {

/// Error during [`ChainNetwork::kademlia_discovery_round`].
#[derive(Debug, Clone, PartialEq, Eq)]
pub enum DiscoveryError<TRequestError, TDecodeError> {
    /// There is no peer to send the request to.
    NoPeer,
    /// The request itself has failed.
    RequestFailed(TRequestError),
    /// The response can't be decoded.
    DecodeError(TDecodeError),
}

/// Addresses of a node, to be added to those that the connection layer knows.
#[derive(Debug, Clone, PartialEq, Eq)]
pub struct AddAddresses {
    /// Overlay network that the node belongs to.
    pub overlay_network_index: usize,
    /// The node.
    pub peer_id: PeerId,
    /// Addresses of the node.
    pub addrs: Vec<Multiaddr>,
}

/// Successful outcome of a discovery round.
#[must_use]
#[derive(Debug, Clone, PartialEq, Eq)]
pub struct DiscoveryInsert {
    outcome: Vec<(PeerId, Vec<Multiaddr>)>,
    overlay_network_index: usize,
}

impl DiscoveryInsert {
    /// Nodes that have been discovered, with their addresses.
    pub closed spec fn outcome(self) -> Seq<(PeerId, Vec<Multiaddr>)> {
        self.outcome@
    }

    /// Overlay network that the nodes are added to.
    pub closed spec fn overlay_network_index(self) -> usize {
        self.overlay_network_index
    }

    /// Tells what to insert in the connection layer, in this order.
    pub fn insert(self) -> (insertions: Vec<AddAddresses>)
        ensures
            insertions@ == self.outcome().map_values(
                |node: (PeerId, Vec<Multiaddr>)|
                    AddAddresses {
                        overlay_network_index: self.overlay_network_index(),
                        peer_id: node.0,
                        addrs: node.1,
                    },
            ),
    {
        let mut insertions: Vec<AddAddresses> = Vec::new();
        let overlay_network_index: usize = self.overlay_network_index;
        for (peer_id, addrs) in nodes: self.outcome
            invariant
                insertions.len() == nodes.index(),
                forall|i: int|
                    0 <= i < insertions.len() ==> insertions@[i] == (AddAddresses {
                        overlay_network_index,
                        peer_id: nodes.seq()[i].0,
                        addrs: nodes.seq()[i].1,
                    }),
        {
            insertions.push(AddAddresses { overlay_network_index, peer_id, addrs });
        }
        insertions
    }
}

/// Calls `rand::random` for an array of 32 bytes. Nothing is claimed of the bytes, which differ
/// from call to call.
#[verifier::external_body]
fn random_public_key() -> (public_key: [u8; 32]) {
    rand::random::<[u8; 32]>()
}

impl ChainNetwork {
    /// Prepares a round of Kademlia discovery.
    ///
    /// `find_node` builds the body of a request for the nodes that are close to the one that has
    /// the given Ed25519 public key. `target` is the peer to send the request to, if there is any
    /// peer.
    pub fn kademlia_discovery_round<R, D, F: Fn([u8; 32]) -> Vec<u8>>(
        &self,
        chain_index: usize,
        find_node: F,
        target: Option<PeerId>,
    ) -> (outcome: Result<Request, DiscoveryError<R, D>>)
        requires
            target is Some ==> protocol_index(chain_index as int, KAD_PROTOCOL as int)
                <= usize::MAX,
            forall|public_key: [u8; 32]| #[trigger] find_node.requires((public_key,)),
        ensures
            match target {
                Some(peer_id) => {
                    &&& outcome matches Ok(request)
                    &&& request.target == peer_id
                    &&& request.protocol_index == protocol_index(
                        chain_index as int,
                        KAD_PROTOCOL as int,
                    )
                    &&& exists|public_key: [u8; 32]| #[trigger]
                        find_node.ensures((public_key,), request.request_data)
                },
                None => outcome == Err::<Request, _>(DiscoveryError::<R, D>::NoPeer),
            },
    {
        let public_key = random_public_key();
        self.kademlia_request_about(chain_index, public_key, find_node, target)
    }

    /// Prepares a Kademlia request about the node that has the given Ed25519 public key, for the
    /// given peer, if there is one. `find_node` builds the body of the request.
    pub fn kademlia_request_about<R, D, F: Fn([u8; 32]) -> Vec<u8>>(
        &self,
        chain_index: usize,
        public_key: [u8; 32],
        find_node: F,
        target: Option<PeerId>,
    ) -> (outcome: Result<Request, DiscoveryError<R, D>>)
        requires
            target is Some ==> protocol_index(chain_index as int, KAD_PROTOCOL as int)
                <= usize::MAX,
            find_node.requires((public_key,)),
        ensures
            match target {
                Some(peer_id) => {
                    &&& outcome matches Ok(request)
                    &&& request.target == peer_id
                    &&& request.protocol_index == protocol_index(
                        chain_index as int,
                        KAD_PROTOCOL as int,
                    )
                    &&& find_node.ensures((public_key,), request.request_data)
                },
                None => outcome == Err::<Request, _>(DiscoveryError::<R, D>::NoPeer),
            },
    {
        let request_data = find_node(public_key);
        self.kademlia_request(chain_index, request_data, target)
    }

    /// Prepares a Kademlia request with the given body for the given peer, if there is one.
    pub fn kademlia_request<R, D>(
        &self,
        chain_index: usize,
        request_data: Vec<u8>,
        target: Option<PeerId>,
    ) -> (outcome: Result<Request, DiscoveryError<R, D>>)
        requires
            target is Some ==> protocol_index(chain_index as int, KAD_PROTOCOL as int)
                <= usize::MAX,
        ensures
            match target {
                Some(peer_id) => {
                    &&& outcome matches Ok(request)
                    &&& request.target == peer_id
                    &&& request.protocol_index == protocol_index(
                        chain_index as int,
                        KAD_PROTOCOL as int,
                    )
                    &&& request.request_data == request_data
                },
                None => outcome == Err::<Request, _>(DiscoveryError::<R, D>::NoPeer),
            },
    {
        match target {
            Some(target) => Ok(
                Request {
                    target,
                    protocol_index: self.protocol_index(chain_index, KAD_PROTOCOL),
                    request_data,
                },
            ),
            None => Err(DiscoveryError::NoPeer),
        }
    }

    /// Makes sense of the outcome of the request of a discovery round.
    ///
    /// The nodes are to be added to the overlay network whose index is that of the chain.
    pub fn kademlia_response<R, D, F: Fn(&[u8]) -> Result<Vec<(PeerId, Vec<Multiaddr>)>, D>>(
        chain_index: usize,
        response: Result<Vec<u8>, R>,
        decode: F,
    ) -> (outcome: Result<DiscoveryInsert, DiscoveryError<R, D>>)
        requires
            response matches Ok(body) ==> can_decode(decode, body@),
        ensures
            match response {
                Ok(body) => match outcome {
                    Ok(insert) => {
                        &&& insert.overlay_network_index() == chain_index
                        &&& exists|nodes: Vec<(PeerId, Vec<Multiaddr>)>|
                            nodes@ == insert.outcome() && #[trigger] decodes_to(
                                decode,
                                body@,
                                Ok::<Vec<(PeerId, Vec<Multiaddr>)>, D>(nodes),
                            )
                    },
                    Err(DiscoveryError::DecodeError(error)) => decodes_to(
                        decode,
                        body@,
                        Err::<Vec<(PeerId, Vec<Multiaddr>)>, D>(error),
                    ),
                    Err(_) => false,
                },
                Err(error) => outcome == Err::<DiscoveryInsert, _>(
                    DiscoveryError::<R, D>::RequestFailed(error),
                ),
            },
    {
        match response {
            Ok(body) => match decode_buffer(&decode, &body) {
                Ok(outcome) => Ok(
                    DiscoveryInsert { outcome, overlay_network_index: chain_index },
                ),
                Err(error) => Err(DiscoveryError::DecodeError(error)),
            },
            Err(error) => Err(DiscoveryError::RequestFailed(error)),
        }
    }
}

} // verus!
