//! What holds of requests, of their responses, and of what is read from and written to connections.
//!
//! The laws speak of what the functions return: `call_ensures(f, args, result)` says that `result`
//! is something that `f` returns on `args`.

use vstd::prelude::*;

use crate::bytes::join_chunks;
use crate::connection::{NetworkReadWrite, ReadWrite};
use crate::discovery::{AddAddresses, DiscoveryError, DiscoveryInsert};
use crate::request::{BlocksRequestError, Request, StorageProofRequestError};
use crate::service::ChainNetwork;
use crate::types::{Multiaddr, PeerId};
use crate::warp_sync::GrandpaWarpSyncRequest;

verus! {

/// A blocks request goes to the given peer, over the first protocol of the chain. Its body is all
/// the chunks put together, or the chunk itself if there is but one.
pub proof fn law_blocks_request(
    network: ChainNetwork,
    target: PeerId,
    chain_index: usize,
    chunks: Vec<Vec<u8>>,
    request: Request,
)
    requires
        call_ensures(
            ChainNetwork::blocks_request,
            (&network, target, chain_index, &chunks),
            request,
        ),
    ensures
        request.target == target,
        request.protocol_index == 4 * chain_index + 1,
        forall|joined: Vec<u8>| #[trigger]
            call_ensures(join_chunks, (&chunks,), joined) ==> request.request_data@ == joined@,
        chunks@.len() == 1 ==> request.request_data@ == chunks@[0]@,
{
    if chunks@.len() == 1 {
        chunks@.map_values(|chunk: Vec<u8>| chunk@).lemma_flatten_one_element();
    }
}

/// A storage proof request goes to the given peer, over the second protocol of the chain. Its body
/// is all the chunks put together, or the chunk itself if there is but one.
pub proof fn law_storage_proof_request(
    network: ChainNetwork,
    target: PeerId,
    chain_index: usize,
    chunks: Vec<Vec<u8>>,
    request: Request,
)
    requires
        call_ensures(
            ChainNetwork::storage_proof_request,
            (&network, target, chain_index, &chunks),
            request,
        ),
    ensures
        request.target == target,
        request.protocol_index == 4 * chain_index + 2,
        forall|joined: Vec<u8>| #[trigger]
            call_ensures(join_chunks, (&chunks,), joined) ==> request.request_data@ == joined@,
        chunks@.len() == 1 ==> request.request_data@ == chunks@[0]@,
{
    if chunks@.len() == 1 {
        chunks@.map_values(|chunk: Vec<u8>| chunk@).lemma_flatten_one_element();
    }
}

/// A warp sync request goes to the given peer, over the fourth protocol of the chain. Its body is
/// the hash, byte for byte.
pub proof fn law_warp_sync_request(
    network: ChainNetwork,
    target: PeerId,
    chain_index: usize,
    begin_hash: [u8; 32],
    request: Request,
)
    requires
        call_ensures(
            ChainNetwork::grandpa_warp_sync_request,
            (&network, target, chain_index, begin_hash),
            request,
        ),
    ensures
        request.target == target,
        request.protocol_index == 4 * chain_index + 4,
        request.request_data@.len() == 32,
        forall|i: int| 0 <= i < 32 ==> request.request_data@[i] == begin_hash@[i],
{
}

/// An encoded warp sync request is the hash, byte for byte.
pub proof fn law_warp_sync_request_encoding(request: GrandpaWarpSyncRequest, encoded: Vec<u8>)
    requires
        call_ensures(GrandpaWarpSyncRequest::encode, (&request,), encoded),
    ensures
        encoded@.len() == 32,
        forall|i: int| 0 <= i < 32 ==> encoded@[i] == request.begin@[i],
{
}

/// A Kademlia request goes to the given peer, over the third protocol of the chain, with the given
/// body. Without a peer there is no request.
pub proof fn law_kademlia_request<R, D>(
    network: ChainNetwork,
    chain_index: usize,
    request_data: Vec<u8>,
    target: Option<PeerId>,
    outcome: Result<Request, DiscoveryError<R, D>>,
)
    requires
        call_ensures(
            ChainNetwork::kademlia_request::<R, D>,
            (&network, chain_index, request_data, target),
            outcome,
        ),
    ensures
        match (target, outcome) {
            (Some(peer_id), Ok(request)) => {
                &&& request.target == peer_id
                &&& request.protocol_index == 4 * chain_index + 3
                &&& request.request_data@ == request_data@
            },
            (None, Err(error)) => error is NoPeer,
            _ => false,
        },
{
}

/// A Kademlia request about a node has the body that is built for the public key of this node, and
/// otherwise is as any Kademlia request.
pub proof fn law_kademlia_request_about<R, D, F: Fn([u8; 32]) -> Vec<u8>>(
    network: ChainNetwork,
    chain_index: usize,
    public_key: [u8; 32],
    find_node: F,
    target: Option<PeerId>,
    outcome: Result<Request, DiscoveryError<R, D>>,
)
    requires
        call_ensures(
            ChainNetwork::kademlia_request_about::<R, D, F>,
            (&network, chain_index, public_key, find_node, target),
            outcome,
        ),
    ensures
        match (target, outcome) {
            (Some(peer_id), Ok(request)) => {
                &&& request.target == peer_id
                &&& request.protocol_index == 4 * chain_index + 3
                &&& find_node.ensures((public_key,), request.request_data)
            },
            (None, Err(error)) => error is NoPeer,
            _ => false,
        },
{
}

/// The request of a discovery round has the body that is built for some public key, and otherwise
/// is as any Kademlia request.
pub proof fn law_kademlia_discovery_round<R, D, F: Fn([u8; 32]) -> Vec<u8>>(
    network: ChainNetwork,
    chain_index: usize,
    find_node: F,
    target: Option<PeerId>,
    outcome: Result<Request, DiscoveryError<R, D>>,
)
    requires
        call_ensures(
            ChainNetwork::kademlia_discovery_round::<R, D, F>,
            (&network, chain_index, find_node, target),
            outcome,
        ),
    ensures
        match (target, outcome) {
            (Some(peer_id), Ok(request)) => {
                &&& request.target == peer_id
                &&& request.protocol_index == 4 * chain_index + 3
                &&& exists|public_key: [u8; 32]| #[trigger]
                    find_node.ensures((public_key,), request.request_data)
            },
            (None, Err(error)) => error is NoPeer,
            _ => false,
        },
{
}

/// Requests can be prepared for every chain whose protocols can be numbered, and without a peer to
/// send it to a Kademlia request can be prepared for any chain.
pub proof fn law_requests_can_be_prepared<R, D, F: Fn([u8; 32]) -> Vec<u8>>(
    network: ChainNetwork,
    target: PeerId,
    chain_index: usize,
    chunks: Vec<Vec<u8>>,
    hash: [u8; 32],
    request_data: Vec<u8>,
    find_node: F,
)
    requires
        4 * chain_index + 4 <= usize::MAX,
        forall|public_key: [u8; 32]| #[trigger] find_node.requires((public_key,)),
    ensures
        call_requires(ChainNetwork::blocks_request, (&network, target, chain_index, &chunks)),
        call_requires(
            ChainNetwork::storage_proof_request,
            (&network, target, chain_index, &chunks),
        ),
        call_requires(
            ChainNetwork::grandpa_warp_sync_request,
            (&network, target, chain_index, hash),
        ),
        forall|to: Option<PeerId>| #[trigger]
            call_requires(
                ChainNetwork::kademlia_request::<R, D>,
                (&network, chain_index, request_data, to),
            ),
        forall|to: Option<PeerId>| #[trigger]
            call_requires(
                ChainNetwork::kademlia_request_about::<R, D, F>,
                (&network, chain_index, hash, find_node, to),
            ),
        forall|to: Option<PeerId>| #[trigger]
            call_requires(
                ChainNetwork::kademlia_discovery_round::<R, D, F>,
                (&network, chain_index, find_node, to),
            ),
        forall|any_index: usize| #[trigger]
            call_requires(
                ChainNetwork::kademlia_request::<R, D>,
                (&network, any_index, request_data, None::<PeerId>),
            ),
{
}

/// A blocks request that has failed gives its error. Otherwise the outcome is what the decoder
/// returns on the bytes of the response, be it blocks or an error.
pub proof fn law_blocks_response<T, R, D, F: Fn(&[u8]) -> Result<T, D>>(
    response: Result<Vec<u8>, R>,
    decode: F,
    outcome: Result<T, BlocksRequestError<R, D>>,
)
    requires
        call_ensures(ChainNetwork::blocks_response::<T, R, D, F>, (response, decode), outcome),
    ensures
        match (response, outcome) {
            (Err(error), Err(BlocksRequestError::Request(reported))) => reported == error,
            (Ok(body), Ok(blocks)) => exists|slice: &[u8]|
                slice@ == body@ && #[trigger] decode.ensures((slice,), Ok::<T, D>(blocks)),
            (Ok(body), Err(BlocksRequestError::Decode(error))) => exists|slice: &[u8]|
                slice@ == body@ && #[trigger] decode.ensures((slice,), Err::<T, D>(error)),
            _ => false,
        },
{
}

/// A storage proof request that has failed gives its error. Otherwise the outcome is what the
/// decoder returns on the bytes of the response, be it a proof or an error.
pub proof fn law_storage_proof_response<R, D, F: Fn(&[u8]) -> Result<Vec<Vec<u8>>, D>>(
    response: Result<Vec<u8>, R>,
    decode: F,
    outcome: Result<Vec<Vec<u8>>, StorageProofRequestError<R, D>>,
)
    requires
        call_ensures(ChainNetwork::storage_proof_response::<R, D, F>, (response, decode), outcome),
    ensures
        match (response, outcome) {
            (Err(error), Err(StorageProofRequestError::Request(reported))) => reported == error,
            (Ok(body), Ok(entries)) => exists|slice: &[u8]|
                slice@ == body@ && #[trigger] decode.ensures(
                    (slice,),
                    Ok::<Vec<Vec<u8>>, D>(entries),
                ),
            (Ok(body), Err(StorageProofRequestError::Decode(error))) => exists|slice: &[u8]|
                slice@ == body@ && #[trigger] decode.ensures(
                    (slice,),
                    Err::<Vec<Vec<u8>>, D>(error),
                ),
            _ => false,
        },
{
}

/// A Kademlia request that has failed gives its error, and a response that isn't decoded gives that
/// of the decoder.
pub proof fn law_kademlia_response_errors<
    R,
    D,
    F: Fn(&[u8]) -> Result<Vec<(PeerId, Vec<Multiaddr>)>, D>,
>(
    chain_index: usize,
    response: Result<Vec<u8>, R>,
    decode: F,
    outcome: Result<DiscoveryInsert, DiscoveryError<R, D>>,
)
    requires
        call_ensures(
            ChainNetwork::kademlia_response::<R, D, F>,
            (chain_index, response, decode),
            outcome,
        ),
    ensures
        match (response, outcome) {
            (Err(error), Err(DiscoveryError::RequestFailed(reported))) => reported == error,
            (Ok(body), Err(DiscoveryError::DecodeError(error))) => exists|slice: &[u8]|
                slice@ == body@ && #[trigger] decode.ensures(
                    (slice,),
                    Err::<Vec<(PeerId, Vec<Multiaddr>)>, D>(error),
                ),
            (Ok(_), Ok(_)) => true,
            _ => false,
        },
{
}

/// All the nodes of a decoded Kademlia response are inserted, each once and in order, with all
/// their addresses, in the overlay network whose index is that of the chain.
pub proof fn law_discovered_nodes_inserted<
    R,
    D,
    F: Fn(&[u8]) -> Result<Vec<(PeerId, Vec<Multiaddr>)>, D>,
>(
    chain_index: usize,
    body: Vec<u8>,
    decode: F,
    insert: DiscoveryInsert,
    insertions: Vec<AddAddresses>,
)
    requires
        call_ensures(
            ChainNetwork::kademlia_response::<R, D, F>,
            (chain_index, Ok::<Vec<u8>, R>(body), decode),
            Ok::<DiscoveryInsert, DiscoveryError<R, D>>(insert),
        ),
        call_ensures(DiscoveryInsert::insert, (insert,), insertions),
    ensures
        exists|nodes: Vec<(PeerId, Vec<Multiaddr>)>, slice: &[u8]|
            {
                &&& slice@ == body@
                &&& #[trigger] decode.ensures(
                    (slice,),
                    Ok::<Vec<(PeerId, Vec<Multiaddr>)>, D>(nodes),
                )
                &&& insertions@.len() == nodes@.len()
                &&& forall|i: int|
                    #![trigger insertions@[i]]
                    0 <= i < nodes@.len() ==> {
                        &&& insertions@[i].overlay_network_index == chain_index
                        &&& insertions@[i].peer_id == nodes@[i].0
                        &&& insertions@[i].addrs@ == nodes@[i].1@
                    }
            },
{
}

/// What the connection layer has read and written is reported as it is, and so is its error.
pub proof fn law_read_write_reported<TNow, E>(
    inner: Result<NetworkReadWrite<TNow>, E>,
    outcome: Result<ReadWrite<TNow>, E>,
)
    requires
        call_ensures(ChainNetwork::read_write::<TNow, E>, (inner,), outcome),
    ensures
        match (inner, outcome) {
            (Ok(inner), Ok(reported)) => {
                &&& reported.read_bytes == inner.read_bytes
                &&& reported.written_bytes == inner.written_bytes
                &&& reported.wake_up_after == inner.wake_up_after
                &&& reported.write_close == inner.write_close
            },
            (Err(error), Err(reported)) => reported == error,
            _ => false,
        },
{
}

/// Any response can be made sense of with a decoder that takes its bytes.
pub proof fn law_responses_can_be_read<
    T,
    R,
    D,
    F: Fn(&[u8]) -> Result<T, D>,
    P: Fn(&[u8]) -> Result<Vec<Vec<u8>>, D>,
    N: Fn(&[u8]) -> Result<Vec<(PeerId, Vec<Multiaddr>)>, D>,
>(
    chain_index: usize,
    response: Result<Vec<u8>, R>,
    decode_blocks: F,
    decode_proof: P,
    decode_nodes: N,
)
    requires
        match response {
            Ok(body) => {
                &&& forall|slice: &[u8]|
                    slice@ == body@ ==> #[trigger] decode_blocks.requires((slice,))
                &&& forall|slice: &[u8]|
                    slice@ == body@ ==> #[trigger] decode_proof.requires((slice,))
                &&& forall|slice: &[u8]|
                    slice@ == body@ ==> #[trigger] decode_nodes.requires((slice,))
            },
            Err(_) => true,
        },
    ensures
        call_requires(ChainNetwork::blocks_response::<T, R, D, F>, (response, decode_blocks)),
        call_requires(ChainNetwork::storage_proof_response::<R, D, P>, (response, decode_proof)),
        call_requires(
            ChainNetwork::kademlia_response::<R, D, N>,
            (chain_index, response, decode_nodes),
        ),
{
}

} // verus!
