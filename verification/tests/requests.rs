use chain_network::bytes::join_chunks;
use chain_network::config::{ChainConfig, Config};
use chain_network::connection::{NetworkReadWrite, ReadWrite};
use chain_network::discovery::{AddAddresses, DiscoveryError};
use chain_network::request::{BlocksRequestError, Request, StorageProofRequestError};
use chain_network::service::ChainNetwork;
use chain_network::types::{Multiaddr, PeerId, Role};
use chain_network::warp_sync::{
    GrandpaWarpSyncRequest, GrandpaWarpSyncRequestError, GrandpaWarpSyncResponseFragment,
};

fn network() -> ChainNetwork {
    let chain = |protocol_id: &str| ChainConfig {
        protocol_id: protocol_id.to_string(),
        bootstrap_nodes: vec![],
        in_slots: 1,
        out_slots: 1,
        best_hash: [0; 32],
        best_number: 0,
        genesis_hash: [0; 32],
        role: Role::Full,
    };
    let (network, _) = ChainNetwork::new(Config {
        randomness_seed: [0; 32],
        listen_addresses: vec![],
        chains: vec![chain("dot"), chain("ksmcc3")],
        known_nodes: Vec::<((), PeerId, Multiaddr)>::new(),
        noise_key: (),
        pending_api_events_buffer_size: 64,
    });
    network
}

fn hash() -> [u8; 32] {
    let mut hash = [0; 32];
    for (i, byte) in hash.iter_mut().enumerate() {
        *byte = i as u8 * 7;
    }
    hash
}

#[test]
fn chunks_are_concatenated() {
    assert_eq!(join_chunks(&vec![]), Vec::<u8>::new());
    assert_eq!(join_chunks(&vec![vec![], vec![]]), Vec::<u8>::new());
    assert_eq!(join_chunks(&vec![vec![1], vec![2, 3], vec![], vec![4]]), vec![1, 2, 3, 4]);
}

#[test]
fn blocks_request_goes_to_sync_protocol() {
    assert_eq!(
        network().blocks_request(PeerId(vec![1]), 1, &vec![vec![1, 2], vec![3]]),
        Request { target: PeerId(vec![1]), protocol_index: 5, request_data: vec![1, 2, 3] }
    );
}

#[test]
fn storage_proof_request_goes_to_light_protocol() {
    assert_eq!(
        network().storage_proof_request(PeerId(vec![1]), 1, &vec![vec![9], vec![8]]),
        Request { target: PeerId(vec![1]), protocol_index: 6, request_data: vec![9, 8] }
    );
}

#[test]
fn warp_sync_request_goes_to_warp_sync_protocol() {
    assert_eq!(
        network().grandpa_warp_sync_request(PeerId(vec![1]), 0, hash()),
        Request { target: PeerId(vec![1]), protocol_index: 4, request_data: hash().to_vec() }
    );
}

#[test]
fn warp_sync_request_is_the_bare_hash() {
    let encoded = GrandpaWarpSyncRequest { begin: hash() }.encode();
    assert_eq!(encoded.len(), 32);
    assert_eq!(encoded, hash().to_vec());
}

#[test]
fn blocks_response_outcomes() {
    let decode = |bytes: &[u8]| -> Result<usize, char> {
        if bytes.is_empty() {
            Err('d')
        } else {
            Ok(bytes.len())
        }
    };
    assert_eq!(ChainNetwork::blocks_response(Ok::<_, u8>(vec![1, 1, 1]), decode), Ok(3));
    assert_eq!(
        ChainNetwork::blocks_response(Ok::<_, u8>(vec![]), decode),
        Err(BlocksRequestError::Decode('d'))
    );
    assert_eq!(
        ChainNetwork::blocks_response(Err::<Vec<u8>, u8>(4), decode),
        Err(BlocksRequestError::Request(4))
    );
}

#[test]
fn storage_proof_response_outcomes() {
    let decode = |bytes: &[u8]| -> Result<Vec<Vec<u8>>, char> {
        if bytes.is_empty() {
            Err('d')
        } else {
            Ok(bytes.iter().map(|b| vec![*b]).collect())
        }
    };
    assert_eq!(
        ChainNetwork::storage_proof_response(Ok::<_, u8>(vec![1, 2]), decode),
        Ok(vec![vec![1], vec![2]])
    );
    assert_eq!(
        ChainNetwork::storage_proof_response(Ok::<_, u8>(vec![]), decode),
        Err(StorageProofRequestError::Decode('d'))
    );
    assert_eq!(
        ChainNetwork::storage_proof_response(Err::<Vec<u8>, u8>(4), decode),
        Err(StorageProofRequestError::Request(4))
    );
}

#[test]
fn warp_sync_response_outcomes() {
    let one_byte = |bytes: &[u8], start: usize| -> Option<(u8, usize)> {
        bytes.get(start).map(|b| (*b, start + 1))
    };
    assert_eq!(
        ChainNetwork::grandpa_warp_sync_response(
            Ok::<_, u8>(vec![4, 10, 0, 20]),
            one_byte,
            one_byte
        ),
        Ok(vec![GrandpaWarpSyncResponseFragment { header: 10, justification: 20 }])
    );
    assert_eq!(
        ChainNetwork::grandpa_warp_sync_response(Ok::<_, u8>(vec![4, 10]), one_byte, one_byte),
        Err(GrandpaWarpSyncRequestError::BadResponse)
    );
    assert_eq!(
        ChainNetwork::grandpa_warp_sync_response(Err::<Vec<u8>, u8>(4), one_byte, one_byte),
        Err(GrandpaWarpSyncRequestError::Request(4))
    );
}

#[test]
fn discovery_without_peer() {
    let outcome: Result<Request, DiscoveryError<u8, u8>> =
        network().kademlia_discovery_round(0, |key: [u8; 32]| key.to_vec(), None);
    assert_eq!(outcome, Err(DiscoveryError::NoPeer));
    let outcome: Result<Request, DiscoveryError<u8, u8>> =
        network().kademlia_request(0, vec![1], None);
    assert_eq!(outcome, Err(DiscoveryError::NoPeer));
    // Without a peer, the chain doesn't matter.
    let outcome: Result<Request, DiscoveryError<u8, u8>> =
        network().kademlia_discovery_round(usize::MAX, |key: [u8; 32]| key.to_vec(), None);
    assert_eq!(outcome, Err(DiscoveryError::NoPeer));
}

#[test]
fn discovery_asks_for_a_fresh_key() {
    let keys = std::cell::RefCell::new(vec![]);
    for _ in 0..2 {
        let outcome: Result<Request, DiscoveryError<u8, u8>> = network().kademlia_discovery_round(
            1,
            |key: [u8; 32]| {
                keys.borrow_mut().push(key);
                let mut body = vec![77];
                body.extend_from_slice(&key);
                body
            },
            Some(PeerId(vec![5])),
        );
        let request = outcome.unwrap();
        assert_eq!(request.target, PeerId(vec![5]));
        assert_eq!(request.protocol_index, 7);
        assert_eq!(request.request_data.len(), 33);
        assert_eq!(request.request_data[0], 77);
        assert_eq!(request.request_data[1..], keys.borrow().last().unwrap()[..]);
    }
    assert_eq!(keys.borrow().len(), 2);
    assert_ne!(keys.borrow()[0], keys.borrow()[1]);
}

#[test]
fn kademlia_request_is_about_the_given_key() {
    let find_node = |key: [u8; 32]| {
        let mut body = vec![77];
        body.extend_from_slice(&key);
        body
    };
    let outcome: Result<Request, DiscoveryError<u8, u8>> =
        network().kademlia_request_about(0, hash(), find_node, Some(PeerId(vec![5])));
    let mut expected = vec![77];
    expected.extend_from_slice(&hash());
    assert_eq!(
        outcome,
        Ok(Request { target: PeerId(vec![5]), protocol_index: 3, request_data: expected })
    );
    let outcome: Result<Request, DiscoveryError<u8, u8>> =
        network().kademlia_request_about(usize::MAX, hash(), find_node, None);
    assert_eq!(outcome, Err(DiscoveryError::NoPeer));
}

#[test]
fn kademlia_request_goes_to_kad_protocol() {
    let outcome: Result<Request, DiscoveryError<u8, u8>> =
        network().kademlia_request(0, vec![1, 2], Some(PeerId(vec![5])));
    assert_eq!(
        outcome,
        Ok(Request { target: PeerId(vec![5]), protocol_index: 3, request_data: vec![1, 2] })
    );
}

#[test]
fn discovery_response_outcomes() {
    let decode = |bytes: &[u8]| -> Result<Vec<(PeerId, Vec<Multiaddr>)>, char> {
        if bytes.is_empty() {
            Err('d')
        } else {
            Ok(bytes
                .iter()
                .map(|b| (PeerId(vec![*b]), vec![Multiaddr(vec![*b, *b])]))
                .collect())
        }
    };
    let insert = ChainNetwork::kademlia_response(3, Ok::<_, u8>(vec![1, 2]), decode).unwrap();
    assert_eq!(
        insert.insert(),
        vec![
            AddAddresses {
                overlay_network_index: 3,
                peer_id: PeerId(vec![1]),
                addrs: vec![Multiaddr(vec![1, 1])],
            },
            AddAddresses {
                overlay_network_index: 3,
                peer_id: PeerId(vec![2]),
                addrs: vec![Multiaddr(vec![2, 2])],
            },
        ]
    );
    assert_eq!(
        ChainNetwork::kademlia_response(3, Ok::<_, u8>(vec![]), decode),
        Err(DiscoveryError::DecodeError('d'))
    );
    assert_eq!(
        ChainNetwork::kademlia_response(3, Err::<Vec<u8>, u8>(4), decode),
        Err(DiscoveryError::RequestFailed(4))
    );
}

#[test]
fn read_write_outcomes() {
    assert_eq!(
        ChainNetwork::read_write(Ok::<_, ()>(NetworkReadWrite {
            read_bytes: 1,
            written_bytes: 2,
            wake_up_after: Some(3),
            write_close: true,
        })),
        Ok(ReadWrite { read_bytes: 1, written_bytes: 2, wake_up_after: Some(3), write_close: true })
    );
    assert_eq!(ChainNetwork::read_write(Err::<NetworkReadWrite<u8>, _>('e')), Err('e'));
}
