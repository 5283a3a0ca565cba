use chain_network::announce::{EncodedBlockAnnounce, EncodedBlockAnnounceHandshake};
use chain_network::codecs::{encode_local_handshake, Codecs};
use chain_network::config::{ChainConfig, Config};
use chain_network::event::{
    find_announced_chains, Event, Input, NetworkEvent, OutboundSubstream, Step, SubstreamChange,
};
use chain_network::service::ChainNetwork;
use chain_network::substream::NextSubstream;
use chain_network::types::{BlockAnnouncesHandshake, Multiaddr, PeerId, PendingId, Role};

fn chain(protocol_id: &str, seed: u8, role: Role) -> ChainConfig {
    ChainConfig {
        protocol_id: protocol_id.to_string(),
        bootstrap_nodes: vec![],
        in_slots: 25,
        out_slots: 25,
        best_hash: [seed; 32],
        best_number: u64::from(seed) * 1000,
        genesis_hash: [seed + 1; 32],
        role,
    }
}

fn network() -> ChainNetwork {
    let (network, _) = ChainNetwork::new(Config {
        randomness_seed: [0; 32],
        listen_addresses: vec![],
        chains: vec![chain("dot", 10, Role::Full), chain("ksmcc3", 20, Role::Authority)],
        known_nodes: Vec::<((), PeerId, Multiaddr)>::new(),
        noise_key: (),
        pending_api_events_buffer_size: 64,
    });
    network
}

/// A byte for the height and a byte for the hash.
fn decode_handshake(bytes: &[u8]) -> Result<BlockAnnouncesHandshake, ()> {
    if bytes.len() != 2 {
        return Err(());
    }
    Ok(BlockAnnouncesHandshake {
        best_hash: [bytes[1]; 32],
        best_number: u64::from(bytes[0]),
        genesis_hash: [99; 32],
        role: Role::Light,
    })
}

fn encode_handshake(handshake: BlockAnnouncesHandshake) -> Vec<Vec<u8>> {
    let role = match handshake.role {
        Role::Full => 1,
        Role::Light => 2,
        Role::Authority => 4,
    };
    vec![
        vec![role],
        handshake.best_number.to_le_bytes()[..4].to_vec(),
        vec![],
        vec![handshake.best_hash[31], handshake.genesis_hash[0]],
    ]
}

fn decode_announce(bytes: &[u8]) -> Result<usize, ()> {
    if bytes.is_empty() {
        Err(())
    } else {
        Ok(bytes.len())
    }
}

fn step(network: &mut ChainNetwork, input: Input) -> Step {
    network.next_event(input, &Codecs { decode_handshake, encode_handshake, decode_announce })
}

fn react(network: &mut ChainNetwork, event: NetworkEvent) -> Step {
    step(network, Input::Network(event))
}

fn returned(event: Event) -> Step {
    Step::Return { event, wake_substreams: false }
}

fn open_inbound(id: usize, overlay_network_index: usize) -> NetworkEvent {
    NetworkEvent::NotificationsInOpen { id, overlay_network_index, remote_handshake: vec![1, 2] }
}

fn accept(id: usize, overlay_network_index: usize, handshake: Vec<u8>) -> Step {
    Step::AcceptNotificationsIn { id, overlay_network_index, handshake }
}

/// 20000 is 0x4e20.
fn second_chain_handshake() -> Vec<u8> {
    vec![4, 0x20, 0x4e, 0, 0, 20, 21]
}

#[test]
fn fresh_service_polls() {
    let mut network = network();
    assert!(step(&mut network, Input::Resume) == Step::PollNetwork);
    assert!(step(&mut network, Input::Resume) == Step::PollNetwork);
}

#[test]
fn connected_wakes_substreams() {
    let step = react(&mut network(), NetworkEvent::Connected(PeerId(vec![1, 2])));
    assert!(
        step == Step::Return {
            event: Event::Connected(PeerId(vec![1, 2])),
            wake_substreams: true
        }
    );
}

#[test]
fn disconnected_reports_block_announces_chains_only() {
    let step = react(
        &mut network(),
        NetworkEvent::Disconnected {
            peer_id: PeerId(vec![7]),
            out_overlay_network_indices: vec![2, 1, 0, 3],
        },
    );
    assert!(
        step == returned(Event::Disconnected {
            peer_id: PeerId(vec![7]),
            chain_indices: vec![1, 0]
        })
    );
}

#[test]
fn announced_chains_keep_their_order() {
    assert_eq!(find_announced_chains(&vec![]), Vec::<usize>::new());
    assert_eq!(find_announced_chains(&vec![1, 3, 5]), Vec::<usize>::new());
    assert_eq!(find_announced_chains(&vec![8, 1, 0, 6, 0]), vec![4, 0, 3, 0]);
    assert_eq!(find_announced_chains(&vec![usize::MAX, usize::MAX - 1]), vec![usize::MAX / 2]);
}

#[test]
fn start_connect_is_passed_on() {
    let step = react(
        &mut network(),
        NetworkEvent::StartConnect { id: 42, multiaddr: Multiaddr(vec![4, 1]) },
    );
    assert!(
        step == returned(Event::StartConnect {
            id: PendingId(42),
            multiaddr: Multiaddr(vec![4, 1])
        })
    );
}

#[test]
fn opened_substream_is_reported() {
    let mut network = network();
    let asked = react(
        &mut network,
        NetworkEvent::NotificationsOutAccept {
            id: 5,
            overlay_network_index: 2,
            remote_handshake: vec![77, 3],
        },
    );
    let outbound = OutboundSubstream {
        id: 5,
        chain_index: 1,
        change: SubstreamChange::Opened(BlockAnnouncesHandshake {
            best_hash: [3; 32],
            best_number: 77,
            genesis_hash: [99; 32],
            role: Role::Light,
        }),
    };
    assert!(asked == Step::IdentifyPeer { outbound });
    assert!(
        step(&mut network, Input::PeerIdentified { outbound, peer_id: PeerId(vec![9]) })
            == returned(Event::ChainConnected {
                chain_index: 1,
                peer_id: PeerId(vec![9]),
                role: Role::Light,
                best_number: 77,
                best_hash: [3; 32],
            })
    );
}

#[test]
fn closed_substream_is_reported() {
    let mut network = network();
    let asked = react(
        &mut network,
        NetworkEvent::NotificationsOutClose { id: 6, overlay_network_index: 0 },
    );
    let outbound =
        OutboundSubstream { id: 6, chain_index: 0, change: SubstreamChange::Closed };
    assert!(asked == Step::IdentifyPeer { outbound });
    assert!(
        step(&mut network, Input::PeerIdentified { outbound, peer_id: PeerId(vec![8]) })
            == returned(Event::ChainDisconnected { chain_index: 0, peer_id: PeerId(vec![8]) })
    );
}

#[test]
fn announce_is_reported_as_received() {
    let step = react(
        &mut network(),
        NetworkEvent::NotificationsIn {
            id: 6,
            peer_id: PeerId(vec![8]),
            overlay_network_index: 2,
            notification: vec![5, 6, 7],
        },
    );
    match step {
        Step::Return {
            event: Event::BlockAnnounce { chain_index, peer_id, announce },
            wake_substreams,
        } => {
            assert_eq!(chain_index, 1);
            assert_eq!(peer_id, PeerId(vec![8]));
            assert!(!wake_substreams);
            assert_eq!(announce.decode(decode_announce), 3);
            let reversed = announce.decode(|bytes: &[u8]| -> Result<Vec<u8>, ()> {
                Ok(bytes.iter().rev().cloned().collect())
            });
            assert_eq!(reversed, vec![7, 6, 5]);
            assert!(announce == EncodedBlockAnnounce::new(vec![5, 6, 7]));
        }
        _ => panic!("the announce isn't reported"),
    }
}

#[test]
fn encoded_handshake_is_decoded() {
    let handshake = EncodedBlockAnnounceHandshake::new(vec![2, 3]);
    assert_eq!(handshake.decode(decode_handshake), decode_handshake(&[2, 3]).unwrap());
}

#[test]
fn transactions_are_not_reported() {
    let mut network = network();
    for event in vec![
        NetworkEvent::NotificationsOutAccept {
            id: 1,
            overlay_network_index: 1,
            remote_handshake: vec![],
        },
        NetworkEvent::NotificationsOutReject { id: 1, overlay_network_index: 3 },
        NetworkEvent::NotificationsOutReject { id: 1, overlay_network_index: 2 },
        NetworkEvent::NotificationsOutClose { id: 1, overlay_network_index: 1 },
        NetworkEvent::NotificationsIn {
            id: 1,
            peer_id: PeerId(vec![1]),
            overlay_network_index: 3,
            notification: vec![],
        },
    ] {
        assert!(react(&mut network, event) == Step::PollNetwork);
    }
}

#[test]
fn inbound_transactions_substream_is_accepted_without_handshake() {
    let mut network = network();
    let expected = accept(3, 3, vec![]);
    assert!(react(&mut network, open_inbound(3, 3)) == expected);
    // Giving up and asking again changes nothing.
    assert!(step(&mut network, Input::Resume) == expected);
    assert!(step(&mut network, Input::Resume) == expected);
    assert!(step(&mut network, Input::Accepted) == Step::PollNetwork);
    assert!(step(&mut network, Input::Resume) == Step::PollNetwork);
}

#[test]
fn unknown_transactions_substream_is_accepted_too() {
    let step = react(
        &mut network(),
        NetworkEvent::NotificationsInOpen {
            id: 0,
            overlay_network_index: 101,
            remote_handshake: vec![],
        },
    );
    assert!(step == accept(0, 101, vec![]));
}

#[test]
fn inbound_block_announces_substream_is_accepted_with_local_handshake() {
    let mut network = network();
    let expected = accept(4, 2, second_chain_handshake());
    assert!(react(&mut network, open_inbound(4, 2)) == expected);
    // From reception on, giving up loses nothing.
    assert!(step(&mut network, Input::Resume) == expected);
    assert!(step(&mut network, Input::Resume) == expected);
    assert!(step(&mut network, Input::Accepted) == Step::PollNetwork);
    assert!(step(&mut network, Input::Resume) == Step::PollNetwork);
}

#[test]
fn remote_handshake_has_no_influence_on_the_local_one() {
    for remote_handshake in vec![vec![0, 0], vec![255, 1]] {
        let step = react(
            &mut network(),
            NetworkEvent::NotificationsInOpen { id: 4, overlay_network_index: 2, remote_handshake },
        );
        assert!(step == accept(4, 2, second_chain_handshake()));
    }
}

#[test]
fn giving_up_on_a_peer_drops_the_change() {
    let mut network = network();
    let asked = react(
        &mut network,
        NetworkEvent::NotificationsOutClose { id: 4, overlay_network_index: 0 },
    );
    assert!(matches!(asked, Step::IdentifyPeer { .. }));
    assert!(step(&mut network, Input::Resume) == Step::PollNetwork);
}

#[test]
fn local_handshake_is_encoded() {
    assert_eq!(
        encode_local_handshake(&chain("x", 20, Role::Authority), &encode_handshake),
        second_chain_handshake()
    );
}

#[test]
fn next_substream_opens_or_waits() {
    let network = network();
    assert!(matches!(network.next_substream(None), NextSubstream::Wait));
    match network.next_substream(Some(2)) {
        NextSubstream::Open(substream) => {
            assert_eq!(substream.overlay_network_index, 2);
            // Same handshake as the one inbound substreams are accepted with.
            assert_eq!(substream.open(encode_handshake), second_chain_handshake());
        }
        NextSubstream::Wait => panic!("a substream can be opened"),
    }
    match network.next_substream(Some(3)) {
        NextSubstream::Open(substream) => {
            let handshake = substream.open(|_| panic!("there is nothing to encode"));
            assert_eq!(handshake, Vec::<u8>::new());
        }
        NextSubstream::Wait => panic!("a substream can be opened"),
    }
}

#[test]
fn same_handshake_both_ways() {
    for index in 0..4 {
        let mut network = network();
        let inbound = match react(&mut network, open_inbound(1, index)) {
            Step::AcceptNotificationsIn { handshake, .. } => handshake,
            _ => panic!("the substream isn't accepted"),
        };
        let outbound = match network.next_substream(Some(index)) {
            NextSubstream::Open(substream) => substream.open(encode_handshake),
            NextSubstream::Wait => panic!("a substream can be opened"),
        };
        assert_eq!(inbound, outbound);
        assert_eq!(inbound.is_empty(), index % 2 == 1);
    }
}

#[test]
fn reported_chains_exist() {
    for index in 0..4 {
        for event in vec![
            NetworkEvent::NotificationsOutAccept {
                id: 1,
                overlay_network_index: index,
                remote_handshake: vec![0, 0],
            },
            NetworkEvent::NotificationsOutClose { id: 1, overlay_network_index: index },
            NetworkEvent::NotificationsIn {
                id: 1,
                peer_id: PeerId(vec![]),
                overlay_network_index: index,
                notification: vec![0],
            },
            NetworkEvent::Disconnected {
                peer_id: PeerId(vec![]),
                out_overlay_network_indices: vec![index, 3 - index],
            },
        ] {
            let mut network = network();
            match react(&mut network, event) {
                Step::IdentifyPeer { outbound } => assert_eq!(outbound.chain_index, index / 2),
                Step::Return { event: Event::BlockAnnounce { chain_index, .. }, .. } => {
                    assert_eq!(chain_index, index / 2)
                }
                Step::Return { event: Event::Disconnected { chain_indices, .. }, .. } => {
                    assert_eq!(chain_indices.len(), 1);
                    assert!(chain_indices[0] < network.num_chains());
                }
                step => {
                    assert_eq!(index % 2, 1);
                    assert!(step == Step::PollNetwork);
                }
            }
        }
    }
}

#[test]
fn waiting_substream_is_not_replaced() {
    let mut network = network();
    let first = react(&mut network, open_inbound(1, 1));
    assert!(step(&mut network, Input::Resume) == first);
    assert!(step(&mut network, Input::Accepted) == Step::PollNetwork);
    let second = react(&mut network, open_inbound(2, 0));
    assert!(first != second);
    assert!(step(&mut network, Input::Resume) == second);
    assert!(step(&mut network, Input::Accepted) == Step::PollNetwork);
}

#[test]
fn skipped_events_keep_a_waiting_substream() {
    let mut network = network();
    let waiting = react(&mut network, open_inbound(1, 2));
    let rejected = NetworkEvent::NotificationsOutReject { id: 3, overlay_network_index: 0 };
    assert!(react(&mut network, rejected) == waiting);
    assert!(step(&mut network, Input::Resume) == waiting);
}
