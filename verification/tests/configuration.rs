use chain_network::config::{
    build_overlay_networks, build_request_response_protocols, ChainConfig, Config,
    ConfigRequestResponse, OverlayNetwork, KAD_PROTOCOL, LIGHT_PROTOCOL, OVERLAYS_PER_CHAIN,
    PROTOCOLS_PER_CHAIN, SYNC_PROTOCOL, WARP_SYNC_PROTOCOL,
};
use chain_network::service::ChainNetwork;
use chain_network::types::{Multiaddr, PeerId, Role};

fn chain(protocol_id: &str, bootstrap_nodes: Vec<usize>, seed: u8) -> ChainConfig {
    ChainConfig {
        protocol_id: protocol_id.to_string(),
        bootstrap_nodes,
        in_slots: 25 + u32::from(seed),
        out_slots: 10 + u32::from(seed),
        best_hash: [seed; 32],
        best_number: u64::from(seed) * 100,
        genesis_hash: [seed + 1; 32],
        role: Role::Light,
    }
}

fn request_response(name: &str, request: usize, response: usize, inbound: bool) -> ConfigRequestResponse {
    ConfigRequestResponse {
        name: name.to_string(),
        max_request_size: request,
        max_response_size: response,
        inbound_allowed: inbound,
    }
}

#[test]
fn overlay_networks_of_two_chains() {
    let overlays = build_overlay_networks(&vec![
        chain("dot", vec![0, 2], 1),
        chain("ksmcc3", vec![], 5),
    ]);
    let expect = |name: &str, bootstrap_nodes: Vec<usize>, in_slots, out_slots| OverlayNetwork {
        protocol_name: name.to_string(),
        fallback_protocol_names: vec![],
        max_handshake_size: 256,
        max_notification_size: 32768,
        bootstrap_nodes,
        in_slots,
        out_slots,
    };
    assert_eq!(
        overlays,
        vec![
            expect("/dot/block-announces/1", vec![0, 2], 26, 11),
            expect("/dot/transactions/1", vec![0, 2], 26, 11),
            expect("/ksmcc3/block-announces/1", vec![], 30, 15),
            expect("/ksmcc3/transactions/1", vec![], 30, 15),
        ]
    );
}

#[test]
fn request_response_protocols_of_two_chains() {
    let protocols = build_request_response_protocols(&vec![
        chain("dot", vec![], 1),
        chain("ksmcc3", vec![], 5),
    ]);
    assert_eq!(
        protocols,
        vec![
            request_response("/ipfs/id/1.0.0", 8, 4096, false),
            request_response("/dot/sync/2", 1024, 10485760, true),
            request_response("/dot/light/2", 524288, 10485760, true),
            request_response("/dot/kad", 1024, 1048576, false),
            request_response("/dot/sync/warp", 1048576, 16777216, false),
            request_response("/ksmcc3/sync/2", 1024, 10485760, true),
            request_response("/ksmcc3/light/2", 524288, 10485760, true),
            request_response("/ksmcc3/kad", 1024, 1048576, false),
            request_response("/ksmcc3/sync/warp", 1048576, 16777216, false),
        ]
    );
}

#[test]
fn no_chain_leaves_identify_only() {
    assert_eq!(build_overlay_networks(&vec![]), vec![]);
    assert_eq!(
        build_request_response_protocols(&vec![]),
        vec![request_response("/ipfs/id/1.0.0", 8, 4096, false)]
    );
}

#[test]
fn empty_and_non_ascii_identifiers() {
    let overlays = build_overlay_networks(&vec![chain("", vec![], 0), chain("h\u{e9}", vec![], 0)]);
    assert_eq!(overlays[0].protocol_name, "//block-announces/1");
    assert_eq!(overlays[3].protocol_name, "/h\u{e9}/transactions/1");
}

#[test]
fn new_hands_the_configuration_on() {
    let known_nodes = vec![
        ("a", PeerId(vec![1]), Multiaddr(vec![2])),
        ("b", PeerId(vec![3]), Multiaddr(vec![4, 5])),
    ];
    let chains = vec![chain("dot", vec![0, 1], 1), chain("ksmcc3", vec![1], 2)];
    let (network, config) = ChainNetwork::new(Config {
        randomness_seed: [7; 32],
        listen_addresses: vec![Multiaddr(vec![9, 9])],
        chains: chains.clone(),
        known_nodes: known_nodes.clone(),
        noise_key: "key",
        pending_api_events_buffer_size: 64,
    });
    assert_eq!(network.num_chains(), 2);
    assert_eq!(config.known_nodes, known_nodes);
    assert_eq!(config.listen_addresses, vec![Multiaddr(vec![9, 9])]);
    assert_eq!(config.noise_key, "key");
    assert_eq!(config.randomness_seed, [7; 32]);
    assert_eq!(config.pending_api_events_buffer_size, 64);
    assert_eq!(config.ping_protocol, "/ipfs/ping/1.0.0");
    assert_eq!(config.overlay_networks, build_overlay_networks(&chains));
    assert_eq!(
        config.request_response_protocols,
        build_request_response_protocols(&chains)
    );
    // Bootstrap nodes that were valid stay valid.
    for overlay in &config.overlay_networks {
        for node in &overlay.bootstrap_nodes {
            assert!(*node < config.known_nodes.len());
        }
    }
}

#[test]
fn protocol_indices_designate_registered_protocols() {
    let (network, config) = ChainNetwork::new(Config {
        randomness_seed: [0; 32],
        listen_addresses: vec![],
        chains: vec![chain("dot", vec![], 1), chain("ksmcc3", vec![], 2)],
        known_nodes: Vec::<((), PeerId, Multiaddr)>::new(),
        noise_key: (),
        pending_api_events_buffer_size: 1,
    });
    let name = |chain_index, protocol| {
        config.request_response_protocols[network.protocol_index(chain_index, protocol)]
            .name
            .clone()
    };
    assert_eq!(name(0, SYNC_PROTOCOL), "/dot/sync/2");
    assert_eq!(name(0, LIGHT_PROTOCOL), "/dot/light/2");
    assert_eq!(name(0, KAD_PROTOCOL), "/dot/kad");
    assert_eq!(name(0, WARP_SYNC_PROTOCOL), "/dot/sync/warp");
    assert_eq!(name(1, SYNC_PROTOCOL), "/ksmcc3/sync/2");
    assert_eq!(name(1, WARP_SYNC_PROTOCOL), "/ksmcc3/sync/warp");
    assert_eq!(network.protocol_index(0, 0), 1);
    assert_eq!(network.protocol_index(1, 3), 8);
    assert_eq!(network.protocol_index(10, 2), 43);
}

#[test]
fn every_protocol_has_one_index() {
    let (network, config) = ChainNetwork::new(Config {
        randomness_seed: [0; 32],
        listen_addresses: vec![],
        chains: vec![chain("a", vec![], 1), chain("b", vec![], 2), chain("c", vec![], 3)],
        known_nodes: Vec::<((), PeerId, Multiaddr)>::new(),
        noise_key: (),
        pending_api_events_buffer_size: 1,
    });
    let mut indices = vec![0];
    for chain_index in 0..3 {
        for protocol in 0..PROTOCOLS_PER_CHAIN {
            indices.push(network.protocol_index(chain_index, protocol));
        }
    }
    assert_eq!(indices, (0..13).collect::<Vec<usize>>());
    assert_eq!(config.request_response_protocols.len(), 13);
    assert_eq!(config.overlay_networks.len(), 3 * OVERLAYS_PER_CHAIN);
}
