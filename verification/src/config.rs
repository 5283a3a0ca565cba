//! Configuration of the service, and the configuration of the connection layer that follows from
//! it.
//!
//! The connection layer refers to protocols by their position in the lists it was given. The two
//! lists built here are therefore the meaning of every index that goes to the connection layer or
//! comes from it.

use vstd::prelude::*;
use vstd::string::StringExecFns;

use crate::types::{Multiaddr, PeerId, Role};

verus! {

/// Configuration for a [`ChainNetwork`](crate::service::ChainNetwork).
pub struct Config<TPeer, TNoiseKey> {
    /// Seed for the randomness within the networking state machine.
    ///
    /// While this seed influences the general behaviour of the networking state machine, it
    /// notably isn't used when generating the ephemeral key used for the Diffie-Hellman handshake.
    /// This is a defensive measure against users passing a dummy seed instead of actual entropy.
    pub randomness_seed: [u8; 32],
    /// Addresses to listen for incoming connections.
    pub listen_addresses: Vec<Multiaddr>,
    /// List of blockchain peer-to-peer networks to be connected to.
    ///
    /// The order in which the chains are listed is important. The index of each entry needs to be
    /// used later in order to refer to a specific chain.
    pub chains: Vec<ChainConfig>,
    /// Nodes that are known from the start.
    pub known_nodes: Vec<(TPeer, PeerId, Multiaddr)>,
    /// Key used for the encryption layer. This is a Noise static key, signed using the actual key
    /// of the node.
    pub noise_key: TNoiseKey,
    /// Number of events that can be buffered internally before connections are back-pressured.
    /// Never zero. A good default value is 64.
    pub pending_api_events_buffer_size: usize,
}

/// Configuration for a specific overlay network.
///
/// See [`Config::chains`].
#[derive(Debug, Clone, PartialEq, Eq)]
pub struct ChainConfig {
    /// Identifier of the protocol, used on the wire to determine which chain messages refer to.
    pub protocol_id: String,
    /// List of node identities that are known to belong to this overlay network. The node
    /// identities are indices in [`Config::known_nodes`].
    pub bootstrap_nodes: Vec<usize>,
    /// Number of inbound substreams that may be open at the same time.
    pub in_slots: u32,
    /// Number of outbound substreams that may be open at the same time.
    pub out_slots: u32,
    /// Hash of the best block according to the local node.
    pub best_hash: [u8; 32],
    /// Height of the best block according to the local node.
    pub best_number: u64,
    /// Hash of the genesis block (i.e. block number 0) according to the local node.
    pub genesis_hash: [u8; 32],
    /// Role of the local node.
    pub role: Role,
}

/// Notifications protocol, as the connection layer is told about it.
#[derive(Debug, Clone, PartialEq, Eq)]
pub struct OverlayNetwork {
    pub protocol_name: String,
    pub fallback_protocol_names: Vec<String>,
    pub max_handshake_size: usize,
    pub max_notification_size: usize,
    pub bootstrap_nodes: Vec<usize>,
    pub in_slots: u32,
    pub out_slots: u32,
}

/// Mathematical content of an [`OverlayNetwork`].
pub struct OverlayNetworkView {
    pub protocol_name: Seq<char>,
    pub fallback_protocol_names: Seq<Seq<char>>,
    pub max_handshake_size: nat,
    pub max_notification_size: nat,
    pub bootstrap_nodes: Seq<usize>,
    pub in_slots: u32,
    pub out_slots: u32,
}

impl View for OverlayNetwork {
    type V = OverlayNetworkView;

    open spec fn view(&self) -> OverlayNetworkView {
        OverlayNetworkView {
            protocol_name: self.protocol_name@,
            fallback_protocol_names: self.fallback_protocol_names@.map_values(|name: String| name@),
            max_handshake_size: self.max_handshake_size as nat,
            max_notification_size: self.max_notification_size as nat,
            bootstrap_nodes: self.bootstrap_nodes@,
            in_slots: self.in_slots,
            out_slots: self.out_slots,
        }
    }
}

/// Request-response protocol, as the connection layer is told about it.
#[derive(Debug, Clone, PartialEq, Eq)]
pub struct ConfigRequestResponse {
    pub name: String,
    pub max_request_size: usize,
    pub max_response_size: usize,
    pub inbound_allowed: bool,
}

/// Mathematical content of a [`ConfigRequestResponse`].
pub struct ConfigRequestResponseView {
    pub name: Seq<char>,
    pub max_request_size: nat,
    pub max_response_size: nat,
    pub inbound_allowed: bool,
}

impl View for ConfigRequestResponse {
    type V = ConfigRequestResponseView;

    open spec fn view(&self) -> ConfigRequestResponseView {
        ConfigRequestResponseView {
            name: self.name@,
            max_request_size: self.max_request_size as nat,
            max_response_size: self.max_response_size as nat,
            inbound_allowed: self.inbound_allowed,
        }
    }
}

/// Configuration of the connection layer.
pub struct NetworkConfig<TPeer, TNoiseKey> {
    pub known_nodes: Vec<(TPeer, PeerId, Multiaddr)>,
    pub listen_addresses: Vec<Multiaddr>,
    pub request_response_protocols: Vec<ConfigRequestResponse>,
    pub noise_key: TNoiseKey,
    pub randomness_seed: [u8; 32],
    pub pending_api_events_buffer_size: usize,
    pub overlay_networks: Vec<OverlayNetwork>,
    pub ping_protocol: String,
}

/// Number of notifications protocols of each chain.
pub const OVERLAYS_PER_CHAIN: usize = 2;

/// Number of request-response protocols of each chain.
pub const PROTOCOLS_PER_CHAIN: usize = 4;

/// Position of the blocks requests protocol among the request-response protocols of a chain.
pub const SYNC_PROTOCOL: usize = 0;

/// Position of the storage proofs protocol among the request-response protocols of a chain.
pub const LIGHT_PROTOCOL: usize = 1;

/// Position of the Kademlia protocol among the request-response protocols of a chain.
pub const KAD_PROTOCOL: usize = 2;

/// Position of the GrandPa warp sync protocol among the request-response protocols of a chain.
pub const WARP_SYNC_PROTOCOL: usize = 3;

/// Name on the wire of the protocol of a chain: a slash, the identifier of the chain, the suffix.
pub open spec fn wire_name(protocol_id: Seq<char>, suffix: Seq<char>) -> Seq<char> {
    "/"@ + protocol_id + suffix
}

/// Notifications protocol of `chain` whose name ends in `suffix`.
pub open spec fn overlay_network(chain: ChainConfig, suffix: Seq<char>) -> OverlayNetworkView {
    OverlayNetworkView {
        protocol_name: wire_name(chain.protocol_id@, suffix),
        fallback_protocol_names: Seq::empty(),
        max_handshake_size: 256,
        max_notification_size: 32768,
        bootstrap_nodes: chain.bootstrap_nodes@,
        in_slots: chain.in_slots,
        out_slots: chain.out_slots,
    }
}

/// Notifications protocols of all the chains: for each chain in turn, the block announces, then
/// the transactions.
pub open spec fn overlay_networks(chains: Seq<ChainConfig>) -> Seq<OverlayNetworkView> {
    Seq::new(
        OVERLAYS_PER_CHAIN as nat * chains.len(),
        |i: int|
            overlay_network(
                chains[i / 2],
                if i % 2 == 0 {
                    "/block-announces/1"@
                } else {
                    "/transactions/1"@
                },
            ),
    )
}

/// Request-response protocol that is there once, whatever the chains.
pub open spec fn identify_protocol() -> ConfigRequestResponseView {
    ConfigRequestResponseView {
        name: "/ipfs/id/1.0.0"@,
        max_request_size: 8,
        max_response_size: 4096,
        inbound_allowed: false,
    }
}

/// Request-response protocol of `chain` at the given position.
pub open spec fn chain_protocol(chain: ChainConfig, protocol: int) -> ConfigRequestResponseView {
    if protocol == SYNC_PROTOCOL {
        ConfigRequestResponseView {
            name: wire_name(chain.protocol_id@, "/sync/2"@),
            max_request_size: 1024,
            max_response_size: 10 * 1024 * 1024,
            inbound_allowed: true,
        }
    } else if protocol == LIGHT_PROTOCOL {
        ConfigRequestResponseView {
            name: wire_name(chain.protocol_id@, "/light/2"@),
            max_request_size: 1024 * 512,
            max_response_size: 10 * 1024 * 1024,
            inbound_allowed: true,
        }
    } else if protocol == KAD_PROTOCOL {
        ConfigRequestResponseView {
            name: wire_name(chain.protocol_id@, "/kad"@),
            max_request_size: 1024,
            max_response_size: 1024 * 1024,
            inbound_allowed: false,
        }
    } else {
        ConfigRequestResponseView {
            name: wire_name(chain.protocol_id@, "/sync/warp"@),
            max_request_size: 1024 * 1024,
            max_response_size: 16 * 1024 * 1024,
            inbound_allowed: false,
        }
    }
}

/// All the request-response protocols: the identify protocol, then those of each chain in turn.
pub open spec fn request_response_protocols(chains: Seq<ChainConfig>) -> Seq<
    ConfigRequestResponseView,
> {
    Seq::new(
        1 + PROTOCOLS_PER_CHAIN as nat * chains.len(),
        |i: int|
            if i == 0 {
                identify_protocol()
            } else {
                chain_protocol(chains[(i - 1) / 4], (i - 1) % 4)
            },
    )
}

/// Index of a request-response protocol of a chain, among all the request-response protocols.
pub open spec fn protocol_index(chain_index: int, protocol: int) -> int {
    1 + chain_index * PROTOCOLS_PER_CHAIN + protocol
}

/// Index of the block announces protocol of a chain, among all the notifications protocols.
pub open spec fn block_announces_index(chain_index: int) -> int {
    chain_index * OVERLAYS_PER_CHAIN
}

/// Index of the transactions protocol of a chain, among all the notifications protocols.
pub open spec fn transactions_index(chain_index: int) -> int {
    chain_index * OVERLAYS_PER_CHAIN + 1
}

/// Every bootstrap node of every chain is one of the known nodes.
pub open spec fn bootstrap_nodes_known(chains: Seq<ChainConfig>, num_known_nodes: nat) -> bool {
    forall|c: int, i: int|
        #![trigger chains[c].bootstrap_nodes@[i]]
        0 <= c < chains.len() && 0 <= i < chains[c].bootstrap_nodes@.len()
            ==> chains[c].bootstrap_nodes@[i] < num_known_nodes
}

/// Builds the name on the wire of a protocol of a chain.
fn build_wire_name(protocol_id: &String, suffix: &str) -> (name: String)
    ensures
        name@ == wire_name(protocol_id@, suffix@),
{
    let mut name: String = String::from_str("/");
    name.append(protocol_id.as_str());
    name.append(suffix);
    name
}

/// Builds the notifications protocol of a chain whose name ends in `suffix`.
fn build_overlay_network(chain: &ChainConfig, suffix: &str) -> (overlay: OverlayNetwork)
    ensures
        overlay@ == overlay_network(*chain, suffix@),
{
    let bootstrap_nodes: Vec<usize> = chain.bootstrap_nodes.clone();
    assert(bootstrap_nodes@ =~= chain.bootstrap_nodes@);
    let overlay = OverlayNetwork {
        protocol_name: build_wire_name(&chain.protocol_id, suffix),
        fallback_protocol_names: Vec::new(),
        max_handshake_size: 256,
        max_notification_size: 32768,
        bootstrap_nodes,
        in_slots: chain.in_slots,
        out_slots: chain.out_slots,
    };
    assert(overlay@.fallback_protocol_names =~= Seq::<Seq<char>>::empty());
    overlay
}

/// Builds the list of notifications protocols to register.
///
/// The order of the protocols is important, as it defines the overlay network indices that go to
/// the connection layer or come from it.
pub fn build_overlay_networks(chains: &Vec<ChainConfig>) -> (overlays: Vec<OverlayNetwork>)
    ensures
        overlays@.map_values(|overlay: OverlayNetwork| overlay@) == overlay_networks(chains@),
{
    let mut overlays: Vec<OverlayNetwork> = Vec::new();
    let mut c: usize = 0;
    while c < chains.len()
        invariant
            0 <= c <= chains.len(),
            overlays.len() == 2 * c,
            forall|i: int|
                0 <= i < overlays.len() ==> (#[trigger] overlays[i])@ == overlay_networks(
                    chains@,
                )[i],
        decreases chains.len() - c,
    {
        let chain = &chains[c];
        overlays.push(build_overlay_network(chain, "/block-announces/1"));
        overlays.push(build_overlay_network(chain, "/transactions/1"));
        c += 1;
    }
    assert(overlays@.map_values(|overlay: OverlayNetwork| overlay@) =~= overlay_networks(chains@));
    overlays
}

/// Builds the list of request-response protocols to register.
///
/// The order of the protocols is important, as it defines the protocol indices that go to the
/// connection layer.
pub fn build_request_response_protocols(chains: &Vec<ChainConfig>) -> (protocols: Vec<
    ConfigRequestResponse,
>)
    ensures
        protocols@.map_values(|protocol: ConfigRequestResponse| protocol@)
            == request_response_protocols(chains@),
{
    let mut protocols: Vec<ConfigRequestResponse> = Vec::new();
    protocols.push(
        ConfigRequestResponse {
            name: String::from_str("/ipfs/id/1.0.0"),
            max_request_size: 8,
            max_response_size: 4096,
            inbound_allowed: false,
        },
    );
    let mut c: usize = 0;
    while c < chains.len()
        invariant
            0 <= c <= chains.len(),
            protocols.len() == 1 + 4 * c,
            forall|i: int|
                0 <= i < protocols.len() ==> (#[trigger] protocols[i])@
                    == request_response_protocols(chains@)[i],
        decreases chains.len() - c,
    {
        let protocol_id = &chains[c].protocol_id;
        protocols.push(
            ConfigRequestResponse {
                name: build_wire_name(protocol_id, "/sync/2"),
                max_request_size: 1024,
                max_response_size: 10 * 1024 * 1024,
                inbound_allowed: true,
            },
        );
        protocols.push(
            ConfigRequestResponse {
                name: build_wire_name(protocol_id, "/light/2"),
                max_request_size: 1024 * 512,
                max_response_size: 10 * 1024 * 1024,
                inbound_allowed: true,
            },
        );
        protocols.push(
            ConfigRequestResponse {
                name: build_wire_name(protocol_id, "/kad"),
                max_request_size: 1024,
                max_response_size: 1024 * 1024,
                // Refusing inbound requests means not being inserted in the DHT, which is the
                // polite thing to do for a node that doesn't answer them.
                inbound_allowed: false,
            },
        );
        protocols.push(
            ConfigRequestResponse {
                name: build_wire_name(protocol_id, "/sync/warp"),
                max_request_size: 1024 * 1024,
                max_response_size: 16 * 1024 * 1024,
                // Inbound warp sync requests aren't handled.
                inbound_allowed: false,
            },
        );
        c += 1;
    }
    assert(protocols@.map_values(|protocol: ConfigRequestResponse| protocol@)
        =~= request_response_protocols(chains@));
    protocols
}

} // verus!
