//! What holds of the protocols that are registered with the connection layer.
//!
//! The laws speak of what the functions return: `call_ensures(f, args, result)` says that `result`
//! is something that `f` returns on `args`.

use vstd::prelude::*;

use crate::config::{
    build_overlay_networks, build_request_response_protocols, ChainConfig, Config,
    ConfigRequestResponse, NetworkConfig, OverlayNetwork,
};
use crate::service::ChainNetwork;

verus! {

/// Each chain has two notifications protocols, one behind the other: first the block announces,
/// then the transactions. Both have the slots and the bootstrap nodes of the chain.
pub proof fn law_overlay_network_entries(chains: Vec<ChainConfig>, overlays: Vec<OverlayNetwork>)
    requires
        call_ensures(build_overlay_networks, (&chains,), overlays),
    ensures
        overlays@.len() == 2 * chains@.len(),
        forall|i: int|
            #![trigger overlays@[i]]
            0 <= i < overlays@.len() ==> {
                &&& overlays@[i].in_slots == chains@[i / 2].in_slots
                &&& overlays@[i].out_slots == chains@[i / 2].out_slots
                &&& overlays@[i].bootstrap_nodes@ == chains@[i / 2].bootstrap_nodes@
                &&& overlays@[i].protocol_name@ == "/"@ + chains@[i / 2].protocol_id@ + (if i % 2
                    == 0 {
                    "/block-announces/1"@
                } else {
                    "/transactions/1"@
                })
                &&& overlays@[i].fallback_protocol_names@.len() == 0
                &&& overlays@[i].max_handshake_size == 256
                &&& overlays@[i].max_notification_size == 32768
            },
{
    let views = overlays@.map_values(|overlay: OverlayNetwork| overlay@);
    assert(views.len() == overlays@.len());
    assert forall|i: int| #![trigger overlays@[i]] 0 <= i < overlays@.len() implies {
        &&& overlays@[i].in_slots == chains@[i / 2].in_slots
        &&& overlays@[i].out_slots == chains@[i / 2].out_slots
        &&& overlays@[i].bootstrap_nodes@ == chains@[i / 2].bootstrap_nodes@
        &&& overlays@[i].protocol_name@ == "/"@ + chains@[i / 2].protocol_id@ + (if i % 2 == 0 {
            "/block-announces/1"@
        } else {
            "/transactions/1"@
        })
        &&& overlays@[i].fallback_protocol_names@.len() == 0
        &&& overlays@[i].max_handshake_size == 256
        &&& overlays@[i].max_notification_size == 32768
    } by {
        assert(views[i] == overlays@[i]@);
        assert(overlays@[i]@.fallback_protocol_names.len()
            == overlays@[i].fallback_protocol_names@.len());
    }
}

/// The first request-response protocol is the identify protocol. Behind it, each chain has four:
/// blocks, storage proofs, Kademlia and warp sync, of which the first two accept inbound requests.
pub proof fn law_request_response_entries(
    chains: Vec<ChainConfig>,
    protocols: Vec<ConfigRequestResponse>,
)
    requires
        call_ensures(build_request_response_protocols, (&chains,), protocols),
    ensures
        protocols@.len() == 1 + 4 * chains@.len(),
        protocols@[0].name@ == "/ipfs/id/1.0.0"@,
        protocols@[0].max_request_size == 8,
        protocols@[0].max_response_size == 4096,
        !protocols@[0].inbound_allowed,
        forall|c: int|
            #![trigger chains@[c]]
            0 <= c < chains@.len() ==> {
                &&& protocols@[4 * c + 1].name@ == "/"@ + chains@[c].protocol_id@ + "/sync/2"@
                &&& protocols@[4 * c + 1].max_request_size == 1024
                &&& protocols@[4 * c + 1].max_response_size == 10485760
                &&& protocols@[4 * c + 1].inbound_allowed
                &&& protocols@[4 * c + 2].name@ == "/"@ + chains@[c].protocol_id@ + "/light/2"@
                &&& protocols@[4 * c + 2].max_request_size == 524288
                &&& protocols@[4 * c + 2].max_response_size == 10485760
                &&& protocols@[4 * c + 2].inbound_allowed
                &&& protocols@[4 * c + 3].name@ == "/"@ + chains@[c].protocol_id@ + "/kad"@
                &&& protocols@[4 * c + 3].max_request_size == 1024
                &&& protocols@[4 * c + 3].max_response_size == 1048576
                &&& !protocols@[4 * c + 3].inbound_allowed
                &&& protocols@[4 * c + 4].name@ == "/"@ + chains@[c].protocol_id@ + "/sync/warp"@
                &&& protocols@[4 * c + 4].max_request_size == 1048576
                &&& protocols@[4 * c + 4].max_response_size == 16777216
                &&& !protocols@[4 * c + 4].inbound_allowed
            },
{
    let views = protocols@.map_values(|protocol: ConfigRequestResponse| protocol@);
    assert(views.len() == protocols@.len());
    assert(views[0] == protocols@[0]@);
    assert forall|c: int| #![trigger chains@[c]] 0 <= c < chains@.len() implies {
        &&& protocols@[4 * c + 1].name@ == "/"@ + chains@[c].protocol_id@ + "/sync/2"@
        &&& protocols@[4 * c + 1].max_request_size == 1024
        &&& protocols@[4 * c + 1].max_response_size == 10485760
        &&& protocols@[4 * c + 1].inbound_allowed
        &&& protocols@[4 * c + 2].name@ == "/"@ + chains@[c].protocol_id@ + "/light/2"@
        &&& protocols@[4 * c + 2].max_request_size == 524288
        &&& protocols@[4 * c + 2].max_response_size == 10485760
        &&& protocols@[4 * c + 2].inbound_allowed
        &&& protocols@[4 * c + 3].name@ == "/"@ + chains@[c].protocol_id@ + "/kad"@
        &&& protocols@[4 * c + 3].max_request_size == 1024
        &&& protocols@[4 * c + 3].max_response_size == 1048576
        &&& !protocols@[4 * c + 3].inbound_allowed
        &&& protocols@[4 * c + 4].name@ == "/"@ + chains@[c].protocol_id@ + "/sync/warp"@
        &&& protocols@[4 * c + 4].max_request_size == 1048576
        &&& protocols@[4 * c + 4].max_response_size == 16777216
        &&& !protocols@[4 * c + 4].inbound_allowed
    } by {
        assert(views[4 * c + 1] == protocols@[4 * c + 1]@);
        assert(views[4 * c + 2] == protocols@[4 * c + 2]@);
        assert(views[4 * c + 3] == protocols@[4 * c + 3]@);
        assert(views[4 * c + 4] == protocols@[4 * c + 4]@);
    }
}

/// A new service takes part in the configured chains, in their order, and has nothing to accept.
/// The connection layer is given the protocols of these chains, and the rest of the configuration
/// as it is.
pub proof fn law_new_hands_configuration_on<TPeer, TNoiseKey>(
    config: Config<TPeer, TNoiseKey>,
    network: ChainNetwork,
    network_config: NetworkConfig<TPeer, TNoiseKey>,
    num_chains: usize,
    overlays: Vec<OverlayNetwork>,
    protocols: Vec<ConfigRequestResponse>,
)
    requires
        call_ensures(
            ChainNetwork::new::<TPeer, TNoiseKey>,
            (config,),
            (network, network_config),
        ),
        call_ensures(ChainNetwork::num_chains, (&network,), num_chains),
        call_ensures(build_overlay_networks, (&config.chains,), overlays),
        call_ensures(build_request_response_protocols, (&config.chains,), protocols),
    ensures
        network.chains() == config.chains@,
        network.pending() is None,
        num_chains == config.chains@.len(),
        network_config.known_nodes == config.known_nodes,
        network_config.listen_addresses == config.listen_addresses,
        network_config.noise_key == config.noise_key,
        network_config.randomness_seed == config.randomness_seed,
        network_config.pending_api_events_buffer_size == config.pending_api_events_buffer_size,
        network_config.ping_protocol@ == "/ipfs/ping/1.0.0"@,
        network_config.overlay_networks@.map_values(|overlay: OverlayNetwork| overlay@)
            == overlays@.map_values(|overlay: OverlayNetwork| overlay@),
        network_config.request_response_protocols@.map_values(
            |protocol: ConfigRequestResponse| protocol@,
        ) == protocols@.map_values(|protocol: ConfigRequestResponse| protocol@),
{
}

/// The notifications protocols that a new service registers have the slots, the bootstrap nodes
/// and the name of their chain.
pub proof fn law_new_registers_overlay_networks<TPeer, TNoiseKey>(
    config: Config<TPeer, TNoiseKey>,
    network: ChainNetwork,
    network_config: NetworkConfig<TPeer, TNoiseKey>,
    i: int,
)
    requires
        call_ensures(
            ChainNetwork::new::<TPeer, TNoiseKey>,
            (config,),
            (network, network_config),
        ),
        0 <= i < network_config.overlay_networks@.len(),
    ensures
        network_config.overlay_networks@.len() == 2 * config.chains@.len(),
        network_config.overlay_networks@[i].in_slots == config.chains@[i / 2].in_slots,
        network_config.overlay_networks@[i].out_slots == config.chains@[i / 2].out_slots,
        network_config.overlay_networks@[i].bootstrap_nodes@
            == config.chains@[i / 2].bootstrap_nodes@,
        network_config.overlay_networks@[i].protocol_name@ == "/"@
            + config.chains@[i / 2].protocol_id@ + (if i % 2 == 0 {
            "/block-announces/1"@
        } else {
            "/transactions/1"@
        }),
        network_config.overlay_networks@[i].fallback_protocol_names@.len() == 0,
        network_config.overlay_networks@[i].max_handshake_size == 256,
        network_config.overlay_networks@[i].max_notification_size == 32768,
{
    let overlays = network_config.overlay_networks@;
    let views = overlays.map_values(|overlay: OverlayNetwork| overlay@);
    assert(views.len() == overlays.len());
    assert(views[i] == overlays[i]@);
    assert(overlays[i]@.fallback_protocol_names.len()
        == overlays[i].fallback_protocol_names@.len());
}

/// The index that a new service uses for a protocol of a chain is the one under which this protocol
/// has been registered, with the name of the chain and the sizes of the protocol.
pub proof fn law_new_registers_request_response_protocols<TPeer, TNoiseKey>(
    config: Config<TPeer, TNoiseKey>,
    network: ChainNetwork,
    network_config: NetworkConfig<TPeer, TNoiseKey>,
    chain_index: usize,
    protocol: usize,
    index: usize,
)
    requires
        call_ensures(
            ChainNetwork::new::<TPeer, TNoiseKey>,
            (config,),
            (network, network_config),
        ),
        call_ensures(ChainNetwork::protocol_index, (&network, chain_index, protocol), index),
        chain_index < config.chains@.len(),
        protocol < 4,
    ensures
        network_config.request_response_protocols@.len() == 1 + 4 * config.chains@.len(),
        index < network_config.request_response_protocols@.len(),
        index == 1 + 4 * chain_index + protocol,
        ({
            let entry = network_config.request_response_protocols@[index as int];
            let name = "/"@ + config.chains@[chain_index as int].protocol_id@;
            &&& protocol == 0 ==> entry.name@ == name + "/sync/2"@ && entry.max_request_size == 1024
                && entry.max_response_size == 10485760 && entry.inbound_allowed
            &&& protocol == 1 ==> entry.name@ == name + "/light/2"@ && entry.max_request_size
                == 524288 && entry.max_response_size == 10485760 && entry.inbound_allowed
            &&& protocol == 2 ==> entry.name@ == name + "/kad"@ && entry.max_request_size == 1024
                && entry.max_response_size == 1048576 && !entry.inbound_allowed
            &&& protocol == 3 ==> entry.name@ == name + "/sync/warp"@ && entry.max_request_size
                == 1048576 && entry.max_response_size == 16777216 && !entry.inbound_allowed
        }),
        network_config.request_response_protocols@[0].name@ == "/ipfs/id/1.0.0"@,
        network_config.request_response_protocols@[0].max_request_size == 8,
        network_config.request_response_protocols@[0].max_response_size == 4096,
        !network_config.request_response_protocols@[0].inbound_allowed,
{
    let protocols = network_config.request_response_protocols@;
    let views = protocols.map_values(|protocol: ConfigRequestResponse| protocol@);
    assert(views.len() == protocols.len());
    assert(views[index as int] == protocols[index as int]@);
    assert(views[0] == protocols[0]@);
}

/// The index of a protocol of a chain, for any chain and any protocol for which it fits.
pub proof fn law_protocol_index_formula(
    network: ChainNetwork,
    chain_index: usize,
    protocol: usize,
    index: usize,
)
    ensures
        1 + 4 * chain_index + protocol <= usize::MAX ==> call_requires(
            ChainNetwork::protocol_index,
            (&network, chain_index, protocol),
        ),
        call_ensures(ChainNetwork::protocol_index, (&network, chain_index, protocol), index)
            ==> index == 1 + 4 * chain_index + protocol,
{
}

/// A service can be made of any configuration with a buffer for events.
pub proof fn law_new_accepts_any_chains<TPeer, TNoiseKey>(config: Config<TPeer, TNoiseKey>)
    requires
        config.pending_api_events_buffer_size > 0,
    ensures
        call_requires(ChainNetwork::new::<TPeer, TNoiseKey>, (config,)),
{
}

} // verus!
