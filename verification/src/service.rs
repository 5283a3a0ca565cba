//! The service itself.

use vstd::prelude::*;
use vstd::string::StringExecFns;

use crate::announce::EncodedBlockAnnounce;
use crate::bytes::{decode_valid, decodes_to, duplicate, is_valid};
use crate::codecs::{encode_local_handshake, local_handshake, sends_handshake, Codecs};
use crate::config::{
    build_overlay_networks, build_request_response_protocols, overlay_networks, protocol_index,
    request_response_protocols, ChainConfig, Config, ConfigRequestResponse, NetworkConfig,
    OverlayNetwork, PROTOCOLS_PER_CHAIN,
};
use crate::event::{
    announced_chains, chain_of, find_announced_chains, is_block_announces, Event, Input,
    NetworkEvent, OutboundSubstream, Step, SubstreamChange,
};
use crate::substream::{NextSubstream, SubstreamOpen};
use crate::types::{BlockAnnouncesHandshake, PeerId, PendingId};

verus! {

/// Inbound substream that has to be accepted.
struct PendingAccept {
    id: usize,
    overlay_network_index: usize,
    handshake: Vec<u8>,
}

/// Inbound substream that has to be accepted, and the handshake to accept it with.
pub struct PendingAcceptView {
    pub id: usize,
    pub overlay_network_index: usize,
    pub handshake: Seq<u8>,
}

/// State of the service that outlives a single call.
pub struct ChainNetwork {
    /// See [`Config::chains`].
    chains: Vec<ChainConfig>,
    /// Inbound substream that has been requested by the remote, from the moment it is received
    /// until it has been accepted. It is kept here so that it isn't lost if the user gives up on
    /// waiting for an event.
    pending_in_accept: Option<PendingAccept>,
}

impl ChainNetwork {
    /// Chains that the service takes part in.
    pub closed spec fn chains(self) -> Seq<ChainConfig> {
        self.chains@
    }

    /// Inbound substream that has to be accepted before anything else happens.
    pub closed spec fn pending(self) -> Option<PendingAcceptView> {
        match self.pending_in_accept {
            Some(pending) => Some(
                PendingAcceptView {
                    id: pending.id,
                    overlay_network_index: pending.overlay_network_index,
                    handshake: pending.handshake@,
                },
            ),
            None => None,
        }
    }

    /// Whether a notifications protocol belongs to one of the chains.
    pub open spec fn has_overlay_network(self, overlay_network_index: usize) -> bool {
        chain_of(overlay_network_index) < self.chains().len()
    }

    /// A substream that has to be accepted is either a block announces substream of one of the
    /// chains, or gets an empty handshake.
    pub open spec fn wf(self) -> bool {
        self.pending() matches Some(pending) ==> if is_block_announces(
            pending.overlay_network_index,
        ) {
            self.has_overlay_network(pending.overlay_network_index)
        } else {
            pending.handshake.len() == 0
        }
    }

    /// Whether the input can be handled: what the remote sends on block announces substreams is
    /// valid, and inbound block announces substreams are about one of the chains, whose handshake
    /// can be encoded.
    pub open spec fn handles<
        E,
        A,
        AE,
        F: Fn(&[u8]) -> Result<BlockAnnouncesHandshake, E>,
        G: Fn(BlockAnnouncesHandshake) -> Vec<Vec<u8>>,
        H: Fn(&[u8]) -> Result<A, AE>,
    >(self, input: Input, codecs: Codecs<F, G, H>) -> bool {
        match input {
            Input::Network(
                NetworkEvent::NotificationsOutAccept { overlay_network_index, remote_handshake, .. },
            ) => is_block_announces(overlay_network_index) ==> is_valid(
                codecs.decode_handshake,
                remote_handshake@,
            ),
            Input::Network(
                NetworkEvent::NotificationsInOpen { overlay_network_index, remote_handshake, .. },
            ) => is_block_announces(overlay_network_index) ==> {
                &&& is_valid(codecs.decode_handshake, remote_handshake@)
                &&& self.has_overlay_network(overlay_network_index)
                &&& codecs.encode_handshake.requires(
                    (local_handshake(self.chains()[chain_of(overlay_network_index) as int]),),
                )
            },
            Input::Network(
                NetworkEvent::NotificationsIn { overlay_network_index, notification, .. },
            ) => is_block_announces(overlay_network_index) ==> is_valid(
                codecs.decode_announce,
                notification@,
            ),
            _ => true,
        }
    }

    /// Whether `step` is what has to be done next when there is nothing to answer to: accept the
    /// substream that waits for it, if any, or else wait for the connection layer.
    pub open spec fn resumes_with(self, step: Step) -> bool {
        match self.pending() {
            Some(pending) => step matches Step::AcceptNotificationsIn {
                id,
                overlay_network_index,
                handshake,
            } && id == pending.id && overlay_network_index == pending.overlay_network_index
                && handshake@ == pending.handshake,
            None => step == Step::PollNetwork,
        }
    }

    /// Whether the service, in state `self` and given `event` by the connection layer, goes to the
    /// state `after` and asks for `step`.
    pub open spec fn reacts<
        E,
        A,
        AE,
        F: Fn(&[u8]) -> Result<BlockAnnouncesHandshake, E>,
        G: Fn(BlockAnnouncesHandshake) -> Vec<Vec<u8>>,
        H: Fn(&[u8]) -> Result<A, AE>,
    >(
        self,
        event: NetworkEvent,
        codecs: Codecs<F, G, H>,
        after: Self,
        step: Step,
    ) -> bool {
        match event {
            NetworkEvent::Connected(peer_id) => {
                &&& after.pending() == self.pending()
                &&& step == (Step::Return { event: Event::Connected(peer_id), wake_substreams: true })
            },
            NetworkEvent::Disconnected { peer_id, out_overlay_network_indices } => {
                &&& after.pending() == self.pending()
                &&& step matches Step::Return {
                    event: Event::Disconnected { peer_id: reported, chain_indices },
                    wake_substreams,
                }
                &&& reported == peer_id
                &&& chain_indices@ == announced_chains(out_overlay_network_indices@)
                &&& !wake_substreams
            },
            NetworkEvent::StartConnect { id, multiaddr } => {
                &&& after.pending() == self.pending()
                &&& step == (Step::Return {
                    event: Event::StartConnect { id: PendingId(id), multiaddr },
                    wake_substreams: false,
                })
            },
            NetworkEvent::NotificationsOutAccept { id, overlay_network_index, remote_handshake } => {
                &&& after.pending() == self.pending()
                &&& if is_block_announces(overlay_network_index) {
                    &&& step matches Step::IdentifyPeer { outbound }
                    &&& outbound.id == id
                    &&& outbound.chain_index == chain_of(overlay_network_index)
                    &&& outbound.change matches SubstreamChange::Opened(handshake)
                    &&& decodes_to(
                        codecs.decode_handshake,
                        remote_handshake@,
                        Ok::<BlockAnnouncesHandshake, E>(handshake),
                    )
                } else {
                    after.resumes_with(step)
                }
            },
            NetworkEvent::NotificationsOutReject { .. } => {
                &&& after.pending() == self.pending()
                &&& after.resumes_with(step)
            },
            NetworkEvent::NotificationsOutClose { id, overlay_network_index } => {
                &&& after.pending() == self.pending()
                &&& if is_block_announces(overlay_network_index) {
                    step == (Step::IdentifyPeer {
                        outbound: OutboundSubstream {
                            id,
                            chain_index: chain_of(overlay_network_index),
                            change: SubstreamChange::Closed,
                        },
                    })
                } else {
                    after.resumes_with(step)
                }
            },
            NetworkEvent::NotificationsInOpen { id, overlay_network_index, .. } => {
                &&& after.pending() matches Some(pending)
                &&& pending.id == id
                &&& pending.overlay_network_index == overlay_network_index
                &&& sends_handshake(
                    self.chains(),
                    overlay_network_index,
                    codecs.encode_handshake,
                    pending.handshake,
                )
                &&& after.resumes_with(step)
            },
            NetworkEvent::NotificationsIn { peer_id, overlay_network_index, notification, .. } => {
                &&& after.pending() == self.pending()
                &&& if is_block_announces(overlay_network_index) {
                    &&& step matches Step::Return {
                        event: Event::BlockAnnounce { chain_index, peer_id: reported, announce },
                        wake_substreams,
                    }
                    &&& chain_index == chain_of(overlay_network_index)
                    &&& reported == peer_id
                    &&& announce@ == notification@
                    &&& !wake_substreams
                } else {
                    after.resumes_with(step)
                }
            },
        }
    }

    /// Event that is reported once the peer of a substream is known.
    pub open spec fn reported_change(outbound: OutboundSubstream, peer_id: PeerId) -> Event {
        match outbound.change {
            SubstreamChange::Opened(handshake) => Event::ChainConnected {
                chain_index: outbound.chain_index,
                peer_id,
                role: handshake.role,
                best_number: handshake.best_number,
                best_hash: handshake.best_hash,
            },
            SubstreamChange::Closed => Event::ChainDisconnected {
                chain_index: outbound.chain_index,
                peer_id,
            },
        }
    }

    /// Whether the service, in state `self` and given `input`, goes to the state `after` and asks
    /// for `step`.
    pub open spec fn transitions<
        E,
        A,
        AE,
        F: Fn(&[u8]) -> Result<BlockAnnouncesHandshake, E>,
        G: Fn(BlockAnnouncesHandshake) -> Vec<Vec<u8>>,
        H: Fn(&[u8]) -> Result<A, AE>,
    >(
        self,
        input: Input,
        codecs: Codecs<F, G, H>,
        after: Self,
        step: Step,
    ) -> bool {
        &&& after.chains() == self.chains()
        &&& match input {
            Input::Resume => {
                &&& after.pending() == self.pending()
                &&& after.resumes_with(step)
            },
            Input::Accepted => {
                &&& after.pending() is None
                &&& after.resumes_with(step)
            },
            Input::Network(event) => self.reacts(event, codecs, after, step),
            Input::PeerIdentified { outbound, peer_id } => {
                &&& after.pending() == self.pending()
                &&& step == (Step::Return {
                    event: Self::reported_change(outbound, peer_id),
                    wake_substreams: false,
                })
            },
        }
    }

    /// Initializes a new [`ChainNetwork`], and returns with it the configuration of the connection
    /// layer that it relies on.
    pub fn new<TPeer, TNoiseKey>(config: Config<TPeer, TNoiseKey>) -> (result: (
        Self,
        NetworkConfig<TPeer, TNoiseKey>,
    ))
        requires
            config.pending_api_events_buffer_size > 0,
        ensures
            result.0.wf(),
            result.0.chains() == config.chains@,
            result.0.pending() is None,
            result.1.known_nodes == config.known_nodes,
            result.1.listen_addresses == config.listen_addresses,
            result.1.request_response_protocols@.map_values(
                |protocol: ConfigRequestResponse| protocol@,
            ) == request_response_protocols(config.chains@),
            result.1.noise_key == config.noise_key,
            result.1.randomness_seed == config.randomness_seed,
            result.1.pending_api_events_buffer_size == config.pending_api_events_buffer_size,
            result.1.overlay_networks@.map_values(|overlay: OverlayNetwork| overlay@)
                == overlay_networks(config.chains@),
            result.1.ping_protocol@ == "/ipfs/ping/1.0.0"@,
    {
        let overlay_networks = build_overlay_networks(&config.chains);
        let request_response_protocols = build_request_response_protocols(&config.chains);
        (
            ChainNetwork { chains: config.chains, pending_in_accept: None },
            NetworkConfig {
                known_nodes: config.known_nodes,
                listen_addresses: config.listen_addresses,
                request_response_protocols,
                noise_key: config.noise_key,
                randomness_seed: config.randomness_seed,
                pending_api_events_buffer_size: config.pending_api_events_buffer_size,
                overlay_networks,
                ping_protocol: String::from_str("/ipfs/ping/1.0.0"),
            },
        )
    }

    /// Returns the number of chains.
    pub fn num_chains(&self) -> (num_chains: usize)
        ensures
            num_chains == self.chains().len(),
    {
        self.chains.len()
    }

    /// Returns the index under which the connection layer knows a request-response protocol.
    pub fn protocol_index(&self, chain_index: usize, protocol: usize) -> (index: usize)
        requires
            protocol_index(chain_index as int, protocol as int) <= usize::MAX,
        ensures
            index == protocol_index(chain_index as int, protocol as int),
    {
        1 + chain_index * PROTOCOLS_PER_CHAIN + protocol
    }

    /// What has to be done next when there is nothing to answer to.
    fn resume(&self) -> (step: Step)
        ensures
            self.resumes_with(step),
    {
        match &self.pending_in_accept {
            Some(pending) => Step::AcceptNotificationsIn {
                id: pending.id,
                overlay_network_index: pending.overlay_network_index,
                handshake: duplicate(&pending.handshake),
            },
            None => Step::PollNetwork,
        }
    }

    /// Reaction to an event of the connection layer.
    fn react<
        E,
        A,
        AE,
        F: Fn(&[u8]) -> Result<BlockAnnouncesHandshake, E>,
        G: Fn(BlockAnnouncesHandshake) -> Vec<Vec<u8>>,
        H: Fn(&[u8]) -> Result<A, AE>,
    >(&mut self, event: NetworkEvent, codecs: &Codecs<F, G, H>) -> (step: Step)
        requires
            old(self).handles(Input::Network(event), *codecs),
        ensures
            old(self).wf() ==> final(self).wf(),
            final(self).chains() == old(self).chains(),
            old(self).reacts(event, *codecs, *final(self), step),
    {
        match event {
            NetworkEvent::Connected(peer_id) => Step::Return {
                event: Event::Connected(peer_id),
                wake_substreams: true,
            },
            NetworkEvent::Disconnected { peer_id, out_overlay_network_indices } => {
                let chain_indices = find_announced_chains(&out_overlay_network_indices);
                Step::Return {
                    event: Event::Disconnected { peer_id, chain_indices },
                    wake_substreams: false,
                }
            },
            NetworkEvent::StartConnect { id, multiaddr } => Step::Return {
                event: Event::StartConnect { id: PendingId(id), multiaddr },
                wake_substreams: false,
            },
            NetworkEvent::NotificationsOutAccept { id, overlay_network_index, remote_handshake } => {
                if overlay_network_index % 2 == 0 {
                    let handshake = decode_valid(&codecs.decode_handshake, &remote_handshake);
                    Step::IdentifyPeer {
                        outbound: OutboundSubstream {
                            id,
                            chain_index: overlay_network_index / 2,
                            change: SubstreamChange::Opened(handshake),
                        },
                    }
                } else {
                    self.resume()
                }
            },
            NetworkEvent::NotificationsOutReject { .. } => self.resume(),
            NetworkEvent::NotificationsOutClose { id, overlay_network_index } => {
                if overlay_network_index % 2 == 0 {
                    Step::IdentifyPeer {
                        outbound: OutboundSubstream {
                            id,
                            chain_index: overlay_network_index / 2,
                            change: SubstreamChange::Closed,
                        },
                    }
                } else {
                    self.resume()
                }
            },
            NetworkEvent::NotificationsInOpen { id, overlay_network_index, remote_handshake } => {
                let handshake: Vec<u8> = if overlay_network_index % 2 == 0 {
                    let _ = decode_valid(&codecs.decode_handshake, &remote_handshake);
                    encode_local_handshake(
                        &self.chains[overlay_network_index / 2],
                        &codecs.encode_handshake,
                    )
                } else {
                    Vec::new()
                };
                self.pending_in_accept = Some(
                    PendingAccept { id, overlay_network_index, handshake },
                );
                self.resume()
            },
            NetworkEvent::NotificationsIn { id: _, peer_id, overlay_network_index, notification } => {
                if overlay_network_index % 2 == 0 {
                    let _ = decode_valid(&codecs.decode_announce, &notification);
                    Step::Return {
                        event: Event::BlockAnnounce {
                            chain_index: overlay_network_index / 2,
                            peer_id,
                            announce: EncodedBlockAnnounce::new(notification),
                        },
                        wake_substreams: false,
                    }
                } else {
                    self.resume()
                }
            },
        }
    }

    /// Works towards the next event of the service.
    ///
    /// The first call is made with [`Input::Resume`]. Each call says in return what has to be done
    /// and reported with the next call, until the event is there.
    ///
    /// Only one user at a time should wait for an event: some events have logic attached to the
    /// order in which they are produced, and if several users wait simultaneously, the events are
    /// distributed amongst them in an unspecified way.
    pub fn next_event<
        E,
        A,
        AE,
        F: Fn(&[u8]) -> Result<BlockAnnouncesHandshake, E>,
        G: Fn(BlockAnnouncesHandshake) -> Vec<Vec<u8>>,
        H: Fn(&[u8]) -> Result<A, AE>,
    >(&mut self, input: Input, codecs: &Codecs<F, G, H>) -> (step: Step)
        requires
            old(self).handles(input, *codecs),
        ensures
            old(self).wf() ==> final(self).wf(),
            old(self).transitions(input, *codecs, *final(self), step),
    {
        match input {
            Input::Resume => self.resume(),
            Input::Accepted => {
                self.pending_in_accept = None;
                self.resume()
            },
            Input::Network(event) => self.react(event, codecs),
            Input::PeerIdentified { outbound, peer_id } => {
                let event = match outbound.change {
                    SubstreamChange::Opened(handshake) => Event::ChainConnected {
                        chain_index: outbound.chain_index,
                        peer_id,
                        role: handshake.role,
                        best_number: handshake.best_number,
                        best_hash: handshake.best_hash,
                    },
                    SubstreamChange::Closed => Event::ChainDisconnected {
                        chain_index: outbound.chain_index,
                        peer_id,
                    },
                };
                Step::Return { event, wake_substreams: false }
            },
        }
    }

    /// Looks at whether a connection is in a state in which a substream can be opened.
    ///
    /// `opened` is the notifications protocol of the next substream that the connection layer can
    /// open, if there is one.
    pub fn next_substream(&self, opened: Option<usize>) -> (next: NextSubstream<'_>)
        ensures
            match opened {
                Some(overlay_network_index) => {
                    &&& next matches NextSubstream::Open(substream)
                    &&& substream.overlay_network_index == overlay_network_index
                    &&& substream.chains@ == self.chains()
                },
                None => next == NextSubstream::Wait,
            },
    {
        match opened {
            Some(overlay_network_index) => NextSubstream::Open(
                SubstreamOpen { overlay_network_index, chains: &self.chains },
            ),
            None => NextSubstream::Wait,
        }
    }
}

} // verus!
