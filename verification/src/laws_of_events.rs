//! What holds of the events of the service, and of the order in which things happen.
//!
//! The laws speak of what the functions return: `call_ensures(f, args, result)` says that `result`
//! is something that `f` returns on `args`. Where `f` changes the service, `old` is the service
//! before the call and `final` is the service after it.

use vstd::prelude::*;

use crate::announce::EncodedBlockAnnounce;
use crate::codecs::{encode_local_handshake, Codecs};
use crate::config::{ChainConfig, Config, NetworkConfig};
use crate::event::{
    announced_chains, find_announced_chains, is_block_announces, Event, Input, NetworkEvent,
    OutboundSubstream, Step, SubstreamChange,
};
use crate::service::ChainNetwork;
use crate::substream::{NextSubstream, SubstreamOpen};
use crate::types::{BlockAnnouncesHandshake, Multiaddr, PeerId};

verus! {

/// A connection is reported as it is, and lets substreams be opened.
pub proof fn law_connection_reported<
    E,
    A,
    AE,
    F: Fn(&[u8]) -> Result<BlockAnnouncesHandshake, E>,
    G: Fn(BlockAnnouncesHandshake) -> Vec<Vec<u8>>,
    H: Fn(&[u8]) -> Result<A, AE>,
>(
    network: &mut ChainNetwork,
    peer_id: PeerId,
    codecs: Codecs<F, G, H>,
    step: Step,
)
    requires
        call_ensures(
            ChainNetwork::next_event::<E, A, AE, F, G, H>,
            (network, Input::Network(NetworkEvent::Connected(peer_id)), &codecs),
            step,
        ),
    ensures
        step == (Step::Return { event: Event::Connected(peer_id), wake_substreams: true }),
        final(network).chains() == old(network).chains(),
        final(network).pending() == old(network).pending(),
{
}

/// A disconnection is always reported, for the peer that has disconnected, also where the peer was
/// part of no chain. It is reported with exactly the chains whose block announces protocol is in
/// the list, and these are the ones that are found in the list.
pub proof fn law_disconnection_reported<
    E,
    A,
    AE,
    F: Fn(&[u8]) -> Result<BlockAnnouncesHandshake, E>,
    G: Fn(BlockAnnouncesHandshake) -> Vec<Vec<u8>>,
    H: Fn(&[u8]) -> Result<A, AE>,
>(
    network: &mut ChainNetwork,
    peer_id: PeerId,
    out_overlay_network_indices: Vec<usize>,
    codecs: Codecs<F, G, H>,
    step: Step,
)
    requires
        call_ensures(
            ChainNetwork::next_event::<E, A, AE, F, G, H>,
            (
                network,
                Input::Network(
                    NetworkEvent::Disconnected { peer_id, out_overlay_network_indices },
                ),
                &codecs,
            ),
            step,
        ),
    ensures
        match step {
            Step::Return {
                event: Event::Disconnected { peer_id: reported, chain_indices },
                wake_substreams,
            } => {
                &&& reported == peer_id
                &&& !wake_substreams
                &&& forall|found: Vec<usize>| #[trigger]
                    call_ensures(find_announced_chains, (&out_overlay_network_indices,), found)
                        ==> chain_indices@ == found@
                &&& forall|chain_index: usize| #[trigger]
                    chain_indices@.contains(chain_index) <==> exists|i: int|
                        0 <= i < out_overlay_network_indices@.len()
                            && #[trigger] out_overlay_network_indices@[i] == 2 * chain_index
            },
            _ => false,
        },
        final(network).chains() == old(network).chains(),
        final(network).pending() == old(network).pending(),
{
    lemma_members_announced(out_overlay_network_indices@);
}

/// An address to connect to is reported as it is.
pub proof fn law_start_connect_reported<
    E,
    A,
    AE,
    F: Fn(&[u8]) -> Result<BlockAnnouncesHandshake, E>,
    G: Fn(BlockAnnouncesHandshake) -> Vec<Vec<u8>>,
    H: Fn(&[u8]) -> Result<A, AE>,
>(
    network: &mut ChainNetwork,
    id: usize,
    multiaddr: Multiaddr,
    codecs: Codecs<F, G, H>,
    step: Step,
)
    requires
        call_ensures(
            ChainNetwork::next_event::<E, A, AE, F, G, H>,
            (network, Input::Network(NetworkEvent::StartConnect { id, multiaddr }), &codecs),
            step,
        ),
    ensures
        match step {
            Step::Return {
                event: Event::StartConnect { id: reported, multiaddr: address },
                wake_substreams,
            } => reported.0 == id && address == multiaddr && !wake_substreams,
            _ => false,
        },
        final(network).chains() == old(network).chains(),
        final(network).pending() == old(network).pending(),
{
}

/// An outbound block announces substream that the remote accepts has its peer identified, with the
/// chain of the substream and the handshake that the bytes of the remote hold.
pub proof fn law_accepted_substream_identified<
    E,
    A,
    AE,
    F: Fn(&[u8]) -> Result<BlockAnnouncesHandshake, E>,
    G: Fn(BlockAnnouncesHandshake) -> Vec<Vec<u8>>,
    H: Fn(&[u8]) -> Result<A, AE>,
>(
    network: &mut ChainNetwork,
    id: usize,
    overlay_network_index: usize,
    remote_handshake: Vec<u8>,
    codecs: Codecs<F, G, H>,
    step: Step,
)
    requires
        call_ensures(
            ChainNetwork::next_event::<E, A, AE, F, G, H>,
            (
                network,
                Input::Network(
                    NetworkEvent::NotificationsOutAccept {
                        id,
                        overlay_network_index,
                        remote_handshake,
                    },
                ),
                &codecs,
            ),
            step,
        ),
        overlay_network_index % 2 == 0,
    ensures
        match step {
            Step::IdentifyPeer { outbound } => {
                &&& outbound.id == id
                &&& outbound.chain_index == overlay_network_index / 2
                &&& match outbound.change {
                    SubstreamChange::Opened(handshake) => exists|slice: &[u8]|
                        slice@ == remote_handshake@ && #[trigger] codecs.decode_handshake.ensures(
                            (slice,),
                            Ok::<BlockAnnouncesHandshake, E>(handshake),
                        ),
                    SubstreamChange::Closed => false,
                }
            },
            _ => false,
        },
        final(network).chains() == old(network).chains(),
        final(network).pending() == old(network).pending(),
{
}

/// An outbound block announces substream that is closed has its peer identified.
pub proof fn law_closed_substream_identified<
    E,
    A,
    AE,
    F: Fn(&[u8]) -> Result<BlockAnnouncesHandshake, E>,
    G: Fn(BlockAnnouncesHandshake) -> Vec<Vec<u8>>,
    H: Fn(&[u8]) -> Result<A, AE>,
>(
    network: &mut ChainNetwork,
    id: usize,
    overlay_network_index: usize,
    codecs: Codecs<F, G, H>,
    step: Step,
)
    requires
        call_ensures(
            ChainNetwork::next_event::<E, A, AE, F, G, H>,
            (
                network,
                Input::Network(
                    NetworkEvent::NotificationsOutClose { id, overlay_network_index },
                ),
                &codecs,
            ),
            step,
        ),
        overlay_network_index % 2 == 0,
    ensures
        match step {
            Step::IdentifyPeer { outbound } => {
                &&& outbound.id == id
                &&& outbound.chain_index == overlay_network_index / 2
                &&& outbound.change is Closed
            },
            _ => false,
        },
        final(network).chains() == old(network).chains(),
        final(network).pending() == old(network).pending(),
{
}

/// Once its peer is identified, a substream that has been opened is reported with what the
/// handshake holds, and a substream that has been closed is reported too.
pub proof fn law_identified_peer_reported<
    E,
    A,
    AE,
    F: Fn(&[u8]) -> Result<BlockAnnouncesHandshake, E>,
    G: Fn(BlockAnnouncesHandshake) -> Vec<Vec<u8>>,
    H: Fn(&[u8]) -> Result<A, AE>,
>(
    network: &mut ChainNetwork,
    outbound: OutboundSubstream,
    peer_id: PeerId,
    codecs: Codecs<F, G, H>,
    step: Step,
)
    requires
        call_ensures(
            ChainNetwork::next_event::<E, A, AE, F, G, H>,
            (network, Input::PeerIdentified { outbound, peer_id }, &codecs),
            step,
        ),
    ensures
        match (outbound.change, step) {
            (
                SubstreamChange::Opened(handshake),
                Step::Return {
                    event: Event::ChainConnected {
                        chain_index,
                        peer_id: reported,
                        role,
                        best_number,
                        best_hash,
                    },
                    wake_substreams,
                },
            ) => {
                &&& chain_index == outbound.chain_index
                &&& reported == peer_id
                &&& role == handshake.role
                &&& best_number == handshake.best_number
                &&& best_hash == handshake.best_hash
                &&& !wake_substreams
            },
            (
                SubstreamChange::Closed,
                Step::Return {
                    event: Event::ChainDisconnected { chain_index, peer_id: reported },
                    wake_substreams,
                },
            ) => chain_index == outbound.chain_index && reported == peer_id && !wake_substreams,
            _ => false,
        },
        final(network).chains() == old(network).chains(),
        final(network).pending() == old(network).pending(),
{
}

/// A block announce is reported for the peer that has sent it and the chain of the substream, and
/// is decoded from the bytes of the notification.
pub proof fn law_block_announce_reported<
    E,
    A,
    AE,
    F: Fn(&[u8]) -> Result<BlockAnnouncesHandshake, E>,
    G: Fn(BlockAnnouncesHandshake) -> Vec<Vec<u8>>,
    H: Fn(&[u8]) -> Result<A, AE>,
>(
    network: &mut ChainNetwork,
    id: usize,
    peer_id: PeerId,
    overlay_network_index: usize,
    notification: Vec<u8>,
    codecs: Codecs<F, G, H>,
    step: Step,
)
    requires
        call_ensures(
            ChainNetwork::next_event::<E, A, AE, F, G, H>,
            (
                network,
                Input::Network(
                    NetworkEvent::NotificationsIn {
                        id,
                        peer_id,
                        overlay_network_index,
                        notification,
                    },
                ),
                &codecs,
            ),
            step,
        ),
        overlay_network_index % 2 == 0,
    ensures
        match step {
            Step::Return {
                event: Event::BlockAnnounce { chain_index, peer_id: reported, announce },
                wake_substreams,
            } => {
                &&& chain_index == overlay_network_index / 2
                &&& reported == peer_id
                &&& announce@ == notification@
                &&& !wake_substreams
                &&& forall|decoded: A| #[trigger]
                    call_ensures(
                        EncodedBlockAnnounce::decode::<A, AE, H>,
                        (&announce, codecs.decode_announce),
                        decoded,
                    ) ==> exists|slice: &[u8]|
                        slice@ == notification@ && #[trigger] codecs.decode_announce.ensures(
                            (slice,),
                            Ok::<A, AE>(decoded),
                        )
            },
            _ => false,
        },
        final(network).chains() == old(network).chains(),
        final(network).pending() == old(network).pending(),
{
}

/// An inbound substream is accepted right away. For block announces, the handshake is what the
/// encoder makes of the best block, the genesis block and the role that the chain is configured
/// with. For transactions, the handshake is empty.
pub proof fn law_inbound_substream_accepted<
    E,
    A,
    AE,
    F: Fn(&[u8]) -> Result<BlockAnnouncesHandshake, E>,
    G: Fn(BlockAnnouncesHandshake) -> Vec<Vec<u8>>,
    H: Fn(&[u8]) -> Result<A, AE>,
>(
    network: &mut ChainNetwork,
    id: usize,
    overlay_network_index: usize,
    remote_handshake: Vec<u8>,
    codecs: Codecs<F, G, H>,
    step: Step,
)
    requires
        call_ensures(
            ChainNetwork::next_event::<E, A, AE, F, G, H>,
            (
                network,
                Input::Network(
                    NetworkEvent::NotificationsInOpen {
                        id,
                        overlay_network_index,
                        remote_handshake,
                    },
                ),
                &codecs,
            ),
            step,
        ),
    ensures
        match step {
            Step::AcceptNotificationsIn {
                id: accepted,
                overlay_network_index: accepted_index,
                handshake: bytes,
            } => {
                &&& accepted == id
                &&& accepted_index == overlay_network_index
                &&& overlay_network_index % 2 != 0 ==> bytes@.len() == 0
                &&& overlay_network_index % 2 == 0 ==> {
                    let chain = old(network).chains()[overlay_network_index as int / 2];
                    exists|handshake: BlockAnnouncesHandshake, chunks: Vec<Vec<u8>>| #[trigger]
                        codecs.encode_handshake.ensures((handshake,), chunks)
                            && handshake.best_hash == chain.best_hash && handshake.best_number
                            == chain.best_number && handshake.genesis_hash == chain.genesis_hash
                            && handshake.role == chain.role && bytes@ == chunks@.map_values(
                            |chunk: Vec<u8>| chunk@,
                        ).flatten()
                }
                &&& match final(network).pending() {
                    Some(pending) => {
                        &&& pending.id == id
                        &&& pending.overlay_network_index == overlay_network_index
                        &&& pending.handshake == bytes@
                    },
                    None => false,
                }
            },
            _ => false,
        },
        final(network).chains() == old(network).chains(),
{
}

/// The handshake that an inbound block announces substream is accepted with has the role of the
/// node, the best block and the genesis block of the chain: an encoder that is only ever seen to
/// make given bytes of a handshake with these fields has these bytes sent.
pub proof fn law_inbound_handshake_fields<
    E,
    A,
    AE,
    F: Fn(&[u8]) -> Result<BlockAnnouncesHandshake, E>,
    G: Fn(BlockAnnouncesHandshake) -> Vec<Vec<u8>>,
    H: Fn(&[u8]) -> Result<A, AE>,
>(
    network: &mut ChainNetwork,
    id: usize,
    overlay_network_index: usize,
    remote_handshake: Vec<u8>,
    handshake: BlockAnnouncesHandshake,
    expected: Seq<u8>,
    codecs: Codecs<F, G, H>,
    step: Step,
)
    requires
        call_ensures(
            ChainNetwork::next_event::<E, A, AE, F, G, H>,
            (
                network,
                Input::Network(
                    NetworkEvent::NotificationsInOpen {
                        id,
                        overlay_network_index,
                        remote_handshake,
                    },
                ),
                &codecs,
            ),
            step,
        ),
        overlay_network_index % 2 == 0,
        handshake.best_hash == old(network).chains()[overlay_network_index as int / 2].best_hash,
        handshake.best_number == old(network).chains()[overlay_network_index as int
            / 2].best_number,
        handshake.genesis_hash == old(network).chains()[overlay_network_index as int
            / 2].genesis_hash,
        handshake.role == old(network).chains()[overlay_network_index as int / 2].role,
        forall|chunks: Vec<Vec<u8>>| #[trigger]
            codecs.encode_handshake.ensures((handshake,), chunks) ==> chunks@.map_values(
                |chunk: Vec<u8>| chunk@,
            ).flatten() == expected,
    ensures
        match step {
            Step::AcceptNotificationsIn { handshake: bytes, .. } => bytes@ == expected,
            _ => false,
        },
{
}

/// A refused substream, and what happens on transactions substreams, are passed over: the service
/// goes on as if it had been asked for an event.
pub proof fn law_passed_over_like_a_resume<
    E,
    A,
    AE,
    F: Fn(&[u8]) -> Result<BlockAnnouncesHandshake, E>,
    G: Fn(BlockAnnouncesHandshake) -> Vec<Vec<u8>>,
    H: Fn(&[u8]) -> Result<A, AE>,
>(
    network: &mut ChainNetwork,
    other: &mut ChainNetwork,
    event: NetworkEvent,
    codecs: Codecs<F, G, H>,
    step: Step,
    resumed: Step,
)
    requires
        call_ensures(
            ChainNetwork::next_event::<E, A, AE, F, G, H>,
            (network, Input::Network(event), &codecs),
            step,
        ),
        call_ensures(
            ChainNetwork::next_event::<E, A, AE, F, G, H>,
            (other, Input::Resume, &codecs),
            resumed,
        ),
        *old(other) == *old(network),
        match event {
            NetworkEvent::NotificationsOutReject { .. } => true,
            NetworkEvent::NotificationsOutAccept { overlay_network_index, .. } =>
                overlay_network_index % 2 != 0,
            NetworkEvent::NotificationsOutClose { overlay_network_index, .. } =>
                overlay_network_index % 2 != 0,
            NetworkEvent::NotificationsIn { overlay_network_index, .. } => overlay_network_index % 2
                != 0,
            _ => false,
        },
    ensures
        match (step, resumed) {
            (Step::PollNetwork, Step::PollNetwork) => true,
            (
                Step::AcceptNotificationsIn { id, overlay_network_index, handshake },
                Step::AcceptNotificationsIn {
                    id: resumed_id,
                    overlay_network_index: resumed_index,
                    handshake: resumed_handshake,
                },
            ) => {
                &&& id == resumed_id
                &&& overlay_network_index == resumed_index
                &&& handshake@ == resumed_handshake@
            },
            _ => false,
        },
        final(network).chains() == old(network).chains(),
        final(network).pending() == old(network).pending(),
{
}

/// The service only waits for the connection layer when it is asked for an event, when it is told
/// that a substream has been accepted, and after a refused substream or something that has happened
/// on a transactions substream. Every other event is answered with something else than to wait for
/// the next one, and inbound substreams alone are answered with an acceptance.
pub proof fn law_nothing_else_passed_over<
    E,
    A,
    AE,
    F: Fn(&[u8]) -> Result<BlockAnnouncesHandshake, E>,
    G: Fn(BlockAnnouncesHandshake) -> Vec<Vec<u8>>,
    H: Fn(&[u8]) -> Result<A, AE>,
>(
    network: &mut ChainNetwork,
    event: NetworkEvent,
    codecs: Codecs<F, G, H>,
    step: Step,
)
    requires
        call_ensures(
            ChainNetwork::next_event::<E, A, AE, F, G, H>,
            (network, Input::Network(event), &codecs),
            step,
        ),
        !match event {
            NetworkEvent::NotificationsOutReject { .. } => true,
            NetworkEvent::NotificationsOutAccept { overlay_network_index, .. } =>
                overlay_network_index % 2 != 0,
            NetworkEvent::NotificationsOutClose { overlay_network_index, .. } =>
                overlay_network_index % 2 != 0,
            NetworkEvent::NotificationsIn { overlay_network_index, .. } => overlay_network_index % 2
                != 0,
            _ => false,
        },
    ensures
        !(step is PollNetwork),
        step is AcceptNotificationsIn <==> event is NotificationsInOpen,
        step is IdentifyPeer <==> event is NotificationsOutAccept || event is NotificationsOutClose,
        step is Return <==> event is Connected || event is Disconnected || event is StartConnect
            || event is NotificationsIn,
{
}

/// A substream that the service has asked to accept is asked for again, with the same handshake,
/// when the service is asked for an event before the substream has been accepted.
pub proof fn law_acceptance_asked_for_again<
    E,
    A,
    AE,
    F: Fn(&[u8]) -> Result<BlockAnnouncesHandshake, E>,
    G: Fn(BlockAnnouncesHandshake) -> Vec<Vec<u8>>,
    H: Fn(&[u8]) -> Result<A, AE>,
>(
    network: &mut ChainNetwork,
    later: &mut ChainNetwork,
    id: usize,
    overlay_network_index: usize,
    remote_handshake: Vec<u8>,
    codecs: Codecs<F, G, H>,
    step: Step,
    resumed: Step,
)
    requires
        call_ensures(
            ChainNetwork::next_event::<E, A, AE, F, G, H>,
            (
                network,
                Input::Network(
                    NetworkEvent::NotificationsInOpen {
                        id,
                        overlay_network_index,
                        remote_handshake,
                    },
                ),
                &codecs,
            ),
            step,
        ),
        call_ensures(
            ChainNetwork::next_event::<E, A, AE, F, G, H>,
            (later, Input::Resume, &codecs),
            resumed,
        ),
        *old(later) == *final(network),
    ensures
        !(step is PollNetwork),
        match (step, resumed) {
            (Step::PollNetwork, Step::PollNetwork) => true,
            (
                Step::AcceptNotificationsIn { id, overlay_network_index, handshake },
                Step::AcceptNotificationsIn {
                    id: resumed_id,
                    overlay_network_index: resumed_index,
                    handshake: resumed_handshake,
                },
            ) => {
                &&& id == resumed_id
                &&& overlay_network_index == resumed_index
                &&& handshake@ == resumed_handshake@
            },
            _ => false,
        },
{
}

/// Once a substream has been accepted the service waits for the connection layer, and does so again
/// when it is asked for an event.
pub proof fn law_accepted_once<
    E,
    A,
    AE,
    F: Fn(&[u8]) -> Result<BlockAnnouncesHandshake, E>,
    G: Fn(BlockAnnouncesHandshake) -> Vec<Vec<u8>>,
    H: Fn(&[u8]) -> Result<A, AE>,
>(
    network: &mut ChainNetwork,
    later: &mut ChainNetwork,
    codecs: Codecs<F, G, H>,
    step: Step,
    resumed: Step,
)
    requires
        call_ensures(
            ChainNetwork::next_event::<E, A, AE, F, G, H>,
            (network, Input::Accepted, &codecs),
            step,
        ),
        call_ensures(
            ChainNetwork::next_event::<E, A, AE, F, G, H>,
            (later, Input::Resume, &codecs),
            resumed,
        ),
        *old(later) == *final(network),
    ensures
        step is PollNetwork,
        resumed is PollNetwork,
        final(network).chains() == old(network).chains(),
        final(network).pending() is None,
{
}

/// What has to be accepted is neither forgotten nor made up: whatever the input, unless it is an
/// inbound substream or the acceptance of one, the service goes on as it would have before when it
/// is asked for an event.
pub proof fn law_other_inputs_forget_nothing<
    E,
    A,
    AE,
    F: Fn(&[u8]) -> Result<BlockAnnouncesHandshake, E>,
    G: Fn(BlockAnnouncesHandshake) -> Vec<Vec<u8>>,
    H: Fn(&[u8]) -> Result<A, AE>,
>(
    network: &mut ChainNetwork,
    before: &mut ChainNetwork,
    after: &mut ChainNetwork,
    input: Input,
    codecs: Codecs<F, G, H>,
    middle: Step,
    step: Step,
    resumed: Step,
)
    requires
        call_ensures(
            ChainNetwork::next_event::<E, A, AE, F, G, H>,
            (network, input, &codecs),
            middle,
        ),
        call_ensures(
            ChainNetwork::next_event::<E, A, AE, F, G, H>,
            (before, Input::Resume, &codecs),
            step,
        ),
        call_ensures(
            ChainNetwork::next_event::<E, A, AE, F, G, H>,
            (after, Input::Resume, &codecs),
            resumed,
        ),
        *old(before) == *old(network),
        *old(after) == *final(network),
        !(input is Accepted),
        match input {
            Input::Network(event) => !(event is NotificationsInOpen),
            _ => true,
        },
    ensures
        match (step, resumed) {
            (Step::PollNetwork, Step::PollNetwork) => true,
            (
                Step::AcceptNotificationsIn { id, overlay_network_index, handshake },
                Step::AcceptNotificationsIn {
                    id: resumed_id,
                    overlay_network_index: resumed_index,
                    handshake: resumed_handshake,
                },
            ) => {
                &&& id == resumed_id
                &&& overlay_network_index == resumed_index
                &&& handshake@ == resumed_handshake@
            },
            _ => false,
        },
{
}

/// To ask for an event again and again changes nothing.
pub proof fn law_resume_repeats<
    E,
    A,
    AE,
    F: Fn(&[u8]) -> Result<BlockAnnouncesHandshake, E>,
    G: Fn(BlockAnnouncesHandshake) -> Vec<Vec<u8>>,
    H: Fn(&[u8]) -> Result<A, AE>,
>(
    network: &mut ChainNetwork,
    later: &mut ChainNetwork,
    codecs: Codecs<F, G, H>,
    step: Step,
    resumed: Step,
)
    requires
        call_ensures(
            ChainNetwork::next_event::<E, A, AE, F, G, H>,
            (network, Input::Resume, &codecs),
            step,
        ),
        call_ensures(
            ChainNetwork::next_event::<E, A, AE, F, G, H>,
            (later, Input::Resume, &codecs),
            resumed,
        ),
        *old(later) == *final(network),
    ensures
        match (step, resumed) {
            (Step::PollNetwork, Step::PollNetwork) => true,
            (
                Step::AcceptNotificationsIn { id, overlay_network_index, handshake },
                Step::AcceptNotificationsIn {
                    id: resumed_id,
                    overlay_network_index: resumed_index,
                    handshake: resumed_handshake,
                },
            ) => {
                &&& id == resumed_id
                &&& overlay_network_index == resumed_index
                &&& handshake@ == resumed_handshake@
            },
            _ => false,
        },
        !(step is Return),
        !(step is IdentifyPeer),
        step is PollNetwork <==> old(network).pending() is None,
        final(network).chains() == old(network).chains(),
        final(network).pending() == old(network).pending(),
{
}

/// A new service has nothing to accept, and waits for the connection layer.
pub proof fn law_new_service_waits<
    TPeer,
    TNoiseKey,
    E,
    A,
    AE,
    F: Fn(&[u8]) -> Result<BlockAnnouncesHandshake, E>,
    G: Fn(BlockAnnouncesHandshake) -> Vec<Vec<u8>>,
    H: Fn(&[u8]) -> Result<A, AE>,
>(
    config: Config<TPeer, TNoiseKey>,
    network_config: NetworkConfig<TPeer, TNoiseKey>,
    network: &mut ChainNetwork,
    codecs: Codecs<F, G, H>,
    step: Step,
)
    requires
        call_ensures(
            ChainNetwork::new::<TPeer, TNoiseKey>,
            (config,),
            (*old(network), network_config),
        ),
        call_ensures(
            ChainNetwork::next_event::<E, A, AE, F, G, H>,
            (network, Input::Resume, &codecs),
            step,
        ),
    ensures
        step is PollNetwork,
{
}

/// The substreams that a service opens are always about the same chains, whatever has happened in
/// between.
pub proof fn law_chains_stay<
    E,
    A,
    AE,
    F: Fn(&[u8]) -> Result<BlockAnnouncesHandshake, E>,
    G: Fn(BlockAnnouncesHandshake) -> Vec<Vec<u8>>,
    H: Fn(&[u8]) -> Result<A, AE>,
>(
    network: &mut ChainNetwork,
    input: Input,
    codecs: Codecs<F, G, H>,
    step: Step,
    opened: Option<usize>,
    before: NextSubstream<'_>,
    after: NextSubstream<'_>,
)
    requires
        call_ensures(
            ChainNetwork::next_event::<E, A, AE, F, G, H>,
            (network, input, &codecs),
            step,
        ),
        call_ensures(ChainNetwork::next_substream, (&*old(network), opened), before),
        call_ensures(ChainNetwork::next_substream, (&*final(network), opened), after),
    ensures
        match (before, after) {
            (NextSubstream::Open(substream), NextSubstream::Open(later)) => {
                &&& substream.overlay_network_index == later.overlay_network_index
                &&& substream.chains@ == later.chains@
            },
            (NextSubstream::Wait, NextSubstream::Wait) => true,
            _ => false,
        },
{
}

/// Every input can be given at any time, but for those that bring bytes of a block announces
/// substream.
pub proof fn law_input_can_be_given<
    E,
    A,
    AE,
    F: Fn(&[u8]) -> Result<BlockAnnouncesHandshake, E>,
    G: Fn(BlockAnnouncesHandshake) -> Vec<Vec<u8>>,
    H: Fn(&[u8]) -> Result<A, AE>,
>(
    network: &mut ChainNetwork,
    input: Input,
    codecs: Codecs<F, G, H>,
)
    requires
        match input {
            Input::Network(NetworkEvent::NotificationsOutAccept { overlay_network_index, .. }) =>
                overlay_network_index % 2 != 0,
            Input::Network(NetworkEvent::NotificationsInOpen { overlay_network_index, .. }) =>
                overlay_network_index % 2 != 0,
            Input::Network(NetworkEvent::NotificationsIn { overlay_network_index, .. }) =>
                overlay_network_index % 2 != 0,
            _ => true,
        },
    ensures
        call_requires(ChainNetwork::next_event::<E, A, AE, F, G, H>, (network, input, &codecs)),
{
}

/// A handshake and a block announce can be given whenever they can be decoded.
pub proof fn law_valid_bytes_can_be_given<
    E,
    A,
    AE,
    F: Fn(&[u8]) -> Result<BlockAnnouncesHandshake, E>,
    G: Fn(BlockAnnouncesHandshake) -> Vec<Vec<u8>>,
    H: Fn(&[u8]) -> Result<A, AE>,
>(
    network: &mut ChainNetwork,
    id: usize,
    peer_id: PeerId,
    overlay_network_index: usize,
    remote_handshake: Vec<u8>,
    notification: Vec<u8>,
    codecs: Codecs<F, G, H>,
)
    requires
        forall|slice: &[u8]|
            slice@ == remote_handshake@ ==> #[trigger] codecs.decode_handshake.requires((slice,)),
        forall|slice: &[u8], outcome: Result<BlockAnnouncesHandshake, E>|
            slice@ == remote_handshake@ && #[trigger] codecs.decode_handshake.ensures(
                (slice,),
                outcome,
            ) ==> outcome is Ok,
        forall|slice: &[u8]|
            slice@ == notification@ ==> #[trigger] codecs.decode_announce.requires((slice,)),
        forall|slice: &[u8], outcome: Result<A, AE>|
            slice@ == notification@ && #[trigger] codecs.decode_announce.ensures(
                (slice,),
                outcome,
            ) ==> outcome is Ok,
    ensures
        call_requires(
            ChainNetwork::next_event::<E, A, AE, F, G, H>,
            (
                network,
                Input::Network(
                    NetworkEvent::NotificationsOutAccept {
                        id,
                        overlay_network_index,
                        remote_handshake,
                    },
                ),
                &codecs,
            ),
        ),
        call_requires(
            ChainNetwork::next_event::<E, A, AE, F, G, H>,
            (
                network,
                Input::Network(
                    NetworkEvent::NotificationsIn {
                        id,
                        peer_id,
                        overlay_network_index,
                        notification,
                    },
                ),
                &codecs,
            ),
        ),
{
}

/// An inbound block announces substream of any of the chains can be given when its handshake can be
/// decoded and the handshake of the chain can be encoded.
pub proof fn law_valid_inbound_substream_can_be_given<
    E,
    A,
    AE,
    F: Fn(&[u8]) -> Result<BlockAnnouncesHandshake, E>,
    G: Fn(BlockAnnouncesHandshake) -> Vec<Vec<u8>>,
    H: Fn(&[u8]) -> Result<A, AE>,
>(
    network: &mut ChainNetwork,
    id: usize,
    overlay_network_index: usize,
    remote_handshake: Vec<u8>,
    handshake: BlockAnnouncesHandshake,
    codecs: Codecs<F, G, H>,
)
    requires
        forall|slice: &[u8]|
            slice@ == remote_handshake@ ==> #[trigger] codecs.decode_handshake.requires((slice,)),
        forall|slice: &[u8], outcome: Result<BlockAnnouncesHandshake, E>|
            slice@ == remote_handshake@ && #[trigger] codecs.decode_handshake.ensures(
                (slice,),
                outcome,
            ) ==> outcome is Ok,
        overlay_network_index as int / 2 < old(network).chains().len(),
        handshake.best_hash == old(network).chains()[overlay_network_index as int / 2].best_hash,
        handshake.best_number == old(network).chains()[overlay_network_index as int
            / 2].best_number,
        handshake.genesis_hash == old(network).chains()[overlay_network_index as int
            / 2].genesis_hash,
        handshake.role == old(network).chains()[overlay_network_index as int / 2].role,
        codecs.encode_handshake.requires((handshake,)),
    ensures
        call_requires(
            ChainNetwork::next_event::<E, A, AE, F, G, H>,
            (
                network,
                Input::Network(
                    NetworkEvent::NotificationsInOpen {
                        id,
                        overlay_network_index,
                        remote_handshake,
                    },
                ),
                &codecs,
            ),
        ),
{
}

/// An empty list has no chains. An index that is appended to a list appends its chain if it is
/// that of a block announces protocol, and nothing otherwise.
pub proof fn law_announced_chains_one_by_one(
    indices: Vec<usize>,
    found: Vec<usize>,
    more_indices: Vec<usize>,
    more_found: Vec<usize>,
    index: usize,
)
    requires
        call_ensures(find_announced_chains, (&indices,), found),
        call_ensures(find_announced_chains, (&more_indices,), more_found),
        more_indices@ == indices@.push(index),
    ensures
        indices@.len() == 0 ==> found@.len() == 0,
        index % 2 == 0 ==> more_found@ == found@.push((index / 2) as usize),
        index % 2 != 0 ==> more_found@ == found@,
{
    reveal(Seq::filter);
    assert(more_indices@.drop_last() =~= indices@);
    if index % 2 == 0 {
        assert(more_found@ =~= found@.push((index / 2) as usize));
    } else {
        assert(more_found@ =~= found@);
    }
}

/// The chains that are found are those whose block announces protocol is in the list.
proof fn lemma_members_announced(indices: Seq<usize>)
    ensures
        forall|chain_index: usize| #[trigger]
            announced_chains(indices).contains(chain_index) <==> exists|i: int|
                0 <= i < indices.len() && #[trigger] indices[i] == 2 * chain_index,
{
    let found = announced_chains(indices);
    let keep = |index: usize| is_block_announces(index);
    let kept = indices.filter(keep);
    assert forall|chain_index: usize| #[trigger] found.contains(chain_index) implies exists|i: int|
        0 <= i < indices.len() && #[trigger] indices[i] == 2 * chain_index by {
        let k = choose|k: int| 0 <= k < found.len() && found[k] == chain_index;
        indices.lemma_filter_pred(keep, k);
        assert(kept.contains(kept[k]));
        indices.lemma_filter_contains_rev(keep, kept[k]);
        let i = choose|i: int| 0 <= i < indices.len() && indices[i] == kept[k];
        assert(indices[i] == 2 * chain_index);
    }
    assert forall|chain_index: usize|
        (exists|i: int| 0 <= i < indices.len() && #[trigger] indices[i] == 2 * chain_index)
        implies #[trigger] found.contains(chain_index) by {
        let i = choose|i: int|
            0 <= i < indices.len() && #[trigger] indices[i] == 2 * chain_index;
        indices.lemma_filter_contains(keep, i);
        let k = choose|k: int| 0 <= k < kept.len() && kept[k] == indices[i];
        assert(found[k] == chain_index);
    }
}

/// The handshake that is given to the encoder has the best hash, the best number, the genesis hash
/// and the role that the chain is configured with, and all that the encoder makes of it is sent.
pub proof fn law_local_handshake_fields<G: Fn(BlockAnnouncesHandshake) -> Vec<Vec<u8>>>(
    chain: ChainConfig,
    encode: G,
    bytes: Vec<u8>,
)
    requires
        call_ensures(encode_local_handshake::<G>, (&chain, &encode), bytes),
    ensures
        exists|handshake: BlockAnnouncesHandshake, chunks: Vec<Vec<u8>>| #[trigger]
            encode.ensures((handshake,), chunks) && handshake.best_hash == chain.best_hash
                && handshake.best_number == chain.best_number && handshake.genesis_hash
                == chain.genesis_hash && handshake.role == chain.role && bytes@
                == chunks@.map_values(|chunk: Vec<u8>| chunk@).flatten(),
{
}

/// The encoder is given no other handshake than one with the fields of the chain: to encode the
/// local handshake it is enough that the encoder takes this one.
pub proof fn law_local_handshake_can_be_encoded<G: Fn(BlockAnnouncesHandshake) -> Vec<Vec<u8>>>(
    chain: ChainConfig,
    encode: G,
    handshake: BlockAnnouncesHandshake,
)
    requires
        handshake.best_hash == chain.best_hash,
        handshake.best_number == chain.best_number,
        handshake.genesis_hash == chain.genesis_hash,
        handshake.role == chain.role,
        encode.requires((handshake,)),
    ensures
        call_requires(encode_local_handshake::<G>, (&chain, &encode)),
{
}

/// A substream can be looked for on any service. If the connection layer can open one, it is the
/// one that is opened, about the chains that the service was configured with.
pub proof fn law_next_substream_of_configured_chains<TPeer, TNoiseKey>(
    config: Config<TPeer, TNoiseKey>,
    network: ChainNetwork,
    network_config: NetworkConfig<TPeer, TNoiseKey>,
    opened: Option<usize>,
    next: NextSubstream<'_>,
)
    requires
        call_ensures(
            ChainNetwork::new::<TPeer, TNoiseKey>,
            (config,),
            (network, network_config),
        ),
        call_ensures(ChainNetwork::next_substream, (&network, opened), next),
    ensures
        call_requires(ChainNetwork::next_substream, (&network, opened)),
        match (opened, next) {
            (Some(overlay_network_index), NextSubstream::Open(substream)) => {
                &&& substream.overlay_network_index == overlay_network_index
                &&& substream.chains@ == config.chains@
            },
            (None, NextSubstream::Wait) => true,
            _ => false,
        },
{
}

/// Whatever the state of the service, the substream that is opened is the one that the connection
/// layer can open, about the chains of the service, and there is one if the connection layer has
/// one. The number of chains is that of these chains.
pub proof fn law_next_substream_in_any_state(
    network: ChainNetwork,
    opened: Option<usize>,
    next: NextSubstream<'_>,
    num_chains: usize,
)
    requires
        call_ensures(ChainNetwork::next_substream, (&network, opened), next),
        call_ensures(ChainNetwork::num_chains, (&network,), num_chains),
    ensures
        match (opened, next) {
            (Some(overlay_network_index), NextSubstream::Open(substream)) => {
                &&& substream.overlay_network_index == overlay_network_index
                &&& substream.chains@ == network.chains()
                &&& substream.chains@.len() == num_chains
            },
            (None, NextSubstream::Wait) => true,
            _ => false,
        },
        num_chains == network.chains().len(),
{
}

/// A block announces substream is opened with what the encoder makes of the best block, the genesis
/// block and the role that the chain is configured with. A transactions substream is opened with
/// an empty handshake.
pub proof fn law_opening_handshake_fields<G: Fn(BlockAnnouncesHandshake) -> Vec<Vec<u8>>>(
    substream: SubstreamOpen<'_>,
    encode: G,
    bytes: Vec<u8>,
)
    requires
        call_ensures(SubstreamOpen::open::<G>, (substream, encode), bytes),
    ensures
        substream.overlay_network_index % 2 != 0 ==> bytes@.len() == 0,
        substream.overlay_network_index % 2 == 0 ==> {
            let chain = substream.chains@[substream.overlay_network_index as int / 2];
            exists|handshake: BlockAnnouncesHandshake, chunks: Vec<Vec<u8>>| #[trigger]
                encode.ensures((handshake,), chunks) && handshake.best_hash == chain.best_hash
                    && handshake.best_number == chain.best_number && handshake.genesis_hash
                    == chain.genesis_hash && handshake.role == chain.role && bytes@
                    == chunks@.map_values(|chunk: Vec<u8>| chunk@).flatten()
        },
{
}

/// A transactions substream can be opened whatever the encoder. A block announces substream can be
/// opened when the handshake with the fields of its chain can be encoded.
pub proof fn law_substream_can_be_opened<G: Fn(BlockAnnouncesHandshake) -> Vec<Vec<u8>>>(
    substream: SubstreamOpen<'_>,
    encode: G,
    handshake: BlockAnnouncesHandshake,
)
    requires
        substream.overlay_network_index as int / 2 < substream.chains@.len(),
        substream.overlay_network_index % 2 == 0 ==> {
            let chain = substream.chains@[substream.overlay_network_index as int / 2];
            encode.requires((handshake,)) && handshake.best_hash == chain.best_hash
                && handshake.best_number == chain.best_number && handshake.genesis_hash
                == chain.genesis_hash && handshake.role == chain.role
        },
    ensures
        call_requires(SubstreamOpen::open::<G>, (substream, encode)),
{
}

} // verus!
