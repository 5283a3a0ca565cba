//! What holds of the service as a whole.

use vstd::prelude::*;

use crate::bytes::{decodes_to, is_valid};
use crate::codecs::{encodes_one_way, local_handshake, sends_handshake, Codecs};
use crate::config::{
    block_announces_index, bootstrap_nodes_known, chain_protocol, identify_protocol,
    overlay_network, overlay_networks, protocol_index, request_response_protocols,
    transactions_index, ChainConfig, PROTOCOLS_PER_CHAIN,
};
use crate::event::{
    announced_chains, chain_of, is_block_announces, Event, Input, NetworkEvent, Step,
};
use crate::service::ChainNetwork;
use crate::substream::SubstreamOpen;
use crate::types::{BlockAnnouncesHandshake, PeerId};

verus! {

/// The index under which the connection layer is asked for a request-response protocol of a chain
/// is the one under which this protocol of this chain has been registered.
pub proof fn law_protocol_index_designates_protocol(
    chains: Seq<ChainConfig>,
    chain_index: int,
    protocol: int,
)
    requires
        0 <= chain_index < chains.len(),
        0 <= protocol < PROTOCOLS_PER_CHAIN,
    ensures
        0 <= protocol_index(chain_index, protocol) < request_response_protocols(chains).len(),
        request_response_protocols(chains)[protocol_index(chain_index, protocol)] == chain_protocol(
            chains[chain_index],
            protocol,
        ),
{
}

/// Two request-response protocols never share an index, nor is the index of the identify protocol
/// given to any other.
pub proof fn law_protocol_indices_distinct(
    chain_a: int,
    protocol_a: int,
    chain_b: int,
    protocol_b: int,
)
    requires
        0 <= chain_a,
        0 <= chain_b,
        0 <= protocol_a < PROTOCOLS_PER_CHAIN,
        0 <= protocol_b < PROTOCOLS_PER_CHAIN,
    ensures
        protocol_index(chain_a, protocol_a) == protocol_index(chain_b, protocol_b) <==> chain_a
            == chain_b && protocol_a == protocol_b,
        protocol_index(chain_a, protocol_a) != 0,
{
}

/// Every registered request-response protocol is the identify protocol or the protocol of a chain,
/// under the index of that chain and protocol.
pub proof fn law_protocol_indices_cover_all(chains: Seq<ChainConfig>, index: int)
    requires
        0 <= index < request_response_protocols(chains).len(),
    ensures
        index == 0 ==> request_response_protocols(chains)[index] == identify_protocol(),
        index != 0 ==> exists|chain_index: int, protocol: int|
            0 <= chain_index < chains.len() && 0 <= protocol < PROTOCOLS_PER_CHAIN && index
                == #[trigger] protocol_index(chain_index, protocol),
{
    if index != 0 {
        assert(index == protocol_index((index - 1) / 4, (index - 1) % 4));
    }
}

/// The notifications protocols of a chain are registered where the indices that come from the
/// connection layer are looked up, and nowhere else.
pub proof fn law_overlay_network_indices(chains: Seq<ChainConfig>, overlay_network_index: usize)
    requires
        (overlay_network_index as int) < overlay_networks(chains).len(),
    ensures
        (chain_of(overlay_network_index) as int) < chains.len(),
        if is_block_announces(overlay_network_index) {
            &&& overlay_network_index == block_announces_index(
                chain_of(overlay_network_index) as int,
            )
            &&& overlay_networks(chains)[overlay_network_index as int] == overlay_network(
                chains[chain_of(overlay_network_index) as int],
                "/block-announces/1"@,
            )
        } else {
            &&& overlay_network_index == transactions_index(chain_of(overlay_network_index) as int)
            &&& overlay_networks(chains)[overlay_network_index as int] == overlay_network(
                chains[chain_of(overlay_network_index) as int],
                "/transactions/1"@,
            )
        },
{
}

/// If the bootstrap nodes of the chains are known nodes, then so are those of the notifications
/// protocols that are registered.
pub proof fn law_bootstrap_nodes_known(
    chains: Seq<ChainConfig>,
    num_known_nodes: nat,
    overlay_network_index: int,
    i: int,
)
    requires
        bootstrap_nodes_known(chains, num_known_nodes),
        0 <= overlay_network_index < overlay_networks(chains).len(),
        0 <= i < overlay_networks(chains)[overlay_network_index].bootstrap_nodes.len(),
    ensures
        overlay_networks(chains)[overlay_network_index].bootstrap_nodes[i] < num_known_nodes,
{
    assert(overlay_networks(chains)[overlay_network_index].bootstrap_nodes
        == chains[overlay_network_index / 2].bootstrap_nodes@);
}

/// When a connection closes, a chain is reported exactly if its block announces substream was
/// open.
pub proof fn law_disconnection_reports_announced_chains(
    overlay_network_indices: Seq<usize>,
    chain_index: usize,
)
    ensures
        announced_chains(overlay_network_indices).contains(chain_index) <==> block_announces_index(
            chain_index as int,
        ) <= usize::MAX && overlay_network_indices.contains(
            block_announces_index(chain_index as int) as usize,
        ),
    decreases overlay_network_indices.len(),
{
    broadcast use vstd::seq_lib::group_seq_properties;

    reveal(Seq::filter);
    let indices = overlay_network_indices;
    if indices.len() > 0 {
        let fewer = indices.drop_last();
        law_disconnection_reports_announced_chains(fewer, chain_index);
        assert(indices =~= fewer.push(indices.last()));
        if is_block_announces(indices.last()) {
            assert(announced_chains(indices) =~= announced_chains(fewer).push(
                chain_of(indices.last()),
            ));
        }
    }
}

/// Notifications protocol that an event of the connection layer is about, if any.
pub open spec fn overlay_network_of(event: NetworkEvent) -> Option<usize> {
    match event {
        NetworkEvent::NotificationsOutAccept { overlay_network_index, .. } => Some(
            overlay_network_index,
        ),
        NetworkEvent::NotificationsOutReject { overlay_network_index, .. } => Some(
            overlay_network_index,
        ),
        NetworkEvent::NotificationsOutClose { overlay_network_index, .. } => Some(
            overlay_network_index,
        ),
        NetworkEvent::NotificationsInOpen { overlay_network_index, .. } => Some(
            overlay_network_index,
        ),
        NetworkEvent::NotificationsIn { overlay_network_index, .. } => Some(overlay_network_index),
        _ => None,
    }
}

/// Whether all the notifications protocols that an event mentions belong to one of the chains.
pub open spec fn is_about_chains(network: ChainNetwork, event: NetworkEvent) -> bool {
    &&& overlay_network_of(event) matches Some(index) ==> network.has_overlay_network(index)
    &&& event matches NetworkEvent::Disconnected { out_overlay_network_indices, .. } ==> forall|
        i: int,
    |
        0 <= i < out_overlay_network_indices@.len() ==> network.has_overlay_network(
            #[trigger] out_overlay_network_indices@[i],
        )
}

/// Whether `step` mentions a chain only if it is one of the chains of the service.
pub open spec fn mentions_chains_only(network: ChainNetwork, step: Step) -> bool {
    let num_chains = network.chains().len();
    match step {
        Step::IdentifyPeer { outbound } => outbound.chain_index < num_chains,
        Step::Return { event, .. } => match event {
            Event::Disconnected { chain_indices, .. } => forall|i: int|
                0 <= i < chain_indices@.len() ==> #[trigger] chain_indices@[i] < num_chains,
            Event::ChainConnected { chain_index, .. } => chain_index < num_chains,
            Event::ChainDisconnected { chain_index, .. } => chain_index < num_chains,
            Event::BlockAnnounce { chain_index, .. } => chain_index < num_chains,
            _ => true,
        },
        _ => true,
    }
}

/// Whether an event of the connection layer calls for nothing: a substream has been refused, or a
/// transactions substream has been accepted or closed by the remote or has brought a notification.
pub open spec fn is_skipped(event: NetworkEvent) -> bool {
    match event {
        NetworkEvent::NotificationsOutReject { .. } => true,
        NetworkEvent::NotificationsOutAccept { overlay_network_index, .. } => !is_block_announces(
            overlay_network_index,
        ),
        NetworkEvent::NotificationsOutClose { overlay_network_index, .. } => !is_block_announces(
            overlay_network_index,
        ),
        NetworkEvent::NotificationsIn { overlay_network_index, .. } => !is_block_announces(
            overlay_network_index,
        ),
        _ => false,
    }
}

/// Refusals, and what is accepted, closed or notified about transactions, is skipped: it leaves the
/// state as it is, and with nothing to accept the service waits for the next event.
pub proof fn law_skipped_events_change_nothing<
    E,
    A,
    AE,
    F: Fn(&[u8]) -> Result<BlockAnnouncesHandshake, E>,
    G: Fn(BlockAnnouncesHandshake) -> Vec<Vec<u8>>,
    H: Fn(&[u8]) -> Result<A, AE>,
>(
    before: ChainNetwork,
    event: NetworkEvent,
    codecs: Codecs<F, G, H>,
    after: ChainNetwork,
    step: Step,
)
    requires
        is_skipped(event),
        before.transitions(Input::Network(event), codecs, after, step),
    ensures
        after.chains() == before.chains(),
        after.pending() == before.pending(),
        before.resumes_with(step),
        before.pending() is None ==> step == Step::PollNetwork,
{
}

/// An inbound transactions substream is never reported: nothing but accepting it, with an empty
/// handshake, is asked for.
pub proof fn law_inbound_transactions_only_accepted<
    E,
    A,
    AE,
    F: Fn(&[u8]) -> Result<BlockAnnouncesHandshake, E>,
    G: Fn(BlockAnnouncesHandshake) -> Vec<Vec<u8>>,
    H: Fn(&[u8]) -> Result<A, AE>,
>(
    before: ChainNetwork,
    id: usize,
    overlay_network_index: usize,
    remote_handshake: Vec<u8>,
    codecs: Codecs<F, G, H>,
    after: ChainNetwork,
    step: Step,
)
    requires
        !is_block_announces(overlay_network_index),
        before.transitions(
            Input::Network(
                NetworkEvent::NotificationsInOpen { id, overlay_network_index, remote_handshake },
            ),
            codecs,
            after,
            step,
        ),
    ensures
        step matches Step::AcceptNotificationsIn {
            id: accepted,
            overlay_network_index: accepted_index,
            handshake,
        } && accepted == id && accepted_index == overlay_network_index && handshake@ == Seq::<
            u8,
        >::empty(),
{
}

/// Whoever waits for a substream is told when, and only when, a connection has been established.
pub proof fn law_substreams_woken_by_connections<
    E,
    A,
    AE,
    F: Fn(&[u8]) -> Result<BlockAnnouncesHandshake, E>,
    G: Fn(BlockAnnouncesHandshake) -> Vec<Vec<u8>>,
    H: Fn(&[u8]) -> Result<A, AE>,
>(
    before: ChainNetwork,
    input: Input,
    codecs: Codecs<F, G, H>,
    after: ChainNetwork,
    step: Step,
)
    requires
        before.transitions(input, codecs, after, step),
    ensures
        (step matches Step::Return { wake_substreams, .. } && wake_substreams) <==> (
        input matches Input::Network(event) && event is Connected),
        step matches Step::Return { wake_substreams: true, event } ==> event is Connected,
{
}

/// An inbound substream is accepted with the same handshake, byte for byte, as the one that an
/// outbound substream of the same notifications protocol is opened with: the encoded state of the
/// chain for block announces, nothing for transactions. The handshake that the remote sends has no
/// influence on it.
///
/// `opened_with` is what [`SubstreamOpen::open`] returns.
pub proof fn law_same_handshake_both_ways<
    E,
    A,
    AE,
    F: Fn(&[u8]) -> Result<BlockAnnouncesHandshake, E>,
    G: Fn(BlockAnnouncesHandshake) -> Vec<Vec<u8>>,
    H: Fn(&[u8]) -> Result<A, AE>,
>(
    network: ChainNetwork,
    id: usize,
    overlay_network_index: usize,
    remote_handshake: Vec<u8>,
    codecs: Codecs<F, G, H>,
    after: ChainNetwork,
    step: Step,
    substream: SubstreamOpen,
    opened_with: Seq<u8>,
)
    requires
        encodes_one_way(codecs.encode_handshake),
        network.transitions(
            Input::Network(
                NetworkEvent::NotificationsInOpen { id, overlay_network_index, remote_handshake },
            ),
            codecs,
            after,
            step,
        ),
        substream.overlay_network_index == overlay_network_index,
        substream.chains@ == network.chains(),
        sends_handshake(
            substream.chains@,
            substream.overlay_network_index,
            codecs.encode_handshake,
            opened_with,
        ),
    ensures
        step matches Step::AcceptNotificationsIn { handshake, .. } && handshake@ == opened_with,
        !is_block_announces(overlay_network_index) ==> opened_with == Seq::<u8>::empty(),
{
}

/// A valid block announce is reported at once, for its chain and its sender, with its bytes
/// untouched: whatever has found it valid can decode it again.
pub proof fn law_announce_reported_as_received<
    E,
    A,
    AE,
    F: Fn(&[u8]) -> Result<BlockAnnouncesHandshake, E>,
    G: Fn(BlockAnnouncesHandshake) -> Vec<Vec<u8>>,
    H: Fn(&[u8]) -> Result<A, AE>,
>(
    network: ChainNetwork,
    id: usize,
    sender: PeerId,
    overlay_network_index: usize,
    notification: Vec<u8>,
    codecs: Codecs<F, G, H>,
    after: ChainNetwork,
    step: Step,
)
    requires
        is_block_announces(overlay_network_index),
        is_valid(codecs.decode_announce, notification@),
        network.transitions(
            Input::Network(
                NetworkEvent::NotificationsIn {
                    id,
                    peer_id: sender,
                    overlay_network_index,
                    notification,
                },
            ),
            codecs,
            after,
            step,
        ),
    ensures
        step matches Step::Return {
            event: Event::BlockAnnounce { chain_index, peer_id, announce },
            ..
        } && chain_index == chain_of(overlay_network_index) && peer_id == sender && announce@
            == notification@ && is_valid(codecs.decode_announce, announce@),
{
}

/// A peer that accepts a block announces substream is reported as taking part in the chain of the
/// substream, with what its handshake says.
pub proof fn law_opened_substream_reported<
    E,
    A,
    AE,
    F: Fn(&[u8]) -> Result<BlockAnnouncesHandshake, E>,
    G: Fn(BlockAnnouncesHandshake) -> Vec<Vec<u8>>,
    H: Fn(&[u8]) -> Result<A, AE>,
>(
    states: (ChainNetwork, ChainNetwork, ChainNetwork),
    id: usize,
    overlay_network_index: usize,
    remote_handshake: Vec<u8>,
    codecs: Codecs<F, G, H>,
    steps: (Step, Step),
    peer: PeerId,
)
    requires
        is_block_announces(overlay_network_index),
        states.0.transitions(
            Input::Network(
                NetworkEvent::NotificationsOutAccept {
                    id,
                    overlay_network_index,
                    remote_handshake,
                },
            ),
            codecs,
            states.1,
            steps.0,
        ),
        steps.0 matches Step::IdentifyPeer { outbound } ==> states.1.transitions(
            Input::PeerIdentified { outbound, peer_id: peer },
            codecs,
            states.2,
            steps.1,
        ),
    ensures
        steps.0 matches Step::IdentifyPeer { outbound } && outbound.id == id,
        exists|handshake: BlockAnnouncesHandshake| #[trigger]
            decodes_to(
                codecs.decode_handshake,
                remote_handshake@,
                Ok::<BlockAnnouncesHandshake, E>(handshake),
            ) && steps.1 == (Step::Return {
                event: Event::ChainConnected {
                    chain_index: chain_of(overlay_network_index),
                    peer_id: peer,
                    role: handshake.role,
                    best_number: handshake.best_number,
                    best_hash: handshake.best_hash,
                },
                wake_substreams: false,
            }),
{
}

/// A peer that closes a block announces substream is reported as no longer taking part in the
/// chain of the substream.
pub proof fn law_closed_substream_reported<
    E,
    A,
    AE,
    F: Fn(&[u8]) -> Result<BlockAnnouncesHandshake, E>,
    G: Fn(BlockAnnouncesHandshake) -> Vec<Vec<u8>>,
    H: Fn(&[u8]) -> Result<A, AE>,
>(
    states: (ChainNetwork, ChainNetwork, ChainNetwork),
    id: usize,
    overlay_network_index: usize,
    codecs: Codecs<F, G, H>,
    steps: (Step, Step),
    peer: PeerId,
)
    requires
        is_block_announces(overlay_network_index),
        states.0.transitions(
            Input::Network(NetworkEvent::NotificationsOutClose { id, overlay_network_index }),
            codecs,
            states.1,
            steps.0,
        ),
        steps.0 matches Step::IdentifyPeer { outbound } ==> states.1.transitions(
            Input::PeerIdentified { outbound, peer_id: peer },
            codecs,
            states.2,
            steps.1,
        ),
    ensures
        steps.0 matches Step::IdentifyPeer { outbound } && outbound.id == id,
        steps.1 == (Step::Return {
            event: Event::ChainDisconnected {
                chain_index: chain_of(overlay_network_index),
                peer_id: peer,
            },
            wake_substreams: false,
        }),
{
}

/// Whether `input` answers to what `step` asks for. Asking for an event anew is always possible,
/// whatever has been asked for before: this is what happens when the user gives up and comes back.
pub open spec fn answers(step: Step, input: Input) -> bool {
    match input {
        Input::Resume => true,
        Input::Accepted => step is AcceptNotificationsIn,
        Input::Network(_) => step is PollNetwork,
        Input::PeerIdentified { outbound, .. } => step == (Step::IdentifyPeer { outbound }),
    }
}

/// Whether the service, at moment `i`, is given an input that answers to what it asks for, and
/// goes on from there.
pub open spec fn goes_on<
    E,
    A,
    AE,
    F: Fn(&[u8]) -> Result<BlockAnnouncesHandshake, E>,
    G: Fn(BlockAnnouncesHandshake) -> Vec<Vec<u8>>,
    H: Fn(&[u8]) -> Result<A, AE>,
>(
    moments: Seq<(ChainNetwork, Step)>,
    inputs: Seq<Input>,
    codecs: Codecs<F, G, H>,
    i: int,
) -> bool {
    &&& answers(moments[i].1, inputs[i])
    &&& moments[i].0.transitions(inputs[i], codecs, moments[i + 1].0, moments[i + 1].1)
}

/// Whether the moments are those that the service goes through when it is first asked for an event
/// and then given the inputs. A moment is a state and what is asked for in that state.
pub open spec fn is_run<
    E,
    A,
    AE,
    F: Fn(&[u8]) -> Result<BlockAnnouncesHandshake, E>,
    G: Fn(BlockAnnouncesHandshake) -> Vec<Vec<u8>>,
    H: Fn(&[u8]) -> Result<A, AE>,
>(
    moments: Seq<(ChainNetwork, Step)>,
    inputs: Seq<Input>,
    codecs: Codecs<F, G, H>,
) -> bool {
    &&& moments.len() == inputs.len() + 1
    &&& moments[0].0.resumes_with(moments[0].1)
    &&& forall|i: int| 0 <= i < inputs.len() ==> #[trigger] goes_on(moments, inputs, codecs, i)
}

/// As long as an inbound substream has to be accepted, nothing else is asked for.
pub proof fn law_pending_substream_comes_first<
    E,
    A,
    AE,
    F: Fn(&[u8]) -> Result<BlockAnnouncesHandshake, E>,
    G: Fn(BlockAnnouncesHandshake) -> Vec<Vec<u8>>,
    H: Fn(&[u8]) -> Result<A, AE>,
>(
    moments: Seq<(ChainNetwork, Step)>,
    inputs: Seq<Input>,
    codecs: Codecs<F, G, H>,
    i: int,
)
    requires
        is_run(moments, inputs, codecs),
        0 <= i < moments.len(),
    ensures
        moments[i].0.pending() is Some ==> moments[i].0.resumes_with(moments[i].1),
        moments[i].0.pending() is None ==> !(moments[i].1 is AcceptNotificationsIn),
    decreases i,
{
    if i > 0 {
        law_pending_substream_comes_first(moments, inputs, codecs, i - 1);
        assert(goes_on(moments, inputs, codecs, i - 1));
    }
}

/// An inbound substream that has to be accepted is neither forgotten nor replaced by another until
/// it has been accepted, however often the user gives up on waiting for an event.
pub proof fn law_pending_substream_kept<
    E,
    A,
    AE,
    F: Fn(&[u8]) -> Result<BlockAnnouncesHandshake, E>,
    G: Fn(BlockAnnouncesHandshake) -> Vec<Vec<u8>>,
    H: Fn(&[u8]) -> Result<A, AE>,
>(
    moments: Seq<(ChainNetwork, Step)>,
    inputs: Seq<Input>,
    codecs: Codecs<F, G, H>,
    i: int,
)
    requires
        is_run(moments, inputs, codecs),
        0 <= i < inputs.len(),
        moments[i].0.pending() is Some,
    ensures
        inputs[i] is Accepted || moments[i + 1].0.pending() == moments[i].0.pending(),
        inputs[i] is Accepted ==> moments[i + 1].0.pending() is None,
{
    law_pending_substream_comes_first(moments, inputs, codecs, i);
    assert(goes_on(moments, inputs, codecs, i));
}

/// Once an inbound substream has been received, the caller is asked to accept it, with its own
/// connection, protocol and handshake, and is asked for nothing else until this has been done,
/// however often the user gives up on waiting for an event. In particular, no other event of the
/// connection layer is waited for. Giving up never loses a substream.
///
/// `received` is the moment at which the substream is received, `now` any later one at which it
/// hasn't been accepted yet.
pub proof fn law_received_substream_never_lost<
    E,
    A,
    AE,
    F: Fn(&[u8]) -> Result<BlockAnnouncesHandshake, E>,
    G: Fn(BlockAnnouncesHandshake) -> Vec<Vec<u8>>,
    H: Fn(&[u8]) -> Result<A, AE>,
>(
    moments: Seq<(ChainNetwork, Step)>,
    inputs: Seq<Input>,
    codecs: Codecs<F, G, H>,
    received: int,
    now: int,
)
    requires
        is_run(moments, inputs, codecs),
        0 <= received < now < moments.len(),
        inputs[received] matches Input::Network(event) && event is NotificationsInOpen,
        forall|j: int| received < j < now ==> !(#[trigger] inputs[j] is Accepted),
    ensures
        inputs[received] matches Input::Network(
            NetworkEvent::NotificationsInOpen { id, overlay_network_index, .. },
        ) && moments[now].0.pending() matches Some(pending) && pending.id == id
            && pending.overlay_network_index == overlay_network_index && sends_handshake(
            moments[received].0.chains(),
            overlay_network_index,
            codecs.encode_handshake,
            pending.handshake,
        ),
        moments[now].0.pending() == moments[received + 1].0.pending(),
        moments[now].0.resumes_with(moments[now].1),
    decreases now,
{
    if now == received + 1 {
        assert(goes_on(moments, inputs, codecs, received));
    } else {
        law_received_substream_never_lost(moments, inputs, codecs, received, now - 1);
        law_pending_substream_kept(moments, inputs, codecs, now - 1);
        law_pending_substream_comes_first(moments, inputs, codecs, now);
    }
}

/// Once an inbound substream has been accepted, nothing has to be accepted any more, and the caller
/// isn't asked for it again, until another inbound substream is received.
///
/// `accepted` is the moment at which the substream is accepted, `now` any later one before which no
/// inbound substream is received.
pub proof fn law_acceptance_not_repeated<
    E,
    A,
    AE,
    F: Fn(&[u8]) -> Result<BlockAnnouncesHandshake, E>,
    G: Fn(BlockAnnouncesHandshake) -> Vec<Vec<u8>>,
    H: Fn(&[u8]) -> Result<A, AE>,
>(
    moments: Seq<(ChainNetwork, Step)>,
    inputs: Seq<Input>,
    codecs: Codecs<F, G, H>,
    accepted: int,
    now: int,
)
    requires
        is_run(moments, inputs, codecs),
        0 <= accepted < now < moments.len(),
        inputs[accepted] is Accepted,
        forall|j: int|
            accepted < j < now ==> !(#[trigger] inputs[j] matches Input::Network(event)
                && event is NotificationsInOpen),
    ensures
        moments[now].0.pending() is None,
        !(moments[now].1 is AcceptNotificationsIn),
    decreases now,
{
    assert(goes_on(moments, inputs, codecs, now - 1));
    if now > accepted + 1 {
        law_acceptance_not_repeated(moments, inputs, codecs, accepted, now - 1);
    }
    law_pending_substream_comes_first(moments, inputs, codecs, now);
}

/// Over a run, events that call for nothing are skipped, however many there are: the service still
/// waits for the next event, and reacts to whatever comes next as if they hadn't been there.
///
/// All the inputs between the moments `from` and `to` are such events.
pub proof fn law_skipped_events_skipped_over_run<
    E,
    A,
    AE,
    F: Fn(&[u8]) -> Result<BlockAnnouncesHandshake, E>,
    G: Fn(BlockAnnouncesHandshake) -> Vec<Vec<u8>>,
    H: Fn(&[u8]) -> Result<A, AE>,
>(
    moments: Seq<(ChainNetwork, Step)>,
    inputs: Seq<Input>,
    codecs: Codecs<F, G, H>,
    from: int,
    to: int,
)
    requires
        is_run(moments, inputs, codecs),
        0 <= from <= to < moments.len(),
        moments[from].1 is PollNetwork,
        forall|j: int|
            from <= j < to ==> (#[trigger] inputs[j] matches Input::Network(event) && is_skipped(
                event,
            )),
    ensures
        moments[to].0.chains() == moments[from].0.chains(),
        moments[to].0.pending() is None,
        moments[from].0.pending() is None,
        moments[to].1 == Step::PollNetwork,
        forall|input: Input, after: ChainNetwork, step: Step|
            moments[to].0.transitions(input, codecs, after, step) <==> moments[from].0.transitions(
                input,
                codecs,
                after,
                step,
            ),
    decreases to - from,
{
    law_pending_substream_comes_first(moments, inputs, codecs, from);
    if from < to {
        law_skipped_events_skipped_over_run(moments, inputs, codecs, from, to - 1);
        assert(goes_on(moments, inputs, codecs, to - 1));
        if let Input::Network(event) = inputs[to - 1] {
            law_skipped_events_change_nothing(
                moments[to - 1].0,
                event,
                codecs,
                moments[to].0,
                moments[to].1,
            );
        }
    }
}

/// Whether an event of the connection layer can be handled by a service with the chains of
/// `network`: the protocols that it mentions belong to one of the chains, and what the remote sends
/// is valid.
pub open spec fn is_sound<
    E,
    A,
    AE,
    F: Fn(&[u8]) -> Result<BlockAnnouncesHandshake, E>,
    G: Fn(BlockAnnouncesHandshake) -> Vec<Vec<u8>>,
    H: Fn(&[u8]) -> Result<A, AE>,
>(
    network: ChainNetwork,
    event: NetworkEvent,
    codecs: Codecs<F, G, H>,
) -> bool {
    &&& is_about_chains(network, event)
    &&& match event {
        NetworkEvent::NotificationsOutAccept {
            overlay_network_index,
            remote_handshake,
            ..
        } => is_block_announces(overlay_network_index) ==> is_valid(
            codecs.decode_handshake,
            remote_handshake@,
        ),
        NetworkEvent::NotificationsInOpen {
            overlay_network_index,
            remote_handshake,
            ..
        } => is_block_announces(overlay_network_index) ==> is_valid(
            codecs.decode_handshake,
            remote_handshake@,
        ),
        NetworkEvent::NotificationsIn {
            overlay_network_index,
            notification,
            ..
        } => is_block_announces(overlay_network_index) ==> is_valid(
            codecs.decode_announce,
            notification@,
        ),
        _ => true,
    }
}

/// In a run in which the connection layer mentions no protocol other than those of the chains and
/// the remotes send nothing invalid, every input can be handled, every state is well-formed, and
/// every chain index that is reported is that of a chain.
pub proof fn law_runs_stay_within_chains<
    E,
    A,
    AE,
    F: Fn(&[u8]) -> Result<BlockAnnouncesHandshake, E>,
    G: Fn(BlockAnnouncesHandshake) -> Vec<Vec<u8>>,
    H: Fn(&[u8]) -> Result<A, AE>,
>(
    moments: Seq<(ChainNetwork, Step)>,
    inputs: Seq<Input>,
    codecs: Codecs<F, G, H>,
    i: int,
)
    requires
        is_run(moments, inputs, codecs),
        moments[0].0.wf(),
        forall|chain: ChainConfig| #[trigger]
            codecs.encode_handshake.requires((local_handshake(chain),)),
        forall|j: int|
            0 <= j < inputs.len() ==> (#[trigger] inputs[j] matches Input::Network(event)
                ==> is_sound(moments[0].0, event, codecs)),
        0 <= i < moments.len(),
    ensures
        moments[i].0.wf(),
        moments[i].0.chains() == moments[0].0.chains(),
        mentions_chains_only(moments[i].0, moments[i].1),
        i < inputs.len() ==> moments[i].0.handles(inputs[i], codecs),
    decreases i,
{
    if i > 0 {
        law_runs_stay_within_chains(moments, inputs, codecs, i - 1);
        assert(goes_on(moments, inputs, codecs, i - 1));
        let input = inputs[i - 1];
        if let Input::Network(event) = input {
            assert(is_sound(moments[0].0, event, codecs));
            if let NetworkEvent::Disconnected { out_overlay_network_indices, .. } = event {
                let indices = out_overlay_network_indices@;
                let reported = announced_chains(indices);
                assert forall|j: int| 0 <= j < reported.len() implies #[trigger] reported[j]
                    < moments[0].0.chains().len() by {
                    law_disconnection_reports_announced_chains(indices, reported[j]);
                    assert(reported.contains(reported[j]));
                }
            }
        }
    }
    if i < inputs.len() {
        assert(goes_on(moments, inputs, codecs, i));
        if let Input::Network(event) = inputs[i] {
            assert(is_sound(moments[0].0, event, codecs));
        }
    }
}

} // verus!
