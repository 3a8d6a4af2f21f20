//! What a node and a client send of their own accord, and under which names and
//! addresses, told from what went in and what came out.

use vstd::prelude::*;

use crate::client::{client_message, client_round, ClientRun, SignedMessage, MESSAGES_PER_RUN};
use crate::controller::TICK_MILLIS;
use crate::handler::{answer, answerable, NodeState, PeerEventHandler};
use crate::identity::{generate_peer_id, is_base58_of, law_id_tells_key, peer_id_of, peer_id_of_secret, public_key};
use crate::laws::answering::law_shuffle_request_draws_from_active_peers;
use crate::laws::{lemma_reordered, provokes};
use crate::message::{acknowledgement, Action, ConnectPriority, Deed, Event, Message, NetworkViewEvent, Outgoing, PeerMessage, Sending, MAX_DATAGRAM_SIZE};
use crate::network_view::ImmutableNetworkView;
use crate::peer::{address_of, clone_peers, first_peers, infos, is_loopback, loopback, IpOctets, PeerConnectInfo, PeerId, PeerInfo, Port, SocketAddress, TTL};
use crate::peers::values;
use crate::sampling::{reordered, shuffled_by_os, shuffled_by_thread};
use crate::server::{Server, ShuffleRound, REPLY_TIMEOUT_MILLIS};

verus! {

// ---- Peers and addresses ----

/// A loopback address has the octets 127, 0, 0 and 1, and no other address is one.
pub proof fn law_loopback_octets(octets: IpOctets)
    ensures
        is_loopback(octets) <==> octets@[0] == 127 && octets@[1] == 0 && octets@[2] == 0
            && octets@[3] == 1,
        call_ensures(loopback, (), octets) ==> octets@[0] == 127 && octets@[1] == 0 && octets@[2]
            == 0 && octets@[3] == 1,
{
    if octets@[0] == 127 && octets@[1] == 0 && octets@[2] == 0 && octets@[3] == 1 {
        assert(octets@ =~= seq![127u8, 0u8, 0u8, 1u8]);
    }
}

/// A peer is reached at its own octets and port.
pub proof fn law_peers_are_reached_where_they_listen(
    peer: PeerConnectInfo,
    address: SocketAddress,
)
    requires
        address == address_of(peer@) || call_ensures(PeerConnectInfo::address, (&peer,), address),
    ensures
        address == SocketAddress::V4(peer.ip_octets, peer.port),
{
}

/// Peers with the same value have the same name, octets and port.
pub proof fn law_values_tell_peers_apart(peer: PeerConnectInfo, other: PeerConnectInfo)
    ensures
        peer@ == other@ <==> peer.peer_id@ == other.peer_id@ && peer.ip_octets == other.ip_octets
            && peer.port == other.port,
        peer@.peer_id == peer.peer_id@,
        peer@.ip_octets == peer.ip_octets,
        peer@.port == peer.port,
{
}

/// Lists of peers keep order, length and peers, in their values, in copies, and in
/// what is taken from their front.
pub proof fn law_lists_of_peers(
    peers: Vec<PeerConnectInfo>,
    copy: Vec<PeerConnectInfo>,
    count: usize,
    first: Vec<PeerConnectInfo>,
)
    requires
        count <= peers@.len(),
        call_ensures(clone_peers, (&peers,), copy),
        call_ensures(first_peers, (&peers, count), first),
    ensures
        call_requires(first_peers, (&peers, count)),
        infos(peers@).len() == peers@.len(),
        copy@.len() == peers@.len(),
        first@.len() == count,
        forall|i: int| 0 <= i < peers@.len() ==> #[trigger] infos(peers@)[i] == peers@[i]@,
        forall|i: int| 0 <= i < peers@.len() ==> #[trigger] copy@[i] == peers@[i],
        forall|i: int| 0 <= i < count ==> #[trigger] first@[i] == peers@[i],
{
}

/// Copies of peers, messages and events have the value of what was copied.
pub proof fn law_copies_keep_values(
    peer: PeerConnectInfo,
    peer_copy: PeerConnectInfo,
    message: PeerMessage,
    message_copy: PeerMessage,
    event: NetworkViewEvent,
    event_copy: NetworkViewEvent,
)
    requires
        call_ensures(<PeerConnectInfo as Clone>::clone, (&peer,), peer_copy),
        call_ensures(<PeerMessage as Clone>::clone, (&message,), message_copy),
        call_ensures(<NetworkViewEvent as Clone>::clone, (&event,), event_copy),
    ensures
        peer_copy@ == peer@,
        message_copy@ == message@,
        event_copy@ == event@,
{
}

/// The value of a message tells all that it carries, and so do those of an event,
/// of a message on its way and of an action.
pub proof fn law_values_tell_all(
    message: PeerMessage,
    event: NetworkViewEvent,
    outgoing: Outgoing,
    action: Action,
)
    ensures
        match message {
            PeerMessage::Join(id, ttl, port) => message@ == Message::Join(id@, ttl, port),
            PeerMessage::ForwardJoin(octets, id, ttl, port) => message@ == Message::ForwardJoin(
                octets,
                id@,
                ttl,
                port,
            ),
            PeerMessage::ShuffleRequest(octets, peers, ttl, port) => {
                &&& message@ matches Message::ShuffleRequest(origin, carried, hops, at)
                &&& origin == octets && hops == ttl && at == port
                &&& carried.len() == peers@.len()
                &&& forall|i: int| 0 <= i < carried.len() ==> #[trigger] carried[i] == peers@[i]@
            },
            PeerMessage::ShuffleResponse(peers) => {
                &&& message@ matches Message::ShuffleResponse(carried)
                &&& carried.len() == peers@.len()
                &&& forall|i: int| 0 <= i < carried.len() ==> #[trigger] carried[i] == peers@[i]@
            },
            PeerMessage::Connect(id, priority, port) => message@ == Message::Connect(
                id@,
                priority,
                port,
            ),
            PeerMessage::Disconnect(id, alive, respond) => message@ == Message::Disconnect(
                id@,
                alive,
                respond,
            ),
        },
        match event {
            NetworkViewEvent::UnreachablePeer(id) => event@ == Event::UnreachablePeer(id@),
            NetworkViewEvent::AddActivePeer(peer) => event@ == Event::AddActivePeer(peer@),
            NetworkViewEvent::RemoveActivePeer => event@ == Event::RemoveActivePeer,
            NetworkViewEvent::AddPassivePeer(peer) => event@ == Event::AddPassivePeer(peer@),
        },
        outgoing@.to == outgoing.to,
        outgoing@.message == outgoing.message@,
        match action {
            Action::Notify(noted) => action@ == Deed::Notify(noted@),
            Action::Send(sent) => action@ == Deed::Send(sent@),
            Action::Acknowledge(to) => action@ == Deed::Acknowledge(to),
        },
{
}

/// Peers in random order are the peers there were, each as often as before.
pub proof fn law_random_order_keeps_the_peers(
    peers: Vec<PeerConnectInfo>,
    order: Vec<PeerConnectInfo>,
)
    requires
        call_ensures(shuffled_by_os, (peers,), order) || call_ensures(
            shuffled_by_thread,
            (peers,),
            order,
        ),
    ensures
        order@.len() == peers@.len(),
        infos(order@).to_multiset() == infos(peers@).to_multiset(),
        forall|info: PeerInfo| infos(order@).contains(info) <==> infos(peers@).contains(info),
{
    lemma_reordered(infos(order@), infos(peers@));
}

// ---- Joining ----

/// A node is kept from starting by bootstrap text that is no address and by the
/// address 127.0.0.1 with its own port, and by nothing else. Every other address
/// is sent a `Join` where a socket is bound: under the node's id and port and with
/// four hops. Without an address or a socket nothing is sent.
pub proof fn law_bootstrap(
    bootstrap: Option<Result<SocketAddress, ()>>,
    socket_bound: bool,
    local_peer_id: PeerId,
    local_port: Port,
    join: Result<Option<Outgoing>, ()>,
)
    requires
        call_ensures(
            Server::bootstrap_local_node,
            (bootstrap, socket_bound, local_peer_id, local_port),
            join,
        ),
    ensures
        bootstrap is None ==> join == Ok::<Option<Outgoing>, ()>(None),
        bootstrap matches Some(Err(_)) ==> join is Err,
        bootstrap matches Some(Ok(SocketAddress::V4(octets, port))) ==> (join is Err <==> octets@[0]
            == 127 && octets@[1] == 0 && octets@[2] == 0 && octets@[3] == 1 && port == local_port),
        bootstrap matches Some(Ok(SocketAddress::V6(..))) ==> join is Ok,
        join matches Ok(sent) ==> (sent is Some <==> bootstrap is Some && socket_bound),
        join matches Ok(Some(sent)) ==> {
            &&& bootstrap matches Some(Ok(address)) && sent.to == address
            &&& sent.message@ matches Message::Join(id, hops, port)
            &&& id == local_peer_id@
            &&& hops == 4
            &&& port == local_port
        },
{
    if let Some(Ok(SocketAddress::V4(octets, _))) = bootstrap {
        law_loopback_octets(octets);
    }
}

/// A `Join` names the node that joins, its port and four hops; a `Connect` names
/// the node, its port and the priority; a message that is passed on is unchanged;
/// and each goes to the address given.
pub proof fn law_single_messages(
    to: SocketAddress,
    peer_id: PeerId,
    port: Port,
    priority: ConnectPriority,
    message: PeerMessage,
    join: Outgoing,
    connect: Outgoing,
    forwarded: Outgoing,
)
    requires
        call_ensures(Server::send_join, (to, peer_id, port), join),
        call_ensures(Server::send_connect, (to, priority, peer_id, port), connect),
        call_ensures(Server::forward_join, (to, &message), forwarded),
    ensures
        join.to == to,
        join.message@ == Message::Join(peer_id@, 4, port),
        connect.to == to,
        connect.message@ == Message::Connect(peer_id@, priority, port),
        forwarded.to == to,
        forwarded.message@ == message@,
{
    assert(join@.to == join.to && join@.message == join.message@);
    assert(connect@.to == connect.to && connect@.message == connect.message@);
    assert(forwarded@.to == forwarded.to && forwarded@.message == forwarded.message@);
}

/// A node runs from the time it has bootstrapped until it is shut down; one that
/// could not bootstrap has no handler and is as it was. The handler that it gets
/// has its id and port, knows no peer and takes the network for one of four, with
/// messages of three hops.
pub proof fn law_life_of_a_node(
    fresh: Server,
    server: &mut Server,
    local_peer_id: PeerId,
    local_port: Port,
    bootstrapped: Result<(), ()>,
    handler: Result<PeerEventHandler, ()>,
    stopped: &mut Server,
    asked: Server,
    running: bool,
)
    requires
        call_ensures(Server::new, (), fresh),
        call_ensures(Server::run, (server, local_peer_id, &local_port, bootstrapped), handler),
        call_ensures(Server::shutdown, (stopped,), ()),
        call_ensures(Server::is_running, (&asked,), running),
    ensures
        !fresh.running(),
        bootstrapped is Ok ==> final(server).running(),
        bootstrapped is Err ==> handler is Err && final(server).running() == old(server).running(),
        bootstrapped is Ok ==> {
            &&& handler matches Ok(node)
            &&& node@.peer_id == local_peer_id@
            &&& node@.port == local_port
            &&& node@.view.active.len() == 0
            &&& node@.view.passive.len() == 0
            &&& node@.view.size == 4
            &&& node@.view.ttl == 3
        },
        !final(stopped).running(),
        running == asked.running(),
{
}

// ---- Shuffling ----

/// A shuffle among peers in some order is one message, to the first of them where
/// it listens: a `ShuffleRequest` that names 127.0.0.1, that peer alone, the hops
/// drawn and the local port.
pub proof fn law_shuffle_round_names_the_local_port(
    order: Vec<PeerConnectInfo>,
    ttl_draw: TTL,
    local_port: Port,
    round: ShuffleRound,
)
    requires
        order@.len() > 0,
        call_ensures(Server::shuffle_round, (&order, ttl_draw, local_port), round),
    ensures
        call_requires(Server::shuffle_round, (&order, ttl_draw, local_port)),
        round@.len() == 1,
        round@[0].to == SocketAddress::V4(order@[0].ip_octets, order@[0].port),
        round@[0].message matches Message::ShuffleRequest(origin, peers, hops, port) && {
            &&& origin@[0] == 127 && origin@[1] == 0 && origin@[2] == 0 && origin@[3] == 1
            &&& peers.len() == 1
            &&& peers[0] == order@[0]@
            &&& hops == ttl_draw
            &&& port == local_port
        },
{
    assert(round@.len() == 1);
    assert(round@[0].to == round@[0].to);
    if let Message::ShuffleRequest(origin, _, _, _) = round@[0].message {
        law_loopback_octets(origin);
    }
}

/// A shuffle from a view is one message, to a peer that the view holds, active or
/// passive, where that peer listens: a `ShuffleRequest` that names 127.0.0.1, that
/// peer alone, the hops drawn and the local port. It can be sent from every view
/// that holds a peer, for every draw below the view's hops.
pub proof fn law_shuffle_asks_a_known_peer(
    view: ImmutableNetworkView,
    ttl_draw: TTL,
    local_port: Port,
    round: ShuffleRound,
)
    requires
        view.active_view.entries().len() + view.passive_view.entries().len() > 0,
        ttl_draw < view.ttl || (ttl_draw == 0 && view.ttl == 0),
        call_ensures(Server::send_shuffle, (&view, ttl_draw, local_port), round),
    ensures
        call_requires(Server::send_shuffle, (&view, ttl_draw, local_port)),
        round@.len() == 1,
        round@[0].message matches Message::ShuffleRequest(origin, peers, hops, port) && {
            &&& origin@[0] == 127 && origin@[1] == 0 && origin@[2] == 0 && origin@[3] == 1
            &&& hops == ttl_draw
            &&& port == local_port
            &&& peers.len() == 1
            &&& round@[0].to == SocketAddress::V4(peers[0].ip_octets, peers[0].port)
            &&& {
                ||| exists|i: int|
                    0 <= i < view.active_view.entries().len()
                        && #[trigger] view.active_view.entries()[i].1 == peers[0]
                ||| exists|i: int|
                    0 <= i < view.passive_view.entries().len()
                        && #[trigger] view.passive_view.entries()[i].1 == peers[0]
            }
        },
{
    let (active, passive) = (view.active_view.entries(), view.passive_view.entries());
    assert(view@.active == active && view@.passive == passive && view@.ttl == view.ttl);
    let all = values(active) + values(passive);
    let order = choose|order: Seq<PeerInfo>|
        #![trigger order.take(1)]
        reordered(order, all) && crate::server::is_shuffle_round(
            round@,
            order.take(1),
            ttl_draw,
            local_port,
        );
    assert(reordered(order, all) && crate::server::is_shuffle_round(
        round@,
        order.take(1),
        ttl_draw,
        local_port,
    ));
    lemma_reordered(order, all);
    assert(order.len() == all.len() && all.len() == active.len() + passive.len());
    assert(round@.len() == 1);
    assert(round@[0].to == round@[0].to);
    if let Message::ShuffleRequest(origin, peers, _, _) = round@[0].message {
        law_loopback_octets(origin);
        assert(peers[0] == order[0]);
        assert(order.contains(order[0]));
        let i = choose|i: int| 0 <= i < all.len() && all[i] == order[0];
        if i < active.len() {
            assert(active[i].1 == peers[0]);
        } else {
            assert(passive[i - active.len()].1 == peers[0]);
        }
    }
}

/// The peers that a shuffle asks for come back to where it started. The node at
/// which its hops are used up sends its `ShuffleResponse` to 127.0.0.1, at the
/// local port of the node that started the shuffle; and it notes nothing itself.
pub proof fn law_shuffle_comes_back(
    order: Vec<PeerConnectInfo>,
    local_port: Port,
    round: ShuffleRound,
    handler: &PeerEventHandler,
    origin: IpOctets,
    peers: Vec<PeerConnectInfo>,
    port: Port,
    from: SocketAddress,
    actions: Vec<Action>,
)
    requires
        order@.len() > 0,
        handler@.view.active.len() > 0,
        call_ensures(Server::shuffle_round, (&order, 0, local_port), round),
        PeerMessage::ShuffleRequest(origin, peers, 0, port)@ == round@[0].message,
        call_ensures(
            PeerEventHandler::handle_message,
            (handler, PeerMessage::ShuffleRequest(origin, peers, 0, port), from),
            actions,
        ),
    ensures
        actions@.len() == 2,
        actions@[0]@ matches Deed::Send(sent) && {
            &&& sent.to matches SocketAddress::V4(octets, at)
            &&& octets@[0] == 127 && octets@[1] == 0 && octets@[2] == 0 && octets@[3] == 1
            &&& at == local_port
            &&& sent.message matches Message::ShuffleResponse(returned)
            &&& returned.len() == 1
        },
        actions@[1]@ == Deed::Acknowledge(from),
{
    law_shuffle_round_names_the_local_port(order, 0, local_port, round);
    assert(infos(peers@).len() == peers@.len());
    law_shuffle_request_draws_from_active_peers(handler, origin, peers, 0, port, from, actions);
}

/// However many nodes a shuffle passes, they all get the request that its first
/// node got, but for a hop less each time: its origin, its port and its peers do
/// not change on the way.
pub proof fn law_shuffle_keeps_its_origin(
    chain: Seq<Message>,
    origin: IpOctets,
    peers: Seq<PeerInfo>,
    ttl: TTL,
    port: Port,
    i: int,
)
    requires
        chain.len() > 0,
        chain[0] == Message::ShuffleRequest(origin, peers, ttl, port),
        forall|k: int| 0 <= k < chain.len() - 1 ==> #[trigger] provokes(chain[k], chain[k + 1]),
        0 <= i < chain.len(),
        i <= ttl,
    ensures
        chain[i] == Message::ShuffleRequest(origin, peers, (ttl - i) as u8, port),
    decreases i,
{
    if i > 0 {
        law_shuffle_keeps_its_origin(chain, origin, peers, ttl, port, i - 1);
        assert(provokes(chain[i - 1], chain[i - 1 + 1]));
        let (node, from, order, to) = choose|
            node: NodeState,
            from: SocketAddress,
            order: Seq<PeerInfo>,
            to: SocketAddress,
        |
            answerable(node, chain[i - 1], from) && #[trigger] answer(
                node,
                chain[i - 1],
                from,
                order,
            ).contains(Deed::Send(Sending { to, message: chain[i] }));
        let done = answer(node, chain[i - 1], from, order);
        let k = choose|k: int|
            0 <= k < done.len() && done[k] == Deed::Send(Sending { to, message: chain[i] });
        assert(k == 0);
    }
}

/// The messages of a shuffle go out one by one, from the front; one that could not
/// be sent ends the shuffle, and one that went out ends nothing.
pub proof fn law_rounds_go_out_in_order(
    round: &mut ShuffleRound,
    next: Option<Outgoing>,
    sending: &mut ShuffleRound,
    sent_bytes: usize,
)
    requires
        call_ensures(ShuffleRound::next_message, (round,), next),
        call_ensures(ShuffleRound::sent, (sending, sent_bytes), ()),
    ensures
        next is Some <==> old(round)@.len() > 0,
        next matches Some(sent) ==> {
            &&& sent.to == old(round)@[0].to
            &&& sent.message@ == old(round)@[0].message
            &&& old(round)@ == seq![old(round)@[0]] + final(round)@
        },
        next is None ==> final(round)@.len() == 0,
        sent_bytes == 0 ==> final(sending)@.len() == 0,
        sent_bytes > 0 ==> final(sending)@ == old(sending)@,
{
    if let Some(sent) = next {
        assert(sent@.to == sent.to && sent@.message == sent.message@);
        assert(old(round)@ =~= seq![old(round)@[0]] + old(round)@.drop_first());
    }
}

/// An acknowledgement is the text `ACK`; a tick comes every ten seconds, and an
/// acknowledgement is waited for no longer than 150 milliseconds; a datagram has
/// at most a kibibyte.
pub proof fn law_times_and_sizes(bytes: [u8; 3])
    requires
        call_ensures(acknowledgement, (), bytes),
    ensures
        bytes@ == seq![0x41u8, 0x43u8, 0x4Bu8],
        TICK_MILLIS == 10 * 1000,
        REPLY_TIMEOUT_MILLIS == 150,
        MAX_DATAGRAM_SIZE == 1024,
{
    assert(bytes@ =~= seq![0x41u8, 0x43u8, 0x4Bu8]);
}

// ---- The client ----

/// A client's message has the byte that was given all over its public key, ones
/// in its signature and topic, twos in its payload, and the size of topic and
/// payload together.
pub proof fn law_client_message(dummy_pubkey: u8, sent: SignedMessage)
    requires
        call_ensures(client_message, (dummy_pubkey,), sent),
    ensures
        forall|i: int| 0 <= i < 32 ==> #[trigger] sent.pubkey@[i] == dummy_pubkey,
        forall|i: int| 0 <= i < 64 ==> #[trigger] sent.signature@[i] == 1,
        forall|i: int| 0 <= i < 32 ==> #[trigger] sent.topic@[i] == 1,
        forall|i: int| 0 <= i < 892 ==> #[trigger] sent.message@[i] == 2,
        sent.payload_size == 32 + 892,
{
}

/// A run has a thousand rounds, and each uses up one. A round sends the client's
/// message to port 3000 of 127.0.0.1 where it has a socket, and nothing else.
pub proof fn law_client_run(
    fresh: ClientRun,
    left: usize,
    run: &mut ClientRun,
    dummy_pubkey: u8,
    socket_bound: bool,
    sent: Option<(SocketAddress, SignedMessage)>,
)
    requires
        old(run)@ > 0,
        call_ensures(ClientRun::new, (), fresh),
        call_ensures(ClientRun::rounds_left, (&fresh,), left),
        call_ensures(ClientRun::next_round, (run, dummy_pubkey, socket_bound), sent)
            || (call_ensures(client_round, (dummy_pubkey, socket_bound), sent) && final(run)@
            == old(run)@ - 1),
    ensures
        call_requires(ClientRun::next_round, (run, dummy_pubkey, socket_bound)),
        fresh@ == 1000,
        left == 1000,
        MESSAGES_PER_RUN == 1000,
        final(run)@ == old(run)@ - 1,
        sent is Some <==> socket_bound,
        sent matches Some((to, message)) ==> {
            &&& to matches SocketAddress::V4(octets, port)
            &&& octets@[0] == 127 && octets@[1] == 0 && octets@[2] == 0 && octets@[3] == 1
            &&& port == 3000
            &&& forall|i: int| 0 <= i < 32 ==> #[trigger] message.pubkey@[i] == dummy_pubkey
            &&& forall|i: int| 0 <= i < 64 ==> #[trigger] message.signature@[i] == 1
            &&& forall|i: int| 0 <= i < 32 ==> #[trigger] message.topic@[i] == 1
            &&& forall|i: int| 0 <= i < 892 ==> #[trigger] message.message@[i] == 2
            &&& message.payload_size == 32 + 892
        },
{
    if let Some((SocketAddress::V4(octets, _), _)) = sent {
        law_loopback_octets(octets);
    }
}

// ---- Ids ----

/// The id of a node tells its public key: of the keys whose Base58 form it could
/// be, it is the one that was given, or the one that belongs to the secret given.
pub proof fn law_ids_tell_keys(
    key: [u8; 32],
    id: PeerId,
    secret: [u8; 32],
    secret_id: PeerId,
    other: Seq<u8>,
)
    requires
        call_ensures(peer_id_of, (&key,), id),
        call_ensures(peer_id_of_secret, (&secret,), secret_id),
    ensures
        is_base58_of(id@, other) <==> other == key@,
        is_base58_of(secret_id@, other) <==> other == public_key(secret@),
{
    if is_base58_of(id@, other) {
        law_id_tells_key(id@, other, key@);
    }
    if is_base58_of(secret_id@, other) {
        law_id_tells_key(secret_id@, other, public_key(secret@));
    }
}

/// The id of a new node is that of the public key of some secret.
pub proof fn law_new_ids_belong_to_secrets(id: PeerId)
    requires
        call_ensures(generate_peer_id, (), id),
    ensures
        exists|secret: [u8; 32]| #[trigger] is_base58_of(id@, public_key(secret@)),
{
}

} // verus!
