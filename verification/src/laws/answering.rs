//! What a node does on the messages that reach it, told from what went in and
//! what came out.

use vstd::prelude::*;

use crate::handler::{answer, connect_answer, forward_join_answer, forwards, join_answer, not_called, not_under, shuffle_request_answer, shuffle_response_answer, PeerEventHandler};
use crate::laws::{lemma_forwards, lemma_reordered};
use crate::message::{deeds, Action, ConnectPriority, Deed, Event, Message, PeerMessage, Sending};
use crate::network_view::ImmutableNetworkView;
use crate::peer::{infos, IpOctets, PeerConnectInfo, PeerId, PeerInfo, Port, ShufflePeers, SocketAddress, TTL};
use crate::peers::{values, Entry};
use crate::sampling::reordered;

verus! {

/// One more active peer gets one more forward, unless it is the one that joins.
proof fn lemma_one_more_forward(active: Seq<Entry>, more: Entry, joining: Seq<char>, message: Message)
    ensures
        forwards(active.push(more), joining, message) == (if more.0 != joining {
            forwards(active, joining, message).push(
                Deed::Send(
                    Sending { to: SocketAddress::V4(more.1.ip_octets, more.1.port), message },
                ),
            )
        } else {
            forwards(active, joining, message)
        }),
        forwards(Seq::empty(), joining, message).len() == 0,
{
    reveal(Seq::filter);
    assert(active.push(more).drop_last() =~= active);
    assert(forwards(active.push(more), joining, message) =~= (if more.0 != joining {
        forwards(active, joining, message).push(
            Deed::Send(Sending { to: SocketAddress::V4(more.1.ip_octets, more.1.port), message }),
        )
    } else {
        forwards(active, joining, message)
    }));
}

/// A node that starts knows its id and its port, no peer, a network of four and
/// messages of three hops.
pub proof fn law_handler_starts_without_peers(
    local_peer_id: PeerId,
    local_port: Port,
    handler: PeerEventHandler,
)
    requires
        call_ensures(PeerEventHandler::new, (local_peer_id, local_port), handler),
    ensures
        handler@.peer_id == local_peer_id@,
        handler@.port == local_port,
        handler@.view.active.len() == 0,
        handler@.view.passive.len() == 0,
        handler@.view.size == 4,
        handler@.view.ttl == 3,
{
}

/// A snapshot that comes is what a node knows from then on; where none comes it
/// knows what it knew. Its id and port never change.
pub proof fn law_handler_knows_the_latest_snapshot(
    handler: &mut PeerEventHandler,
    received: Option<ImmutableNetworkView>,
)
    requires
        call_ensures(PeerEventHandler::observe, (handler, received), ()),
    ensures
        final(handler)@.peer_id == old(handler)@.peer_id,
        final(handler)@.port == old(handler)@.port,
        received is None ==> final(handler)@.view == old(handler)@.view,
        received matches Some(view) ==> {
            &&& final(handler)@.view.active == view.active_view.entries()
            &&& final(handler)@.view.passive == view.passive_view.entries()
            &&& final(handler)@.view.size == view.assumed_network_size
            &&& final(handler)@.view.ttl == view.ttl
        },
{
}

/// A node welcomes a peer by taking it for active and connecting to it, at the
/// address that was given, under its own id and port.
pub proof fn law_welcome(
    handler: &PeerEventHandler,
    octets: IpOctets,
    joining: PeerId,
    port: Port,
    actions: Vec<Action>,
)
    requires
        call_ensures(PeerEventHandler::welcome_peer, (handler, octets, &joining, port), actions),
    ensures
        actions@.len() == 2,
        actions@[0]@ == Deed::Notify(
            Event::AddActivePeer(PeerInfo { peer_id: joining@, ip_octets: octets, port }),
        ),
        actions@[1]@ == Deed::Send(
            Sending {
                to: SocketAddress::V4(octets, port),
                message: Message::Connect(
                    handler@.peer_id,
                    ConnectPriority::Normal,
                    handler@.port,
                ),
            },
        ),
{
    let done = deeds(actions@);
    assert(done.len() == 2);
    assert(done[0] == actions@[0]@ && done[1] == actions@[1]@);
}

/// A peer that joins over IPv4 becomes active, at the address it came from and
/// the port it named, and that is all that is noted. It is sent a `Connect`; the
/// active peers but itself are sent a `ForwardJoin` with one hop less; nothing
/// else is sent.
pub proof fn law_join_notes_and_sends(
    handler: &PeerEventHandler,
    joining: PeerId,
    ttl: TTL,
    port: Port,
    octets: IpOctets,
    from_port: Port,
    actions: Vec<Action>,
)
    requires
        ttl > 0,
        call_ensures(
            PeerEventHandler::handle_join,
            (handler, joining, ttl, port, SocketAddress::V4(octets, from_port)),
            actions,
        ) || call_ensures(
            PeerEventHandler::handle_message,
            (handler, PeerMessage::Join(joining, ttl, port), SocketAddress::V4(octets, from_port)),
            actions,
        ),
    ensures
        forall|event: Event|
            #[trigger] deeds(actions@).contains(Deed::Notify(event)) <==> event
                == Event::AddActivePeer(PeerInfo { peer_id: joining@, ip_octets: octets, port }),
        forall|sent: Sending|
            #[trigger] deeds(actions@).contains(Deed::Send(sent)) <==> {
                ||| sent.to == SocketAddress::V4(octets, port) && sent.message == Message::Connect(
                    handler@.peer_id,
                    ConnectPriority::Normal,
                    handler@.port,
                )
                ||| {
                    &&& sent.message matches Message::ForwardJoin(ip, id, hops, at)
                    &&& ip == octets && id == joining@ && hops == ttl - 1 && at == port
                    &&& exists|j: int|
                        0 <= j < handler@.view.active.len()
                            && #[trigger] handler@.view.active[j].0 != joining@ && sent.to
                            == SocketAddress::V4(
                            handler@.view.active[j].1.ip_octets,
                            handler@.view.active[j].1.port,
                        )
                }
            },
        forall|to: SocketAddress| !(#[trigger] deeds(actions@).contains(Deed::Acknowledge(to))),
        actions@.len() == 2 + handler@.view.active.filter(
            |entry: Entry| entry.0 != joining@,
        ).len(),
        actions@[0]@ is Notify,
        actions@[1]@ matches Deed::Send(sent) && sent.message is Connect,
{
    let from = SocketAddress::V4(octets, from_port);
    let done = deeds(actions@);
    assert(done == join_answer(handler@, joining@, ttl, port, from));
    let active = handler@.view.active;
    let passed = Message::ForwardJoin(octets, joining@, (ttl - 1) as u8, port);
    let all = forwards(active, joining@, passed);
    lemma_forwards(active, joining@, passed);
    assert(not_under(joining@) =~= (|entry: Entry| entry.0 != joining@));
    assert(done.len() == 2 + all.len());
    assert(done[0] == actions@[0]@ && done[1] == actions@[1]@);
    assert(forall|i: int| 2 <= i < done.len() ==> #[trigger] done[i] == all[i - 2]);
    let note = Event::AddActivePeer(PeerInfo { peer_id: joining@, ip_octets: octets, port });
    assert(done[0] == Deed::Notify(note));
    assert(done.contains(done[0]) && done.contains(done[1]));
    assert forall|sent: Sending|
        #[trigger] done.contains(Deed::Send(sent)) <==> (done[1] == Deed::Send(sent) || (
        sent.message == passed && exists|j: int|
            0 <= j < active.len() && #[trigger] active[j].0 != joining@ && sent.to
                == SocketAddress::V4(active[j].1.ip_octets, active[j].1.port))) by {
        if sent.message == passed && exists|j: int|
            0 <= j < active.len() && #[trigger] active[j].0 != joining@ && sent.to
                == SocketAddress::V4(active[j].1.ip_octets, active[j].1.port) {
            let i = choose|i: int| 0 <= i < all.len() && all[i] == Deed::Send(sent);
            assert(all.contains(Deed::Send(sent)));
            assert(done[i + 2] == Deed::Send(sent));
        }
    }
}

/// One more active peer, wherever the rest is the same, is told of a `Join` after
/// all others, unless it is the one that joins; and nothing else changes.
pub proof fn law_join_tells_one_more(
    handler: &PeerEventHandler,
    larger: &PeerEventHandler,
    more: Entry,
    joining: PeerId,
    ttl: TTL,
    port: Port,
    octets: IpOctets,
    from_port: Port,
    actions: Vec<Action>,
    longer: Vec<Action>,
)
    requires
        ttl > 0,
        larger@.peer_id == handler@.peer_id,
        larger@.port == handler@.port,
        larger@.view.active == handler@.view.active.push(more),
        call_ensures(
            PeerEventHandler::handle_join,
            (handler, joining, ttl, port, SocketAddress::V4(octets, from_port)),
            actions,
        ),
        call_ensures(
            PeerEventHandler::handle_join,
            (larger, joining, ttl, port, SocketAddress::V4(octets, from_port)),
            longer,
        ) || call_ensures(
            PeerEventHandler::handle_message,
            (larger, PeerMessage::Join(joining, ttl, port), SocketAddress::V4(octets, from_port)),
            longer,
        ),
    ensures
        deeds(longer@) == (if more.0 == joining@ {
            deeds(actions@)
        } else {
            deeds(actions@).push(
                Deed::Send(
                    Sending {
                        to: SocketAddress::V4(more.1.ip_octets, more.1.port),
                        message: Message::ForwardJoin(octets, joining@, (ttl - 1) as u8, port),
                    },
                ),
            )
        }),
{
    let from = SocketAddress::V4(octets, from_port);
    let passed = Message::ForwardJoin(octets, joining@, (ttl - 1) as u8, port);
    assert(deeds(actions@) == join_answer(handler@, joining@, ttl, port, from));
    assert(deeds(longer@) == join_answer(larger@, joining@, ttl, port, from));
    lemma_one_more_forward(handler@.view.active, more, joining@, passed);
    assert(deeds(longer@) =~= (if more.0 == joining@ {
        deeds(actions@)
    } else {
        deeds(actions@).push(
            Deed::Send(
                Sending {
                    to: SocketAddress::V4(more.1.ip_octets, more.1.port),
                    message: passed,
                },
            ),
        )
    }));
}

/// A `ForwardJoin` of another node makes the peer active where no hop is left and
/// passive where one is, and nothing else is noted. Where a hop is left, the
/// active peers but the one that joins are sent the message with one hop less;
/// nothing else is sent. A node does nothing on its own.
pub proof fn law_forward_join_notes_and_sends(
    handler: &PeerEventHandler,
    octets: IpOctets,
    joining: PeerId,
    ttl: TTL,
    port: Port,
    from: SocketAddress,
    actions: Vec<Action>,
)
    requires
        call_ensures(
            PeerEventHandler::handle_forward_join,
            (handler, octets, joining, ttl, port),
            actions,
        ) || call_ensures(
            PeerEventHandler::handle_message,
            (handler, PeerMessage::ForwardJoin(octets, joining, ttl, port), from),
            actions,
        ),
    ensures
        joining@ == handler@.peer_id ==> actions@.len() == 0,
        joining@ != handler@.peer_id ==> forall|info: PeerInfo|
            #[trigger] deeds(actions@).contains(Deed::Notify(Event::AddActivePeer(info))) <==> ttl
                == 0 && info.peer_id == joining@ && info.ip_octets == octets && info.port == port,
        joining@ != handler@.peer_id ==> forall|info: PeerInfo|
            #[trigger] deeds(actions@).contains(Deed::Notify(Event::AddPassivePeer(info))) <==> ttl
                > 0 && info.peer_id == joining@ && info.ip_octets == octets && info.port == port,
        forall|event: Event|
            #[trigger] deeds(actions@).contains(Deed::Notify(event)) ==> event is AddActivePeer
                || event is AddPassivePeer,
        forall|sent: Sending|
            #[trigger] deeds(actions@).contains(Deed::Send(sent)) <==> {
                &&& joining@ != handler@.peer_id
                &&& sent.message matches Message::ForwardJoin(ip, id, hops, at)
                &&& ip == octets && id == joining@ && hops == ttl - 1 && at == port
                &&& exists|j: int|
                    0 <= j < handler@.view.active.len()
                        && #[trigger] handler@.view.active[j].0 != joining@ && sent.to
                        == SocketAddress::V4(
                        handler@.view.active[j].1.ip_octets,
                        handler@.view.active[j].1.port,
                    )
            },
        forall|to: SocketAddress| !(#[trigger] deeds(actions@).contains(Deed::Acknowledge(to))),
        joining@ != handler@.peer_id ==> actions@.len() == 1 + (if ttl == 0 {
            0
        } else {
            handler@.view.active.filter(|entry: Entry| entry.0 != joining@).len()
        }),
        joining@ != handler@.peer_id ==> actions@[0]@ is Notify,
{
    let done = deeds(actions@);
    assert(done == forward_join_answer(handler@, octets, joining@, ttl, port));
    assert(done.len() == actions@.len());
    let active = handler@.view.active;
    let passed = Message::ForwardJoin(octets, joining@, (ttl - 1) as u8, port);
    let all = forwards(active, joining@, passed);
    lemma_forwards(active, joining@, passed);
    assert(not_under(joining@) =~= (|entry: Entry| entry.0 != joining@));
    if joining@ != handler@.peer_id {
        assert(done[0] == actions@[0]@);
        assert(done.contains(done[0]));
        if ttl > 0 {
            assert(done.len() == 1 + all.len());
            assert(forall|i: int| 1 <= i < done.len() ==> #[trigger] done[i] == all[i - 1]);
            assert forall|sent: Sending|
                #[trigger] done.contains(Deed::Send(sent)) <==> (sent.message == passed && exists|
                    j: int,
                |
                    0 <= j < active.len() && #[trigger] active[j].0 != joining@ && sent.to
                        == SocketAddress::V4(active[j].1.ip_octets, active[j].1.port)) by {
                if sent.message == passed && exists|j: int|
                    0 <= j < active.len() && #[trigger] active[j].0 != joining@ && sent.to
                        == SocketAddress::V4(active[j].1.ip_octets, active[j].1.port) {
                    assert(all.contains(Deed::Send(sent)));
                    let i = choose|i: int| 0 <= i < all.len() && all[i] == Deed::Send(sent);
                    assert(done[i + 1] == Deed::Send(sent));
                }
            }
        }
    }
}

/// One more active peer, wherever the rest is the same, is told of a `ForwardJoin`
/// that has hops left after all others, unless it is the one that joins; and
/// nothing else changes.
pub proof fn law_forward_join_tells_one_more(
    handler: &PeerEventHandler,
    larger: &PeerEventHandler,
    more: Entry,
    octets: IpOctets,
    joining: PeerId,
    ttl: TTL,
    port: Port,
    from: SocketAddress,
    actions: Vec<Action>,
    longer: Vec<Action>,
)
    requires
        larger@.peer_id == handler@.peer_id,
        larger@.view.active == handler@.view.active.push(more),
        call_ensures(
            PeerEventHandler::handle_forward_join,
            (handler, octets, joining, ttl, port),
            actions,
        ),
        call_ensures(
            PeerEventHandler::handle_forward_join,
            (larger, octets, joining, ttl, port),
            longer,
        ) || call_ensures(
            PeerEventHandler::handle_message,
            (larger, PeerMessage::ForwardJoin(octets, joining, ttl, port), from),
            longer,
        ),
    ensures
        deeds(longer@) == (if ttl == 0 || joining@ == handler@.peer_id || more.0 == joining@ {
            deeds(actions@)
        } else {
            deeds(actions@).push(
                Deed::Send(
                    Sending {
                        to: SocketAddress::V4(more.1.ip_octets, more.1.port),
                        message: Message::ForwardJoin(octets, joining@, (ttl - 1) as u8, port),
                    },
                ),
            )
        }),
{
    let passed = Message::ForwardJoin(octets, joining@, (ttl - 1) as u8, port);
    assert(deeds(actions@) == forward_join_answer(handler@, octets, joining@, ttl, port));
    assert(deeds(longer@) == forward_join_answer(larger@, octets, joining@, ttl, port));
    lemma_one_more_forward(handler@.view.active, more, joining@, passed);
    assert(deeds(longer@) =~= (if ttl == 0 || joining@ == handler@.peer_id || more.0 == joining@ {
        deeds(actions@)
    } else {
        deeds(actions@).push(
            Deed::Send(
                Sending {
                    to: SocketAddress::V4(more.1.ip_octets, more.1.port),
                    message: passed,
                },
            ),
        )
    }));
}

/// A `Connect` over IPv4, of whatever priority, makes its sender active, at the
/// address it came from and the port it named, and does nothing else.
pub proof fn law_connect_makes_active(
    handler: &PeerEventHandler,
    peer_id: PeerId,
    priority: ConnectPriority,
    port: Port,
    octets: IpOctets,
    from_port: Port,
    actions: Vec<Action>,
)
    requires
        call_ensures(
            PeerEventHandler::handle_connect,
            (handler, peer_id, port, SocketAddress::V4(octets, from_port)),
            actions,
        ) || call_ensures(
            PeerEventHandler::handle_message,
            (
                handler,
                PeerMessage::Connect(peer_id, priority, port),
                SocketAddress::V4(octets, from_port),
            ),
            actions,
        ),
    ensures
        actions@.len() == 1,
        actions@[0]@ matches Deed::Notify(Event::AddActivePeer(info)) && info.peer_id == peer_id@
            && info.ip_octets == octets && info.port == port,
{
    let done = deeds(actions@);
    assert(done == connect_answer(peer_id@, port, SocketAddress::V4(octets, from_port)));
    assert(done.len() == 1);
    assert(done[0] == actions@[0]@);
}

/// A node does nothing for one behind IPv6 that joins or connects, and nothing on
/// a `Disconnect`.
pub proof fn law_unanswered_messages(
    handler: &PeerEventHandler,
    message: PeerMessage,
    from: SocketAddress,
    actions: Vec<Action>,
)
    requires
        message is Disconnect || (from is V6 && (message is Join || message is Connect)),
        ({
            ||| call_ensures(PeerEventHandler::handle_message, (handler, message, from), actions)
            ||| message matches PeerMessage::Join(id, ttl, port) && call_ensures(
                PeerEventHandler::handle_join,
                (handler, id, ttl, port, from),
                actions,
            )
            ||| message matches PeerMessage::Connect(id, _, port) && call_ensures(
                PeerEventHandler::handle_connect,
                (handler, id, port, from),
                actions,
            )
        }),
    ensures
        actions@.len() == 0,
{
    assert(deeds(actions@).len() == 0);
}

/// A `ShuffleRequest` gives rise to one message and then one acknowledgement to
/// its sender. With no hop left the message is a `ShuffleResponse` to the origin
/// and the port that the request names, with as many peers as the request has,
/// from the front of the order. With hops left it is the request itself, with one
/// hop less, to the first peer of the order.
pub proof fn law_shuffle_request_is_answered_or_goes_on(
    handler: &PeerEventHandler,
    origin: IpOctets,
    peers: ShufflePeers,
    ttl: TTL,
    port: Port,
    from: SocketAddress,
    order: Vec<PeerConnectInfo>,
    actions: Vec<Action>,
)
    requires
        ttl == 0 ==> peers@.len() <= order@.len(),
        ttl > 0 ==> order@.len() > 0,
        call_ensures(
            PeerEventHandler::handle_shuffle_request,
            (handler, origin, peers, ttl, port, from, &order),
            actions,
        ),
    ensures
        call_requires(
            PeerEventHandler::handle_shuffle_request,
            (handler, origin, peers, ttl, port, from, &order),
        ),
        actions@.len() == 2,
        actions@[1]@ == Deed::Acknowledge(from),
        actions@[0]@ is Send,
        ttl == 0 ==> {
            &&& actions@[0]@->Send_0.to == SocketAddress::V4(origin, port)
            &&& actions@[0]@->Send_0.message matches Message::ShuffleResponse(returned)
            &&& returned.len() == peers@.len()
            &&& forall|i: int| 0 <= i < returned.len() ==> #[trigger] returned[i] == order@[i]@
        },
        ttl > 0 ==> {
            &&& actions@[0]@->Send_0.to == SocketAddress::V4(order@[0].ip_octets, order@[0].port)
            &&& actions@[0]@->Send_0.message matches Message::ShuffleRequest(ip, carried, hops, at)
            &&& ip == origin && hops == ttl - 1 && at == port
            &&& carried.len() == peers@.len()
            &&& forall|i: int| 0 <= i < carried.len() ==> #[trigger] carried[i] == peers@[i]@
        },
{
    let done = deeds(actions@);
    assert(done == shuffle_request_answer(
        origin,
        infos(peers@),
        ttl,
        port,
        from,
        infos(order@),
    ));
    assert(done.len() == 2);
    assert(done[0] == actions@[0]@ && done[1] == actions@[1]@);
}

/// A node that gets a `ShuffleRequest` acknowledges it to its sender. With no hop
/// left it sends to the origin and port that the request names as many of its
/// active peers as the request has, none of them more often than it is active.
/// With hops left it sends the request on, with one hop less, to an active peer.
/// It notes nothing.
pub proof fn law_shuffle_request_draws_from_active_peers(
    handler: &PeerEventHandler,
    origin: IpOctets,
    peers: ShufflePeers,
    ttl: TTL,
    port: Port,
    from: SocketAddress,
    actions: Vec<Action>,
)
    requires
        ttl == 0 ==> peers@.len() <= handler@.view.active.len(),
        ttl > 0 ==> handler@.view.active.len() > 0,
        call_ensures(
            PeerEventHandler::handle_message,
            (handler, PeerMessage::ShuffleRequest(origin, peers, ttl, port), from),
            actions,
        ),
    ensures
        actions@.len() == 2,
        actions@[1]@ == Deed::Acknowledge(from),
        actions@[0]@ is Send,
        ttl == 0 ==> {
            &&& actions@[0]@->Send_0.to == SocketAddress::V4(origin, port)
            &&& actions@[0]@->Send_0.message matches Message::ShuffleResponse(returned)
            &&& returned.len() == peers@.len()
            &&& returned.to_multiset().subset_of(
                handler@.view.active.map_values(|entry: Entry| entry.1).to_multiset(),
            )
        },
        ttl > 0 ==> {
            &&& exists|j: int|
                0 <= j < handler@.view.active.len() && actions@[0]@->Send_0.to
                    == SocketAddress::V4(
                    (#[trigger] handler@.view.active[j]).1.ip_octets,
                    handler@.view.active[j].1.port,
                )
            &&& actions@[0]@->Send_0.message matches Message::ShuffleRequest(ip, carried, hops, at)
            &&& ip == origin && hops == ttl - 1 && at == port
            &&& carried.len() == peers@.len()
            &&& forall|i: int| 0 <= i < carried.len() ==> #[trigger] carried[i] == peers@[i]@
        },
{
    broadcast use vstd::seq_lib::group_to_multiset_ensures;

    let done = deeds(actions@);
    let message = Message::ShuffleRequest(origin, infos(peers@), ttl, port);
    let active = values(handler@.view.active);
    let order = choose|order: Seq<PeerInfo>| #[trigger]
        reordered(order, active) && done == answer(handler@, message, from, order);
    assert(reordered(order, active) && done == answer(handler@, message, from, order));
    assert(done.len() == 2);
    assert(done[0] == actions@[0]@ && done[1] == actions@[1]@);
    lemma_reordered(order, active);
    assert(active =~= handler@.view.active.map_values(|entry: Entry| entry.1));
    if ttl == 0 {
        let count = peers@.len() as int;
        let (front, rest) = (order.take(count), order.skip(count));
        assert(order =~= front + rest);
        vstd::seq_lib::lemma_multiset_commutative(front, rest);
        assert(front.to_multiset().subset_of(order.to_multiset()));
    } else {
        assert(order.contains(order[0]));
        let j = choose|j: int| 0 <= j < active.len() && active[j] == order[0];
        assert(handler@.view.active[j].1 == order[0]);
    }
}

/// All that a node does on a `ShuffleResponse` is to note peers of the list as
/// passive. It notes all of them but itself, once each time that they are listed;
/// none becomes active.
pub proof fn law_shuffle_response_notes_passive_peers(
    handler: &PeerEventHandler,
    peers: ShufflePeers,
    from: SocketAddress,
    actions: Vec<Action>,
)
    requires
        call_ensures(PeerEventHandler::handle_shuffle_response, (handler, peers), actions)
            || call_ensures(
            PeerEventHandler::handle_message,
            (handler, PeerMessage::ShuffleResponse(peers), from),
            actions,
        ),
    ensures
        forall|i: int|
            0 <= i < actions@.len() ==> {
                &&& (#[trigger] actions@[i])@ matches Deed::Notify(Event::AddPassivePeer(info))
                &&& info.peer_id != handler@.peer_id
                &&& exists|j: int| 0 <= j < peers@.len() && #[trigger] peers@[j]@ == info
            },
        forall|j: int|
            0 <= j < peers@.len() && (#[trigger] peers@[j])@.peer_id != handler@.peer_id
                ==> exists|i: int|
                0 <= i < actions@.len() && (#[trigger] actions@[i])@ == Deed::Notify(
                    Event::AddPassivePeer(peers@[j]@),
                ),
        actions@.len() == peers@.filter(
            |peer: PeerConnectInfo| peer.peer_id@ != handler@.peer_id,
        ).len(),
        forall|info: PeerInfo|
            !(#[trigger] deeds(actions@).contains(Deed::Notify(Event::AddActivePeer(info)))),
{
    let done = deeds(actions@);
    let listed = infos(peers@);
    assert(done == shuffle_response_answer(handler@, listed));
    let keep = not_called(handler@.peer_id);
    let kept = listed.filter(keep);
    assert(done.len() == actions@.len() && done.len() == kept.len());
    assert forall|i: int| 0 <= i < actions@.len() implies {
        &&& (#[trigger] actions@[i])@ matches Deed::Notify(Event::AddPassivePeer(info))
        &&& info.peer_id != handler@.peer_id
        &&& exists|j: int| 0 <= j < peers@.len() && #[trigger] peers@[j]@ == info
    } by {
        assert(done[i] == actions@[i]@);
        assert(keep(kept[i]));
        assert(kept.contains(kept[i]));
        listed.lemma_filter_contains_rev(keep, kept[i]);
        let j = choose|j: int| 0 <= j < listed.len() && listed[j] == kept[i];
        assert(peers@[j]@ == kept[i]);
    }
    assert forall|j: int|
        0 <= j < peers@.len() && (#[trigger] peers@[j])@.peer_id
            != handler@.peer_id implies exists|i: int|
        0 <= i < actions@.len() && (#[trigger] actions@[i])@ == Deed::Notify(
            Event::AddPassivePeer(peers@[j]@),
        ) by {
        assert(listed[j] == peers@[j]@);
        assert(kept.contains(listed[j]));
        let i = choose|i: int| 0 <= i < kept.len() && kept[i] == listed[j];
        assert(done[i] == actions@[i]@);
    }
    lemma_kept_alike(
        peers@,
        |peer: PeerConnectInfo| peer.peer_id@ != handler@.peer_id,
        handler@.peer_id,
    );
    assert forall|info: PeerInfo|
        !(#[trigger] done.contains(Deed::Notify(Event::AddActivePeer(info)))) by {
        if done.contains(Deed::Notify(Event::AddActivePeer(info))) {
            let i = choose|i: int|
                0 <= i < done.len() && done[i] == Deed::Notify(Event::AddActivePeer(info));
            assert(done[i] == actions@[i]@);
        }
    }
}

/// Keeping peers by their ids keeps as many of them as of their values.
proof fn lemma_kept_alike(
    peers: Seq<PeerConnectInfo>,
    keep: spec_fn(PeerConnectInfo) -> bool,
    id: Seq<char>,
)
    requires
        forall|peer: PeerConnectInfo| #[trigger] keep(peer) == (peer.peer_id@ != id),
    ensures
        infos(peers).filter(not_called(id)).len() == peers.filter(keep).len(),
    decreases peers.len(),
{
    reveal(Seq::filter);
    if peers.len() > 0 {
        lemma_kept_alike(peers.drop_last(), keep, id);
        assert(infos(peers).drop_last() =~= infos(peers.drop_last()));
        assert(infos(peers).last() == peers.last()@);
        assert(keep(peers.last()) == not_called(id)(peers.last()@));
    }
}

/// One more peer in a `ShuffleResponse` is noted as passive after all others,
/// unless it is the node itself; and nothing else changes. An empty list has no
/// effect.
pub proof fn law_shuffle_response_notes_one_more(
    handler: &PeerEventHandler,
    peers: ShufflePeers,
    longer: ShufflePeers,
    more: PeerConnectInfo,
    from: SocketAddress,
    actions: Vec<Action>,
    added: Vec<Action>,
)
    requires
        longer@ == peers@.push(more),
        call_ensures(PeerEventHandler::handle_shuffle_response, (handler, peers), actions),
        call_ensures(PeerEventHandler::handle_shuffle_response, (handler, longer), added)
            || call_ensures(
            PeerEventHandler::handle_message,
            (handler, PeerMessage::ShuffleResponse(longer), from),
            added,
        ),
    ensures
        peers@.len() == 0 ==> actions@.len() == 0,
        deeds(added@) == (if more.peer_id@ == handler@.peer_id {
            deeds(actions@)
        } else {
            deeds(actions@).push(Deed::Notify(Event::AddPassivePeer(more@)))
        }),
{
    reveal(Seq::filter);
    assert(infos(longer@) =~= infos(peers@).push(more@));
    assert(infos(longer@).drop_last() =~= infos(peers@));
    assert(deeds(actions@) == shuffle_response_answer(handler@, infos(peers@)));
    assert(deeds(added@) == shuffle_response_answer(handler@, infos(longer@)));
    assert(deeds(actions@).len() == actions@.len());
    assert(deeds(added@) =~= (if more.peer_id@ == handler@.peer_id {
        deeds(actions@)
    } else {
        deeds(actions@).push(Deed::Notify(Event::AddPassivePeer(more@)))
    }));
}

/// A node can answer every message but a `Join` over IPv4 that has no hop, a
/// `ShuffleRequest` at its last hop that asks for more peers than are active, and
/// one with hops left where no peer is active; and it tells which.
pub proof fn law_which_messages_are_answered(
    handler: &PeerEventHandler,
    message: PeerMessage,
    from: SocketAddress,
    can: bool,
)
    requires
        call_ensures(PeerEventHandler::can_answer, (handler, &message, &from), can),
    ensures
        can <==> match message {
            PeerMessage::Join(_, ttl, _) => from is V6 || ttl > 0,
            PeerMessage::ShuffleRequest(_, peers, ttl, _) => (ttl == 0 && peers@.len()
                <= handler@.view.active.len()) || (ttl > 0 && handler@.view.active.len() > 0),
            _ => true,
        },
        can ==> call_requires(PeerEventHandler::handle_message, (handler, message, from)),
        can ==> (message matches PeerMessage::Join(id, ttl, port) ==> call_requires(
            PeerEventHandler::handle_join,
            (handler, id, ttl, port, from),
        )),
{
}

/// The deeds of actions are those of the single actions, in order.
pub proof fn law_deeds_are_those_of_the_actions(actions: Seq<Action>, i: int)
    requires
        0 <= i < actions.len(),
    ensures
        deeds(actions).len() == actions.len(),
        deeds(actions)[i] == actions[i]@,
{
}

} // verus!
