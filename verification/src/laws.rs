//! What holds of the overlay as a whole.

pub mod answering;
pub mod keeping;
pub mod sending;

use vstd::prelude::*;

use crate::controller::{latest, view_after, ControllerState};
use crate::handler::{answer, answerable, forward_join_answer, forwards, join_answer, not_called, not_under, shuffle_response_answer, NodeState};
use crate::message::{Deed, Event, Message, Sending};
use crate::network_view::{size_log2, ttl_for, SnapshotState, ViewState, INITIAL_NETWORK_SIZE, MIN_TTL};
use crate::peer::{address_of, IpOctets, PeerInfo, Port, SocketAddress};
use crate::peers::{as_map, distinct_keys, filed, has_key, lemma_filed, lemma_position, lemma_unfiled, position, unfiled, values, Entry};
use crate::sampling::reordered;
use crate::server::{JOIN_TTL, SHUFFLE_SAMPLE};

verus! {

// ---- The network view ----

/// No peer is both active and passive.
pub open spec fn disjoint(view: ViewState) -> bool {
    forall|id: Seq<char>| !(#[trigger] has_key(view.active, id) && has_key(view.passive, id))
}

/// Which ids are known after one is filed.
proof fn lemma_keys_filed(entries: Seq<Entry>, id: Seq<char>, info: PeerInfo)
    requires
        distinct_keys(entries),
    ensures
        forall|k: Seq<char>| #[trigger]
            has_key(filed(entries, id, info), k) == (has_key(entries, k) || k == id),
{
    lemma_filed(entries, id, info);
    let (before, after) = (as_map(entries), as_map(filed(entries, id, info)));
    assert forall|k: Seq<char>| #[trigger]
        has_key(filed(entries, id, info), k) == (has_key(entries, k) || k == id) by {
        assert(after.contains_key(k) == before.insert(id, info).contains_key(k));
    }
}

/// Which ids are known after one is taken out.
proof fn lemma_keys_unfiled(entries: Seq<Entry>, id: Seq<char>)
    requires
        distinct_keys(entries),
    ensures
        forall|k: Seq<char>| #[trigger]
            has_key(unfiled(entries, id), k) == (has_key(entries, k) && k != id),
{
    lemma_unfiled(entries, id);
    let (before, after) = (as_map(entries), as_map(unfiled(entries, id)));
    assert forall|k: Seq<char>| #[trigger]
        has_key(unfiled(entries, id), k) == (has_key(entries, k) && k != id) by {
        assert(after.contains_key(k) == before.remove(id).contains_key(k));
    }
}

/// Inserting a peer that is not known, on either side, and removing one leave
/// no peer both active and passive.
pub proof fn law_views_stay_disjoint(view: ViewState, id: Seq<char>, info: PeerInfo)
    requires
        view.well_formed(),
        disjoint(view),
    ensures
        !view.knows(id) ==> disjoint(view.with_active(id, info)),
        !view.knows(id) ==> disjoint(view.with_passive(id, info)),
        disjoint(view.without_active(id)),
{
    lemma_keys_filed(view.active, id, info);
    lemma_keys_filed(view.passive, id, info);
    lemma_keys_unfiled(view.active, id);
}

/// Every operation on a view keeps its ids distinct and its assumed size.
pub proof fn law_views_stay_well_formed(view: ViewState, id: Seq<char>, info: PeerInfo)
    requires
        view.well_formed(),
    ensures
        view.with_active(id, info).well_formed(),
        view.with_passive(id, info).well_formed(),
        view.without_active(id).well_formed(),
        view.with_active(id, info).size == view.size,
        view.with_passive(id, info).size == view.size,
        view.without_active(id).size == view.size,
{
    lemma_filed(view.active, id, info);
    lemma_filed(view.passive, id, info);
    lemma_unfiled(view.active, id);
}

/// Removing an active peer undoes its insertion, and finds what was inserted.
pub proof fn law_remove_undoes_insert(view: ViewState, id: Seq<char>, info: PeerInfo)
    requires
        view.well_formed(),
        !view.knows(id),
    ensures
        has_key(view.with_active(id, info).active, id),
        as_map(view.with_active(id, info).active)[id] == info,
        view.with_active(id, info).without_active(id) == view,
{
    let after = view.active.push((id, info));
    lemma_filed(view.active, id, info);
    assert(after == filed(view.active, id, info));
    lemma_position(after, view.active.len() as int);
    assert(unfiled(after, id) =~= view.active);
}

/// A removed peer is not active, and may be inserted again unless it is passive.
pub proof fn law_removed_is_forgotten(view: ViewState, id: Seq<char>)
    requires
        view.well_formed(),
    ensures
        !has_key(view.without_active(id).active, id),
        view.without_active(id).knows(id) == has_key(view.passive, id),
{
    lemma_keys_unfiled(view.active, id);
}

/// Once inserted, a peer is known, so that a second insertion is refused.
pub proof fn law_second_insert_is_refused(view: ViewState, id: Seq<char>, info: PeerInfo)
    requires
        view.well_formed(),
    ensures
        view.with_active(id, info).knows(id),
        view.with_passive(id, info).knows(id),
{
    lemma_keys_filed(view.active, id, info);
    lemma_keys_filed(view.passive, id, info);
}

/// The logarithm of a size is the exponent of the largest power of two in it.
pub proof fn law_log2_brackets_size(size: u32)
    requires
        size > 0,
    ensures
        vstd::arithmetic::power2::pow2(size_log2(size)) <= size < vstd::arithmetic::power2::pow2(
            size_log2(size) + 1,
        ),
    decreases size,
{
    vstd::arithmetic::power2::lemma2_to64();
    if size == 1 {
        vstd::arithmetic::logarithm::lemma_log0(2, 1);
    } else {
        let half = size / 2;
        vstd::arithmetic::logarithm::lemma_log_s(2, size as int);
        vstd::arithmetic::logarithm::lemma_log_nonnegative(2, half as int);
        law_log2_brackets_size(half);
        vstd::arithmetic::power2::lemma_pow2_unfold(size_log2(size));
        vstd::arithmetic::power2::lemma_pow2_unfold(size_log2(size) + 1);
    }
}

/// A message is given at least the fewest hops, and more in larger networks.
pub proof fn law_ttl_grows_with_size(small: u32, large: u32)
    requires
        small <= large,
    ensures
        MIN_TTL <= ttl_for(small) <= ttl_for(large),
{
    if small > 0 {
        vstd::arithmetic::logarithm::lemma_log_nonnegative(2, small as int);
        vstd::arithmetic::logarithm::lemma_log_is_ordered(2, small as int, large as int);
    }
    if large > 0 {
        vstd::arithmetic::logarithm::lemma_log_nonnegative(2, large as int);
    }
}

/// A fresh view calls for two active peers and messages with three hops, and
/// its snapshot is the default one.
pub proof fn law_fresh_view(view: ViewState)
    requires
        view.size == INITIAL_NETWORK_SIZE,
        view.active == Seq::<Entry>::empty(),
        view.passive == Seq::<Entry>::empty(),
    ensures
        size_log2(view.size) == 2,
        view.snapshot() == (SnapshotState {
            size: INITIAL_NETWORK_SIZE as nat,
            active: Seq::empty(),
            passive: Seq::empty(),
            ttl: MIN_TTL as nat,
        }),
{
    vstd::arithmetic::logarithm::lemma_log_s(2, 4);
    vstd::arithmetic::logarithm::lemma_log_s(2, 2);
    vstd::arithmetic::logarithm::lemma_log0(2, 1);
}

// ---- Messages ----

/// How long a chain of answers to a message can still grow.
pub open spec fn budget(message: Message) -> nat {
    match message {
        Message::Join(_, ttl, _) => ttl as nat,
        Message::ForwardJoin(_, _, ttl, _) => ttl as nat,
        Message::ShuffleRequest(_, _, ttl, _) => ttl as nat + 1,
        Message::ShuffleResponse(_) => 0,
        Message::Connect(..) => 0,
        Message::Disconnect(..) => 0,
    }
}

/// Forwards carry the message, each to an active peer that does not join, and
/// none of these is left out.
proof fn lemma_forwards(active: Seq<Entry>, joining: Seq<char>, message: Message)
    ensures
        forall|i: int|
            0 <= i < forwards(active, joining, message).len() ==> {
                &&& #[trigger] forwards(active, joining, message)[i] matches Deed::Send(sent)
                &&& sent.message == message
                &&& exists|j: int|
                    0 <= j < active.len() && #[trigger] active[j].0 != joining && sent.to
                        == address_of(active[j].1)
            },
        forall|j: int|
            0 <= j < active.len() && #[trigger] active[j].0 != joining ==> forwards(
                active,
                joining,
                message,
            ).contains(Deed::Send(Sending { to: address_of(active[j].1), message })),
{
    let keep = not_under(joining);
    let kept = active.filter(keep);
    let all = forwards(active, joining, message);
    assert forall|i: int| 0 <= i < all.len() implies {
        &&& #[trigger] all[i] matches Deed::Send(sent)
        &&& sent.message == message
        &&& exists|j: int|
            0 <= j < active.len() && #[trigger] active[j].0 != joining && sent.to == address_of(
                active[j].1,
            )
    } by {
        assert(keep(kept[i]));
        assert(kept.contains(kept[i]));
        active.lemma_filter_contains_rev(keep, kept[i]);
        let j = choose|j: int| 0 <= j < active.len() && active[j] == kept[i];
        assert(active[j].0 != joining);
    }
    assert forall|j: int| 0 <= j < active.len() && #[trigger] active[j].0 != joining implies all.contains(
        Deed::Send(Sending { to: address_of(active[j].1), message }),
    ) by {
        assert(keep(active[j]));
        assert(kept.contains(active[j]));
        let i = choose|i: int| 0 <= i < kept.len() && kept[i] == active[j];
        assert(all[i] == Deed::Send(Sending { to: address_of(active[j].1), message }));
    }
}

/// Every message sent in answer to another has a smaller budget.
pub proof fn law_answers_use_up_the_budget(
    node: NodeState,
    message: Message,
    from: SocketAddress,
    order: Seq<PeerInfo>,
    sent: Sending,
)
    requires
        answerable(node, message, from),
        answer(node, message, from, order).contains(Deed::Send(sent)),
    ensures
        budget(sent.message) < budget(message),
{
    let all = answer(node, message, from, order);
    let i = choose|i: int| 0 <= i < all.len() && all[i] == Deed::Send(sent);
    match message {
        Message::Join(joining, ttl, port) => {
            if let SocketAddress::V4(octets, _) = from {
                let forwarded = Message::ForwardJoin(octets, joining, (ttl - 1) as u8, port);
                lemma_forwards(node.view.active, joining, forwarded);
                if i >= 2 {
                    assert(all[i] == forwards(node.view.active, joining, forwarded)[i - 2]);
                }
            }
        },
        Message::ForwardJoin(octets, joining, ttl, port) => {
            let forwarded = Message::ForwardJoin(octets, joining, (ttl - 1) as u8, port);
            lemma_forwards(node.view.active, joining, forwarded);
            if ttl > 0 && i >= 1 {
                assert(all[i] == forwards(node.view.active, joining, forwarded)[i - 1]);
            }
        },
        _ => {},
    }
}

/// Whether some node answers `message` by sending `next`.
pub open spec fn provokes(message: Message, next: Message) -> bool {
    exists|node: NodeState, from: SocketAddress, order: Seq<PeerInfo>, to: SocketAddress|
        answerable(node, message, from) && #[trigger] answer(node, message, from, order).contains(
            Deed::Send(Sending { to, message: next }),
        )
}

/// A chain in which each message is sent in answer to the one before, by
/// whatever nodes, is no longer than the budget of its first message allows: no
/// message travels the network for ever.
pub proof fn law_gossip_dies_out(chain: Seq<Message>)
    requires
        chain.len() > 0,
        forall|i: int| 0 <= i < chain.len() - 1 ==> #[trigger] provokes(chain[i], chain[i + 1]),
    ensures
        chain.len() <= budget(chain[0]) + 1,
    decreases chain.len(),
{
    if chain.len() > 1 {
        let rest = chain.drop_first();
        assert forall|i: int| 0 <= i < rest.len() - 1 implies #[trigger] provokes(
            rest[i],
            rest[i + 1],
        ) by {
            assert(rest[i] == chain[i + 1] && rest[i + 1] == chain[(i + 1) + 1]);
            assert(provokes(chain[i + 1], chain[(i + 1) + 1]));
        }
        law_gossip_dies_out(rest);
        assert(provokes(chain[0], chain[0int + 1]));
        let (node, from, order, to) = choose|
            node: NodeState,
            from: SocketAddress,
            order: Seq<PeerInfo>,
            to: SocketAddress,
        |
            answerable(node, chain[0], from) && #[trigger] answer(
                node,
                chain[0],
                from,
                order,
            ).contains(Deed::Send(Sending { to, message: chain[1] }));
        law_answers_use_up_the_budget(
            node,
            chain[0],
            from,
            order,
            Sending { to, message: chain[1] },
        );
    }
}

/// A `Join` and a `ForwardJoin` that still has hops are passed on, with one hop
/// less, to every active peer filed under another id than the one that joins, and
/// nothing else is passed on.
pub proof fn law_join_reaches_active_peers(
    node: NodeState,
    octets: IpOctets,
    joining: Seq<char>,
    ttl: u8,
    port: Port,
    from_port: Port,
    to: SocketAddress,
)
    requires
        ttl > 0,
    ensures
        ({
            let told = exists|j: int|
                0 <= j < node.view.active.len() && #[trigger] node.view.active[j].0 != joining
                    && to == address_of(node.view.active[j].1);
            let passed_on = Deed::Send(
                Sending {
                    to,
                    message: Message::ForwardJoin(octets, joining, (ttl - 1) as u8, port),
                },
            );
            &&& join_answer(
                node,
                joining,
                ttl,
                port,
                SocketAddress::V4(octets, from_port),
            ).contains(passed_on) <==> told
            &&& joining != node.peer_id ==> (forward_join_answer(
                node,
                octets,
                joining,
                ttl,
                port,
            ).contains(passed_on) <==> told)
        }),
{
    let message = Message::ForwardJoin(octets, joining, (ttl - 1) as u8, port);
    let passed_on = Deed::Send(Sending { to, message });
    let all = forwards(node.view.active, joining, message);
    lemma_forwards(node.view.active, joining, message);
    let joined = join_answer(node, joining, ttl, port, SocketAddress::V4(octets, from_port));
    let forwarded = forward_join_answer(node, octets, joining, ttl, port);
    if all.contains(passed_on) {
        let i = choose|i: int| 0 <= i < all.len() && all[i] == passed_on;
        assert(joined[i + 2] == passed_on);
        if joining != node.peer_id {
            assert(forwarded[i + 1] == passed_on);
        }
    }
    if joined.contains(passed_on) {
        let i = choose|i: int| 0 <= i < joined.len() && joined[i] == passed_on;
        assert(i >= 2);
        assert(all[i - 2] == passed_on);
    }
    if joining != node.peer_id && forwarded.contains(passed_on) {
        let i = choose|i: int| 0 <= i < forwarded.len() && forwarded[i] == passed_on;
        assert(i >= 1);
        assert(all[i - 1] == passed_on);
    }
}

/// No node takes itself for a peer because of what others pass on or shuffle.
pub proof fn law_own_id_is_not_added(
    node: NodeState,
    message: Message,
    from: SocketAddress,
    order: Seq<PeerInfo>,
    info: PeerInfo,
)
    requires
        message is ForwardJoin || message is ShuffleRequest || message is ShuffleResponse,
        info.peer_id == node.peer_id,
    ensures
        !answer(node, message, from, order).contains(Deed::Notify(Event::AddActivePeer(info))),
        !answer(node, message, from, order).contains(Deed::Notify(Event::AddPassivePeer(info))),
{
    let all = answer(node, message, from, order);
    let (active, passive) = (
        Deed::Notify(Event::AddActivePeer(info)),
        Deed::Notify(Event::AddPassivePeer(info)),
    );
    assert forall|i: int| 0 <= i < all.len() implies #[trigger] all[i] != active && all[i]
        != passive by {
        match message {
            Message::ForwardJoin(octets, joining, ttl, port) => {
                let forwarded = Message::ForwardJoin(octets, joining, (ttl - 1) as u8, port);
                lemma_forwards(node.view.active, joining, forwarded);
                if joining != node.peer_id && ttl > 0 && i >= 1 {
                    assert(all[i] == forwards(node.view.active, joining, forwarded)[i - 1]);
                }
            },
            Message::ShuffleResponse(peers) => {
                let keep = not_called(node.peer_id);
                assert(keep(peers.filter(keep)[i]));
            },
            _ => {},
        }
    }
}

/// A `ShuffleResponse` makes every peer in it passive but the node itself.
pub proof fn law_shuffled_peers_are_kept(node: NodeState, peers: Seq<PeerInfo>, info: PeerInfo)
    ensures
        shuffle_response_answer(node, peers).contains(Deed::Notify(Event::AddPassivePeer(info)))
            <==> peers.contains(info) && info.peer_id != node.peer_id,
{
    let keep = not_called(node.peer_id);
    let kept = peers.filter(keep);
    let all = shuffle_response_answer(node, peers);
    let note = Deed::Notify(Event::AddPassivePeer(info));
    if all.contains(note) {
        let i = choose|i: int| 0 <= i < all.len() && all[i] == note;
        assert(keep(kept[i]));
        assert(kept.contains(kept[i]));
        peers.lemma_filter_contains_rev(keep, kept[i]);
    }
    if peers.contains(info) && keep(info) {
        let j = choose|j: int| 0 <= j < peers.len() && peers[j] == info;
        assert(kept.contains(peers[j]));
        let i = choose|i: int| 0 <= i < kept.len() && kept[i] == info;
        assert(all[i] == note);
    }
}

/// Joining is mutual. The node that is asked takes the one that joins for an
/// active peer, at the address it came from and the port it named, and connects
/// to it there; that message makes the one that joined take the other for an
/// active peer.
pub proof fn law_join_is_mutual(
    joining: NodeState,
    joining_at: SocketAddress,
    asked: NodeState,
    asked_at: SocketAddress,
    order: Seq<PeerInfo>,
)
    requires
        joining_at is V4,
        asked_at is V4,
    ensures
        ({
            let join = Message::Join(joining.peer_id, JOIN_TTL, joining.port);
            let deeds = answer(asked, join, joining_at, order);
            let connect = deeds[1]->Send_0;
            &&& answerable(asked, join, joining_at)
            &&& deeds.len() >= 2
            &&& deeds[0] == Deed::Notify(
                Event::AddActivePeer(
                    PeerInfo {
                        peer_id: joining.peer_id,
                        ip_octets: joining_at->V4_0,
                        port: joining.port,
                    },
                ),
            )
            &&& deeds[1] is Send
            &&& connect.to == SocketAddress::V4(joining_at->V4_0, joining.port)
            &&& answer(joining, connect.message, asked_at, order) == seq![
                Deed::Notify(
                    Event::AddActivePeer(
                        PeerInfo {
                            peer_id: asked.peer_id,
                            ip_octets: asked_at->V4_0,
                            port: asked.port,
                        },
                    ),
                ),
            ]
        }),
{
}

/// A shuffle that ends at a node is answered, at its origin, with as many peers
/// as it brought, all of them active peers of the node.
pub proof fn law_shuffle_returns_active_peers(
    node: NodeState,
    origin: IpOctets,
    peers: Seq<PeerInfo>,
    port: Port,
    from: SocketAddress,
    order: Seq<PeerInfo>,
)
    requires
        answerable(node, Message::ShuffleRequest(origin, peers, 0, port), from),
        reordered(order, values(node.view.active)),
    ensures
        ({
            let deeds = answer(node, Message::ShuffleRequest(origin, peers, 0, port), from, order);
            &&& deeds[0] matches Deed::Send(sent)
            &&& sent.to == SocketAddress::V4(origin, port)
            &&& sent.message matches Message::ShuffleResponse(returned)
            &&& returned.len() == peers.len()
            &&& forall|i: int|
                0 <= i < returned.len() ==> values(node.view.active).contains(
                    #[trigger] returned[i],
                )
        }),
{
    let active = values(node.view.active);
    lemma_reordered(order, active);
    let returned = order.take(peers.len() as int);
    assert forall|i: int| 0 <= i < returned.len() implies active.contains(
        #[trigger] returned[i],
    ) by {
        assert(order.contains(order[i]));
    }
}

/// A list in another order has the same length and the same elements.
proof fn lemma_reordered(order: Seq<PeerInfo>, peers: Seq<PeerInfo>)
    requires
        reordered(order, peers),
    ensures
        order.len() == peers.len(),
        forall|info: PeerInfo| order.contains(info) <==> peers.contains(info),
{
    broadcast use vstd::seq_lib::group_to_multiset_ensures;

    assert(order.to_multiset().len() == peers.to_multiset().len());
    assert forall|info: PeerInfo| order.contains(info) <==> peers.contains(info) by {
        assert(order.to_multiset().count(info) == peers.to_multiset().count(info));
    }
}

/// A shuffle that still has hops goes on, unchanged but for one hop less, to an
/// active peer.
pub proof fn law_shuffle_goes_on(
    node: NodeState,
    origin: IpOctets,
    peers: Seq<PeerInfo>,
    ttl: u8,
    port: Port,
    from: SocketAddress,
    order: Seq<PeerInfo>,
)
    requires
        ttl > 0,
        answerable(node, Message::ShuffleRequest(origin, peers, ttl, port), from),
        reordered(order, values(node.view.active)),
    ensures
        ({
            let deeds = answer(node, Message::ShuffleRequest(origin, peers, ttl, port), from, order);
            &&& deeds[0] matches Deed::Send(sent)
            &&& sent.message == Message::ShuffleRequest(origin, peers, (ttl - 1) as u8, port)
            &&& exists|info: PeerInfo| #[trigger]
                values(node.view.active).contains(info) && sent.to == address_of(info)
        }),
{
    lemma_reordered(order, values(node.view.active));
    assert(order.contains(order[0]));
}

/// Shuffle requests, and they alone, are acknowledged, once and to their sender.
pub proof fn law_shuffle_requests_are_acknowledged(
    node: NodeState,
    message: Message,
    from: SocketAddress,
    order: Seq<PeerInfo>,
    to: SocketAddress,
)
    ensures
        answer(node, message, from, order).contains(Deed::Acknowledge(to)) <==> (message
            is ShuffleRequest && to == from),
{
    let all = answer(node, message, from, order);
    let note = Deed::Acknowledge(to);
    match message {
        Message::ShuffleRequest(..) => {
            assert(all[1] == Deed::Acknowledge(from));
        },
        Message::Join(joining, ttl, port) => {
            if let SocketAddress::V4(octets, _) = from {
                let forwarded = Message::ForwardJoin(octets, joining, (ttl - 1) as u8, port);
                lemma_forwards(node.view.active, joining, forwarded);
                assert forall|i: int| 0 <= i < all.len() implies #[trigger] all[i] != note by {
                    if i >= 2 {
                        assert(all[i] == forwards(node.view.active, joining, forwarded)[i - 2]);
                    }
                }
            }
        },
        Message::ForwardJoin(octets, joining, ttl, port) => {
            let forwarded = Message::ForwardJoin(octets, joining, (ttl - 1) as u8, port);
            lemma_forwards(node.view.active, joining, forwarded);
            assert forall|i: int| 0 <= i < all.len() implies #[trigger] all[i] != note by {
                if joining != node.peer_id && ttl > 0 && i >= 1 {
                    assert(all[i] == forwards(node.view.active, joining, forwarded)[i - 1]);
                }
            }
        },
        _ => {},
    }
}

/// Nodes behind IPv6 that join or connect get no answer and become no peers; and
/// a `Disconnect` has no effect.
pub proof fn law_ipv6_and_disconnect_are_ignored(
    node: NodeState,
    message: Message,
    from: SocketAddress,
    order: Seq<PeerInfo>,
)
    requires
        message is Disconnect || (from is V6 && (message is Join || message is Connect)),
    ensures
        answer(node, message, from, order) == Seq::<Deed>::empty(),
{
}

// ---- The tasks ----

/// An event never makes a peer unknown, changes the assumed size or files two
/// peers of one view under one id.
pub proof fn law_events_only_add(view: ViewState, event: Event, id: Seq<char>)
    requires
        view.well_formed(),
    ensures
        view.knows(id) ==> view_after(view, event).knows(id),
        view_after(view, event).size == view.size,
        view_after(view, event).well_formed(),
{
    match event {
        Event::AddActivePeer(info) => {
            lemma_keys_filed(view.active, info.peer_id, info);
            law_views_stay_well_formed(view, info.peer_id, info);
        },
        Event::AddPassivePeer(info) => {
            lemma_keys_filed(view.passive, info.peer_id, info);
            law_views_stay_well_formed(view, info.peer_id, info);
        },
        _ => {},
    }
}

/// A peer that an event makes known is the one that the event adds.
pub proof fn law_peers_come_from_events(view: ViewState, event: Event, id: Seq<char>)
    requires
        view.well_formed(),
        view_after(view, event).knows(id),
        !view.knows(id),
    ensures
        match event {
            Event::AddActivePeer(info) => info.peer_id == id,
            Event::AddPassivePeer(info) => info.peer_id == id,
            _ => false,
        },
{
    match event {
        Event::AddActivePeer(info) => {
            lemma_keys_filed(view.active, info.peer_id, info);
        },
        Event::AddPassivePeer(info) => {
            lemma_keys_filed(view.passive, info.peer_id, info);
        },
        _ => {},
    }
}

/// Events leave no peer both active and passive, unless a passive peer is made
/// active.
pub proof fn law_events_keep_views_disjoint(view: ViewState, event: Event)
    requires
        view.well_formed(),
        disjoint(view),
        event matches Event::AddActivePeer(info) ==> !has_key(view.passive, info.peer_id),
    ensures
        disjoint(view_after(view, event)),
{
    match event {
        Event::AddActivePeer(info) => {
            lemma_keys_filed(view.active, info.peer_id, info);
        },
        Event::AddPassivePeer(info) => {
            law_views_stay_disjoint(view, info.peer_id, info);
        },
        _ => {},
    }
}

/// Once an event has been processed, processing it again at later ticks does not
/// change the view.
pub proof fn law_repeated_events_change_nothing(state: ControllerState, received: Option<Event>)
    requires
        state.view.well_formed(),
    ensures
        state.after(received).after(None) == state.after(received),
{
    let view = state.view;
    if let Some(event) = latest(received, state.event) {
        match event {
            Event::AddActivePeer(info) => {
                lemma_keys_filed(view.active, info.peer_id, info);
                lemma_refiled(view.active, info.peer_id, info);
            },
            Event::AddPassivePeer(info) => {
                lemma_keys_filed(view.passive, info.peer_id, info);
            },
            _ => {},
        }
    }
}

/// Filing a peer twice is filing it once.
proof fn lemma_refiled(entries: Seq<Entry>, id: Seq<char>, info: PeerInfo)
    requires
        distinct_keys(entries),
    ensures
        filed(filed(entries, id, info), id, info) == filed(entries, id, info),
{
    let once = filed(entries, id, info);
    let p = if has_key(entries, id) { position(entries, id) } else { entries.len() as int };
    lemma_filed(entries, id, info);
    assert(once[p] == (id, info));
    assert(once[p].0 == id);
    lemma_position(once, p);
    assert(filed(once, id, info) =~= once);
}

/// A new active peer is announced, to handler and shuffle alike, at the tick
/// after the one that files it, if nothing else came; a new passive peer is
/// announced to the shuffle at once, and not again.
pub proof fn law_when_peers_are_announced(state: ControllerState, info: PeerInfo)
    requires
        state.view.well_formed(),
        !state.view.knows(info.peer_id),
    ensures
        ({
            let added = Some(Event::AddActivePeer(info));
            let after = state.after(added);
            &&& state.for_handler(added) is None
            &&& state.for_shuffle(added) is None
            &&& after.for_handler(None) == Some(after.view.snapshot())
            &&& after.for_shuffle(None) == Some(after.view.snapshot())
        }),
        ({
            let added = Some(Event::AddPassivePeer(info));
            let after = state.after(added);
            &&& state.for_handler(added) is None
            &&& state.for_shuffle(added) == Some(after.view.snapshot())
            &&& after.for_handler(None) is None
            &&& after.for_shuffle(None) is None
        }),
{
    lemma_keys_filed(state.view.active, info.peer_id, info);
    lemma_keys_filed(state.view.passive, info.peer_id, info);
    law_repeated_events_change_nothing(state, Some(Event::AddActivePeer(info)));
}

/// A snapshot that is handed out holds enough peers for a shuffle, and one handed
/// to the handler holds an active peer.
pub proof fn law_snapshots_hold_peers(state: ControllerState, received: Option<Event>)
    requires
        state.view.well_formed(),
    ensures
        state.for_shuffle(received) matches Some(view) ==> view.active.len() + view.passive.len()
            >= SHUFFLE_SAMPLE,
        state.for_handler(received) matches Some(view) ==> view.active.len() > 0,
{
    if let Some(event) = latest(received, state.event) {
        match event {
            Event::AddActivePeer(info) => {
                lemma_keys_filed(state.view.active, info.peer_id, info);
                assert(has_key(filed(state.view.active, info.peer_id, info), info.peer_id));
            },
            Event::AddPassivePeer(info) => {
                lemma_keys_filed(state.view.passive, info.peer_id, info);
                assert(has_key(filed(state.view.passive, info.peer_id, info), info.peer_id));
            },
            _ => {},
        }
    }
}

} // verus!
