//! What a node answers to the messages that reach it.

use vstd::prelude::*;

use crate::message::{deeds, Action, ConnectPriority, Deed, Event, Message, NetworkViewEvent, Outgoing, PeerMessage, Sending};
use crate::network_view::{ImmutableNetworkView, SnapshotState, INITIAL_NETWORK_SIZE, MIN_TTL};
use crate::peer::{address_of, first_peers, infos, IpOctets, PeerConnectInfo, PeerId, PeerInfo, Port, ShufflePeers, SocketAddress, TTL};
use crate::peers::{values, Entry};
use crate::sampling::{reordered, shuffled_by_thread};
use crate::server::Server;

verus! {

/// The value of a [`PeerEventHandler`].
pub struct NodeState {
    /// The node's own id.
    pub peer_id: Seq<char>,
    /// The port that the node listens on.
    pub port: Port,
    /// The latest snapshot that the node has seen.
    pub view: SnapshotState,
}

/// The entries that are not filed under `id`.
pub open spec fn not_under(id: Seq<char>) -> spec_fn(Entry) -> bool {
    |entry: Entry| entry.0 != id
}

/// The sending of `message` to the peer of an entry.
pub open spec fn sending_of(message: Message) -> spec_fn(Entry) -> Deed {
    |entry: Entry| Deed::Send(Sending { to: address_of(entry.1), message })
}

/// The peers that are not called `id`.
pub open spec fn not_called(id: Seq<char>) -> spec_fn(PeerInfo) -> bool {
    |info: PeerInfo| info.peer_id != id
}

/// The note that a peer becomes passive.
pub open spec fn passive_note() -> spec_fn(PeerInfo) -> Deed {
    |info: PeerInfo| Deed::Notify(Event::AddPassivePeer(info))
}

/// A `ForwardJoin` goes to every active peer but the one that joins.
pub open spec fn forwards(active: Seq<Entry>, joining: Seq<char>, message: Message) -> Seq<Deed> {
    active.filter(not_under(joining)).map_values(sending_of(message))
}

/// A peer that joins becomes active and is sent a `Connect`.
pub open spec fn welcome(
    node: NodeState,
    octets: IpOctets,
    joining: Seq<char>,
    port: Port,
) -> Seq<Deed> {
    seq![
        Deed::Notify(
            Event::AddActivePeer(PeerInfo { peer_id: joining, ip_octets: octets, port }),
        ),
        Deed::Send(
            Sending {
                to: SocketAddress::V4(octets, port),
                message: Message::Connect(node.peer_id, ConnectPriority::Normal, node.port),
            },
        ),
    ]
}

/// The answer to a `Join`. Peers behind IPv6 are not answered.
pub open spec fn join_answer(
    node: NodeState,
    joining: Seq<char>,
    ttl: TTL,
    port: Port,
    from: SocketAddress,
) -> Seq<Deed> {
    match from {
        SocketAddress::V4(octets, _) => welcome(node, octets, joining, port) + forwards(
            node.view.active,
            joining,
            Message::ForwardJoin(octets, joining, (ttl - 1) as TTL, port),
        ),
        SocketAddress::V6(..) => Seq::empty(),
    }
}

/// The answer to a `ForwardJoin`: a node ignores its own; where the hops are
/// used up the peer becomes active; else it becomes passive and the message
/// goes on.
pub open spec fn forward_join_answer(
    node: NodeState,
    octets: IpOctets,
    joining: Seq<char>,
    ttl: TTL,
    port: Port,
) -> Seq<Deed> {
    let info = PeerInfo { peer_id: joining, ip_octets: octets, port };
    if joining == node.peer_id {
        Seq::empty()
    } else if ttl == 0 {
        seq![Deed::Notify(Event::AddActivePeer(info))]
    } else {
        seq![Deed::Notify(Event::AddPassivePeer(info))] + forwards(
            node.view.active,
            joining,
            Message::ForwardJoin(octets, joining, (ttl - 1) as TTL, port),
        )
    }
}

/// The answer to a `Connect`: the peer becomes active.
pub open spec fn connect_answer(peer_id: Seq<char>, port: Port, from: SocketAddress) -> Seq<Deed> {
    match from {
        SocketAddress::V4(octets, _) => seq![
            Deed::Notify(Event::AddActivePeer(PeerInfo { peer_id, ip_octets: octets, port })),
        ],
        SocketAddress::V6(..) => Seq::empty(),
    }
}

/// The answer to a `ShuffleRequest`, for active peers that stand in `order`:
/// where the hops are used up the origin is sent as many peers as it sent; else
/// the request goes on to the first peer. Its sender gets an acknowledgement.
pub open spec fn shuffle_request_answer(
    origin: IpOctets,
    peers: Seq<PeerInfo>,
    ttl: TTL,
    origin_port: Port,
    from: SocketAddress,
    order: Seq<PeerInfo>,
) -> Seq<Deed> {
    let sent = if ttl == 0 {
        Sending {
            to: SocketAddress::V4(origin, origin_port),
            message: Message::ShuffleResponse(order.take(peers.len() as int)),
        }
    } else {
        Sending {
            to: address_of(order[0]),
            message: Message::ShuffleRequest(origin, peers, (ttl - 1) as TTL, origin_port),
        }
    };
    seq![Deed::Send(sent), Deed::Acknowledge(from)]
}

/// The answer to a `ShuffleResponse`: all peers but the node itself become passive.
pub open spec fn shuffle_response_answer(node: NodeState, peers: Seq<PeerInfo>) -> Seq<Deed> {
    peers.filter(not_called(node.peer_id)).map_values(passive_note())
}

/// What a node does in answer to a message, where its active peers stand in `order`.
pub open spec fn answer(
    node: NodeState,
    message: Message,
    from: SocketAddress,
    order: Seq<PeerInfo>,
) -> Seq<Deed> {
    match message {
        Message::Join(joining, ttl, port) => join_answer(node, joining, ttl, port, from),
        Message::ForwardJoin(octets, joining, ttl, port) => forward_join_answer(
            node,
            octets,
            joining,
            ttl,
            port,
        ),
        Message::ShuffleRequest(origin, peers, ttl, port) => shuffle_request_answer(
            origin,
            peers,
            ttl,
            port,
            from,
            order,
        ),
        Message::ShuffleResponse(peers) => shuffle_response_answer(node, peers),
        Message::Connect(peer_id, _, port) => connect_answer(peer_id, port, from),
        Message::Disconnect(..) => Seq::empty(),
    }
}

/// The `ShuffleRequest`s that a node can answer: with no hops left it needs as
/// many active peers as the request holds, else it needs one.
pub open spec fn can_shuffle(active: nat, requested: nat, ttl: TTL) -> bool {
    if ttl == 0 {
        requested <= active
    } else {
        active > 0
    }
}

/// The messages that a node can answer. A `Join` over IPv4 needs a hop left.
pub open spec fn answerable(node: NodeState, message: Message, from: SocketAddress) -> bool {
    match message {
        Message::Join(_, ttl, _) => from is V4 ==> ttl > 0,
        Message::ShuffleRequest(_, peers, ttl, _) => can_shuffle(
            node.view.active.len(),
            peers.len(),
            ttl,
        ),
        _ => true,
    }
}

/// Filtering one more element of a sequence.
proof fn lemma_filter_next<A>(s: Seq<A>, i: int, keep: spec_fn(A) -> bool)
    requires
        0 <= i < s.len(),
    ensures
        s.take(i + 1).filter(keep) == (if keep(s[i]) {
            s.take(i).filter(keep).push(s[i])
        } else {
            s.take(i).filter(keep)
        }),
{
    reveal(Seq::filter);
    assert(s.take(i + 1).drop_last() =~= s.take(i));
}

/// Answers the messages that reach a node.
#[derive(Debug)]
pub struct PeerEventHandler {
    local_peer_id: PeerId,
    local_port: Port,
    last_network_view: ImmutableNetworkView,
}

impl View for PeerEventHandler {
    type V = NodeState;

    closed spec fn view(&self) -> NodeState {
        NodeState {
            peer_id: self.local_peer_id@,
            port: self.local_port,
            view: self.last_network_view@,
        }
    }
}

impl PeerEventHandler {
    /// The handler of a node that knows no peer.
    pub fn new(local_peer_id: PeerId, local_port: Port) -> (handler: Self)
        ensures
            handler@ == (NodeState {
                peer_id: local_peer_id@,
                port: local_port,
                view: SnapshotState {
                    size: INITIAL_NETWORK_SIZE as nat,
                    active: Seq::empty(),
                    passive: Seq::empty(),
                    ttl: MIN_TTL as nat,
                },
            }),
    {
        PeerEventHandler {
            local_peer_id,
            local_port,
            last_network_view: ImmutableNetworkView::default(),
        }
    }

    /// Takes over the snapshot that was received, if any.
    pub fn observe(&mut self, received: Option<ImmutableNetworkView>)
        ensures
            final(self)@ == (match received {
                Some(view) => NodeState { view: view@, ..old(self)@ },
                None => old(self)@,
            }),
    {
        if let Some(view) = received {
            self.last_network_view = view;
        }
    }

    /// Sends a `ForwardJoin` on to every active peer but the one that joins.
    fn forward_to_active(
        &self,
        joining_peer_id: &PeerId,
        message: &PeerMessage,
        actions: &mut Vec<Action>,
    )
        ensures
            deeds(final(actions)@) == deeds(old(actions)@) + forwards(
                self@.view.active,
                joining_peer_id@,
                message@,
            ),
    {
        let ghost active = self@.view.active;
        let ghost keep = not_under(joining_peer_id@);
        let ghost send = sending_of(message@);
        let ghost before = deeds(actions@);
        let count: usize = self.last_network_view.active_view.len();
        assert(active.take(0).filter(keep).map_values(send) =~= Seq::<Deed>::empty()) by {
            reveal(Seq::filter);
        }
        for i in 0..count
            invariant
                active == self.last_network_view.active_view.entries(),
                count == active.len(),
                keep == not_under(joining_peer_id@),
                send == sending_of(message@),
                deeds(actions@) =~= before + active.take(i as int).filter(keep).map_values(send),
        {
            let ghost held = actions@;
            let ghost done = active.take(i as int).filter(keep);
            proof {
                lemma_filter_next(active, i as int, keep);
            }
            if !self.last_network_view.active_view.id_at(i).eq(joining_peer_id) {
                let peer = self.last_network_view.active_view.peer_at(i);
                actions.push(Action::Send(Server::forward_join(peer.address(), message)));
                assert(deeds(actions@) =~= deeds(held).push(send(active[i as int])));
                assert(done.push(active[i as int]).map_values(send) =~= done.map_values(send).push(
                    send(active[i as int]),
                ));
            }
        }
        assert(active.take(count as int) =~= active);
    }

    /// Welcomes a peer that joins: it becomes active and is sent a `Connect`.
    pub fn welcome_peer(
        &self,
        ip_octets: IpOctets,
        joining_peer_id: &PeerId,
        joining_peer_port: Port,
    ) -> (actions: Vec<Action>)
        ensures
            deeds(actions@) == welcome(self@, ip_octets, joining_peer_id@, joining_peer_port),
    {
        let mut actions: Vec<Action> = Vec::new();
        actions.push(
            Action::Notify(
                NetworkViewEvent::AddActivePeer(
                    PeerConnectInfo {
                        peer_id: joining_peer_id.clone(),
                        ip_octets,
                        port: joining_peer_port,
                    },
                ),
            ),
        );
        actions.push(
            Action::Send(
                Server::send_connect(
                    SocketAddress::V4(ip_octets, joining_peer_port),
                    ConnectPriority::Normal,
                    self.local_peer_id.clone(),
                    self.local_port,
                ),
            ),
        );
        assert(deeds(actions@) =~= welcome(self@, ip_octets, joining_peer_id@, joining_peer_port));
        actions
    }

    /// Answers a `Join`.
    pub fn handle_join(
        &self,
        joining_peer_id: PeerId,
        ttl: TTL,
        joining_peer_port: Port,
        remote_addr: SocketAddress,
    ) -> (actions: Vec<Action>)
        requires
            remote_addr is V4 ==> ttl > 0,
        ensures
            deeds(actions@) == join_answer(
                self@,
                joining_peer_id@,
                ttl,
                joining_peer_port,
                remote_addr,
            ),
    {
        match remote_addr {
            SocketAddress::V4(ip_octets, _) => {
                let mut actions = self.welcome_peer(ip_octets, &joining_peer_id, joining_peer_port);
                let forward_message = PeerMessage::ForwardJoin(
                    ip_octets,
                    joining_peer_id.clone(),
                    ttl - 1,
                    joining_peer_port,
                );
                self.forward_to_active(&joining_peer_id, &forward_message, &mut actions);
                actions
            },
            SocketAddress::V6(..) => {
                let actions: Vec<Action> = Vec::new();
                assert(deeds(actions@) =~= Seq::<Deed>::empty());
                actions
            },
        }
    }

    /// Answers a `ForwardJoin`.
    pub fn handle_forward_join(
        &self,
        ip_octets: IpOctets,
        joining_peer_id: PeerId,
        ttl: TTL,
        joining_peer_port: Port,
    ) -> (actions: Vec<Action>)
        ensures
            deeds(actions@) == forward_join_answer(
                self@,
                ip_octets,
                joining_peer_id@,
                ttl,
                joining_peer_port,
            ),
    {
        let mut actions: Vec<Action> = Vec::new();
        assert(deeds(actions@) =~= Seq::<Deed>::empty());
        if joining_peer_id.eq(&self.local_peer_id) {
            return actions;
        }
        let peer_connect_info = PeerConnectInfo {
            peer_id: joining_peer_id.clone(),
            ip_octets,
            port: joining_peer_port,
        };
        let ghost info = peer_connect_info@;
        if ttl == 0 {
            actions.push(Action::Notify(NetworkViewEvent::AddActivePeer(peer_connect_info)));
            assert(deeds(actions@) =~= seq![Deed::Notify(Event::AddActivePeer(info))]);
            return actions;
        }
        actions.push(Action::Notify(NetworkViewEvent::AddPassivePeer(peer_connect_info)));
        assert(deeds(actions@) =~= seq![Deed::Notify(Event::AddPassivePeer(info))]);
        let forward_message = PeerMessage::ForwardJoin(
            ip_octets,
            joining_peer_id.clone(),
            ttl - 1,
            joining_peer_port,
        );
        self.forward_to_active(&joining_peer_id, &forward_message, &mut actions);
        actions
    }

    /// Answers a `Connect`.
    pub fn handle_connect(
        &self,
        remote_peer_id: PeerId,
        remote_port: Port,
        remote_addr: SocketAddress,
    ) -> (actions: Vec<Action>)
        ensures
            deeds(actions@) == connect_answer(remote_peer_id@, remote_port, remote_addr),
    {
        let mut actions: Vec<Action> = Vec::new();
        if let SocketAddress::V4(ip_octets, _) = remote_addr {
            actions.push(
                Action::Notify(
                    NetworkViewEvent::AddActivePeer(
                        PeerConnectInfo { peer_id: remote_peer_id, ip_octets, port: remote_port },
                    ),
                ),
            );
        }
        assert(deeds(actions@) =~= connect_answer(remote_peer_id@, remote_port, remote_addr));
        actions
    }

    /// Answers a `ShuffleRequest`, for active peers that stand in some order.
    pub fn handle_shuffle_request(
        &self,
        origin_ip: IpOctets,
        local_peer_info: ShufflePeers,
        ttl: TTL,
        origin_port: Port,
        remote_addr: SocketAddress,
        order: &Vec<PeerConnectInfo>,
    ) -> (actions: Vec<Action>)
        requires
            can_shuffle(order@.len(), local_peer_info@.len(), ttl),
        ensures
            deeds(actions@) == shuffle_request_answer(
                origin_ip,
                infos(local_peer_info@),
                ttl,
                origin_port,
                remote_addr,
                infos(order@),
            ),
    {
        let ghost peers = infos(local_peer_info@);
        let outgoing = if ttl == 0 {
            let shuffled_peers = first_peers(order, local_peer_info.len());
            assert(infos(shuffled_peers@) =~= infos(order@).take(peers.len() as int));
            Outgoing {
                to: SocketAddress::V4(origin_ip, origin_port),
                message: PeerMessage::ShuffleResponse(shuffled_peers),
            }
        } else {
            Outgoing {
                to: order[0].address(),
                message: PeerMessage::ShuffleRequest(
                    origin_ip,
                    local_peer_info,
                    ttl - 1,
                    origin_port,
                ),
            }
        };
        let mut actions: Vec<Action> = Vec::new();
        actions.push(Action::Send(outgoing));
        actions.push(Action::Acknowledge(remote_addr));
        assert(deeds(actions@) =~= shuffle_request_answer(
            origin_ip,
            peers,
            ttl,
            origin_port,
            remote_addr,
            infos(order@),
        ));
        actions
    }

    /// Answers a `ShuffleResponse`.
    pub fn handle_shuffle_response(&self, shuffled_peers: ShufflePeers) -> (actions: Vec<Action>)
        ensures
            deeds(actions@) == shuffle_response_answer(self@, infos(shuffled_peers@)),
    {
        let ghost peers = infos(shuffled_peers@);
        let ghost keep = not_called(self@.peer_id);
        let ghost note = passive_note();
        let mut actions: Vec<Action> = Vec::new();
        assert(peers.take(0).filter(keep).map_values(note) =~= Seq::<Deed>::empty()) by {
            reveal(Seq::filter);
        }
        for i in 0..shuffled_peers.len()
            invariant
                peers == infos(shuffled_peers@),
                keep == not_called(self@.peer_id),
                note == passive_note(),
                deeds(actions@) =~= peers.take(i as int).filter(keep).map_values(note),
        {
            let ghost held = actions@;
            let ghost done = peers.take(i as int).filter(keep);
            proof {
                lemma_filter_next(peers, i as int, keep);
            }
            let peer = &shuffled_peers[i];
            if !peer.peer_id.eq(&self.local_peer_id) {
                actions.push(Action::Notify(NetworkViewEvent::AddPassivePeer(peer.clone())));
                assert(deeds(actions@) =~= deeds(held).push(note(peers[i as int])));
                assert(done.push(peers[i as int]).map_values(note) =~= done.map_values(note).push(
                    note(peers[i as int]),
                ));
            }
        }
        assert(peers.take(shuffled_peers.len() as int) =~= peers);
        actions
    }

    /// Whether the node can answer a message.
    pub fn can_answer(&self, message: &PeerMessage, remote_addr: &SocketAddress) -> (can: bool)
        ensures
            can == answerable(self@, message@, *remote_addr),
    {
        match message {
            PeerMessage::Join(_, ttl, _) => match remote_addr {
                SocketAddress::V4(..) => *ttl > 0,
                SocketAddress::V6(..) => true,
            },
            PeerMessage::ShuffleRequest(_, peers, ttl, _) => {
                let active: usize = self.last_network_view.active_view.len();
                if *ttl == 0 {
                    peers.len() <= active
                } else {
                    active > 0
                }
            },
            _ => true,
        }
    }

    /// Answers a message. Where a shuffle asks for peers at random, the active
    /// peers stand in an order drawn by chance.
    pub fn handle_message(&self, message: PeerMessage, remote_addr: SocketAddress) -> (actions: Vec<
        Action,
    >)
        requires
            answerable(self@, message@, remote_addr),
        ensures
            exists|order: Seq<PeerInfo>| #[trigger]
                reordered(order, values(self@.view.active)) && deeds(actions@) == answer(
                    self@,
                    message@,
                    remote_addr,
                    order,
                ),
    {
        assert(reordered(values(self@.view.active), values(self@.view.active)));
        match message {
            PeerMessage::Join(joining_peer_id, ttl, joining_peer_port) => self.handle_join(
                joining_peer_id,
                ttl,
                joining_peer_port,
                remote_addr,
            ),
            PeerMessage::ForwardJoin(ip_octets, joining_peer_id, ttl, joining_peer_port) => {
                self.handle_forward_join(ip_octets, joining_peer_id, ttl, joining_peer_port)
            },
            PeerMessage::Connect(remote_peer_id, _, remote_port) => self.handle_connect(
                remote_peer_id,
                remote_port,
                remote_addr,
            ),
            PeerMessage::ShuffleRequest(origin_ip, local_peer_info, ttl, origin_port) => {
                let active_view_peers = self.last_network_view.active_view.values();
                assert(infos(active_view_peers@).len() == values(self@.view.active).len());
                let order = shuffled_by_thread(active_view_peers);
                self.handle_shuffle_request(
                    origin_ip,
                    local_peer_info,
                    ttl,
                    origin_port,
                    remote_addr,
                    &order,
                )
            },
            PeerMessage::ShuffleResponse(shuffled_peers) => self.handle_shuffle_response(
                shuffled_peers,
            ),
            PeerMessage::Disconnect(..) => {
                let actions: Vec<Action> = Vec::new();
                assert(deeds(actions@) =~= Seq::<Deed>::empty());
                actions
            },
        }
    }
}

} // verus!
