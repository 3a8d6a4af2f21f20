//! The life of a node, and the messages that it sends of its own accord.

use vstd::prelude::*;

use crate::handler::PeerEventHandler;
use crate::message::{sendings, ConnectPriority, Message, Outgoing, PeerMessage, Sending};
use crate::network_view::{ImmutableNetworkView, INITIAL_NETWORK_SIZE, MIN_TTL};
use crate::peer::{first_peers, infos, is_loopback, loopback, PeerConnectInfo, PeerId, PeerInfo, Port, SocketAddress, TTL};
use crate::peers::values;
use crate::sampling::{reordered, shuffled_by_os};

verus! {

/// The hops that a node asks for when it joins.
pub const JOIN_TTL: TTL = 4;

/// How many peers take part in one shuffle.
pub const SHUFFLE_SAMPLE: usize = 1;

/// How long a shuffle waits to be acknowledged.
pub const REPLY_TIMEOUT_MILLIS: u64 = 150;

/// The address at which a node reaches itself.
pub open spec fn is_own_address(address: SocketAddress, local_port: Port) -> bool {
    address matches SocketAddress::V4(octets, port) && is_loopback(octets) && port == local_port
}

/// The bootstrap addresses that keep a node from starting: text that is no
/// address, and the node's own address.
pub open spec fn refuses_bootstrap(
    bootstrap: Option<Result<SocketAddress, ()>>,
    local_port: Port,
) -> bool {
    match bootstrap {
        None => false,
        Some(Err(_)) => true,
        Some(Ok(address)) => is_own_address(address, local_port),
    }
}

/// The hops that can be drawn for a shuffle: fewer than a message is given, and
/// none where it is given none.
pub open spec fn is_draw(draw: TTL, ttl: nat) -> bool {
    draw < ttl || (ttl == 0 && draw == 0)
}

/// The messages of one shuffle: to each sampled peer goes the same request,
/// which names the sample, the loopback address and the local port.
pub open spec fn is_shuffle_round(
    round: Seq<Sending>,
    sample: Seq<PeerInfo>,
    ttl: TTL,
    local_port: Port,
) -> bool {
    &&& round.len() == sample.len()
    &&& forall|i: int|
        0 <= i < round.len() ==> {
            &&& (#[trigger] round[i]).to == SocketAddress::V4(sample[i].ip_octets, sample[i].port)
            &&& round[i].message matches Message::ShuffleRequest(origin, peers, hops, port)
            &&& is_loopback(origin)
            &&& peers == sample
            &&& hops == ttl
            &&& port == local_port
        }
}

/// The messages of a shuffle that are still to be sent.
#[derive(Debug)]
pub struct ShuffleRound {
    pending: Vec<Outgoing>,
}

impl View for ShuffleRound {
    type V = Seq<Sending>;

    closed spec fn view(&self) -> Seq<Sending> {
        sendings(self.pending@)
    }
}

impl ShuffleRound {
    /// The message to send next.
    pub fn next_message(&mut self) -> (next: Option<Outgoing>)
        ensures
            match next {
                Some(sent) => old(self)@.len() > 0 && sent@ == old(self)@[0] && final(self)@ == old(
                    self,
                )@.drop_first(),
                None => old(self)@.len() == 0 && final(self)@ == old(self)@,
            },
    {
        if self.pending.len() == 0 {
            None
        } else {
            let next = self.pending.remove(0);
            assert(self@ =~= old(self)@.drop_first());
            Some(next)
        }
    }

    /// Takes note of how many bytes went out. A round in which nothing could be
    /// sent is given up.
    pub fn sent(&mut self, sent_bytes: usize)
        ensures
            final(self)@ == (if sent_bytes == 0 {
                Seq::empty()
            } else {
                old(self)@
            }),
    {
        if sent_bytes == 0 {
            self.pending.clear();
            assert(self@ =~= Seq::<Sending>::empty());
        }
    }
}

/// A node that runs or does not.
#[derive(Debug)]
pub struct Server {
    is_running: bool,
}

impl Server {
    /// Whether the node runs.
    pub closed spec fn running(self) -> bool {
        self.is_running
    }

    /// A node that does not run yet.
    pub fn new() -> (server: Server)
        ensures
            !server.running(),
    {
        Self { is_running: false }
    }

    /// Starts the node once it has bootstrapped. Its handler knows no peer yet.
    pub fn run(
        &mut self,
        local_peer_id: PeerId,
        local_port: &Port,
        bootstrapped: Result<(), ()>,
    ) -> (handler: Result<PeerEventHandler, ()>)
        ensures
            handler is Ok <==> bootstrapped is Ok,
            final(self).running() == (bootstrapped is Ok || old(self).running()),
            handler matches Ok(node) ==> {
                &&& node@.peer_id == local_peer_id@
                &&& node@.port == *local_port
                &&& node@.view.size == INITIAL_NETWORK_SIZE
                &&& node@.view.active.len() == 0
                &&& node@.view.passive.len() == 0
                &&& node@.view.ttl == MIN_TTL
            },
    {
        if bootstrapped.is_err() {
            return Err(());
        }
        self.is_running = true;
        Ok(PeerEventHandler::new(local_peer_id, *local_port))
    }

    /// Whether the node runs.
    pub fn is_running(&self) -> (running: bool)
        ensures
            running == self.running(),
    {
        self.is_running
    }

    /// Stops the node.
    pub fn shutdown(&mut self)
        ensures
            !final(self).running(),
    {
        self.is_running = false;
    }

    /// Decides how a node bootstraps. `bootstrap` is the address that was given,
    /// or an error where the text given is none; `socket_bound` says whether a
    /// local socket could be had. The result is the message to send, if any.
    pub fn bootstrap_local_node(
        bootstrap: Option<Result<SocketAddress, ()>>,
        socket_bound: bool,
        local_peer_id: PeerId,
        local_port: Port,
    ) -> (join: Result<Option<Outgoing>, ()>)
        ensures
            join is Err <==> refuses_bootstrap(bootstrap, local_port),
            join matches Ok(sent) ==> (sent is Some <==> bootstrap is Some && socket_bound),
            join matches Ok(Some(sent)) ==> {
                &&& bootstrap == Some(Ok::<SocketAddress, ()>(sent.to))
                &&& sent.message@ == Message::Join(local_peer_id@, JOIN_TTL, local_port)
            },
    {
        match bootstrap {
            None => Ok(None),
            Some(Err(_)) => Err(()),
            Some(Ok(remote_addr)) => {
                if let SocketAddress::V4(octets, port) = remote_addr {
                    let own = octets[0] == 127 && octets[1] == 0 && octets[2] == 0 && octets[3] == 1
                        && port == local_port;
                    assert(own ==> octets@ =~= seq![127u8, 0u8, 0u8, 1u8]);
                    if own {
                        return Err(());
                    }
                }
                if socket_bound {
                    Ok(Some(Self::send_join(remote_addr, local_peer_id, local_port)))
                } else {
                    Ok(None)
                }
            },
        }
    }

    /// The message by which a node joins the network.
    pub fn send_join(bootstrap_addr: SocketAddress, peer_id: PeerId, port: Port) -> (sent: Outgoing)
        ensures
            sent@ == (Sending {
                to: bootstrap_addr,
                message: Message::Join(peer_id@, JOIN_TTL, port),
            }),
    {
        Outgoing { to: bootstrap_addr, message: PeerMessage::Join(peer_id, JOIN_TTL, port) }
    }

    /// The message by which a node connects to a peer.
    pub fn send_connect(
        peer_addr: SocketAddress,
        priority: ConnectPriority,
        peer_id: PeerId,
        port: Port,
    ) -> (sent: Outgoing)
        ensures
            sent@ == (Sending {
                to: peer_addr,
                message: Message::Connect(peer_id@, priority, port),
            }),
    {
        Outgoing { to: peer_addr, message: PeerMessage::Connect(peer_id, priority, port) }
    }

    /// The message by which a node passes on that a peer joined.
    pub fn forward_join(remote_addr: SocketAddress, message: &PeerMessage) -> (sent: Outgoing)
        ensures
            sent@ == (Sending { to: remote_addr, message: message@ }),
    {
        Outgoing { to: remote_addr, message: message.clone() }
    }

    /// The messages of one shuffle, for peers that stand in some order: the
    /// first of them form the sample. `ttl_draw` is the number of hops drawn.
    pub fn shuffle_round(order: &Vec<PeerConnectInfo>, ttl_draw: TTL, local_port: Port) -> (round:
        ShuffleRound)
        requires
            order@.len() >= SHUFFLE_SAMPLE,
        ensures
            is_shuffle_round(
                round@,
                infos(order@).take(SHUFFLE_SAMPLE as int),
                ttl_draw,
                local_port,
            ),
    {
        let sampled_peers = first_peers(order, SHUFFLE_SAMPLE);
        let ghost sample = infos(order@).take(SHUFFLE_SAMPLE as int);
        assert(infos(sampled_peers@) =~= sample);
        let request = PeerMessage::ShuffleRequest(
            loopback(),
            first_peers(order, SHUFFLE_SAMPLE),
            ttl_draw,
            local_port,
        );
        let mut pending: Vec<Outgoing> = Vec::new();
        for i in 0..sampled_peers.len()
            invariant
                pending@.len() == i,
                sample == infos(sampled_peers@),
                request@ matches Message::ShuffleRequest(origin, peers, hops, port) && is_loopback(
                    origin,
                ) && peers == sample && hops == ttl_draw && port == local_port,
                forall|j: int|
                    0 <= j < i ==> (#[trigger] pending@[j]).to == SocketAddress::V4(
                        sample[j].ip_octets,
                        sample[j].port,
                    ) && pending@[j].message@ == request@,
        {
            pending.push(Outgoing { to: sampled_peers[i].address(), message: request.clone() });
        }
        ShuffleRound { pending }
    }

    /// The messages of one shuffle among all peers that a view holds. `ttl_draw` is
    /// the number of hops drawn.
    pub fn send_shuffle(view: &ImmutableNetworkView, ttl_draw: TTL, local_port: Port) -> (round:
        ShuffleRound)
        requires
            view@.active.len() + view@.passive.len() >= SHUFFLE_SAMPLE,
            is_draw(ttl_draw, view@.ttl),
        ensures
            exists|order: Seq<PeerInfo>|
                #![trigger order.take(SHUFFLE_SAMPLE as int)]
                reordered(order, values(view@.active) + values(view@.passive)) && is_shuffle_round(
                    round@,
                    order.take(SHUFFLE_SAMPLE as int),
                    ttl_draw,
                    local_port,
                ),
    {
        let mut sampled_peers = view.active_view.values();
        let mut passive = view.passive_view.values();
        let ghost (before, added) = (sampled_peers@, passive@);
        sampled_peers.append(&mut passive);
        assert(infos(sampled_peers@) =~= infos(before) + infos(added));
        assert(infos(before).len() == before.len() && infos(added).len() == added.len());
        let order = shuffled_by_os(sampled_peers);
        Self::shuffle_round(&order, ttl_draw, local_port)
    }
}

} // verus!
