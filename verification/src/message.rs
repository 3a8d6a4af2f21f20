//! The messages that nodes exchange and the events that they give rise to.

use vstd::prelude::*;

use crate::peer::{clone_peers, infos, IpOctets, PeerConnectInfo, PeerId, PeerInfo, Port, ShufflePeers, SocketAddress, TTL};

verus! {

/// The size of the largest datagram, which keeps payloads under the MTU.
pub const MAX_DATAGRAM_SIZE: usize = 1024;

/// Whether a leaving peer is still alive.
pub type Alive = bool;

/// Whether a leaving peer expects an answer.
pub type Respond = bool;

/// How urgently a peer wants to connect.
#[derive(Clone, Copy, Debug, PartialEq, Eq)]
pub enum ConnectPriority {
    High,
    Normal,
}

/// A neighbor that came up or went down.
#[derive(Clone, Copy, Debug, PartialEq, Eq)]
pub enum ConnectionEvent {
    NeighborUp(IpOctets, Port),
    NeighborDown(IpOctets, Port),
}

/// A message between two nodes.
#[derive(Debug)]
pub enum PeerMessage {
    Join(PeerId, TTL, Port),
    ForwardJoin(IpOctets, PeerId, TTL, Port),
    ShuffleRequest(IpOctets, ShufflePeers, TTL, Port),
    ShuffleResponse(ShufflePeers),
    Connect(PeerId, ConnectPriority, Port),
    Disconnect(PeerId, Alive, Respond),
}

/// The value of a [`PeerMessage`].
pub enum Message {
    Join(Seq<char>, TTL, Port),
    ForwardJoin(IpOctets, Seq<char>, TTL, Port),
    ShuffleRequest(IpOctets, Seq<PeerInfo>, TTL, Port),
    ShuffleResponse(Seq<PeerInfo>),
    Connect(Seq<char>, ConnectPriority, Port),
    Disconnect(Seq<char>, Alive, Respond),
}

impl View for PeerMessage {
    type V = Message;

    open spec fn view(&self) -> Message {
        match self {
            PeerMessage::Join(id, ttl, port) => Message::Join(id@, *ttl, *port),
            PeerMessage::ForwardJoin(octets, id, ttl, port) => Message::ForwardJoin(
                *octets,
                id@,
                *ttl,
                *port,
            ),
            PeerMessage::ShuffleRequest(octets, peers, ttl, port) => Message::ShuffleRequest(
                *octets,
                infos(peers@),
                *ttl,
                *port,
            ),
            PeerMessage::ShuffleResponse(peers) => Message::ShuffleResponse(infos(peers@)),
            PeerMessage::Connect(id, priority, port) => Message::Connect(id@, *priority, *port),
            PeerMessage::Disconnect(id, alive, respond) => Message::Disconnect(
                id@,
                *alive,
                *respond,
            ),
        }
    }
}

impl Clone for PeerMessage {
    fn clone(&self) -> (copy: Self)
        ensures
            copy@ == self@,
    {
        match self {
            PeerMessage::Join(id, ttl, port) => PeerMessage::Join(id.clone(), *ttl, *port),
            PeerMessage::ForwardJoin(octets, id, ttl, port) => PeerMessage::ForwardJoin(
                *octets,
                id.clone(),
                *ttl,
                *port,
            ),
            PeerMessage::ShuffleRequest(octets, peers, ttl, port) => PeerMessage::ShuffleRequest(
                *octets,
                clone_peers(peers),
                *ttl,
                *port,
            ),
            PeerMessage::ShuffleResponse(peers) => PeerMessage::ShuffleResponse(clone_peers(peers)),
            PeerMessage::Connect(id, priority, port) => PeerMessage::Connect(
                id.clone(),
                *priority,
                *port,
            ),
            PeerMessage::Disconnect(id, alive, respond) => PeerMessage::Disconnect(
                id.clone(),
                *alive,
                *respond,
            ),
        }
    }
}

/// A message and the address that it is sent to.
#[derive(Debug)]
pub struct Outgoing {
    pub to: SocketAddress,
    pub message: PeerMessage,
}

/// The value of an [`Outgoing`].
pub struct Sending {
    pub to: SocketAddress,
    pub message: Message,
}

impl View for Outgoing {
    type V = Sending;

    open spec fn view(&self) -> Sending {
        Sending { to: self.to, message: self.message@ }
    }
}

/// The values of messages to send, in order.
pub open spec fn sendings(outgoing: Seq<Outgoing>) -> Seq<Sending> {
    outgoing.map_values(|one: Outgoing| one@)
}

/// Something that the network view is told of.
#[derive(Debug)]
pub enum NetworkViewEvent {
    UnreachablePeer(PeerId),
    AddActivePeer(PeerConnectInfo),
    RemoveActivePeer,
    AddPassivePeer(PeerConnectInfo),
}

/// The value of a [`NetworkViewEvent`].
pub enum Event {
    UnreachablePeer(Seq<char>),
    AddActivePeer(PeerInfo),
    RemoveActivePeer,
    AddPassivePeer(PeerInfo),
}

impl View for NetworkViewEvent {
    type V = Event;

    open spec fn view(&self) -> Event {
        match self {
            NetworkViewEvent::UnreachablePeer(id) => Event::UnreachablePeer(id@),
            NetworkViewEvent::AddActivePeer(peer) => Event::AddActivePeer(peer@),
            NetworkViewEvent::RemoveActivePeer => Event::RemoveActivePeer,
            NetworkViewEvent::AddPassivePeer(peer) => Event::AddPassivePeer(peer@),
        }
    }
}

impl Clone for NetworkViewEvent {
    fn clone(&self) -> (copy: Self)
        ensures
            copy == *self,
    {
        match self {
            NetworkViewEvent::UnreachablePeer(id) => NetworkViewEvent::UnreachablePeer(id.clone()),
            NetworkViewEvent::AddActivePeer(peer) => NetworkViewEvent::AddActivePeer(peer.clone()),
            NetworkViewEvent::RemoveActivePeer => NetworkViewEvent::RemoveActivePeer,
            NetworkViewEvent::AddPassivePeer(peer) => NetworkViewEvent::AddPassivePeer(
                peer.clone(),
            ),
        }
    }
}

/// What a node does in answer to a message.
#[derive(Debug)]
pub enum Action {
    /// Tell the network view of an event.
    Notify(NetworkViewEvent),
    /// Send a message.
    Send(Outgoing),
    /// Acknowledge a datagram to its sender.
    Acknowledge(SocketAddress),
}

/// The value of an [`Action`].
pub enum Deed {
    Notify(Event),
    Send(Sending),
    Acknowledge(SocketAddress),
}

impl View for Action {
    type V = Deed;

    open spec fn view(&self) -> Deed {
        match self {
            Action::Notify(event) => Deed::Notify(event@),
            Action::Send(outgoing) => Deed::Send(outgoing@),
            Action::Acknowledge(to) => Deed::Acknowledge(*to),
        }
    }
}

/// The bytes of an acknowledgement, `ACK`.
pub fn acknowledgement() -> (bytes: [u8; 3])
    ensures
        bytes@ == seq!['A' as u8, 'C' as u8, 'K' as u8],
{
    let bytes: [u8; 3] = [65, 67, 75];
    assert(bytes@ =~= seq!['A' as u8, 'C' as u8, 'K' as u8]);
    bytes
}

/// The values of actions, in order.
pub open spec fn deeds(actions: Seq<Action>) -> Seq<Deed> {
    actions.map_values(|action: Action| action@)
}

} // verus!
