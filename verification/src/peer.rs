//! Peers and the addresses at which they are reached.

use vstd::prelude::*;

verus! {

/// The name of a peer.
pub type PeerId = String;

/// The four octets of an IPv4 address.
pub type IpOctets = [u8; 4];

/// The number of hops a message may still travel.
pub type TTL = u8;

/// A UDP port.
pub type Port = u16;

/// Everything needed to name a peer and to send it a datagram.
#[derive(Debug, PartialEq, Hash)]
pub struct PeerConnectInfo {
    pub peer_id: PeerId,
    pub ip_octets: IpOctets,
    pub port: Port,
}

/// The mathematical value of a [`PeerConnectInfo`].
pub struct PeerInfo {
    pub peer_id: Seq<char>,
    pub ip_octets: IpOctets,
    pub port: Port,
}

impl View for PeerConnectInfo {
    type V = PeerInfo;

    open spec fn view(&self) -> PeerInfo {
        PeerInfo { peer_id: self.peer_id@, ip_octets: self.ip_octets, port: self.port }
    }
}

impl Clone for PeerConnectInfo {
    fn clone(&self) -> (copy: Self)
        ensures
            copy == *self,
    {
        PeerConnectInfo {
            peer_id: self.peer_id.clone(),
            ip_octets: self.ip_octets,
            port: self.port,
        }
    }
}

/// A list of peers, as shuffle messages carry it.
pub type ShufflePeers = Vec<PeerConnectInfo>;

/// The values of a list of peers, in order.
pub open spec fn infos(peers: Seq<PeerConnectInfo>) -> Seq<PeerInfo> {
    peers.map_values(|peer: PeerConnectInfo| peer@)
}

/// Copies a list of peers.
pub fn clone_peers(peers: &Vec<PeerConnectInfo>) -> (copy: Vec<PeerConnectInfo>)
    ensures
        copy@ == peers@,
{
    let mut copy: Vec<PeerConnectInfo> = Vec::new();
    for i in 0..peers.len()
        invariant
            copy@ == peers@.take(i as int),
    {
        copy.push(peers[i].clone());
    }
    copy
}

/// The first `count` peers of a list.
pub fn first_peers(peers: &Vec<PeerConnectInfo>, count: usize) -> (first: Vec<PeerConnectInfo>)
    requires
        count <= peers@.len(),
    ensures
        first@ == peers@.take(count as int),
{
    let mut first: Vec<PeerConnectInfo> = Vec::new();
    for i in 0..count
        invariant
            count <= peers@.len(),
            first@ == peers@.take(i as int),
    {
        first.push(peers[i].clone());
    }
    first
}

/// A socket address: an IPv4 address and a port, or the octets, port, flow
/// information and scope of an IPv6 one.
#[derive(Clone, Copy, Debug, PartialEq, Eq)]
pub enum SocketAddress {
    V4(IpOctets, Port),
    V6([u8; 16], Port, u32, u32),
}

/// Whether an address is the loopback address, 127.0.0.1.
pub open spec fn is_loopback(octets: IpOctets) -> bool {
    octets@ == seq![127u8, 0u8, 0u8, 1u8]
}

/// The loopback address.
pub fn loopback() -> (octets: IpOctets)
    ensures
        is_loopback(octets),
{
    let octets: IpOctets = [127, 0, 0, 1];
    assert(octets@ =~= seq![127u8, 0u8, 0u8, 1u8]);
    octets
}

/// Where a peer listens.
pub open spec fn address_of(info: PeerInfo) -> SocketAddress {
    SocketAddress::V4(info.ip_octets, info.port)
}

impl PeerConnectInfo {
    /// Where this peer listens.
    pub fn address(&self) -> (address: SocketAddress)
        ensures
            address == address_of(self@),
    {
        SocketAddress::V4(self.ip_octets, self.port)
    }
}

} // verus!
