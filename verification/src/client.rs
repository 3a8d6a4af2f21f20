//! A client that puts load on a node.

use vstd::prelude::*;

use crate::peer::{is_loopback, loopback, Port, SocketAddress};

verus! {

/// How many rounds a run has, each sending one message at most.
pub const MESSAGES_PER_RUN: usize = 1000;

/// The port of the node that a run sends to, on the client's own machine.
pub const TARGET_PORT: Port = 3000;

/// A signed payload on a topic.
#[derive(Clone, Copy, Debug)]
pub struct SignedMessage {
    pub pubkey: [u8; 32],
    pub signature: [u8; 64],
    pub topic: [u8; 32],
    /// The size of the topic and the message together.
    pub payload_size: u16,
    pub message: [u8; 892],
}

/// Whether a message is what a run sends over and over: a public key of one
/// repeated byte, with filler for all else.
pub open spec fn is_client_message(sent: SignedMessage, dummy_pubkey: u8) -> bool {
    &&& sent.pubkey@ == Seq::new(32, |i: int| dummy_pubkey)
    &&& sent.signature@ == Seq::new(64, |i: int| 1u8)
    &&& sent.topic@ == Seq::new(32, |i: int| 1u8)
    &&& sent.payload_size == sent.topic@.len() + sent.message@.len()
    &&& sent.message@ == Seq::new(892, |i: int| 2u8)
}

/// The message that a run sends.
pub fn client_message(dummy_pubkey: u8) -> (sent: SignedMessage)
    ensures
        is_client_message(sent, dummy_pubkey),
{
    let sent = SignedMessage {
        pubkey: [dummy_pubkey; 32],
        signature: [1u8; 64],
        topic: [1u8; 32],
        payload_size: 924,
        message: [2u8; 892],
    };
    assert(sent.pubkey@ =~= Seq::new(32, |i: int| dummy_pubkey));
    assert(sent.signature@ =~= Seq::new(64, |i: int| 1u8));
    assert(sent.topic@ =~= Seq::new(32, |i: int| 1u8));
    assert(sent.message@ =~= Seq::new(892, |i: int| 2u8));
    sent
}

/// What one round of a run sends, and where. A round without a local socket
/// sends nothing.
pub fn client_round(dummy_pubkey: u8, socket_bound: bool) -> (sent: Option<
    (SocketAddress, SignedMessage),
>)
    ensures
        sent is Some <==> socket_bound,
        sent matches Some((to, message)) ==> {
            &&& to matches SocketAddress::V4(octets, port)
            &&& is_loopback(octets)
            &&& port == TARGET_PORT
            &&& is_client_message(message, dummy_pubkey)
        },
{
    if socket_bound {
        Some((SocketAddress::V4(loopback(), TARGET_PORT), client_message(dummy_pubkey)))
    } else {
        None
    }
}

/// A run of the client, round by round.
#[derive(Debug)]
pub struct ClientRun {
    rounds_left: usize,
}

impl View for ClientRun {
    type V = nat;

    closed spec fn view(&self) -> nat {
        self.rounds_left as nat
    }
}

impl ClientRun {
    /// A run of which no round has been made.
    pub fn new() -> (run: Self)
        ensures
            run@ == MESSAGES_PER_RUN,
    {
        ClientRun { rounds_left: MESSAGES_PER_RUN }
    }

    /// How many rounds are left.
    pub fn rounds_left(&self) -> (left: usize)
        ensures
            left == self@,
    {
        self.rounds_left
    }

    /// Makes a round. One without a local socket sends nothing and counts all the same.
    pub fn next_round(&mut self, dummy_pubkey: u8, socket_bound: bool) -> (sent: Option<
        (SocketAddress, SignedMessage),
    >)
        requires
            old(self)@ > 0,
        ensures
            final(self)@ == old(self)@ - 1,
            sent is Some <==> socket_bound,
            sent matches Some((to, message)) ==> {
                &&& to matches SocketAddress::V4(octets, port)
                &&& is_loopback(octets)
                &&& port == TARGET_PORT
                &&& is_client_message(message, dummy_pubkey)
            },
    {
        self.rounds_left = self.rounds_left - 1;
        client_round(dummy_pubkey, socket_bound)
    }
}

} // verus!
