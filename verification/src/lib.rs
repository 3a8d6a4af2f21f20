//! Membership logic of a gossip overlay: the peers a node knows, the messages
//! it answers, and the snapshots its tasks exchange.

pub mod client;
pub mod controller;
pub mod handler;
pub mod identity;
pub mod laws;
pub mod message;
pub mod network_view;
pub mod peer;
pub mod peers;
pub mod sampling;
pub mod server;
