# gossip

The membership logic of a gossip overlay, verified with Verus.

A node keeps an active and a passive view of the network. It learns of peers by
`Join`, `ForwardJoin` and `Connect` messages, and exchanges peers with others in
shuffles.

- `src/peer.rs`, `src/peers.rs`: peers, their addresses, and peers by id.
- `src/network_view.rs`: the two views of the network and their snapshots.
- `src/message.rs`: messages, events and the actions of a node.
- `src/handler.rs`: what a node answers to each message.
- `src/controller.rs`: the tasks that keep the view and the snapshot to shuffle from.
- `src/server.rs`: starting, stopping, bootstrapping, shuffling.
- `src/identity.rs`, `src/sampling.rs`: ids of nodes and random orders.
- `src/client.rs`: the messages of a load client.
- `src/laws.rs`: what holds of the overlay as a whole.
- `app/`: sockets, timers, channels and the wire format around the library.
