# networking

Peer discovery by UDP multicast on the local links, with its decisions verified by Verus.

Every second a node sends a `Hello` to the multicast group `ff12::e0a1:de89` on each of its
interfaces. A node of the same namespace answers with a `WhatsUp`, which holds its Zenoh id and the
port of its service. The node that asked takes the answer for a discovery if it repeats the nonce of
its last announcement and comes from somebody else.

- `src/message.rs`: the datagrams and their layout
- `src/zid.rs`, `src/addr.rs`: Zenoh ids and socket addresses as plain values
- `src/interfaces.rs`: which interfaces are announced on
- `src/send.rs`: announcements and replies on their way out
- `src/discovery.rs`: what a node does on each event
- `src/laws.rs`, `src/interface_laws.rs`: what holds of the protocol and of the interfaces as a whole
- `src/outside.rs`: the calls into other crates, whose contracts are taken on trust
- `app/`: the sockets, timers and interface watch that drive the library
- `tests/`: examples on concrete values
