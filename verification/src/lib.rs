//! Peer discovery by multicast on the local links.
//!
//! A node asks the group, every second and on every interface, who else is in its namespace
//! ([`Hello`](message::Hello)); a node of that namespace answers with its Zenoh id and the port of
//! its service ([`WhatsUp`](message::WhatsUp)). The library decides: which datagrams are answered
//! and how, what counts as a discovery, which interfaces are announced on. Sockets, timers and the
//! watch on the interfaces belong to the program around it, which hands events in and carries the
//! resulting steps out.

pub mod addr;
pub mod call_laws;
pub mod discovery;
pub mod interface_laws;
pub mod interfaces;
pub mod laws;
pub mod meaning;
pub mod message;
mod outside;
pub mod send;
pub mod zid;
