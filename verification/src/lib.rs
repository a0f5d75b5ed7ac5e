//! The verified core of an authenticated broadcast relay.
//!
//! Clients connect, announce a public key, and send signed chat messages. The relay
//! checks each message against the key of its sender, hands it to a message store, and
//! sends it on to every client. A client that joins is sent the messages that were kept.
//!
//! * [`codec`]: the frames on the wire and the packets in them.
//! * [`json`] and [`crypto`]: what is left to `serde_json` and to OpenSSL.
//! * [`auth`]: the key of a connection, and the check of a message against it.
//! * [`connection`]: one connection with its queue of outgoing frames.
//! * [`registry`]: the live connections by address.
//! * [`server`]: the dispatcher that takes the frames of all connections in turn.
//! * [`store`]: the messages as they are kept.
//! * [`client`]: the other side: a key pair, its handshake, and messages signed with it.
//! * [`trace`]: what holds of every state that the dispatcher can reach.
//!
//! Sockets, tasks and the store itself are not in this library: it is told what was
//! read, and tells what is to be stored and written.

pub mod auth;
pub mod client;
pub mod codec;
pub mod connection;
pub mod crypto;
pub mod json;
pub mod registry;
pub mod server;
pub mod store;
pub mod trace;
