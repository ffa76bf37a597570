//! Peer-to-peer layer: addresses, connection states, sessions and the wire
//! formats exchanged between nodes.

pub mod addr;
pub mod api;
pub mod connection;
pub mod crypto;
pub mod crypto_key;
pub mod epa;
pub mod handshake;
pub mod heartbeat;
pub mod handshake_runner;
pub mod identity;
pub mod message;
pub mod persistence;
pub mod reputation;
pub mod secure_transport;
pub mod session;
pub mod transport;
pub mod verify;
