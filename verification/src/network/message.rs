//! Messages exchanged between nodes.

use vstd::prelude::*;
use crate::network::epa::SharedEPA;
use crate::network::secure_transport::SecureMessage;

verus! {

/// A message between nodes.
#[derive(Debug, Clone)]
pub enum NetworkMessage {
    EPA(SharedEPA),
    Ping { node_id: String },
    Pong { node_id: String },
    Discover { node_id: String, address: String },
    Heartbeat { node_id: String, timestamp: String },
    HeartbeatAck { node_id: String },
    /// Peers known to an authenticated node.
    PeerExchange { node_id: String, peers: Vec<String> },
    /// Handshake, phase 1: identity and public keys.
    Hello { node_id: String, ed25519_pubkey: String, x25519_pubkey: Vec<u8>, ml_kem_ek: Vec<u8>, nonce: [u8; 32] },
    /// Handshake, phase 2: the challenge.
    Challenge { challenge_hash: String, timestamp: String },
    /// Handshake, phase 3: the signed challenge and an ephemeral key.
    ChallengeResponse { ed25519_signature: Vec<u8>, nonce: [u8; 32], x25519_pubkey: Vec<u8> },
    /// Handshake, phase 4: the ML-KEM ciphertext and the responder's ephemeral key.
    SessionKeyExchange { ml_kem_ciphertext: Vec<u8>, x25519_pubkey: Vec<u8>, signature: Vec<u8> },
    /// Handshake, phase 5: confirmation under the session key.
    SessionKeyConfirm { encrypted_ok: Vec<u8> },
    /// Traffic after the handshake.
    SecureMessage(SecureMessage),
}

/// What a node stores between runs: its peers and the packages it holds.
#[derive(Debug, Clone)]
pub struct PersistedData {
    pub peers: Vec<String>,
    pub epas: Vec<SharedEPA>,
}

impl Default for PersistedData {
    fn default() -> (d: Self)
        ensures
            d.peers@.len() == 0,
            d.epas@.len() == 0,
    {
        PersistedData { peers: Vec::new(), epas: Vec::new() }
    }
}

} // verus!
