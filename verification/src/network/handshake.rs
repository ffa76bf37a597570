//! The secure handshake between two nodes, in five phases:
//!
//! 1. Hello: node id, Ed25519 public key, X25519 ephemeral key, ML-KEM key, nonce;
//! 2. Challenge: hash of node id, timestamp and address;
//! 3. ChallengeResponse: Ed25519 signature of the challenge, X25519 ephemeral key;
//! 4. SessionKeyExchange: ML-KEM ciphertext, X25519 ephemeral key, signature;
//! 5. SessionKeyConfirm: `OK` sealed under the session key.
//!
//! This file holds the phases and the state kept for a handshake under way.
//! Times are milliseconds since the Unix epoch, UTC.

use vstd::prelude::*;
use crate::clock::now_millis;
use crate::network::addr::PeerAddr;
use crate::network::crypto::{x25519_public, x25519_public_of};
use crate::network::secure_transport::generate_handshake_nonce;

verus! {

/// Where a handshake stands.
#[derive(Debug, Clone, PartialEq, Eq)]
pub enum HandshakePhase {
    /// Hello received; a challenge is due.
    HelloReceived,
    /// Challenge sent; its response is awaited.
    ChallengeSent,
    /// Response received, being processed.
    ResponseReceived,
    /// Session established.
    Complete,
    /// Handshake failed, for the given reason.
    Failed(String),
}

/// A handshake under way with one peer. The ephemeral X25519 secret is kept
/// as its 32 bytes; the type has no `Debug`, so it is never printed.
pub struct PendingHandshake {
    pub phase: HandshakePhase,
    pub remote_addr: PeerAddr,
    pub remote_node_id: Option<String>,
    pub remote_ed25519_pubkey: Option<String>,
    pub remote_x25519_pubkey: Option<[u8; 32]>,
    pub remote_ml_kem_ek: Option<Vec<u8>>,
    pub local_nonce: [u8; 32],
    pub remote_nonce: Option<[u8; 32]>,
    pub challenge_hash: Option<String>,
    pub challenge_timestamp: Option<String>,
    pub ml_kem_ciphertext: Option<Vec<u8>>,
    /// Local ephemeral X25519 secret (forward secrecy).
    pub ephemeral_secret: Option<[u8; 32]>,
    /// Local ephemeral X25519 public key, sent to the peer.
    pub ephemeral_public: Option<[u8; 32]>,
    /// ML-KEM shared secret once encapsulated or decapsulated.
    pub ml_kem_shared: Option<[u8; 32]>,
    /// Derived session key, checked when the confirmation arrives.
    pub session_key: Option<[u8; 32]>,
    /// When the handshake began.
    pub created_at: i64,
}

/// A fresh handshake with the given ephemeral secret: nothing known of the
/// peer yet.
pub open spec fn fresh_handshake(h: PendingHandshake, addr: PeerAddr, nonce: [u8; 32], secret: Seq<u8>, now: i64) -> bool {
    &&& h.phase == HandshakePhase::HelloReceived
    &&& h.remote_addr == addr
    &&& h.local_nonce == nonce
    &&& h.remote_node_id is None
    &&& h.remote_ed25519_pubkey is None
    &&& h.remote_x25519_pubkey is None
    &&& h.remote_ml_kem_ek is None
    &&& h.remote_nonce is None
    &&& h.challenge_hash is None
    &&& h.challenge_timestamp is None
    &&& h.ml_kem_ciphertext is None
    &&& (h.ephemeral_secret matches Some(s) && s@ == secret)
    &&& (h.ephemeral_public matches Some(p) && p@ == x25519_public_of(secret))
    &&& h.ml_kem_shared is None
    &&& h.session_key is None
    &&& h.created_at == now
}

impl PendingHandshake {
    /// A handshake begun at `now` with the given ephemeral secret.
    pub fn new_at(remote_addr: PeerAddr, local_nonce: [u8; 32], ephemeral_secret: [u8; 32], now: i64) -> (h: Self)
        ensures
            fresh_handshake(h, remote_addr, local_nonce, ephemeral_secret@, now),
    {
        let ephemeral_public = x25519_public(&ephemeral_secret);
        PendingHandshake {
            phase: HandshakePhase::HelloReceived,
            remote_addr,
            remote_node_id: None,
            remote_ed25519_pubkey: None,
            remote_x25519_pubkey: None,
            remote_ml_kem_ek: None,
            local_nonce,
            remote_nonce: None,
            challenge_hash: None,
            challenge_timestamp: None,
            ml_kem_ciphertext: None,
            ephemeral_secret: Some(ephemeral_secret),
            ephemeral_public: Some(ephemeral_public),
            ml_kem_shared: None,
            session_key: None,
            created_at: now,
        }
    }

    /// The responder's handshake, begun now with a fresh random ephemeral
    /// secret.
    pub fn new_responder(remote_addr: PeerAddr, local_nonce: [u8; 32]) -> (h: Self)
        ensures
            exists|secret: Seq<u8>, now: i64| fresh_handshake(h, remote_addr, local_nonce, secret, now),
    {
        let secret = generate_handshake_nonce();
        let h = PendingHandshake::new_at(remote_addr, local_nonce, secret, now_millis());
        assert(fresh_handshake(h, remote_addr, local_nonce, secret@, h.created_at));
        h
    }

    /// The initiator's handshake, begun now with the ephemeral secret whose
    /// public key went out in its hello.
    pub fn new_initiator(remote_addr: PeerAddr, local_nonce: [u8; 32], ephemeral_secret: [u8; 32]) -> (h: Self)
        ensures
            exists|now: i64| fresh_handshake(h, remote_addr, local_nonce, ephemeral_secret@, now),
    {
        let h = PendingHandshake::new_at(remote_addr, local_nonce, ephemeral_secret, now_millis());
        assert(fresh_handshake(h, remote_addr, local_nonce, ephemeral_secret@, h.created_at));
        h
    }

    /// More than `timeout_ms` passed between the start of `h` and `now`.
    pub open spec fn expired_at(h: PendingHandshake, timeout_ms: u64, now: i64) -> bool {
        now - h.created_at > timeout_ms
    }

    /// Whether more than `timeout_ms` passed between the start and `now`.
    pub fn is_expired_at(&self, timeout_ms: u64, now: i64) -> (b: bool)
        ensures
            b == (now - self.created_at > timeout_ms),
    {
        let elapsed: i128 = now as i128 - self.created_at as i128;
        elapsed > timeout_ms as i128
    }

    /// Whether more than `timeout_ms` passed since the start, read against
    /// the clock's current instant.
    pub fn is_expired(&self, timeout_ms: u64) -> (b: bool)
        ensures
            exists|now: i64| b == #[trigger] Self::expired_at(*self, timeout_ms, now),
    {
        let now = now_millis();
        let b = self.is_expired_at(timeout_ms, now);
        assert(b == Self::expired_at(*self, timeout_ms, now));
        b
    }
}

} // verus!
