use nexoia::clock::now_millis;
use nexoia::network::addr::PeerAddr;
use nexoia::network::crypto::{decrypt, encrypt, KeyPair};
use nexoia::network::crypto_key::{decrypt_with_passphrase, encrypt_with_passphrase};
use nexoia::network::epa::SharedEPA;
use nexoia::network::handshake::{HandshakePhase, PendingHandshake};
use nexoia::network::identity::{verify_signature, NodeIdentity};
use nexoia::network::reputation::{NodeReputation, ReputationStore};
use nexoia::network::secure_transport::SecureMessage;
use nexoia::network::session::{SessionManager, SessionState};
use nexoia::network::transport::{frame, unframe, PeerList, PeerState, TrustedPeer, TrustedPeerList, HEARTBEAT_WINDOW_SIZE};
use nexoia::network::verify::{verify_epa, VerifyResult};

fn local(port: u16) -> PeerAddr {
    PeerAddr::V4 { ip: 0x7f00_0001, port }
}

fn trusted(node_id: &str, key: &str, enc: u8, addr: PeerAddr, at: i64) -> TrustedPeer {
    TrustedPeer {
        node_id: node_id.to_string(),
        public_key: key.to_string(),
        encryption_public_key: [enc; 32],
        addr,
        authenticated_at: at,
    }
}

// ── Peer lists ──────────────────────────────────────────────

#[test]
fn peer_list_add_and_remove() {
    let mut list = PeerList::new(3);
    let addr1 = local(9001);
    let addr2 = local(9002);

    assert!(list.add(addr1));
    assert!(list.add(addr2));
    assert!(!list.add(addr1));
    assert_eq!(list.len(), 2);

    assert!(list.remove(&addr1));
    assert_eq!(list.len(), 1);
    assert!(!list.contains(&addr1));
    assert!(list.contains(&addr2));
}

#[test]
fn peer_list_max_capacity() {
    let mut list = PeerList::new(2);
    let addr1 = local(9001);
    let addr2 = local(9002);
    let addr3 = local(9003);

    assert!(list.add(addr1));
    assert!(list.add(addr2));
    assert!(list.add(addr3));
    assert_eq!(list.len(), 2);
    assert!(!list.contains(&addr1));
    assert!(list.contains(&addr3));
}

#[test]
fn trusted_peer_list_basic() {
    let mut list = TrustedPeerList::new(2);
    let addr1 = local(9001);
    let addr2 = local(9002);
    let now = now_millis();
    let peer1 = trusted("node_a", "key_a", 1, addr1, now);
    let peer2 = trusted("node_b", "key_b", 2, addr2, now);

    assert!(list.add(peer1.clone()));
    assert!(list.add(peer2));
    assert!(!list.add(peer1));
    assert_eq!(list.len(), 2);
    assert!(list.contains(&addr1));
    assert!(list.contains(&addr2));
}

#[test]
fn trusted_peer_list_evicts_oldest() {
    let mut list = TrustedPeerList::new(2);
    let addr1 = local(9001);
    let addr2 = local(9002);
    let addr3 = local(9003);
    let now = now_millis();

    assert!(list.add(trusted("node_a", "key_a", 1, addr1, now - 3_600_000)));
    assert!(list.add(trusted("node_b", "key_b", 2, addr2, now)));
    assert!(list.add(trusted("node_c", "key_c", 3, addr3, now)));
    assert_eq!(list.len(), 2);
    assert!(!list.contains(&addr1));
    assert!(list.contains(&addr2));
    assert!(list.contains(&addr3));
}

#[test]
fn trusted_peer_list_remove() {
    let mut list = TrustedPeerList::new(5);
    let addr = local(9001);
    assert!(list.add(trusted("node_a", "key_a", 1, addr, now_millis())));
    assert!(list.remove(&addr));
    assert!(!list.contains(&addr));
    assert!(!list.remove(&addr));
}

#[test]
fn trusted_peer_list_peers_and_addrs() {
    let mut list = TrustedPeerList::new(5);
    let now = now_millis();
    list.add(trusted("a", "k", 1, local(9001), now));
    list.add(trusted("b", "k", 2, local(9002), now));
    assert_eq!(list.peers().len(), 2);
    assert_eq!(list.addrs().len(), 2);
}

// ── Peer state (heartbeats) ─────────────────────────────────

#[test]
fn peer_state_new_has_no_misses() {
    let state = PeerState::new();
    assert_eq!(state.consecutive_misses, 0);
    assert!(state.heartbeat_window.is_empty());
}

#[test]
fn peer_state_record_heartbeat_resets_misses() {
    let mut state = PeerState::new();
    state.consecutive_misses = 5;
    state.record_heartbeat();
    assert_eq!(state.consecutive_misses, 0);
}

#[test]
fn peer_state_record_miss_increments() {
    let mut state = PeerState::new();
    state.record_miss();
    assert_eq!(state.consecutive_misses, 1);
    state.record_miss();
    assert_eq!(state.consecutive_misses, 2);
}

#[test]
fn peer_state_sliding_window_limits_size() {
    let mut state = PeerState::new();
    for _ in 0..10 {
        state.record_heartbeat();
    }
    assert!(state.heartbeat_window.len() <= HEARTBEAT_WINDOW_SIZE);
}

#[test]
fn peer_state_inactive_when_empty_window() {
    let state = PeerState::new();
    assert!(state.is_inactive(300));
}

#[test]
fn peer_state_not_inactive_after_heartbeat() {
    let mut state = PeerState::new();
    state.record_heartbeat();
    assert!(!state.is_inactive(300));
}

#[test]
fn peer_state_reconnect_backoff_increases() {
    let mut state = PeerState::new();
    state.schedule_reconnect();
    let first_backoff = state.next_reconnect;
    state.schedule_reconnect();
    let second_backoff = state.next_reconnect;
    assert!(second_backoff > first_backoff);
}

#[test]
fn peer_state_reconnect_stops_after_max_attempts() {
    let mut state = PeerState::new();
    for _ in 0..6 {
        state.schedule_reconnect();
    }
    assert!(!state.should_reconnect());
}

#[test]
fn peer_state_reconnect_allowed_initially() {
    let state = PeerState::new();
    assert!(state.should_reconnect());
}

#[test]
fn peer_state_backoff_doubles_from_ten_seconds() {
    let mut state = PeerState::new_at(1_000);
    state.schedule_reconnect_at(1_000);
    assert_eq!(state.next_reconnect, 11_000);
    state.schedule_reconnect_at(1_000);
    assert_eq!(state.next_reconnect, 21_000);
    assert!(!state.should_reconnect_at(20_999));
    assert!(state.should_reconnect_at(21_000));
}

#[test]
fn frame_then_unframe_gives_back_the_payload() {
    let framed = frame(b"hello");
    assert_eq!(framed, vec![0, 0, 0, 5, b'h', b'e', b'l', b'l', b'o']);
    assert_eq!(unframe(&framed).unwrap(), b"hello".to_vec());
    assert!(unframe(&[0, 0, 0]).is_err());
    assert!(unframe(&[0, 0, 0, 9, 1]).is_err());
}

// ── Handshakes ──────────────────────────────────────────────

#[test]
fn pending_handshake_responder() {
    let addr = local(9001);
    let hs = PendingHandshake::new_responder(addr, [2u8; 32]);
    assert_eq!(hs.phase, HandshakePhase::HelloReceived);
    assert_eq!(hs.remote_addr, addr);
    assert_eq!(hs.local_nonce, [2u8; 32]);
    assert!(hs.remote_node_id.is_none());
    assert!(hs.ephemeral_secret.is_some());
    assert!(hs.ephemeral_public.is_some());
}

#[test]
fn pending_handshake_initiator() {
    let addr = local(9002);
    let secret = KeyPair::generate().secret_bytes();
    let hs = PendingHandshake::new_initiator(addr, [3u8; 32], secret);
    assert_eq!(hs.phase, HandshakePhase::HelloReceived);
    assert_eq!(hs.remote_addr, addr);
    assert_eq!(hs.local_nonce, [3u8; 32]);
    assert!(hs.ephemeral_secret.is_some());
    assert!(hs.ephemeral_public.is_some());
}

#[test]
fn handshake_not_expired_initially() {
    let hs = PendingHandshake::new_responder(local(9003), [1u8; 32]);
    assert!(!hs.is_expired(300_000));
}

#[test]
fn handshake_expires_after_timeout() {
    let mut hs = PendingHandshake::new_responder(local(9004), [1u8; 32]);
    hs.created_at -= 400_000;
    assert!(hs.is_expired(300_000));
}

#[test]
fn handshake_phase_transitions() {
    let mut hs = PendingHandshake::new_responder(local(9005), [1u8; 32]);
    assert_eq!(hs.phase, HandshakePhase::HelloReceived);
    hs.phase = HandshakePhase::ChallengeSent;
    assert_eq!(hs.phase, HandshakePhase::ChallengeSent);
    hs.phase = HandshakePhase::ResponseReceived;
    assert_eq!(hs.phase, HandshakePhase::ResponseReceived);
    hs.phase = HandshakePhase::Complete;
    assert_eq!(hs.phase, HandshakePhase::Complete);
}

#[test]
fn handshake_remote_fields_initially_none() {
    let hs = PendingHandshake::new_responder(local(9007), [1u8; 32]);
    assert!(hs.remote_node_id.is_none());
    assert!(hs.remote_ed25519_pubkey.is_none());
    assert!(hs.remote_x25519_pubkey.is_none());
    assert!(hs.remote_ml_kem_ek.is_none());
    assert!(hs.remote_nonce.is_none());
    assert!(hs.challenge_hash.is_none());
    assert!(hs.challenge_timestamp.is_none());
    assert!(hs.ml_kem_ciphertext.is_none());
    assert!(hs.ml_kem_shared.is_none());
    assert!(hs.session_key.is_none());
}

#[test]
fn handshake_expiry_is_strictly_after_the_timeout() {
    let hs = PendingHandshake::new_at(local(9008), [1u8; 32], [7u8; 32], 10_000);
    assert!(!hs.is_expired_at(300, 10_300));
    assert!(hs.is_expired_at(300, 10_301));
}

// ── Sessions ────────────────────────────────────────────────

#[test]
fn session_manager_insert_and_get() {
    let mut manager = SessionManager::new();
    let addr = local(9001);
    let session = SessionState::new([0u8; 32], [1u8; 32], [2u8; 32]);
    manager.insert(addr, session);
    assert!(manager.contains(&addr));
    assert!(manager.get(&addr).is_some());
    assert!(manager.get(&local(9002)).is_none());
}

// ── Reputation ──────────────────────────────────────────────

#[test]
fn new_reputation_starts_clean() {
    let rep = NodeReputation::new("node_a".to_string());
    assert_eq!(rep.failures, 0);
    assert_eq!(rep.successes, 0);
    assert!(!rep.is_banned());
}

#[test]
fn ban_after_10_failures() {
    let mut rep = NodeReputation::new("node_a".to_string());
    for _ in 0..9 {
        rep.record_failure();
        assert!(!rep.is_banned());
    }
    rep.record_failure();
    assert!(rep.is_banned());
}

#[test]
fn ban_expires_after_24h() {
    let mut rep = NodeReputation::new("node_a".to_string());
    for _ in 0..10 {
        rep.record_failure();
    }
    assert!(rep.is_banned());
    rep.ban_expires_at = Some(now_millis() - 25 * 3_600_000);
    assert!(!rep.is_banned());
}

#[test]
fn success_resets_failures() {
    let mut rep = NodeReputation::new("node_a".to_string());
    for _ in 0..5 {
        rep.record_failure();
    }
    for _ in 0..100 {
        rep.record_success();
    }
    assert_eq!(rep.failures, 0);
}

#[test]
fn reputation_store_bans_only_the_failing_node() {
    let mut store = ReputationStore::new();
    for _ in 0..10 {
        store.record_failure_at("node_a", 1_000);
    }
    store.record_success_at("node_b", 1_000);
    assert!(store.is_banned_at("node_a", 1_000));
    assert!(!store.is_banned_at("node_b", 1_000));
    assert_eq!(store.banned_count_at(1_000), 1);
    assert!(!store.is_banned_at("node_a", 1_000 + 24 * 3_600_000 + 1));
}

// ── Encryption ──────────────────────────────────────────────

#[test]
fn crypto_encrypt_decrypt_roundtrip() {
    let alice = KeyPair::generate();
    let bob = KeyPair::generate();
    let cipher_alice = alice.derive_cipher(&bob.public_bytes()).unwrap();
    let cipher_bob = bob.derive_cipher(&alice.public_bytes()).unwrap();
    let message = b"Hello, NexoIA!";
    let encrypted = encrypt(message, &cipher_alice).unwrap();
    let decrypted = decrypt(&encrypted, &cipher_bob).unwrap();
    assert_eq!(message.to_vec(), decrypted);
}

#[test]
fn crypto_wrong_key_fails_decryption() {
    let alice = KeyPair::generate();
    let bob = KeyPair::generate();
    let eve = KeyPair::generate();
    let cipher_alice = alice.derive_cipher(&bob.public_bytes()).unwrap();
    let cipher_eve = eve.derive_cipher(&bob.public_bytes()).unwrap();
    let encrypted = encrypt(b"Secret message", &cipher_alice).unwrap();
    assert!(decrypt(&encrypted, &cipher_eve).is_err());
}

#[test]
fn crypto_tampered_ciphertext_fails() {
    let alice = KeyPair::generate();
    let bob = KeyPair::generate();
    let cipher_alice = alice.derive_cipher(&bob.public_bytes()).unwrap();
    let cipher_bob = bob.derive_cipher(&alice.public_bytes()).unwrap();
    let mut encrypted = encrypt(b"Important data", &cipher_alice).unwrap();
    let last = encrypted.last_mut().unwrap();
    *last ^= 0xff;
    assert!(decrypt(&encrypted, &cipher_bob).is_err());
}

#[test]
fn crypto_key_encrypt_decrypt_roundtrip() {
    let data = b"secret private key bytes";
    let passphrase = b"my-strong-passphrase";
    let encrypted = encrypt_with_passphrase(data, passphrase).unwrap();
    let decrypted = decrypt_with_passphrase(&encrypted, passphrase).unwrap();
    assert_eq!(data.to_vec(), decrypted);
}

#[test]
fn wrong_passphrase_fails() {
    let encrypted = encrypt_with_passphrase(b"secret data", b"correct").unwrap();
    assert!(decrypt_with_passphrase(&encrypted, b"wrong").is_err());
}

#[test]
fn different_salts_produce_different_ciphertext() {
    let enc1 = encrypt_with_passphrase(b"same data", b"passphrase").unwrap();
    let enc2 = encrypt_with_passphrase(b"same data", b"passphrase").unwrap();
    assert_ne!(enc1, enc2);
}

#[test]
fn passphrase_ciphertext_too_short_is_refused() {
    assert!(decrypt_with_passphrase(&[0u8; 10], b"p").is_err());
}

#[test]
fn secure_transport_encrypt_decrypt_roundtrip() {
    let key = [42u8; 32];
    let nonce = [1u8; 12];
    let msg = SecureMessage::encrypt(b"Hello, NexoIA!", &key, 42, &nonce).unwrap();
    let (counter, payload) = msg.decrypt(&key).unwrap();
    assert_eq!(counter, 42);
    assert_eq!(payload, b"Hello, NexoIA!".to_vec());
}

#[test]
fn secure_transport_wrong_key_fails_decryption() {
    let msg = SecureMessage::encrypt(b"Secret data", &[42u8; 32], 0, &[1u8; 12]).unwrap();
    assert!(msg.decrypt(&[99u8; 32]).is_err());
}

#[test]
fn secure_transport_tampered_ciphertext_fails() {
    let key = [42u8; 32];
    let mut msg = SecureMessage::encrypt(b"Important data", &key, 0, &[1u8; 12]).unwrap();
    let last = msg.encrypted_payload.last_mut().unwrap();
    *last ^= 0xff;
    assert!(msg.decrypt(&key).is_err());
}

// ── Identity and packages ───────────────────────────────────

#[test]
fn generate_creates_unique_identities() {
    let a = NodeIdentity::generate("node_a");
    let b = NodeIdentity::generate("node_b");
    assert_ne!(a.node_id(), b.node_id());
}

#[test]
fn sign_and_verify_with_ed25519() {
    let node = NodeIdentity::generate("test_node");
    let data = "important evidence";
    let sig = node.sign(data);
    let result = verify_signature(node.public_key(), data.as_bytes(), &sig);
    assert!(result.is_ok());
    assert!(result.unwrap());
}

#[test]
fn wrong_key_fails_verification() {
    let node = NodeIdentity::generate("test_node");
    let wrong_node = NodeIdentity::generate("wrong_node");
    let data = "important evidence";
    let sig = node.sign(data);
    let result = verify_signature(wrong_node.public_key(), data.as_bytes(), &sig);
    assert!(result.is_ok());
    assert!(!result.unwrap());
}

#[test]
fn tampered_data_fails_verification() {
    let node = NodeIdentity::generate("test_node");
    let sig = node.sign("important evidence");
    let result = verify_signature(node.public_key(), b"tampered data", &sig);
    assert!(result.is_ok());
    assert!(!result.unwrap());
}

#[test]
fn verify_valid_epa() {
    let node = NodeIdentity::generate("verifier_test");
    let epa = SharedEPA::create(
        &node,
        r#"{"project":"test"}"#,
        r#"{"evidence":"data"}"#,
        r#"{"decision":"ok"}"#,
        r#"{"manifest":"v1"}"#,
    );
    assert!(matches!(verify_epa(&epa), VerifyResult::Valid));
}

#[test]
fn verify_tampered_epa() {
    let node = NodeIdentity::generate("verifier_test");
    let mut epa = SharedEPA::create(
        &node,
        r#"{"project":"test"}"#,
        r#"{"evidence":"data"}"#,
        r#"{"decision":"ok"}"#,
        r#"{"manifest":"v1"}"#,
    );
    epa.state_hash = "tampered".to_string();
    assert!(matches!(verify_epa(&epa), VerifyResult::InvalidIntegrity));
}

#[test]
fn epa_id_is_the_integrity_prefix() {
    let node = NodeIdentity::generate("prefix_test");
    let epa = SharedEPA::create(&node, "s", "e", "d", "m");
    assert_eq!(epa.epa_id, epa.integrity_hash[..16].to_string());
    assert!(epa.verify_integrity());
    assert!(epa.verify_signature().is_ok());
}

#[test]
fn identity_saved_under_passphrase_loads_back() {
    let id = NodeIdentity::generate("saver");
    let saved = id.to_saved(Some(b"correct horse".as_slice())).expect("saving under a passphrase succeeds");
    assert!(saved.secret_key_bytes.is_empty());
    assert!(saved.encrypted_secret_key.is_some());
    let back = NodeIdentity::from_saved(&saved, Some(b"correct horse".as_slice())).expect("load");
    assert_eq!(back.node_id(), id.node_id());
    assert_eq!(back.public_key(), id.public_key());
    assert!(NodeIdentity::from_saved(&saved, None).is_err());
}
