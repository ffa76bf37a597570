use ed25519_dalek::Signer;
use nexoia::network::addr::PeerAddr;
use nexoia::network::connection::{Connection, Disconnected};
use nexoia::network::crypto::{decrypt, derive_hybrid_session_key, encrypt, KeyPair, MlKemKeyPair};
use nexoia::network::epa::{integrity_hash_of, timestamp_verdict, SharedEPA, VerifyError};
use nexoia::network::handshake::HandshakePhase;
use nexoia::network::identity::{verify_signature, SignatureCheckError};
use nexoia::network::secure_transport::{SecureMessage, NONCE_LEN};
use nexoia::network::session::SessionState;
use nexoia::network::verify::{result_of, verify_epa, verify_signature_only, VerifyResult};

#[test]
fn session_counter_increment() {
    let mut session = SessionState::new([0u8; 32], [1u8; 32], [2u8; 32]);
    assert_eq!(session.next_send_counter(), 0);
    assert_eq!(session.next_send_counter(), 1);
    assert_eq!(session.next_send_counter(), 2);
}

#[test]
fn session_counter_replay_detection() {
    let mut session = SessionState::new([0u8; 32], [1u8; 32], [2u8; 32]);
    assert!(session.check_counter(1));
    assert!(session.check_counter(2));
    assert!(session.check_counter(3));
    assert!(!session.check_counter(1));
    assert!(!session.check_counter(2));
    assert!(!session.check_counter(3));
    assert!(session.check_counter(4));
}

#[test]
fn session_counter_window() {
    let mut session = SessionState::new([0u8; 32], [1u8; 32], [2u8; 32]);
    assert!(session.check_counter(100));
    assert!(session.check_counter(950));
    assert!(!session.check_counter(50));
}

#[test]
fn session_counter_fresh_then_replayed() {
    let mut session = SessionState::new([0u8; 32], [1u8; 32], [2u8; 32]);
    assert!(session.check_counter(10));
    assert!(session.check_counter(7));
    assert!(!session.check_counter(7));
    assert!(!session.check_counter(10));
    assert!(session.check_counter(5000));
    assert!(!session.check_counter(10));
}

#[test]
fn encrypt_decrypt_roundtrip() {
    let key = [42u8; 32];
    let nonce = [1u8; NONCE_LEN];
    let counter = 42u64;
    let payload = b"Hello, NexoIA!";
    let msg = SecureMessage::encrypt(payload, &key, counter, &nonce).unwrap();
    let (dec_counter, dec_payload) = msg.decrypt(&key).unwrap();
    assert_eq!(counter, dec_counter);
    assert_eq!(payload.to_vec(), dec_payload);
}

#[test]
fn wrong_key_fails_decryption() {
    let key = [42u8; 32];
    let wrong_key = [99u8; 32];
    let nonce = [1u8; NONCE_LEN];
    let msg = SecureMessage::encrypt(b"Secret data", &key, 0, &nonce).unwrap();
    let result = msg.decrypt(&wrong_key);
    assert_eq!(result.unwrap_err(), "Decryption error: aead::Error");
}

#[test]
fn tampered_ciphertext_fails() {
    let key = [42u8; 32];
    let nonce = [1u8; NONCE_LEN];
    let mut msg = SecureMessage::encrypt(b"Important data", &key, 0, &nonce).unwrap();
    let last = msg.encrypted_payload.last_mut().unwrap();
    *last ^= 0xff;
    assert!(msg.decrypt(&key).is_err());
}

#[test]
fn serialization_roundtrip() {
    let key = [42u8; 32];
    let nonce = [1u8; NONCE_LEN];
    let counter = 12345u64;
    let payload = b"Test message";
    let msg = SecureMessage::encrypt(payload, &key, counter, &nonce).unwrap();
    let bytes = msg.to_bytes();
    let decoded = SecureMessage::from_bytes(&bytes).unwrap();
    assert_eq!(msg.nonce, decoded.nonce);
    assert_eq!(msg.counter, decoded.counter);
    assert_eq!(msg.encrypted_payload, decoded.encrypted_payload);
}

#[test]
fn different_counters_different_ciphertext() {
    let key = [42u8; 32];
    let nonce = [1u8; NONCE_LEN];
    let payload = b"Same content";
    let msg1 = SecureMessage::encrypt(payload, &key, 0, &nonce).unwrap();
    let msg2 = SecureMessage::encrypt(payload, &key, 1, &nonce).unwrap();
    assert_ne!(msg1.encrypted_payload, msg2.encrypted_payload);
}

#[test]
fn wire_format_layout_and_short_data() {
    let msg = SecureMessage { nonce: [7u8; 12], counter: 0x0102, encrypted_payload: vec![9, 9] };
    let bytes = msg.to_bytes();
    assert_eq!(&bytes[..4], &[0, 0, 0, 22]);
    assert_eq!(&bytes[16..24], &[0, 0, 0, 0, 0, 0, 1, 2]);
    assert_eq!(SecureMessage::from_bytes(&[1, 2]).unwrap_err(), "Data too short for header");
    assert_eq!(
        SecureMessage::from_bytes(&[0, 0, 0, 30, 1]).unwrap_err(),
        "Data too short for declared length"
    );
}

#[test]
fn connection_state_transitions() {
    let conn = Connection::<Disconnected>::new();
    let addr = PeerAddr::V4 { ip: 0x7f00_0001, port: 9001 };
    let nonce = [1u8; 32];
    let conn = conn.start_handshake(addr, nonce);
    assert_eq!(conn.remote_addr(), addr);
    assert_eq!(conn.local_nonce(), nonce);
    let conn = conn.authenticate("peer_1".to_string(), [2u8; 32]);
    assert_eq!(conn.remote_node_id(), "peer_1");
    assert_eq!(conn.remote_x25519_pubkey(), &[2u8; 32]);
    let session = SessionState::new([0u8; 32], [1u8; 32], [2u8; 32]);
    let mut conn = conn.encrypt(session);
    assert_eq!(conn.session().session_key, [0u8; 32]);
    assert!(conn.session_mut().check_counter(3));
    assert_eq!(conn.session().recv_counter, 3);
    let _conn = conn.disconnect();
}

#[test]
fn type_state_prevents_invalid_transitions() {
    // Only the transitions of the type-state API exist: a disconnected
    // connection has no session, a handshaking one cannot encrypt.
    let conn = Connection::<Disconnected>::new();
    let conn = conn.start_handshake(PeerAddr::V4 { ip: 1, port: 2 }, [0u8; 32]);
    let _back: Connection<Disconnected> = conn.fail();
    assert!(true);
}

#[test]
fn handshake_failed_phase_carries_reason() {
    let phase = HandshakePhase::Failed("invalid signature".to_string());
    assert_eq!(phase, HandshakePhase::Failed("invalid signature".to_string()));
}

#[test]
fn x25519_keypair_generate_and_dh() {
    let alice = KeyPair::generate();
    let bob = KeyPair::generate();
    let shared_alice = alice.diffie_hellman(&bob.public_bytes());
    let shared_bob = bob.diffie_hellman(&alice.public_bytes());
    assert_eq!(shared_alice, shared_bob);
}

#[test]
fn keypair_from_secret_is_stable() {
    let a = KeyPair::from_secret([5u8; 32]);
    let b = KeyPair::from_secret(a.secret_bytes());
    assert_eq!(a.public_bytes(), b.public_bytes());
}

#[test]
fn ml_kem_keypair_generate_and_encapsulate() {
    let keypair = MlKemKeyPair::generate();
    let (ct, shared_secret_send) = keypair.encapsulate().unwrap();
    let shared_secret_recv = keypair.decapsulate(&ct).unwrap();
    assert_eq!(shared_secret_send, shared_secret_recv);
    assert_eq!(ct.len(), MlKemKeyPair::ciphertext_size());
    assert_eq!(keypair.decapsulation_key_seed_bytes().len(), 64);
    assert_eq!(keypair.encapsulation_key.len(), 1184);
}

#[test]
fn ml_kem_refuses_bad_lengths() {
    assert_eq!(
        MlKemKeyPair::from_bytes(&[1, 2, 3], &[]).unwrap_err(),
        "Invalid decapsulation key seed length"
    );
    let keypair = MlKemKeyPair::from_bytes(&[1, 2, 3], &[7u8; 64]).unwrap();
    assert_eq!(keypair.decapsulate(&[0u8; 10]).unwrap_err(), "Invalid ciphertext: TryFromSliceError(())");
    assert!(keypair.encapsulate().is_ok());
}

#[test]
fn hybrid_session_key_deterministic() {
    let key1 = derive_hybrid_session_key(&[1u8; 32], &[2u8; 32], &[3u8; 32], &[4u8; 32]);
    let key2 = derive_hybrid_session_key(&[1u8; 32], &[2u8; 32], &[3u8; 32], &[4u8; 32]);
    assert_eq!(key1, key2);
}

#[test]
fn hybrid_key_different_inputs() {
    let key1 = derive_hybrid_session_key(&[1u8; 32], &[2u8; 32], &[3u8; 32], &[4u8; 32]);
    let key2 = derive_hybrid_session_key(&[1u8; 32], &[2u8; 32], &[3u8; 32], &[5u8; 32]);
    assert_ne!(key1, key2);
}

#[test]
fn encrypt_decrypt_with_derived_keys() {
    let alice = KeyPair::generate();
    let bob = KeyPair::generate();
    let key_alice = alice.derive_cipher(&bob.public_bytes()).unwrap();
    let key_bob = bob.derive_cipher(&alice.public_bytes()).unwrap();
    let message = b"Hello, NexoIA!";
    let encrypted = encrypt(message, &key_alice).unwrap();
    assert_eq!(encrypted.len(), message.len() + 28);
    let decrypted = decrypt(&encrypted, &key_bob).unwrap();
    assert_eq!(message.to_vec(), decrypted);
}

#[test]
fn wrong_key_and_short_data_fail_decryption() {
    let alice = KeyPair::generate();
    let bob = KeyPair::generate();
    let eve = KeyPair::generate();
    let key_alice = alice.derive_cipher(&bob.public_bytes()).unwrap();
    let key_eve = eve.derive_cipher(&bob.public_bytes()).unwrap();
    let encrypted = encrypt(b"Secret message", &key_alice).unwrap();
    assert_eq!(decrypt(&encrypted, &key_eve).unwrap_err(), "Decryption error: aead::Error");
    assert_eq!(decrypt(&[1, 2, 3], &key_alice).unwrap_err(), "Encrypted data too short");
}

fn sample_epa() -> (SharedEPA, ed25519_dalek::SigningKey) {
    let signing = ed25519_dalek::SigningKey::from_bytes(&[3u8; 32]);
    let public_key = hex::encode(signing.verifying_key().to_bytes());
    let node_id = "node-1".to_string();
    let integrity = integrity_hash_of(&node_id, "s", "e", "d", "m");
    let sig = signing.sign(integrity.as_bytes()).to_bytes().to_vec();
    let epa = SharedEPA {
        epa_id: integrity[..16].to_string(),
        node_id,
        public_key,
        ed25519_signature: sig,
        state_hash: "s".to_string(),
        evidence_hash: "e".to_string(),
        decision_hash: "d".to_string(),
        manifest_hash: "m".to_string(),
        timestamp: chrono::Utc::now().to_rfc3339(),
        integrity_hash: integrity,
        encrypted_payload: None,
        ephemeral_public_key: None,
    };
    (epa, signing)
}

#[test]
fn create_and_verify_full() {
    let (epa, _) = sample_epa();
    assert!(epa.verify_integrity());
    assert_eq!(epa.verify_signature(), Ok(()));
    assert_eq!(epa.verify_full(), Ok(()));
    assert_eq!(verify_epa(&epa), VerifyResult::Valid);
}

#[test]
fn tampered_epa_fails_integrity() {
    let (mut epa, _) = sample_epa();
    epa.state_hash = "tampered".to_string();
    assert_eq!(epa.verify_full(), Err(VerifyError::IntegrityFailed));
    assert_eq!(verify_epa(&epa), VerifyResult::InvalidIntegrity);
}

#[test]
fn wrong_signature_fails() {
    let (mut epa, _) = sample_epa();
    let wrong = ed25519_dalek::SigningKey::from_bytes(&[4u8; 32]);
    epa.ed25519_signature = wrong.sign(epa.integrity_hash.as_bytes()).to_bytes().to_vec();
    assert_eq!(epa.verify_full(), Err(VerifyError::SignatureFailed));
    epa.public_key = String::new();
    assert_eq!(epa.verify_full(), Err(VerifyError::MissingPublicKey));
    assert_eq!(verify_epa(&epa), VerifyResult::InvalidSignature);
}

#[test]
fn expired_timestamp_fails() {
    let (mut epa, _) = sample_epa();
    epa.timestamp = (chrono::Utc::now() - chrono::Duration::minutes(10)).to_rfc3339();
    assert_eq!(epa.verify_full(), Err(VerifyError::TimestampExpired));
    epa.timestamp = "not a time".to_string();
    assert_eq!(epa.verify_full(), Err(VerifyError::TimestampInvalid));
    assert_eq!(verify_epa(&epa), VerifyResult::InvalidIntegrity);
}

#[test]
fn timestamp_window_bounds() {
    assert_eq!(timestamp_verdict(Some(300)), Ok(()));
    assert_eq!(timestamp_verdict(Some(301)), Err(VerifyError::TimestampExpired));
    assert_eq!(timestamp_verdict(Some(-120)), Ok(()));
    assert_eq!(timestamp_verdict(Some(-121)), Err(VerifyError::TimestampTooNew));
    assert_eq!(timestamp_verdict(None), Err(VerifyError::TimestampInvalid));
    assert_eq!(result_of(Err(VerifyError::TimestampTooNew)), VerifyResult::TimestampTooNew);
    assert_eq!(VerifyResult::Valid.as_str(), "VALID");
}

#[test]
fn signature_check_errors() {
    assert_eq!(verify_signature("zz", b"x", &[0u8; 64]), Err(SignatureCheckError::InvalidHex));
    assert_eq!(verify_signature("abcd", b"x", &[0u8; 64]), Err(SignatureCheckError::InvalidKeyLength));
    let signing = ed25519_dalek::SigningKey::from_bytes(&[3u8; 32]);
    let pk = hex::encode(signing.verifying_key().to_bytes());
    assert_eq!(verify_signature(&pk, b"x", &[0u8; 3]), Err(SignatureCheckError::InvalidSignatureLength));
    let sig = signing.sign(b"x").to_bytes();
    assert_eq!(verify_signature(&pk.to_uppercase(), b"x", &sig), Ok(true));
    assert!(verify_signature_only(&pk, b"x", &sig));
    assert!(!verify_signature_only(&pk, b"y", &sig));
}

#[test]
fn session_counter_not_accepted_twice_across_window() {
    let mut session = SessionState::new([0u8; 32], [1u8; 32], [2u8; 32]);
    assert!(session.check_counter(1));
    assert!(session.check_counter(64));
    assert!(session.check_counter(65));
    assert!(!session.check_counter(1));
    assert!(!session.check_counter(64));
    assert!(session.check_counter(2));
    assert!(session.check_counter(1000));
    assert!(!session.check_counter(2));
    assert!(session.check_counter(990));
    assert!(!session.check_counter(990));
    assert!(session.check_counter(937));
    assert!(!session.check_counter(936));
}
