use nexoia::addrmap::AddrMap;
use nexoia::network::addr::PeerAddr;
use nexoia::network::handshake_runner::{ListenerState, ListenerStep};
use nexoia::network::identity::NodeIdentity;
use nexoia::network::message::NetworkMessage;
use nexoia::network::reputation::ReputationStore;
use nexoia::network::session::SessionManager;
use nexoia::network::transport::{PeerList, TrustedPeerList};

fn listener() -> ListenerState {
    ListenerState {
        pending: AddrMap::new(),
        sessions: SessionManager::new(),
        trusted: TrustedPeerList::new(10),
        peers: PeerList::new(10),
        peer_states: AddrMap::new(),
        reputation: ReputationStore::new(),
        epas: Vec::new(),
    }
}

#[test]
fn challenge_response_is_answered_with_key_exchange() {
    let init_node = NodeIdentity::generate("initiator");
    let resp_node = NodeIdentity::generate("responder");
    let init_addr = PeerAddr::V4 { ip: 0x7f00_0001, port: 9001 };
    let resp_addr = PeerAddr::V4 { ip: 0x7f00_0001, port: 9002 };
    let mut initiator = listener();
    let mut responder = listener();

    // Phase 1: hello.
    let hello = initiator.bootstrap_peer(&init_node, resp_addr).expect("hello");
    let (node_id, ed, x, ek, nonce) = match hello {
        NetworkMessage::Hello { node_id, ed25519_pubkey, x25519_pubkey, ml_kem_ek, nonce } => {
            (node_id, ed25519_pubkey, x25519_pubkey, ml_kem_ek, nonce)
        }
        other => panic!("unexpected {other:?}"),
    };
    // Phase 2: challenge.
    let challenge = responder
        .on_hello(init_addr, "127.0.0.1:9001", node_id, ed, &x, ek, nonce)
        .expect("challenge");
    let (hash, ts) = match challenge {
        NetworkMessage::Challenge { challenge_hash, timestamp } => (challenge_hash, timestamp),
        other => panic!("unexpected {other:?}"),
    };
    // Phase 3: challenge response.
    let response = initiator.on_challenge(&init_node, resp_addr, &hash, &ts).expect("response");
    let (sig, rnonce, rx) = match response {
        NetworkMessage::ChallengeResponse { ed25519_signature, nonce, x25519_pubkey } => {
            (ed25519_signature, nonce, x25519_pubkey)
        }
        other => panic!("unexpected {other:?}"),
    };
    // Phase 4: the responder sends the key exchange and keeps the handshake.
    let exchange = responder
        .on_challenge_response(&resp_node, init_addr, &sig, rnonce, &rx)
        .expect("key exchange");
    let (ct, eph) = match exchange {
        NetworkMessage::SessionKeyExchange { ml_kem_ciphertext, x25519_pubkey, signature } => {
            assert_eq!(signature.len(), 64);
            (ml_kem_ciphertext, x25519_pubkey)
        }
        other => panic!("unexpected {other:?}"),
    };
    assert_eq!(ct.len(), 1088);
    assert_eq!(eph.len(), 32);
    assert_eq!(responder.pending.len(), 1);
    // The initiator takes the exchange and confirms.
    let (step, confirm) = initiator.on_session_key_exchange(&init_node, resp_addr, &ct, &eph);
    assert_eq!(step, ListenerStep::Continue);
    assert!(matches!(confirm, Some(NetworkMessage::SessionKeyConfirm { .. })));
}

#[test]
fn bad_signature_ends_the_handshake() {
    let init_node = NodeIdentity::generate("initiator");
    let resp_node = NodeIdentity::generate("responder");
    let init_addr = PeerAddr::V4 { ip: 0x7f00_0001, port: 9001 };
    let mut responder = listener();
    let hello_x = [9u8; 32];
    responder
        .on_hello(
            init_addr,
            "127.0.0.1:9001",
            init_node.node_id().clone(),
            init_node.public_key().clone(),
            &hello_x,
            vec![0u8; 1184],
            [1u8; 32],
        )
        .expect("challenge");
    let reply = responder.on_challenge_response(&resp_node, init_addr, &[0u8; 64], [2u8; 32], &[3u8; 32]);
    assert!(reply.is_none());
    assert_eq!(responder.pending.len(), 0);
}
