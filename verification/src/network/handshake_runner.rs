//! The decisions of the UDP listener: what each received message does to the
//! node's state and what is sent back. Receiving, sending, locking and
//! saving are the caller's; every handler here takes the message with the
//! address it came from and returns the replies.

use vstd::prelude::*;
use vstd::string::StringSliceAdditionalSpecFns;
use crate::addrmap::AddrMap;
use crate::clock::{now_millis, now_rfc3339};
use crate::hash::{canonical_hash, text_hash};
use crate::limits::{MAX_EPA_ENTRIES, MAX_PEER_STATES, MAX_PENDING_HANDSHAKES};
use crate::network::addr::PeerAddr;
use crate::network::crypto::{derive_hybrid_session_key, hkdf_sha256_32_of, hybrid_ikm, ml_kem_768_decaps_of, ml_kem_768_ek_valid, ml_kem_encapsulate_to, x25519_dh, x25519_shared_of};
use crate::network::identity::{spec_verify_signature, NodeIdentityV};
use crate::network::secure_transport::{chacha20poly1305_open, chacha20poly1305_seal};
use crate::network::epa::SharedEPA;
use crate::network::handshake::{HandshakePhase, PendingHandshake};
use crate::network::identity::{ed25519_signature_of, verify_signature, NodeIdentity};
use crate::network::message::NetworkMessage;
use crate::network::reputation::{NodeReputation, ReputationStore};
use crate::network::secure_transport::{
    aead_open, aead_seal, generate_handshake_nonce, generate_nonce, SecureMessage,
};
use crate::network::session::{spec_check_counter, SessionManager, SessionState};
use crate::network::transport::{trusted_after_add, PeerList, PeerState, TrustedPeer, TrustedPeerList};
use crate::network::verify::{spec_result_of, verify_epa, VerifyResult};
use crate::network::epa::spec_verify_full;
use crate::clock::utc_timestamp_parses;
use crate::text::{push_str, string_from_utf8_lossy, utf8_lossy_of};
use crate::bytes::push_bytes;

verus! {

/// Some message of `out` goes to `p`.
pub open spec fn sent_to(out: Seq<(NetworkMessage, PeerAddr)>, p: PeerAddr) -> bool {
    exists|k: int| 0 <= k < out.len() && (#[trigger] out[k]).1 == p
}

/// `new` is the reputation store `old` with one more failure counted for
/// node `id` (starting from none for an unknown node, and staying put at the
/// largest count), every other node's reputation unchanged.
pub open spec fn failure_counted(old: Map<Seq<char>, NodeReputation>, new: Map<Seq<char>, NodeReputation>, id: Seq<char>) -> bool {
    &&& new.contains_key(id)
    &&& new[id].failures == if !old.contains_key(id) {
        1
    } else if old[id].failures < u32::MAX {
        (old[id].failures + 1) as u32
    } else {
        old[id].failures
    }
    &&& forall|k: Seq<char>| k != id && #[trigger] old.contains_key(k) ==> new.contains_key(k) && new[k] == old[k]
}

/// `new` is the reputation store `old` with one more success counted for
/// node `id` (starting from none for an unknown node, and staying put at the
/// largest count), every other node's reputation unchanged.
pub open spec fn success_counted(old: Map<Seq<char>, NodeReputation>, new: Map<Seq<char>, NodeReputation>, id: Seq<char>) -> bool {
    &&& new.contains_key(id)
    &&& new[id].successes == if !old.contains_key(id) {
        1
    } else if old[id].successes < u32::MAX {
        (old[id].successes + 1) as u32
    } else {
        old[id].successes
    }
    &&& forall|k: Seq<char>| k != id && #[trigger] old.contains_key(k) ==> new.contains_key(k) && new[k] == old[k]
}

/// A package that is not valid counts against its sender: after the
/// verdict the sender's failures are one more than before (one for a node
/// that had no reputation), unless they were already at the largest count,
/// and no other node's reputation moves. A valid package counts for its
/// sender the same way, in its successes.
pub proof fn law_verdict_counts_for_sender(
    old: Map<Seq<char>, NodeReputation>,
    new: Map<Seq<char>, NodeReputation>,
    id: Seq<char>,
    valid: bool,
)
    requires
        valid ==> success_counted(old, new, id),
        !valid ==> failure_counted(old, new, id),
    ensures
        !valid && !old.contains_key(id) ==> new[id].failures == 1,
        !valid && old.contains_key(id) && old[id].failures < u32::MAX ==> new[id].failures == old[id].failures + 1,
        !valid ==> new[id].failures >= 1,
        valid && !old.contains_key(id) ==> new[id].successes == 1,
        valid && old.contains_key(id) && old[id].successes < u32::MAX ==> new[id].successes == old[id].successes + 1,
        forall|k: Seq<char>| k != id && #[trigger] old.contains_key(k) ==> new[k] == old[k],
{
}

/// The state the listener works on.
pub struct ListenerState {
    pub pending: AddrMap<PendingHandshake>,
    pub sessions: SessionManager,
    pub trusted: TrustedPeerList,
    pub peers: PeerList,
    pub peer_states: AddrMap<PeerState>,
    pub reputation: ReputationStore,
    pub epas: Vec<SharedEPA>,
}

/// Whether the listener goes on after a message, or stops (as it does when a
/// key exchange or confirmation finds no usable handshake state).
#[derive(Debug, Clone, Copy, PartialEq, Eq, Structural)]
pub enum ListenerStep {
    Continue,
    Stop,
}

/// Thirty-two zero bytes.
pub open spec fn zeros32() -> Seq<u8> {
    Seq::new(32, |i: int| 0u8)
}

/// Twelve zero bytes: the nonce of the confirmation.
pub open spec fn zeros12() -> Seq<u8> {
    Seq::new(12, |i: int| 0u8)
}

/// The ML-KEM shared secret a ciphertext gives the node, or zeros when
/// decapsulation fails.
pub open spec fn kem_shared(node: NodeIdentityV, ct: Seq<u8>) -> Seq<u8> {
    if node.ml_kem_keypair.spec_seed().len() == 64 && ct.len() == 1088 {
        ml_kem_768_decaps_of(node.ml_kem_keypair.spec_seed(), ct)
    } else {
        zeros32()
    }
}

/// The hybrid session key from an X25519 exchange, an ML-KEM secret and the
/// two nonces.
pub open spec fn session_key_of(secret: Seq<u8>, peer_public: Seq<u8>, kem: Seq<u8>, local: Seq<u8>, remote: Seq<u8>) -> Seq<u8> {
    hkdf_sha256_32_of(
        Some(vstd::utf8::encode_utf8("nexoia-hybrid-session-v1"@)),
        hybrid_ikm(x25519_shared_of(secret, peer_public), kem, local, remote),
        vstd::utf8::encode_utf8("session-key"@),
    )
}

/// The value of an optional 32-byte array, zeros when absent.
pub open spec fn or_zeros(o: Option<[u8; 32]>) -> Seq<u8> {
    match o {
        Some(a) => a@,
        None => zeros32(),
    }
}

/// The text of an optional string, empty when absent.
pub open spec fn or_empty(o: Option<String>) -> Seq<char> {
    match o {
        Some(t) => t@,
        None => Seq::empty(),
    }
}

/// A handshake just completed: the peer is offered to the trusted list
/// (authenticated at some time), and a session with the given key and nonces
/// starts when the list takes it.
pub open spec fn completed(
    old_trusted: Seq<TrustedPeer>,
    capacity: nat,
    old_sessions: Map<PeerAddr, SessionState>,
    new_trusted: Seq<TrustedPeer>,
    new_sessions: Map<PeerAddr, SessionState>,
    addr: PeerAddr,
    h: PendingHandshake,
    key: Seq<u8>,
) -> bool {
    exists|p: TrustedPeer, taken: bool| {
        &&& p.node_id@ == or_empty(h.remote_node_id)
        &&& p.public_key@ == or_empty(h.remote_ed25519_pubkey)
        &&& p.encryption_public_key@ == or_zeros(h.remote_x25519_pubkey)
        &&& p.addr == addr
        &&& #[trigger] trusted_after_add(old_trusted, capacity, p, new_trusted, taken)
        &&& taken ==> new_sessions.contains_key(addr) && {
            let st = new_sessions[addr];
            &&& new_sessions == old_sessions.insert(addr, st)
            &&& st.session_key@ == key
            &&& st.nonce_local == h.local_nonce
            &&& st.nonce_remote@ == or_zeros(h.remote_nonce)
            &&& st.send_counter == 0 && st.recv_counter == 0 && st.window() == crate::network::session::empty_window()
        }
        &&& !taken ==> new_sessions == old_sessions
    }
}

/// What became of an encrypted message.
#[derive(Debug, Clone)]
pub enum SecureOutcome {
    /// No session with the sender.
    NoSession,
    /// The message did not open under the session key (the reason).
    DecryptFailed(String),
    /// The counter was seen before or is too old.
    Replay(u64),
    /// The counter and the payload (serialized inner message).
    Payload(u64, Vec<u8>),
}

/// What became of a received package.
#[derive(Debug, Clone)]
pub enum EpaOutcome {
    /// The sender is not an authenticated peer.
    Untrusted,
    /// The encrypted payload did not open; a failure was recorded.
    DecryptFailed,
    /// The package is to be verified (`verify_and_store_epa`).
    Verify(SharedEPA),
}

/// `k` is a tracked peer seen least recently.
pub open spec fn least_recently_seen(m: Map<PeerAddr, PeerState>, k: PeerAddr) -> bool {
    m.contains_key(k) && forall|j: PeerAddr| #[trigger] m.contains_key(j) ==> m[k].last_seen <= m[j].last_seen
}

/// The challenge text of a hello: `node_id:timestamp:address`.
pub open spec fn challenge_text(node_id: Seq<char>, timestamp: Seq<char>, addr_text: Seq<char>) -> Seq<char> {
    node_id + ":"@ + timestamp + ":"@ + addr_text
}

/// The text a challenge's response signs: `challenge_hash:timestamp`.
pub open spec fn challenge_input(challenge_hash: Seq<char>, timestamp: Seq<char>) -> Seq<char> {
    challenge_hash + ":"@ + timestamp
}

/// The signature on a challenge response holds against the recorded
/// challenge and the peer's key, and the peer's ephemeral key has 32 bytes:
/// the responder then records that key and the peer's nonce.
pub open spec fn response_keys_taken(h: PendingHandshake, signature: Seq<u8>, x25519_pubkey: Seq<u8>) -> bool {
    &&& spec_verify_signature(
        vstd::utf8::encode_utf8(h.remote_ed25519_pubkey->0@),
        vstd::utf8::encode_utf8(challenge_input(h.challenge_hash->0@, h.challenge_timestamp->0@)),
        signature,
    ) == Ok::<bool, crate::network::identity::SignatureCheckError>(true)
    &&& x25519_pubkey.len() == 32
}

/// Why a challenge response is refused, if it is: a bad signature, a key of
/// the wrong length, no ML-KEM key of the peer, an ML-KEM key the crate does
/// not accept, or no local ephemeral secret.
pub open spec fn response_refusal(h: PendingHandshake, signature: Seq<u8>, x25519_pubkey: Seq<u8>) -> Option<Seq<char>> {
    if spec_verify_signature(
        vstd::utf8::encode_utf8(h.remote_ed25519_pubkey->0@),
        vstd::utf8::encode_utf8(challenge_input(h.challenge_hash->0@, h.challenge_timestamp->0@)),
        signature,
    ) != Ok::<bool, crate::network::identity::SignatureCheckError>(true) {
        Some("Invalid Ed25519 signature"@)
    } else if x25519_pubkey.len() != 32 {
        Some("Invalid x25519 pubkey length"@)
    } else if h.remote_ml_kem_ek is None {
        Some("No ML-KEM ek"@)
    } else if !ml_kem_768_ek_valid(h.remote_ml_kem_ek->0@) {
        Some("ML-KEM encapsulation failed: invalid encapsulation key"@)
    } else if h.ephemeral_secret is None {
        Some("Missing local ephemeral secret"@)
    } else {
        None
    }
}

/// Phase 4 at the responder: `h1` is the handshake `h` after an accepted
/// challenge response (the peer's ephemeral key `x25519_pubkey` and nonce
/// recorded, a fresh ML-KEM ciphertext to the peer's key kept, the local
/// ephemeral secret spent on the session key, which mixes the X25519 secret
/// with the encapsulated ML-KEM key and both nonces), and `m` is the key
/// exchange sent back: the ciphertext, the local ephemeral public key and the
/// node's signature of ciphertext, ephemeral key and both nonces.
pub open spec fn response_sent(
    node: NodeIdentityV,
    h: PendingHandshake,
    x25519_pubkey: Seq<u8>,
    nonce: [u8; 32],
    h1: PendingHandshake,
    m: NetworkMessage,
) -> bool {
    &&& m matches NetworkMessage::SessionKeyExchange { ml_kem_ciphertext, x25519_pubkey: eph, signature }
    &&& ml_kem_ciphertext@.len() == 1088
    &&& eph@ == or_zeros(h.ephemeral_public)
    &&& signature@ == ed25519_signature_of(node.signing_key, vstd::utf8::encode_utf8(utf8_lossy_of(
        ml_kem_ciphertext@ + or_zeros(h.ephemeral_public) + h.local_nonce@ + nonce@)))
    &&& (h1.ml_kem_ciphertext matches Some(c) && c@ == ml_kem_ciphertext@)
    &&& (h1.remote_x25519_pubkey matches Some(k) && k@ == x25519_pubkey)
    &&& (h1.session_key matches Some(k) && exists|kem: Seq<u8>| kem.len() == 32
        && k@ == #[trigger] session_key_of(h.ephemeral_secret->0@, x25519_pubkey, kem, h.local_nonce@, nonce@))
    &&& h1 == (PendingHandshake {
        phase: HandshakePhase::ResponseReceived,
        remote_x25519_pubkey: h1.remote_x25519_pubkey,
        remote_nonce: Some(nonce),
        ml_kem_ciphertext: h1.ml_kem_ciphertext,
        ephemeral_secret: None,
        session_key: h1.session_key,
        ..h
    })
}

/// The responder's handshake after a hello: the peer's keys and nonce
/// recorded, the challenge made from the node id, `timestamp` and address,
/// and the challenge sent.
pub open spec fn after_hello(
    h: PendingHandshake,
    addr: PeerAddr,
    addr_text: Seq<char>,
    node_id: Seq<char>,
    ed25519_pubkey: Seq<char>,
    x25519_pubkey: Seq<u8>,
    ml_kem_ek: Seq<u8>,
    nonce: [u8; 32],
    timestamp: Seq<char>,
) -> bool {
    &&& h.phase == HandshakePhase::ChallengeSent
    &&& h.remote_addr == addr
    &&& (h.remote_node_id matches Some(n) && n@ == node_id)
    &&& (h.remote_ed25519_pubkey matches Some(k) && k@ == ed25519_pubkey)
    &&& (h.remote_x25519_pubkey matches Some(k) && k@ == x25519_pubkey)
    &&& (h.remote_ml_kem_ek matches Some(k) && k@ == ml_kem_ek)
    &&& h.remote_nonce == Some(nonce)
    &&& (h.challenge_hash matches Some(c) && c@ == text_hash(challenge_text(node_id, timestamp, addr_text)))
    &&& (h.challenge_timestamp matches Some(t) && t@ == timestamp)
    &&& h.ephemeral_secret is Some
    &&& h.ephemeral_public is Some
    &&& h.session_key is None
    &&& h.ml_kem_ciphertext is None
}

fn array32_from(v: &[u8]) -> (a: [u8; 32])
    requires
        v@.len() == 32,
    ensures
        a@ == v@,
{
    let mut a = [0u8; 32];
    let mut i: usize = 0;
    while i < 32
        invariant
            i <= 32,
            v@.len() == 32,
            forall|k: int| 0 <= k < i ==> a@[k] == v@[k],
        decreases 32 - i,
    {
        a[i] = v[i];
        i += 1;
    }
    assert(a@ =~= v@);
    a
}

fn zero32() -> (a: [u8; 32])
    ensures
        a@ == zeros32(),
{
    let mut a = [0u8; 32];
    let mut i: usize = 0;
    while i < 32
        invariant
            i <= 32,
            forall|k: int| 0 <= k < i ==> a@[k] == 0,
        decreases 32 - i,
    {
        a[i] = 0;
        i += 1;
    }
    assert(a@ =~= zeros32());
    a
}

fn copy_vec(v: &[u8]) -> (r: Vec<u8>)
    ensures
        r@ == v@,
{
    let mut r: Vec<u8> = Vec::new();
    push_bytes(&mut r, v);
    r
}

impl ListenerState {
    /// Phase 1 at the responder: a hello from `addr` (written `addr_text`)
    /// starts a handshake that records the peer's keys and sends a challenge
    /// over the node id, the current time and the address. When as many
    /// handshakes as allowed are under way, the hello is dropped.
    pub fn on_hello(
        &mut self,
        addr: PeerAddr,
        addr_text: &str,
        node_id: String,
        ed25519_pubkey: String,
        x25519_pubkey: &[u8],
        ml_kem_ek: Vec<u8>,
        nonce: [u8; 32],
    ) -> (reply: Option<NetworkMessage>)
        requires
            x25519_pubkey@.len() == 32,
        ensures
            old(self).pending@.len() >= MAX_PENDING_HANDSHAKES ==> reply is None && final(self).pending@ == old(self).pending@,
            old(self).pending@.len() < MAX_PENDING_HANDSHAKES ==> {
                &&& final(self).pending@.dom() == old(self).pending@.dom().insert(addr)
                &&& forall|a: PeerAddr| a != addr && #[trigger] old(self).pending@.contains_key(a) ==> final(self).pending@[a] == old(self).pending@[a]
                &&& reply matches Some(NetworkMessage::Challenge { challenge_hash, timestamp })
                &&& after_hello(final(self).pending@[addr], addr, addr_text@, node_id@, ed25519_pubkey@, x25519_pubkey@, ml_kem_ek@, nonce, timestamp@)
                &&& final(self).pending@[addr].challenge_hash matches Some(c) && c@ == challenge_hash@
            },
            final(self).sessions@ == old(self).sessions@,
            final(self).trusted@ == old(self).trusted@,
            final(self).peers@ == old(self).peers@,
            final(self).peer_states@ == old(self).peer_states@,
            final(self).reputation@ == old(self).reputation@,
            final(self).epas@ == old(self).epas@,
    {
        let local_nonce = generate_handshake_nonce();
        let mut hs = PendingHandshake::new_responder(addr, local_nonce);
        let key_arr = array32_from(x25519_pubkey);
        let timestamp = now_rfc3339();
        let mut input = String::new();
        push_str(&mut input, node_id.as_str());
        push_str(&mut input, ":");
        push_str(&mut input, timestamp.as_str());
        push_str(&mut input, ":");
        push_str(&mut input, addr_text);
        proof { reveal_strlit(":"); }
        let challenge_hash = canonical_hash(input.as_str());
        hs.remote_node_id = Some(node_id);
        hs.remote_ed25519_pubkey = Some(ed25519_pubkey);
        hs.remote_x25519_pubkey = Some(key_arr);
        hs.remote_nonce = Some(nonce);
        hs.remote_ml_kem_ek = Some(ml_kem_ek);
        hs.challenge_hash = Some(challenge_hash.clone());
        hs.challenge_timestamp = Some(timestamp.clone());
        hs.phase = HandshakePhase::ChallengeSent;
        if self.pending.len() >= MAX_PENDING_HANDSHAKES {
            return None;
        }
        self.pending.insert(addr, hs);
        Some(NetworkMessage::Challenge { challenge_hash, timestamp })
    }

    /// Begins a handshake with a bootstrap peer: a fresh local nonce and
    /// ephemeral secret, the peer's nonce recorded as the one sent in the
    /// hello; the hello carries the node's identity, the ephemeral public key
    /// and the node's ML-KEM encapsulation key. When as many handshakes as
    /// allowed are under way, nothing happens.
    pub fn bootstrap_peer(&mut self, node: &NodeIdentity, addr: PeerAddr) -> (hello: Option<NetworkMessage>)
        ensures
            old(self).pending@.len() >= MAX_PENDING_HANDSHAKES ==> hello is None && final(self).pending@ == old(self).pending@,
            old(self).pending@.len() < MAX_PENDING_HANDSHAKES ==> {
                &&& final(self).pending@.dom() == old(self).pending@.dom().insert(addr)
                &&& forall|a: PeerAddr| a != addr && #[trigger] old(self).pending@.contains_key(a) ==> final(self).pending@[a] == old(self).pending@[a]
                &&& hello matches Some(NetworkMessage::Hello { node_id, ed25519_pubkey, x25519_pubkey, ml_kem_ek, nonce })
                &&& node_id@ == node@.node_id
                &&& ed25519_pubkey@ == node@.public_key
                &&& ml_kem_ek@ == node@.ml_kem_keypair.spec_ek()
                &&& final(self).pending@[addr].phase == HandshakePhase::HelloReceived
                &&& final(self).pending@[addr].remote_addr == addr
                &&& final(self).pending@[addr].remote_nonce == Some(nonce)
                &&& (final(self).pending@[addr].ephemeral_public matches Some(p) && p@ == x25519_pubkey@)
            },
            final(self).sessions@ == old(self).sessions@,
            final(self).trusted@ == old(self).trusted@,
            final(self).peers@ == old(self).peers@,
            final(self).peer_states@ == old(self).peer_states@,
            final(self).reputation@ == old(self).reputation@,
            final(self).epas@ == old(self).epas@,
    {
        let nonce = generate_handshake_nonce();
        let secret = generate_handshake_nonce();
        let local_nonce = generate_handshake_nonce();
        let mut hs = PendingHandshake::new_initiator(addr, local_nonce, secret);
        hs.remote_nonce = Some(nonce);
        if self.pending.len() >= MAX_PENDING_HANDSHAKES {
            return None;
        }
        let public = match hs.ephemeral_public {
            Some(p) => p,
            None => [0u8; 32],
        };
        let mut x25519_pubkey: Vec<u8> = Vec::new();
        push_bytes(&mut x25519_pubkey, public.as_slice());
        let mut ml_kem_ek: Vec<u8> = Vec::new();
        push_bytes(&mut ml_kem_ek, node.ml_kem_keypair().encapsulation_key_bytes());
        self.pending.insert(addr, hs);
        Some(NetworkMessage::Hello {
            node_id: node.node_id().clone(),
            ed25519_pubkey: node.public_key().clone(),
            x25519_pubkey,
            ml_kem_ek,
            nonce,
        })
    }

    /// Phase 2 at the initiator: a challenge from a peer with a handshake
    /// under way is answered with the Ed25519 signature of
    /// `challenge_hash:timestamp`, the local nonce and the local ephemeral
    /// public key (the node's X25519 key when there is none). Without a
    /// handshake nothing happens.
    pub fn on_challenge(&mut self, node: &NodeIdentity, addr: PeerAddr, challenge_hash: &str, timestamp: &str) -> (reply: Option<NetworkMessage>)
        ensures
            !old(self).pending@.contains_key(addr) ==> reply is None && final(self).pending@ == old(self).pending@,
            old(self).pending@.contains_key(addr) ==> {
                let h0 = old(self).pending@[addr];
                &&& final(self).pending@ == old(self).pending@.insert(addr, PendingHandshake { phase: HandshakePhase::ChallengeSent, ..h0 })
                &&& reply matches Some(NetworkMessage::ChallengeResponse { ed25519_signature, nonce, x25519_pubkey })
                &&& ed25519_signature@ == ed25519_signature_of(node@.signing_key, vstd::utf8::encode_utf8(challenge_input(challenge_hash@, timestamp@)))
                &&& nonce == h0.local_nonce
                &&& x25519_pubkey@ == match h0.ephemeral_public {
                    Some(p) => p@,
                    None => node@.encryption_keypair.spec_public(),
                }
            },
            final(self).sessions@ == old(self).sessions@,
            final(self).trusted@ == old(self).trusted@,
            final(self).peers@ == old(self).peers@,
            final(self).peer_states@ == old(self).peer_states@,
            final(self).reputation@ == old(self).reputation@,
            final(self).epas@ == old(self).epas@,
    {
        let mut hs = match self.pending.remove(&addr) {
            Some(h) => h,
            None => return None,
        };
        let mut input = String::new();
        push_str(&mut input, challenge_hash);
        push_str(&mut input, ":");
        push_str(&mut input, timestamp);
        proof { reveal_strlit(":"); }
        let signature = node.sign(input.as_str());
        let ephemeral_pub = match hs.ephemeral_public {
            Some(ep) => ep,
            None => node.encryption_keypair().public_bytes(),
        };
        let response = NetworkMessage::ChallengeResponse {
            ed25519_signature: signature,
            nonce: hs.local_nonce,
            x25519_pubkey: copy_vec(ephemeral_pub.as_slice()),
        };
        hs.phase = HandshakePhase::ChallengeSent;
        let ghost h1 = hs;
        self.pending.insert(addr, hs);
        proof {
            assert(self.pending@ =~= old(self).pending@.insert(addr, h1));
        }
        Some(response)
    }

    /// Phase 3 at the responder: a challenge response is checked against the
    /// recorded challenge and the peer's Ed25519 key, and the peer's
    /// ephemeral key must have 32 bytes; a fresh ML-KEM secret is then
    /// encapsulated to the peer's encapsulation key, the session key derived
    /// and the key exchange of phase 4 sent back (see `response_sent`). A
    /// refused response (see `response_refusal`) ends the handshake: its
    /// state is dropped and nothing is sent. Without a handshake nothing
    /// happens.
    pub fn on_challenge_response(
        &mut self,
        node: &NodeIdentity,
        addr: PeerAddr,
        ed25519_signature: &[u8],
        nonce: [u8; 32],
        x25519_pubkey: &[u8],
    ) -> (reply: Option<NetworkMessage>)
        requires
            old(self).pending@.contains_key(addr) ==> {
                let h = old(self).pending@[addr];
                h.remote_ed25519_pubkey is Some && h.challenge_hash is Some && h.challenge_timestamp is Some
            },
        ensures
            !old(self).pending@.contains_key(addr) ==> reply is None && final(self).pending@ == old(self).pending@,
            old(self).pending@.contains_key(addr) ==> {
                let h0 = old(self).pending@[addr];
                match response_refusal(h0, ed25519_signature@, x25519_pubkey@) {
                    Some(_) => reply is None && final(self).pending@ == old(self).pending@.remove(addr),
                    None => reply matches Some(m) && final(self).pending@.contains_key(addr)
                        && final(self).pending@ == old(self).pending@.insert(addr, final(self).pending@[addr])
                        && response_sent(node@, h0, x25519_pubkey@, nonce, final(self).pending@[addr], m),
                }
            },
            final(self).sessions@ == old(self).sessions@,
            final(self).trusted@ == old(self).trusted@,
            final(self).peers@ == old(self).peers@,
            final(self).peer_states@ == old(self).peer_states@,
            final(self).reputation@ == old(self).reputation@,
            final(self).epas@ == old(self).epas@,
    {
        let mut hs = match self.pending.remove(&addr) {
            Some(h) => h,
            None => {
                proof { assert(old(self).pending@.remove(addr) =~= old(self).pending@); }
                return None;
            },
        };
        let result = self.respond_to_challenge(node, &mut hs, ed25519_signature, nonce, x25519_pubkey);
        match result {
            Ok(exchange) => {
                let ghost h1 = hs;
                self.pending.insert(addr, hs);
                proof {
                    assert(self.pending@ =~= old(self).pending@.insert(addr, h1));
                }
                Some(exchange)
            },
            Err(_) => None,
        }
    }

    fn respond_to_challenge(
        &self,
        node: &NodeIdentity,
        hs: &mut PendingHandshake,
        ed25519_signature: &[u8],
        nonce: [u8; 32],
        x25519_pubkey: &[u8],
    ) -> (r: Result<NetworkMessage, String>)
        requires
            old(hs).remote_ed25519_pubkey is Some,
            old(hs).challenge_hash is Some,
            old(hs).challenge_timestamp is Some,
        ensures
            match response_refusal(*old(hs), ed25519_signature@, x25519_pubkey@) {
                Some(m) => r matches Err(e) && e@ == m,
                None => r matches Ok(msg) && response_sent(node@, *old(hs), x25519_pubkey@, nonce, *final(hs), msg),
            },
            !response_keys_taken(*old(hs), ed25519_signature@, x25519_pubkey@) ==> *final(hs) == *old(hs),
    {
        let ghost h0 = *hs;
        let pubkey_hex = match &hs.remote_ed25519_pubkey {
            Some(k) => k,
            None => return Err(crate::text::to_string("missing public key")),
        };
        let mut input = String::new();
        match &hs.challenge_hash {
            Some(c) => push_str(&mut input, c.as_str()),
            None => {},
        }
        push_str(&mut input, ":");
        match &hs.challenge_timestamp {
            Some(t) => push_str(&mut input, t.as_str()),
            None => {},
        }
        let valid = match verify_signature(pubkey_hex.as_str(), input.as_str().as_bytes(), ed25519_signature) {
            Ok(b) => b,
            Err(_) => false,
        };
        if !valid {
            return Err(crate::text::to_string("Invalid Ed25519 signature"));
        }
        if x25519_pubkey.len() != 32 {
            return Err(crate::text::to_string("Invalid x25519 pubkey length"));
        }
        let key_arr = array32_from(x25519_pubkey);
        hs.remote_x25519_pubkey = Some(key_arr);
        hs.remote_nonce = Some(nonce);
        let (ct, ml_kem_shared) = match &hs.remote_ml_kem_ek {
            Some(ek) => match ml_kem_encapsulate_to(ek.as_slice()) {
                Some(p) => p,
                None => return Err(crate::text::to_string("ML-KEM encapsulation failed: invalid encapsulation key")),
            },
            None => return Err(crate::text::to_string("No ML-KEM ek")),
        };
        let ct_out = copy_vec(ct.as_slice());
        hs.ml_kem_ciphertext = Some(ct);
        let ephemeral_secret = match hs.ephemeral_secret {
            Some(s) => s,
            None => return Err(crate::text::to_string("Missing local ephemeral secret")),
        };
        hs.ephemeral_secret = None;
        let x25519_shared = x25519_dh(&ephemeral_secret, &key_arr);
        let session_key = derive_hybrid_session_key(&x25519_shared, &ml_kem_shared, &hs.local_nonce, &nonce);
        hs.session_key = Some(session_key);
        let eph_pub: [u8; 32] = match hs.ephemeral_public {
            Some(p) => p,
            None => zero32(),
        };
        let mut sign_input: Vec<u8> = Vec::new();
        push_bytes(&mut sign_input, ct_out.as_slice());
        push_bytes(&mut sign_input, eph_pub.as_slice());
        push_bytes(&mut sign_input, hs.local_nonce.as_slice());
        push_bytes(&mut sign_input, nonce.as_slice());
        let text = string_from_utf8_lossy(sign_input.as_slice());
        let signature = node.sign(text.as_str());
        hs.phase = HandshakePhase::ResponseReceived;
        let msg = NetworkMessage::SessionKeyExchange {
            ml_kem_ciphertext: ct_out,
            x25519_pubkey: copy_vec(eph_pub.as_slice()),
            signature,
        };
        proof {
            assert(session_key@ == session_key_of(ephemeral_secret@, x25519_pubkey@, ml_kem_shared@, h0.local_nonce@, nonce@));
            assert(eph_pub@ == or_zeros(h0.ephemeral_public));
        }
        Ok(msg)
    }

    fn admit_peer(&mut self, addr: PeerAddr, h: &PendingHandshake, session_key: [u8; 32])
        ensures
            completed(old(self).trusted@, old(self).trusted.capacity(), old(self).sessions@, final(self).trusted@, final(self).sessions@, addr, *h, session_key@),
            final(self).trusted.capacity() == old(self).trusted.capacity(),
            final(self).pending@ == old(self).pending@,
            final(self).peers@ == old(self).peers@,
            final(self).peer_states@ == old(self).peer_states@,
            final(self).reputation@ == old(self).reputation@,
            final(self).epas@ == old(self).epas@,
    {
        let node_id = match &h.remote_node_id {
            Some(n) => n.clone(),
            None => String::new(),
        };
        let public_key = match &h.remote_ed25519_pubkey {
            Some(k) => k.clone(),
            None => String::new(),
        };
        let peer_x25519: [u8; 32] = match h.remote_x25519_pubkey {
            Some(k) => k,
            None => zero32(),
        };
        let remote_nonce: [u8; 32] = match h.remote_nonce {
            Some(n) => n,
            None => zero32(),
        };
        let peer = TrustedPeer {
            node_id,
            public_key,
            encryption_public_key: peer_x25519,
            addr,
            authenticated_at: now_millis(),
        };
        let ghost p = peer;
        let taken = self.trusted.add(peer);
        if taken {
            let session = SessionState::new(session_key, h.local_nonce, remote_nonce);
            self.sessions.insert(addr, session);
        }
        assert(trusted_after_add(old(self).trusted@, old(self).trusted.capacity(), p, self.trusted@, taken));
    }

    /// Phase 4 at the initiator: the responder's ML-KEM ciphertext is
    /// decapsulated (zeros when that fails), its ephemeral key (32 bytes)
    /// meets the local ephemeral secret, and the hybrid session key is
    /// derived. `OK` sealed under it is sent back, the handshake is marked
    /// complete, and the peer is admitted (see `completed`). Without a
    /// handshake, with a key of another length, or without a local secret,
    /// the listener stops.
    pub fn on_session_key_exchange(
        &mut self,
        node: &NodeIdentity,
        addr: PeerAddr,
        ml_kem_ciphertext: &[u8],
        responder_public: &[u8],
    ) -> (r: (ListenerStep, Option<NetworkMessage>))
        ensures
            ({
                let stops = !old(self).pending@.contains_key(addr) || responder_public@.len() != 32
                    || old(self).pending@[addr].ephemeral_secret is None;
                &&& stops ==> r.0 == ListenerStep::Stop && r.1 is None && *final(self) == *old(self)
                &&& !stops ==> {
                    let h0 = old(self).pending@[addr];
                    let key = session_key_of(h0.ephemeral_secret->0@, responder_public@,
                        kem_shared(node@, ml_kem_ciphertext@), h0.local_nonce@, or_zeros(h0.remote_nonce));
                    &&& r.0 == ListenerStep::Continue
                    &&& r.1 matches Some(NetworkMessage::SessionKeyConfirm { encrypted_ok })
                    &&& encrypted_ok@ == match chacha20poly1305_seal(key, zeros12(), vstd::utf8::encode_utf8("OK"@)) {
                        Some(c) => c,
                        None => Seq::empty(),
                    }
                    &&& final(self).pending@ == old(self).pending@.insert(addr,
                        PendingHandshake { phase: HandshakePhase::Complete, ephemeral_secret: None, ..h0 })
                    &&& completed(old(self).trusted@, old(self).trusted.capacity(), old(self).sessions@, final(self).trusted@, final(self).sessions@, addr, h0, key)
                    &&& final(self).peers@ == old(self).peers@
                    &&& final(self).peer_states@ == old(self).peer_states@
                    &&& final(self).reputation@ == old(self).reputation@
                    &&& final(self).epas@ == old(self).epas@
                }
            }),
    {
        let hs0 = match self.pending.get(&addr) {
            Some(h) => h,
            None => return (ListenerStep::Stop, None),
        };
        let ml_kem_shared = node.ml_kem_keypair().decapsulate(ml_kem_ciphertext);
        if responder_public.len() != 32 {
            return (ListenerStep::Stop, None);
        }
        let responder_arr = array32_from(responder_public);
        let secret = match hs0.ephemeral_secret {
            Some(s) => s,
            None => return (ListenerStep::Stop, None),
        };
        let mut hs = match self.pending.remove(&addr) {
            Some(h) => h,
            None => return (ListenerStep::Stop, None),
        };
        let ghost h0 = hs;
        let x25519_shared = x25519_dh(&secret, &responder_arr);
        let kem: [u8; 32] = match ml_kem_shared {
            Ok(k) => k,
            Err(_) => zero32(),
        };
        let remote_nonce: [u8; 32] = match hs.remote_nonce {
            Some(n) => n,
            None => zero32(),
        };
        let session_key = derive_hybrid_session_key(&x25519_shared, &kem, &hs.local_nonce, &remote_nonce);
        let zero_nonce = [0u8; 12];
        proof {
            assert(zero_nonce@ =~= zeros12());
            reveal_strlit("OK");
        }
        let encrypted_ok = match aead_seal(&session_key, &zero_nonce, "OK".as_bytes()) {
            Ok(c) => c,
            Err(_) => Vec::new(),
        };
        self.admit_peer(addr, &hs, session_key);
        hs.ephemeral_secret = None;
        hs.phase = HandshakePhase::Complete;
        let ghost h1 = hs;
        self.pending.insert(addr, hs);
        proof {
            assert(self.pending@ =~= old(self).pending@.insert(addr, h1));
        }
        (ListenerStep::Continue, Some(NetworkMessage::SessionKeyConfirm { encrypted_ok }))
    }

    /// Phase 5 at the responder: the confirmation must open, under the
    /// session key of the handshake and a zero nonce, to `OK`; then the
    /// handshake state is dropped and the peer admitted (see `completed`).
    /// A confirmation that does not open to `OK` only drops the state.
    /// Without a handshake or without a session key the listener stops.
    pub fn on_session_key_confirm(&mut self, addr: PeerAddr, encrypted_ok: &[u8]) -> (step: ListenerStep)
        ensures
            !old(self).pending@.contains_key(addr) || old(self).pending@[addr].session_key is None
                ==> step == ListenerStep::Stop && *final(self) == *old(self),
            old(self).pending@.contains_key(addr) && old(self).pending@[addr].session_key is Some ==> {
                let h0 = old(self).pending@[addr];
                let key = h0.session_key->0@;
                let opened = chacha20poly1305_open(key, zeros12(), encrypted_ok@);
                &&& step == ListenerStep::Continue
                &&& final(self).pending@ == old(self).pending@.remove(addr)
                &&& final(self).peers@ == old(self).peers@
                &&& final(self).peer_states@ == old(self).peer_states@
                &&& final(self).reputation@ == old(self).reputation@
                &&& final(self).epas@ == old(self).epas@
                &&& opened == Some(vstd::utf8::encode_utf8("OK"@)) ==> completed(old(self).trusted@, old(self).trusted.capacity(), old(self).sessions@, final(self).trusted@, final(self).sessions@, addr, h0, key)
                &&& opened != Some(vstd::utf8::encode_utf8("OK"@)) ==> final(self).trusted@ == old(self).trusted@
                    && final(self).sessions@ == old(self).sessions@
            },
    {
        let key = match self.pending.get(&addr) {
            Some(h) => match h.session_key {
                Some(k) => k,
                None => return ListenerStep::Stop,
            },
            None => return ListenerStep::Stop,
        };
        let mut hs = match self.pending.remove(&addr) {
            Some(h) => h,
            None => return ListenerStep::Stop,
        };
        let zero_nonce = [0u8; 12];
        proof {
            assert(zero_nonce@ =~= zeros12());
            reveal_strlit("OK");
        }
        let ok = match aead_open(&key, &zero_nonce, encrypted_ok) {
            Ok(m) => crate::bytes::bytes_eq(m.as_slice(), "OK".as_bytes()),
            Err(_) => false,
        };
        if ok {
            self.admit_peer(addr, &hs, key);
            hs.phase = HandshakePhase::Complete;
        } else {
            hs.phase = HandshakePhase::Failed(crate::text::to_string("Key verification failed"));
        }
        ListenerStep::Continue
    }

    /// An encrypted message: opened under the session with the sender, its
    /// counter checked against replay (and recorded), and its payload handed
    /// back.
    pub fn on_secure_message(&mut self, addr: PeerAddr, msg: &SecureMessage) -> (r: SecureOutcome)
        ensures
            !old(self).sessions@.contains_key(addr) ==> r is NoSession && *final(self) == *old(self),
            r matches SecureOutcome::DecryptFailed(_) ==> *final(self) == *old(self),
            r matches SecureOutcome::Payload(c, p) ==> old(self).sessions@.contains_key(addr)
                && chacha20poly1305_open(old(self).sessions@[addr].session_key@, msg.nonce@, msg.encrypted_payload@)
                    == Some(crate::bytes::u64_be(c) + p@)
                && spec_check_counter(old(self).sessions@[addr].recv_counter, old(self).sessions@[addr].window(), c).0,
            r matches SecureOutcome::Replay(c) ==> old(self).sessions@.contains_key(addr)
                && (exists|p: Seq<u8>| chacha20poly1305_open(old(self).sessions@[addr].session_key@, msg.nonce@, msg.encrypted_payload@)
                    == Some(crate::bytes::u64_be(c) + p))
                && !spec_check_counter(old(self).sessions@[addr].recv_counter, old(self).sessions@[addr].window(), c).0,
            old(self).sessions@.contains_key(addr) ==> {
                let s0 = old(self).sessions@[addr];
                let opened = chacha20poly1305_open(s0.session_key@, msg.nonce@, msg.encrypted_payload@);
                &&& r !is NoSession
                &&& (r is DecryptFailed <==> (opened is None || opened->0.len() < 8))
                &&& (r matches SecureOutcome::DecryptFailed(e) ==> e@ == (if opened is None {
                        "Decryption error: aead::Error"@
                    } else {
                        "Plaintext too short"@
                    }))
                &&& forall|k: PeerAddr| k != addr && #[trigger] old(self).sessions@.contains_key(k)
                    ==> final(self).sessions@[k] == old(self).sessions@[k]
                &&& (r matches SecureOutcome::Payload(c, _) ==> {
                    let (_, recv, window) = spec_check_counter(s0.recv_counter, s0.window(), c);
                    crate::network::session::counter_checked(s0, final(self).sessions@[addr], recv, window)
                })
                &&& (r matches SecureOutcome::Replay(c) ==> {
                    let (_, recv, window) = spec_check_counter(s0.recv_counter, s0.window(), c);
                    crate::network::session::counter_checked(s0, final(self).sessions@[addr], recv, window)
                })
            },
            final(self).pending@ == old(self).pending@,
            final(self).trusted@ == old(self).trusted@,
            final(self).peers@ == old(self).peers@,
            final(self).peer_states@ == old(self).peer_states@,
            final(self).reputation@ == old(self).reputation@,
            final(self).epas@ == old(self).epas@,
            final(self).sessions@.dom() == old(self).sessions@.dom(),
    {
        let session = match self.sessions.get(&addr) {
            Some(s) => s,
            None => return SecureOutcome::NoSession,
        };
        match msg.decrypt(&session.session_key) {
            Ok((counter, payload)) => {
                let ghost opened = chacha20poly1305_open(session.session_key@, msg.nonce@, msg.encrypted_payload@);
                if !self.sessions.check_counter(&addr, counter) {
                    proof {
                        assert(opened == Some(crate::bytes::u64_be(counter) + payload@));
                    }
                    return SecureOutcome::Replay(counter);
                }
                SecureOutcome::Payload(counter, payload)
            },
            Err(e) => SecureOutcome::DecryptFailed(e),
        }
    }

    /// A peer announced itself at an address (`None`: the address did not
    /// parse). A new address joins the peer list and is answered with a pong
    /// carrying the node id; the caller then saves the network state.
    pub fn on_discover(&mut self, node: &NodeIdentity, address: Option<PeerAddr>) -> (reply: Option<(NetworkMessage, PeerAddr)>)
        ensures
            address is None ==> reply is None && final(self).peers@ == old(self).peers@,
            address matches Some(a) ==> {
                &&& final(self).peers@ == crate::network::transport::peers_after_add(old(self).peers@, old(self).peers.capacity(), a)
                &&& (reply is Some <==> !old(self).peers@.contains(a) && (old(self).peers@.len() < old(self).peers.capacity() || old(self).peers@.len() > 0))
                &&& reply matches Some((NetworkMessage::Pong { node_id }, to)) ==> node_id@ == node@.node_id && to == a
            },
            final(self).pending@ == old(self).pending@,
            final(self).sessions@ == old(self).sessions@,
            final(self).trusted@ == old(self).trusted@,
            final(self).peer_states@ == old(self).peer_states@,
            final(self).reputation@ == old(self).reputation@,
            final(self).epas@ == old(self).epas@,
    {
        match address {
            Some(a) => {
                if self.peers.add(a) {
                    Some((NetworkMessage::Pong { node_id: node.node_id().clone() }, a))
                } else {
                    None
                }
            },
            None => None,
        }
    }

    /// A ping is answered with a pong carrying the node id.
    pub fn on_ping(&self, node: &NodeIdentity) -> (reply: NetworkMessage)
        ensures
            reply matches NetworkMessage::Pong { node_id } && node_id@ == node@.node_id,
    {
        NetworkMessage::Pong { node_id: node.node_id().clone() }
    }

    /// Records a heartbeat from `addr` in its tracked state, tracking it anew
    /// (after the peer seen least recently left a full table) when it had
    /// none.
    fn track_heartbeat(&mut self, addr: PeerAddr)
        ensures
            final(self).peer_states@.contains_key(addr),
            final(self).peer_states@[addr].consecutive_misses == 0,
            old(self).peer_states@.contains_key(addr) ==> final(self).peer_states@.dom() == old(self).peer_states@.dom(),
            !old(self).peer_states@.contains_key(addr) && old(self).peer_states@.len() < MAX_PEER_STATES
                ==> final(self).peer_states@.dom() == old(self).peer_states@.dom().insert(addr),
            !old(self).peer_states@.contains_key(addr) && old(self).peer_states@.len() >= MAX_PEER_STATES
                ==> exists|k: PeerAddr| least_recently_seen(old(self).peer_states@, k)
                    && final(self).peer_states@.dom() == old(self).peer_states@.dom().remove(k).insert(addr),
            forall|a: PeerAddr| a != addr && #[trigger] final(self).peer_states@.contains_key(a)
                ==> final(self).peer_states@[a] == old(self).peer_states@[a],
            final(self).pending@ == old(self).pending@,
            final(self).sessions@ == old(self).sessions@,
            final(self).trusted@ == old(self).trusted@,
            final(self).peers@ == old(self).peers@,
            final(self).reputation@ == old(self).reputation@,
            final(self).epas@ == old(self).epas@,
    {
        match self.peer_states.remove(&addr) {
            Some(st) => {
                let mut st = st;
                st.record_heartbeat();
                self.peer_states.insert(addr, st);
                proof {
                    assert(self.peer_states@.dom() =~= old(self).peer_states@.dom());
                }
            },
            None => {
                let n = self.peer_states.len();
                let ghost mut evicted: Option<PeerAddr> = None;
                if n >= MAX_PEER_STATES {
                    let (k0, s0) = self.peer_states.entry(0);
                    let mut best_key: PeerAddr = *k0;
                    let mut best_seen: i64 = s0.last_seen;
                    let mut i: usize = 1;
                    while i < n
                        invariant
                            n == self.peer_states@.len(),
                            self.peer_states@ == old(self).peer_states@,
                            1 <= i <= n,
                            forall|a: int, b: int| 0 <= a < b < n ==> self.peer_states.spec_key_at(a) != self.peer_states.spec_key_at(b),
                            forall|j: int| 0 <= j < n ==> self.peer_states@.contains_key(#[trigger] self.peer_states.spec_key_at(j)),
                            forall|k: PeerAddr| #[trigger] self.peer_states@.contains_key(k) ==> exists|j: int| 0 <= j < n && self.peer_states.spec_key_at(j) == k,
                            self.peer_states@.contains_key(best_key),
                            best_seen == self.peer_states@[best_key].last_seen,
                            forall|j: int| 0 <= j < i ==> best_seen <= self.peer_states@[#[trigger] self.peer_states.spec_key_at(j)].last_seen,
                        decreases n - i,
                    {
                        let (k, st) = self.peer_states.entry(i);
                        if st.last_seen < best_seen {
                            best_key = *k;
                            best_seen = st.last_seen;
                        }
                        i += 1;
                    }
                    proof {
                        assert forall|j: PeerAddr| #[trigger] self.peer_states@.contains_key(j) implies best_seen <= self.peer_states@[j].last_seen by {
                            let x = choose|x: int| 0 <= x < n && self.peer_states.spec_key_at(x) == j;
                        }
                    }
                    self.peer_states.remove(&best_key);
                    proof {
                        evicted = Some(best_key);
                        assert(least_recently_seen(old(self).peer_states@, best_key));
                    }
                }
                self.peer_states.insert(addr, PeerState::new());
                proof {
                    match evicted {
                        None => {
                            assert(self.peer_states@.dom() =~= old(self).peer_states@.dom().insert(addr));
                        },
                        Some(k) => {
                            assert(self.peer_states@.dom() =~= old(self).peer_states@.dom().remove(k).insert(addr));
                        },
                    }
                }
            },
        }
    }

    /// A heartbeat from an authenticated peer (one with a session) updates
    /// its tracked state and is acknowledged: the serialized acknowledgement
    /// `ack_payload` goes out sealed under the session key, with a fresh
    /// nonce and the session's current send counter (the stored counter is
    /// not advanced). From a peer without a session nothing happens.
    pub fn on_heartbeat(&mut self, addr: PeerAddr, ack_payload: &[u8]) -> (reply: Option<NetworkMessage>)
        ensures
            !old(self).sessions@.contains_key(addr) ==> reply is None && *final(self) == *old(self),
            old(self).sessions@.contains_key(addr) ==> {
                &&& final(self).peer_states@.contains_key(addr)
                &&& final(self).peer_states@[addr].consecutive_misses == 0
                &&& reply matches Some(NetworkMessage::SecureMessage(m)) ==> {
                    let st = old(self).sessions@[addr];
                    &&& m.counter == st.send_counter
                    &&& Some(m.encrypted_payload@) == chacha20poly1305_seal(st.session_key@, m.nonce@,
                        crate::network::secure_transport::spec_bound_plaintext(st.send_counter, ack_payload@))
                }
                &&& (reply is None <==> !crate::network::secure_transport::chacha_accepts(ack_payload@.len() + 8))
            },
            final(self).pending@ == old(self).pending@,
            final(self).sessions@ == old(self).sessions@,
            final(self).trusted@ == old(self).trusted@,
            final(self).peers@ == old(self).peers@,
            final(self).reputation@ == old(self).reputation@,
            final(self).epas@ == old(self).epas@,
    {
        if !self.sessions.contains(&addr) {
            return None;
        }
        self.track_heartbeat(addr);
        match self.sessions.get(&addr) {
            Some(session) => {
                let nonce = generate_nonce();
                let counter = session.send_counter;
                match SecureMessage::encrypt(ack_payload, &session.session_key, counter, &nonce) {
                    Ok(m) => Some(NetworkMessage::SecureMessage(m)),
                    Err(_) => None,
                }
            },
            None => None,
        }
    }

    /// An acknowledged heartbeat refreshes the tracked state of the peer, if
    /// it is tracked.
    pub fn on_heartbeat_ack(&mut self, addr: PeerAddr)
        ensures
            final(self).peer_states@.dom() == old(self).peer_states@.dom(),
            old(self).peer_states@.contains_key(addr) ==> final(self).peer_states@[addr].consecutive_misses == 0,
            forall|a: PeerAddr| a != addr && #[trigger] old(self).peer_states@.contains_key(a)
                ==> final(self).peer_states@[a] == old(self).peer_states@[a],
            final(self).pending@ == old(self).pending@,
            final(self).sessions@ == old(self).sessions@,
            final(self).trusted@ == old(self).trusted@,
            final(self).peers@ == old(self).peers@,
            final(self).reputation@ == old(self).reputation@,
            final(self).epas@ == old(self).epas@,
    {
        match self.peer_states.remove(&addr) {
            Some(st) => {
                let mut st = st;
                st.record_heartbeat();
                self.peer_states.insert(addr, st);
                proof {
                    assert(self.peer_states@.dom() =~= old(self).peer_states@.dom());
                }
            },
            None => {
                proof {
                    assert(self.peer_states@ =~= old(self).peer_states@);
                }
            },
        }
    }

    /// Peers shared by an authenticated peer (addresses that parsed): each
    /// one that is neither the sender nor authenticated already gets a new
    /// initiator handshake (while there is room for one) and a hello with the
    /// node id, its public key, a fresh ephemeral key, its ML-KEM key and a
    /// fresh nonce. From a peer without a session nothing happens.
    pub fn on_peer_exchange(&mut self, node: &NodeIdentity, addr: PeerAddr, shared: &Vec<PeerAddr>) -> (out: Vec<(NetworkMessage, PeerAddr)>)
        ensures
            !old(self).sessions@.contains_key(addr) ==> out@.len() == 0 && *final(self) == *old(self),
            forall|i: int| 0 <= i < out@.len() ==> {
                let (m, to) = #[trigger] out@[i];
                &&& shared@.contains(to)
                &&& to != addr
                &&& !crate::network::transport::trusted_addrs(old(self).trusted@).contains(to)
                &&& final(self).pending@.contains_key(to)
                &&& m matches NetworkMessage::Hello { node_id, ed25519_pubkey, x25519_pubkey, ml_kem_ek, nonce }
                &&& node_id@ == node@.node_id
                &&& ed25519_pubkey@ == node@.public_key
                &&& ml_kem_ek@ == node@.ml_kem_keypair.spec_ek()
                &&& (forall|k2: int| i < k2 < out@.len() ==> (#[trigger] out@[k2]).1 != to) ==> {
                    &&& final(self).pending@[to].remote_nonce == Some(nonce)
                    &&& (final(self).pending@[to].ephemeral_public matches Some(p) && p@ == x25519_pubkey@)
                }
            },
            old(self).sessions@.contains_key(addr) ==> forall|p: PeerAddr|
                #[trigger] shared@.contains(p) && p != addr
                    && !crate::network::transport::trusted_addrs(old(self).trusted@).contains(p)
                    ==> sent_to(out@, p) || final(self).pending@.len() >= MAX_PENDING_HANDSHAKES,
            final(self).pending@.len() <= MAX_PENDING_HANDSHAKES || final(self).pending@ == old(self).pending@,
            forall|a: PeerAddr| #[trigger] old(self).pending@.contains_key(a) ==> final(self).pending@.contains_key(a),
            final(self).sessions@ == old(self).sessions@,
            final(self).trusted@ == old(self).trusted@,
            final(self).peers@ == old(self).peers@,
            final(self).peer_states@ == old(self).peer_states@,
            final(self).reputation@ == old(self).reputation@,
            final(self).epas@ == old(self).epas@,
    {
        let mut out: Vec<(NetworkMessage, PeerAddr)> = Vec::new();
        if !self.sessions.contains(&addr) {
            return out;
        }
        let mut unknown: Vec<PeerAddr> = Vec::new();
        let mut i: usize = 0;
        while i < shared.len()
            invariant
                i <= shared@.len(),
                forall|j: int| 0 <= j < unknown@.len() ==> shared@.contains(#[trigger] unknown@[j]) && unknown@[j] != addr
                    && !crate::network::transport::trusted_addrs(self.trusted@).contains(unknown@[j]),
                forall|q: int| 0 <= q < i && #[trigger] shared@[q] != addr
                    && !crate::network::transport::trusted_addrs(self.trusted@).contains(shared@[q])
                    ==> unknown@.contains(shared@[q]),
            decreases shared@.len() - i,
        {
            let p = shared[i];
            let ghost u0 = unknown@;
            if p != addr && !self.trusted.contains(&p) {
                unknown.push(p);
                proof {
                    assert(unknown@[u0.len() as int] == p);
                }
            }
            proof {
                assert forall|q: int| 0 <= q < i + 1 && #[trigger] shared@[q] != addr
                    && !crate::network::transport::trusted_addrs(self.trusted@).contains(shared@[q])
                    implies unknown@.contains(shared@[q]) by {
                    if q < i {
                        let r = choose|r: int| 0 <= r < u0.len() && u0[r] == shared@[q];
                        assert(unknown@[r] == u0[r]);
                    }
                }
            }
            i += 1;
        }
        let ghost pending0 = self.pending@;
        let _ = self.pending.len();
        let mut j: usize = 0;
        while j < unknown.len()
            invariant
                j <= unknown@.len(),
                self.pending@.dom().finite(),
                forall|q: int| 0 <= q < j ==> sent_to(out@, #[trigger] unknown@[q])
                    || self.pending@.len() >= MAX_PENDING_HANDSHAKES,
                forall|k: int| 0 <= k < unknown@.len() ==> shared@.contains(#[trigger] unknown@[k]) && unknown@[k] != addr
                    && !crate::network::transport::trusted_addrs(old(self).trusted@).contains(unknown@[k]),
                self.sessions@ == old(self).sessions@,
                self.trusted@ == old(self).trusted@,
                self.peers@ == old(self).peers@,
                self.peer_states@ == old(self).peer_states@,
                self.reputation@ == old(self).reputation@,
                self.epas@ == old(self).epas@,
                forall|a: PeerAddr| #[trigger] old(self).pending@.contains_key(a) ==> self.pending@.contains_key(a),
                self.pending@.len() <= MAX_PENDING_HANDSHAKES || self.pending@ == old(self).pending@,
                forall|k: int| 0 <= k < out@.len() ==> {
                    let (m, to) = #[trigger] out@[k];
                    &&& shared@.contains(to)
                    &&& to != addr
                    &&& !crate::network::transport::trusted_addrs(old(self).trusted@).contains(to)
                    &&& self.pending@.contains_key(to)
                    &&& m matches NetworkMessage::Hello { node_id, ed25519_pubkey, x25519_pubkey, ml_kem_ek, nonce }
                    &&& node_id@ == node@.node_id
                    &&& ed25519_pubkey@ == node@.public_key
                    &&& ml_kem_ek@ == node@.ml_kem_keypair.spec_ek()
                    &&& (forall|k2: int| k < k2 < out@.len() ==> (#[trigger] out@[k2]).1 != to) ==> {
                        &&& self.pending@[to].remote_nonce == Some(nonce)
                        &&& (self.pending@[to].ephemeral_public matches Some(p) && p@ == x25519_pubkey@)
                    }
                },
            decreases unknown@.len() - j,
        {
            let peer_addr = unknown[j];
            let nonce = generate_handshake_nonce();
            let secret = generate_handshake_nonce();
            let local_nonce = generate_handshake_nonce();
            let mut hs = PendingHandshake::new_initiator(peer_addr, local_nonce, secret);
            hs.remote_nonce = Some(nonce);
            if self.pending.len() >= MAX_PENDING_HANDSHAKES {
                j += 1;
                continue;
            }
            let eph_pub: [u8; 32] = match hs.ephemeral_public {
                Some(p) => p,
                None => zero32(),
            };
            let ghost h = hs;
            let ghost before = self.pending@;
            self.pending.insert(peer_addr, hs);
            proof {
                assert(self.pending@.dom() =~= before.dom().insert(peer_addr));
                assert(self.pending@.len() >= before.len());
            }
            let hello = NetworkMessage::Hello {
                node_id: node.node_id().clone(),
                ed25519_pubkey: node.public_key().clone(),
                x25519_pubkey: copy_vec(eph_pub.as_slice()),
                ml_kem_ek: copy_vec(node.ml_kem_keypair().encapsulation_key_bytes()),
                nonce,
            };
            let ghost out0 = out@;
            out.push((hello, peer_addr));
            proof {
                assert(out@[out0.len() as int].1 == peer_addr);
                assert forall|q: int| 0 <= q <= j implies sent_to(out@, #[trigger] unknown@[q])
                    || self.pending@.len() >= MAX_PENDING_HANDSHAKES by {
                    if q < j && sent_to(out0, unknown@[q]) {
                        let k = choose|k: int| 0 <= k < out0.len() && (#[trigger] out0[k]).1 == unknown@[q];
                        assert(out@[k] == out0[k]);
                    }
                }
                assert forall|k: int| 0 <= k < out@.len() implies {
                    let (m, to) = #[trigger] out@[k];
                    &&& shared@.contains(to)
                    &&& to != addr
                    &&& !crate::network::transport::trusted_addrs(old(self).trusted@).contains(to)
                    &&& self.pending@.contains_key(to)
                    &&& m matches NetworkMessage::Hello { node_id, ed25519_pubkey, x25519_pubkey, ml_kem_ek, nonce }
                    &&& node_id@ == node@.node_id
                    &&& ed25519_pubkey@ == node@.public_key
                    &&& ml_kem_ek@ == node@.ml_kem_keypair.spec_ek()
                    &&& (forall|k2: int| k < k2 < out@.len() ==> (#[trigger] out@[k2]).1 != to) ==> {
                        &&& self.pending@[to].remote_nonce == Some(nonce)
                        &&& (self.pending@[to].ephemeral_public matches Some(p) && p@ == x25519_pubkey@)
                    }
                } by {
                    if k < out0.len() {
                        assert(out@[k] == out0[k]);
                        let to = out@[k].1;
                        if forall|k2: int| k < k2 < out@.len() ==> (#[trigger] out@[k2]).1 != to {
                            assert(out@[out0.len() as int].1 == peer_addr);
                            assert forall|k2: int| k < k2 < out0.len() implies (#[trigger] out0[k2]).1 != to by {
                                assert(out@[k2] == out0[k2]);
                            }
                        }
                    }
                }
            }
            j += 1;
        }
        proof {
            assert forall|p: PeerAddr|
                #[trigger] shared@.contains(p) && p != addr
                    && !crate::network::transport::trusted_addrs(old(self).trusted@).contains(p)
                    implies sent_to(out@, p) || self.pending@.len() >= MAX_PENDING_HANDSHAKES by {
                let q = choose|q: int| 0 <= q < shared@.len() && shared@[q] == p;
                assert(unknown@.contains(shared@[q]));
                let r = choose|r: int| 0 <= r < unknown@.len() && unknown@[r] == p;
                assert(sent_to(out@, unknown@[r]) || self.pending@.len() >= MAX_PENDING_HANDSHAKES);
            }
        }
        out
    }

    /// Records a failure of a node (unless its count can grow no further) and
    /// reports its failures and whether it is banned now.
    pub fn increment_failure(&mut self, node_id: &str) -> (r: (u32, bool))
        ensures
            final(self).reputation@.contains_key(node_id@),
            r.0 == final(self).reputation@[node_id@].failures,
            !old(self).reputation@.contains_key(node_id@) ==> r.0 == 1,
            old(self).reputation@.contains_key(node_id@) && old(self).reputation@[node_id@].failures < u32::MAX
                ==> r.0 == old(self).reputation@[node_id@].failures + 1,
            forall|k: Seq<char>| k != node_id@ && #[trigger] old(self).reputation@.contains_key(k)
                ==> final(self).reputation@.contains_key(k) && final(self).reputation@[k] == old(self).reputation@[k],
            failure_counted(old(self).reputation@, final(self).reputation@, node_id@),
            final(self).pending@ == old(self).pending@,
            final(self).sessions@ == old(self).sessions@,
            final(self).trusted@ == old(self).trusted@,
            final(self).peers@ == old(self).peers@,
            final(self).peer_states@ == old(self).peer_states@,
            final(self).epas@ == old(self).epas@,
    {
        let can_count = match self.reputation.get(node_id) {
            Some(rep) => rep.failures < u32::MAX,
            None => true,
        };
        if can_count {
            self.reputation.record_failure(node_id);
        } else {
            self.reputation.get_or_create(node_id);
        }
        match self.reputation.get(node_id) {
            Some(rep) => (rep.failures, rep.is_banned()),
            None => (0, false),
        }
    }

    /// A package from `addr`: only authenticated peers are heard. Unless
    /// encryption is disabled, an encrypted payload must open with the
    /// node's X25519 key, else a failure of the sending node is recorded.
    /// A package that gets through is handed back for verification.
    pub fn on_epa(&mut self, node: &NodeIdentity, addr: PeerAddr, epa: SharedEPA, disable_encryption: bool) -> (r: EpaOutcome)
        requires
            epa.encrypted_payload is Some ==> (epa.ephemeral_public_key matches Some(k) ==> k@.len() == 32),
        ensures
            !crate::network::transport::trusted_addrs(old(self).trusted@).contains(addr) ==> r is Untrusted && *final(self) == *old(self),
            r is Untrusted ==> !crate::network::transport::trusted_addrs(old(self).trusted@).contains(addr),
            r matches EpaOutcome::Verify(e) ==> e == epa && *final(self) == *old(self),
            r is DecryptFailed ==> !disable_encryption && epa.encrypted_payload is Some
                && final(self).reputation@.contains_key(epa.node_id@)
                && (!old(self).reputation@.contains_key(epa.node_id@) ==> final(self).reputation@[epa.node_id@].failures == 1),
            disable_encryption || epa.encrypted_payload is None ==> !(r is DecryptFailed),
            final(self).pending@ == old(self).pending@,
            final(self).sessions@ == old(self).sessions@,
            final(self).trusted@ == old(self).trusted@,
            final(self).peers@ == old(self).peers@,
            final(self).peer_states@ == old(self).peer_states@,
            final(self).epas@ == old(self).epas@,
    {
        if !self.trusted.contains(&addr) {
            return EpaOutcome::Untrusted;
        }
        if !disable_encryption && epa.encrypted_payload.is_some() {
            match epa.decrypt_payload(node.encryption_keypair()) {
                Ok(_) => {},
                Err(_) => {
                    self.increment_failure(epa.node_id.as_str());
                    return EpaOutcome::DecryptFailed;
                },
            }
        }
        EpaOutcome::Verify(epa)
    }

    /// Verifies a package against the clock (integrity, signature,
    /// freshness). A valid one counts as a success of its node and is kept,
    /// the oldest kept package leaving when the store is full; any other
    /// outcome is a failure of its node.
    pub fn verify_and_store_epa(&mut self, epa: SharedEPA) -> (v: VerifyResult)
        ensures
            exists|age: Option<i64>| (age is Some <==> utc_timestamp_parses(epa.timestamp@))
                && v == spec_result_of(#[trigger] spec_verify_full(epa, age)),
            v == VerifyResult::Valid ==> final(self).epas@ == (if old(self).epas@.len() >= MAX_EPA_ENTRIES {
                old(self).epas@.drop_first() } else { old(self).epas@ }).push(epa),
            v == VerifyResult::Valid ==> final(self).reputation@.contains_key(epa.node_id@),
            v != VerifyResult::Valid ==> final(self).epas@ == old(self).epas@
                && final(self).reputation@.contains_key(epa.node_id@),
            v != VerifyResult::Valid ==> failure_counted(old(self).reputation@, final(self).reputation@, epa.node_id@),
            v == VerifyResult::Valid ==> success_counted(old(self).reputation@, final(self).reputation@, epa.node_id@),
            final(self).pending@ == old(self).pending@,
            final(self).sessions@ == old(self).sessions@,
            final(self).trusted@ == old(self).trusted@,
            final(self).peers@ == old(self).peers@,
            final(self).peer_states@ == old(self).peer_states@,
    {
        let v = verify_epa(&epa);
        match v {
            VerifyResult::Valid => {
                let can_count = match self.reputation.get(epa.node_id.as_str()) {
                    Some(rep) => rep.successes < u32::MAX,
                    None => true,
                };
                if can_count {
                    self.reputation.record_success(epa.node_id.as_str());
                } else {
                    self.reputation.get_or_create(epa.node_id.as_str());
                }
                if self.epas.len() >= MAX_EPA_ENTRIES {
                    self.epas.remove(0);
                }
                self.epas.push(epa);
            },
            _ => {
                self.increment_failure(epa.node_id.as_str());
            },
        }
        v
    }
}

} // verus!
