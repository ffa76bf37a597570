//! Evidence packages shared between nodes (EPA): their integrity hash, the
//! Ed25519 signature over it, and the freshness window of their timestamp.

use vstd::prelude::*;
use vstd::string::StringSliceAdditionalSpecFns;
use crate::clock::{timestamp_age_seconds, utc_timestamp_parses};
use crate::hash::{canonical_hash, text_hash};
use crate::network::identity::{spec_verify_signature, verify_signature, SignatureCheckError};
use crate::text::{chars_of, push_str, string_from_chars, string_from_utf8, sub_chars, utf8_error_text_of};
use crate::clock::now_rfc3339;
use crate::network::crypto::{decrypt, encrypt, hkdf_sha256_32_of, sealed_with, x25519_shared_of, KeyPair};
use crate::network::identity::{ed25519_signature_of, NodeIdentity};

verus! {

/// How far in the past a timestamp may lie (five minutes).
pub const TIMESTAMP_MAX_AGE_SECS: i64 = 300;

/// How far in the future a timestamp may lie (two minutes).
pub const TIMESTAMP_MAX_FUTURE_SECS: i64 = 120;

/// An evidence package as shared on the network.
#[derive(Debug, Clone)]
pub struct SharedEPA {
    pub epa_id: String,
    pub node_id: String,
    pub public_key: String,
    pub ed25519_signature: Vec<u8>,
    pub state_hash: String,
    pub evidence_hash: String,
    pub decision_hash: String,
    pub manifest_hash: String,
    pub timestamp: String,
    pub integrity_hash: String,
    /// Encrypted payload, if any: nonce (12 bytes) then ciphertext.
    pub encrypted_payload: Option<Vec<u8>>,
    /// Ephemeral X25519 public key of the encryption, present with the payload.
    pub ephemeral_public_key: Option<Vec<u8>>,
}

/// Why a package was refused.
#[derive(Debug, Clone, Copy, PartialEq, Eq, Structural)]
pub enum VerifyError {
    IntegrityFailed,
    SignatureFailed,
    TimestampExpired,
    TimestampTooNew,
    TimestampInvalid,
    MissingPublicKey,
}

impl VerifyError {
    /// The message of the error.
    pub open spec fn spec_message(self) -> Seq<char> {
        match self {
            VerifyError::IntegrityFailed => "integrity hash mismatch"@,
            VerifyError::SignatureFailed => "Ed25519 signature invalid"@,
            VerifyError::TimestampExpired => "timestamp older than 5 minutes"@,
            VerifyError::TimestampTooNew => "timestamp more than 2 minutes in the future"@,
            VerifyError::TimestampInvalid => "timestamp parse error"@,
            VerifyError::MissingPublicKey => "public key not provided"@,
        }
    }

    /// The message of the error.
    pub fn message(self) -> (s: &'static str)
        ensures
            s@ == self.spec_message(),
    {
        match self {
            VerifyError::IntegrityFailed => "integrity hash mismatch",
            VerifyError::SignatureFailed => "Ed25519 signature invalid",
            VerifyError::TimestampExpired => "timestamp older than 5 minutes",
            VerifyError::TimestampTooNew => "timestamp more than 2 minutes in the future",
            VerifyError::TimestampInvalid => "timestamp parse error",
            VerifyError::MissingPublicKey => "public key not provided",
        }
    }
}

/// The text whose hash is a package's integrity hash:
/// `node_id:state:evidence:decision:manifest`.
pub open spec fn integrity_content(
    node_id: Seq<char>,
    state_hash: Seq<char>,
    evidence_hash: Seq<char>,
    decision_hash: Seq<char>,
    manifest_hash: Seq<char>,
) -> Seq<char> {
    node_id + ":"@ + state_hash + ":"@ + evidence_hash + ":"@ + decision_hash + ":"@ + manifest_hash
}

/// The integrity hash a package should carry.
pub open spec fn expected_integrity(e: SharedEPA) -> Seq<char> {
    text_hash(integrity_content(e.node_id@, e.state_hash@, e.evidence_hash@, e.decision_hash@, e.manifest_hash@))
}

/// The hash of `node_id:state:evidence:decision:manifest`.
pub fn integrity_hash_of(
    node_id: &str,
    state_hash: &str,
    evidence_hash: &str,
    decision_hash: &str,
    manifest_hash: &str,
) -> (h: String)
    ensures
        h@ == text_hash(integrity_content(node_id@, state_hash@, evidence_hash@, decision_hash@, manifest_hash@)),
        h@.len() == 64,
{
    let mut content = String::new();
    push_str(&mut content, node_id);
    push_str(&mut content, ":");
    push_str(&mut content, state_hash);
    push_str(&mut content, ":");
    push_str(&mut content, evidence_hash);
    push_str(&mut content, ":");
    push_str(&mut content, decision_hash);
    push_str(&mut content, ":");
    push_str(&mut content, manifest_hash);
    canonical_hash(content.as_str())
}

/// The verdict on the signature: a public key must be given, and the
/// signature must be a valid one of the integrity hash under it.
pub open spec fn spec_signature_verdict(e: SharedEPA) -> Result<(), VerifyError> {
    if e.public_key@.len() == 0 {
        Err(VerifyError::MissingPublicKey)
    } else if spec_verify_signature(vstd::utf8::encode_utf8(e.public_key@), vstd::utf8::encode_utf8(e.integrity_hash@), e.ed25519_signature@)
        == Ok::<bool, SignatureCheckError>(true) {
        Ok(())
    } else {
        Err(VerifyError::SignatureFailed)
    }
}

/// The verdict on a timestamp `age` seconds old (negative: in the future).
pub open spec fn spec_timestamp_verdict(age: Option<i64>) -> Result<(), VerifyError> {
    match age {
        None => Err(VerifyError::TimestampInvalid),
        Some(a) => if a > TIMESTAMP_MAX_AGE_SECS {
            Err(VerifyError::TimestampExpired)
        } else if a < -TIMESTAMP_MAX_FUTURE_SECS {
            Err(VerifyError::TimestampTooNew)
        } else {
            Ok(())
        },
    }
}

/// The full verdict, given the timestamp's age: integrity, then signature,
/// then freshness.
pub open spec fn spec_verify_full(e: SharedEPA, age: Option<i64>) -> Result<(), VerifyError> {
    if e.integrity_hash@ != expected_integrity(e) {
        Err(VerifyError::IntegrityFailed)
    } else if spec_signature_verdict(e) is Err {
        spec_signature_verdict(e)
    } else {
        spec_timestamp_verdict(age)
    }
}

/// The verdict on a timestamp of the given age (`None`: it did not parse).
pub fn timestamp_verdict(age: Option<i64>) -> (r: Result<(), VerifyError>)
    ensures
        r == spec_timestamp_verdict(age),
{
    match age {
        None => Err(VerifyError::TimestampInvalid),
        Some(a) => {
            if a > TIMESTAMP_MAX_AGE_SECS {
                Err(VerifyError::TimestampExpired)
            } else if a < -TIMESTAMP_MAX_FUTURE_SECS {
                Err(VerifyError::TimestampTooNew)
            } else {
                Ok(())
            }
        },
    }
}

impl SharedEPA {
    /// The integrity hash matches the hashed fields.
    pub fn verify_integrity(&self) -> (b: bool)
        ensures
            b == (self.integrity_hash@ == expected_integrity(*self)),
    {
        let expected = integrity_hash_of(
            self.node_id.as_str(),
            self.state_hash.as_str(),
            self.evidence_hash.as_str(),
            self.decision_hash.as_str(),
            self.manifest_hash.as_str(),
        );
        crate::text::string_eq_str(&self.integrity_hash, expected.as_str())
    }

    /// The signature is a valid Ed25519 signature of the integrity hash by the
    /// package's public key.
    pub fn verify_signature(&self) -> (r: Result<(), VerifyError>)
        ensures
            r == spec_signature_verdict(*self),
    {
        if self.public_key.as_str().is_empty() {
            return Err(VerifyError::MissingPublicKey);
        }
        let valid = match verify_signature(
            self.public_key.as_str(),
            self.integrity_hash.as_str().as_bytes(),
            self.ed25519_signature.as_slice(),
        ) {
            Ok(b) => b,
            Err(_) => false,
        };
        if !valid {
            return Err(VerifyError::SignatureFailed);
        }
        Ok(())
    }

    /// The timestamp lies at most five minutes in the past and two minutes in
    /// the future of the clock.
    pub fn verify_timestamp(&self) -> (r: Result<(), VerifyError>)
        ensures
            exists|age: Option<i64>| (age is Some <==> utc_timestamp_parses(self.timestamp@))
                && r == #[trigger] spec_timestamp_verdict(age),
    {
        let age = timestamp_age_seconds(self.timestamp.as_str());
        timestamp_verdict(age)
    }

    /// The full verdict for a given age of the timestamp (`None`: it did not
    /// parse): integrity, then signature, then freshness.
    pub fn verify_full_with_age(&self, age: Option<i64>) -> (r: Result<(), VerifyError>)
        ensures
            r == spec_verify_full(*self, age),
    {
        if !self.verify_integrity() {
            return Err(VerifyError::IntegrityFailed);
        }
        match self.verify_signature() {
            Ok(_) => {},
            Err(e) => return Err(e),
        }
        timestamp_verdict(age)
    }

    /// Full check against the clock: integrity, then signature, then
    /// freshness. The clock is read only when the first two checks pass.
    pub fn verify_full(&self) -> (r: Result<(), VerifyError>)
        ensures
            exists|age: Option<i64>| (age is Some <==> utc_timestamp_parses(self.timestamp@))
                && r == #[trigger] spec_verify_full(*self, age),
    {
        if !self.verify_integrity() {
            let ghost none: Option<i64> = if utc_timestamp_parses(self.timestamp@) { Some(0) } else { None };
            assert(r_is(spec_verify_full(*self, none), Err(VerifyError::IntegrityFailed)));
            return Err(VerifyError::IntegrityFailed);
        }
        match self.verify_signature() {
            Ok(_) => {},
            Err(e) => {
                let ghost any: Option<i64> = if utc_timestamp_parses(self.timestamp@) { Some(0) } else { None };
                assert(r_is(spec_verify_full(*self, any), Err(e)));
                return Err(e);
            },
        }
        let age = timestamp_age_seconds(self.timestamp.as_str());
        let r = timestamp_verdict(age);
        assert(r_is(spec_verify_full(*self, age), r));
        r
    }
}

/// The ChaCha20-Poly1305 key of the X25519 exchange between a secret and a
/// public key (HKDF-SHA256, no salt, `nexoia-epa-encryption`).
pub open spec fn epa_cipher_key(secret: Seq<u8>, public: Seq<u8>) -> Seq<u8> {
    hkdf_sha256_32_of(None, x25519_shared_of(secret, public), vstd::utf8::encode_utf8("nexoia-epa-encryption"@))
}

/// The sensitive content of a package: `state|evidence|decisions|manifest`.
pub open spec fn sensitive_content(state: Seq<char>, evidence: Seq<char>, decisions: Seq<char>, manifest: Seq<char>) -> Seq<char> {
    state + "|"@ + evidence + "|"@ + decisions + "|"@ + manifest
}

/// The first sixteen characters.
fn prefix16(s: &String) -> (r: String)
    requires
        s@.len() >= 16,
    ensures
        r@ == s@.subrange(0, 16),
{
    let c = chars_of(s.as_str());
    let p = sub_chars(&c, 0, 16);
    string_from_chars(&p)
}

impl SharedEPA {
    /// A package of the node over four documents: their hashes, the integrity
    /// hash over the node and the hashes, its Ed25519 signature, and the
    /// current time. A package so made passes the integrity check, and the
    /// signature check when the node's public key belongs to its key.
    pub fn create(
        node: &NodeIdentity,
        state_json: &str,
        evidence_jsonl: &str,
        decisions_jsonl: &str,
        manifest_json: &str,
    ) -> (e: Self)
        ensures
            e.node_id@ == node@.node_id,
            e.public_key@ == node@.public_key,
            e.state_hash@ == text_hash(state_json@),
            e.evidence_hash@ == text_hash(evidence_jsonl@),
            e.decision_hash@ == text_hash(decisions_jsonl@),
            e.manifest_hash@ == text_hash(manifest_json@),
            e.integrity_hash@ == expected_integrity(e),
            e.epa_id@ == e.integrity_hash@.subrange(0, 16),
            e.ed25519_signature@ == ed25519_signature_of(node@.signing_key, vstd::utf8::encode_utf8(e.integrity_hash@)),
            utc_timestamp_parses(e.timestamp@),
            e.encrypted_payload is None,
            e.ephemeral_public_key is None,
            node@.keys_match() ==> spec_signature_verdict(e) is Ok,
    {
        let state_hash = canonical_hash(state_json);
        let evidence_hash = canonical_hash(evidence_jsonl);
        let decision_hash = canonical_hash(decisions_jsonl);
        let manifest_hash = canonical_hash(manifest_json);
        let integrity_hash = integrity_hash_of(
            node.node_id().as_str(),
            state_hash.as_str(),
            evidence_hash.as_str(),
            decision_hash.as_str(),
            manifest_hash.as_str(),
        );
        let signature = node.sign(integrity_hash.as_str());
        let epa_id = prefix16(&integrity_hash);
        let e = SharedEPA {
            epa_id,
            node_id: node.node_id().clone(),
            public_key: node.public_key().clone(),
            ed25519_signature: signature,
            state_hash,
            evidence_hash,
            decision_hash,
            manifest_hash,
            timestamp: now_rfc3339(),
            integrity_hash,
            encrypted_payload: None,
            ephemeral_public_key: None,
        };
        proof {
            if node@.keys_match() {
                assert(e.public_key@.len() > 0) by {
                    assert(node@.public_key.len() == 2 * node@.verifying_key.len());
                    assert(node@.verifying_key.len() == 32);
                }
            }
        }
        e
    }

    /// A package whose documents also travel encrypted for one recipient: a
    /// fresh X25519 key pair is made, the key it shares with the recipient
    /// seals `state|evidence|decisions|manifest`, and its public half is
    /// carried with the package.
    pub fn create_encrypted(
        node: &NodeIdentity,
        state_json: &str,
        evidence_jsonl: &str,
        decisions_jsonl: &str,
        manifest_json: &str,
        recipient_public_key: &[u8; 32],
    ) -> (r: Result<Self, String>)
        ensures
            r matches Ok(e) ==> {
                &&& e.node_id@ == node@.node_id
                &&& e.public_key@ == node@.public_key
                &&& e.state_hash@ == text_hash(state_json@)
                &&& e.evidence_hash@ == text_hash(evidence_jsonl@)
                &&& e.decision_hash@ == text_hash(decisions_jsonl@)
                &&& e.manifest_hash@ == text_hash(manifest_json@)
                &&& e.integrity_hash@ == expected_integrity(e)
                &&& e.epa_id@ == e.integrity_hash@.subrange(0, 16)
                &&& (node@.keys_match() ==> spec_signature_verdict(e) is Ok)
                &&& exists|k: KeyPair| #![trigger k.spec_secret()] k.wf()
                    && (e.ephemeral_public_key matches Some(q) && q@ == k.spec_public())
                    && (e.encrypted_payload matches Some(p) && p@.len() >= 12
                        && sealed_with(epa_cipher_key(k.spec_secret(), recipient_public_key@), p@.subrange(0, 12),
                            vstd::utf8::encode_utf8(sensitive_content(state_json@, evidence_jsonl@, decisions_jsonl@, manifest_json@)))
                            == Some(p@))
            },
            r matches Err(m) ==> m@ == "Encryption error: aead::Error"@,
    {
        let mut epa = SharedEPA::create(node, state_json, evidence_jsonl, decisions_jsonl, manifest_json);
        let mut sensitive = String::new();
        push_str(&mut sensitive, state_json);
        push_str(&mut sensitive, "|");
        push_str(&mut sensitive, evidence_jsonl);
        push_str(&mut sensitive, "|");
        push_str(&mut sensitive, decisions_jsonl);
        push_str(&mut sensitive, "|");
        push_str(&mut sensitive, manifest_json);
        proof { reveal_strlit("|"); }
        let keypair = KeyPair::generate();
        let cipher = keypair.derive_cipher(recipient_public_key)?;
        let encrypted = encrypt(sensitive.as_str().as_bytes(), &cipher)?;
        let public = keypair.public_bytes();
        let mut eph: Vec<u8> = Vec::new();
        crate::bytes::push_bytes(&mut eph, public.as_slice());
        epa.encrypted_payload = Some(encrypted);
        epa.ephemeral_public_key = Some(eph);
        Ok(epa)
    }

    /// The documents of an encrypted package, opened with the recipient's key
    /// pair and the package's ephemeral public key.
    pub fn decrypt_payload(&self, recipient_keypair: &KeyPair) -> (r: Result<String, String>)
        requires
            self.encrypted_payload is Some ==> (self.ephemeral_public_key matches Some(k) ==> k@.len() == 32),
        ensures
            self.encrypted_payload is None ==> (r matches Err(m) && m@ == "No encrypted payload"@),
            self.encrypted_payload is Some && self.ephemeral_public_key is None
                ==> (r matches Err(m) && m@ == "No ephemeral public key in EPA"@),
            match (self.encrypted_payload, self.ephemeral_public_key) {
                (Some(p), Some(k)) => {
                    let key = epa_cipher_key(recipient_keypair.spec_secret(), k@);
                    &&& p@.len() < 12 ==> (r matches Err(m) && m@ == "Encrypted data too short"@)
                    &&& p@.len() >= 12 ==> match crate::network::secure_transport::chacha20poly1305_open(key, p@.subrange(0, 12), p@.subrange(12, p@.len() as int)) {
                        None => r matches Err(m) && m@ == "Decryption error: aead::Error"@,
                        Some(b) => if vstd::utf8::valid_utf8(b) {
                            r matches Ok(t) && t@ == vstd::utf8::decode_utf8(b)
                        } else {
                            r matches Err(m) && m@ == "Invalid UTF-8: "@ + utf8_error_text_of(b)
                        },
                    }
                    &&& forall|n: Seq<u8>, b: Seq<u8>| #[trigger] sealed_with(key, n, b) == Some(p@) && n.len() == 12
                        && vstd::utf8::valid_utf8(b) ==> (r matches Ok(t) && t@ == vstd::utf8::decode_utf8(b))
                },
                _ => true,
            },
    {
        let encrypted = match &self.encrypted_payload {
            Some(p) => p,
            None => return Err(crate::text::to_string("No encrypted payload")),
        };
        let eph = match &self.ephemeral_public_key {
            Some(k) => k,
            None => return Err(crate::text::to_string("No ephemeral public key in EPA")),
        };
        let mut key_arr = [0u8; 32];
        let mut i: usize = 0;
        while i < 32
            invariant
                i <= 32,
                eph@.len() == 32,
                forall|j: int| 0 <= j < i ==> key_arr@[j] == eph@[j],
            decreases 32 - i,
        {
            key_arr[i] = eph[i];
            i += 1;
        }
        assert(key_arr@ =~= eph@);
        let cipher = recipient_keypair.derive_cipher(&key_arr)?;
        let decrypted = decrypt(encrypted.as_slice(), &cipher)?;
        let ghost b = decrypted@;
        match string_from_utf8(decrypted) {
            Ok(t) => Ok(t),
            Err(e) => {
                let mut m = String::new();
                push_str(&mut m, "Invalid UTF-8: ");
                push_str(&mut m, e.as_str());
                proof { reveal_strlit("Invalid UTF-8: "); }
                Err(m)
            },
        }
    }
}

/// Two verdicts are the same (names the term the existential is proved with).
pub open spec fn r_is(a: Result<(), VerifyError>, b: Result<(), VerifyError>) -> bool {
    a == b
}

/// A package whose integrity hash was computed from its fields, and whose
/// signature is valid, is refused only for its timestamp; an accepted one has
/// a fresh timestamp.
pub proof fn law_accepted_packages_are_sound(e: SharedEPA, age: Option<i64>)
    ensures
        spec_verify_full(e, age) is Ok ==> e.integrity_hash@ == expected_integrity(e)
            && e.public_key@.len() > 0
            && age is Some && -TIMESTAMP_MAX_FUTURE_SECS <= age->0 <= TIMESTAMP_MAX_AGE_SECS,
        e.integrity_hash@ == expected_integrity(e) && spec_signature_verdict(e) is Ok
            ==> spec_verify_full(e, age) == spec_timestamp_verdict(age),
{
}

/// The bytes an optional byte list holds.
pub open spec fn opt_bytes(o: Option<Vec<u8>>) -> Option<Seq<u8>> {
    match o {
        Some(v) => Some(v@),
        None => None,
    }
}

/// Two packages hold the same fields.
pub open spec fn same_epa(a: SharedEPA, b: SharedEPA) -> bool {
    &&& a.epa_id@ == b.epa_id@
    &&& a.node_id@ == b.node_id@
    &&& a.public_key@ == b.public_key@
    &&& a.ed25519_signature@ == b.ed25519_signature@
    &&& a.state_hash@ == b.state_hash@
    &&& a.evidence_hash@ == b.evidence_hash@
    &&& a.decision_hash@ == b.decision_hash@
    &&& a.manifest_hash@ == b.manifest_hash@
    &&& a.timestamp@ == b.timestamp@
    &&& a.integrity_hash@ == b.integrity_hash@
    &&& opt_bytes(a.encrypted_payload) == opt_bytes(b.encrypted_payload)
    &&& opt_bytes(a.ephemeral_public_key) == opt_bytes(b.ephemeral_public_key)
}

fn copy_bytes(v: &Vec<u8>) -> (c: Vec<u8>)
    ensures
        c@ == v@,
{
    let c = v.clone();
    assert(c@ =~= v@);
    c
}

fn copy_opt_bytes(o: &Option<Vec<u8>>) -> (c: Option<Vec<u8>>)
    ensures
        opt_bytes(c) == opt_bytes(*o),
{
    match o {
        Some(v) => Some(copy_bytes(v)),
        None => None,
    }
}

impl SharedEPA {
    /// A package with the same fields.
    pub fn copy(&self) -> (c: SharedEPA)
        ensures
            same_epa(c, *self),
    {
        SharedEPA {
            epa_id: self.epa_id.clone(),
            node_id: self.node_id.clone(),
            public_key: self.public_key.clone(),
            ed25519_signature: copy_bytes(&self.ed25519_signature),
            state_hash: self.state_hash.clone(),
            evidence_hash: self.evidence_hash.clone(),
            decision_hash: self.decision_hash.clone(),
            manifest_hash: self.manifest_hash.clone(),
            timestamp: self.timestamp.clone(),
            integrity_hash: self.integrity_hash.clone(),
            encrypted_payload: copy_opt_bytes(&self.encrypted_payload),
            ephemeral_public_key: copy_opt_bytes(&self.ephemeral_public_key),
        }
    }
}

} // verus!
