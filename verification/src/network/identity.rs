//! The identity of a node (Ed25519 signing key, X25519 and ML-KEM-768 key
//! pairs), its stored form, and checking an Ed25519 signature made by a node
//! whose public key is known in hexadecimal.

use vstd::prelude::*;
use vstd::string::StringSliceAdditionalSpecFns;
use ed25519_dalek::{Signer, Verifier};
use crate::clock::{now_rfc3339, utc_timestamp_parses};
use crate::hash::{canonical_hash, text_hash};
use crate::network::crypto::{ml_kem_768_ek_of, KeyPair, MlKemKeyPair};
use crate::network::crypto_key::{decrypt_with_passphrase, encrypt_with_passphrase, protected_with, spec_decrypt_with_passphrase};
use crate::network::secure_transport::generate_handshake_nonce;
use crate::text::{push_str, to_string};
use crate::bytes::push_bytes;

verus! {

/// Value of an ASCII hexadecimal digit (either case).
pub open spec fn hex_digit_value(c: u8) -> Option<u8> {
    if 0x30 <= c <= 0x39 {
        Some((c - 0x30) as u8)
    } else if 0x41 <= c <= 0x46 {
        Some((c - 0x41 + 10) as u8)
    } else if 0x61 <= c <= 0x66 {
        Some((c - 0x61 + 10) as u8)
    } else {
        None
    }
}

/// The bytes a hexadecimal text denotes: none when its length is odd or a
/// character is not a hexadecimal digit.
pub open spec fn spec_hex_decode(b: Seq<u8>) -> Option<Seq<u8>> {
    if b.len() % 2 != 0 {
        None
    } else if exists|i: int| 0 <= i < b.len() && #[trigger] hex_digit_value(b[i]) is None {
        None
    } else {
        Some(Seq::new((b.len() / 2) as nat, |i: int|
            (hex_digit_value(b[2 * i])->0 * 16 + hex_digit_value(b[2 * i + 1])->0) as u8))
    }
}

/// The text of the error `hex::decode` reports for bytes it refuses.
pub uninterp spec fn hex_decode_error_of(data: Seq<u8>) -> Seq<char>;

/// Decodes hexadecimal text (`hex::decode`).
/// Trusted: the crate decodes pairs of digits of either case and refuses an
/// odd length or a non-digit, as stated; the text of its error is named.
#[verifier::external_body]
pub(crate) fn hex_decode(text: &str) -> (r: Result<Vec<u8>, String>)
    ensures
        match spec_hex_decode(text.spec_bytes()) {
            Some(v) => r matches Ok(x) && x@ == v,
            None => r matches Err(m) && m@ == hex_decode_error_of(text.spec_bytes()),
        },
{
    match hex::decode(text) {
        Ok(b) => Ok(b),
        Err(e) => Err(e.to_string()),
    }
}

/// The 32 bytes are the compressed form of a point of the curve
/// (`VerifyingKey::from_bytes` accepts them).
pub uninterp spec fn ed25519_key_valid(key: Seq<u8>) -> bool;

/// `signature` is a valid Ed25519 signature of `message` under `key`.
pub uninterp spec fn ed25519_signature_valid(key: Seq<u8>, message: Seq<u8>, signature: Seq<u8>) -> bool;

/// `VerifyingKey::from_bytes(key).is_ok()`.
/// Trusted: the answer is the named validity of the key bytes.
#[verifier::external_body]
fn ed25519_key_check(key: &[u8; 32]) -> (ok: bool)
    ensures
        ok == ed25519_key_valid(key@),
{
    ed25519_dalek::VerifyingKey::from_bytes(key).is_ok()
}

/// `VerifyingKey::verify` of `signature` over `message`.
/// Trusted: the answer is the named validity of the signature.
#[verifier::external_body]
fn ed25519_verify(key: &[u8; 32], message: &[u8], signature: &[u8; 64]) -> (ok: bool)
    requires
        ed25519_key_valid(key@),
    ensures
        ok == ed25519_signature_valid(key@, message@, signature@),
{
    match ed25519_dalek::VerifyingKey::from_bytes(key) {
        Ok(vk) => vk.verify(message, &ed25519_dalek::Signature::from_bytes(signature)).is_ok(),
        Err(_) => false,
    }
}

/// Why a signature could not be checked.
#[derive(Debug, Clone, Copy, PartialEq, Eq, Structural)]
pub enum SignatureCheckError {
    /// The public key is not hexadecimal text.
    InvalidHex,
    /// The public key does not have 32 bytes.
    InvalidKeyLength,
    /// The public key is not a point of the curve.
    InvalidKey,
    /// The signature does not have 64 bytes.
    InvalidSignatureLength,
}

/// The verdict on a signature check, in the order the checks are made.
pub open spec fn spec_verify_signature(key_hex: Seq<u8>, data: Seq<u8>, signature: Seq<u8>) -> Result<bool, SignatureCheckError> {
    match spec_hex_decode(key_hex) {
        None => Err(SignatureCheckError::InvalidHex),
        Some(key) => if key.len() != 32 {
            Err(SignatureCheckError::InvalidKeyLength)
        } else if !ed25519_key_valid(key) {
            Err(SignatureCheckError::InvalidKey)
        } else if signature.len() != 64 {
            Err(SignatureCheckError::InvalidSignatureLength)
        } else {
            Ok(ed25519_signature_valid(key, data, signature))
        },
    }
}

fn key_array(v: &Vec<u8>) -> (a: [u8; 32])
    requires
        v.len() == 32,
    ensures
        a@ == v@,
{
    let mut a = [0u8; 32];
    let mut i: usize = 0;
    while i < 32
        invariant
            i <= 32,
            v.len() == 32,
            forall|k: int| 0 <= k < i ==> a@[k] == v@[k],
        decreases 32 - i,
    {
        a[i] = v[i];
        i += 1;
    }
    assert(a@ =~= v@);
    a
}

fn signature_array(v: &[u8]) -> (a: [u8; 64])
    requires
        v@.len() == 64,
    ensures
        a@ == v@,
{
    let mut a = [0u8; 64];
    let mut i: usize = 0;
    while i < 64
        invariant
            i <= 64,
            v@.len() == 64,
            forall|k: int| 0 <= k < i ==> a@[k] == v@[k],
        decreases 64 - i,
    {
        a[i] = v[i];
        i += 1;
    }
    assert(a@ =~= v@);
    a
}

/// Checks an Ed25519 signature of `data` by the key written in hexadecimal.
pub fn verify_signature(public_key_hex: &str, data: &[u8], signature_bytes: &[u8]) -> (r: Result<bool, SignatureCheckError>)
    ensures
        r == spec_verify_signature(public_key_hex.spec_bytes(), data@, signature_bytes@),
{
    let key_bytes = match hex_decode(public_key_hex) {
        Ok(k) => k,
        Err(_) => return Err(SignatureCheckError::InvalidHex),
    };
    if key_bytes.len() != 32 {
        return Err(SignatureCheckError::InvalidKeyLength);
    }
    let key = key_array(&key_bytes);
    if !ed25519_key_check(&key) {
        return Err(SignatureCheckError::InvalidKey);
    }
    if signature_bytes.len() != 64 {
        return Err(SignatureCheckError::InvalidSignatureLength);
    }
    let sig = signature_array(signature_bytes);
    Ok(ed25519_verify(&key, data, &sig))
}

/// Lower-case hexadecimal digit of a value below 16.
pub open spec fn hex_char(n: u8) -> char {
    if n < 10 { (n + 48) as char } else { (n + 87) as char }
}

/// Lower-case hexadecimal text of bytes, two digits per byte.
pub open spec fn spec_hex_encode(b: Seq<u8>) -> Seq<char> {
    Seq::new(2 * b.len(), |i: int| if i % 2 == 0 { hex_char(b[i / 2] / 16) } else { hex_char(b[i / 2] % 16) })
}

/// Encodes bytes as lower-case hexadecimal text (`hex::encode`).
/// Trusted: two lower-case digits per byte, most significant first.
#[verifier::external_body]
fn hex_encode(bytes: &[u8]) -> (s: String)
    ensures
        s@ == spec_hex_encode(bytes@),
{
    hex::encode(bytes)
}

/// Decoding the hexadecimal text of bytes gives them back.
pub proof fn lemma_hex_roundtrip(b: Seq<u8>)
    ensures
        vstd::utf8::encode_utf8(spec_hex_encode(b)).len() == 2 * b.len(),
        spec_hex_decode(vstd::utf8::encode_utf8(spec_hex_encode(b))) == Some(b),
{
    let t = spec_hex_encode(b);
    assert forall|i: int| 0 <= i < t.len() implies '\0' <= #[trigger] t[i] <= '\u{7f}' by {
        let v: u8 = if i % 2 == 0 { b[i / 2] / 16 } else { b[i / 2] % 16 };
        assert(v < 16);
    }
    assert(vstd::utf8::is_ascii_chars(t));
    vstd::utf8::is_ascii_chars_encode_utf8(t);
    let e = vstd::utf8::encode_utf8(t);
    assert forall|i: int| 0 <= i < e.len() implies #[trigger] hex_digit_value(e[i]) == Some(
        if i % 2 == 0 { (b[i / 2] / 16) as u8 } else { (b[i / 2] % 16) as u8 }) by {
        assert(t[i] as u8 == e[i]);
        let v: u8 = if i % 2 == 0 { b[i / 2] / 16 } else { b[i / 2] % 16 };
        assert(v < 16);
        assert(t[i] == hex_char(v));
        if v < 10 {
            assert((v + 48) as char as u8 == v + 48);
        } else {
            assert((v + 87) as char as u8 == v + 87);
        }
    }
    assert(!(exists|i: int| 0 <= i < e.len() && #[trigger] hex_digit_value(e[i]) is None)) by {
        if exists|i: int| 0 <= i < e.len() && #[trigger] hex_digit_value(e[i]) is None {
            let i = choose|i: int| 0 <= i < e.len() && #[trigger] hex_digit_value(e[i]) is None;
            assert(hex_digit_value(e[i]) is Some);
        }
    }
    let d = spec_hex_decode(e)->0;
    assert forall|i: int| 0 <= i < b.len() implies #[trigger] d[i] == b[i] by {
        assert(hex_digit_value(e[2 * i]) == Some((b[i] / 16) as u8));
        assert(hex_digit_value(e[2 * i + 1]) == Some((b[i] % 16) as u8));
        assert((b[i] / 16) * 16 + b[i] % 16 == b[i]);
    }
    assert(d =~= b);
}

/// The Ed25519 public key of a 32-byte secret key.
pub uninterp spec fn ed25519_public_of(secret: Seq<u8>) -> Seq<u8>;

/// The Ed25519 signature of a message by a secret key (signatures are
/// deterministic, RFC 8032).
pub uninterp spec fn ed25519_signature_of(secret: Seq<u8>, message: Seq<u8>) -> Seq<u8>;

/// `SigningKey::from_bytes(secret).verifying_key().to_bytes()`.
/// Trusted: the result is the named public key, a valid point.
#[verifier::external_body]
fn ed25519_public(secret: &[u8; 32]) -> (p: [u8; 32])
    ensures
        p@ == ed25519_public_of(secret@),
        ed25519_key_valid(p@),
{
    ed25519_dalek::SigningKey::from_bytes(secret).verifying_key().to_bytes()
}

/// `SigningKey::from_bytes(secret).sign(message).to_bytes()`.
/// Trusted: the result is the named signature, and it verifies under the
/// secret's public key (what a key signs, its public key accepts).
#[verifier::external_body]
fn ed25519_sign(secret: &[u8; 32], message: &[u8]) -> (s: [u8; 64])
    ensures
        s@ == ed25519_signature_of(secret@, message@),
        ed25519_signature_valid(ed25519_public_of(secret@), message@, s@),
{
    ed25519_dalek::SigningKey::from_bytes(secret).sign(message).to_bytes()
}

fn array32(v: &[u8]) -> (a: [u8; 32])
    requires
        v@.len() == 32,
    ensures
        a@ == v@,
{
    let mut a = [0u8; 32];
    let mut i: usize = 0;
    while i < 32
        invariant
            i <= 32,
            v@.len() == 32,
            forall|k: int| 0 <= k < i ==> a@[k] == v@[k],
        decreases 32 - i,
    {
        a[i] = v[i];
        i += 1;
    }
    assert(a@ =~= v@);
    a
}

/// The identity of a node: its identifier, its Ed25519 key (the public half
/// in hexadecimal), when it was created, and its encryption key pairs.
#[derive(Clone)]
pub struct NodeIdentity {
    pub node_id: String,
    pub public_key: String,
    pub created_at: String,
    signing_key: [u8; 32],
    verifying_key: [u8; 32],
    /// X25519 key pair for payload encryption.
    pub encryption_keypair: KeyPair,
    /// ML-KEM-768 key pair for post-quantum protection.
    pub ml_kem_keypair: MlKemKeyPair,
}

/// Mathematical view of an identity.
pub struct NodeIdentityV {
    pub node_id: Seq<char>,
    pub public_key: Seq<char>,
    pub created_at: Seq<char>,
    pub signing_key: Seq<u8>,
    pub verifying_key: Seq<u8>,
    pub encryption_keypair: KeyPair,
    pub ml_kem_keypair: MlKemKeyPair,
}

impl View for NodeIdentity {
    type V = NodeIdentityV;

    closed spec fn view(&self) -> NodeIdentityV {
        NodeIdentityV {
            node_id: self.node_id@,
            public_key: self.public_key@,
            created_at: self.created_at@,
            signing_key: self.signing_key@,
            verifying_key: self.verifying_key@,
            encryption_keypair: self.encryption_keypair,
            ml_kem_keypair: self.ml_kem_keypair,
        }
    }
}

impl NodeIdentityV {
    /// The kept public key belongs to the secret key, is valid, and the
    /// public key text is its hexadecimal form.
    pub open spec fn keys_match(self) -> bool {
        &&& self.verifying_key == ed25519_public_of(self.signing_key)
        &&& self.verifying_key.len() == 32
        &&& ed25519_key_valid(self.verifying_key)
        &&& self.public_key == spec_hex_encode(self.verifying_key)
    }
}

/// The identifier of a node: the hash of `node:{name}:{public key}`.
pub open spec fn spec_node_id(name: Seq<char>, public_key: Seq<char>) -> Seq<char> {
    text_hash("node:"@ + name + ":"@ + public_key)
}

impl NodeIdentity {
    /// A new identity with fresh random keys, created now.
    pub fn generate(name: &str) -> (id: Self)
        ensures
            id@.keys_match(),
            id@.signing_key.len() == 32,
            id@.node_id == spec_node_id(name@, id@.public_key),
            utc_timestamp_parses(id@.created_at),
            id@.encryption_keypair.wf(),
            id@.ml_kem_keypair.spec_seed().len() == 64,
            id@.ml_kem_keypair.spec_ek() == ml_kem_768_ek_of(id@.ml_kem_keypair.spec_seed()),
    {
        let secret = generate_handshake_nonce();
        let verifying = ed25519_public(&secret);
        let public_key = hex_encode(verifying.as_slice());
        let timestamp = now_rfc3339();
        let mut id_input = String::new();
        push_str(&mut id_input, "node:");
        push_str(&mut id_input, name);
        push_str(&mut id_input, ":");
        push_str(&mut id_input, public_key.as_str());
        proof {
            reveal_strlit("node:");
            reveal_strlit(":");
        }
        let node_id = canonical_hash(id_input.as_str());
        let encryption_keypair = KeyPair::generate();
        let ml_kem_keypair = MlKemKeyPair::generate();
        NodeIdentity {
            node_id,
            public_key,
            created_at: timestamp,
            signing_key: secret,
            verifying_key: verifying,
            encryption_keypair,
            ml_kem_keypair,
        }
    }

    /// Signs the bytes of `data` with the Ed25519 key. When the public key
    /// text belongs to the key, the signature checks out under it.
    pub fn sign(&self, data: &str) -> (s: Vec<u8>)
        ensures
            s@ == ed25519_signature_of(self@.signing_key, data.spec_bytes()),
            s@.len() == 64,
            self@.keys_match() ==> spec_verify_signature(vstd::utf8::encode_utf8(self@.public_key), data.spec_bytes(), s@)
                == Ok::<bool, SignatureCheckError>(true),
    {
        let sig = ed25519_sign(&self.signing_key, data.as_bytes());
        let mut v: Vec<u8> = Vec::new();
        push_bytes(&mut v, sig.as_slice());
        proof {
            assert(v@ =~= sig@);
            lemma_hex_roundtrip(self.verifying_key@);
        }
        v
    }
}

/// The stored form of an identity: the keys in plain bytes, or, under a
/// passphrase, encrypted (and the plain fields empty).
#[derive(Debug, Clone)]
pub struct SavedIdentity {
    pub node_id: String,
    pub public_key: String,
    pub created_at: String,
    pub secret_key_bytes: Vec<u8>,
    pub encryption_secret_bytes: Vec<u8>,
    pub encryption_public_bytes: Vec<u8>,
    pub ml_kem_encapsulation_key_bytes: Vec<u8>,
    pub ml_kem_decapsulation_key_bytes: Vec<u8>,
    pub encrypted_secret_key: Option<Vec<u8>>,
    pub encrypted_encryption_key: Option<Vec<u8>>,
    pub ml_kem_encapsulation_key: Option<Vec<u8>>,
    pub ml_kem_decapsulation_key: Option<Vec<u8>>,
}

/// The bytes of an optional byte vector.
pub open spec fn opt_bytes(o: Option<Vec<u8>>) -> Option<Seq<u8>> {
    match o {
        Some(v) => Some(v@),
        None => None,
    }
}

/// Why a stored identity could not be loaded, as an I/O error kind and its
/// message.
#[derive(Debug, Clone, PartialEq, Eq)]
pub enum IdentityError {
    InvalidInput(String),
    InvalidData(String),
}

/// Mathematical view of an identity error.
pub enum IdentityErrorV {
    InvalidInput(Seq<char>),
    InvalidData(Seq<char>),
}

impl View for IdentityError {
    type V = IdentityErrorV;

    open spec fn view(&self) -> IdentityErrorV {
        match self {
            IdentityError::InvalidInput(m) => IdentityErrorV::InvalidInput(m@),
            IdentityError::InvalidData(m) => IdentityErrorV::InvalidData(m@),
        }
    }
}

/// A key field as stored: decrypted with the passphrase when encrypted (one
/// must be given), else the plain bytes.
pub open spec fn stored_key(encrypted: Option<Seq<u8>>, plain: Seq<u8>, passphrase: Option<Seq<u8>>, missing: Seq<char>) -> Result<Seq<u8>, IdentityErrorV> {
    match encrypted {
        Some(e) => match passphrase {
            None => Err(IdentityErrorV::InvalidInput(missing)),
            Some(p) => match spec_decrypt_with_passphrase(e, p) {
                Ok(b) => Ok(b),
                Err(m) => Err(IdentityErrorV::InvalidData(m)),
            },
        },
        None => Ok(plain),
    }
}

/// The keys a stored identity gives under a passphrase, in the order they are
/// read: the signing key, the encryption secret (`None`: a fresh one is
/// generated), and the ML-KEM encapsulation key and seed.
pub open spec fn spec_load_keys(s: SavedIdentity, passphrase: Option<Seq<u8>>) -> Result<(Seq<u8>, Option<Seq<u8>>, Seq<u8>, Seq<u8>), IdentityErrorV> {
    let signing = match stored_key(opt_bytes(s.encrypted_secret_key), s.secret_key_bytes@, passphrase,
        "Passphrase required to decrypt identity"@) {
        Ok(b) => if b.len() != 32 {
            Err(IdentityErrorV::InvalidData(if s.encrypted_secret_key is Some {
                "invalid key length after decrypt"@ } else { "invalid key length"@ }))
        } else {
            Ok(b)
        },
        Err(e) => Err(e),
    };
    let encryption = if s.encrypted_encryption_key is Some || s.encryption_secret_bytes@.len() != 0 {
        match stored_key(opt_bytes(s.encrypted_encryption_key), s.encryption_secret_bytes@, passphrase,
            "Passphrase required to decrypt encryption key"@) {
            Ok(b) => if b.len() != 32 {
                Err(IdentityErrorV::InvalidData(if s.encrypted_encryption_key is Some {
                    "invalid encryption key after decrypt"@ } else { "invalid encryption key"@ }))
            } else {
                Ok(Some(b))
            },
            Err(e) => Err(e),
        }
    } else {
        Ok(None)
    };
    let ek = stored_key(opt_bytes(s.ml_kem_encapsulation_key), s.ml_kem_encapsulation_key_bytes@, passphrase,
        "Passphrase required to decrypt ML-KEM key"@);
    let dk = stored_key(opt_bytes(s.ml_kem_decapsulation_key), s.ml_kem_decapsulation_key_bytes@, passphrase,
        "Passphrase required to decrypt ML-KEM key"@);
    match signing {
        Err(e) => Err(e),
        Ok(sk) => match encryption {
            Err(e) => Err(e),
            Ok(enc) => match ek {
                Err(e) => Err(e),
                Ok(ekb) => match dk {
                    Err(e) => Err(e),
                    Ok(dkb) => if dkb.len() != 64 {
                        Err(IdentityErrorV::InvalidData("Invalid decapsulation key seed length"@))
                    } else {
                        Ok((sk, enc, ekb, dkb))
                    },
                },
            },
        },
    }
}

fn read_stored_key(encrypted: &Option<Vec<u8>>, plain: &Vec<u8>, passphrase: Option<&[u8]>, missing: &str) -> (r: Result<Vec<u8>, IdentityError>)
    ensures
        match (r, stored_key(opt_bytes(*encrypted), plain@, match passphrase { Some(p) => Some(p@), None => None }, missing@)) {
            (Ok(x), Ok(b)) => x@ == b,
            (Err(e), Err(f)) => e@ == f,
            _ => false,
        },
{
    match encrypted {
        Some(e) => match passphrase {
            None => Err(IdentityError::InvalidInput(to_string(missing))),
            Some(p) => match decrypt_with_passphrase(e.as_slice(), p) {
                Ok(b) => Ok(b),
                Err(m) => Err(IdentityError::InvalidData(m)),
            },
        },
        None => {
            let mut v: Vec<u8> = Vec::new();
            push_bytes(&mut v, plain.as_slice());
            Ok(v)
        },
    }
}

fn invalid_data(m: &str) -> (e: IdentityError)
    ensures
        e@ == IdentityErrorV::InvalidData(m@),
{
    IdentityError::InvalidData(to_string(m))
}

fn copy_bytes(v: &[u8]) -> (r: Vec<u8>)
    ensures
        r@ == v@,
{
    let mut r: Vec<u8> = Vec::new();
    push_bytes(&mut r, v);
    r
}

impl NodeIdentity {
    /// Loads a stored identity (see `spec_load_keys`); encrypted keys need
    /// the passphrase they were saved under. The identifier, public key text
    /// and creation time are taken as stored.
    pub fn from_saved(saved: &SavedIdentity, passphrase: Option<&[u8]>) -> (r: Result<Self, IdentityError>)
        ensures
            match (r, spec_load_keys(*saved, match passphrase { Some(p) => Some(p@), None => None })) {
                (Ok(id), Ok((sk, enc, ek, dk))) => {
                    &&& id@.node_id == saved.node_id@
                    &&& id@.public_key == saved.public_key@
                    &&& id@.created_at == saved.created_at@
                    &&& id@.signing_key == sk
                    &&& id@.verifying_key == ed25519_public_of(sk)
                    &&& ed25519_key_valid(id@.verifying_key)
                    &&& id@.encryption_keypair.wf()
                    &&& (enc matches Some(e) ==> id@.encryption_keypair.spec_secret() == e)
                    &&& id@.ml_kem_keypair.spec_ek() == ek
                    &&& id@.ml_kem_keypair.spec_seed() == dk
                },
                (Err(e), Err(f)) => e@ == f,
                _ => false,
            },
    {
        proof {
            reveal_strlit("Passphrase required to decrypt identity");
            reveal_strlit("Passphrase required to decrypt encryption key");
            reveal_strlit("Passphrase required to decrypt ML-KEM key");
        }
        let sk = read_stored_key(&saved.encrypted_secret_key, &saved.secret_key_bytes, passphrase,
            "Passphrase required to decrypt identity")?;
        if sk.len() != 32 {
            let m = if saved.encrypted_secret_key.is_some() { "invalid key length after decrypt" } else { "invalid key length" };
            return Err(invalid_data(m));
        }
        let signing_key = array32(sk.as_slice());
        let encryption_keypair = if saved.encrypted_encryption_key.is_some() || saved.encryption_secret_bytes.len() != 0 {
            let eb = read_stored_key(&saved.encrypted_encryption_key, &saved.encryption_secret_bytes, passphrase,
                "Passphrase required to decrypt encryption key")?;
            if eb.len() != 32 {
                let m = if saved.encrypted_encryption_key.is_some() { "invalid encryption key after decrypt" } else { "invalid encryption key" };
                return Err(invalid_data(m));
            }
            KeyPair::from_secret(array32(eb.as_slice()))
        } else {
            KeyPair::generate()
        };
        let ek = read_stored_key(&saved.ml_kem_encapsulation_key, &saved.ml_kem_encapsulation_key_bytes, passphrase,
            "Passphrase required to decrypt ML-KEM key")?;
        let dk = read_stored_key(&saved.ml_kem_decapsulation_key, &saved.ml_kem_decapsulation_key_bytes, passphrase,
            "Passphrase required to decrypt ML-KEM key")?;
        let ml_kem_keypair = match MlKemKeyPair::from_bytes(ek.as_slice(), dk.as_slice()) {
            Ok(k) => k,
            Err(m) => return Err(IdentityError::InvalidData(m)),
        };
        let verifying_key = ed25519_public(&signing_key);
        Ok(NodeIdentity {
            node_id: saved.node_id.clone(),
            public_key: saved.public_key.clone(),
            created_at: saved.created_at.clone(),
            signing_key,
            verifying_key,
            encryption_keypair,
            ml_kem_keypair,
        })
    }

    /// The stored form of the identity: under a passphrase every secret is
    /// encrypted with it (and the plain fields stay empty), else the secrets
    /// are kept in plain bytes.
    pub fn to_saved(&self, passphrase: Option<&[u8]>) -> (r: Result<SavedIdentity, String>)
        ensures
            r matches Ok(s) ==> {
                &&& s.node_id@ == self@.node_id
                &&& s.public_key@ == self@.public_key
                &&& s.created_at@ == self@.created_at
                &&& s.encryption_public_bytes@ == self@.encryption_keypair.spec_public()
            },
            passphrase is None ==> (r matches Ok(s) && {
                &&& s.secret_key_bytes@ == self@.signing_key
                &&& s.encryption_secret_bytes@ == self@.encryption_keypair.spec_secret()
                &&& s.ml_kem_encapsulation_key_bytes@ == self@.ml_kem_keypair.spec_ek()
                &&& s.ml_kem_decapsulation_key_bytes@ == self@.ml_kem_keypair.spec_seed()
                &&& s.encrypted_secret_key is None
                &&& s.encrypted_encryption_key is None
                &&& s.ml_kem_encapsulation_key is None
                &&& s.ml_kem_decapsulation_key is None
            }),
            passphrase is Some ==> (r is Ok <==> {
                &&& self@.signing_key.len() <= crate::network::crypto_key::AES_GCM_MAX_PLAINTEXT
                &&& self@.encryption_keypair.spec_secret().len() <= crate::network::crypto_key::AES_GCM_MAX_PLAINTEXT
                &&& self@.ml_kem_keypair.spec_ek().len() <= crate::network::crypto_key::AES_GCM_MAX_PLAINTEXT
                &&& self@.ml_kem_keypair.spec_seed().len() <= crate::network::crypto_key::AES_GCM_MAX_PLAINTEXT
            }),
            passphrase is Some ==> (r matches Err(m) ==> m@ == "Encryption error: aead::Error"@),
            passphrase matches Some(p) ==> (r matches Ok(s) ==> {
                &&& s.secret_key_bytes@.len() == 0
                &&& s.encryption_secret_bytes@.len() == 0
                &&& s.ml_kem_encapsulation_key_bytes@.len() == 0
                &&& s.ml_kem_decapsulation_key_bytes@.len() == 0
                &&& (s.encrypted_secret_key matches Some(e) && protected_with(p@, e@.subrange(0, 16), e@.subrange(16, 28), self@.signing_key) == Some(e@))
                &&& (s.encrypted_encryption_key matches Some(e) && protected_with(p@, e@.subrange(0, 16), e@.subrange(16, 28), self@.encryption_keypair.spec_secret()) == Some(e@))
                &&& (s.ml_kem_encapsulation_key matches Some(e) && protected_with(p@, e@.subrange(0, 16), e@.subrange(16, 28), self@.ml_kem_keypair.spec_ek()) == Some(e@))
                &&& (s.ml_kem_decapsulation_key matches Some(e) && protected_with(p@, e@.subrange(0, 16), e@.subrange(16, 28), self@.ml_kem_keypair.spec_seed()) == Some(e@))
            }),
    {
        let enc_public = self.encryption_keypair.public_bytes();
        match passphrase {
            Some(pass) => {
                let secret_encrypted = encrypt_with_passphrase(self.signing_key.as_slice(), pass)?;
                let enc_secret = self.encryption_keypair.secret_bytes();
                let enc_key_encrypted = encrypt_with_passphrase(enc_secret.as_slice(), pass)?;
                let ek_encrypted = encrypt_with_passphrase(self.ml_kem_keypair.encapsulation_key_bytes(), pass)?;
                let dk_encrypted = encrypt_with_passphrase(self.ml_kem_keypair.decapsulation_key_seed_bytes(), pass)?;
                Ok(SavedIdentity {
                    node_id: self.node_id.clone(),
                    public_key: self.public_key.clone(),
                    created_at: self.created_at.clone(),
                    secret_key_bytes: Vec::new(),
                    encryption_secret_bytes: Vec::new(),
                    encryption_public_bytes: copy_bytes(enc_public.as_slice()),
                    ml_kem_encapsulation_key_bytes: Vec::new(),
                    ml_kem_decapsulation_key_bytes: Vec::new(),
                    encrypted_secret_key: Some(secret_encrypted),
                    encrypted_encryption_key: Some(enc_key_encrypted),
                    ml_kem_encapsulation_key: Some(ek_encrypted),
                    ml_kem_decapsulation_key: Some(dk_encrypted),
                })
            },
            None => {
                let enc_secret = self.encryption_keypair.secret_bytes();
                Ok(SavedIdentity {
                    node_id: self.node_id.clone(),
                    public_key: self.public_key.clone(),
                    created_at: self.created_at.clone(),
                    secret_key_bytes: copy_bytes(self.signing_key.as_slice()),
                    encryption_secret_bytes: copy_bytes(enc_secret.as_slice()),
                    encryption_public_bytes: copy_bytes(enc_public.as_slice()),
                    ml_kem_encapsulation_key_bytes: copy_bytes(self.ml_kem_keypair.encapsulation_key_bytes()),
                    ml_kem_decapsulation_key_bytes: copy_bytes(self.ml_kem_keypair.decapsulation_key_seed_bytes()),
                    encrypted_secret_key: None,
                    encrypted_encryption_key: None,
                    ml_kem_encapsulation_key: None,
                    ml_kem_decapsulation_key: None,
                })
            },
        }
    }

    /// The identifier of the node.
    pub fn node_id(&self) -> (r: &String)
        ensures
            r@ == self@.node_id,
    {
        &self.node_id
    }

    /// The public key, in hexadecimal.
    pub fn public_key(&self) -> (r: &String)
        ensures
            r@ == self@.public_key,
    {
        &self.public_key
    }

    /// The X25519 key pair.
    pub fn encryption_keypair(&self) -> (r: &KeyPair)
        ensures
            *r == self@.encryption_keypair,
    {
        &self.encryption_keypair
    }

    /// The ML-KEM-768 key pair.
    pub fn ml_kem_keypair(&self) -> (r: &MlKemKeyPair)
        ensures
            *r == self@.ml_kem_keypair,
    {
        &self.ml_kem_keypair
    }

    /// The Ed25519 public key.
    pub fn verifying_key(&self) -> (k: [u8; 32])
        ensures
            k@ == self@.verifying_key,
    {
        self.verifying_key
    }
}

/// Saving an identity without a passphrase and loading it back gives its
/// keys back: the stored plain fields load as they are.
pub proof fn law_plain_saved_identity_loads_back(s: SavedIdentity, signing: Seq<u8>, enc_secret: Seq<u8>, ek: Seq<u8>, seed: Seq<u8>)
    requires
        s.secret_key_bytes@ == signing,
        s.encryption_secret_bytes@ == enc_secret,
        s.ml_kem_encapsulation_key_bytes@ == ek,
        s.ml_kem_decapsulation_key_bytes@ == seed,
        s.encrypted_secret_key is None,
        s.encrypted_encryption_key is None,
        s.ml_kem_encapsulation_key is None,
        s.ml_kem_decapsulation_key is None,
        signing.len() == 32,
        enc_secret.len() == 32,
        seed.len() == 64,
    ensures
        spec_load_keys(s, None) == Ok::<(Seq<u8>, Option<Seq<u8>>, Seq<u8>, Seq<u8>), IdentityErrorV>((signing, Some(enc_secret), ek, seed)),
{
}

} // verus!
