//! Key material of a node: X25519 key pairs and the cipher key derived from a
//! Diffie-Hellman exchange, ML-KEM-768 key pairs, the hybrid session key, and
//! sealing data under a fresh random nonce.

use vstd::prelude::*;
use vstd::string::StringSliceAdditionalSpecFns;
use crate::bytes::push_bytes;
use crate::network::secure_transport::{
    aead_open, aead_seal, chacha_accepts, chacha20poly1305_open, chacha20poly1305_seal, generate_handshake_nonce, generate_nonce,
};
use crate::text::push_str;
use ml_kem::kem::{Decapsulate, Decapsulator, Encapsulate, KeyExport};

verus! {

/// The X25519 public key of a secret (the secret times the base point).
pub uninterp spec fn x25519_public_of(secret: Seq<u8>) -> Seq<u8>;

/// The X25519 shared secret of a secret and a peer's public key.
pub uninterp spec fn x25519_shared_of(secret: Seq<u8>, peer_public: Seq<u8>) -> Seq<u8>;

/// The 32-byte output of HKDF-SHA256 for a salt (none: the zero salt), input
/// keying material and context information.
pub uninterp spec fn hkdf_sha256_32_of(salt: Option<Seq<u8>>, ikm: Seq<u8>, info: Seq<u8>) -> Seq<u8>;

/// The ML-KEM-768 encapsulation key of a 64-byte seed.
pub uninterp spec fn ml_kem_768_ek_of(seed: Seq<u8>) -> Seq<u8>;

/// The ML-KEM-768 shared key that decapsulating a ciphertext with the key of a
/// seed gives.
pub uninterp spec fn ml_kem_768_decaps_of(seed: Seq<u8>, ciphertext: Seq<u8>) -> Seq<u8>;

/// `PublicKey::from(&StaticSecret::from(secret)).to_bytes()`.
/// Trusted: the result is the named public key of the secret.
#[verifier::external_body]
pub(crate) fn x25519_public(secret: &[u8; 32]) -> (p: [u8; 32])
    ensures
        p@ == x25519_public_of(secret@),
{
    x25519_dalek::PublicKey::from(&x25519_dalek::StaticSecret::from(*secret)).to_bytes()
}

/// `StaticSecret::from(secret).diffie_hellman(&PublicKey::from(peer))`.
/// Trusted: the result is the named shared secret.
#[verifier::external_body]
pub(crate) fn x25519_dh(secret: &[u8; 32], peer_public: &[u8; 32]) -> (s: [u8; 32])
    ensures
        s@ == x25519_shared_of(secret@, peer_public@),
{
    *x25519_dalek::StaticSecret::from(*secret).diffie_hellman(&x25519_dalek::PublicKey::from(*peer_public)).as_bytes()
}

/// `Hkdf::<Sha256>::new(salt, ikm).expand(info, &mut [0u8; 32])`.
/// Trusted: the result is the named output; expanding 32 bytes (at most
/// 255 hash lengths) never fails.
#[verifier::external_body]
fn hkdf_sha256_32(salt: Option<&[u8]>, ikm: &[u8], info: &[u8]) -> (okm: [u8; 32])
    ensures
        okm@ == hkdf_sha256_32_of(
            match salt {
                Some(s) => Some(s@),
                None => None,
            },
            ikm@,
            info@,
        ),
{
    let mut okm = [0u8; 32];
    let _ = hkdf::Hkdf::<sha2::Sha256>::new(salt, ikm).expand(info, &mut okm);
    okm
}

/// The encapsulation key of `DecapsulationKey::<MlKem768>::from_seed(seed)`.
/// Trusted: the result is the named key of the seed; ML-KEM-768 encapsulation
/// keys have 1184 bytes (FIPS 203).
#[verifier::external_body]
fn ml_kem_ek_from_seed(seed: &[u8; 64]) -> (ek: Vec<u8>)
    ensures
        ek@ == ml_kem_768_ek_of(seed@),
        ek@.len() == 1184,
{
    let dk = ml_kem::DecapsulationKey::<ml_kem::MlKem768>::from_seed((*seed).into());
    dk.encapsulation_key().to_bytes().to_vec()
}

/// `encapsulate()` with the encapsulation key of the seed's decapsulation key:
/// a fresh random ciphertext and shared key.
/// Trusted: ML-KEM-768 ciphertexts have 1088 bytes; the values are random.
#[verifier::external_body]
fn ml_kem_encapsulate(seed: &[u8; 64]) -> (r: (Vec<u8>, [u8; 32]))
    ensures
        r.0@.len() == 1088,
{
    let dk = ml_kem::DecapsulationKey::<ml_kem::MlKem768>::from_seed((*seed).into());
    let (ct, shared) = dk.encapsulation_key().encapsulate();
    (ct.to_vec(), shared.into())
}

/// The bytes are an encoded ML-KEM-768 encapsulation key that the crate
/// accepts: they convert to its key array (1184 bytes) and
/// `EncapsulationKey::<MlKem768>::new` accepts them (it checks the encoded
/// coefficients).
pub uninterp spec fn ml_kem_768_ek_valid(ek: Seq<u8>) -> bool;

/// `encapsulate()` with the encapsulation key encoded by `ek`: a fresh random
/// ciphertext and shared key.
/// Trusted: the key is used exactly when the crate accepts it (named), which
/// needs 1184 bytes; ML-KEM-768 ciphertexts have 1088 bytes; the values are
/// random.
#[verifier::external_body]
pub(crate) fn ml_kem_encapsulate_to(ek: &[u8]) -> (r: Option<(Vec<u8>, [u8; 32])>)
    ensures
        r is Some <==> ml_kem_768_ek_valid(ek@),
        r is Some ==> ek@.len() == 1184,
        r matches Some(p) ==> p.0@.len() == 1088,
{
    let key = ml_kem::Key::<ml_kem::EncapsulationKey768>::try_from(ek).ok()?;
    let encap = ml_kem::EncapsulationKey768::new(&key).ok()?;
    let (ct, shared) = encap.encapsulate();
    Some((ct.to_vec(), shared.into()))
}

/// `decapsulate` of a 1088-byte ciphertext with the seed's decapsulation key.
/// Trusted: the result is the named shared key.
#[verifier::external_body]
fn ml_kem_decapsulate(seed: &[u8; 64], ciphertext: &[u8]) -> (k: [u8; 32])
    requires
        ciphertext@.len() == 1088,
    ensures
        k@ == ml_kem_768_decaps_of(seed@, ciphertext@),
{
    let dk = ml_kem::DecapsulationKey::<ml_kem::MlKem768>::from_seed((*seed).into());
    let ct = ml_kem::Ciphertext::<ml_kem::MlKem768>::try_from(ciphertext).unwrap();
    dk.decapsulate(&ct).into()
}

/// An X25519 key pair.
#[derive(Debug, Clone, Copy)]
pub struct KeyPair {
    pub public_key: [u8; 32],
    secret: [u8; 32],
}

impl KeyPair {
    /// The secret key.
    pub closed spec fn spec_secret(self) -> Seq<u8> {
        self.secret@
    }

    /// The public key.
    pub closed spec fn spec_public(self) -> Seq<u8> {
        self.public_key@
    }

    /// The public key belongs to the secret.
    pub open spec fn wf(self) -> bool {
        self.spec_public() == x25519_public_of(self.spec_secret())
    }

    /// A key pair with a fresh random secret.
    pub fn generate() -> (k: Self)
        ensures
            k.wf(),
    {
        KeyPair::from_secret(generate_handshake_nonce())
    }

    /// The key pair of a given secret (to load one from storage).
    pub fn from_secret(secret_bytes: [u8; 32]) -> (k: Self)
        ensures
            k.wf(),
            k.spec_secret() == secret_bytes@,
    {
        let public_key = x25519_public(&secret_bytes);
        KeyPair { public_key, secret: secret_bytes }
    }

    /// The public key.
    pub fn public_bytes(&self) -> (p: [u8; 32])
        ensures
            p@ == self.spec_public(),
    {
        self.public_key
    }

    /// The secret key (to store it).
    pub fn secret_bytes(&self) -> (s: [u8; 32])
        ensures
            s@ == self.spec_secret(),
    {
        self.secret
    }

    /// The X25519 shared secret with a peer.
    pub fn diffie_hellman(&self, peer_public_bytes: &[u8; 32]) -> (s: [u8; 32])
        ensures
            s@ == x25519_shared_of(self.spec_secret(), peer_public_bytes@),
    {
        x25519_dh(&self.secret, peer_public_bytes)
    }

    /// The ChaCha20-Poly1305 key shared with a peer: HKDF-SHA256 of the
    /// shared secret, without salt, for `nexoia-epa-encryption`.
    pub fn derive_cipher(&self, peer_public_bytes: &[u8; 32]) -> (r: Result<[u8; 32], String>)
        ensures
            r matches Ok(k) && k@ == hkdf_sha256_32_of(
                None,
                x25519_shared_of(self.spec_secret(), peer_public_bytes@),
                vstd::utf8::encode_utf8("nexoia-epa-encryption"@),
            ),
    {
        let shared = self.diffie_hellman(peer_public_bytes);
        Ok(hkdf_sha256_32(None, &shared, "nexoia-epa-encryption".as_bytes()))
    }
}


/// Size of an ML-KEM-768 ciphertext in bytes (FIPS 203).
pub const ML_KEM_768_CT_SIZE: usize = 1088;

/// Size of an ML-KEM seed in bytes.
pub const ML_KEM_SEED_SIZE: usize = 64;

/// An ML-KEM-768 key pair, kept as its encapsulation key and the 64-byte seed
/// of its decapsulation key.
#[derive(Debug, Clone)]
pub struct MlKemKeyPair {
    /// Public encapsulation key.
    pub encapsulation_key: Vec<u8>,
    decapsulation_key_seed: Vec<u8>,
}

fn seed_array(v: &[u8]) -> (a: [u8; 64])
    requires
        v@.len() == 64,
    ensures
        a@ == v@,
{
    let mut a = [0u8; 64];
    let mut i: usize = 0;
    while i < 64
        invariant
            i <= 64,
            v@.len() == 64,
            forall|k: int| 0 <= k < i ==> a@[k] == v@[k],
        decreases 64 - i,
    {
        a[i] = v[i];
        i += 1;
    }
    assert(a@ =~= v@);
    a
}

impl MlKemKeyPair {
    /// The seed of the decapsulation key.
    pub closed spec fn spec_seed(self) -> Seq<u8> {
        self.decapsulation_key_seed@
    }

    /// The encapsulation key.
    pub closed spec fn spec_ek(self) -> Seq<u8> {
        self.encapsulation_key@
    }

    /// A key pair from a fresh random seed.
    pub fn generate() -> (k: Self)
        ensures
            k.spec_seed().len() == 64,
            k.spec_ek() == ml_kem_768_ek_of(k.spec_seed()),
    {
        let a = generate_handshake_nonce();
        let b = generate_handshake_nonce();
        let mut seed = [0u8; 64];
        let mut i: usize = 0;
        while i < 32
            invariant
                i <= 32,
                forall|k: int| 0 <= k < i ==> seed@[k] == a@[k] && seed@[k + 32] == b@[k],
            decreases 32 - i,
        {
            seed[i] = a[i];
            seed[i + 32] = b[i];
            i += 1;
        }
        let ek = ml_kem_ek_from_seed(&seed);
        let mut s: Vec<u8> = Vec::new();
        push_bytes(&mut s, seed.as_slice());
        MlKemKeyPair { encapsulation_key: ek, decapsulation_key_seed: s }
    }

    /// Rebuilds a key pair from stored bytes: the seed must have 64 bytes.
    pub fn from_bytes(encapsulation_key: &[u8], decapsulation_key_seed: &[u8]) -> (r: Result<Self, String>)
        ensures
            decapsulation_key_seed@.len() == 64 <==> r is Ok,
            r matches Ok(k) ==> k.spec_ek() == encapsulation_key@ && k.spec_seed() == decapsulation_key_seed@,
            r matches Err(m) ==> m@ == "Invalid decapsulation key seed length"@,
    {
        if decapsulation_key_seed.len() != ML_KEM_SEED_SIZE {
            let mut m = String::new();
            push_str(&mut m, "Invalid decapsulation key seed length");
            return Err(m);
        }
        let mut ek: Vec<u8> = Vec::new();
        push_bytes(&mut ek, encapsulation_key);
        let mut seed: Vec<u8> = Vec::new();
        push_bytes(&mut seed, decapsulation_key_seed);
        Ok(MlKemKeyPair { encapsulation_key: ek, decapsulation_key_seed: seed })
    }

    /// A fresh ciphertext and shared key for the encapsulation key of this
    /// pair's seed; fails when the stored seed does not have 64 bytes.
    pub fn encapsulate(&self) -> (r: Result<(Vec<u8>, [u8; 32]), String>)
        ensures
            self.spec_seed().len() == 64 <==> r is Ok,
            r matches Ok(p) ==> p.0@.len() == ML_KEM_768_CT_SIZE,
            r matches Err(m) ==> m@ == "Invalid decapsulation key seed"@,
    {
        if self.decapsulation_key_seed.len() != ML_KEM_SEED_SIZE {
            let mut m = String::new();
            push_str(&mut m, "Invalid decapsulation key seed");
            return Err(m);
        }
        let seed = seed_array(self.decapsulation_key_seed.as_slice());
        Ok(ml_kem_encapsulate(&seed))
    }

    /// The shared key a ciphertext carries: fails when the stored seed does
    /// not have 64 bytes, or the ciphertext does not have 1088.
    pub fn decapsulate(&self, ciphertext: &[u8]) -> (r: Result<[u8; 32], String>)
        ensures
            self.spec_seed().len() == 64 && ciphertext@.len() == 1088 <==> r is Ok,
            r matches Ok(k) ==> k@ == ml_kem_768_decaps_of(self.spec_seed(), ciphertext@),
            self.spec_seed().len() != 64 ==> (r matches Err(m) && m@ == "Invalid decapsulation key seed"@),
            self.spec_seed().len() == 64 && ciphertext@.len() != 1088
                ==> (r matches Err(m) && m@ == "Invalid ciphertext: TryFromSliceError(())"@),
    {
        if self.decapsulation_key_seed.len() != ML_KEM_SEED_SIZE {
            let mut m = String::new();
            push_str(&mut m, "Invalid decapsulation key seed");
            return Err(m);
        }
        if ciphertext.len() != ML_KEM_768_CT_SIZE {
            let mut m = String::new();
            push_str(&mut m, "Invalid ciphertext: TryFromSliceError(())");
            return Err(m);
        }
        let seed = seed_array(self.decapsulation_key_seed.as_slice());
        Ok(ml_kem_decapsulate(&seed, ciphertext))
    }

    /// Size of a ciphertext.
    pub fn ciphertext_size() -> (n: usize)
        ensures
            n == ML_KEM_768_CT_SIZE,
    {
        ML_KEM_768_CT_SIZE
    }

    /// The encapsulation key.
    pub fn encapsulation_key_bytes(&self) -> (s: &[u8])
        ensures
            s@ == self.spec_ek(),
    {
        self.encapsulation_key.as_slice()
    }

    /// The seed of the decapsulation key (to store it).
    pub fn decapsulation_key_seed_bytes(&self) -> (s: &[u8])
        ensures
            s@ == self.spec_seed(),
    {
        self.decapsulation_key_seed.as_slice()
    }
}

/// The input keying material of the hybrid session key: both shared secrets,
/// then both nonces.
pub open spec fn hybrid_ikm(x: Seq<u8>, m: Seq<u8>, nl: Seq<u8>, nr: Seq<u8>) -> Seq<u8> {
    x + m + nl + nr
}



/// The session key of a hybrid handshake: HKDF-SHA256 over both shared
/// secrets and both nonces, salted with `nexoia-hybrid-session-v1`, for
/// `session-key`. A break of either exchange alone does not reveal it.
pub fn derive_hybrid_session_key(
    x25519_shared: &[u8; 32],
    ml_kem_shared: &[u8; 32],
    nonce_local: &[u8; 32],
    nonce_remote: &[u8; 32],
) -> (key: [u8; 32])
    ensures
        key@ == hkdf_sha256_32_of(
            Some(vstd::utf8::encode_utf8("nexoia-hybrid-session-v1"@)),
            hybrid_ikm(x25519_shared@, ml_kem_shared@, nonce_local@, nonce_remote@),
            vstd::utf8::encode_utf8("session-key"@),
        ),
{
    let mut ikm: Vec<u8> = Vec::new();
    push_bytes(&mut ikm, x25519_shared.as_slice());
    push_bytes(&mut ikm, ml_kem_shared.as_slice());
    push_bytes(&mut ikm, nonce_local.as_slice());
    push_bytes(&mut ikm, nonce_remote.as_slice());
    hkdf_sha256_32(Some("nexoia-hybrid-session-v1".as_bytes()), ikm.as_slice(), "session-key".as_bytes())
}

/// The sealed form of `data`: the nonce, then the ChaCha20-Poly1305 sealing.
pub open spec fn sealed_with(key: Seq<u8>, nonce: Seq<u8>, data: Seq<u8>) -> Option<Seq<u8>> {
    match chacha20poly1305_seal(key, nonce, data) {
        Some(c) => Some(nonce + c),
        None => None,
    }
}

/// Seals `data` under `key` with a fresh random nonce; the output is the
/// nonce (12 bytes) followed by the ciphertext and tag.
pub fn encrypt(data: &[u8], key: &[u8; 32]) -> (r: Result<Vec<u8>, String>)
    ensures
        r matches Ok(out) ==> out@.len() == data@.len() + 28
            && sealed_with(key@, out@.subrange(0, 12), data@) == Some(out@),
        r matches Err(m) ==> m@ == "Encryption error: aead::Error"@,
        r is Ok <==> chacha_accepts(data@.len()),
{
    let nonce = generate_nonce();
    match aead_seal(key, &nonce, data) {
        Ok(c) => {
            let mut out: Vec<u8> = Vec::new();
            push_bytes(&mut out, nonce.as_slice());
            push_bytes(&mut out, c.as_slice());
            assert(out@.subrange(0, 12) =~= nonce@);
            assert(out@ =~= nonce@ + c@);
            Ok(out)
        },
        Err(_) => {
            let mut m = String::new();
            push_str(&mut m, "Encryption error: aead::Error");
            Err(m)
        },
    }
}

/// Opens what `encrypt` produced: the first 12 bytes are the nonce.
pub fn decrypt(encrypted: &[u8], key: &[u8; 32]) -> (r: Result<Vec<u8>, String>)
    ensures
        encrypted@.len() < 12 ==> (r matches Err(m) && m@ == "Encrypted data too short"@),
        encrypted@.len() >= 12 ==> match chacha20poly1305_open(key@, encrypted@.subrange(0, 12), encrypted@.subrange(12, encrypted@.len() as int)) {
            Some(p) => r matches Ok(x) && x@ == p,
            None => r matches Err(m) && m@ == "Decryption error: aead::Error"@,
        },
        forall|n: Seq<u8>, p: Seq<u8>| #[trigger] sealed_with(key@, n, p) == Some(encrypted@) && n.len() == 12
            ==> (r matches Ok(x) && x@ == p),
{
    if encrypted.len() < 12 {
        let mut m = String::new();
        push_str(&mut m, "Encrypted data too short");
        return Err(m);
    }
    let mut nonce = [0u8; 12];
    let mut i: usize = 0;
    while i < 12
        invariant
            i <= 12,
            encrypted@.len() >= 12,
            forall|k: int| 0 <= k < i ==> nonce@[k] == encrypted@[k],
        decreases 12 - i,
    {
        nonce[i] = encrypted[i];
        i += 1;
    }
    assert(nonce@ =~= encrypted@.subrange(0, 12));
    let ghost ct_view = encrypted@.subrange(12, encrypted@.len() as int);
    let mut ct: Vec<u8> = Vec::new();
    let mut j: usize = 12;
    while j < encrypted.len()
        invariant
            12 <= j <= encrypted@.len(),
            ct@ =~= encrypted@.subrange(12, j as int),
        decreases encrypted@.len() - j,
    {
        ct.push(encrypted[j]);
        j += 1;
    }
    proof {
        assert forall|n: Seq<u8>, p: Seq<u8>| #[trigger] sealed_with(key@, n, p) == Some(encrypted@) && n.len() == 12
            implies chacha20poly1305_seal(key@, nonce@, p) == Some(ct@) by {
            let c = chacha20poly1305_seal(key@, n, p)->0;
            assert(n + c == encrypted@);
            assert(encrypted@.subrange(0, 12) =~= n);
            assert(encrypted@.subrange(12, encrypted@.len() as int) =~= c);
        }
    }
    match aead_open(key, &nonce, ct.as_slice()) {
        Ok(p) => Ok(p),
        Err(_) => {
            let mut m = String::new();
            push_str(&mut m, "Decryption error: aead::Error");
            Err(m)
        },
    }
}

} // verus!
