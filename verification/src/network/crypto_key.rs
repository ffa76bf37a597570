//! Protecting private keys with a passphrase: PBKDF2-HMAC-SHA256 derives an
//! AES-256-GCM key from the passphrase and a random salt.
//!
//! Format: salt (16 bytes), nonce (12 bytes), then the ciphertext with its tag.

use vstd::prelude::*;
use crate::bytes::{copy_range, push_bytes};
use crate::network::secure_transport::generate_nonce;
use crate::text::push_str;
use aes_gcm::aead::{Aead, KeyInit};
use rand::RngCore;

verus! {

/// PBKDF2 iterations.
pub const PBKDF2_ITERATIONS: u32 = 100_000;

/// Length of the salt.
pub const SALT_LEN: usize = 16;

/// Length of the AES-GCM nonce.
pub const NONCE_LEN: usize = 12;

/// Length of the derived key.
pub const KEY_LEN: usize = 32;

/// The 32-byte key PBKDF2-HMAC-SHA256 derives from a passphrase and a salt in
/// the given number of iterations.
pub uninterp spec fn pbkdf2_sha256_32_of(passphrase: Seq<u8>, salt: Seq<u8>, iterations: u32) -> Seq<u8>;

/// The AES-256-GCM sealing of `plaintext` under `key` and `nonce` (empty
/// associated data), when the cipher accepts its length.
pub uninterp spec fn aes256gcm_seal(key: Seq<u8>, nonce: Seq<u8>, plaintext: Seq<u8>) -> Option<Seq<u8>>;

/// The AES-256-GCM opening of `ciphertext`: `None` when authentication fails.
pub uninterp spec fn aes256gcm_open(key: Seq<u8>, nonce: Seq<u8>, ciphertext: Seq<u8>) -> Option<Seq<u8>>;

/// `pbkdf2_hmac::<Sha256>(passphrase, salt, iterations, &mut key)`.
/// Trusted: the result is the named derived key.
#[verifier::external_body]
fn pbkdf2_sha256_32(passphrase: &[u8], salt: &[u8; 16], iterations: u32) -> (key: [u8; 32])
    ensures
        key@ == pbkdf2_sha256_32_of(passphrase@, salt@, iterations),
{
    let mut key = zeroize::Zeroizing::new([0u8; 32]);
    pbkdf2::pbkdf2_hmac::<sha2::Sha256>(passphrase, salt, iterations, key.as_mut());
    *key
}

/// The longest plaintext AES-256-GCM seals, in bytes (2^36).
pub const AES_GCM_MAX_PLAINTEXT: u64 = 68719476736;

/// `Aes256Gcm::encrypt` with empty associated data.
/// Trusted: the result is the named sealing; success exactly when it is
/// defined, which is exactly when the plaintext is at most
/// `AES_GCM_MAX_PLAINTEXT` bytes (the only refusal in the cipher).
#[verifier::external_body]
fn aes_seal(key: &[u8; 32], nonce: &[u8; 12], plaintext: &[u8]) -> (r: Result<Vec<u8>, ()>)
    ensures
        r is Ok <==> aes256gcm_seal(key@, nonce@, plaintext@) is Some,
        r is Ok <==> plaintext@.len() <= AES_GCM_MAX_PLAINTEXT,
        r matches Ok(c) ==> c@ == aes256gcm_seal(key@, nonce@, plaintext@)->0,
{
    let cipher = aes_gcm::Aes256Gcm::new(aes_gcm::Key::<aes_gcm::Aes256Gcm>::from_slice(key));
    cipher.encrypt(aes_gcm::Nonce::from_slice(nonce), plaintext).map_err(|_| ())
}

/// `Aes256Gcm::decrypt` with empty associated data.
/// Trusted: the result is the named opening, and opening what the same key
/// and nonce sealed gives the plaintext back (AEAD correctness).
#[verifier::external_body]
fn aes_open(key: &[u8; 32], nonce: &[u8; 12], ciphertext: &[u8]) -> (r: Result<Vec<u8>, ()>)
    ensures
        r is Ok <==> aes256gcm_open(key@, nonce@, ciphertext@) is Some,
        r matches Ok(p) ==> p@ == aes256gcm_open(key@, nonce@, ciphertext@)->0,
        forall|p: Seq<u8>| #[trigger] aes256gcm_seal(key@, nonce@, p) == Some(ciphertext@)
            ==> r is Ok && r->Ok_0@ == p,
{
    let cipher = aes_gcm::Aes256Gcm::new(aes_gcm::Key::<aes_gcm::Aes256Gcm>::from_slice(key));
    cipher.decrypt(aes_gcm::Nonce::from_slice(nonce), ciphertext).map_err(|_| ())
}

/// Sixteen random bytes from the OS generator.
/// Trusted: nothing is stated of the value.
#[verifier::external_body]
fn random_salt() -> (s: [u8; 16]) {
    let mut salt = [0u8; 16];
    rand::rngs::OsRng.fill_bytes(&mut salt);
    salt
}

/// The protected form of `data` under a passphrase with the given salt and
/// nonce: salt, nonce, then the sealing under the derived key.
pub open spec fn protected_with(passphrase: Seq<u8>, salt: Seq<u8>, nonce: Seq<u8>, data: Seq<u8>) -> Option<Seq<u8>> {
    match aes256gcm_seal(pbkdf2_sha256_32_of(passphrase, salt, PBKDF2_ITERATIONS), nonce, data) {
        Some(c) => Some(salt + nonce + c),
        None => None,
    }
}

/// Encrypts data with a passphrase, under a fresh random salt and nonce.
pub fn encrypt_with_passphrase(data: &[u8], passphrase: &[u8]) -> (r: Result<Vec<u8>, String>)
    ensures
        r matches Ok(out) ==> protected_with(passphrase@, out@.subrange(0, 16), out@.subrange(16, 28), data@) == Some(out@),
        r matches Err(m) ==> m@ == "Encryption error: aead::Error"@,
        r is Ok <==> data@.len() <= AES_GCM_MAX_PLAINTEXT,
{
    let salt = random_salt();
    let key = pbkdf2_sha256_32(passphrase, &salt, PBKDF2_ITERATIONS);
    let nonce = generate_nonce();
    match aes_seal(&key, &nonce, data) {
        Ok(c) => {
            let mut out: Vec<u8> = Vec::new();
            push_bytes(&mut out, salt.as_slice());
            push_bytes(&mut out, nonce.as_slice());
            push_bytes(&mut out, c.as_slice());
            proof {
                assert(out@.subrange(0, 16) =~= salt@);
                assert(out@.subrange(16, 28) =~= nonce@);
                assert(out@ =~= salt@ + nonce@ + c@);
            }
            Ok(out)
        },
        Err(_) => {
            let mut m = String::new();
            push_str(&mut m, "Encryption error: aead::Error");
            Err(m)
        },
    }
}

fn salt_array(v: &[u8]) -> (a: [u8; 16])
    requires
        v@.len() >= 16,
    ensures
        a@ == v@.subrange(0, 16),
{
    let mut a = [0u8; 16];
    let mut i: usize = 0;
    while i < 16
        invariant
            i <= 16,
            v@.len() >= 16,
            forall|k: int| 0 <= k < i ==> a@[k] == v@[k],
        decreases 16 - i,
    {
        a[i] = v[i];
        i += 1;
    }
    assert(a@ =~= v@.subrange(0, 16));
    a
}

fn nonce_array(v: &[u8]) -> (a: [u8; 12])
    requires
        v@.len() >= 28,
    ensures
        a@ == v@.subrange(16, 28),
{
    let mut a = [0u8; 12];
    let mut i: usize = 0;
    while i < 12
        invariant
            i <= 12,
            v@.len() >= 28,
            forall|k: int| 0 <= k < i ==> a@[k] == v@[k + 16],
        decreases 12 - i,
    {
        a[i] = v[i + 16];
        i += 1;
    }
    assert(a@ =~= v@.subrange(16, 28));
    a
}

/// What decrypting with a passphrase gives: the data, or the error message.
pub open spec fn spec_decrypt_with_passphrase(encrypted: Seq<u8>, passphrase: Seq<u8>) -> Result<Seq<u8>, Seq<char>> {
    if encrypted.len() < 28 {
        Err("Encrypted data too short"@)
    } else {
        match aes256gcm_open(
            pbkdf2_sha256_32_of(passphrase, encrypted.subrange(0, 16), PBKDF2_ITERATIONS),
            encrypted.subrange(16, 28),
            encrypted.subrange(28, encrypted.len() as int),
        ) {
            Some(p) => Ok(p),
            None => Err("Decryption error: aead::Error"@),
        }
    }
}

/// Decrypts what `encrypt_with_passphrase` produced. Decrypting with the
/// passphrase that encrypted gives the data back.
pub fn decrypt_with_passphrase(encrypted: &[u8], passphrase: &[u8]) -> (r: Result<Vec<u8>, String>)
    ensures
        match (r, spec_decrypt_with_passphrase(encrypted@, passphrase@)) {
            (Ok(x), Ok(p)) => x@ == p,
            (Err(m), Err(n)) => m@ == n,
            _ => false,
        },
        forall|s: Seq<u8>, n: Seq<u8>, p: Seq<u8>| #[trigger] protected_with(passphrase@, s, n, p) == Some(encrypted@)
            && s.len() == 16 && n.len() == 12 ==> (r matches Ok(x) && x@ == p),
{
    if encrypted.len() < SALT_LEN + NONCE_LEN {
        let mut m = String::new();
        push_str(&mut m, "Encrypted data too short");
        return Err(m);
    }
    let salt = salt_array(encrypted);
    let nonce = nonce_array(encrypted);
    let ct = copy_range(encrypted, 28, encrypted.len());
    let key = pbkdf2_sha256_32(passphrase, &salt, PBKDF2_ITERATIONS);
    proof {
        assert forall|s: Seq<u8>, n: Seq<u8>, p: Seq<u8>| #[trigger] protected_with(passphrase@, s, n, p) == Some(encrypted@)
            && s.len() == 16 && n.len() == 12
            implies aes256gcm_seal(key@, nonce@, p) == Some(ct@) by {
            let c = aes256gcm_seal(pbkdf2_sha256_32_of(passphrase@, s, PBKDF2_ITERATIONS), n, p)->0;
            assert(s + n + c == encrypted@);
            assert(encrypted@.subrange(0, 16) =~= s);
            assert(encrypted@.subrange(16, 28) =~= n);
            assert(encrypted@.subrange(28, encrypted@.len() as int) =~= c);
        }
    }
    match aes_open(&key, &nonce, ct.as_slice()) {
        Ok(p) => Ok(p),
        Err(_) => {
            let mut m = String::new();
            push_str(&mut m, "Decryption error: aead::Error");
            Err(m)
        },
    }
}

} // verus!
