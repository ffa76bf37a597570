//! Encrypted, counter-bound messages and their wire format:
//! `[4: total_len (BE)] [12: nonce] [8: counter (BE)] [N: ciphertext + tag]`.

use vstd::prelude::*;
use crate::bytes::{
    be_u32, be_u64, copy_range, lemma_u32_be_roundtrip, lemma_u64_be_roundtrip, push_bytes,
    push_u32_be, push_u64_be, read_u32_be, read_u64_be, u32_be, u64_be,
};
use crate::text::push_str;
use chacha20poly1305::aead::{Aead, KeyInit};
use rand::RngCore;

verus! {

/// ChaCha20-Poly1305 nonce length (RFC 8439).
pub const NONCE_LEN: usize = 12;

/// Length of the counter field.
pub const COUNTER_LEN: usize = 8;

/// Length of the length prefix.
pub const HEADER_LEN: usize = 4;

/// Authentication tag length of ChaCha20-Poly1305.
pub const TAG_LEN: usize = 16;

/// The ChaCha20-Poly1305 sealing of `plaintext` under `key` and `nonce`, with
/// empty associated data, when the cipher accepts its length.
pub uninterp spec fn chacha20poly1305_seal(key: Seq<u8>, nonce: Seq<u8>, plaintext: Seq<u8>) -> Option<Seq<u8>>;

/// The ChaCha20-Poly1305 opening of `ciphertext` under `key` and `nonce`:
/// `None` when authentication fails.
pub uninterp spec fn chacha20poly1305_open(key: Seq<u8>, nonce: Seq<u8>, ciphertext: Seq<u8>) -> Option<Seq<u8>>;

/// Blocks of 64 bytes that ChaCha20-Poly1305 seals at most (exclusive).
pub const CHACHA_MAX_BLOCKS: u64 = 4294967295;

/// ChaCha20-Poly1305 accepts a plaintext of `n` bytes: fewer than
/// `CHACHA_MAX_BLOCKS` whole 64-byte blocks.
pub open spec fn chacha_accepts(n: nat) -> bool {
    n / 64 < CHACHA_MAX_BLOCKS
}

/// Encrypts with `ChaCha20Poly1305::encrypt` (empty associated data).
/// Trusted: the result is the named sealing; success exactly when the sealing
/// is defined, which is exactly when the plaintext has fewer than
/// `CHACHA_MAX_BLOCKS` whole 64-byte blocks (the only refusal in the cipher);
/// the ciphertext is the plaintext length plus the 16-byte tag.
#[verifier::external_body]
pub(crate) fn aead_seal(key: &[u8; 32], nonce: &[u8; 12], plaintext: &[u8]) -> (r: Result<Vec<u8>, ()>)
    ensures
        r is Ok <==> chacha20poly1305_seal(key@, nonce@, plaintext@) is Some,
        r is Ok <==> chacha_accepts(plaintext@.len()),
        r matches Ok(c) ==> c@ == chacha20poly1305_seal(key@, nonce@, plaintext@)->0
            && c@.len() == plaintext@.len() + 16,
{
    let cipher = chacha20poly1305::ChaCha20Poly1305::new(key.into());
    cipher.encrypt(chacha20poly1305::Nonce::from_slice(nonce), plaintext).map_err(|_| ())
}

/// Decrypts with `ChaCha20Poly1305::decrypt` (empty associated data).
/// Trusted: the result is the named opening, and opening what the same key
/// and nonce sealed gives the plaintext back (AEAD correctness).
#[verifier::external_body]
pub(crate) fn aead_open(key: &[u8; 32], nonce: &[u8; 12], ciphertext: &[u8]) -> (r: Result<Vec<u8>, ()>)
    ensures
        r is Ok <==> chacha20poly1305_open(key@, nonce@, ciphertext@) is Some,
        r matches Ok(p) ==> p@ == chacha20poly1305_open(key@, nonce@, ciphertext@)->0,
        forall|p: Seq<u8>| #[trigger] chacha20poly1305_seal(key@, nonce@, p) == Some(ciphertext@)
            ==> r is Ok && r->Ok_0@ == p,
{
    let cipher = chacha20poly1305::ChaCha20Poly1305::new(key.into());
    cipher.decrypt(chacha20poly1305::Nonce::from_slice(nonce), ciphertext).map_err(|_| ())
}

/// An encrypted message bound to an anti-replay counter.
#[derive(Debug, Clone)]
pub struct SecureMessage {
    /// Unique nonce of this message.
    pub nonce: [u8; 12],
    /// Anti-replay counter.
    pub counter: u64,
    /// Ciphertext followed by the authentication tag.
    pub encrypted_payload: Vec<u8>,
}

/// The plaintext that is sealed: the counter (big-endian) then the payload.
pub open spec fn spec_bound_plaintext(counter: u64, payload: Seq<u8>) -> Seq<u8> {
    u64_be(counter) + payload
}

/// The wire bytes of a message.
pub open spec fn spec_to_bytes(nonce: Seq<u8>, counter: u64, payload: Seq<u8>) -> Seq<u8> {
    let total = (NONCE_LEN + COUNTER_LEN + payload.len()) as int;
    u32_be((total % 0x1_0000_0000) as u32) + nonce + u64_be(counter) + payload
}

/// The length that the prefix of `data` declares.
pub open spec fn declared_len(data: Seq<u8>) -> nat {
    be_u32(data) as nat
}

/// `from_bytes` is defined on `data` (it does not reach a slice out of bounds):
/// a declared length below the fixed fields is only harmless when an earlier
/// length check already refuses the data.
pub open spec fn from_bytes_defined(data: Seq<u8>) -> bool {
    data.len() < HEADER_LEN || data.len() < HEADER_LEN + declared_len(data)
        || declared_len(data) >= NONCE_LEN + COUNTER_LEN
}

/// The fields that `from_bytes` reads from `data`, or `None` where it refuses it.
pub open spec fn spec_from_bytes(data: Seq<u8>) -> Option<(Seq<u8>, u64, Seq<u8>)> {
    if data.len() < HEADER_LEN || data.len() < HEADER_LEN + declared_len(data) {
        None
    } else {
        Some((
            data.subrange(4, 16),
            be_u64(data.subrange(16, 24)),
            data.subrange(24, HEADER_LEN + declared_len(data)),
        ))
    }
}

impl SecureMessage {
    /// The fields as plain values.
    pub open spec fn fields(&self) -> (Seq<u8>, u64, Seq<u8>) {
        (self.nonce@, self.counter, self.encrypted_payload@)
    }

    /// Seals `counter ++ payload` under the session key and nonce.
    pub fn encrypt(payload: &[u8], session_key: &[u8; 32], counter: u64, nonce: &[u8; 12]) -> (r: Result<Self, String>)
        ensures
            r is Ok <==> chacha20poly1305_seal(session_key@, nonce@, spec_bound_plaintext(counter, payload@)) is Some,
            r is Ok <==> chacha_accepts(payload@.len() + 8),
            r matches Ok(m) ==> m.nonce@ == nonce@ && m.counter == counter
                && m.encrypted_payload@ == chacha20poly1305_seal(session_key@, nonce@, spec_bound_plaintext(counter, payload@))->0,
            r matches Err(e) ==> e@ == "Encryption error: aead::Error"@,
    {
        let mut plaintext: Vec<u8> = Vec::new();
        push_u64_be(&mut plaintext, counter);
        push_bytes(&mut plaintext, payload);
        assert(plaintext@ =~= spec_bound_plaintext(counter, payload@));
        match aead_seal(session_key, nonce, plaintext.as_slice()) {
            Ok(ciphertext) => Ok(SecureMessage { nonce: *nonce, counter, encrypted_payload: ciphertext }),
            Err(()) => {
                let mut e = String::new();
                push_str(&mut e, "Encryption error: aead::Error");
                Err(e)
            }
        }
    }

    /// Opens the message; returns the bound counter and the payload.
    pub fn decrypt(&self, session_key: &[u8; 32]) -> (r: Result<(u64, Vec<u8>), String>)
        ensures
            r matches Ok((c, p)) ==> chacha20poly1305_open(session_key@, self.nonce@, self.encrypted_payload@)
                == Some(u64_be(c) + p@),
            chacha20poly1305_open(session_key@, self.nonce@, self.encrypted_payload@) matches Some(pt)
                ==> (r is Ok <==> pt.len() >= 8),
            chacha20poly1305_open(session_key@, self.nonce@, self.encrypted_payload@) is None
                ==> (r matches Err(e) && e@ == "Decryption error: aead::Error"@),
            chacha20poly1305_open(session_key@, self.nonce@, self.encrypted_payload@) matches Some(pt)
                ==> (pt.len() < 8 ==> (r matches Err(e) && e@ == "Plaintext too short"@)),
    {
        match aead_open(session_key, &self.nonce, self.encrypted_payload.as_slice()) {
            Ok(plaintext) => {
                if plaintext.len() < COUNTER_LEN {
                    let mut e = String::new();
                    push_str(&mut e, "Plaintext too short");
                    return Err(e);
                }
                let counter = read_u64_be(plaintext.as_slice(), 0);
                let payload = copy_range(plaintext.as_slice(), COUNTER_LEN, plaintext.len());
                proof {
                    lemma_u64_be_roundtrip(counter);
                    assert(plaintext@ =~= u64_be(counter) + payload@) by {
                        let b = plaintext@.subrange(0, 8);
                        lemma_be_u64_determines(b, u64_be(counter));
                        assert(b =~= plaintext@.take(8));
                    }
                }
                Ok((counter, payload))
            }
            Err(()) => {
                let mut e = String::new();
                push_str(&mut e, "Decryption error: aead::Error");
                Err(e)
            }
        }
    }

    /// Wire form: length prefix, nonce, counter, ciphertext.
    pub fn to_bytes(&self) -> (b: Vec<u8>)
        ensures
            b@ == spec_to_bytes(self.nonce@, self.counter, self.encrypted_payload@),
    {
        let total: u128 = NONCE_LEN as u128 + COUNTER_LEN as u128 + self.encrypted_payload.len() as u128;
        let prefix: u32 = (total % 0x1_0000_0000) as u32;
        let mut buf: Vec<u8> = Vec::new();
        push_u32_be(&mut buf, prefix);
        push_bytes(&mut buf, &self.nonce);
        push_u64_be(&mut buf, self.counter);
        push_bytes(&mut buf, self.encrypted_payload.as_slice());
        buf
    }

    /// Reads a message from its wire form; refuses data shorter than the
    /// header or than the length it declares.
    pub fn from_bytes(data: &[u8]) -> (r: Result<Self, String>)
        requires
            from_bytes_defined(data@),
        ensures
            r is Ok <==> spec_from_bytes(data@) is Some,
            r matches Ok(m) ==> Some(m.fields()) == spec_from_bytes(data@),
            data@.len() < HEADER_LEN ==> (r matches Err(e) && e@ == "Data too short for header"@),
            data@.len() >= HEADER_LEN && data@.len() < HEADER_LEN + declared_len(data@)
                ==> (r matches Err(e) && e@ == "Data too short for declared length"@),
    {
        if data.len() < HEADER_LEN {
            let mut e = String::new();
            push_str(&mut e, "Data too short for header");
            return Err(e);
        }
        let total_len = read_u32_be(data, 0);
        if (data.len() as u64) < HEADER_LEN as u64 + total_len as u64 {
            let mut e = String::new();
            push_str(&mut e, "Data too short for declared length");
            return Err(e);
        }
        let end: usize = HEADER_LEN + total_len as usize;
        let nonce: [u8; 12] = [
            data[4], data[5], data[6], data[7], data[8], data[9],
            data[10], data[11], data[12], data[13], data[14], data[15],
        ];
        let counter = read_u64_be(data, 16);
        let encrypted_payload = copy_range(data, 24, end);
        assert(nonce@ =~= data@.subrange(4, 16));
        Ok(SecureMessage { nonce, counter, encrypted_payload })
    }
}

/// Two eight-byte sequences with the same big-endian value are equal.
proof fn lemma_be_u64_determines(a: Seq<u8>, b: Seq<u8>)
    requires
        a.len() == 8,
        b.len() == 8,
        be_u64(a) == be_u64(b),
    ensures
        a == b,
{
    let (a0, a1, a2, a3, a4, a5, a6, a7) = (a[0], a[1], a[2], a[3], a[4], a[5], a[6], a[7]);
    let (b0, b1, b2, b3, b4, b5, b6, b7) = (b[0], b[1], b[2], b[3], b[4], b[5], b[6], b[7]);
    assert(a0 == b0 && a1 == b1 && a2 == b2 && a3 == b3 && a4 == b4 && a5 == b5 && a6 == b6 && a7 == b7)
        by (bit_vector)
        requires
            ((a0 as u64) << 56u64) | ((a1 as u64) << 48u64) | ((a2 as u64) << 40u64)
                | ((a3 as u64) << 32u64) | ((a4 as u64) << 24u64) | ((a5 as u64) << 16u64)
                | ((a6 as u64) << 8u64) | (a7 as u64)
            == ((b0 as u64) << 56u64) | ((b1 as u64) << 48u64) | ((b2 as u64) << 40u64)
                | ((b3 as u64) << 32u64) | ((b4 as u64) << 24u64) | ((b5 as u64) << 16u64)
                | ((b6 as u64) << 8u64) | (b7 as u64),
    ;
    assert(a =~= b);
}

/// Reading back the wire form of a message gives the same nonce, counter and
/// ciphertext, whenever the message's length fits the 32-bit prefix.
pub proof fn law_wire_roundtrip(nonce: Seq<u8>, counter: u64, payload: Seq<u8>)
    requires
        nonce.len() == NONCE_LEN,
        NONCE_LEN + COUNTER_LEN + payload.len() <= u32::MAX,
    ensures
        from_bytes_defined(spec_to_bytes(nonce, counter, payload)),
        spec_from_bytes(spec_to_bytes(nonce, counter, payload)) == Some((nonce, counter, payload)),
{
    let total = (NONCE_LEN + COUNTER_LEN + payload.len()) as u32;
    let bytes = spec_to_bytes(nonce, counter, payload);
    lemma_u32_be_roundtrip(total);
    lemma_u64_be_roundtrip(counter);
    assert(bytes.subrange(0, 4) =~= u32_be(total));
    assert(declared_len(bytes) == total) by {
        assert(be_u32(bytes) == be_u32(bytes.subrange(0, 4)));
    }
    assert(bytes.subrange(4, 16) =~= nonce);
    assert(bytes.subrange(16, 24) =~= u64_be(counter));
    assert(bytes.subrange(24, 4 + total as int) =~= payload);
}

/// A fresh random nonce for ChaCha20-Poly1305 (12 bytes from the OS RNG).
#[verifier::external_body]
pub fn generate_nonce() -> [u8; 12] {
    let mut nonce = [0u8; 12];
    rand::rngs::OsRng.fill_bytes(&mut nonce);
    nonce
}

/// A fresh random handshake nonce (32 bytes from the OS RNG).
#[verifier::external_body]
pub fn generate_handshake_nonce() -> [u8; 32] {
    let mut nonce = [0u8; 32];
    rand::rngs::OsRng.fill_bytes(&mut nonce);
    nonce
}

} // verus!
