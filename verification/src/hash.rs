//! Canonical content hashing (BLAKE3, lower-case hex).

use vstd::prelude::*;
use vstd::string::StringSliceAdditionalSpecFns;

verus! {

/// The lower-case hex rendering of the BLAKE3 digest of `data`.
pub uninterp spec fn blake3_hex(data: Seq<u8>) -> Seq<char>;

/// The hash of a text: the digest of its UTF-8 encoding.
pub open spec fn text_hash(t: Seq<char>) -> Seq<char> {
    blake3_hex(vstd::utf8::encode_utf8(t))
}

/// Lower-case hexadecimal digit.
pub open spec fn is_lower_hex_char(c: char) -> bool {
    ('0' <= c && c <= '9') || ('a' <= c && c <= 'f')
}

/// Hashes the UTF-8 bytes of `input` with BLAKE3 (`blake3::hash(..).to_hex()`).
/// Trusted: the result is the named digest of the input's bytes; the crate's
/// documentation states that the hex form of a 32-byte digest is 64 lower-case
/// hex characters.
#[verifier::external_body]
pub fn canonical_hash(input: &str) -> (h: String)
    ensures
        h@ == blake3_hex(input.spec_bytes()),
        h@.len() == 64,
        forall|i: int| 0 <= i < 64 ==> is_lower_hex_char(#[trigger] h@[i]),
{
    blake3::hash(input.as_bytes()).to_hex().to_string()
}

} // verus!
