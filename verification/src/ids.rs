//! Name-based identifiers (UUID version 5), held as 128-bit values.

use vstd::prelude::*;

use crate::network::identity::spec_hex_encode;
use crate::provenance::compose::u128_be;

verus! {

/// The hyphenated lower-case text of a UUID (`8-4-4-4-12` hexadecimal
/// digits of its big-endian bytes).
pub open spec fn spec_uuid_text(id: u128) -> Seq<char> {
    let h = spec_hex_encode(u128_be(id));
    h.subrange(0, 8) + seq!['-'] + h.subrange(8, 12) + seq!['-'] + h.subrange(12, 16) + seq!['-']
        + h.subrange(16, 20) + seq!['-'] + h.subrange(20, 32)
}

/// `Uuid::from_u128(id).to_string()`.
/// Trusted: the hyphenated lower-case form.
#[verifier::external_body]
pub fn uuid_text(id: u128) -> (s: String)
    ensures
        s@ == spec_uuid_text(id),
{
    uuid::Uuid::from_u128(id).to_string()
}


/// The URL namespace of RFC 4122 (`6ba7b811-9dad-11d1-80b4-00c04fd430c8`).
pub const NAMESPACE_URL: u128 = 0x6ba7b811_9dad_11d1_80b4_00c04fd430c8u128;

/// The version-5 (SHA-1, name-based) UUID of `name` in `namespace`.
pub uninterp spec fn uuid_v5_of(namespace: u128, name: Seq<u8>) -> u128;

/// `uuid::Uuid::new_v5`, on 128-bit values.
/// Trusted: the result is the named version-5 UUID of the namespace and the
/// name's bytes; the crate sets the version field (bits 76..80 of the
/// big-endian value) to 5.
#[verifier::external_body]
pub fn uuid_v5(namespace: u128, name: &[u8]) -> (id: u128)
    ensures
        id == uuid_v5_of(namespace, name@),
        (id >> 76u128) & 0xfu128 == 5,
{
    uuid::Uuid::new_v5(&uuid::Uuid::from_u128(namespace), name).as_u128()
}

} // verus!
