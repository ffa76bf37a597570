//! The verdict reported for a received evidence package.

use vstd::prelude::*;
use vstd::string::StringSliceAdditionalSpecFns;
use crate::clock::utc_timestamp_parses;
use crate::network::epa::{spec_verify_full, SharedEPA, VerifyError};
use crate::network::identity::{spec_verify_signature, verify_signature, SignatureCheckError};

verus! {

/// Outcome of verifying a package.
#[derive(Debug, Clone, Copy, PartialEq, Eq, Structural)]
pub enum VerifyResult {
    Valid,
    InvalidIntegrity,
    InvalidSignature,
    TimestampExpired,
    TimestampTooNew,
    MissingData,
}

impl VerifyResult {
    /// The upper-case name of the outcome.
    pub open spec fn spec_name(self) -> Seq<char> {
        match self {
            VerifyResult::Valid => "VALID"@,
            VerifyResult::InvalidIntegrity => "INVALID_INTEGRITY"@,
            VerifyResult::InvalidSignature => "INVALID_SIGNATURE"@,
            VerifyResult::TimestampExpired => "TIMESTAMP_EXPIRED"@,
            VerifyResult::TimestampTooNew => "TIMESTAMP_TOO_NEW"@,
            VerifyResult::MissingData => "MISSING_DATA"@,
        }
    }

    /// The upper-case name of the outcome.
    pub fn as_str(self) -> (s: &'static str)
        ensures
            s@ == self.spec_name(),
    {
        match self {
            VerifyResult::Valid => "VALID",
            VerifyResult::InvalidIntegrity => "INVALID_INTEGRITY",
            VerifyResult::InvalidSignature => "INVALID_SIGNATURE",
            VerifyResult::TimestampExpired => "TIMESTAMP_EXPIRED",
            VerifyResult::TimestampTooNew => "TIMESTAMP_TOO_NEW",
            VerifyResult::MissingData => "MISSING_DATA",
        }
    }
}

/// The reported outcome of a verification: an unparsable timestamp counts as
/// an integrity failure, a missing key as a signature failure.
pub open spec fn spec_result_of(r: Result<(), VerifyError>) -> VerifyResult {
    match r {
        Ok(_) => VerifyResult::Valid,
        Err(VerifyError::IntegrityFailed) => VerifyResult::InvalidIntegrity,
        Err(VerifyError::SignatureFailed) => VerifyResult::InvalidSignature,
        Err(VerifyError::TimestampExpired) => VerifyResult::TimestampExpired,
        Err(VerifyError::TimestampTooNew) => VerifyResult::TimestampTooNew,
        Err(VerifyError::TimestampInvalid) => VerifyResult::InvalidIntegrity,
        Err(VerifyError::MissingPublicKey) => VerifyResult::InvalidSignature,
    }
}

/// The reported outcome of a verification.
pub fn result_of(r: Result<(), VerifyError>) -> (v: VerifyResult)
    ensures
        v == spec_result_of(r),
{
    match r {
        Ok(_) => VerifyResult::Valid,
        Err(VerifyError::IntegrityFailed) => VerifyResult::InvalidIntegrity,
        Err(VerifyError::SignatureFailed) => VerifyResult::InvalidSignature,
        Err(VerifyError::TimestampExpired) => VerifyResult::TimestampExpired,
        Err(VerifyError::TimestampTooNew) => VerifyResult::TimestampTooNew,
        Err(VerifyError::TimestampInvalid) => VerifyResult::InvalidIntegrity,
        Err(VerifyError::MissingPublicKey) => VerifyResult::InvalidSignature,
    }
}

/// Verifies a package completely (integrity, signature, freshness against the
/// clock) and reports the outcome.
pub fn verify_epa(epa: &SharedEPA) -> (v: VerifyResult)
    ensures
        exists|age: Option<i64>| (age is Some <==> utc_timestamp_parses(epa.timestamp@))
            && v == spec_result_of(#[trigger] spec_verify_full(*epa, age)),
{
    let r = epa.verify_full();
    result_of(r)
}

/// Checks a signature alone: true exactly when the key is well formed and the
/// signature of `data` under it is valid.
pub fn verify_signature_only(public_key_hex: &str, data: &[u8], signature: &[u8]) -> (ok: bool)
    ensures
        ok == (spec_verify_signature(public_key_hex.spec_bytes(), data@, signature@)
            == Ok::<bool, SignatureCheckError>(true)),
{
    match verify_signature(public_key_hex, data, signature) {
        Ok(b) => b,
        Err(_) => false,
    }
}

} // verus!
