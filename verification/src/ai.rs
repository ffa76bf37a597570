//! Pieces of the evidence engine that are exact: its error type, how the
//! purpose of a processing operation is graded, and the CRC-32 checksum that
//! names a context when the input carries no run identifier.

use vstd::prelude::*;
use vstd::string::StringSliceAdditionalSpecFns;
use crate::defense::ValidationError;
use crate::text::{chars_of, eq_str, is_whitespace, lower_chars, spec_is_whitespace, spec_lower, spec_trim, string_from_chars, trim_chars};

verus! {

/// Why the evidence engine refused an input.
#[derive(Debug, Clone, PartialEq)]
pub enum AIError {
    InputValidationError(ValidationError),
    InvalidJson(String),
}

/// How informative a declared purpose is.
#[derive(Debug, Clone, Copy, PartialEq, Eq, Structural)]
pub enum PurposeQuality {
    Empty,
    Generic,
    Specific,
}

/// Purposes too generic to count (compared ignoring ASCII case).
pub open spec fn is_generic_purpose(lowered: Seq<char>) -> bool {
    lowered == "test"@ || lowered == "teste"@ || lowered == "debug"@ || lowered == "exemplo"@
        || lowered == "example"@ || lowered == "default"@
}

/// Number of words (maximal runs of non-white-space characters).
pub open spec fn word_count(s: Seq<char>) -> nat
    decreases s.len(),
{
    if s.len() == 0 {
        0
    } else {
        let starts_word = !spec_is_whitespace(s.last()) && (s.len() == 1 || spec_is_whitespace(s[s.len() - 2]));
        word_count(s.drop_last()) + if starts_word { 1nat } else { 0nat }
    }
}

/// The grade of a purpose: empty once trimmed; generic when it is one of the
/// generic words; specific when it has two words or more, or at least 15
/// UTF-8 bytes; generic otherwise.
pub open spec fn spec_purpose_quality(purpose: Seq<char>) -> PurposeQuality {
    let t = spec_trim(purpose);
    if t.len() == 0 {
        PurposeQuality::Empty
    } else if is_generic_purpose(spec_lower(t)) {
        PurposeQuality::Generic
    } else if word_count(t) >= 2 || vstd::utf8::encode_utf8(t).len() >= 15 {
        PurposeQuality::Specific
    } else {
        PurposeQuality::Generic
    }
}

fn count_words(s: &Vec<char>) -> (n: usize)
    ensures
        n == word_count(s@),
{
    let mut n: usize = 0;
    let mut i: usize = 0;
    while i < s.len()
        invariant
            i <= s.len(),
            n == word_count(s@.take(i as int)),
            n <= i,
        decreases s.len() - i,
    {
        let ghost t = s@.take(i + 1);
        assert(t.drop_last() =~= s@.take(i as int));
        assert(t.last() == s@[i as int]);
        if i >= 1 {
            assert(t[t.len() - 2] == s@[i - 1]);
        }
        if !is_whitespace(s[i]) && (i == 0 || is_whitespace(s[i - 1])) {
            n += 1;
        }
        i += 1;
    }
    assert(s@.take(i as int) =~= s@);
    n
}

/// Grades the purpose of a processing operation.
pub fn evaluate_purpose(purpose: &str) -> (q: PurposeQuality)
    ensures
        q == spec_purpose_quality(purpose@),
{
    let t = trim_chars(&chars_of(purpose));
    if t.len() == 0 {
        return PurposeQuality::Empty;
    }
    let low = lower_chars(&t);
    if eq_str(&low, "test") || eq_str(&low, "teste") || eq_str(&low, "debug") || eq_str(&low, "exemplo")
        || eq_str(&low, "example") || eq_str(&low, "default") {
        return PurposeQuality::Generic;
    }
    let text = string_from_chars(&t);
    if count_words(&t) >= 2 || text.as_str().as_bytes().len() >= 15 {
        PurposeQuality::Specific
    } else {
        PurposeQuality::Generic
    }
}

/// One shift of the reflected CRC-32 register (polynomial `0xEDB88320`).
pub open spec fn crc_shift(c: u32) -> u32 {
    if c & 1u32 != 0 { (c >> 1u32) ^ 0xEDB8_8320u32 } else { c >> 1u32 }
}

/// `k` shifts of the register.
pub open spec fn crc_shifts(c: u32, k: nat) -> u32
    decreases k,
{
    if k == 0 { c } else { crc_shift(crc_shifts(c, (k - 1) as nat)) }
}

/// The register after feeding the bytes, starting from all ones.
pub open spec fn crc_register(bytes: Seq<u8>) -> u32
    decreases bytes.len(),
{
    if bytes.len() == 0 {
        0xFFFF_FFFFu32
    } else {
        crc_shifts(crc_register(bytes.drop_last()) ^ (bytes.last() as u32), 8)
    }
}

/// The CRC-32 (IEEE) checksum of the bytes.
pub open spec fn spec_crc32(bytes: Seq<u8>) -> u32 {
    !crc_register(bytes)
}

/// The CRC-32 (IEEE) checksum of the UTF-8 bytes of `input`.
pub fn crc32_hash(input: &str) -> (c: u32)
    ensures
        c == spec_crc32(input.spec_bytes()),
{
    let bytes = input.as_bytes();
    let mut crc: u32 = 0xFFFF_FFFF;
    let mut i: usize = 0;
    while i < bytes.len()
        invariant
            i <= bytes@.len(),
            crc == crc_register(bytes@.take(i as int)),
        decreases bytes@.len() - i,
    {
        assert(bytes@.take(i + 1).drop_last() =~= bytes@.take(i as int));
        let c0 = crc ^ (bytes[i] as u32);
        crc = c0;
        let mut k: usize = 0;
        while k < 8
            invariant
                k <= 8,
                crc == crc_shifts(c0, k as nat),
            decreases 8 - k,
        {
            if crc & 1 != 0 {
                crc = (crc >> 1) ^ 0xEDB8_8320;
            } else {
                crc = crc >> 1;
            }
            k += 1;
        }
        i += 1;
    }
    assert(bytes@.take(i as int) =~= bytes@);
    !crc
}

} // verus!
