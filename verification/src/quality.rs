//! Grading a piece of evidence and settling a divergence between two sides.

use vstd::prelude::*;
use vstd::string::StringSliceAdditionalSpecFns;
use crate::hash::{blake3_hex, canonical_hash};
use crate::text::{chars_of, contains, is_blank, lower_chars, push_str, spec_contains, spec_is_blank, spec_lower};

pub use crate::types::EvidenceStrength;

verus! {

/// Outcome of comparing the evidence strength of two sides.
#[derive(Debug, Clone)]
pub struct ResolutionReport {
    pub chosen_side: String,
    pub reason_code: String,
    pub message: String,
    pub left_strength: EvidenceStrength,
    pub right_strength: EvidenceStrength,
    pub resolution_hash: String,
}

/// The strength that a declared evidence kind earns for a non-blank evidence hash.
pub open spec fn spec_evaluate(evidence_hash: Seq<char>, kind: Seq<char>) -> EvidenceStrength {
    let k = spec_lower(kind);
    if spec_is_blank(evidence_hash) {
        EvidenceStrength::Unverifiable
    } else if spec_contains(k, "anchored"@) || spec_contains(k, "external"@) {
        EvidenceStrength::Anchored
    } else if spec_contains(k, "signed"@) {
        EvidenceStrength::Signed
    } else if spec_contains(k, "witness"@) {
        EvidenceStrength::Witnessed
    } else {
        EvidenceStrength::Local
    }
}

/// Grades evidence: a blank hash is unverifiable; otherwise the kind, read
/// case-insensitively, decides (anchored/external, then signed, then witness,
/// else local).
pub fn evaluate(evidence_hash: &str, kind: &str) -> (s: EvidenceStrength)
    ensures
        s == spec_evaluate(evidence_hash@, kind@),
{
    let hash_chars = chars_of(evidence_hash);
    if is_blank(&hash_chars) {
        return EvidenceStrength::Unverifiable;
    }
    let k = lower_chars(&chars_of(kind));
    if contains(&k, &chars_of("anchored")) || contains(&k, &chars_of("external")) {
        EvidenceStrength::Anchored
    } else if contains(&k, &chars_of("signed")) {
        EvidenceStrength::Signed
    } else if contains(&k, &chars_of("witness")) {
        EvidenceStrength::Witnessed
    } else {
        EvidenceStrength::Local
    }
}

/// Which side a comparison of strengths favours.
pub open spec fn spec_chosen_side(l: EvidenceStrength, r: EvidenceStrength) -> Seq<char> {
    if l.level() > r.level() {
        "left"@
    } else if l.level() < r.level() {
        "right"@
    } else {
        "tie"@
    }
}

/// The reason code of a comparison of strengths.
pub open spec fn spec_reason_code(l: EvidenceStrength, r: EvidenceStrength) -> Seq<char> {
    if l.level() > r.level() {
        "LEFT_STRONGER"@
    } else if l.level() < r.level() {
        "RIGHT_STRONGER"@
    } else {
        "EQUAL_STRENGTH"@
    }
}

/// The human-readable message of a comparison of strengths.
pub open spec fn spec_resolution_message(l: EvidenceStrength, r: EvidenceStrength) -> Seq<char> {
    if l.level() > r.level() {
        "left side wins with "@ + l.spec_name() + " over right side "@ + r.spec_name()
    } else if l.level() < r.level() {
        "right side wins with "@ + r.spec_name() + " over left side "@ + l.spec_name()
    } else {
        "both sides have the same strength: "@ + l.spec_name()
    }
}

/// The text whose hash seals a resolution.
pub open spec fn spec_resolution_seal(l: EvidenceStrength, r: EvidenceStrength) -> Seq<char> {
    spec_chosen_side(l, r) + "|"@ + spec_reason_code(l, r) + "|"@ + spec_resolution_message(l, r)
        + "|"@ + l.spec_name() + "|"@ + r.spec_name()
}

/// Decides a quality divergence: the strictly stronger side wins, equal
/// strengths tie; the report is sealed by the hash of its fields.
pub fn resolve_quality_divergence(
    left_strength: EvidenceStrength,
    right_strength: EvidenceStrength,
) -> (rep: ResolutionReport)
    ensures
        rep.chosen_side@ == spec_chosen_side(left_strength, right_strength),
        rep.reason_code@ == spec_reason_code(left_strength, right_strength),
        rep.message@ == spec_resolution_message(left_strength, right_strength),
        rep.left_strength == left_strength,
        rep.right_strength == right_strength,
        exists|seal: &str|
            seal@ == spec_resolution_seal(left_strength, right_strength)
            && rep.resolution_hash@ == blake3_hex(#[trigger] seal.spec_bytes()),
        rep.resolution_hash@.len() == 64,
{
    let l = left_strength.rank();
    let r = right_strength.rank();
    let mut chosen_side = String::new();
    let mut reason_code = String::new();
    let mut message = String::new();
    if l > r {
        push_str(&mut chosen_side, "left");
        push_str(&mut reason_code, "LEFT_STRONGER");
        push_str(&mut message, "left side wins with ");
        push_str(&mut message, left_strength.as_str());
        push_str(&mut message, " over right side ");
        push_str(&mut message, right_strength.as_str());
    } else if l < r {
        push_str(&mut chosen_side, "right");
        push_str(&mut reason_code, "RIGHT_STRONGER");
        push_str(&mut message, "right side wins with ");
        push_str(&mut message, right_strength.as_str());
        push_str(&mut message, " over left side ");
        push_str(&mut message, left_strength.as_str());
    } else {
        push_str(&mut chosen_side, "tie");
        push_str(&mut reason_code, "EQUAL_STRENGTH");
        push_str(&mut message, "both sides have the same strength: ");
        push_str(&mut message, left_strength.as_str());
    }
    let mut seal = chosen_side.clone();
    push_str(&mut seal, "|");
    push_str(&mut seal, reason_code.as_str());
    push_str(&mut seal, "|");
    push_str(&mut seal, message.as_str());
    push_str(&mut seal, "|");
    push_str(&mut seal, left_strength.as_str());
    push_str(&mut seal, "|");
    push_str(&mut seal, right_strength.as_str());
    let resolution_hash = canonical_hash(seal.as_str());
    ResolutionReport {
        chosen_side,
        reason_code,
        message,
        left_strength,
        right_strength,
        resolution_hash,
    }
}

/// Swapping the sides of a divergence swaps the winner: the left side wins
/// exactly when, with the sides exchanged, the right side wins; a tie stays a tie.
pub proof fn law_resolution_is_antisymmetric(a: EvidenceStrength, b: EvidenceStrength)
    ensures
        spec_chosen_side(a, b) == "left"@ <==> spec_chosen_side(b, a) == "right"@,
        spec_chosen_side(a, b) == "tie"@ <==> spec_chosen_side(b, a) == "tie"@,
        spec_chosen_side(a, b) == "tie"@ <==> a == b,
{
    reveal_strlit("left");
    reveal_strlit("right");
    reveal_strlit("tie");
    assert("left"@.len() == 4 && "right"@.len() == 5 && "tie"@.len() == 3);
    assert("left"@ != "right"@ && "left"@ != "tie"@ && "right"@ != "tie"@);
}

} // verus!
