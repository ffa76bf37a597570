//! Decisions: their outcome, the record that seals one, and the outcomes a
//! scenario override imposes.

use vstd::prelude::*;
use crate::clock::UtcInstant;
use crate::hash::{canonical_hash, text_hash};
use crate::ids::{uuid_v5, uuid_v5_of};
use crate::quality::{evaluate, resolve_quality_divergence, spec_evaluate, EvidenceStrength, ResolutionReport};
use crate::state::{Scenario, State};
use crate::text::to_string;

verus! {

/// The three possible outcomes of a decision.
#[derive(Debug, Clone, Copy, PartialEq, Eq, Structural, Hash)]
pub enum DecisionStatus {
    Okay,
    Violacao,
    Absterse,
}

impl DecisionStatus {
    /// The upper-case name of the outcome.
    pub open spec fn spec_name(self) -> Seq<char> {
        match self {
            DecisionStatus::Okay => "OK"@,
            DecisionStatus::Violacao => "VIOLACAO"@,
            DecisionStatus::Absterse => "ABSTERSE"@,
        }
    }

    /// The upper-case name of the outcome.
    pub fn as_str(self) -> (s: &'static str)
        ensures
            s@ == self.spec_name(),
    {
        match self {
            DecisionStatus::Okay => "OK",
            DecisionStatus::Violacao => "VIOLACAO",
            DecisionStatus::Absterse => "ABSTERSE",
        }
    }
}

/// The content of a decision.
#[derive(Debug, Clone)]
pub struct DecisionBody {
    pub decision_id: u128,
    pub run_id: u128,
    pub created_at_utc: UtcInstant,
    pub status: DecisionStatus,
    pub reason_code: String,
    pub message: String,
    pub state_hash: String,
    pub quality_left_strength: EvidenceStrength,
    pub quality_right_strength: EvidenceStrength,
    pub quality_report: ResolutionReport,
}

/// A decision sealed by the hash of its canonical JSON form.
#[derive(Debug, Clone)]
pub struct DecisionRecord {
    pub body: DecisionBody,
    pub hash: String,
}

impl DecisionRecord {
    /// Seals a body with the hash of its canonical JSON text (the text
    /// serializing the body gives).
    pub fn from_canonical_json(body: DecisionBody, canonical_json: &str) -> (r: Self)
        ensures
            r.body == body,
            r.hash@ == text_hash(canonical_json@),
    {
        let hash = canonical_hash(canonical_json);
        DecisionRecord { body, hash }
    }
}

/// The outcome a scenario override imposes, with its reason code and
/// message; `None` for `Auto`, where the rules decide.
pub open spec fn spec_override(scenario: Scenario) -> Option<(DecisionStatus, Seq<char>, Seq<char>)> {
    match scenario {
        Scenario::Okay => Some((DecisionStatus::Okay, "SCENARIO_OK"@, "scenario override requested an OK result"@)),
        Scenario::Violacao => Some((DecisionStatus::Violacao, "SCENARIO_VIOLACAO"@, "scenario override requested a VIOLACAO result"@)),
        Scenario::Absterse => Some((DecisionStatus::Absterse, "SCENARIO_ABSTERSE"@, "scenario override requested an ABSTERSE result"@)),
        Scenario::Auto => None,
    }
}

/// The outcome a scenario override imposes (`None` for `Auto`).
pub fn classify_scenario(scenario: Scenario) -> (r: Option<(DecisionStatus, String, String)>)
    ensures
        match (r, spec_override(scenario)) {
            (Some((st, code, msg)), Some((st2, code2, msg2))) => st == st2 && code@ == code2 && msg@ == msg2,
            (None, None) => true,
            _ => false,
        },
{
    match scenario {
        Scenario::Okay => Some((DecisionStatus::Okay, to_string("SCENARIO_OK"), to_string("scenario override requested an OK result"))),
        Scenario::Violacao => Some((DecisionStatus::Violacao, to_string("SCENARIO_VIOLACAO"), to_string("scenario override requested a VIOLACAO result"))),
        Scenario::Absterse => Some((DecisionStatus::Absterse, to_string("SCENARIO_ABSTERSE"), to_string("scenario override requested an ABSTERSE result"))),
        Scenario::Auto => None,
    }
}

/// The body of a run's decision: its identifier is the version-5 UUID of
/// `decision` in the run's namespace; each side's evidence kind is graded
/// against the state hash and the divergence between them resolved; the
/// outcome is the classification made of the state.
pub fn decision_body(
    state: &State,
    state_hash: String,
    left_kind: &str,
    right_kind: &str,
    classification: (DecisionStatus, String, String),
    created_at_utc: UtcInstant,
) -> (b: DecisionBody)
    ensures
        b.decision_id == uuid_v5_of(state.run_id, vstd::utf8::encode_utf8("decision"@)),
        b.run_id == state.run_id,
        b.created_at_utc == created_at_utc,
        b.status == classification.0,
        b.reason_code@ == classification.1@,
        b.message@ == classification.2@,
        b.state_hash@ == state_hash@,
        b.quality_left_strength == spec_evaluate(state_hash@, left_kind@),
        b.quality_right_strength == spec_evaluate(state_hash@, right_kind@),
        b.quality_report.left_strength == b.quality_left_strength,
        b.quality_report.right_strength == b.quality_right_strength,
{
    let decision_id = uuid_v5(state.run_id, "decision".as_bytes());
    let left_strength = evaluate(state_hash.as_str(), left_kind);
    let right_strength = evaluate(state_hash.as_str(), right_kind);
    let quality_report = resolve_quality_divergence(left_strength, right_strength);
    let (status, reason_code, message) = classification;
    DecisionBody {
        decision_id,
        run_id: state.run_id,
        created_at_utc,
        status,
        reason_code,
        message,
        state_hash,
        quality_left_strength: left_strength,
        quality_right_strength: right_strength,
        quality_report,
    }
}

} // verus!
