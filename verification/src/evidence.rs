//! Evidence records: a snapshot of the state and an attestation of the
//! decision, both tied to the decision's hash.

use vstd::prelude::*;
use crate::clock::UtcInstant;
use crate::decision::{DecisionRecord, DecisionStatus};
use crate::hash::{canonical_hash, text_hash};
use crate::ids::{uuid_v5, uuid_v5_of};
use crate::state::State;

verus! {

/// What an evidence record attests.
#[derive(Debug, Clone, Copy, PartialEq, Eq, Structural, Hash)]
pub enum EvidenceKind {
    StateSnapshot,
    DecisionAttestation,
}

/// The content of an evidence record.
#[derive(Debug, Clone)]
pub struct EvidenceBody {
    pub evidence_id: u128,
    pub run_id: u128,
    pub recorded_at_utc: UtcInstant,
    pub kind: EvidenceKind,
    pub subject: String,
    pub status: DecisionStatus,
    pub reason_code: String,
    pub message: String,
    pub state_hash: String,
    pub decision_hash: String,
}

/// An evidence record sealed by the hash of its canonical JSON form.
#[derive(Debug, Clone)]
pub struct EvidenceRecord {
    pub body: EvidenceBody,
    pub hash: String,
}

impl EvidenceRecord {
    /// Seals a body with the hash of its canonical JSON text (the text
    /// serializing the body gives).
    pub fn from_canonical_json(body: EvidenceBody, canonical_json: &str) -> (r: Self)
        ensures
            r.body == body,
            r.hash@ == text_hash(canonical_json@),
    {
        let hash = canonical_hash(canonical_json);
        EvidenceRecord { body, hash }
    }
}

/// A body for the decision of a run, of the given kind, with the given
/// identifier and time.
pub open spec fn body_for(b: EvidenceBody, state: State, decision: DecisionRecord, kind: EvidenceKind, id_name: Seq<char>, at: UtcInstant) -> bool {
    &&& b.evidence_id == uuid_v5_of(state.run_id, vstd::utf8::encode_utf8(id_name))
    &&& b.run_id == state.run_id
    &&& b.recorded_at_utc == at
    &&& b.kind == kind
    &&& b.subject@ == state.subject@
    &&& b.status == decision.body.status
    &&& b.reason_code@ == decision.body.reason_code@
    &&& b.message@ == decision.body.message@
    &&& b.state_hash@ == decision.body.state_hash@
    &&& b.decision_hash@ == decision.hash@
}

fn body_of(state: &State, decision: &DecisionRecord, kind: EvidenceKind, id_name: &str, at: UtcInstant) -> (b: EvidenceBody)
    ensures
        body_for(b, *state, *decision, kind, id_name@, at),
{
    EvidenceBody {
        evidence_id: uuid_v5(state.run_id, id_name.as_bytes()),
        run_id: state.run_id,
        recorded_at_utc: at,
        kind,
        subject: state.subject.clone(),
        status: decision.body.status,
        reason_code: decision.body.reason_code.clone(),
        message: decision.body.message.clone(),
        state_hash: decision.body.state_hash.clone(),
        decision_hash: decision.hash.clone(),
    }
}

/// The two evidence bodies of a run's decision: the state snapshot (taken
/// when the state was generated, identified by `state_snapshot` in the run's
/// namespace) and the decision attestation (taken when the decision was made,
/// identified by `decision_attestation`). Each is sealed by
/// `EvidenceRecord::from_canonical_json`.
pub fn build_bodies(state: &State, decision: &DecisionRecord) -> (r: (EvidenceBody, EvidenceBody))
    ensures
        body_for(r.0, *state, *decision, EvidenceKind::StateSnapshot, "state_snapshot"@, state.generated_at_utc),
        body_for(r.1, *state, *decision, EvidenceKind::DecisionAttestation, "decision_attestation"@, decision.body.created_at_utc),
{
    let snapshot = body_of(state, decision, EvidenceKind::StateSnapshot, "state_snapshot", state.generated_at_utc);
    let attestation = body_of(state, decision, EvidenceKind::DecisionAttestation, "decision_attestation", decision.body.created_at_utc);
    (snapshot, attestation)
}

} // verus!
