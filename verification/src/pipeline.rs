//! The run's manifest: the decision's outcome and, for each artifact written,
//! its path, hash and size; with the privacy metadata and its hash when the
//! run carries any.

use vstd::prelude::*;
use crate::clock::UtcInstant;
use crate::decision::{DecisionRecord, DecisionStatus};
use crate::hash::{canonical_hash, text_hash};
use crate::lgpd::LgpdMetadata;
use crate::state::State;
use crate::text::to_string;
use crate::types::EvidenceStrength;

verus! {

/// An artifact of the run.
#[derive(Debug, Clone)]
pub struct ArtifactSummary {
    pub path: String,
    pub hash: String,
    pub bytes: usize,
}

/// The manifest of a run.
#[derive(Debug, Clone)]
pub struct Manifest {
    pub project: String,
    pub run_id: u128,
    pub generated_at_utc: UtcInstant,
    pub status: DecisionStatus,
    pub reason_code: String,
    pub message: String,
    pub artifacts: Vec<ArtifactSummary>,
    pub lgpd: Option<LgpdMetadata>,
    pub lgpd_hash: Option<String>,
}

/// The number of bytes of a text's UTF-8 encoding, as `str::len` reports it.
pub open spec fn byte_count(t: Seq<char>) -> usize {
    vstd::utf8::encode_utf8(t).len() as usize
}

fn artifact(path: &str, contents: &str) -> (a: ArtifactSummary)
    ensures
        a.path@ == path@,
        a.hash@ == text_hash(contents@),
        a.bytes == byte_count(contents@),
{
    ArtifactSummary { path: to_string(path), hash: canonical_hash(contents), bytes: contents.len() }
}

/// The manifest of a run: the state's project, run and instant, the
/// decision's outcome, the three artifacts in order (state, evidence,
/// decisions) and, when the run carries privacy metadata, the metadata and
/// the hash of its JSON text.
pub fn build_manifest(
    state: &State,
    decision: &DecisionRecord,
    state_json: &str,
    evidence_jsonl: &str,
    decisions_jsonl: &str,
    lgpd: Option<(LgpdMetadata, String)>,
) -> (m: Manifest)
    ensures
        m.project@ == state.project@,
        m.run_id == state.run_id,
        m.generated_at_utc == state.generated_at_utc,
        m.status == decision.body.status,
        m.reason_code@ == decision.body.reason_code@,
        m.message@ == decision.body.message@,
        m.artifacts@.len() == 3,
        m.artifacts@[0].path@ == "state.json"@ && m.artifacts@[0].hash@ == text_hash(state_json@)
            && m.artifacts@[0].bytes == byte_count(state_json@),
        m.artifacts@[1].path@ == "evidence.jsonl"@ && m.artifacts@[1].hash@ == text_hash(evidence_jsonl@)
            && m.artifacts@[1].bytes == byte_count(evidence_jsonl@),
        m.artifacts@[2].path@ == "decisions.jsonl"@ && m.artifacts@[2].hash@ == text_hash(decisions_jsonl@)
            && m.artifacts@[2].bytes == byte_count(decisions_jsonl@),
        match lgpd {
            Some((meta, json)) => m.lgpd == Some(meta) && (m.lgpd_hash matches Some(h) && h@ == text_hash(json@)),
            None => m.lgpd is None && m.lgpd_hash is None,
        },
{
    let mut artifacts: Vec<ArtifactSummary> = Vec::new();
    artifacts.push(artifact("state.json", state_json));
    artifacts.push(artifact("evidence.jsonl", evidence_jsonl));
    artifacts.push(artifact("decisions.jsonl", decisions_jsonl));
    let (lgpd_meta, lgpd_hash) = match lgpd {
        Some((meta, json)) => {
            let h = canonical_hash(json.as_str());
            (Some(meta), Some(h))
        },
        None => (None, None),
    };
    Manifest {
        project: state.project.clone(),
        run_id: state.run_id,
        generated_at_utc: state.generated_at_utc,
        status: decision.body.status,
        reason_code: decision.body.reason_code.clone(),
        message: decision.body.message.clone(),
        artifacts,
        lgpd: lgpd_meta,
        lgpd_hash,
    }
}

/// The evidence kind a strength is declared as: `anchored`, `signed`,
/// `witness`, and `local` for the rest.
pub open spec fn spec_strength_kind(s: EvidenceStrength) -> Seq<char> {
    match s {
        EvidenceStrength::Anchored => "anchored"@,
        EvidenceStrength::Signed => "signed"@,
        EvidenceStrength::Witnessed => "witness"@,
        _ => "local"@,
    }
}

/// The evidence kind a strength is declared as.
pub fn strength_kind(s: EvidenceStrength) -> (k: &'static str)
    ensures
        k@ == spec_strength_kind(s),
{
    match s {
        EvidenceStrength::Anchored => "anchored",
        EvidenceStrength::Signed => "signed",
        EvidenceStrength::Witnessed => "witness",
        EvidenceStrength::Local => "local",
        EvidenceStrength::Unverifiable => "local",
    }
}

} // verus!
