use nexoia::clock::{now_instant, UtcInstant};
use nexoia::decision::{DecisionBody, DecisionRecord, DecisionStatus};
use nexoia::defense::RateLimiter;
use nexoia::explain::{explain_chain, BottleneckSide};
use nexoia::ids::{uuid_v5, NAMESPACE_URL};
use nexoia::lgpd::LawfulBasis;
use nexoia::lgpd_rights::{anonymize_epa_fields, create_suppression_epa, EpaRef, LgpdIndex};
use nexoia::network::epa::SharedEPA;
use nexoia::network::identity::NodeIdentity;
use nexoia::quality::{resolve_quality_divergence, ResolutionReport};
use nexoia::sync::SyncContract;
use nexoia::textmap::TextMap;
use nexoia::types::EvidenceStrength;

// ------------------------------------------------------------------ sync

fn sample_record(tag: &str, strength: EvidenceStrength) -> DecisionRecord {
    let body = DecisionBody {
        decision_id: uuid_v5(NAMESPACE_URL, format!("decision-{tag}").as_bytes()),
        run_id: uuid_v5(NAMESPACE_URL, format!("run-{tag}").as_bytes()),
        created_at_utc: now_instant(),
        status: DecisionStatus::Okay,
        reason_code: format!("REASON_{tag}"),
        message: format!("message {tag}"),
        state_hash: format!("state_hash_{tag}"),
        quality_left_strength: strength,
        quality_right_strength: strength,
        quality_report: resolve_quality_divergence(strength, strength),
    };
    DecisionRecord::from_canonical_json(body, &format!("{{\"tag\":\"{tag}\"}}"))
}

#[test]
fn resolve_left_wins() {
    let contract = SyncContract::new(
        sample_record("left", EvidenceStrength::Signed),
        sample_record("right", EvidenceStrength::Local),
    );
    let report = contract.resolve();
    assert_eq!(report.chosen_side, "left");
    assert_eq!(report.reason_code, "LEFT_STRONGER");
}

#[test]
fn resolve_right_wins() {
    let contract = SyncContract::new(
        sample_record("left", EvidenceStrength::Local),
        sample_record("right", EvidenceStrength::Signed),
    );
    let report = contract.resolve();
    assert_eq!(report.chosen_side, "right");
    assert_eq!(report.reason_code, "RIGHT_STRONGER");
}

#[test]
fn resolve_tie() {
    let contract = SyncContract::new(
        sample_record("left", EvidenceStrength::Witnessed),
        sample_record("right", EvidenceStrength::Witnessed),
    );
    let report = contract.resolve();
    assert_eq!(report.chosen_side, "tie");
    assert_eq!(report.reason_code, "EQUAL_STRENGTH");
}

// --------------------------------------------------------------- explain

fn make_record(
    status: DecisionStatus,
    left: EvidenceStrength,
    right: EvidenceStrength,
    run_id: u128,
) -> DecisionRecord {
    let body = DecisionBody {
        decision_id: uuid::Uuid::new_v4().as_u128(),
        run_id,
        created_at_utc: now_instant(),
        status,
        reason_code: "TEST".to_string(),
        message: "test record".to_string(),
        state_hash: "state_hash".to_string(),
        quality_left_strength: left,
        quality_right_strength: right,
        quality_report: ResolutionReport {
            chosen_side: "left".to_string(),
            reason_code: "LEFT_STRONGER".to_string(),
            message: "test".to_string(),
            left_strength: left,
            right_strength: right,
            resolution_hash: format!("{:?}-{:?}", left, right),
        },
    };
    DecisionRecord { hash: format!("{:x}", uuid::Uuid::new_v4().as_u128()), body }
}

#[test]
fn test_gargalo_lado_direito() {
    let run = uuid::Uuid::new_v4().as_u128();
    let records = vec![make_record(DecisionStatus::Okay, EvidenceStrength::Signed, EvidenceStrength::Local, run)];
    let report = explain_chain(&records);
    let d = &report.diagnoses[0];
    assert_eq!(d.effective_strength, EvidenceStrength::Local);
    assert_eq!(d.bottleneck_side, Some(BottleneckSide::Right));
    assert!(d.suggestion.is_some());
}

#[test]
fn test_gargalo_lado_esquerdo() {
    let run = uuid::Uuid::new_v4().as_u128();
    let records = vec![make_record(DecisionStatus::Okay, EvidenceStrength::Local, EvidenceStrength::Signed, run)];
    let report = explain_chain(&records);
    let d = &report.diagnoses[0];
    assert_eq!(d.effective_strength, EvidenceStrength::Local);
    assert_eq!(d.bottleneck_side, Some(BottleneckSide::Left));
}

#[test]
fn test_sem_gargalo_anchored() {
    let run = uuid::Uuid::new_v4().as_u128();
    let records = vec![make_record(DecisionStatus::Okay, EvidenceStrength::Anchored, EvidenceStrength::Anchored, run)];
    let report = explain_chain(&records);
    let d = &report.diagnoses[0];
    assert_eq!(d.effective_strength, EvidenceStrength::Anchored);
    assert!(d.suggestion.is_none());
}

#[test]
fn test_conflito_mesmo_run() {
    let run = uuid::Uuid::new_v4().as_u128();
    let records = vec![
        make_record(DecisionStatus::Okay, EvidenceStrength::Signed, EvidenceStrength::Signed, run),
        make_record(DecisionStatus::Violacao, EvidenceStrength::Local, EvidenceStrength::Local, run),
    ];
    let report = explain_chain(&records);
    assert_eq!(report.conflicts.len(), 1);
    let c = &report.conflicts[0];
    assert_eq!(c.winner_hash, records[1].hash);
    assert!(report.summary.contains("Conflitos detectados: 1"));
}

#[test]
fn test_lei_conservacao() {
    let run = uuid::Uuid::new_v4().as_u128();
    let records = vec![make_record(DecisionStatus::Okay, EvidenceStrength::Anchored, EvidenceStrength::Witnessed, run)];
    let report = explain_chain(&records);
    let d = &report.diagnoses[0];
    assert!(d.effective_strength <= EvidenceStrength::Witnessed);
}

#[test]
fn different_runs_do_not_conflict() {
    let records = vec![
        make_record(DecisionStatus::Okay, EvidenceStrength::Signed, EvidenceStrength::Signed, 1),
        make_record(DecisionStatus::Violacao, EvidenceStrength::Local, EvidenceStrength::Local, 2),
    ];
    let report = explain_chain(&records);
    assert!(report.conflicts.is_empty());
    assert_eq!(report.diagnoses.len(), 2);
}

// ------------------------------------------------------------- defense

#[test]
fn defense_rate_limiter_blocks_after_limit() {
    let mut limiter = RateLimiter::new(2, 60_000);
    assert!(limiter.check_at("source_a", 1_000));
    assert!(limiter.check_at("source_a", 1_001));
    assert!(!limiter.check_at("source_a", 1_002));
}

#[test]
fn rate_limiter_allows_different_sources() {
    let mut limiter = RateLimiter::new(1, 60_000);
    assert!(limiter.check("source_a"));
    assert!(limiter.check("source_b"));
    assert!(!limiter.check("source_a"));
}

#[test]
fn rate_limiter_window_expires() {
    let mut limiter = RateLimiter::new(1, 60_000);
    assert!(limiter.check_at("s", 0));
    assert!(!limiter.check_at("s", 59_999));
    assert!(limiter.check_at("s", 60_001));
}

// --------------------------------------------------------- lgpd rights

fn sample_epa_ref() -> EpaRef {
    let now = now_instant();
    EpaRef {
        epa_id: "abc123".to_string(),
        epa_hash: "deadbeef".to_string(),
        lawful_basis: LawfulBasis::Consentimento,
        purpose: "processamento_pedido".to_string(),
        created_at: now,
        expires_at: UtcInstant { secs: now.secs + 365 * 86_400, nanos: now.nanos },
    }
}

#[test]
fn lgpd_index_lookup() {
    let mut idx = LgpdIndex::new();
    let entry = sample_epa_ref();
    idx.insert("hash1".to_string(), entry.copy());
    let results = idx.lookup("hash1");
    assert_eq!(results.len(), 1);
    assert_eq!(results[0].epa_id, "abc123");
    let empty = idx.lookup("nonexistent");
    assert!(empty.is_empty());
}

#[test]
fn lgpd_index_remove_epa() {
    let mut idx = LgpdIndex::new();
    idx.insert("hash1".to_string(), sample_epa_ref());
    assert_eq!(idx.count(), 1);
    idx.remove_epa("hash1", "abc123");
    assert_eq!(idx.count(), 0);
    assert!(!idx.subjects().contains(&"hash1".to_string()));
}

#[test]
fn lgpd_index_remove_only_target() {
    let mut idx = LgpdIndex::new();
    let mut entry1 = sample_epa_ref();
    entry1.epa_id = "epa1".to_string();
    let mut entry2 = sample_epa_ref();
    entry2.epa_id = "epa2".to_string();
    idx.insert("hash1".to_string(), entry1);
    idx.insert("hash1".to_string(), entry2);
    assert_eq!(idx.count(), 2);
    idx.remove_epa("hash1", "epa1");
    assert_eq!(idx.count(), 1);
    assert_eq!(idx.lookup("hash1")[0].epa_id, "epa2");
}

fn sample_epa(node: &NodeIdentity, state: &str) -> SharedEPA {
    SharedEPA::create(node, state, r#"{"evidence":"ok"}"#, r#"{"decision":"ok"}"#, r#"{"manifest":"v1"}"#)
}

#[test]
fn anonymize_clears_sensitive_fields() {
    let node = NodeIdentity::generate("test");
    let mut epa = sample_epa(&node, r#"{"name":"João","cpf":"123"}"#);
    epa.encrypted_payload = Some(vec![1, 2, 3]);
    epa.ephemeral_public_key = Some(vec![4, 5, 6]);
    let fields = anonymize_epa_fields(&mut epa);
    assert!(fields.contains(&"encrypted_payload".to_string()));
    assert!(fields.contains(&"ephemeral_public_key".to_string()));
    assert!(fields.contains(&"state_hash".to_string()));
    assert!(fields.contains(&"evidence_hash".to_string()));
    assert!(epa.encrypted_payload.is_none());
    assert!(epa.ephemeral_public_key.is_none());
    assert_eq!(epa.state_hash, "0".repeat(64));
}

#[test]
fn suppression_epa_references_original() {
    let node = NodeIdentity::generate("test");
    let original = sample_epa(&node, r#"{"data":"sensitive"}"#);
    let suppression = create_suppression_epa(&node, &original);
    assert_ne!(suppression.epa_id, original.epa_id);
    assert!(suppression.integrity_hash != original.integrity_hash);
}

#[test]
fn index_multiple_subjects() {
    let mut idx = LgpdIndex::new();
    let mut e1 = sample_epa_ref();
    e1.epa_id = "epa_a".to_string();
    let mut e2 = sample_epa_ref();
    e2.epa_id = "epa_b".to_string();
    idx.insert("subject_1".to_string(), e1);
    idx.insert("subject_2".to_string(), e2);
    assert_eq!(idx.count(), 2);
    assert_eq!(idx.subjects().len(), 2);
}

#[test]
fn build_from_epas_empty() {
    let mut idx = LgpdIndex::new();
    idx.build_from_epas(&vec![], &TextMap::new(), &vec![]);
    assert_eq!(idx.count(), 0);
}
