use nexoia::nex::eval::{eval, EvalError, TypedNodeValue};
use nexoia::nex::imports::{expand_program, ExpandError, ImportSource};
use nexoia::nex::parser::parse;
use nexoia::textmap::TextMap;

#[test]
fn eval_returns_env_only() {
    let program = parse("let sum = node 7 signed\n").expect("parse");
    let env = eval(program, &TextMap::new()).expect("eval");
    assert_eq!(env.get("sum"), Some(&TypedNodeValue::I(7)));
}

/// Runs an expansion, answering each file it asks for from `disk` (a file
/// absent from `disk` is not found), as the command-line driver does.
fn expand_with(source: &str, dir: &str, disk: &[(&str, &str)]) -> Result<usize, ExpandError> {
    let mut files: TextMap<ImportSource> = TextMap::new();
    loop {
        let program = parse(source).expect("parse");
        match expand_program(program, dir, &files) {
            Err(ExpandError::NeedFile(path)) => {
                let found = disk.iter().find(|(p, _)| *p == path.as_str());
                let entry = match found {
                    Some((_, text)) => ImportSource::Text(text.to_string()),
                    None => ImportSource::NotFound,
                };
                files.insert(path, entry);
            }
            Ok(p) => return Ok(p.statements.len()),
            Err(e) => return Err(e),
        }
    }
}

#[test]
fn missing_import_fails_closed() {
    let source = "use lib.risk\nlet sum = node 1 signed\n";
    let err = expand_with(source, "proj", &[]).expect_err("missing import");
    match err {
        ExpandError::Eval(EvalError::MissingImport { path }) => {
            let normalized = path.replace('\\', "/");
            assert!(normalized.ends_with("lib/risk.nex"));
        }
        other => panic!("unexpected error: {other:?}"),
    }
}

#[test]
fn circular_import_fails_closed() {
    let disk = [
        ("proj/a.nex", "use b\nlet a = node 2 signed\n"),
        ("proj/b.nex", "use a\nlet b = node 3 signed\n"),
    ];
    let err = expand_with("use a\nlet sum = node 1 signed\n", "proj", &disk).expect_err("circular import");
    match err {
        ExpandError::Eval(EvalError::CircularImport { chain }) => {
            assert!(chain.len() >= 3);
            assert!(chain.first().expect("chain start").ends_with("a.nex"));
            assert!(chain.last().expect("chain end").ends_with("a.nex"));
        }
        other => panic!("unexpected error: {other:?}"),
    }
}

#[test]
fn imported_statements_come_first() {
    let disk = [("proj/lib/risk.nex", "let risk = node 5 signed\n")];
    let n = expand_with("use lib.risk\nlet sum = node 1 signed\n", "proj", &disk).expect("expand");
    assert_eq!(n, 2);
}

#[test]
fn program_without_imports_is_unchanged() {
    let program = parse("let x = node 1 local\n").expect("parse");
    let out = expand_program(program, ".", &TextMap::new()).expect("expand");
    assert_eq!(out.statements.len(), 1);
}

// ---------------------------------------------------------------- observer

use nexoia::nex::observer::{
    epa_findings, lgpd_finding, network_finding, provenance_findings, report_from, reputation_finding, Finding,
    HealthReport, Severity,
};

fn assemble(epas: usize, invalid: usize, peers: usize) -> HealthReport {
    let mut findings: Vec<Finding> = Vec::new();
    findings.extend(epa_findings(epas, invalid, 0));
    findings.push(lgpd_finding(0, 0));
    findings.push(network_finding(peers));
    findings.extend(provenance_findings(0, 0, 0));
    findings.push(reputation_finding(0));
    report_from(findings, "2024-01-01T00:00:00+00:00".to_string(), epas, peers, 0, 0)
}

#[test]
fn empty_system_generates_report() {
    let report = assemble(0, 0, 0);
    assert_eq!(report.overall, Severity::Warning);
    assert!(!report.findings.is_empty());
    assert_eq!(report.summary.total_checks, report.findings.len());
}

#[test]
fn epas_with_valid_signature_report_ok() {
    let report = assemble(1, 0, 0);
    let integrity = report.findings.iter().find(|f| f.check == "epa_integrity").unwrap();
    assert_eq!(integrity.severity, Severity::Okay);
}

#[test]
fn no_peers_generates_warning() {
    let report = assemble(0, 0, 0);
    let network = report.findings.iter().find(|f| f.check == "network_peers").unwrap();
    assert_eq!(network.severity, Severity::Warning);
}

#[test]
fn invalid_package_makes_report_critical() {
    let report = assemble(2, 1, 3);
    assert_eq!(report.overall, Severity::Critical);
    assert!(report.summary.critical >= 1);
}

// ------------------------------------------------------- directory verify

use nexoia::clock::UtcInstant;
use nexoia::decision::DecisionStatus;
use nexoia::evidence::{EvidenceBody, EvidenceKind, EvidenceRecord};
use nexoia::hash::canonical_hash;
use nexoia::ids::uuid_v5;
use nexoia::provenance::verify::{verify_parsed, ArtifactSummary, DecisionArtifact, Manifest, QualityReportArtifact};
use nexoia::types::EvidenceStrength;

const NOON: UtcInstant = UtcInstant { secs: 1_781_352_000, nanos: 0 };

fn artifact(path: &str, text: &str) -> ArtifactSummary {
    ArtifactSummary { path: path.to_string(), hash: canonical_hash(text), bytes: text.len() }
}

fn sample_decision(run_id: u128) -> DecisionArtifact {
    DecisionArtifact {
        decision_id: uuid_v5(run_id, b"decision"),
        run_id,
        created_at_utc: NOON,
        status: DecisionStatus::Okay,
        reason_code: "THRESHOLD_MET".to_string(),
        message: "input_value 60 met threshold 50".to_string(),
        state_hash: "state_hash".to_string(),
        quality_left_strength: Some(EvidenceStrength::Signed),
        quality_right_strength: Some(EvidenceStrength::Local),
        quality_report: Some(QualityReportArtifact {
            chosen_side: "left".to_string(),
            reason_code: "LEFT_STRONGER".to_string(),
            message: "left stronger".to_string(),
            left_strength: EvidenceStrength::Signed,
            right_strength: EvidenceStrength::Local,
            resolution_hash: "r".to_string(),
        }),
        hash: canonical_hash("decision-body"),
    }
}

fn evidence_body(run_id: u128, kind: EvidenceKind, name: &[u8], secs: i64, decision_hash: &str) -> EvidenceBody {
    EvidenceBody {
        evidence_id: uuid_v5(run_id, name),
        run_id,
        recorded_at_utc: UtcInstant { secs, nanos: 0 },
        kind,
        subject: "default-evaluation".to_string(),
        status: DecisionStatus::Okay,
        reason_code: "THRESHOLD_MET".to_string(),
        message: "input_value 60 met threshold 50".to_string(),
        state_hash: "state_hash".to_string(),
        decision_hash: decision_hash.to_string(),
    }
}

fn manifest(run_id: u128, state: &str, evidence: &str, decisions: &str) -> Manifest {
    Manifest {
        project: "nexoia".to_string(),
        run_id,
        generated_at_utc: NOON,
        status: DecisionStatus::Okay,
        reason_code: "THRESHOLD_MET".to_string(),
        message: "input_value 60 met threshold 50".to_string(),
        artifacts: vec![
            artifact("state.json", state),
            artifact("evidence.jsonl", evidence),
            artifact("decisions.jsonl", decisions),
        ],
    }
}

#[test]
fn verify_directory_reports_valid_decision() {
    let run_id = uuid_v5(nexoia::ids::NAMESPACE_URL, b"verify-run");
    let decision = sample_decision(run_id);
    let evidence = vec![
        EvidenceRecord::from_canonical_json(
            evidence_body(run_id, EvidenceKind::StateSnapshot, b"state_snapshot", NOON.secs, &decision.hash),
            "{\"kind\":\"state_snapshot\"}",
        ),
        EvidenceRecord::from_canonical_json(
            evidence_body(run_id, EvidenceKind::DecisionAttestation, b"decision_attestation", NOON.secs + 1, &decision.hash),
            "{\"kind\":\"decision_attestation\"}",
        ),
    ];
    let state_json = "{\"project\":\"nexoia\",\"threshold\":50,\"input_value\":60}";
    let evidence_jsonl = "{\"kind\":\"state_snapshot\"}\n{\"kind\":\"decision_attestation\"}\n";
    let decisions_jsonl = "{\"decision\":1}\n";
    let m = manifest(run_id, state_json, evidence_jsonl, decisions_jsonl);
    let report = verify_parsed(&m, decisions_jsonl, &vec![decision], Some(state_json), Some(evidence_jsonl), &evidence)
        .expect("verify");
    assert_eq!(report.entries.len(), 1);
    assert!(report.entries[0].valid);
    assert_eq!(report.entries[0].reason_code, "VERIFIED");
}

#[test]
fn verify_directory_marks_missing_evidence_as_no_evidence() {
    let run_id = uuid_v5(nexoia::ids::NAMESPACE_URL, b"verify-run-empty");
    let decision = sample_decision(run_id);
    let state_json = "{\"project\":\"nexoia\"}";
    let evidence_jsonl = "";
    let decisions_jsonl = "{\"decision\":1}\n";
    let m = manifest(run_id, state_json, evidence_jsonl, decisions_jsonl);
    let report = verify_parsed(&m, decisions_jsonl, &vec![decision], Some(state_json), Some(evidence_jsonl), &vec![])
        .expect("verify");
    assert_eq!(report.entries.len(), 1);
    assert!(!report.entries[0].valid);
    assert_eq!(report.entries[0].reason_code, "NO_EVIDENCE");
    assert_eq!(report.entries[0].message, "no evidence chain found");
}

#[test]
fn verify_directory_rejects_tampered_artifact() {
    let run_id = uuid_v5(nexoia::ids::NAMESPACE_URL, b"verify-run-tampered");
    let decision = sample_decision(run_id);
    let decisions_jsonl = "{\"decision\":1}\n";
    let m = manifest(run_id, "{}", "", decisions_jsonl);
    let err = verify_parsed(&m, "{\"decision\":2}\n", &vec![decision], None, None, &vec![]).expect_err("tampered");
    assert!(err.message.starts_with("manifest hash mismatch for decisions.jsonl"));
}
