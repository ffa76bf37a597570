use nexoia::ai::{crc32_hash, evaluate_purpose, PurposeQuality};
use nexoia::decision::DecisionStatus;
use nexoia::defense::{validate_raw_input, ValidationError};
use nexoia::hash::canonical_hash;
use nexoia::lgpd::{parse_lgpd_basis, LawfulBasis, LgpdError, LgpdMetadata};
use nexoia::quality::{evaluate, resolve_quality_divergence, EvidenceStrength};
use nexoia::state::{deterministic_run_id, Scenario};
use nexoia::ids::NAMESPACE_URL;

#[test]
fn evaluate_maps_known_kinds() {
    assert_eq!(evaluate("abcd", "signed"), EvidenceStrength::Signed);
    assert_eq!(evaluate("abcd", "witness"), EvidenceStrength::Witnessed);
    assert_eq!(evaluate("abcd", "anchored"), EvidenceStrength::Anchored);
    assert_eq!(evaluate("", "signed"), EvidenceStrength::Unverifiable);
}

#[test]
fn resolve_prefers_stronger_side() {
    let report = resolve_quality_divergence(EvidenceStrength::Signed, EvidenceStrength::Local);
    assert_eq!(report.chosen_side, "left");
    assert_eq!(report.reason_code, "LEFT_STRONGER");
    assert!(!report.resolution_hash.is_empty());
}

#[test]
fn canonical_hash_is_stable_for_same_input() {
    let a = canonical_hash("nexoia");
    let b = canonical_hash("nexoia");
    assert_eq!(a, b);
    assert_eq!(a.len(), 64);
}

#[test]
fn canonical_hash_changes_for_different_input() {
    assert_ne!(canonical_hash("alpha"), canonical_hash("beta"));
}

#[test]
fn canonical_hash_known_value() {
    // BLAKE3 of the empty input.
    assert_eq!(
        canonical_hash(""),
        "af1349b9f5f9a1a6a0404dea36dcc9499bcb25c9adc112b7cc9a93cae41f3262"
    );
}

#[test]
fn validate_empty_input() {
    assert!(validate_raw_input("", 1000).is_err());
}

#[test]
fn validate_oversized_input() {
    let big = "x".repeat(2000);
    assert!(validate_raw_input(&big, 1000).is_err());
}

#[test]
fn validate_null_bytes() {
    assert!(validate_raw_input("hello\x00world", 1000).is_err());
}

#[test]
fn validate_valid_input() {
    assert!(validate_raw_input("hello", 1000).is_ok());
}

#[test]
fn validate_errors_carry_details() {
    assert_eq!(validate_raw_input("", 10), Err(ValidationError::EmptyInput));
    assert_eq!(
        validate_raw_input("ééé", 5),
        Err(ValidationError::ExceedsMaxSize { limit: 5, actual: 6 })
    );
    assert_eq!(
        validate_raw_input("a\0", 5),
        Err(ValidationError::SuspiciousPattern("null byte encontrado".to_string()))
    );
    assert!(validate_raw_input("ééé", 6).is_ok());
}

fn sample_metadata() -> LgpdMetadata {
    LgpdMetadata {
        lawful_basis: LawfulBasis::Consentimento,
        purpose: "processamento_pedido".to_string(),
        retention_days: 365,
        data_subject_hash: Some("a1b2c3d4e5f6".to_string()),
        dpia_ref: None,
        consent_id: Some("consent_abc123".to_string()),
    }
}

#[test]
fn valid_metadata_passes_validation() {
    let meta = sample_metadata();
    assert!(meta.validate().is_ok());
}

#[test]
fn empty_purpose_fails_validation() {
    let mut meta = sample_metadata();
    meta.purpose = "  ".to_string();
    assert_eq!(meta.validate(), Err(LgpdError::EmptyPurpose));
}

#[test]
fn zero_retention_fails_validation() {
    let mut meta = sample_metadata();
    meta.retention_days = 0;
    assert_eq!(meta.validate(), Err(LgpdError::ZeroRetention));
}

#[test]
fn empty_purpose_checked_before_retention() {
    let mut meta = sample_metadata();
    meta.purpose = "".to_string();
    meta.retention_days = 0;
    assert_eq!(meta.validate(), Err(LgpdError::EmptyPurpose));
    assert_eq!(LgpdError::ZeroRetention.message(), "LGPD retention_days must be > 0");
}

#[test]
fn parse_lgpd_basis_valid() {
    assert_eq!(parse_lgpd_basis("consentimento").unwrap(), LawfulBasis::Consentimento);
    assert_eq!(parse_lgpd_basis("obrigacao_legal").unwrap(), LawfulBasis::ObrigacaoLegal);
    assert_eq!(parse_lgpd_basis("CONSENT").unwrap(), LawfulBasis::Consentimento);
}

#[test]
fn parse_lgpd_basis_invalid() {
    assert!(parse_lgpd_basis("invalido").is_err());
    assert!(parse_lgpd_basis("").is_err());
}

#[test]
fn parse_lgpd_basis_error_message() {
    assert_eq!(
        parse_lgpd_basis("Nope").unwrap_err(),
        "invalid LGPD lawful basis 'nope'. Use: consentimento, contrato, obrigacao_legal, interesse_legitimo, vida_fisica, funcao_publica, interesse_vital"
    );
    assert_eq!(parse_lgpd_basis("Vital_Interest").unwrap(), LawfulBasis::InteresseVital);
}

#[test]
fn lawful_basis_display() {
    assert_eq!(LawfulBasis::Consentimento.to_string(), "Consentimento");
    assert_eq!(LawfulBasis::ObrigacaoLegal.to_string(), "Obrigacao Legal");
    assert_eq!(LawfulBasis::VidaFisica.to_string(), "Vida Fisica ou Saude");
}

#[test]
fn scenario_as_str_matches_output_contract() {
    assert_eq!(Scenario::Auto.as_str(), "AUTO");
    assert_eq!(Scenario::Okay.as_str(), "OK");
    assert_eq!(Scenario::Violacao.as_str(), "VIOLACAO");
    assert_eq!(Scenario::Absterse.as_str(), "ABSTERSE");
}

#[test]
fn scenario_from_setting() {
    assert_eq!(Scenario::from_env(None), Ok(Scenario::Auto));
    assert_eq!(Scenario::from_env(Some("Abster-Se".to_string())), Ok(Scenario::Absterse));
    assert_eq!(Scenario::from_env(Some("OK".to_string())), Ok(Scenario::Okay));
    assert_eq!(
        Scenario::from_env(Some("Maybe".to_string())),
        Err("invalid NEXOIA_SCENARIO value 'maybe'. Use auto, ok, violacao, or absterse.".to_string())
    );
}

#[test]
fn deterministic_run_id_is_stable() {
    let a = deterministic_run_id("nexoia", Scenario::Okay, "subject", 50, Some(60));
    let b = deterministic_run_id("nexoia", Scenario::Okay, "subject", 50, Some(60));
    assert_eq!(a, b);
}

#[test]
fn deterministic_run_id_changes_when_inputs_change() {
    let a = deterministic_run_id("nexoia", Scenario::Okay, "subject", 50, Some(60));
    let b = deterministic_run_id("nexoia", Scenario::Violacao, "subject", 50, Some(60));
    assert_ne!(a, b);
    assert_ne!(a, 0);
}

#[test]
fn deterministic_run_id_matches_uuid_v5() {
    let a = deterministic_run_id("p", Scenario::Auto, "s", -3, None);
    let expected = uuid::Uuid::new_v5(&uuid::Uuid::NAMESPACE_URL, b"p|AUTO|s|-3|None").as_u128();
    assert_eq!(a, expected);
    assert_eq!(NAMESPACE_URL, uuid::Uuid::NAMESPACE_URL.as_u128());
}

#[test]
fn decision_status_names() {
    assert_eq!(DecisionStatus::Okay.as_str(), "OK");
    assert_eq!(DecisionStatus::Violacao.as_str(), "VIOLACAO");
    assert_eq!(DecisionStatus::Absterse.as_str(), "ABSTERSE");
}

#[test]
fn purpose_quality_grades() {
    assert_eq!(evaluate_purpose("   "), PurposeQuality::Empty);
    assert_eq!(evaluate_purpose(" TESTE "), PurposeQuality::Generic);
    assert_eq!(evaluate_purpose("billing"), PurposeQuality::Generic);
    assert_eq!(evaluate_purpose("processamento de pedidos"), PurposeQuality::Specific);
    assert_eq!(evaluate_purpose("processamento_pedidos"), PurposeQuality::Specific);
}

#[test]
fn crc32_known_values() {
    assert_eq!(crc32_hash("123456789"), 0xCBF4_3926);
    assert_eq!(crc32_hash(""), 0);
}
