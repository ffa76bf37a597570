use nexoia::nex::ast::{Action, Comparator, Condition, Expr, ReactiveAction, Stmt, Trigger, Type};
use nexoia::nex::eval::{execute_expanded, ActionView, EvalError, TraceEntry, TypedNodeValue};
use nexoia::nex::layers::{required_layer, validate_layer, LayerError, NexLayer};
use nexoia::nex::parser::parse;
use nexoia::nex::lexer::ParseError;
use nexoia::provenance::witness::InsufficientWitnessesError;
use nexoia::types::EvidenceStrength;

#[test]
fn parses_node_construct() {
    let program = parse("let sum = node 42 signed").expect("parse");
    assert_eq!(program.statements.len(), 1);
    assert!(matches!(
        program.statements[0],
        Stmt::Node { id: ref name, value: Expr::IntLit(42), strength: EvidenceStrength::Signed } if name == "sum"
    ));
}

#[test]
fn parses_string_node_construct() {
    let program = parse("let label = node \"hello\" anchored").expect("parse");
    assert!(matches!(
        program.statements[0],
        Stmt::Node { value: Expr::StrLit(ref value), strength: EvidenceStrength::Anchored, .. } if value == "hello"
    ));
}

#[test]
fn parses_attest_construct() {
    let program = parse("attest sum with 2 external true").expect("parse");
    assert!(matches!(
        program.statements[0],
        Stmt::Attest { id: ref name, witness_count: 2, external: true } if name == "sum"
    ));
}

#[test]
fn parses_derive_construct() {
    let program = parse("let total = left derive right as i64").expect("parse");
    assert!(matches!(
        program.statements[0],
        Stmt::Derive { id: ref name, ref left, ref right, ty: Type::I64 }
            if name == "total" && left == "left" && right == "right"
    ));
}

#[test]
fn parses_assert_construct() {
    let program = parse("assert total >= anchored").expect("parse");
    assert!(matches!(
        program.statements[0],
        Stmt::Assert { id: ref name, min: EvidenceStrength::Anchored } if name == "total"
    ));
}

#[test]
fn parses_act_construct() {
    let program = parse("act decision = deny requires signed").expect("parse");
    assert!(matches!(
        program.statements[0],
        Stmt::Act { id: ref name, action: Action::Deny, requires: EvidenceStrength::Signed } if name == "decision"
    ));
}

#[test]
fn parses_comment_construct() {
    let program = parse("  # comment only").expect("parse");
    assert!(program.statements.is_empty());
}

#[test]
fn parses_use_construct() {
    let program = parse("use lib.risk").expect("parse");
    assert!(matches!(program.statements[0], Stmt::Use { ref path } if path == "lib.risk"));
}

#[test]
fn rejects_unsupported_version_header() {
    let err = parse("// nex-version: 0.5.0\nlet x = node 1 signed").expect_err("version should be rejected");
    assert_eq!(
        err,
        ParseError::UnsupportedVersion { found: "0.5.0".to_string(), supported: "1.0.0".to_string() }
    );
}

#[test]
fn accepts_supported_version_header_and_crlf() {
    let program = parse("// nex-version:  1.0.0  \r\n\r\n# note\r\nlet x = node -7 local\r\n").expect("parse");
    assert_eq!(program.statements.len(), 1);
    assert!(matches!(program.statements[0], Stmt::Node { value: Expr::IntLit(-7), .. }));
}

#[test]
fn unknown_keyword_errors() {
    let err = parse("bogus total").expect_err("parse should fail");
    assert_eq!(err.to_string(), "line 1:1: unknown keyword 'bogus'");
}

#[test]
fn missing_strength_errors() {
    let err = parse("let sum = node 1").expect_err("missing strength");
    assert!(err.to_string().contains("missing strength"));
}

#[test]
fn missing_external_keyword_after_with_errors() {
    let err = parse("attest sum with 2 true").expect_err("missing external keyword");
    assert!(err.to_string().contains("expected 'external' after witness count"));
}

#[test]
fn missing_requires_keyword_after_act_errors() {
    let err = parse("act decision = deny signed").expect_err("missing requires keyword");
    assert!(err.to_string().contains("expected 'requires' after action"));
}

#[test]
fn errors_carry_line_and_column() {
    let err = parse("let a = node 1 signed\nlet b = node \"open").expect_err("unterminated");
    assert_eq!(err, ParseError::Syntax { line: 2, column: 14, message: "unterminated string literal".to_string() });
    let err = parse("let x = node 99999999999999999999 signed").expect_err("too large");
    assert_eq!(
        err.to_string(),
        "line 1:14: invalid integer literal '99999999999999999999': number too large to fit in target type"
    );
}

#[test]
fn parses_if_with_two_conditions() {
    let program = parse("if a >= signed && b >= local : allow").expect("parse");
    match &program.statements[0] {
        Stmt::If { condition, then_body, else_body } => {
            assert_eq!(condition.left_id, "a");
            assert_eq!(condition.right_id.as_deref(), Some("b"));
            assert_eq!(condition.right_strength2, Some(EvidenceStrength::Local));
            assert_eq!(then_body.len(), 1);
            assert!(else_body.is_empty());
        }
        _ => panic!("expected if"),
    }
    let err = parse("if a >= signed allow").expect_err("missing colon");
    assert!(err.to_string().contains("expected ':' after condition in if statement"));
}

fn node(id: &str, v: i64, s: EvidenceStrength) -> Stmt {
    Stmt::Node { id: id.to_string(), value: Expr::IntLit(v), strength: s }
}

#[test]
fn basic_layer_only() {
    let stmts = vec![
        Stmt::Node { id: "x".to_string(), value: Expr::IntLit(10), strength: EvidenceStrength::Signed },
        Stmt::Act { id: "x".to_string(), action: Action::Allow, requires: EvidenceStrength::Signed },
    ];
    assert_eq!(required_layer(&stmts), NexLayer::Basic);
}

fn sample_if() -> Stmt {
    Stmt::If {
        condition: Condition {
            left_id: "x".to_string(),
            comparator: Comparator::Gte,
            right_strength: EvidenceStrength::Signed,
            op: None,
            right_id: None,
            right_comparator: None,
            right_strength2: None,
        },
        then_body: vec![],
        else_body: vec![],
    }
}

#[test]
fn intermediate_layer_needed() {
    let stmts = vec![sample_if()];
    assert_eq!(required_layer(&stmts), NexLayer::Intermediate);
}

#[test]
fn advanced_layer_needed() {
    let stmts = vec![Stmt::On {
        trigger: Trigger::HeartbeatMiss { threshold: 3 },
        actions: vec![ReactiveAction::Log("test".to_string())],
    }];
    assert_eq!(required_layer(&stmts), NexLayer::Advanced);
}

#[test]
fn validate_layer_passes() {
    let stmts = vec![Stmt::Node { id: "x".to_string(), value: Expr::IntLit(10), strength: EvidenceStrength::Signed }];
    assert!(validate_layer(&stmts, NexLayer::Basic).is_ok());
}

#[test]
fn validate_layer_fails() {
    let stmts = vec![Stmt::On {
        trigger: Trigger::HeartbeatMiss { threshold: 3 },
        actions: vec![ReactiveAction::Log("test".to_string())],
    }];
    let result = validate_layer(&stmts, NexLayer::Basic);
    assert!(result.is_err());
}

#[test]
fn layer_error_names_both_layers() {
    let stmts = vec![sample_if(), node("y", 1, EvidenceStrength::Local)];
    let err = validate_layer(&stmts, NexLayer::Basic).unwrap_err();
    assert_eq!(err, LayerError::InsufficientLayer { required: NexLayer::Intermediate, available: NexLayer::Basic });
    assert_eq!(err.message(), "program requires intermediate layer, but only basic is available");
    assert!(validate_layer(&stmts, NexLayer::Advanced).is_ok());
}

fn run(source: &str) -> Result<nexoia::nex::eval::ExecutionResult, EvalError> {
    execute_expanded(parse(source).expect("parse"))
}

#[test]
fn hello_program_produces_four_entries_and_anchored_sum() {
    let execution = run("let sum = node 1 signed\nattest sum with 2 external true\nassert sum >= anchored\nact sum = allow requires anchored\n")
        .expect("evaluate");
    assert_eq!(execution.entries.len(), 4);
    assert_eq!(execution.env.get("sum"), Some(&TypedNodeValue::I(1)));
    assert!(matches!(execution.entries[0], TraceEntry::Node(ref n) if n.strength == EvidenceStrength::Signed));
    assert!(matches!(execution.entries[1], TraceEntry::Node(ref n) if n.strength == EvidenceStrength::Anchored));
    assert!(matches!(execution.entries[2], TraceEntry::Node(ref n) if n.strength == EvidenceStrength::Anchored));
    match &execution.entries[3] {
        TraceEntry::Action(action) => {
            assert_eq!(action.action, Action::Allow);
            assert!(action.granted);
            assert_eq!(action.decision_id, uuid::Uuid::new_v5(&uuid::Uuid::NAMESPACE_URL, b"nex-act|sum|allow|ANCHORED").as_u128());
        }
        _ => panic!("expected action entry"),
    }
    match &execution.entries[0] {
        TraceEntry::Node(n) => assert_eq!(n.node_id, uuid::Uuid::new_v5(&uuid::Uuid::NAMESPACE_URL, b"nex|sum|1").as_u128()),
        _ => panic!("expected node entry"),
    }
}

#[test]
fn derive_i64_values_wrapping_adds() {
    let execution = run("let left = node 1 anchored\nlet right = node 2 anchored\nlet total = left derive right as i64\n").expect("eval");
    assert_eq!(execution.env.get("total"), Some(&TypedNodeValue::I(3)));
    assert!(matches!(execution.entries.last().expect("derive entry"), TraceEntry::Node(n) if n.strength == EvidenceStrength::Anchored));
    let execution = run("let a = node 9223372036854775807 local\nlet b = node 1 signed\nlet c = a derive b as i64\n").expect("eval");
    assert_eq!(execution.env.get("c"), Some(&TypedNodeValue::I(i64::MIN)));
    assert!(matches!(execution.entries.last(), Some(TraceEntry::Node(n)) if n.strength == EvidenceStrength::Local));
}

#[test]
fn derive_strings_and_type_mismatch() {
    let execution = run("let a = node \"ab\" signed\nlet b = node \"cd\" witnessed\nlet c = a derive b as string\n").expect("eval");
    assert_eq!(execution.env.get("c"), Some(&TypedNodeValue::S("abcd".to_string())));
    let err = run("let a = node 1 signed\nlet b = node \"cd\" signed\nlet c = a derive b as i64\n").unwrap_err();
    assert_eq!(err, EvalError::TypeMismatch { id: "c".to_string(), expected: "i64", actual_left: "i64", actual_right: "string" });
}

#[test]
fn act_emits_action_entry_when_strength_is_sufficient() {
    let execution = run("let decision = node 1 anchored\nact decision = allow requires signed\n").expect("eval");
    match execution.entries.last().expect("action entry") {
        TraceEntry::Action(action) => {
            assert_eq!(action.action, Action::Allow);
            assert!(action.granted);
            assert_eq!(action.required_strength, EvidenceStrength::Signed);
            assert_eq!(action.actual_strength, EvidenceStrength::Anchored);
            assert_eq!(action.reason, None);
        }
        TraceEntry::Node(_) => panic!("expected action entry"),
    }
}

#[test]
fn act_denied_when_strength_is_too_weak_records_decision() {
    let execution = run("let decision = node 1 signed\nact decision = deny requires anchored\n").expect("eval");
    match execution.entries.last().expect("action entry") {
        TraceEntry::Action(ActionView { action, granted, required_strength, actual_strength, reason, .. }) => {
            assert_eq!(*action, Action::Deny);
            assert!(!granted);
            assert_eq!(*required_strength, EvidenceStrength::Anchored);
            assert_eq!(*actual_strength, EvidenceStrength::Signed);
            assert_eq!(reason.as_deref(), Some("ActionDenied"));
        }
        TraceEntry::Node(_) => panic!("expected action entry"),
    }
}

#[test]
fn eval_errors() {
    assert_eq!(run("assert ghost >= local\n").unwrap_err(), EvalError::UnknownIdentifier { id: "ghost".to_string() });
    assert_eq!(
        run("let a = node 1 local\nassert a >= signed\n").unwrap_err(),
        EvalError::AssertionFailed { node: "a".to_string(), actual: EvidenceStrength::Local, expected: EvidenceStrength::Signed }
    );
    assert_eq!(
        run("let a = node 1 local\nattest a with 2 external true\n").unwrap_err(),
        EvalError::AttestationRequiresSigned { id: "a".to_string(), actual: EvidenceStrength::Local }
    );
    assert_eq!(
        run("let a = node 1 signed\nattest a with 1 external true\n").unwrap_err(),
        EvalError::AttestationFailed { id: "a".to_string(), source: InsufficientWitnessesError::NotEnoughWitnesses }
    );
    assert_eq!(
        run("let a = node 1 signed\nattest a with 3 external false\n").unwrap_err(),
        EvalError::AttestationFailed { id: "a".to_string(), source: InsufficientWitnessesError::NoExternalReference }
    );
}

#[test]
fn conditional_actions_follow_the_branch() {
    let execution = run("let a = node 1 signed\nlet b = node 2 local\nif a >= signed || b >= anchored : escalate\n").expect("eval");
    match execution.entries.last().expect("entry") {
        TraceEntry::Action(v) => {
            assert_eq!(v.action, Action::Escalate);
            assert_eq!(v.reason.as_deref(), Some("ConditionalMet"));
        }
        _ => panic!("expected action"),
    }
    let execution = run("let a = node 1 signed\nif a >= anchored : allow\n").expect("eval");
    assert_eq!(execution.entries.len(), 1);
}
