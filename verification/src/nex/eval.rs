//! Evaluation of NEX programs whose imports have been expanded: every
//! statement updates the working nodes and appends to the trace; an `act`
//! records whether the evidence it relies on is strong enough.

use vstd::prelude::*;
use vstd::string::StringSliceAdditionalSpecFns;
use crate::ids::{uuid_v5, uuid_v5_of, NAMESPACE_URL};
use crate::nex::ast::{
    lemma_stmts_view_index, stmt_view, stmts_view, Action, Comparator, Condition, ConditionV, Expr, ExprV,
    LogicalOp, Program, Stmt, StmtV, Type,
};
use crate::provenance::compose::{derived_node_id, u128_be_bytes};
use crate::provenance::typed_node::{SignedMarker, TypedNode};
use crate::provenance::witness::{
    spec_attest_verdict, InsufficientWitnessesError, Witness, WitnessKind, WitnessSet,
};
use crate::text::{push_decimal, push_int_decimal, push_str, spec_decimal, spec_int_decimal, to_string};
use crate::textmap::TextMap;
use crate::types::EvidenceStrength;
use crate::nex::imports::{expand_program, spec_expand_program, sources_fit, ExpandError, ExpandErrorV, ImportSource};
use crate::nex::parser::{parse, spec_parse};
use crate::nex::lexer::spec_error_text;

verus! {

// ------------------------------------------------------------------
// Values, trace entries and errors
// ------------------------------------------------------------------

/// The value of a node: an integer or a text.
#[derive(Debug, Clone, PartialEq, Eq)]
pub enum TypedNodeValue {
    I(i64),
    S(String),
}

/// Mathematical view of a node value.
pub enum ValueV {
    I(i64),
    S(Seq<char>),
}

impl View for TypedNodeValue {
    type V = ValueV;

    open spec fn view(&self) -> ValueV {
        match self {
            TypedNodeValue::I(v) => ValueV::I(*v),
            TypedNodeValue::S(s) => ValueV::S(s@),
        }
    }
}

/// Name of a value's type.
pub open spec fn spec_type_name(v: ValueV) -> Seq<char> {
    match v {
        ValueV::I(_) => "i64"@,
        ValueV::S(_) => "string"@,
    }
}

/// How a value is written: the integer in decimal, or the text itself.
pub open spec fn value_text(v: ValueV) -> Seq<char> {
    match v {
        ValueV::I(i) => spec_int_decimal(i as int),
        ValueV::S(s) => s,
    }
}

impl TypedNodeValue {
    /// Name of the value's type.
    pub fn value_type_name(&self) -> (s: &'static str)
        ensures
            s@ == spec_type_name(self@),
    {
        match self {
            TypedNodeValue::I(_) => "i64",
            TypedNodeValue::S(_) => "string",
        }
    }

    /// How the value is written: the integer in decimal, or the text itself.
    pub fn to_string(&self) -> (s: String)
        ensures
            s@ == value_text(self@),
    {
        let mut s = String::new();
        match self {
            TypedNodeValue::I(v) => push_int_decimal(&mut s, *v),
            TypedNodeValue::S(t) => push_str(&mut s, t.as_str()),
        }
        s
    }
}

fn copy_value(v: &TypedNodeValue) -> (c: TypedNodeValue)
    ensures
        c@ == v@,
{
    match v {
        TypedNodeValue::I(i) => TypedNodeValue::I(*i),
        TypedNodeValue::S(s) => TypedNodeValue::S(s.clone()),
    }
}

/// A node as recorded in the trace.
#[derive(Debug, Clone, PartialEq, Eq)]
pub struct NodeView {
    pub id: String,
    pub node_id: u128,
    pub value: TypedNodeValue,
    pub strength: EvidenceStrength,
}

/// An action as recorded in the trace: what was asked, what the evidence
/// was, and whether it was granted.
#[derive(Debug, Clone, PartialEq, Eq)]
pub struct ActionView {
    pub id: String,
    pub decision_id: u128,
    pub action: Action,
    pub required_strength: EvidenceStrength,
    pub actual_strength: EvidenceStrength,
    pub granted: bool,
    pub reason: Option<String>,
}

/// One entry of the trace.
#[derive(Debug, Clone, PartialEq, Eq)]
pub enum TraceEntry {
    Node(NodeView),
    Action(ActionView),
}

/// Mathematical view of a trace node.
pub struct NodeViewV {
    pub id: Seq<char>,
    pub node_id: u128,
    pub value: ValueV,
    pub strength: EvidenceStrength,
}

/// Mathematical view of a trace action.
pub struct ActionViewV {
    pub id: Seq<char>,
    pub decision_id: u128,
    pub action: Action,
    pub required_strength: EvidenceStrength,
    pub actual_strength: EvidenceStrength,
    pub granted: bool,
    pub reason: Option<Seq<char>>,
}

/// Mathematical view of a trace entry.
pub enum TraceV {
    Node(NodeViewV),
    Action(ActionViewV),
}

impl View for TraceEntry {
    type V = TraceV;

    open spec fn view(&self) -> TraceV {
        match self {
            TraceEntry::Node(n) => TraceV::Node(NodeViewV {
                id: n.id@,
                node_id: n.node_id,
                value: n.value@,
                strength: n.strength,
            }),
            TraceEntry::Action(a) => TraceV::Action(ActionViewV {
                id: a.id@,
                decision_id: a.decision_id,
                action: a.action,
                required_strength: a.required_strength,
                actual_strength: a.actual_strength,
                granted: a.granted,
                reason: match a.reason {
                    Some(r) => Some(r@),
                    None => None,
                },
            }),
        }
    }
}

/// View of a trace.
pub open spec fn traces_view(v: Seq<TraceEntry>) -> Seq<TraceV> {
    v.map_values(|t: TraceEntry| t@)
}

/// The values of the working nodes once a program has run, by identifier.
pub type Env = TextMap<TypedNodeValue>;

/// View of an environment.
pub open spec fn env_view(e: Map<Seq<char>, TypedNodeValue>) -> Map<Seq<char>, ValueV> {
    e.map_values(|v: TypedNodeValue| v@)
}

/// What running a program produced: the final values and the trace.
#[derive(Debug)]
pub struct ExecutionResult {
    pub env: Env,
    pub entries: Vec<TraceEntry>,
}

/// Why a program could not be run.
#[derive(Debug, Clone, PartialEq, Eq)]
pub enum EvalError {
    UnknownIdentifier { id: String },
    MissingImport { path: String },
    CircularImport { chain: Vec<String> },
    ImportError { path: String, message: String },
    AttestationRequiresSigned { id: String, actual: EvidenceStrength },
    AttestationFailed { id: String, source: InsufficientWitnessesError },
    AssertionFailed { node: String, actual: EvidenceStrength, expected: EvidenceStrength },
    UnsupportedType { ty: Type },
    TypeMismatch { id: String, expected: &'static str, actual_left: &'static str, actual_right: &'static str },
    ActionDenied { action: Action, required: EvidenceStrength, actual: EvidenceStrength, message: String },
}

/// Mathematical view of an evaluation error.
pub enum EvalErrorV {
    UnknownIdentifier { id: Seq<char> },
    MissingImport { path: Seq<char> },
    CircularImport { chain: Seq<Seq<char>> },
    ImportError { path: Seq<char>, message: Seq<char> },
    AttestationRequiresSigned { id: Seq<char>, actual: EvidenceStrength },
    AttestationFailed { id: Seq<char>, source: InsufficientWitnessesError },
    AssertionFailed { node: Seq<char>, actual: EvidenceStrength, expected: EvidenceStrength },
    UnsupportedType { ty: Type },
    TypeMismatch { id: Seq<char>, expected: Seq<char>, actual_left: Seq<char>, actual_right: Seq<char> },
    ActionDenied { action: Action, required: EvidenceStrength, actual: EvidenceStrength, message: Seq<char> },
}

impl View for EvalError {
    type V = EvalErrorV;

    open spec fn view(&self) -> EvalErrorV {
        match self {
            EvalError::UnknownIdentifier { id } => EvalErrorV::UnknownIdentifier { id: id@ },
            EvalError::MissingImport { path } => EvalErrorV::MissingImport { path: path@ },
            EvalError::CircularImport { chain } => EvalErrorV::CircularImport {
                chain: chain@.map_values(|s: String| s@),
            },
            EvalError::ImportError { path, message } => EvalErrorV::ImportError { path: path@, message: message@ },
            EvalError::AttestationRequiresSigned { id, actual } => EvalErrorV::AttestationRequiresSigned {
                id: id@,
                actual: *actual,
            },
            EvalError::AttestationFailed { id, source } => EvalErrorV::AttestationFailed { id: id@, source: *source },
            EvalError::AssertionFailed { node, actual, expected } => EvalErrorV::AssertionFailed {
                node: node@,
                actual: *actual,
                expected: *expected,
            },
            EvalError::UnsupportedType { ty } => EvalErrorV::UnsupportedType { ty: *ty },
            EvalError::TypeMismatch { id, expected, actual_left, actual_right } => EvalErrorV::TypeMismatch {
                id: id@,
                expected: expected@,
                actual_left: actual_left@,
                actual_right: actual_right@,
            },
            EvalError::ActionDenied { action, required, actual, message } => EvalErrorV::ActionDenied {
                action: *action,
                required: *required,
                actual: *actual,
                message: message@,
            },
        }
    }
}

/// Texts joined with ` -> ` between neighbours.
pub open spec fn joined_arrows(parts: Seq<Seq<char>>) -> Seq<char>
    decreases parts.len(),
{
    if parts.len() == 0 {
        Seq::empty()
    } else if parts.len() == 1 {
        parts[0]
    } else {
        joined_arrows(parts.drop_last()) + " -> "@ + parts.last()
    }
}

/// The name of a derive type as it is printed for debugging.
pub open spec fn type_debug_name(t: Type) -> Seq<char> {
    match t {
        Type::I64 => "I64"@,
        Type::String => "String"@,
    }
}

/// The message of an evaluation error.
pub open spec fn spec_eval_error_text(e: EvalErrorV) -> Seq<char> {
    match e {
        EvalErrorV::UnknownIdentifier { id } => "unknown identifier '"@ + id + "'"@,
        EvalErrorV::MissingImport { path } => "missing import '"@ + path + "'"@,
        EvalErrorV::CircularImport { chain } => "circular import detected: "@ + joined_arrows(chain),
        EvalErrorV::ImportError { path, message } => "failed to import '"@ + path + "': "@ + message,
        EvalErrorV::AttestationRequiresSigned { id, actual } =>
            "attest '"@ + id + "' requires Signed, found "@ + actual.spec_name(),
        EvalErrorV::AttestationFailed { id, source } =>
            "attestation failed for '"@ + id + "': "@ + source.spec_message(),
        EvalErrorV::AssertionFailed { node, actual, expected } =>
            "assertion failed for '"@ + node + "': actual "@ + actual.spec_name() + " is weaker than expected "@
                + expected.spec_name(),
        EvalErrorV::UnsupportedType { ty } => "unsupported derive type '"@ + type_debug_name(ty) + "'"@,
        EvalErrorV::TypeMismatch { id, expected, actual_left, actual_right } =>
            "derive '"@ + id + "' type mismatch: expected "@ + expected + ", left was "@ + actual_left
                + ", right was "@ + actual_right,
        EvalErrorV::ActionDenied { action, required, actual, message } =>
            "action "@ + action_text(action) + " denied: actual "@ + actual.spec_name()
                + " does not meet required "@ + required.spec_name() + ": "@ + message,
    }
}

impl EvalError {
    /// The error's message.
    pub fn to_string(&self) -> (s: String)
        ensures
            s@ == spec_eval_error_text(self@),
    {
        let mut s = String::new();
        match self {
            EvalError::UnknownIdentifier { id } => {
                push_str(&mut s, "unknown identifier '");
                push_str(&mut s, id.as_str());
                push_str(&mut s, "'");
            },
            EvalError::MissingImport { path } => {
                push_str(&mut s, "missing import '");
                push_str(&mut s, path.as_str());
                push_str(&mut s, "'");
            },
            EvalError::CircularImport { chain } => {
                push_str(&mut s, "circular import detected: ");
                let ghost parts = chain@.map_values(|t: String| t@);
                let ghost start = s@;
                let mut i: usize = 0;
                while i < chain.len()
                    invariant
                        i <= chain.len(),
                        parts == chain@.map_values(|t: String| t@),
                        s@ == start + joined_arrows(parts.take(i as int)),
                    decreases chain.len() - i,
                {
                    proof {
                        assert(parts.take(i as int + 1).drop_last() =~= parts.take(i as int));
                        assert(parts.take(i as int + 1).last() == chain@[i as int]@);
                    }
                    if i > 0 {
                        push_str(&mut s, " -> ");
                    }
                    push_str(&mut s, chain[i].as_str());
                    proof {
                        if i == 0 {
                            assert(parts.take(1).len() == 1);
                        }
                    }
                    i += 1;
                }
                assert(parts.take(chain.len() as int) =~= parts);
            },
            EvalError::ImportError { path, message } => {
                push_str(&mut s, "failed to import '");
                push_str(&mut s, path.as_str());
                push_str(&mut s, "': ");
                push_str(&mut s, message.as_str());
            },
            EvalError::AttestationRequiresSigned { id, actual } => {
                push_str(&mut s, "attest '");
                push_str(&mut s, id.as_str());
                push_str(&mut s, "' requires Signed, found ");
                push_str(&mut s, actual.as_str());
            },
            EvalError::AttestationFailed { id, source } => {
                push_str(&mut s, "attestation failed for '");
                push_str(&mut s, id.as_str());
                push_str(&mut s, "': ");
                push_str(&mut s, source.message());
            },
            EvalError::AssertionFailed { node, actual, expected } => {
                push_str(&mut s, "assertion failed for '");
                push_str(&mut s, node.as_str());
                push_str(&mut s, "': actual ");
                push_str(&mut s, actual.as_str());
                push_str(&mut s, " is weaker than expected ");
                push_str(&mut s, expected.as_str());
            },
            EvalError::UnsupportedType { ty } => {
                push_str(&mut s, "unsupported derive type '");
                match ty {
                    Type::I64 => push_str(&mut s, "I64"),
                    Type::String => push_str(&mut s, "String"),
                }
                push_str(&mut s, "'");
            },
            EvalError::TypeMismatch { id, expected, actual_left, actual_right } => {
                push_str(&mut s, "derive '");
                push_str(&mut s, id.as_str());
                push_str(&mut s, "' type mismatch: expected ");
                push_str(&mut s, expected);
                push_str(&mut s, ", left was ");
                push_str(&mut s, actual_left);
                push_str(&mut s, ", right was ");
                push_str(&mut s, actual_right);
            },
            EvalError::ActionDenied { action, required, actual, message } => {
                push_str(&mut s, "action ");
                push_str(&mut s, action_word(*action));
                push_str(&mut s, " denied: actual ");
                push_str(&mut s, actual.as_str());
                push_str(&mut s, " does not meet required ");
                push_str(&mut s, required.as_str());
                push_str(&mut s, ": ");
                push_str(&mut s, message.as_str());
            },
        }
        s
    }
}

// ------------------------------------------------------------------
// Identifiers
// ------------------------------------------------------------------

/// The lower-case word of an action.
pub open spec fn action_text(a: Action) -> Seq<char> {
    match a {
        Action::Allow => "allow"@,
        Action::Deny => "deny"@,
        Action::Escalate => "escalate"@,
    }
}

/// The identifier of a node: the version-5 UUID (URL namespace) of
/// `nex|<id>|<value>`.
pub open spec fn spec_node_id(id: Seq<char>, v: ValueV) -> u128 {
    uuid_v5_of(NAMESPACE_URL, vstd::utf8::encode_utf8("nex|"@ + id + "|"@ + value_text(v)))
}

/// The identifier of a decision: the version-5 UUID (URL namespace) of
/// `nex-act|<id>|<action>|<REQUIRED>`.
pub open spec fn spec_decision_id(id: Seq<char>, a: Action, required: EvidenceStrength) -> u128 {
    uuid_v5_of(
        NAMESPACE_URL,
        vstd::utf8::encode_utf8("nex-act|"@ + id + "|"@ + action_text(a) + "|"@ + required.spec_name()),
    )
}

/// The text of a boolean.
pub open spec fn bool_text(b: bool) -> Seq<char> {
    if b { "true"@ } else { "false"@ }
}

/// The witnesses an `attest` statement stands for: `count` of them, each
/// identified by the version-5 UUID of `nex|witness|<i>|<external>` in the
/// node's namespace, all at the fixed instant 1 700 000 000, cross-referenced
/// externally when `external` holds and co-signed otherwise.
pub open spec fn synthetic_witnesses(node_id: u128, count: nat, external: bool) -> Seq<Witness> {
    Seq::new(count, |i: int| Witness {
        witness_id: uuid_v5_of(
            node_id,
            vstd::utf8::encode_utf8("nex|witness|"@ + spec_decimal(i as nat) + "|"@ + bool_text(external)),
        ),
        witnessed_at_utc: 1_700_000_000,
        kind: if external { WitnessKind::CrossReferencedInExternalLedger } else { WitnessKind::Cosigned },
    })
}

fn text_uuid(text: &String) -> (id: u128)
    ensures
        id == uuid_v5_of(NAMESPACE_URL, vstd::utf8::encode_utf8(text@)),
{
    uuid_v5(NAMESPACE_URL, text.as_str().as_bytes())
}

fn node_id_of(id: &str, value: &TypedNodeValue) -> (n: u128)
    ensures
        n == spec_node_id(id@, value@),
{
    let mut seed = String::new();
    push_str(&mut seed, "nex|");
    push_str(&mut seed, id);
    push_str(&mut seed, "|");
    push_str(&mut seed, value.to_string().as_str());
    text_uuid(&seed)
}

fn action_word(a: Action) -> (s: &'static str)
    ensures
        s@ == action_text(a),
{
    match a {
        Action::Allow => "allow",
        Action::Deny => "deny",
        Action::Escalate => "escalate",
    }
}

fn decision_id_of(id: &str, action: Action, required: EvidenceStrength) -> (n: u128)
    ensures
        n == spec_decision_id(id@, action, required),
{
    let mut seed = String::new();
    push_str(&mut seed, "nex-act|");
    push_str(&mut seed, id);
    push_str(&mut seed, "|");
    push_str(&mut seed, action_word(action));
    push_str(&mut seed, "|");
    push_str(&mut seed, required.as_str());
    text_uuid(&seed)
}

fn synthetic_witness_set(node_id: u128, witness_count: usize, external: bool) -> (set: WitnessSet)
    ensures
        set@ == synthetic_witnesses(node_id, witness_count as nat, external),
{
    let mut set = WitnessSet::new();
    let mut idx: usize = 0;
    while idx < witness_count
        invariant
            idx <= witness_count,
            set@ =~= synthetic_witnesses(node_id, witness_count as nat, external).take(idx as int),
        decreases witness_count - idx,
    {
        let mut name = String::new();
        push_str(&mut name, "nex|witness|");
        push_decimal(&mut name, idx as u64);
        push_str(&mut name, "|");
        push_str(&mut name, if external { "true" } else { "false" });
        let witness_id = uuid_v5(node_id, name.as_str().as_bytes());
        let kind = if external { WitnessKind::CrossReferencedInExternalLedger } else { WitnessKind::Cosigned };
        set.add(Witness { witness_id, witnessed_at_utc: 1_700_000_000, kind });
        idx += 1;
    }
    set
}

// ------------------------------------------------------------------
// The meaning of a program
// ------------------------------------------------------------------

/// A working node: identifier, value and strength.
pub struct RtV {
    pub node_id: u128,
    pub value: ValueV,
    pub strength: EvidenceStrength,
}

/// The state of an evaluation: the working nodes by name, the trace so far,
/// and the node the last node statement was about.
pub struct EvalStateV {
    pub working: Map<Seq<char>, RtV>,
    pub entries: Seq<TraceV>,
    pub subject: Option<RtV>,
}

/// The trace entry of a node statement.
pub open spec fn node_entry(id: Seq<char>, r: RtV) -> TraceV {
    TraceV::Node(NodeViewV { id, node_id: r.node_id, value: r.value, strength: r.strength })
}

/// The value an expression denotes.
pub open spec fn spec_resolve(e: ExprV, w: Map<Seq<char>, RtV>) -> Result<ValueV, EvalErrorV> {
    match e {
        ExprV::IntLit(v) => Ok(ValueV::I(v as i64)),
        ExprV::StrLit(s) => Ok(ValueV::S(s)),
        ExprV::Ident(x) => if w.contains_key(x) {
            Ok(w[x].value)
        } else {
            Err(EvalErrorV::UnknownIdentifier { id: x })
        },
    }
}

/// Attesting a working node: it must be signed, and its synthetic witnesses
/// must suffice; it becomes anchored.
pub open spec fn spec_attest(id: Seq<char>, cur: RtV, count: nat, external: bool) -> Result<RtV, EvalErrorV> {
    if cur.strength != EvidenceStrength::Signed {
        Err(EvalErrorV::AttestationRequiresSigned { id, actual: cur.strength })
    } else {
        match spec_attest_verdict(synthetic_witnesses(cur.node_id, count, external)) {
            Err(e) => Err(EvalErrorV::AttestationFailed { id, source: e }),
            Ok(_) => Ok(RtV { node_id: cur.node_id, value: cur.value, strength: EvidenceStrength::Anchored }),
        }
    }
}

/// Deriving a node from two others: both integers (wrapping sum) or both
/// texts (concatenation), as the type asks; the strength is the weaker one.
pub open spec fn spec_derive(id: Seq<char>, l: RtV, r: RtV, ty: Type) -> Result<RtV, EvalErrorV> {
    let node_id = derived_node_id(l.node_id, r.node_id);
    let strength = l.strength.spec_min(r.strength);
    match ty {
        Type::I64 => match (l.value, r.value) {
            (ValueV::I(a), ValueV::I(b)) => Ok(RtV {
                node_id,
                value: ValueV::I(vstd::wrapping::i64_specs::wrapping_add(a, b)),
                strength,
            }),
            _ => Err(EvalErrorV::TypeMismatch {
                id,
                expected: "i64"@,
                actual_left: spec_type_name(l.value),
                actual_right: spec_type_name(r.value),
            }),
        },
        Type::String => match (l.value, r.value) {
            (ValueV::S(a), ValueV::S(b)) => Ok(RtV { node_id, value: ValueV::S(a + b), strength }),
            _ => Err(EvalErrorV::TypeMismatch {
                id,
                expected: "string"@,
                actual_left: spec_type_name(l.value),
                actual_right: spec_type_name(r.value),
            }),
        },
    }
}

/// `a <cmp> b` on strength levels.
pub open spec fn spec_compare(c: Comparator, a: EvidenceStrength, b: EvidenceStrength) -> bool {
    match c {
        Comparator::Gte => a.level() >= b.level(),
        Comparator::Lte => a.level() <= b.level(),
        Comparator::Gt => a.level() > b.level(),
        Comparator::Lt => a.level() < b.level(),
        Comparator::Eq => a == b,
    }
}

/// A condition holds of the working nodes; an unknown node makes its side
/// false.
pub open spec fn spec_condition(c: ConditionV, w: Map<Seq<char>, RtV>) -> bool {
    if !w.contains_key(c.left_id) {
        false
    } else {
        let left = spec_compare(c.comparator, w[c.left_id].strength, c.right_strength);
        match c.op {
            None => left,
            Some(op) => {
                let right = match (c.right_comparator, c.right_strength2, c.right_id) {
                    (Some(cmp), Some(s2), Some(rid)) => w.contains_key(rid) && spec_compare(cmp, w[rid].strength, s2),
                    _ => false,
                };
                match op {
                    LogicalOp::And => left && right,
                    LogicalOp::Or => left || right,
                }
            },
        }
    }
}

/// What a condition means: a side holds when its node is known and its
/// strength compares to the given one as asked; `&&` holds exactly when both
/// sides hold, `||` when either does, and a lone comparison when its side
/// holds; an unknown left node makes the whole condition false. In
/// particular a `&&` whose right node is unknown, or whose right strength
/// fails its comparison, is false whatever its left side gives.
pub proof fn law_condition_connectives(c: ConditionV, w: Map<Seq<char>, RtV>)
    ensures
        ({
            let left = w.contains_key(c.left_id) && spec_compare(c.comparator, w[c.left_id].strength, c.right_strength);
            let right = c.right_id is Some && c.right_comparator is Some && c.right_strength2 is Some
                && w.contains_key(c.right_id->0)
                && spec_compare(c.right_comparator->0, w[c.right_id->0].strength, c.right_strength2->0);
            &&& c.op is None ==> (spec_condition(c, w) <==> left)
            &&& c.op == Some(LogicalOp::And) ==> (spec_condition(c, w) <==> (left && right))
            &&& c.op == Some(LogicalOp::Or) ==> (spec_condition(c, w) <==> (w.contains_key(c.left_id) && (left || right)))
        }),
{
    match (c.right_comparator, c.right_strength2, c.right_id) {
        (Some(cmp), Some(s2), Some(rid)) => {
            assert(c.right_comparator->0 == cmp && c.right_strength2->0 == s2 && c.right_id->0 == rid);
        },
        _ => {},
    }
}

/// A comparison `>=` holds exactly when the node's strength is at least the
/// given one, and `<` exactly when it is below: the two never hold together
/// and one of them always does.
pub proof fn law_compare_levels(a: EvidenceStrength, b: EvidenceStrength)
    ensures
        spec_compare(Comparator::Gte, a, b) <==> a.level() >= b.level(),
        spec_compare(Comparator::Lt, a, b) <==> !spec_compare(Comparator::Gte, a, b),
        spec_compare(Comparator::Gt, a, b) <==> spec_compare(Comparator::Lt, b, a),
        spec_compare(Comparator::Lte, a, b) <==> spec_compare(Comparator::Gte, b, a),
        spec_compare(Comparator::Eq, a, b) <==> a == b,
{
}

/// The node an `act` relies on: the named working node, or else the current
/// subject.
pub open spec fn act_record(st: EvalStateV, id: Seq<char>) -> Option<RtV> {
    if st.working.contains_key(id) { Some(st.working[id]) } else { st.subject }
}

/// The trace entry of an action; `conditional` for an action inside an `if`.
pub open spec fn action_entry(id: Seq<char>, action: Action, required: EvidenceStrength, r: RtV, conditional: bool) -> TraceV {
    let granted = r.strength.level() >= required.level();
    TraceV::Action(ActionViewV {
        id,
        decision_id: spec_decision_id(id, action, required),
        action,
        required_strength: required,
        actual_strength: r.strength,
        granted,
        reason: if !granted { Some("ActionDenied"@) } else if conditional { Some("ConditionalMet"@) } else { None },
    })
}

/// The trace entries of the actions of an `if` branch, from position `k`
/// (other statements of the branch are ignored).
pub open spec fn spec_branch(st: EvalStateV, body: Seq<StmtV>, k: int) -> Result<Seq<TraceV>, EvalErrorV>
    decreases body.len() - k,
{
    if k < 0 || k >= body.len() {
        Ok(Seq::empty())
    } else {
        match body[k] {
            StmtV::Act { id, action, requires: needed } => match act_record(st, id) {
                None => Err(EvalErrorV::UnknownIdentifier { id }),
                Some(r) => match spec_branch(st, body, k + 1) {
                    Err(e) => Err(e),
                    Ok(rest) => Ok(seq![action_entry(id, action, needed, r, true)] + rest),
                },
            },
            _ => spec_branch(st, body, k + 1),
        }
    }
}

/// The state after `st` has a new current node `r` named `id`.
pub open spec fn with_node(st: EvalStateV, id: Seq<char>, r: RtV) -> EvalStateV {
    EvalStateV { working: st.working.insert(id, r), entries: st.entries.push(node_entry(id, r)), subject: Some(r) }
}

/// One statement's effect.
pub open spec fn spec_step(st: EvalStateV, s: StmtV) -> Result<EvalStateV, EvalErrorV> {
    match s {
        StmtV::Use { .. } => Ok(st),
        StmtV::Node { id, value, strength } => match spec_resolve(value, st.working) {
            Err(e) => Err(e),
            Ok(v) => Ok(with_node(st, id, RtV { node_id: spec_node_id(id, v), value: v, strength })),
        },
        StmtV::Attest { id, witness_count, external } => if !st.working.contains_key(id) {
            Err(EvalErrorV::UnknownIdentifier { id })
        } else {
            match spec_attest(id, st.working[id], witness_count, external) {
                Err(e) => Err(e),
                Ok(r) => Ok(with_node(st, id, r)),
            }
        },
        StmtV::Derive { id, left, right, ty } => if !st.working.contains_key(left) {
            Err(EvalErrorV::UnknownIdentifier { id: left })
        } else if !st.working.contains_key(right) {
            Err(EvalErrorV::UnknownIdentifier { id: right })
        } else {
            match spec_derive(id, st.working[left], st.working[right], ty) {
                Err(e) => Err(e),
                Ok(r) => Ok(with_node(st, id, r)),
            }
        },
        StmtV::Assert { id, min } => if !st.working.contains_key(id) {
            Err(EvalErrorV::UnknownIdentifier { id })
        } else if st.working[id].strength.level() < min.level() {
            Err(EvalErrorV::AssertionFailed { node: id, actual: st.working[id].strength, expected: min })
        } else {
            Ok(EvalStateV {
                working: st.working,
                entries: st.entries.push(node_entry(id, st.working[id])),
                subject: Some(st.working[id]),
            })
        },
        StmtV::Act { id, action, requires: needed } => match act_record(st, id) {
            None => Err(EvalErrorV::UnknownIdentifier { id }),
            Some(r) => Ok(EvalStateV {
                working: st.working,
                entries: st.entries.push(action_entry(id, action, needed, r, false)),
                subject: st.subject,
            }),
        },
        StmtV::On { .. } => Ok(st),
        StmtV::If { condition, then_body, else_body } => {
            let body = if spec_condition(condition, st.working) { then_body } else { else_body };
            match spec_branch(st, body, 0) {
                Err(e) => Err(e),
                Ok(acts) => Ok(EvalStateV { working: st.working, entries: st.entries + acts, subject: st.subject }),
            }
        },
    }
}

/// The effect of statements `k..`.
pub open spec fn spec_run(st: EvalStateV, stmts: Seq<StmtV>, k: int) -> Result<EvalStateV, EvalErrorV>
    decreases stmts.len() - k,
{
    if k < 0 || k >= stmts.len() {
        Ok(st)
    } else {
        match spec_step(st, stmts[k]) {
            Err(e) => Err(e),
            Ok(next) => spec_run(next, stmts, k + 1),
        }
    }
}

/// The state before the first statement.
pub open spec fn initial_state() -> EvalStateV {
    EvalStateV { working: Map::empty(), entries: Seq::empty(), subject: None }
}

/// The values and trace a program produces, or its first error.
pub open spec fn spec_execute(stmts: Seq<StmtV>) -> Result<(Map<Seq<char>, ValueV>, Seq<TraceV>), EvalErrorV> {
    match spec_run(initial_state(), stmts, 0) {
        Err(e) => Err(e),
        Ok(st) => Ok((st.working.map_values(|r: RtV| r.value), st.entries)),
    }
}

// ------------------------------------------------------------------
// Execution
// ------------------------------------------------------------------

/// A working node.
struct RuntimeState {
    node_id: u128,
    value: TypedNodeValue,
    strength: EvidenceStrength,
}

impl View for RuntimeState {
    type V = RtV;

    closed spec fn view(&self) -> RtV {
        RtV { node_id: self.node_id, value: self.value@, strength: self.strength }
    }
}

fn copy_state(r: &RuntimeState) -> (c: RuntimeState)
    ensures
        c@ == r@,
{
    RuntimeState { node_id: r.node_id, value: copy_value(&r.value), strength: r.strength }
}

spec fn working_view(w: Map<Seq<char>, RuntimeState>) -> Map<Seq<char>, RtV> {
    w.map_values(|r: RuntimeState| r@)
}

spec fn subject_view(s: Option<RuntimeState>) -> Option<RtV> {
    match s {
        Some(r) => Some(r@),
        None => None,
    }
}

fn lookup(working: &TextMap<RuntimeState>, id: &str) -> (r: Option<RuntimeState>)
    ensures
        match r {
            Some(x) => working_view(working@).contains_key(id@) && x@ == working_view(working@)[id@],
            None => !working_view(working@).contains_key(id@),
        },
{
    match working.get(id) {
        Some(x) => Some(copy_state(x)),
        None => None,
    }
}

fn resolve_expr(expr: &Expr, working: &TextMap<RuntimeState>) -> (r: Result<TypedNodeValue, EvalError>)
    ensures
        match spec_resolve(expr@, working_view(working@)) {
            Ok(v) => r matches Ok(x) && x@ == v,
            Err(e) => r matches Err(x) && x@ == e,
        },
{
    match expr {
        Expr::IntLit(v) => Ok(TypedNodeValue::I(*v)),
        Expr::StrLit(s) => Ok(TypedNodeValue::S(s.clone())),
        Expr::Ident(x) => match lookup(working, x.as_str()) {
            Some(rec) => Ok(rec.value),
            None => Err(EvalError::UnknownIdentifier { id: x.clone() }),
        },
    }
}

fn attest_node(id: &String, current: RuntimeState, witness_count: usize, external: bool) -> (r: Result<RuntimeState, EvalError>)
    ensures
        match spec_attest(id@, current@, witness_count as nat, external) {
            Ok(v) => r matches Ok(x) && x@ == v,
            Err(e) => r matches Err(x) && x@ == e,
        },
{
    if current.strength != EvidenceStrength::Signed {
        return Err(EvalError::AttestationRequiresSigned { id: id.clone(), actual: current.strength });
    }
    let signed = TypedNode::<TypedNodeValue, SignedMarker>::new(current.node_id, copy_value(&current.value));
    let witnesses = synthetic_witness_set(current.node_id, witness_count, external);
    match witnesses.attest(signed) {
        Ok(anchored) => Ok(RuntimeState {
            node_id: anchored.node_id,
            value: anchored.value,
            strength: EvidenceStrength::Anchored,
        }),
        Err(source) => Err(EvalError::AttestationFailed { id: id.clone(), source }),
    }
}

fn derive_node(id: &String, left: &RuntimeState, right: &RuntimeState, ty: Type) -> (r: Result<RuntimeState, EvalError>)
    ensures
        match spec_derive(id@, left@, right@, ty) {
            Ok(v) => r matches Ok(x) && x@ == v,
            Err(e) => r matches Err(x) && x@ == e,
        },
{
    let name = u128_be_bytes(right.node_id);
    let node_id = uuid_v5(left.node_id, name.as_slice());
    let strength = left.strength.weakest(right.strength);
    match ty {
        Type::I64 => match (&left.value, &right.value) {
            (TypedNodeValue::I(a), TypedNodeValue::I(b)) => Ok(RuntimeState {
                node_id,
                value: TypedNodeValue::I(a.wrapping_add(*b)),
                strength,
            }),
            _ => Err(EvalError::TypeMismatch {
                id: id.clone(),
                expected: "i64",
                actual_left: left.value.value_type_name(),
                actual_right: right.value.value_type_name(),
            }),
        },
        Type::String => match (&left.value, &right.value) {
            (TypedNodeValue::S(a), TypedNodeValue::S(b)) => {
                let mut s = String::new();
                push_str(&mut s, a.as_str());
                push_str(&mut s, b.as_str());
                Ok(RuntimeState { node_id, value: TypedNodeValue::S(s), strength })
            },
            _ => Err(EvalError::TypeMismatch {
                id: id.clone(),
                expected: "string",
                actual_left: left.value.value_type_name(),
                actual_right: right.value.value_type_name(),
            }),
        },
    }
}

fn compare(c: Comparator, a: EvidenceStrength, b: EvidenceStrength) -> (r: bool)
    ensures
        r == spec_compare(c, a, b),
{
    match c {
        Comparator::Gte => a.rank() >= b.rank(),
        Comparator::Lte => a.rank() <= b.rank(),
        Comparator::Gt => a.rank() > b.rank(),
        Comparator::Lt => a.rank() < b.rank(),
        Comparator::Eq => {
            proof { crate::types::lemma_level_injective(a, b); }
            a.rank() == b.rank()
        },
    }
}

fn evaluate_condition(condition: &Condition, working: &TextMap<RuntimeState>) -> (b: bool)
    ensures
        b == spec_condition(condition@, working_view(working@)),
{
    let left_record = match lookup(working, condition.left_id.as_str()) {
        Some(r) => r,
        None => return false,
    };
    let left_matches = compare(condition.comparator, left_record.strength, condition.right_strength);
    match condition.op {
        None => left_matches,
        Some(op) => {
            let right_matches = match (condition.right_comparator, condition.right_strength2, &condition.right_id) {
                (Some(c), Some(s2), Some(rid)) => match lookup(working, rid.as_str()) {
                    Some(r) => compare(c, r.strength, s2),
                    None => false,
                },
                _ => false,
            };
            match op {
                LogicalOp::And => left_matches && right_matches,
                LogicalOp::Or => left_matches || right_matches,
            }
        },
    }
}

fn action_view(id: &String, action: Action, required: EvidenceStrength, record: &RuntimeState, conditional: bool) -> (t: TraceEntry)
    ensures
        t@ == action_entry(id@, action, required, record@, conditional),
{
    let actual = record.strength;
    let decision_id = decision_id_of(id.as_str(), action, required);
    let granted = actual.at_least(required);
    let reason = if !granted {
        Some(to_string("ActionDenied"))
    } else if conditional {
        Some(to_string("ConditionalMet"))
    } else {
        None
    };
    TraceEntry::Action(ActionView {
        id: id.clone(),
        decision_id,
        action,
        required_strength: required,
        actual_strength: actual,
        granted,
        reason,
    })
}

fn node_view(id: &String, r: &RuntimeState) -> (t: TraceEntry)
    ensures
        t@ == node_entry(id@, r@),
{
    TraceEntry::Node(NodeView { id: id.clone(), node_id: r.node_id, value: copy_value(&r.value), strength: r.strength })
}

/// The mutable state of an execution.
struct Machine {
    working: TextMap<RuntimeState>,
    entries: Vec<TraceEntry>,
    subject: Option<RuntimeState>,
}

impl Machine {
    spec fn state(&self) -> EvalStateV {
        EvalStateV {
            working: working_view(self.working@),
            entries: traces_view(self.entries@),
            subject: subject_view(self.subject),
        }
    }

    fn add_node(&mut self, id: &String, r: RuntimeState)
        ensures
            final(self).state() == with_node(old(self).state(), id@, r@),
    {
        let entry = node_view(id, &r);
        self.entries.push(entry);
        let copy = copy_state(&r);
        self.subject = Some(copy);
        let ghost w0 = self.working@;
        self.working.insert(id.clone(), r);
        proof {
            assert(working_view(self.working@) =~= working_view(w0).insert(id@, r@));
            assert(traces_view(self.entries@) =~= traces_view(old(self).entries@).push(node_entry(id@, r@)));
        }
    }

    fn branch(&self, body: &Vec<Stmt>) -> (r: Result<Vec<TraceEntry>, EvalError>)
        ensures
            match spec_branch(self.state(), stmts_view(body@), 0) {
                Ok(acts) => r matches Ok(v) && traces_view(v@) == acts,
                Err(e) => r matches Err(x) && x@ == e,
            },
    {
        let ghost sv = stmts_view(body@);
        proof { lemma_stmts_view_index(body@); }
        let mut out: Vec<TraceEntry> = Vec::new();
        let mut k: usize = 0;
        while k < body.len()
            invariant
                k <= body.len(),
                sv == stmts_view(body@),
                sv.len() == body.len(),
                forall|i: int| 0 <= i < body.len() ==> #[trigger] sv[i] == stmt_view(body@[i]),
                spec_branch(self.state(), sv, 0) == prefix_traces(traces_view(out@), spec_branch(self.state(), sv, k as int)),
            decreases body.len() - k,
        {
            let ghost before = traces_view(out@);
            assert(sv[k as int] == stmt_view(body@[k as int]));
            match &body[k] {
                Stmt::Act { id, action, requires: needed } => {
                    let record = match lookup(&self.working, id.as_str()) {
                        Some(r) => r,
                        None => match &self.subject {
                            Some(s) => copy_state(s),
                            None => return Err(EvalError::UnknownIdentifier { id: id.clone() }),
                        },
                    };
                    let entry = action_view(id, *action, *needed, &record, true);
                    out.push(entry);
                    proof {
                        assert(traces_view(out@) =~= before.push(entry@));
                        lemma_prefix_traces(before, entry@, spec_branch(self.state(), sv, k + 1));
                    }
                },
                _ => {},
            }
            k += 1;
        }
        assert(traces_view(out@) + Seq::<TraceV>::empty() =~= traces_view(out@));
        Ok(out)
    }

    fn step(&mut self, stmt: &Stmt) -> (r: Result<(), EvalError>)
        ensures
            match spec_step(old(self).state(), stmt_view(*stmt)) {
                Ok(st) => r is Ok && final(self).state() == st,
                Err(e) => r matches Err(x) && x@ == e,
            },
    {
        match stmt {
            Stmt::Use { .. } => Ok(()),
            Stmt::Node { id, value, strength } => {
                let v = match resolve_expr(value, &self.working) {
                    Ok(v) => v,
                    Err(e) => return Err(e),
                };
                let node_id = node_id_of(id.as_str(), &v);
                self.add_node(id, RuntimeState { node_id, value: v, strength: *strength });
                Ok(())
            },
            Stmt::Attest { id, witness_count, external } => {
                let current = match lookup(&self.working, id.as_str()) {
                    Some(c) => c,
                    None => return Err(EvalError::UnknownIdentifier { id: id.clone() }),
                };
                let r = match attest_node(id, current, *witness_count, *external) {
                    Ok(r) => r,
                    Err(e) => return Err(e),
                };
                self.add_node(id, r);
                Ok(())
            },
            Stmt::Derive { id, left, right, ty } => {
                let l = match lookup(&self.working, left.as_str()) {
                    Some(l) => l,
                    None => return Err(EvalError::UnknownIdentifier { id: left.clone() }),
                };
                let rr = match lookup(&self.working, right.as_str()) {
                    Some(x) => x,
                    None => return Err(EvalError::UnknownIdentifier { id: right.clone() }),
                };
                let d = match derive_node(id, &l, &rr, *ty) {
                    Ok(d) => d,
                    Err(e) => return Err(e),
                };
                self.add_node(id, d);
                Ok(())
            },
            Stmt::Assert { id, min } => {
                let record = match lookup(&self.working, id.as_str()) {
                    Some(x) => x,
                    None => return Err(EvalError::UnknownIdentifier { id: id.clone() }),
                };
                if !record.strength.at_least(*min) {
                    return Err(EvalError::AssertionFailed { node: id.clone(), actual: record.strength, expected: *min });
                }
                let entry = node_view(id, &record);
                self.entries.push(entry);
                self.subject = Some(record);
                proof {
                    assert(traces_view(self.entries@) =~= traces_view(old(self).entries@).push(entry@));
                }
                Ok(())
            },
            Stmt::Act { id, action, requires: needed } => {
                let record = match lookup(&self.working, id.as_str()) {
                    Some(r) => r,
                    None => match &self.subject {
                        Some(s) => copy_state(s),
                        None => return Err(EvalError::UnknownIdentifier { id: id.clone() }),
                    },
                };
                let entry = action_view(id, *action, *needed, &record, false);
                self.entries.push(entry);
                proof {
                    assert(traces_view(self.entries@) =~= traces_view(old(self).entries@).push(entry@));
                }
                Ok(())
            },
            Stmt::On { .. } => Ok(()),
            Stmt::If { condition, then_body, else_body } => {
                let met = evaluate_condition(condition, &self.working);
                let acts = if met { self.branch(then_body) } else { self.branch(else_body) };
                let mut acts = match acts {
                    Ok(a) => a,
                    Err(e) => return Err(e),
                };
                let ghost before = traces_view(self.entries@);
                let ghost added = traces_view(acts@);
                self.entries.append(&mut acts);
                proof {
                    assert(traces_view(self.entries@) =~= before + added);
                }
                Ok(())
            },
        }
    }
}

/// Puts the trace entries `pre` in front of a successful branch.
pub open spec fn prefix_traces(pre: Seq<TraceV>, r: Result<Seq<TraceV>, EvalErrorV>) -> Result<Seq<TraceV>, EvalErrorV> {
    match r {
        Ok(rest) => Ok(pre + rest),
        Err(e) => Err(e),
    }
}

proof fn lemma_prefix_traces(pre: Seq<TraceV>, t: TraceV, r: Result<Seq<TraceV>, EvalErrorV>)
    ensures
        prefix_traces(pre, prefix_traces(seq![t], r)) == prefix_traces(pre.push(t), r),
{
    if let Ok(rest) = r {
        assert(pre + (seq![t] + rest) =~= pre.push(t) + rest);
    }
}

/// Runs a program whose imports have been expanded.
pub fn execute_expanded(program: Program) -> (r: Result<ExecutionResult, EvalError>)
    ensures
        match spec_execute(program@) {
            Ok((env, entries)) => r matches Ok(x) && env_view(x.env@) == env && traces_view(x.entries@) == entries,
            Err(e) => r matches Err(x) && x@ == e,
        },
{
    let ghost pv = program@;
    let statements = &program.statements;
    let ghost sv = stmts_view(statements@);
    assert(pv == sv);
    proof { lemma_stmts_view_index(statements@); }
    let mut m = Machine { working: TextMap::new(), entries: Vec::new(), subject: None };
    assert(m.state().working =~= Map::<Seq<char>, RtV>::empty());
    assert(m.state().entries =~= Seq::<TraceV>::empty());
    let mut k: usize = 0;
    while k < statements.len()
        invariant
            k <= statements.len(),
            pv == sv,
            pv == program@,
            sv == stmts_view(statements@),
            sv.len() == statements.len(),
            forall|i: int| 0 <= i < statements.len() ==> #[trigger] sv[i] == stmt_view(statements@[i]),
            spec_run(initial_state(), sv, 0) == spec_run(m.state(), sv, k as int),
        decreases statements.len() - k,
    {
        assert(sv[k as int] == stmt_view(statements@[k as int]));
        let ghost st0 = m.state();
        match m.step(&statements[k]) {
            Ok(_) => {},
            Err(e) => {
                assert(spec_run(st0, sv, k as int) == Err::<EvalStateV, EvalErrorV>(e@));
                assert(spec_run(initial_state(), pv, 0) == Err::<EvalStateV, EvalErrorV>(e@));
                return Err(e);
            },
        }
        k += 1;
    }
    let mut env: Env = TextMap::new();
    let keys = m.working.keys_list();
    let ghost w = m.working@;
    let mut i: usize = 0;
    while i < keys.len()
        invariant
            i <= keys.len(),
            w == m.working@,
            forall|j: int| 0 <= j < keys.len() ==> w.contains_key(#[trigger] keys@[j]@),
            forall|key: Seq<char>| #[trigger] env@.contains_key(key)
                <==> exists|j: int| 0 <= j < i && keys@[j]@ == key,
            forall|key: Seq<char>| #[trigger] env@.contains_key(key) ==> env@[key]@ == w[key].value@,
        decreases keys.len() - i,
    {
        let key = &keys[i];
        assert(w.contains_key(keys@[i as int]@));
        let value = match m.working.get(key.as_str()) {
            Some(r) => copy_value(&r.value),
            None => TypedNodeValue::I(0),
        };
        let ghost e0 = env@;
        env.insert(key.clone(), value);
        proof {
            assert forall|k2: Seq<char>| #[trigger] env@.contains_key(k2)
                <==> exists|j: int| 0 <= j < i + 1 && keys@[j]@ == k2 by {
                if k2 == key@ {
                    assert(keys@[i as int]@ == k2);
                } else if e0.contains_key(k2) {
                    let j = choose|j: int| 0 <= j < i && keys@[j]@ == k2;
                    assert(0 <= j < i + 1 && keys@[j]@ == k2);
                } else if exists|j: int| 0 <= j < i + 1 && keys@[j]@ == k2 {
                    let j = choose|j: int| 0 <= j < i + 1 && keys@[j]@ == k2;
                    assert(j != i);
                }
            }
        }
        i += 1;
    }
    proof {
        let want = working_view(w).map_values(|r: RtV| r.value);
        assert forall|key: Seq<char>| #[trigger] env_view(env@).contains_key(key) == want.contains_key(key) by {
            if w.contains_key(key) {
                let j = choose|j: int| 0 <= j < keys.len() && keys@[j]@ == key;
                assert(env@.contains_key(key));
            }
        }
        assert(env_view(env@) =~= want);
    }
    Ok(ExecutionResult { env, entries: m.entries })
}

// ------------------------------------------------------------------
// Running programs with imports
// ------------------------------------------------------------------

/// The values and trace of a program whose imports are expanded from
/// `base`, or the first error.
pub open spec fn spec_execute_in_dir(
    stmts: Seq<StmtV>,
    base: Seq<char>,
    files: Map<Seq<char>, ImportSource>,
) -> Result<(Map<Seq<char>, ValueV>, Seq<TraceV>), ExpandErrorV> {
    match spec_expand_program(stmts, base, files) {
        Err(e) => Err(e),
        Ok(s) => match spec_execute(s) {
            Err(e) => Err(ExpandErrorV::Eval(e)),
            Ok(x) => Ok(x),
        },
    }
}

/// The final values of a program run from `base`, or the first error.
pub open spec fn spec_eval_in_dir(
    stmts: Seq<StmtV>,
    base: Seq<char>,
    files: Map<Seq<char>, ImportSource>,
) -> Result<Map<Seq<char>, ValueV>, ExpandErrorV> {
    match spec_execute_in_dir(stmts, base, files) {
        Err(e) => Err(e),
        Ok((env, _)) => Ok(env),
    }
}

/// Expands the imports of `program` from `base_dir` and runs it.
pub fn execute_in_dir(program: Program, base_dir: &str, files: &TextMap<ImportSource>) -> (r: Result<
    ExecutionResult,
    ExpandError,
>)
    requires
        sources_fit(files@),
    ensures
        match spec_execute_in_dir(program@, base_dir@, files@) {
            Ok((env, entries)) => r matches Ok(x) && env_view(x.env@) == env && traces_view(x.entries@) == entries,
            Err(e) => r matches Err(x) && x@ == e,
        },
{
    let expanded = match expand_program(program, base_dir, files) {
        Ok(p) => p,
        Err(e) => return Err(e),
    };
    match execute_expanded(expanded) {
        Ok(x) => Ok(x),
        Err(e) => Err(ExpandError::Eval(e)),
    }
}

/// Runs `program`, with imports expanded from the current directory.
pub fn execute(program: Program, files: &TextMap<ImportSource>) -> (r: Result<ExecutionResult, ExpandError>)
    requires
        sources_fit(files@),
    ensures
        match spec_execute_in_dir(program@, "."@, files@) {
            Ok((env, entries)) => r matches Ok(x) && env_view(x.env@) == env && traces_view(x.entries@) == entries,
            Err(e) => r matches Err(x) && x@ == e,
        },
{
    execute_in_dir(program, ".", files)
}

/// The final values of `program`, with imports expanded from `base_dir`.
pub fn eval_in_dir(program: Program, base_dir: &str, files: &TextMap<ImportSource>) -> (r: Result<Env, ExpandError>)
    requires
        sources_fit(files@),
    ensures
        match spec_eval_in_dir(program@, base_dir@, files@) {
            Ok(env) => r matches Ok(x) && env_view(x@) == env,
            Err(e) => r matches Err(x) && x@ == e,
        },
{
    match execute_in_dir(program, base_dir, files) {
        Ok(result) => Ok(result.env),
        Err(e) => Err(e),
    }
}

/// The final values of `program`, with imports expanded from the current
/// directory.
pub fn eval(program: Program, files: &TextMap<ImportSource>) -> (r: Result<Env, ExpandError>)
    requires
        sources_fit(files@),
    ensures
        match spec_eval_in_dir(program@, "."@, files@) {
            Ok(env) => r matches Ok(x) && env_view(x@) == env,
            Err(e) => r matches Err(x) && x@ == e,
        },
{
    eval_in_dir(program, ".", files)
}

/// The final values of a program given as source text; a parse error is
/// reported as a type mismatch on `parse-error:<message>`.
pub fn eval_source(source: &str, files: &TextMap<ImportSource>) -> (r: Result<Env, ExpandError>)
    requires
        source@.len() < usize::MAX,
        sources_fit(files@),
    ensures
        match spec_parse(source@) {
            Err(e) => r matches Err(ExpandError::Eval(x)) && x@ == (EvalErrorV::TypeMismatch {
                id: "parse-error:"@ + spec_error_text(e),
                expected: "valid nex source"@,
                actual_left: "parse error"@,
                actual_right: "parse error"@,
            }),
            Ok(stmts) => match spec_eval_in_dir(stmts, "."@, files@) {
                Ok(env) => r matches Ok(x) && env_view(x@) == env,
                Err(e) => r matches Err(x) && x@ == e,
            },
        },
{
    let program = match parse(source) {
        Ok(p) => p,
        Err(e) => {
            let mut id = String::new();
            push_str(&mut id, "parse-error:");
            let msg = e.to_string();
            push_str(&mut id, msg.as_str());
            return Err(ExpandError::Eval(EvalError::TypeMismatch {
                id,
                expected: "valid nex source",
                actual_left: "parse error",
                actual_right: "parse error",
            }));
        },
    };
    eval(program, files)
}

} // verus!
