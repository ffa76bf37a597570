//! Abstract syntax of NEX programs, with a mathematical view of each node.

use vstd::prelude::*;
use crate::types::EvidenceStrength;

verus! {

/// A NEX program: its statements in order.
#[derive(Debug, PartialEq, Eq)]
pub struct Program {
    pub statements: Vec<Stmt>,
}

/// What an `act` statement asks for.
#[derive(Debug, Clone, Copy, PartialEq, Eq, Structural)]
pub enum Action {
    Allow,
    Deny,
    Escalate,
}

/// One statement.
#[derive(Debug, PartialEq, Eq)]
pub enum Stmt {
    Use { path: String },
    Node { id: String, value: Expr, strength: EvidenceStrength },
    Attest { id: String, witness_count: usize, external: bool },
    Derive { id: String, left: String, right: String, ty: Type },
    Assert { id: String, min: EvidenceStrength },
    Act { id: String, action: Action, requires: EvidenceStrength },
    If { condition: Condition, then_body: Vec<Stmt>, else_body: Vec<Stmt> },
    On { trigger: Trigger, actions: Vec<ReactiveAction> },
}

/// A value expression.
#[derive(Debug, Clone, PartialEq, Eq)]
pub enum Expr {
    IntLit(i64),
    StrLit(String),
    Ident(String),
}

/// Value type of a derivation.
#[derive(Debug, Clone, Copy, PartialEq, Eq, Structural)]
pub enum Type {
    I64,
    String,
}

/// Comparator of a condition.
#[derive(Debug, Clone, Copy, PartialEq, Eq, Structural)]
pub enum Comparator {
    Gte,
    Lte,
    Gt,
    Lt,
    Eq,
}

/// Logical connective joining two comparisons.
#[derive(Debug, Clone, Copy, PartialEq, Eq, Structural)]
pub enum LogicalOp {
    And,
    Or,
}

/// Condition `left_id <cmp> strength [&&/|| right_id <cmp> strength2]`.
#[derive(Debug, Clone, PartialEq, Eq)]
pub struct Condition {
    pub left_id: String,
    pub comparator: Comparator,
    pub right_strength: EvidenceStrength,
    pub op: Option<LogicalOp>,
    pub right_id: Option<String>,
    pub right_comparator: Option<Comparator>,
    pub right_strength2: Option<EvidenceStrength>,
}

/// Event pattern of a reactive rule. Reputation values are counted in
/// thousandths (a reputation of 0.3 is 300).
#[derive(Debug, Clone, Copy, PartialEq, Eq, Structural)]
pub enum Trigger {
    HeartbeatMiss { threshold: u32 },
    ReputationBelow { threshold: u32 },
    PeerConnected,
    PeerDisconnected,
}

/// Bounded action of a reactive rule.
#[derive(Debug, Clone, PartialEq, Eq)]
pub enum ReactiveAction {
    Log(String),
    Emit(String),
    MarkInactive { peer: String },
    AdjustReputation { peer: String, delta: i32 },
}

/// Mathematical view of an expression.
pub enum ExprV {
    IntLit(int),
    StrLit(Seq<char>),
    Ident(Seq<char>),
}

/// Mathematical view of a condition.
pub struct ConditionV {
    pub left_id: Seq<char>,
    pub comparator: Comparator,
    pub right_strength: EvidenceStrength,
    pub op: Option<LogicalOp>,
    pub right_id: Option<Seq<char>>,
    pub right_comparator: Option<Comparator>,
    pub right_strength2: Option<EvidenceStrength>,
}

/// Mathematical view of a reactive action.
pub enum ReactiveActionV {
    Log(Seq<char>),
    Emit(Seq<char>),
    MarkInactive { peer: Seq<char> },
    AdjustReputation { peer: Seq<char>, delta: int },
}

/// Mathematical view of a statement.
pub enum StmtV {
    Use { path: Seq<char> },
    Node { id: Seq<char>, value: ExprV, strength: EvidenceStrength },
    Attest { id: Seq<char>, witness_count: nat, external: bool },
    Derive { id: Seq<char>, left: Seq<char>, right: Seq<char>, ty: Type },
    Assert { id: Seq<char>, min: EvidenceStrength },
    Act { id: Seq<char>, action: Action, requires: EvidenceStrength },
    If { condition: ConditionV, then_body: Seq<StmtV>, else_body: Seq<StmtV> },
    On { trigger: Trigger, actions: Seq<ReactiveActionV> },
}

impl View for Expr {
    type V = ExprV;

    open spec fn view(&self) -> ExprV {
        match self {
            Expr::IntLit(v) => ExprV::IntLit(*v as int),
            Expr::StrLit(s) => ExprV::StrLit(s@),
            Expr::Ident(s) => ExprV::Ident(s@),
        }
    }
}

/// View of an optional text.
pub open spec fn opt_text_view(o: Option<String>) -> Option<Seq<char>> {
    match o {
        Some(s) => Some(s@),
        None => None,
    }
}

impl View for Condition {
    type V = ConditionV;

    open spec fn view(&self) -> ConditionV {
        ConditionV {
            left_id: self.left_id@,
            comparator: self.comparator,
            right_strength: self.right_strength,
            op: self.op,
            right_id: opt_text_view(self.right_id),
            right_comparator: self.right_comparator,
            right_strength2: self.right_strength2,
        }
    }
}

impl View for ReactiveAction {
    type V = ReactiveActionV;

    open spec fn view(&self) -> ReactiveActionV {
        match self {
            ReactiveAction::Log(m) => ReactiveActionV::Log(m@),
            ReactiveAction::Emit(m) => ReactiveActionV::Emit(m@),
            ReactiveAction::MarkInactive { peer } => ReactiveActionV::MarkInactive { peer: peer@ },
            ReactiveAction::AdjustReputation { peer, delta } => ReactiveActionV::AdjustReputation {
                peer: peer@,
                delta: *delta as int,
            },
        }
    }
}

/// View of a sequence of reactive actions.
pub open spec fn actions_view(v: Seq<ReactiveAction>) -> Seq<ReactiveActionV> {
    v.map_values(|a: ReactiveAction| a@)
}

/// View of one statement.
pub open spec fn stmt_view(s: Stmt) -> StmtV
    decreases s, 0nat,
{
    match s {
        Stmt::Use { path } => StmtV::Use { path: path@ },
        Stmt::Node { id, value, strength } => StmtV::Node { id: id@, value: value@, strength },
        Stmt::Attest { id, witness_count, external } => StmtV::Attest {
            id: id@,
            witness_count: witness_count as nat,
            external,
        },
        Stmt::Derive { id, left, right, ty } => StmtV::Derive { id: id@, left: left@, right: right@, ty },
        Stmt::Assert { id, min } => StmtV::Assert { id: id@, min },
        Stmt::Act { id, action, requires } => StmtV::Act { id: id@, action, requires },
        Stmt::If { condition, then_body, else_body } => StmtV::If {
            condition: condition@,
            then_body: stmts_view(then_body@),
            else_body: stmts_view(else_body@),
        },
        Stmt::On { trigger, actions } => StmtV::On { trigger, actions: actions_view(actions@) },
    }
}

/// View of a sequence of statements.
pub open spec fn stmts_view(v: Seq<Stmt>) -> Seq<StmtV>
    decreases v, 1nat,
{
    if v.len() == 0 {
        Seq::empty()
    } else {
        seq![stmt_view(v[0])] + stmts_view(v.subrange(1, v.len() as int))
    }
}

impl View for Program {
    type V = Seq<StmtV>;

    open spec fn view(&self) -> Seq<StmtV> {
        stmts_view(self.statements@)
    }
}

/// The view of a statement list is the view of each statement, in order.
pub proof fn lemma_stmts_view_index(v: Seq<Stmt>)
    ensures
        stmts_view(v).len() == v.len(),
        forall|i: int| 0 <= i < v.len() ==> #[trigger] stmts_view(v)[i] == stmt_view(v[i]),
    decreases v.len(),
{
    if v.len() > 0 {
        let tail = v.subrange(1, v.len() as int);
        lemma_stmts_view_index(tail);
        assert forall|i: int| 0 <= i < v.len() implies #[trigger] stmts_view(v)[i] == stmt_view(v[i]) by {
            if i > 0 {
                assert(tail[i - 1] == v[i]);
            }
        }
    }
}

/// Appending a statement appends its view.
pub proof fn lemma_stmts_view_push(v: Seq<Stmt>, s: Stmt)
    ensures
        stmts_view(v.push(s)) == stmts_view(v).push(stmt_view(s)),
{
    lemma_stmts_view_index(v);
    lemma_stmts_view_index(v.push(s));
    assert(stmts_view(v.push(s)) =~= stmts_view(v).push(stmt_view(s)));
}

} // verus!
