//! Layers of the NEX language. The basic layer describes evidence (`let`,
//! `assert`, `act`, `derive`, `attest`); the intermediate layer adds
//! conditionals (`if`); the advanced layer adds reactive rules (`on`). A layer
//! may only use what the layers below it offer.

use vstd::prelude::*;
use crate::nex::ast::{lemma_stmts_view_index, stmt_view, stmts_view, Stmt, StmtV};
use crate::text::push_str;

verus! {

/// Complexity level of a NEX program.
#[derive(Debug, Clone, Copy, PartialEq, Eq, Structural, PartialOrd, Ord, Hash)]
pub enum NexLayer {
    /// `let`, `assert`, `act`, `derive`, `attest`.
    Basic,
    /// Adds `if` conditionals.
    Intermediate,
    /// Adds `on <trigger>` reactive rules.
    Advanced,
}

impl NexLayer {
    /// Position of the layer, from the bottom.
    pub open spec fn level(self) -> nat {
        match self {
            NexLayer::Basic => 0,
            NexLayer::Intermediate => 1,
            NexLayer::Advanced => 2,
        }
    }

    /// Name of the layer as it appears in messages.
    pub open spec fn spec_name(self) -> Seq<char> {
        match self {
            NexLayer::Basic => "basic"@,
            NexLayer::Intermediate => "intermediate"@,
            NexLayer::Advanced => "advanced"@,
        }
    }

    /// Name of the layer as it appears in messages.
    pub fn as_str(self) -> (s: &'static str)
        ensures
            s@ == self.spec_name(),
    {
        match self {
            NexLayer::Basic => "basic",
            NexLayer::Intermediate => "intermediate",
            NexLayer::Advanced => "advanced",
        }
    }
}

/// The higher of two layers.
pub open spec fn layer_max(a: NexLayer, b: NexLayer) -> NexLayer {
    if a.level() >= b.level() { a } else { b }
}

/// The layer one statement needs.
pub open spec fn stmt_layer(s: StmtV) -> NexLayer {
    match s {
        StmtV::If { .. } => NexLayer::Intermediate,
        StmtV::On { .. } => NexLayer::Advanced,
        _ => NexLayer::Basic,
    }
}

/// The layer a list of statements needs: the highest layer any of them needs.
pub open spec fn spec_required_layer(s: Seq<StmtV>) -> NexLayer
    decreases s.len(),
{
    if s.len() == 0 {
        NexLayer::Basic
    } else {
        layer_max(spec_required_layer(s.drop_last()), stmt_layer(s.last()))
    }
}

/// The required layer covers every statement, and is needed by one of them
/// unless it is the basic layer.
pub proof fn lemma_required_layer_is_least(s: Seq<StmtV>)
    ensures
        forall|i: int| 0 <= i < s.len() ==> #[trigger] stmt_layer(s[i]).level() <= spec_required_layer(s).level(),
        spec_required_layer(s) == NexLayer::Basic
            || exists|i: int| 0 <= i < s.len() && #[trigger] stmt_layer(s[i]) == spec_required_layer(s),
    decreases s.len(),
{
    if s.len() > 0 {
        let init = s.drop_last();
        lemma_required_layer_is_least(init);
        assert forall|i: int| 0 <= i < s.len() implies #[trigger] stmt_layer(s[i]).level() <= spec_required_layer(s).level() by {
            if i < s.len() - 1 {
                assert(s[i] == init[i]);
            }
        }
        if spec_required_layer(s) != NexLayer::Basic {
            if spec_required_layer(s) == stmt_layer(s.last()) {
                assert(stmt_layer(s[s.len() - 1]) == spec_required_layer(s));
            } else {
                let j = choose|j: int| 0 <= j < init.len() && #[trigger] stmt_layer(init[j]) == spec_required_layer(init);
                assert(s[j] == init[j]);
                assert(stmt_layer(s[j]) == spec_required_layer(s));
            }
        }
    }
}

/// The layer a list of statements needs: the highest layer any of them needs.
pub fn required_layer(statements: &[Stmt]) -> (r: NexLayer)
    ensures
        r == spec_required_layer(stmts_view(statements@)),
{
    let ghost sv = stmts_view(statements@);
    proof { lemma_stmts_view_index(statements@); }
    let mut max_layer = NexLayer::Basic;
    let mut i: usize = 0;
    while i < statements.len()
        invariant
            i <= statements.len(),
            sv == stmts_view(statements@),
            sv.len() == statements.len(),
            forall|k: int| 0 <= k < statements.len() ==> #[trigger] sv[k] == stmt_view(statements@[k]),
            max_layer == spec_required_layer(sv.take(i as int)),
        decreases statements.len() - i,
    {
        assert(sv.take(i + 1).drop_last() =~= sv.take(i as int));
        assert(sv.take(i + 1).last() == sv[i as int]);
        match &statements[i] {
            Stmt::If { .. } => {
                if max_layer == NexLayer::Basic {
                    max_layer = NexLayer::Intermediate;
                }
            },
            Stmt::On { .. } => {
                max_layer = NexLayer::Advanced;
            },
            _ => {},
        }
        i += 1;
    }
    assert(sv.take(i as int) =~= sv);
    max_layer
}

/// A program needs more than the available layer.
#[derive(Debug, Clone, Copy, PartialEq, Eq, Structural)]
pub enum LayerError {
    InsufficientLayer { required: NexLayer, available: NexLayer },
}

impl LayerError {
    /// The message of the error.
    pub open spec fn spec_message(self) -> Seq<char> {
        match self {
            LayerError::InsufficientLayer { required, available } =>
                "program requires "@ + required.spec_name() + " layer, but only "@ + available.spec_name()
                    + " is available"@,
        }
    }

    /// The message of the error.
    pub fn message(&self) -> (m: String)
        ensures
            m@ == self.spec_message(),
    {
        match self {
            LayerError::InsufficientLayer { required, available } => {
                let mut m = String::new();
                push_str(&mut m, "program requires ");
                push_str(&mut m, required.as_str());
                push_str(&mut m, " layer, but only ");
                push_str(&mut m, available.as_str());
                push_str(&mut m, " is available");
                m
            },
        }
    }
}

/// Checks that a program fits in the available layer.
pub fn validate_layer(statements: &[Stmt], available: NexLayer) -> (r: Result<(), LayerError>)
    ensures
        r is Ok <==> spec_required_layer(stmts_view(statements@)).level() <= available.level(),
        r matches Err(e) ==> e == (LayerError::InsufficientLayer {
            required: spec_required_layer(stmts_view(statements@)),
            available,
        }),
{
    let required = required_layer(statements);
    let above = match (required, available) {
        (NexLayer::Intermediate, NexLayer::Basic) => true,
        (NexLayer::Advanced, NexLayer::Basic) => true,
        (NexLayer::Advanced, NexLayer::Intermediate) => true,
        _ => false,
    };
    if above {
        return Err(LayerError::InsufficientLayer { required, available });
    }
    Ok(())
}

/// A program fits in a layer exactly when every one of its statements does.
pub proof fn law_fits_iff_every_statement_fits(s: Seq<StmtV>, available: NexLayer)
    ensures
        spec_required_layer(s).level() <= available.level()
            <==> forall|i: int| 0 <= i < s.len() ==> #[trigger] stmt_layer(s[i]).level() <= available.level(),
{
    lemma_required_layer_is_least(s);
    if forall|i: int| 0 <= i < s.len() ==> #[trigger] stmt_layer(s[i]).level() <= available.level() {
        if spec_required_layer(s) != NexLayer::Basic {
            let j = choose|j: int| 0 <= j < s.len() && #[trigger] stmt_layer(s[j]) == spec_required_layer(s);
            assert(stmt_layer(s[j]).level() <= available.level());
        }
    }
}

/// A program that fits in a layer fits in every higher layer.
pub proof fn law_fit_is_monotone(s: Seq<StmtV>, lower: NexLayer, higher: NexLayer)
    requires
        lower.level() <= higher.level(),
        spec_required_layer(s).level() <= lower.level(),
    ensures
        spec_required_layer(s).level() <= higher.level(),
{
}

/// Adding statements never lowers the layer a program needs.
pub proof fn law_required_layer_grows(s: Seq<StmtV>, t: Seq<StmtV>)
    ensures
        spec_required_layer(s).level() <= spec_required_layer(s + t).level(),
    decreases t.len(),
{
    if t.len() > 0 {
        law_required_layer_grows(s, t.drop_last());
        assert((s + t).drop_last() =~= s + t.drop_last());
    } else {
        assert(s + t =~= s);
    }
}

} // verus!
