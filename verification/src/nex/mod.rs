//! NEX: a small language for evidence-graded decisions.

pub mod action_executor;
pub mod checkpoint;
pub mod ast;
pub mod behavior;
pub mod eval;
pub mod imports;
pub mod internet;
pub mod iteration;
pub mod layers;
pub mod lexer;
pub mod manifesto;
pub mod observer;
pub mod parser;
pub mod reactive;
pub mod self_awareness;

use vstd::prelude::*;

verus! {

/// The language version that source headers must name.
pub const NEX_VERSION: &'static str = "1.0.0";

/// Revision of the statement grammar.
pub const NEX_GRAMMAR_VERSION: u32 = 1;

} // verus!
