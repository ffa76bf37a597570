//! The NEX statement grammar, one statement per line.

use vstd::prelude::*;
use crate::types::EvidenceStrength;
use crate::nex::ast::{
    Action, Comparator, Condition, ConditionV, Expr, ExprV, LogicalOp, Program, Stmt, StmtV, Type,
    stmt_view, stmts_view,
};
use crate::nex::lexer::{
    kind_text, lex_line, spec_lex, syntax, toks_view, KindV, ParseError, ParseErrorV, TokV, Token,
    TokenKind,
};
use crate::nex::NEX_VERSION;
use crate::nex::ast::{lemma_stmts_view_push};
use crate::text::{
    chars_of, eq_str, is_whitespace, lines_view, lower_chars, matches_at, occurs_at, push_str,
    spec_is_whitespace, spec_lines, spec_lower, spec_trim, spec_trim_start, split_lines,
    string_eq_str, string_from_chars, sub_chars, to_string, trim_chars, trim_start_chars,
};

verus! {

/// Maps the error of an exec result to its view.
pub open spec fn res_view<T>(r: Result<T, ParseError>) -> Result<T, ParseErrorV> {
    match r {
        Ok(v) => Ok(v),
        Err(e) => Err(e@),
    }
}

/// Maps an exec text result to its view.
pub open spec fn res_text(r: Result<String, ParseError>) -> Result<Seq<char>, ParseErrorV> {
    match r {
        Ok(v) => Ok(v@),
        Err(e) => Err(e@),
    }
}

/// Maps an exec statement result to its view.
pub open spec fn res_stmt(r: Result<Stmt, ParseError>) -> Result<StmtV, ParseErrorV> {
    match r {
        Ok(s) => Ok(stmt_view(s)),
        Err(e) => Err(e@),
    }
}

/// Maps an exec expression result to its view.
pub open spec fn res_expr(r: Result<Expr, ParseError>) -> Result<ExprV, ParseErrorV> {
    match r {
        Ok(x) => Ok(x@),
        Err(e) => Err(e@),
    }
}

/// The word a token holds.
pub open spec fn spec_word(t: TokV, line: nat) -> Result<Seq<char>, ParseErrorV> {
    match t.kind {
        KindV::Word(w) => Ok(w),
        other => Err(syntax(line, t.column, "expected identifier or keyword, found '"@ + kind_text(other) + "'"@)),
    }
}

/// The word at position `idx`, or `msg` at column `idx + 1` when it is missing.
pub open spec fn spec_expect_word(t: Seq<TokV>, idx: int, line: nat, msg: Seq<char>) -> Result<Seq<char>, ParseErrorV> {
    if 0 <= idx < t.len() {
        spec_word(t[idx], line)
    } else {
        Err(syntax(line, (idx + 1) as nat, msg))
    }
}

/// An `=` at position `idx`.
pub open spec fn spec_expect_eq(t: Seq<TokV>, idx: int, line: nat, msg: Seq<char>) -> Result<(), ParseErrorV> {
    if 0 <= idx < t.len() {
        if t[idx].kind is Eq { Ok(()) } else { Err(syntax(line, t[idx].column, msg)) }
    } else {
        Err(syntax(line, (idx + 1) as nat, msg))
    }
}

/// No token at position `idx` or after.
pub open spec fn spec_ensure_end(t: Seq<TokV>, idx: int, line: nat) -> Result<(), ParseErrorV> {
    if 0 <= idx < t.len() {
        Err(syntax(line, t[idx].column, "unexpected token '"@ + kind_text(t[idx].kind) + "'"@))
    } else {
        Ok(())
    }
}

/// A strength keyword, case-insensitively.
pub open spec fn spec_strength(t: TokV, line: nat) -> Result<EvidenceStrength, ParseErrorV> {
    match spec_word(t, line) {
        Err(e) => Err(e),
        Ok(w) => {
            let v = spec_lower(w);
            if v == "unverifiable"@ { Ok(EvidenceStrength::Unverifiable) }
            else if v == "local"@ { Ok(EvidenceStrength::Local) }
            else if v == "witnessed"@ { Ok(EvidenceStrength::Witnessed) }
            else if v == "signed"@ { Ok(EvidenceStrength::Signed) }
            else if v == "anchored"@ { Ok(EvidenceStrength::Anchored) }
            else { Err(syntax(line, t.column, "unknown strength '"@ + v + "'"@)) }
        },
    }
}

/// An action keyword, case-insensitively.
pub open spec fn spec_action(t: TokV, line: nat) -> Result<Action, ParseErrorV> {
    match spec_word(t, line) {
        Err(e) => Err(e),
        Ok(w) => {
            let v = spec_lower(w);
            if v == "allow"@ { Ok(Action::Allow) }
            else if v == "deny"@ { Ok(Action::Deny) }
            else if v == "escalate"@ { Ok(Action::Escalate) }
            else { Err(syntax(line, t.column, "unknown action '"@ + v + "'"@)) }
        },
    }
}

/// A type keyword, case-insensitively.
pub open spec fn spec_type(t: TokV, line: nat) -> Result<Type, ParseErrorV> {
    match spec_word(t, line) {
        Err(e) => Err(e),
        Ok(w) => {
            let v = spec_lower(w);
            if v == "i64"@ { Ok(Type::I64) }
            else if v == "string"@ { Ok(Type::String) }
            else { Err(syntax(line, t.column, "unknown type '"@ + v + "'"@)) }
        },
    }
}

/// A boolean literal, case-insensitively.
pub open spec fn spec_bool(t: TokV, line: nat) -> Result<bool, ParseErrorV> {
    match spec_word(t, line) {
        Err(e) => Err(e),
        Ok(w) => {
            let v = spec_lower(w);
            if v == "true"@ { Ok(true) }
            else if v == "false"@ { Ok(false) }
            else { Err(syntax(line, t.column, "expected bool literal, found '"@ + v + "'"@)) }
        },
    }
}

/// A value expression (errors here report line 0).
pub open spec fn spec_expr(t: TokV) -> Result<ExprV, ParseErrorV> {
    match t.kind {
        KindV::Int(v) => Ok(ExprV::IntLit(v)),
        KindV::Str(s) => Ok(ExprV::StrLit(s)),
        KindV::Word(w) => Ok(ExprV::Ident(w)),
        other => Err(syntax(0, t.column, "unexpected token '"@ + kind_text(other) + "' in value expression"@)),
    }
}

/// A dotted import path: non-empty segments, no slash or backslash.
pub open spec fn valid_import_path(p: Seq<char>) -> bool {
    &&& p.len() > 0
    &&& p[0] != '.'
    &&& p[p.len() - 1] != '.'
    &&& forall|i: int| 0 <= i < p.len() - 1 ==> !(#[trigger] p[i] == '.' && p[i + 1] == '.')
    &&& forall|i: int| 0 <= i < p.len() ==> p[i] != '/' && p[i] != '\\'
}

/// An import path token.
pub open spec fn spec_import_path(t: TokV, line: nat) -> Result<Seq<char>, ParseErrorV> {
    match spec_word(t, line) {
        Err(e) => Err(e),
        Ok(p) => if valid_import_path(p) { Ok(p) } else { Err(syntax(line, t.column, "invalid import path"@)) },
    }
}

// ------------------------------------------------------------------
// Exec helpers
// ------------------------------------------------------------------

fn err_at(line: usize, column: usize, msg: &str) -> (e: ParseError)
    ensures
        e@ == syntax(line as nat, column as nat, msg@),
{
    let mut m = String::new();
    push_str(&mut m, msg);
    ParseError::new(line, column, m)
}

fn quoted_err(line: usize, column: usize, before: &str, mid: &String, after: &str) -> (e: ParseError)
    ensures
        e@ == syntax(line as nat, column as nat, before@ + mid@ + after@),
{
    let mut m = String::new();
    push_str(&mut m, before);
    push_str(&mut m, mid.as_str());
    push_str(&mut m, after);
    ParseError::new(line, column, m)
}

/// The word a token holds.
pub fn word(token: &Token, line_no: usize) -> (r: Result<String, ParseError>)
    ensures
        res_text(r) == spec_word(token@, line_no as nat),
{
    match &token.kind {
        TokenKind::Word(w) => Ok(w.clone()),
        other => {
            let text = other.as_text();
            Err(quoted_err(line_no, token.column, "expected identifier or keyword, found '", &text, "'"))
        }
    }
}

/// The word at `idx`, or `message` when it is missing.
pub fn expect_word(tokens: &Vec<Token>, idx: usize, line_no: usize, message: &str) -> (r: Result<String, ParseError>)
    requires
        idx < usize::MAX,
    ensures
        res_text(r) == spec_expect_word(toks_view(tokens@), idx as int, line_no as nat, message@),
{
    if idx < tokens.len() {
        word(&tokens[idx], line_no)
    } else {
        Err(err_at(line_no, idx + 1, message))
    }
}

/// An `=` at `idx`.
pub fn expect_eq(tokens: &Vec<Token>, idx: usize, line_no: usize, message: &str) -> (r: Result<(), ParseError>)
    requires
        idx < usize::MAX,
    ensures
        res_view(r) == spec_expect_eq(toks_view(tokens@), idx as int, line_no as nat, message@),
{
    if idx < tokens.len() {
        if let TokenKind::Eq = tokens[idx].kind {
            Ok(())
        } else {
            Err(err_at(line_no, tokens[idx].column, message))
        }
    } else {
        Err(err_at(line_no, idx + 1, message))
    }
}

/// No token at `idx`.
pub fn ensure_end(tokens: &Vec<Token>, idx: usize, line_no: usize) -> (r: Result<(), ParseError>)
    ensures
        res_view(r) == spec_ensure_end(toks_view(tokens@), idx as int, line_no as nat),
{
    if idx < tokens.len() {
        let text = tokens[idx].kind.as_text();
        Err(quoted_err(line_no, tokens[idx].column, "unexpected token '", &text, "'"))
    } else {
        Ok(())
    }
}

fn lowered_word(w: &String) -> (r: Vec<char>)
    ensures
        r@ == spec_lower(w@),
{
    lower_chars(&chars_of(w.as_str()))
}

/// A strength keyword.
pub fn parse_strength(token: &Token, line_no: usize) -> (r: Result<EvidenceStrength, ParseError>)
    ensures
        res_view(r) == spec_strength(token@, line_no as nat),
{
    let w = match word(token, line_no) {
        Ok(w) => w,
        Err(e) => return Err(e),
    };
    let v = lowered_word(&w);
    if eq_str(&v, "unverifiable") { Ok(EvidenceStrength::Unverifiable) }
    else if eq_str(&v, "local") { Ok(EvidenceStrength::Local) }
    else if eq_str(&v, "witnessed") { Ok(EvidenceStrength::Witnessed) }
    else if eq_str(&v, "signed") { Ok(EvidenceStrength::Signed) }
    else if eq_str(&v, "anchored") { Ok(EvidenceStrength::Anchored) }
    else { Err(quoted_err(line_no, token.column, "unknown strength '", &string_from_chars(&v), "'")) }
}

/// An action keyword.
pub fn parse_action(token: &Token, line_no: usize) -> (r: Result<Action, ParseError>)
    ensures
        res_view(r) == spec_action(token@, line_no as nat),
{
    let w = match word(token, line_no) {
        Ok(w) => w,
        Err(e) => return Err(e),
    };
    let v = lowered_word(&w);
    if eq_str(&v, "allow") { Ok(Action::Allow) }
    else if eq_str(&v, "deny") { Ok(Action::Deny) }
    else if eq_str(&v, "escalate") { Ok(Action::Escalate) }
    else { Err(quoted_err(line_no, token.column, "unknown action '", &string_from_chars(&v), "'")) }
}

/// A type keyword.
pub fn parse_type(token: &Token, line_no: usize) -> (r: Result<Type, ParseError>)
    ensures
        res_view(r) == spec_type(token@, line_no as nat),
{
    let w = match word(token, line_no) {
        Ok(w) => w,
        Err(e) => return Err(e),
    };
    let v = lowered_word(&w);
    if eq_str(&v, "i64") { Ok(Type::I64) }
    else if eq_str(&v, "string") { Ok(Type::String) }
    else { Err(quoted_err(line_no, token.column, "unknown type '", &string_from_chars(&v), "'")) }
}

/// A boolean literal.
pub fn parse_bool(token: &Token, line_no: usize) -> (r: Result<bool, ParseError>)
    ensures
        res_view(r) == spec_bool(token@, line_no as nat),
{
    let w = match word(token, line_no) {
        Ok(w) => w,
        Err(e) => return Err(e),
    };
    let v = lowered_word(&w);
    if eq_str(&v, "true") { Ok(true) }
    else if eq_str(&v, "false") { Ok(false) }
    else { Err(quoted_err(line_no, token.column, "expected bool literal, found '", &string_from_chars(&v), "'")) }
}

/// A value expression.
pub fn parse_expr(token: &Token) -> (r: Result<Expr, ParseError>)
    ensures
        res_expr(r) == spec_expr(token@),
{
    match &token.kind {
        TokenKind::Int(v) => Ok(Expr::IntLit(*v)),
        TokenKind::Str(s) => Ok(Expr::StrLit(s.clone())),
        TokenKind::Word(w) => Ok(Expr::Ident(w.clone())),
        other => {
            let text = other.as_text();
            Err(quoted_err(0, token.column, "unexpected token '", &text, "' in value expression"))
        }
    }
}

fn is_valid_import_path(p: &Vec<char>) -> (b: bool)
    ensures
        b == valid_import_path(p@),
{
    let n = p.len();
    if n == 0 || p[0] == '.' || p[n - 1] == '.' {
        return false;
    }
    let mut i: usize = 0;
    while i < n
        invariant
            n == p@.len(),
            n > 0,
            i <= n,
            forall|k: int| 0 <= k < i && k < n - 1 ==> !(#[trigger] p@[k] == '.' && p@[k + 1] == '.'),
            forall|k: int| 0 <= k < i ==> p@[k] != '/' && p@[k] != '\\',
        decreases n - i,
    {
        if p[i] == '/' || p[i] == '\\' {
            return false;
        }
        if i + 1 < n && p[i] == '.' && p[i + 1] == '.' {
            return false;
        }
        i += 1;
    }
    true
}

/// An import path token.
pub fn parse_import_path(token: &Token, line_no: usize) -> (r: Result<String, ParseError>)
    ensures
        res_text(r) == spec_import_path(token@, line_no as nat),
{
    let p = match word(token, line_no) {
        Ok(p) => p,
        Err(e) => return Err(e),
    };
    if is_valid_import_path(&chars_of(p.as_str())) {
        Ok(p)
    } else {
        Err(err_at(line_no, token.column, "invalid import path"))
    }
}

// ------------------------------------------------------------------
// Statements
// ------------------------------------------------------------------

/// Every token column leaves room for one more.
pub open spec fn cols_bounded(t: Seq<TokV>) -> bool {
    forall|i: int| 0 <= i < t.len() ==> #[trigger] t[i].column < usize::MAX
}

/// `use <path>`.
pub open spec fn spec_parse_use(t: Seq<TokV>, line: nat) -> Result<StmtV, ParseErrorV> {
    if t.len() <= 1 {
        Err(syntax(line, t[0].column + 1, "expected import path after 'use'"@))
    } else {
        match spec_import_path(t[1], line) {
            Err(e) => Err(e),
            Ok(path) => match spec_ensure_end(t, 2, line) {
                Err(e) => Err(e),
                Ok(_) => Ok(StmtV::Use { path }),
            },
        }
    }
}

/// `let <id> = node <value> <strength>`.
pub open spec fn spec_let_node(t: Seq<TokV>, line: nat, id: Seq<char>) -> Result<StmtV, ParseErrorV> {
    if t.len() <= 4 {
        Err(syntax(line, t[3].column, "missing value expression after 'node'"@))
    } else {
        match spec_expr(t[4]) {
            Err(e) => Err(e),
            Ok(value) => if t.len() <= 5 {
                Err(syntax(line, t[4].column, "missing strength after node value"@))
            } else {
                match spec_strength(t[5], line) {
                    Err(e) => Err(e),
                    Ok(strength) => match spec_ensure_end(t, 6, line) {
                        Err(e) => Err(e),
                        Ok(_) => Ok(StmtV::Node { id, value, strength }),
                    },
                }
            },
        }
    }
}

/// `let <id> = <left> derive <right> as <type>`.
pub open spec fn spec_let_derive(t: Seq<TokV>, line: nat, id: Seq<char>, left: Seq<char>) -> Result<StmtV, ParseErrorV> {
    if t.len() <= 4 {
        Err(syntax(line, t[3].column, "expected 'derive' after left identifier"@))
    } else {
        match spec_word(t[4], line) {
            Err(e) => Err(e),
            Ok(dw) => if dw != "derive"@ {
                Err(syntax(line, t[4].column, "expected 'derive' after left identifier"@))
            } else {
                match spec_expect_word(t, 5, line, "expected right identifier after 'derive'"@) {
                    Err(e) => Err(e),
                    Ok(right) => if t.len() <= 6 {
                        Err(syntax(line, t[4].column, "expected 'as' after right identifier"@))
                    } else {
                        match spec_word(t[6], line) {
                            Err(e) => Err(e),
                            Ok(aw) => if aw != "as"@ {
                                Err(syntax(line, t[6].column, "expected 'as' after right identifier"@))
                            } else if t.len() <= 7 {
                                Err(syntax(line, t[6].column, "missing type after 'as'"@))
                            } else {
                                match spec_type(t[7], line) {
                                    Err(e) => Err(e),
                                    Ok(ty) => match spec_ensure_end(t, 8, line) {
                                        Err(e) => Err(e),
                                        Ok(_) => Ok(StmtV::Derive { id, left, right, ty }),
                                    },
                                }
                            },
                        }
                    },
                }
            },
        }
    }
}

/// `let ...`: a node or a derivation.
pub open spec fn spec_parse_let(t: Seq<TokV>, line: nat) -> Result<StmtV, ParseErrorV> {
    match spec_expect_word(t, 1, line, "expected identifier after 'let'"@) {
        Err(e) => Err(e),
        Ok(id) => match spec_expect_eq(t, 2, line, "expected '=' after identifier"@) {
            Err(e) => Err(e),
            Ok(_) => if t.len() <= 3 {
                Err(syntax(line, t[2].column + 1, "expected expression after '='"@))
            } else {
                match t[3].kind {
                    KindV::Word(w) => if w == "node"@ {
                        spec_let_node(t, line, id)
                    } else {
                        spec_let_derive(t, line, id, w)
                    },
                    other => Err(syntax(line, t[3].column,
                        "expected 'node' or identifier after '=' but found '"@ + kind_text(other) + "'"@)),
                }
            },
        },
    }
}

/// `attest <id> with <count> external <bool>`.
pub open spec fn spec_parse_attest(t: Seq<TokV>, line: nat) -> Result<StmtV, ParseErrorV> {
    match spec_expect_word(t, 1, line, "expected identifier after 'attest'"@) {
        Err(e) => Err(e),
        Ok(id) => if t.len() <= 2 {
            Err(syntax(line, t[1].column + 1, "expected 'with' after identifier"@))
        } else {
            match spec_word(t[2], line) {
                Err(e) => Err(e),
                Ok(ww) => if ww != "with"@ {
                    Err(syntax(line, t[2].column, "expected 'with' after identifier"@))
                } else if t.len() <= 3 {
                    Err(syntax(line, t[2].column, "missing witness count after 'with'"@))
                } else {
                    match t[3].kind {
                        KindV::Int(v) => if v < 0 {
                            Err(syntax(line, t[3].column, "witness count must be non-negative"@))
                        } else if t.len() <= 4 {
                            Err(syntax(line, t[3].column, "expected 'external' after witness count"@))
                        } else {
                            match spec_word(t[4], line) {
                                Err(e) => Err(e),
                                Ok(xw) => if xw != "external"@ {
                                    Err(syntax(line, t[4].column, "expected 'external' after witness count"@))
                                } else if t.len() <= 5 {
                                    Err(syntax(line, t[4].column, "missing bool after 'external'"@))
                                } else {
                                    match spec_bool(t[5], line) {
                                        Err(e) => Err(e),
                                        Ok(external) => match spec_ensure_end(t, 6, line) {
                                            Err(e) => Err(e),
                                            Ok(_) => Ok(StmtV::Attest {
                                                id,
                                                witness_count: (v as usize) as nat,
                                                external,
                                            }),
                                        },
                                    }
                                },
                            }
                        },
                        _ => Err(syntax(line, t[3].column, "expected integer witness count"@)),
                    }
                },
            }
        },
    }
}

/// `assert <id> >= <strength>`.
pub open spec fn spec_parse_assert(t: Seq<TokV>, line: nat) -> Result<StmtV, ParseErrorV> {
    match spec_expect_word(t, 1, line, "expected identifier after 'assert'"@) {
        Err(e) => Err(e),
        Ok(id) => if t.len() <= 2 {
            Err(syntax(line, t[1].column + 1, "expected '>=' after identifier"@))
        } else if !(t[2].kind is Gte) {
            Err(syntax(line, t[2].column, "expected '>=' after identifier"@))
        } else if t.len() <= 3 {
            Err(syntax(line, t[2].column, "missing strength after '>='"@))
        } else {
            match spec_strength(t[3], line) {
                Err(e) => Err(e),
                Ok(min) => match spec_ensure_end(t, 4, line) {
                    Err(e) => Err(e),
                    Ok(_) => Ok(StmtV::Assert { id, min }),
                },
            }
        },
    }
}

/// `act <id> = <action> requires <strength>`.
pub open spec fn spec_parse_act(t: Seq<TokV>, line: nat) -> Result<StmtV, ParseErrorV> {
    match spec_expect_word(t, 1, line, "expected identifier after 'act'"@) {
        Err(e) => Err(e),
        Ok(id) => match spec_expect_eq(t, 2, line, "expected '=' after identifier"@) {
            Err(e) => Err(e),
            Ok(_) => if t.len() <= 3 {
                Err(syntax(line, t[2].column + 1, "missing action after '='"@))
            } else {
                match spec_action(t[3], line) {
                    Err(e) => Err(e),
                    Ok(action) => if t.len() <= 4 {
                        Err(syntax(line, t[3].column, "expected 'requires' after action"@))
                    } else {
                        match spec_word(t[4], line) {
                            Err(e) => Err(e),
                            Ok(rw) => if spec_lower(rw) != "requires"@ {
                                Err(syntax(line, t[4].column, "expected 'requires' after action"@))
                            } else if t.len() <= 5 {
                                Err(syntax(line, t[4].column, "missing strength after 'requires'"@))
                            } else {
                                match spec_strength(t[5], line) {
                                    Err(e) => Err(e),
                                    Ok(needed) => match spec_ensure_end(t, 6, line) {
                                        Err(e) => Err(e),
                                        Ok(_) => Ok(StmtV::Act { id, action, requires: needed }),
                                    },
                                }
                            },
                        }
                    },
                }
            },
        },
    }
}

/// The optional `&& <id> >= <strength>` / `|| ...` part of an `if`.
pub open spec fn spec_if_second(t: Seq<TokV>, line: nat) -> Result<Option<(LogicalOp, Seq<char>, EvidenceStrength)>, ParseErrorV> {
    if t.len() <= 4 {
        Ok(None)
    } else {
        match spec_word(t[4], line) {
            Err(e) => Err(e),
            Ok(w) => if w == "&&"@ || w == "||"@ {
                let op = if w == "&&"@ { LogicalOp::And } else { LogicalOp::Or };
                match spec_expect_word(t, 5, line, "expected identifier after '&&'"@) {
                    Err(e) => Err(e),
                    Ok(id2) => if t.len() <= 6 {
                        Err(syntax(line, t[5].column + 1, "expected '>=' after identifier"@))
                    } else if !(t[6].kind is Gte) {
                        Err(syntax(line, t[6].column, "expected '>=' after identifier"@))
                    } else if t.len() <= 7 {
                        Err(syntax(line, t[6].column, "missing strength after '>='"@))
                    } else {
                        match spec_strength(t[7], line) {
                            Err(e) => Err(e),
                            Ok(s2) => Ok(Some((op, id2, s2))),
                        }
                    },
                }
            } else {
                Ok(None)
            },
        }
    }
}

/// `if <id> >= <strength> [&&/|| <id> >= <strength>] : <action>`.
pub open spec fn spec_parse_if(t: Seq<TokV>, line: nat) -> Result<StmtV, ParseErrorV> {
    match spec_expect_word(t, 1, line, "expected identifier after 'if'"@) {
        Err(e) => Err(e),
        Ok(id) => if t.len() <= 2 {
            Err(syntax(line, t[1].column + 1, "expected '>=' after identifier"@))
        } else if !(t[2].kind is Gte) {
            Err(syntax(line, t[2].column, "expected '>=' after identifier"@))
        } else if t.len() <= 3 {
            Err(syntax(line, t[2].column, "missing strength after '>='"@))
        } else {
            match spec_strength(t[3], line) {
                Err(e) => Err(e),
                Ok(rs) => match spec_if_second(t, line) {
                    Err(e) => Err(e),
                    Ok(second) => {
                        let ci: int = if second is Some { 8 } else { 4 };
                        if ci < t.len() && t[ci].kind == KindV::Word(":"@) {
                            if ci + 1 >= t.len() {
                                Err(syntax(line, t[ci].column, "expected action after ':'"@))
                            } else {
                                match spec_action(t[ci + 1], line) {
                                    Err(e) => Err(e),
                                    Ok(action) => Ok(StmtV::If {
                                        condition: ConditionV {
                                            left_id: id,
                                            comparator: Comparator::Gte,
                                            right_strength: rs,
                                            op: match second { Some((op, _, _)) => Some(op), None => None },
                                            right_id: match second { Some((_, i2, _)) => Some(i2), None => None },
                                            right_comparator: match second { Some(_) => Some(Comparator::Gte), None => None },
                                            right_strength2: match second { Some((_, _, s2)) => Some(s2), None => None },
                                        },
                                        then_body: seq![StmtV::Act { id, action, requires: rs }],
                                        else_body: Seq::empty(),
                                    }),
                                }
                            }
                        } else {
                            Err(syntax(line, t[t.len() - 1].column, "expected ':' after condition in if statement"@))
                        }
                    },
                },
            }
        },
    }
}

/// One statement, chosen by its leading keyword.
pub open spec fn spec_parse_statement(t: Seq<TokV>, line: nat) -> Result<StmtV, ParseErrorV> {
    if t.len() == 0 {
        Err(syntax(line, 1, "empty statement"@))
    } else {
        match spec_word(t[0], line) {
            Err(e) => Err(e),
            Ok(k) => if k == "use"@ { spec_parse_use(t, line) }
                else if k == "let"@ { spec_parse_let(t, line) }
                else if k == "attest"@ { spec_parse_attest(t, line) }
                else if k == "assert"@ { spec_parse_assert(t, line) }
                else if k == "act"@ { spec_parse_act(t, line) }
                else if k == "if"@ { spec_parse_if(t, line) }
                else { Err(syntax(line, t[0].column, "unknown keyword '"@ + k + "'"@)) },
        }
    }
}

// ------------------------------------------------------------------
// Exec statement parsers
// ------------------------------------------------------------------

fn parse_use(tokens: &Vec<Token>, line_no: usize) -> (r: Result<Stmt, ParseError>)
    requires
        tokens.len() >= 1,
        cols_bounded(toks_view(tokens@)),
    ensures
        res_stmt(r) == spec_parse_use(toks_view(tokens@), line_no as nat),
{
    let ghost t = toks_view(tokens@);
    if tokens.len() <= 1 {
        assert(t[0].column < usize::MAX);
        return Err(err_at(line_no, tokens[0].column + 1, "expected import path after 'use'"));
    }
    let path = match parse_import_path(&tokens[1], line_no) {
        Ok(p) => p,
        Err(e) => return Err(e),
    };
    match ensure_end(tokens, 2, line_no) {
        Ok(_) => {},
        Err(e) => return Err(e),
    }
    Ok(Stmt::Use { path })
}

fn parse_let_node(tokens: &Vec<Token>, line_no: usize, id: String) -> (r: Result<Stmt, ParseError>)
    requires
        tokens.len() >= 4,
    ensures
        res_stmt(r) == spec_let_node(toks_view(tokens@), line_no as nat, id@),
{
    if tokens.len() <= 4 {
        return Err(err_at(line_no, tokens[3].column, "missing value expression after 'node'"));
    }
    let value = match parse_expr(&tokens[4]) {
        Ok(v) => v,
        Err(e) => return Err(e),
    };
    if tokens.len() <= 5 {
        return Err(err_at(line_no, tokens[4].column, "missing strength after node value"));
    }
    let strength = match parse_strength(&tokens[5], line_no) {
        Ok(s) => s,
        Err(e) => return Err(e),
    };
    match ensure_end(tokens, 6, line_no) {
        Ok(_) => {},
        Err(e) => return Err(e),
    }
    Ok(Stmt::Node { id, value, strength })
}

fn parse_let_derive(tokens: &Vec<Token>, line_no: usize, id: String, left: String) -> (r: Result<Stmt, ParseError>)
    requires
        tokens.len() >= 4,
    ensures
        res_stmt(r) == spec_let_derive(toks_view(tokens@), line_no as nat, id@, left@),
{
    if tokens.len() <= 4 {
        return Err(err_at(line_no, tokens[3].column, "expected 'derive' after left identifier"));
    }
    let dw = match word(&tokens[4], line_no) {
        Ok(w) => w,
        Err(e) => return Err(e),
    };
    if !string_eq_str(&dw, "derive") {
        return Err(err_at(line_no, tokens[4].column, "expected 'derive' after left identifier"));
    }
    let right = match expect_word(tokens, 5, line_no, "expected right identifier after 'derive'") {
        Ok(w) => w,
        Err(e) => return Err(e),
    };
    if tokens.len() <= 6 {
        return Err(err_at(line_no, tokens[4].column, "expected 'as' after right identifier"));
    }
    let aw = match word(&tokens[6], line_no) {
        Ok(w) => w,
        Err(e) => return Err(e),
    };
    if !string_eq_str(&aw, "as") {
        return Err(err_at(line_no, tokens[6].column, "expected 'as' after right identifier"));
    }
    if tokens.len() <= 7 {
        return Err(err_at(line_no, tokens[6].column, "missing type after 'as'"));
    }
    let ty = match parse_type(&tokens[7], line_no) {
        Ok(ty) => ty,
        Err(e) => return Err(e),
    };
    match ensure_end(tokens, 8, line_no) {
        Ok(_) => {},
        Err(e) => return Err(e),
    }
    Ok(Stmt::Derive { id, left, right, ty })
}

fn parse_let(tokens: &Vec<Token>, line_no: usize) -> (r: Result<Stmt, ParseError>)
    requires
        tokens.len() >= 1,
        cols_bounded(toks_view(tokens@)),
    ensures
        res_stmt(r) == spec_parse_let(toks_view(tokens@), line_no as nat),
{
    let ghost t = toks_view(tokens@);
    let id = match expect_word(tokens, 1, line_no, "expected identifier after 'let'") {
        Ok(w) => w,
        Err(e) => return Err(e),
    };
    match expect_eq(tokens, 2, line_no, "expected '=' after identifier") {
        Ok(_) => {},
        Err(e) => return Err(e),
    }
    if tokens.len() <= 3 {
        assert(t[2].column < usize::MAX);
        return Err(err_at(line_no, tokens[2].column + 1, "expected expression after '='"));
    }
    match &tokens[3].kind {
        TokenKind::Word(w) => {
            if string_eq_str(w, "node") {
                parse_let_node(tokens, line_no, id)
            } else {
                parse_let_derive(tokens, line_no, id, w.clone())
            }
        },
        other => {
            let text = other.as_text();
            Err(quoted_err(line_no, tokens[3].column, "expected 'node' or identifier after '=' but found '", &text, "'"))
        },
    }
}

fn parse_attest(tokens: &Vec<Token>, line_no: usize) -> (r: Result<Stmt, ParseError>)
    requires
        tokens.len() >= 1,
        cols_bounded(toks_view(tokens@)),
    ensures
        res_stmt(r) == spec_parse_attest(toks_view(tokens@), line_no as nat),
{
    let ghost t = toks_view(tokens@);
    let id = match expect_word(tokens, 1, line_no, "expected identifier after 'attest'") {
        Ok(w) => w,
        Err(e) => return Err(e),
    };
    if tokens.len() <= 2 {
        assert(t[1].column < usize::MAX);
        return Err(err_at(line_no, tokens[1].column + 1, "expected 'with' after identifier"));
    }
    let ww = match word(&tokens[2], line_no) {
        Ok(w) => w,
        Err(e) => return Err(e),
    };
    if !string_eq_str(&ww, "with") {
        return Err(err_at(line_no, tokens[2].column, "expected 'with' after identifier"));
    }
    if tokens.len() <= 3 {
        return Err(err_at(line_no, tokens[2].column, "missing witness count after 'with'"));
    }
    let witness_count: usize = match &tokens[3].kind {
        TokenKind::Int(v) => {
            if *v < 0 {
                return Err(err_at(line_no, tokens[3].column, "witness count must be non-negative"));
            }
            *v as usize
        },
        _ => return Err(err_at(line_no, tokens[3].column, "expected integer witness count")),
    };
    if tokens.len() <= 4 {
        return Err(err_at(line_no, tokens[3].column, "expected 'external' after witness count"));
    }
    let xw = match word(&tokens[4], line_no) {
        Ok(w) => w,
        Err(e) => return Err(e),
    };
    if !string_eq_str(&xw, "external") {
        return Err(err_at(line_no, tokens[4].column, "expected 'external' after witness count"));
    }
    if tokens.len() <= 5 {
        return Err(err_at(line_no, tokens[4].column, "missing bool after 'external'"));
    }
    let external = match parse_bool(&tokens[5], line_no) {
        Ok(b) => b,
        Err(e) => return Err(e),
    };
    match ensure_end(tokens, 6, line_no) {
        Ok(_) => {},
        Err(e) => return Err(e),
    }
    Ok(Stmt::Attest { id, witness_count, external })
}

fn parse_assert(tokens: &Vec<Token>, line_no: usize) -> (r: Result<Stmt, ParseError>)
    requires
        tokens.len() >= 1,
        cols_bounded(toks_view(tokens@)),
    ensures
        res_stmt(r) == spec_parse_assert(toks_view(tokens@), line_no as nat),
{
    let ghost t = toks_view(tokens@);
    let id = match expect_word(tokens, 1, line_no, "expected identifier after 'assert'") {
        Ok(w) => w,
        Err(e) => return Err(e),
    };
    if tokens.len() <= 2 {
        assert(t[1].column < usize::MAX);
        return Err(err_at(line_no, tokens[1].column + 1, "expected '>=' after identifier"));
    }
    if !matches!(tokens[2].kind, TokenKind::Gte) {
        return Err(err_at(line_no, tokens[2].column, "expected '>=' after identifier"));
    }
    if tokens.len() <= 3 {
        return Err(err_at(line_no, tokens[2].column, "missing strength after '>='"));
    }
    let min = match parse_strength(&tokens[3], line_no) {
        Ok(s) => s,
        Err(e) => return Err(e),
    };
    match ensure_end(tokens, 4, line_no) {
        Ok(_) => {},
        Err(e) => return Err(e),
    }
    Ok(Stmt::Assert { id, min })
}

fn parse_act(tokens: &Vec<Token>, line_no: usize) -> (r: Result<Stmt, ParseError>)
    requires
        tokens.len() >= 1,
        cols_bounded(toks_view(tokens@)),
    ensures
        res_stmt(r) == spec_parse_act(toks_view(tokens@), line_no as nat),
{
    let ghost t = toks_view(tokens@);
    let id = match expect_word(tokens, 1, line_no, "expected identifier after 'act'") {
        Ok(w) => w,
        Err(e) => return Err(e),
    };
    match expect_eq(tokens, 2, line_no, "expected '=' after identifier") {
        Ok(_) => {},
        Err(e) => return Err(e),
    }
    if tokens.len() <= 3 {
        assert(t[2].column < usize::MAX);
        return Err(err_at(line_no, tokens[2].column + 1, "missing action after '='"));
    }
    let action = match parse_action(&tokens[3], line_no) {
        Ok(a) => a,
        Err(e) => return Err(e),
    };
    if tokens.len() <= 4 {
        return Err(err_at(line_no, tokens[3].column, "expected 'requires' after action"));
    }
    let rw = match word(&tokens[4], line_no) {
        Ok(w) => w,
        Err(e) => return Err(e),
    };
    if !eq_str(&lowered_word(&rw), "requires") {
        return Err(err_at(line_no, tokens[4].column, "expected 'requires' after action"));
    }
    if tokens.len() <= 5 {
        return Err(err_at(line_no, tokens[4].column, "missing strength after 'requires'"));
    }
    let needed = match parse_strength(&tokens[5], line_no) {
        Ok(s) => s,
        Err(e) => return Err(e),
    };
    match ensure_end(tokens, 6, line_no) {
        Ok(_) => {},
        Err(e) => return Err(e),
    }
    Ok(Stmt::Act { id, action, requires: needed })
}

fn parse_if_second(tokens: &Vec<Token>, line_no: usize) -> (r: Result<Option<(LogicalOp, String, EvidenceStrength)>, ParseError>)
    requires
        tokens.len() >= 4,
        cols_bounded(toks_view(tokens@)),
    ensures
        match (r, spec_if_second(toks_view(tokens@), line_no as nat)) {
            (Ok(None), Ok(None)) => true,
            (Ok(Some((op, id2, s2))), Ok(Some((sop, sid2, ss2)))) => op == sop && id2@ == sid2 && s2 == ss2,
            (Err(e), Err(se)) => e@ == se,
            _ => false,
        },
{
    let ghost t = toks_view(tokens@);
    if tokens.len() <= 4 {
        return Ok(None);
    }
    let w = match word(&tokens[4], line_no) {
        Ok(w) => w,
        Err(e) => return Err(e),
    };
    let is_and = string_eq_str(&w, "&&");
    let is_or = string_eq_str(&w, "||");
    if !is_and && !is_or {
        return Ok(None);
    }
    let op = if is_and { LogicalOp::And } else { LogicalOp::Or };
    let id2 = match expect_word(tokens, 5, line_no, "expected identifier after '&&'") {
        Ok(w) => w,
        Err(e) => return Err(e),
    };
    if tokens.len() <= 6 {
        assert(t[5].column < usize::MAX);
        return Err(err_at(line_no, tokens[5].column + 1, "expected '>=' after identifier"));
    }
    if !matches!(tokens[6].kind, TokenKind::Gte) {
        return Err(err_at(line_no, tokens[6].column, "expected '>=' after identifier"));
    }
    if tokens.len() <= 7 {
        return Err(err_at(line_no, tokens[6].column, "missing strength after '>='"));
    }
    let s2 = match parse_strength(&tokens[7], line_no) {
        Ok(s) => s,
        Err(e) => return Err(e),
    };
    Ok(Some((op, id2, s2)))
}

fn is_colon(token: &Token) -> (b: bool)
    ensures
        b == (token@.kind == KindV::Word(":"@)),
{
    match &token.kind {
        TokenKind::Word(w) => string_eq_str(w, ":"),
        _ => false,
    }
}

fn parse_if(tokens: &Vec<Token>, line_no: usize) -> (r: Result<Stmt, ParseError>)
    requires
        tokens.len() >= 1,
        cols_bounded(toks_view(tokens@)),
    ensures
        res_stmt(r) == spec_parse_if(toks_view(tokens@), line_no as nat),
{
    let ghost t = toks_view(tokens@);
    let id = match expect_word(tokens, 1, line_no, "expected identifier after 'if'") {
        Ok(w) => w,
        Err(e) => return Err(e),
    };
    if tokens.len() <= 2 {
        assert(t[1].column < usize::MAX);
        return Err(err_at(line_no, tokens[1].column + 1, "expected '>=' after identifier"));
    }
    if !matches!(tokens[2].kind, TokenKind::Gte) {
        return Err(err_at(line_no, tokens[2].column, "expected '>=' after identifier"));
    }
    if tokens.len() <= 3 {
        return Err(err_at(line_no, tokens[2].column, "missing strength after '>='"));
    }
    let right_strength = match parse_strength(&tokens[3], line_no) {
        Ok(s) => s,
        Err(e) => return Err(e),
    };
    let second = match parse_if_second(tokens, line_no) {
        Ok(s) => s,
        Err(e) => return Err(e),
    };
    let ci: usize = if second.is_some() { 8 } else { 4 };
    if ci < tokens.len() && is_colon(&tokens[ci]) {
        if ci + 1 >= tokens.len() {
            return Err(err_at(line_no, tokens[ci].column, "expected action after ':'"));
        }
        let action = match parse_action(&tokens[ci + 1], line_no) {
            Ok(a) => a,
            Err(e) => return Err(e),
        };
        let (op, right_id, right_comparator, right_strength2) = match second {
            Some((op, id2, s2)) => (Some(op), Some(id2), Some(Comparator::Gte), Some(s2)),
            None => (None, None, None, None),
        };
        let condition = Condition {
            left_id: id.clone(),
            comparator: Comparator::Gte,
            right_strength,
            op,
            right_id,
            right_comparator,
            right_strength2,
        };
        let ghost id_v = id@;
        let mut then_body: Vec<Stmt> = Vec::new();
        then_body.push(Stmt::Act { id, action, requires: right_strength });
        let else_body: Vec<Stmt> = Vec::new();
        proof {
            let tail = then_body@.subrange(1, 1);
            assert(tail =~= Seq::<Stmt>::empty());
            assert(stmts_view(tail) =~= Seq::<StmtV>::empty());
            assert(then_body@.len() == 1);
            assert(stmt_view(then_body@[0]) == StmtV::Act { id: id_v, action, requires: right_strength });
            assert(stmts_view(then_body@) == seq![stmt_view(then_body@[0])] + stmts_view(tail));
            assert(stmts_view(then_body@) =~= seq![StmtV::Act { id: id_v, action, requires: right_strength }]);
            assert(stmts_view(else_body@) =~= Seq::<StmtV>::empty());
        }
        Ok(Stmt::If { condition, then_body, else_body })
    } else {
        Err(err_at(line_no, tokens[tokens.len() - 1].column, "expected ':' after condition in if statement"))
    }
}

/// One statement, chosen by its leading keyword.
pub fn parse_statement(tokens: &Vec<Token>, line_no: usize) -> (r: Result<Stmt, ParseError>)
    requires
        cols_bounded(toks_view(tokens@)),
    ensures
        res_stmt(r) == spec_parse_statement(toks_view(tokens@), line_no as nat),
{
    if tokens.len() == 0 {
        return Err(err_at(line_no, 1, "empty statement"));
    }
    let k = match word(&tokens[0], line_no) {
        Ok(w) => w,
        Err(e) => return Err(e),
    };
    if string_eq_str(&k, "use") {
        parse_use(tokens, line_no)
    } else if string_eq_str(&k, "let") {
        parse_let(tokens, line_no)
    } else if string_eq_str(&k, "attest") {
        parse_attest(tokens, line_no)
    } else if string_eq_str(&k, "assert") {
        parse_assert(tokens, line_no)
    } else if string_eq_str(&k, "act") {
        parse_act(tokens, line_no)
    } else if string_eq_str(&k, "if") {
        parse_if(tokens, line_no)
    } else {
        Err(quoted_err(line_no, tokens[0].column, "unknown keyword '", &k, "'"))
    }
}

// ------------------------------------------------------------------
// Whole programs
// ------------------------------------------------------------------

/// The version a `// nex-version: <v>` header names, if the (left-trimmed)
/// line is one.
pub open spec fn spec_version_header(tr: Seq<char>) -> Option<Seq<char>> {
    if tr.len() >= 2 && tr[0] == '/' && tr[1] == '/' {
        let h = spec_trim_start(tr.subrange(2, tr.len() as int));
        if occurs_at(h, "nex-version:"@, 0) {
            Some(spec_trim(h.subrange("nex-version:"@.len() as int, h.len() as int)))
        } else {
            None
        }
    } else {
        None
    }
}

/// A (left-trimmed) line that starts with `#` or `//`.
pub open spec fn spec_is_comment_line(tr: Seq<char>) -> bool {
    (tr.len() >= 1 && tr[0] == '#') || (tr.len() >= 2 && tr[0] == '/' && tr[1] == '/')
}

/// Puts the statements `pre` in front of a successful parse.
pub open spec fn prefix_stmts(pre: Seq<StmtV>, r: Result<Seq<StmtV>, ParseErrorV>) -> Result<Seq<StmtV>, ParseErrorV> {
    match r {
        Ok(rest) => Ok(pre + rest),
        Err(e) => Err(e),
    }
}

/// The statements of lines `k..` (line number `k + 1` for index `k`); before
/// the first statement, blank lines, comments and a version header are skipped.
pub open spec fn spec_parse_from(ls: Seq<Seq<char>>, k: int, seen: bool) -> Result<Seq<StmtV>, ParseErrorV>
    decreases ls.len() - k,
{
    if k < 0 || k >= ls.len() {
        Ok(Seq::empty())
    } else {
        let raw = ls[k];
        let line = (k + 1) as nat;
        let tr = spec_trim_start(raw);
        if tr.len() == 0 {
            spec_parse_from(ls, k + 1, seen)
        } else if !seen && spec_version_header(tr) is Some {
            let found = spec_version_header(tr)->0;
            if found != NEX_VERSION@ {
                Err(ParseErrorV::UnsupportedVersion { found, supported: NEX_VERSION@ })
            } else {
                spec_parse_from(ls, k + 1, seen)
            }
        } else if !seen && spec_is_comment_line(tr) {
            spec_parse_from(ls, k + 1, seen)
        } else {
            match spec_lex(raw, 0, line) {
                Err(e) => Err(e),
                Ok(ts) => if ts.len() == 0 {
                    spec_parse_from(ls, k + 1, seen)
                } else {
                    match spec_parse_statement(ts, line) {
                        Err(e) => Err(e),
                        Ok(st) => prefix_stmts(seq![st], spec_parse_from(ls, k + 1, true)),
                    }
                },
            }
        }
    }
}

/// The program a NEX source text denotes, or the first error in it.
pub open spec fn spec_parse(source: Seq<char>) -> Result<Seq<StmtV>, ParseErrorV> {
    spec_parse_from(spec_lines(source), 0, false)
}

proof fn lemma_prefix_stmts(pre: Seq<StmtV>, st: StmtV, r: Result<Seq<StmtV>, ParseErrorV>)
    ensures
        prefix_stmts(pre, prefix_stmts(seq![st], r)) == prefix_stmts(pre.push(st), r),
{
    if let Ok(rest) = r {
        assert(pre + (seq![st] + rest) =~= pre.push(st) + rest);
    }
}

/// The version named by a `// nex-version:` header line.
fn parse_version_header(tr: &Vec<char>) -> (r: Option<Vec<char>>)
    ensures
        match spec_version_header(tr@) {
            Some(v) => r matches Some(x) && x@ == v,
            None => r is None,
        },
{
    if tr.len() < 2 || tr[0] != '/' || tr[1] != '/' {
        return None;
    }
    let h = trim_start_chars(&sub_chars(tr, 2, tr.len()));
    let pfx = chars_of("nex-version:");
    if !matches_at(&h, &pfx, 0) {
        return None;
    }
    Some(trim_chars(&sub_chars(&h, pfx.len(), h.len())))
}

/// A line that starts with `#` or `//`.
fn is_comment_line(tr: &Vec<char>) -> (b: bool)
    ensures
        b == spec_is_comment_line(tr@),
{
    (tr.len() >= 1 && tr[0] == '#') || (tr.len() >= 2 && tr[0] == '/' && tr[1] == '/')
}

/// Parses a NEX source text into a program.
pub fn parse(source: &str) -> (r: Result<Program, ParseError>)
    requires
        source@.len() < usize::MAX,
    ensures
        match spec_parse(source@) {
            Ok(p) => r matches Ok(prog) && prog@ == p,
            Err(e) => r matches Err(x) && x@ == e,
        },
{
    let chars = chars_of(source);
    let lines = split_lines(&chars);
    let ghost ls = lines_view(lines@);
    let mut statements: Vec<Stmt> = Vec::new();
    let mut seen = false;
    let mut k: usize = 0;
    while k < lines.len()
        invariant
            ls == lines_view(lines@),
            ls == spec_lines(source@),
            chars@ == source@,
            chars.len() < usize::MAX,
            k <= lines.len(),
            forall|i: int| 0 <= i < lines.len() ==> #[trigger] lines[i].len() <= chars.len(),
            spec_parse(source@) == prefix_stmts(stmts_view(statements@), spec_parse_from(ls, k as int, seen)),
        decreases lines.len() - k,
    {
        let raw = &lines[k];
        let line_no = k + 1;
        let ghost before = stmts_view(statements@);
        assert(raw@ == ls[k as int]);
        let tr = trim_start_chars(raw);
        if tr.len() == 0 {
            k += 1;
            continue;
        }
        if !seen {
            match parse_version_header(&tr) {
                Some(found) => {
                    if !eq_str(&found, NEX_VERSION) {
                        return Err(ParseError::UnsupportedVersion {
                            found: string_from_chars(&found),
                            supported: to_string(NEX_VERSION),
                        });
                    }
                    k += 1;
                    continue;
                },
                None => {},
            }
            if is_comment_line(&tr) {
                k += 1;
                continue;
            }
        }
        let tokens = match lex_line(raw, line_no) {
            Ok(t) => t,
            Err(e) => return Err(e),
        };
        if tokens.len() == 0 {
            k += 1;
            continue;
        }
        proof {
            assert forall|i: int| 0 <= i < toks_view(tokens@).len()
                implies #[trigger] toks_view(tokens@)[i].column < usize::MAX by {
                assert(toks_view(tokens@)[i] == tokens@[i]@);
            }
        }
        seen = true;
        let st = match parse_statement(&tokens, line_no) {
            Ok(st) => st,
            Err(e) => return Err(e),
        };
        proof {
            lemma_stmts_view_push(statements@, st);
            lemma_prefix_stmts(before, stmt_view(st), spec_parse_from(ls, k + 1, true));
        }
        statements.push(st);
        k += 1;
    }
    Ok(Program { statements })
}

} // verus!
