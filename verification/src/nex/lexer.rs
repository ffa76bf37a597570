//! Tokens of a NEX source line.

use vstd::prelude::*;
use crate::text::{
    chars_of, digit_char, is_digit, is_whitespace, push_char, push_decimal, push_int_decimal, push_str,
    spec_decimal,
    spec_int_decimal, spec_is_digit, spec_is_whitespace, string_from_chars, sub_chars,
};

verus! {

/// A syntax error at a line and column, or an unsupported version header.
#[derive(Debug, Clone, PartialEq, Eq)]
pub enum ParseError {
    Syntax { line: usize, column: usize, message: String },
    UnsupportedVersion { found: String, supported: String },
}

/// Mathematical view of a parse error.
pub enum ParseErrorV {
    Syntax { line: nat, column: nat, message: Seq<char> },
    UnsupportedVersion { found: Seq<char>, supported: Seq<char> },
}

impl View for ParseError {
    type V = ParseErrorV;

    open spec fn view(&self) -> ParseErrorV {
        match self {
            ParseError::Syntax { line, column, message } => ParseErrorV::Syntax {
                line: *line as nat,
                column: *column as nat,
                message: message@,
            },
            ParseError::UnsupportedVersion { found, supported } => ParseErrorV::UnsupportedVersion {
                found: found@,
                supported: supported@,
            },
        }
    }
}

/// A syntax error value.
pub open spec fn syntax(line: nat, column: nat, message: Seq<char>) -> ParseErrorV {
    ParseErrorV::Syntax { line, column, message }
}

impl ParseError {
    /// Builds a syntax error.
    pub fn new(line: usize, column: usize, message: String) -> (e: Self)
        ensures
            e@ == syntax(line as nat, column as nat, message@),
    {
        ParseError::Syntax { line, column, message }
    }

    /// The error as text: `line L:C: message`, or the version mismatch.
    pub fn to_string(&self) -> (s: String)
        ensures
            s@ == spec_error_text(self@),
    {
        let mut s = String::new();
        match self {
            ParseError::Syntax { line, column, message } => {
                push_str(&mut s, "line ");
                push_decimal(&mut s, *line as u64);
                push_char(&mut s, ':');
                push_decimal(&mut s, *column as u64);
                push_str(&mut s, ": ");
                push_str(&mut s, message.as_str());
            },
            ParseError::UnsupportedVersion { found, supported } => {
                push_str(&mut s, "unsupported nex version '");
                push_str(&mut s, found.as_str());
                push_str(&mut s, "', supported version is '");
                push_str(&mut s, supported.as_str());
                push_char(&mut s, '\'');
            },
        }
        proof {
            reveal_strlit("line ");
            reveal_strlit(": ");
            reveal_strlit("unsupported nex version '");
            reveal_strlit("', supported version is '");
        }
        s
    }
}

/// The text of an error.
pub open spec fn spec_error_text(e: ParseErrorV) -> Seq<char> {
    match e {
        ParseErrorV::Syntax { line, column, message } => "line "@ + spec_decimal(line)
            + seq![':'] + spec_decimal(column) + ": "@ + message,
        ParseErrorV::UnsupportedVersion { found, supported } => "unsupported nex version '"@
            + found + "', supported version is '"@ + supported + seq!['\''],
    }
}

/// Kind of a token.
#[derive(Debug, Clone, PartialEq, Eq)]
pub enum TokenKind {
    Word(String),
    Int(i64),
    Str(String),
    Eq,
    Gte,
}

/// A token and the (1-based) column where it starts.
#[derive(Debug, Clone, PartialEq, Eq)]
pub struct Token {
    pub kind: TokenKind,
    pub column: usize,
}

/// Mathematical view of a token kind.
pub enum KindV {
    Word(Seq<char>),
    Int(int),
    Str(Seq<char>),
    Eq,
    Gte,
}

/// Mathematical view of a token.
pub struct TokV {
    pub kind: KindV,
    pub column: nat,
}

impl View for TokenKind {
    type V = KindV;

    open spec fn view(&self) -> KindV {
        match self {
            TokenKind::Word(w) => KindV::Word(w@),
            TokenKind::Int(v) => KindV::Int(*v as int),
            TokenKind::Str(s) => KindV::Str(s@),
            TokenKind::Eq => KindV::Eq,
            TokenKind::Gte => KindV::Gte,
        }
    }
}

impl View for Token {
    type V = TokV;

    open spec fn view(&self) -> TokV {
        TokV { kind: self.kind@, column: self.column as nat }
    }
}

/// View of a token list.
pub open spec fn toks_view(v: Seq<Token>) -> Seq<TokV> {
    v.map_values(|t: Token| t@)
}

/// How a token is shown in messages.
pub open spec fn kind_text(k: KindV) -> Seq<char> {
    match k {
        KindV::Word(w) => w,
        KindV::Int(v) => spec_int_decimal(v),
        KindV::Str(s) => crate::text::str_debug_of(s),
        KindV::Eq => "="@,
        KindV::Gte => ">="@,
    }
}

impl TokenKind {
    /// How the token is shown in messages.
    pub fn as_text(&self) -> (r: String)
        ensures
            r@ == kind_text(self@),
    {
        match self {
            TokenKind::Word(w) => w.clone(),
            TokenKind::Int(v) => {
                let mut s = String::new();
                push_int_decimal(&mut s, *v);
                s
            }
            TokenKind::Str(s) => crate::text::str_debug(s.as_str()),
            TokenKind::Eq => {
                let mut s = String::new();
                push_str(&mut s, "=");
                s
            }
            TokenKind::Gte => {
                let mut s = String::new();
                push_str(&mut s, ">=");
                s
            }
        }
    }
}

// ------------------------------------------------------------------
// Lexical grammar
// ------------------------------------------------------------------

/// A comment starts at `j`: `#`, or `//`.
pub open spec fn comment_at(c: Seq<char>, j: int) -> bool {
    c[j] == '#' || (c[j] == '/' && j + 1 < c.len() && c[j + 1] == '/')
}

/// A word cannot continue through position `j`.
pub open spec fn word_stop(c: Seq<char>, j: int) -> bool {
    spec_is_whitespace(c[j]) || c[j] == '#' || c[j] == '=' || c[j] == '"' || c[j] == '>'
        || (c[j] == '/' && j + 1 < c.len() && c[j + 1] == '/')
}

/// End of the word whose remaining characters start at `j`.
pub open spec fn word_end(c: Seq<char>, j: int) -> int
    decreases c.len() - j,
{
    if j < 0 || j >= c.len() || word_stop(c, j) {
        j
    } else {
        word_end(c, j + 1)
    }
}

/// End of the run of digits starting at `j`.
pub open spec fn digits_end(c: Seq<char>, j: int) -> int
    decreases c.len() - j,
{
    if 0 <= j < c.len() && spec_is_digit(c[j]) {
        digits_end(c, j + 1)
    } else {
        j
    }
}

/// The character an escape sequence `\x` stands for.
pub open spec fn unescape(x: char) -> char {
    if x == 'n' { '\n' } else if x == 't' { '\t' } else { x }
}

/// Contents of a string literal whose body starts at `j`, and the position
/// after its closing quote; `None` when it is not terminated.
pub open spec fn scan_string(c: Seq<char>, j: int) -> Option<(Seq<char>, int)>
    decreases c.len() - j,
{
    if j < 0 || j >= c.len() {
        None
    } else if c[j] == '"' {
        Some((Seq::<char>::empty(), j + 1))
    } else if c[j] == '\\' {
        if j + 1 >= c.len() {
            None
        } else {
            match scan_string(c, j + 2) {
                Some((v, k)) => Some((seq![unescape(c[j + 1])] + v, k)),
                None => None,
            }
        }
    } else {
        match scan_string(c, j + 1) {
            Some((v, k)) => Some((seq![c[j]] + v, k)),
            None => None,
        }
    }
}

/// Value of a run of decimal digits.
pub open spec fn digits_value(s: Seq<char>) -> nat
    decreases s.len(),
{
    if s.len() == 0 {
        0
    } else {
        10 * digits_value(s.drop_last()) + ((s.last() as u32) - ('0' as u32)) as nat
    }
}

/// `i64::from_str` on an optional minus followed by digits: the value, or the
/// overflow message.
pub open spec fn spec_parse_i64(text: Seq<char>) -> Result<int, Seq<char>> {
    if text.len() > 0 && text[0] == '-' {
        let v = digits_value(text.skip(1)) as int;
        if v > 0x8000_0000_0000_0000 {
            Err("number too small to fit in target type"@)
        } else {
            Ok(-v)
        }
    } else {
        let v = digits_value(text) as int;
        if v > 0x7fff_ffff_ffff_ffff {
            Err("number too large to fit in target type"@)
        } else {
            Ok(v)
        }
    }
}

/// The integer token for `text`, or the error at `col`.
pub open spec fn int_token(text: Seq<char>, col: nat, line: nat) -> Result<TokV, ParseErrorV> {
    match spec_parse_i64(text) {
        Ok(v) => Ok(TokV { kind: KindV::Int(v), column: col }),
        Err(m) => Err(syntax(line, col, "invalid integer literal '"@ + text + "': "@ + m)),
    }
}

/// Puts `t` in front of the tokens of a successful lexing.
pub open spec fn cons_tok(t: TokV, r: Result<Seq<TokV>, ParseErrorV>) -> Result<Seq<TokV>, ParseErrorV> {
    match r {
        Ok(ts) => Ok(seq![t] + ts),
        Err(e) => Err(e),
    }
}

/// Puts `ts` in front of the tokens of a successful lexing.
pub open spec fn prefix_toks(ts: Seq<TokV>, r: Result<Seq<TokV>, ParseErrorV>) -> Result<Seq<TokV>, ParseErrorV> {
    match r {
        Ok(rest) => Ok(ts + rest),
        Err(e) => Err(e),
    }
}

/// Tokens of the line `c` from position `j` on, for line number `line`.
pub open spec fn spec_lex(c: Seq<char>, j: int, line: nat) -> Result<Seq<TokV>, ParseErrorV>
    decreases c.len() - j,
{
    if j < 0 || j >= c.len() {
        Ok(Seq::empty())
    } else if spec_is_whitespace(c[j]) {
        spec_lex(c, j + 1, line)
    } else if comment_at(c, j) {
        Ok(Seq::empty())
    } else {
        let col = (j + 1) as nat;
        if c[j] == '=' {
            cons_tok(TokV { kind: KindV::Eq, column: col }, spec_lex(c, j + 1, line))
        } else if c[j] == '>' && j + 1 < c.len() && c[j + 1] == '=' {
            cons_tok(TokV { kind: KindV::Gte, column: col }, spec_lex(c, j + 2, line))
        } else if c[j] == '"' {
            match scan_string(c, j + 1) {
                None => Err(syntax(line, col, "unterminated string literal"@)),
                Some((v, k)) => if j < k <= c.len() {
                    cons_tok(TokV { kind: KindV::Str(v), column: col }, spec_lex(c, k, line))
                } else {
                    Err(syntax(line, col, "unterminated string literal"@))
                },
            }
        } else if (c[j] == '-' && j + 1 < c.len() && spec_is_digit(c[j + 1])) || spec_is_digit(c[j]) {
            let end = digits_end(c, j + 1);
            match int_token(c.subrange(j, end), col, line) {
                Ok(t) => if j < end <= c.len() { cons_tok(t, spec_lex(c, end, line)) } else { Ok(Seq::empty()) },
                Err(e) => Err(e),
            }
        } else {
            let end = word_end(c, j + 1);
            if j < end <= c.len() {
                cons_tok(TokV { kind: KindV::Word(c.subrange(j, end)), column: col }, spec_lex(c, end, line))
            } else {
                Ok(Seq::empty())
            }
        }
    }
}

proof fn lemma_word_end_bounds(c: Seq<char>, j: int)
    requires
        0 <= j <= c.len(),
    ensures
        j <= word_end(c, j) <= c.len(),
    decreases c.len() - j,
{
    if j < c.len() && !word_stop(c, j) {
        lemma_word_end_bounds(c, j + 1);
    }
}

proof fn lemma_digits_end_bounds(c: Seq<char>, j: int)
    requires
        0 <= j <= c.len(),
    ensures
        j <= digits_end(c, j) <= c.len(),
        forall|k: int| j <= k < digits_end(c, j) ==> spec_is_digit(#[trigger] c[k]),
    decreases c.len() - j,
{
    if j < c.len() && spec_is_digit(c[j]) {
        lemma_digits_end_bounds(c, j + 1);
    }
}

proof fn lemma_scan_string_bounds(c: Seq<char>, j: int)
    requires
        0 <= j,
    ensures
        scan_string(c, j) matches Some((v, k)) ==> j < k <= c.len(),
    decreases c.len() - j,
{
    if 0 <= j < c.len() && c[j] != '"' {
        if c[j] == '\\' {
            if j + 1 < c.len() {
                lemma_scan_string_bounds(c, j + 2);
            }
        } else {
            lemma_scan_string_bounds(c, j + 1);
        }
    }
}

/// Parses an optional minus sign followed by digits as an `i64`.
fn parse_i64_text(text: &Vec<char>) -> (r: Result<i64, String>)
    requires
        text@.len() > 0,
        text@[0] == '-' ==> text@.len() > 1,
        forall|k: int| (if text@[0] == '-' { 1int } else { 0int }) <= k < text@.len()
            ==> spec_is_digit(#[trigger] text@[k]),
    ensures
        match spec_parse_i64(text@) {
            Ok(v) => r matches Ok(x) && x as int == v,
            Err(m) => r matches Err(e) && e@ == m,
        },
{
    let neg = text[0] == '-';
    let start: usize = if neg { 1 } else { 0 };
    let ghost digits = text@.skip(start as int);
    let mut val: u128 = 0;
    let mut over = false;
    let mut i: usize = start;
    while i < text.len()
        invariant
            start <= i <= text@.len(),
            digits == text@.skip(start as int),
            forall|k: int| start <= k < text@.len() ==> spec_is_digit(#[trigger] text@[k]),
            !over ==> val as nat == digits_value(text@.subrange(start as int, i as int)),
            !over ==> val <= 0x8000_0000_0000_0000,
            over ==> digits_value(text@.subrange(start as int, i as int)) > 0x8000_0000_0000_0000,
        decreases text@.len() - i,
    {
        let d = (text[i] as u32 - '0' as u32) as u128;
        let ghost prev = text@.subrange(start as int, i as int);
        let ghost next = text@.subrange(start as int, i + 1);
        assert(next.drop_last() =~= prev);
        assert(next.last() == text@[i as int]);
        assert(spec_is_digit(text@[i as int]));
        if !over {
            let nv = val * 10 + d;
            if nv > 0x8000_0000_0000_0000 {
                over = true;
            } else {
                val = nv;
            }
        }
        i += 1;
    }
    assert(text@.subrange(start as int, text@.len() as int) =~= digits);
    if neg {
        assert(text@.skip(1) =~= digits);
        if over || val > 0x8000_0000_0000_0000 {
            let mut e = String::new();
            push_str(&mut e, "number too small to fit in target type");
            Err(e)
        } else {
            let r: i128 = -(val as i128);
            Ok(r as i64)
        }
    } else {
        assert(text@.skip(0) =~= text@);
        if over || val > 0x7fff_ffff_ffff_ffff {
            let mut e = String::new();
            push_str(&mut e, "number too large to fit in target type");
            Err(e)
        } else {
            Ok(val as i64)
        }
    }
}

/// Copies `c[from..to]`.

/// Splits a source line into tokens; stops at a comment.
pub fn lex_line(line: &Vec<char>, line_no: usize) -> (r: Result<Vec<Token>, ParseError>)
    ensures
        match spec_lex(line@, 0, line_no as nat) {
            Ok(ts) => r matches Ok(v) && toks_view(v@) == ts,
            Err(e) => r matches Err(x) && x@ == e,
        },
        r matches Ok(v) ==> forall|i: int| 0 <= i < v.len() ==> #[trigger] v[i].column <= line.len(),
{
    let n = line.len();
    let mut tokens: Vec<Token> = Vec::new();
    let mut idx: usize = 0;
    while idx < n
        invariant
            n == line@.len(),
            idx <= n,
            spec_lex(line@, 0, line_no as nat) == prefix_toks(toks_view(tokens@), spec_lex(line@, idx as int, line_no as nat)),
            forall|i: int| 0 <= i < tokens.len() ==> #[trigger] tokens[i].column <= n,
        decreases n - idx,
    {
        let ghost c = line@;
        let ghost j = idx as int;
        let ghost before = toks_view(tokens@);
        let ch = line[idx];
        if is_whitespace(ch) {
            idx += 1;
            continue;
        }
        if ch == '#' || (ch == '/' && idx + 1 < n && line[idx + 1] == '/') {
            assert(spec_lex(c, j, line_no as nat) == Ok::<Seq<TokV>, ParseErrorV>(Seq::empty()));
            assert(before + Seq::<TokV>::empty() =~= before);
            return Ok(tokens);
        }
        let column = idx + 1;
        let ghost col = column as nat;
        if ch == '=' {
            let t = Token { kind: TokenKind::Eq, column };
            tokens.push(t);
            idx += 1;
            proof {
                assert(toks_view(tokens@) =~= before.push(t@));
                lemma_prefix_cons(before, t@, spec_lex(c, idx as int, line_no as nat));
            }
        } else if ch == '>' && idx + 1 < n && line[idx + 1] == '=' {
            let t = Token { kind: TokenKind::Gte, column };
            tokens.push(t);
            idx += 2;
            proof {
                assert(toks_view(tokens@) =~= before.push(t@));
                lemma_prefix_cons(before, t@, spec_lex(c, idx as int, line_no as nat));
            }
        } else if ch == '"' {
            let mut value: Vec<char> = Vec::new();
            let mut k: usize = idx + 1;
            let mut closed = false;
            let mut stuck = false;
            proof { lemma_scan_string_bounds(c, j + 1); }
            while k < n && !closed && !stuck
                invariant
                    n == c.len(),
                    c == line@,
                    j < k <= n,
                    !closed ==> scan_string(c, j + 1) == prefix_scan(value@, scan_string(c, k as int)),
                    closed ==> scan_string(c, j + 1) == Some((value@, k as int)),
                    stuck ==> !closed && k < n && c[k as int] == '\\' && k + 1 >= n,
                decreases n - k, if closed || stuck { 0nat } else { 1nat },
            {
                let ghost before_v = value@;
                let cur = line[k];
                if cur == '"' {
                    k += 1;
                    closed = true;
                    assert(value@ + Seq::<char>::empty() =~= value@);
                } else if cur == '\\' {
                    if k + 1 >= n {
                        stuck = true;
                    } else {
                        let esc = line[k + 1];
                        let decoded = if esc == 'n' { '\n' } else if esc == 't' { '\t' } else { esc };
                        value.push(decoded);
                        k += 2;
                        proof { lemma_prefix_scan_push(before_v, decoded, scan_string(c, k as int)); }
                    }
                } else {
                    value.push(cur);
                    k += 1;
                    proof { lemma_prefix_scan_push(before_v, cur, scan_string(c, k as int)); }
                }
            }
            if !closed {
                let mut m = String::new();
                push_str(&mut m, "unterminated string literal");
                return Err(ParseError::new(line_no, column, m));
            }
            let t = Token { kind: TokenKind::Str(string_from_chars(&value)), column };
            tokens.push(t);
            idx = k;
            proof {
                assert(toks_view(tokens@) =~= before.push(t@));
                lemma_prefix_cons(before, t@, spec_lex(c, idx as int, line_no as nat));
            }
        } else if (ch == '-' && idx + 1 < n && is_digit(line[idx + 1])) || is_digit(ch) {
            let mut k: usize = idx + 1;
            proof { lemma_digits_end_bounds(c, j + 1); }
            while k < n && is_digit(line[k])
                invariant
                    n == c.len(),
                    c == line@,
                    j < k <= n,
                    digits_end(c, j + 1) == digits_end(c, k as int),
                decreases n - k,
            {
                k += 1;
            }
            let text = sub_chars(line, idx, k);
            proof {
                lemma_digits_end_bounds(c, j + 1);
                assert forall|q: int| (if text@[0] == '-' { 1int } else { 0int }) <= q < text@.len()
                    implies spec_is_digit(#[trigger] text@[q]) by {
                    if q > 0 {
                        assert(text@[q] == c[j + q]);
                    }
                }
            }
            match parse_i64_text(&text) {
                Ok(v) => {
                    let t = Token { kind: TokenKind::Int(v), column };
                    tokens.push(t);
                    idx = k;
                    proof {
                        assert(toks_view(tokens@) =~= before.push(t@));
                        lemma_prefix_cons(before, t@, spec_lex(c, idx as int, line_no as nat));
                    }
                }
                Err(m) => {
                    let mut msg = String::new();
                    push_str(&mut msg, "invalid integer literal '");
                    push_str(&mut msg, string_from_chars(&text).as_str());
                    push_str(&mut msg, "': ");
                    push_str(&mut msg, m.as_str());
                    return Err(ParseError::new(line_no, column, msg));
                }
            }
        } else {
            let mut k: usize = idx + 1;
            proof { lemma_word_end_bounds(c, j + 1); }
            while k < n && !(is_whitespace(line[k]) || line[k] == '#' || line[k] == '='
                || line[k] == '"' || line[k] == '>' || (line[k] == '/' && k + 1 < n && line[k + 1] == '/'))
                invariant
                    n == c.len(),
                    c == line@,
                    j < k <= n,
                    word_end(c, j + 1) == word_end(c, k as int),
                decreases n - k,
            {
                k += 1;
            }
            let text = sub_chars(line, idx, k);
            let t = Token { kind: TokenKind::Word(string_from_chars(&text)), column };
            tokens.push(t);
            idx = k;
            proof {
                assert(toks_view(tokens@) =~= before.push(t@));
                lemma_prefix_cons(before, t@, spec_lex(c, idx as int, line_no as nat));
            }
        }
    }
    assert(spec_lex(line@, idx as int, line_no as nat) == Ok::<Seq<TokV>, ParseErrorV>(Seq::empty()));
    assert(toks_view(tokens@) + Seq::<TokV>::empty() =~= toks_view(tokens@));
    Ok(tokens)
}

/// Puts `v` in front of the contents of a successful string scan.
pub open spec fn prefix_scan(v: Seq<char>, r: Option<(Seq<char>, int)>) -> Option<(Seq<char>, int)> {
    match r {
        Some((w, k)) => Some((v + w, k)),
        None => None,
    }
}

proof fn lemma_prefix_scan_push(v: Seq<char>, ch: char, r: Option<(Seq<char>, int)>)
    ensures
        prefix_scan(v, prefix_scan(seq![ch], r)) == prefix_scan(v.push(ch), r),
{
    match r {
        Some((w, k)) => {
            assert(v + (seq![ch] + w) =~= v.push(ch) + w);
        }
        None => {}
    }
}

proof fn lemma_prefix_cons(before: Seq<TokV>, t: TokV, r: Result<Seq<TokV>, ParseErrorV>)
    ensures
        prefix_toks(before, cons_tok(t, r)) == prefix_toks(before.push(t), r),
{
    match r {
        Ok(ts) => {
            assert(before + (seq![t] + ts) =~= before.push(t) + ts);
        }
        Err(e) => {}
    }
}

} // verus!
