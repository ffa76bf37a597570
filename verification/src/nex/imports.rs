//! Expansion of `use` statements: each import is resolved against the
//! directory of the file that names it, loaded once, and its statements are
//! spliced in front of the importing program's own. The files are handed in
//! as a table from path to what reading that path gave; a path that is not in
//! the table yet is asked for, so the caller reads it and tries again.

use vstd::prelude::*;
use crate::nex::ast::{lemma_stmts_view_index, stmt_view, stmts_view, Program, Stmt, StmtV};
use crate::nex::eval::{
    env_view, execute_expanded, spec_execute, traces_view, Env, EvalError, EvalErrorV, ExecutionResult, ValueV,
    TraceV,
};
use crate::nex::lexer::spec_error_text;
use crate::nex::parser::{parse, spec_parse};
use crate::text::{push_str, sub_chars, chars_of, string_from_chars, to_string};
use crate::textmap::TextMap;

verus! {

// ------------------------------------------------------------------
// Paths
// ------------------------------------------------------------------

/// What `PathBuf::push` makes of `base` and `segment`, as text.
pub uninterp spec fn path_pushed(base: Seq<char>, segment: Seq<char>) -> Seq<char>;

/// What `PathBuf::set_extension` makes of `path` and `ext`, as text.
pub uninterp spec fn path_with_extension(path: Seq<char>, ext: Seq<char>) -> Seq<char>;

/// What `Path::parent` gives for `path`, as text.
pub uninterp spec fn path_parent(path: Seq<char>) -> Option<Seq<char>>;

/// Calls `std::path::PathBuf::push`; the result is named `path_pushed`.
#[verifier::external_body]
fn push_path(base: &str, segment: &str) -> (r: String)
    ensures
        r@ == path_pushed(base@, segment@),
{
    let mut p = std::path::PathBuf::from(base);
    p.push(segment);
    p.display().to_string()
}

/// Calls `std::path::PathBuf::set_extension`; the result is named
/// `path_with_extension`.
#[verifier::external_body]
fn set_extension(path: &str, ext: &str) -> (r: String)
    ensures
        r@ == path_with_extension(path@, ext@),
{
    let mut p = std::path::PathBuf::from(path);
    p.set_extension(ext);
    p.display().to_string()
}

/// Calls `std::path::Path::parent`; the result is named `path_parent`.
#[verifier::external_body]
fn parent_of(path: &str) -> (r: Option<String>)
    ensures
        match r {
            Some(p) => path_parent(path@) == Some(p@),
            None => path_parent(path@) is None,
        },
{
    match std::path::Path::new(path).parent() {
        Some(p) => Some(p.display().to_string()),
        None => None,
    }
}

/// The first position at or after `i` where `s` holds `x`, or `s.len()`.
pub open spec fn find_from<A>(s: Seq<A>, x: A, i: int) -> int
    decreases s.len() - i,
{
    if i < 0 || i >= s.len() {
        s.len() as int
    } else if s[i] == x {
        i
    } else {
        find_from(s, x, i + 1)
    }
}

proof fn lemma_find_from<A>(s: Seq<A>, x: A, i: int)
    requires
        0 <= i <= s.len(),
    ensures
        i <= find_from(s, x, i) <= s.len(),
        find_from(s, x, i) < s.len() ==> s[find_from(s, x, i)] == x,
        forall|j: int| i <= j < find_from(s, x, i) ==> s[j] != x,
    decreases s.len() - i,
{
    if i < s.len() && s[i] != x {
        lemma_find_from(s, x, i + 1);
    }
}

/// The path an import names: `base` with each dot-separated part of the
/// import pushed in turn from position `start` on.
pub open spec fn pushed_from(acc: Seq<char>, import: Seq<char>, start: int) -> Seq<char>
    decreases import.len() - start,
{
    let end = find_from(import, '.', start);
    let next = path_pushed(acc, import.subrange(start, end));
    if start < 0 || end >= import.len() || end < start {
        next
    } else {
        pushed_from(next, import, end + 1)
    }
}

/// The file an import names, relative to `base`: its dot-separated parts
/// pushed onto `base`, with the extension `nex`.
pub open spec fn spec_resolve_import(base: Seq<char>, import: Seq<char>) -> Seq<char> {
    path_with_extension(pushed_from(base, import, 0), "nex"@)
}

/// The file that `import` names, relative to `base_dir`.
pub fn resolve_import_path(base_dir: &str, import: &str) -> (p: String)
    ensures
        p@ == spec_resolve_import(base_dir@, import@),
{
    let chars = chars_of(import);
    let ghost s = import@;
    let mut acc = to_string(base_dir);
    let mut start: usize = 0;
    loop
        invariant_except_break
            start <= chars.len(),
            pushed_from(base_dir@, s, 0) == pushed_from(acc@, s, start as int),
        invariant
            chars@ == s,
        ensures
            acc@ == pushed_from(base_dir@, s, 0),
        decreases chars.len() - start,
    {
        let mut end = start;
        while end < chars.len() && chars[end] != '.'
            invariant
                chars@ == s,
                start <= end <= chars.len(),
                forall|j: int| start <= j < end ==> s[j] != '.',
            decreases chars.len() - end,
        {
            end += 1;
        }
        proof {
            lemma_find_from(s, '.', start as int);
            if end < chars.len() {
                assert(s[end as int] == '.');
            }
            assert(find_from(s, '.', start as int) == end) by {
                if find_from(s, '.', start as int) < end {
                    assert(s[find_from(s, '.', start as int)] == '.');
                } else if find_from(s, '.', start as int) > end {
                    assert(s[end as int] == '.');
                }
            }
        }
        let seg = string_from_chars(&sub_chars(&chars, start, end));
        let next = push_path(acc.as_str(), seg.as_str());
        if end >= chars.len() {
            acc = next;
            break;
        }
        acc = next;
        start = end + 1;
    }
    set_extension(acc.as_str(), "nex")
}

// ------------------------------------------------------------------
// Files and errors
// ------------------------------------------------------------------

/// What reading a file gave.
#[derive(Debug, Clone)]
pub enum ImportSource {
    Text(String),
    NotFound,
    Failed(String),
}

/// Why a program could not be expanded: an evaluation error, or a file that
/// has to be read first.
#[derive(Debug, Clone, PartialEq, Eq)]
pub enum ExpandError {
    Eval(EvalError),
    NeedFile(String),
}

/// Mathematical view of an expansion error.
pub enum ExpandErrorV {
    Eval(EvalErrorV),
    NeedFile(Seq<char>),
}

impl View for ExpandError {
    type V = ExpandErrorV;

    open spec fn view(&self) -> ExpandErrorV {
        match self {
            ExpandError::Eval(e) => ExpandErrorV::Eval(e@),
            ExpandError::NeedFile(p) => ExpandErrorV::NeedFile(p@),
        }
    }
}

/// Every text in the table can be parsed.
pub open spec fn sources_fit(files: Map<Seq<char>, ImportSource>) -> bool {
    forall|k: Seq<char>| #[trigger] files.contains_key(k) ==> match files[k] {
        ImportSource::Text(t) => t@.len() < usize::MAX,
        _ => true,
    }
}

/// The paths of a statement list's imports, in order.
pub open spec fn use_paths(s: Seq<StmtV>) -> Seq<Seq<char>>
    decreases s.len(),
{
    if s.len() == 0 {
        Seq::empty()
    } else {
        let r = use_paths(s.drop_last());
        match s.last() {
            StmtV::Use { path } => r.push(path),
            _ => r,
        }
    }
}

/// The statements of a list that are not imports, in order.
pub open spec fn non_imports(s: Seq<StmtV>) -> Seq<StmtV>
    decreases s.len(),
{
    if s.len() == 0 {
        Seq::empty()
    } else {
        let r = non_imports(s.drop_last());
        match s.last() {
            StmtV::Use { .. } => r,
            other => r.push(other),
        }
    }
}

/// How many files of the table are not on the import stack.
pub open spec fn stack_measure(files: Map<Seq<char>, ImportSource>, stack: Seq<Seq<char>>) -> nat {
    files.dom().difference(stack.to_set()).len()
}

/// Putting a file of the table on the stack leaves fewer files off it.
pub proof fn lemma_measure_push(files: Map<Seq<char>, ImportSource>, stack: Seq<Seq<char>>, path: Seq<char>)
    requires
        files.dom().finite(),
        files.contains_key(path),
        !stack.contains(path),
    ensures
        stack_measure(files, stack.push(path)) < stack_measure(files, stack),
{
    broadcast use vstd::set::group_set_axioms;
    let d = files.dom().difference(stack.to_set());
    stack.lemma_push_to_set_commute(path);
    assert(files.dom().difference(stack.push(path).to_set()) =~= d.remove(path));
    assert(d.contains(path));
}

/// The statements a load or an expansion gave and the files visited so far,
/// or the first error.
pub type Expanded = Result<(Seq<StmtV>, Set<Seq<char>>), ExpandErrorV>;

/// Loading the file at `path`: a cycle through the import stack fails, a file
/// already loaded gives nothing, and otherwise the file's statements are
/// expanded against its own directory.
pub open spec fn spec_load(
    path: Seq<char>,
    files: Map<Seq<char>, ImportSource>,
    visited: Set<Seq<char>>,
    stack: Seq<Seq<char>>,
) -> Expanded
    decreases stack_measure(files, stack), 0int, 0int,
    when files.dom().finite()
{
    if stack.contains(path) {
        let start = find_from(stack, path, 0);
        Err(ExpandErrorV::Eval(EvalErrorV::CircularImport {
            chain: stack.subrange(start, stack.len() as int).push(path),
        }))
    } else if visited.contains(path) {
        Ok((Seq::empty(), visited))
    } else if !files.contains_key(path) {
        Err(ExpandErrorV::NeedFile(path))
    } else {
        match files[path] {
            ImportSource::NotFound => Err(ExpandErrorV::Eval(EvalErrorV::MissingImport { path })),
            ImportSource::Failed(m) => Err(ExpandErrorV::Eval(EvalErrorV::ImportError { path, message: m@ })),
            ImportSource::Text(src) => match spec_parse(src@) {
                Err(e) => Err(ExpandErrorV::Eval(EvalErrorV::ImportError { path, message: spec_error_text(e) })),
                Ok(stmts) => {
                    let base = match path_parent(path) {
                        Some(p) => p,
                        None => "."@,
                    };
                    proof {
                        lemma_measure_push(files, stack, path);
                    }
                    match spec_expand(stmts, base, files, visited, stack.push(path)) {
                        Err(e) => Err(e),
                        Ok((s, v)) => Ok((s, v.insert(path))),
                    }
                },
            },
        }
    }
}

/// Loading the imports from position `i` on, one after the other.
pub open spec fn spec_load_list(
    imports: Seq<Seq<char>>,
    i: int,
    base: Seq<char>,
    files: Map<Seq<char>, ImportSource>,
    visited: Set<Seq<char>>,
    stack: Seq<Seq<char>>,
) -> Expanded
    decreases stack_measure(files, stack), 1int, imports.len() - i,
    when files.dom().finite()
{
    if i < 0 || i >= imports.len() {
        Ok((Seq::empty(), visited))
    } else {
        match spec_load(spec_resolve_import(base, imports[i]), files, visited, stack) {
            Err(e) => Err(e),
            Ok((s1, v1)) => match spec_load_list(imports, i + 1, base, files, v1, stack) {
                Err(e) => Err(e),
                Ok((s2, v2)) => Ok((s1 + s2, v2)),
            },
        }
    }
}

/// Expanding a statement list found in directory `base`: the statements of
/// its imports, in order, then its own statements other than imports.
pub open spec fn spec_expand(
    stmts: Seq<StmtV>,
    base: Seq<char>,
    files: Map<Seq<char>, ImportSource>,
    visited: Set<Seq<char>>,
    stack: Seq<Seq<char>>,
) -> Expanded
    decreases stack_measure(files, stack), 2int, 0int,
    when files.dom().finite()
{
    match spec_load_list(use_paths(stmts), 0, base, files, visited, stack) {
        Err(e) => Err(e),
        Ok((s, v)) => Ok((s + non_imports(stmts), v)),
    }
}

/// The statements of a program with its imports expanded.
pub open spec fn spec_expand_program(
    stmts: Seq<StmtV>,
    base: Seq<char>,
    files: Map<Seq<char>, ImportSource>,
) -> Result<Seq<StmtV>, ExpandErrorV> {
    match spec_expand(stmts, base, files, Set::empty(), Seq::empty()) {
        Err(e) => Err(e),
        Ok((s, _)) => Ok(s),
    }
}

// ------------------------------------------------------------------
// Expansion
// ------------------------------------------------------------------

/// The texts of a list of strings.
pub open spec fn texts(v: Seq<String>) -> Seq<Seq<char>> {
    v.map_values(|s: String| s@)
}

spec fn prefix_expanded(pre: Seq<StmtV>, r: Expanded) -> Expanded {
    match r {
        Err(e) => Err(e),
        Ok((s, v)) => Ok((pre + s, v)),
    }
}

fn split_imports(statements: Vec<Stmt>) -> (r: (Vec<String>, Vec<Stmt>))
    ensures
        texts(r.0@) == use_paths(stmts_view(statements@)),
        stmts_view(r.1@) == non_imports(stmts_view(statements@)),
{
    let ghost orig = stmts_view(statements@);
    proof { lemma_stmts_view_index(statements@); }
    let mut statements = statements;
    let mut imports: Vec<String> = Vec::new();
    let mut body: Vec<Stmt> = Vec::new();
    let mut k: usize = 0;
    while k < statements.len()
        invariant
            statements.len() == orig.len(),
            k <= statements.len(),
            forall|j: int| k <= j < statements.len() ==> stmt_view(#[trigger] statements@[j]) == orig[j],
            texts(imports@) == use_paths(orig.take(k as int)),
            stmts_view(body@) == non_imports(orig.take(k as int)),
        decreases statements.len() - k,
    {
        let ghost before = orig.take(k as int);
        assert(orig.take(k as int + 1).drop_last() =~= before);
        assert(orig.take(k as int + 1).last() == orig[k as int]);
        let mut taken = Stmt::Use { path: String::new() };
        std::mem::swap(&mut taken, &mut statements[k]);
        assert(stmt_view(taken) == orig[k as int]);
        match taken {
            Stmt::Use { path } => {
                imports.push(path);
                assert(texts(imports@) =~= texts(imports@.drop_last()).push(imports@.last()@));
            },
            other => {
                let ghost b0 = body@;
                body.push(other);
                proof {
                    lemma_stmts_view_index(body@);
                    lemma_stmts_view_index(b0);
                    assert(stmts_view(body@) =~= stmts_view(b0).push(stmt_view(other)));
                }
            },
        }
        k += 1;
    }
    assert(orig.take(orig.len() as int) =~= orig);
    (imports, body)
}

fn find_on_stack(stack: &Vec<String>, path: &String) -> (r: usize)
    ensures
        r as int == find_from(texts(stack@), path@, 0),
{
    let ghost t = texts(stack@);
    proof { lemma_find_from(t, path@, 0); }
    let mut i: usize = 0;
    while i < stack.len()
        invariant
            t == texts(stack@),
            i <= stack.len(),
            forall|j: int| 0 <= j < i ==> t[j] != path@,
        decreases stack.len() - i,
    {
        if crate::text::string_eq_str(&stack[i], path.as_str()) {
            assert(t[i as int] == path@);
            proof {
                lemma_find_from(t, path@, 0);
                let f = find_from(t, path@, 0);
                if f < i {
                    assert(t[f] == path@);
                }
            }
            return i;
        }
        i += 1;
    }
    proof {
        if find_from(t, path@, 0) < t.len() {
            assert(t[find_from(t, path@, 0)] == path@);
        }
    }
    stack.len()
}

fn cycle_chain(stack: &Vec<String>, start: usize, path: &String) -> (chain: Vec<String>)
    requires
        start <= stack.len(),
    ensures
        texts(chain@) == texts(stack@).subrange(start as int, stack.len() as int).push(path@),
{
    let mut chain: Vec<String> = Vec::new();
    let mut j = start;
    while j < stack.len()
        invariant
            start <= j <= stack.len(),
            chain@.len() == j - start,
            forall|k: int| 0 <= k < chain@.len() ==> #[trigger] chain@[k]@ == stack@[start + k]@,
        decreases stack.len() - j,
    {
        chain.push(stack[j].clone());
        j += 1;
    }
    chain.push(path.clone());
    let ghost want = texts(stack@).subrange(start as int, stack.len() as int).push(path@);
    assert forall|k: int| 0 <= k < want.len() implies #[trigger] texts(chain@)[k] == want[k] by {
        if k < chain@.len() - 1 {
            assert(chain@[k]@ == stack@[start + k]@);
        }
    }
    assert(texts(chain@) =~= want);
    chain
}

fn load_import(
    path: String,
    files: &TextMap<ImportSource>,
    visited: &mut TextMap<()>,
    stack: &mut Vec<String>,
) -> (r: Result<Vec<Stmt>, ExpandError>)
    requires
        files@.dom().finite(),
        sources_fit(files@),
    ensures
        texts(final(stack)@) == texts(old(stack)@),
        match spec_load(path@, files@, old(visited)@.dom(), texts(old(stack)@)) {
            Ok((s, v)) => r matches Ok(x) && stmts_view(x@) == s && final(visited)@.dom() == v,
            Err(e) => r matches Err(x) && x@ == e,
        },
    decreases stack_measure(files@, texts(old(stack)@)), 0int, 0int,
{
    let ghost st = texts(stack@);
    let start = find_on_stack(stack, &path);
    if start < stack.len() {
        proof { lemma_find_from(st, path@, 0); }
        assert(st.contains(path@));
        let chain = cycle_chain(stack, start, &path);
        return Err(ExpandError::Eval(EvalError::CircularImport { chain }));
    }
    proof {
        lemma_find_from(st, path@, 0);
        assert(!st.contains(path@));
    }
    if visited.get(path.as_str()).is_some() {
        return Ok(Vec::new());
    }
    let source = match files.get(path.as_str()) {
        None => return Err(ExpandError::NeedFile(path)),
        Some(ImportSource::NotFound) => return Err(ExpandError::Eval(EvalError::MissingImport { path })),
        Some(ImportSource::Failed(m)) => {
            return Err(ExpandError::Eval(EvalError::ImportError { path, message: m.clone() }));
        },
        Some(ImportSource::Text(src)) => src,
    };
    assert(files@.contains_key(path@));
    let program = match parse(source.as_str()) {
        Ok(p) => p,
        Err(e) => {
            return Err(ExpandError::Eval(EvalError::ImportError { path, message: e.to_string() }));
        },
    };
    let base = match parent_of(path.as_str()) {
        Some(p) => p,
        None => to_string("."),
    };
    proof { lemma_measure_push(files@, st, path@); }
    stack.push(path.clone());
    assert(texts(stack@) =~= st.push(path@));
    let result = expand_statements(program.statements, base, files, visited, stack);
    let ghost mid = stack@;
    assert(texts(mid) == st.push(path@));
    let _ = stack.pop();
    assert(stack@ == mid.drop_last());
    assert forall|k: int| 0 <= k < st.len() implies #[trigger] texts(stack@)[k] == st[k] by {
        assert(texts(mid)[k] == st.push(path@)[k]);
    }
    assert(texts(stack@) =~= st);
    match result {
        Err(e) => Err(e),
        Ok(statements) => {
            visited.insert(path, ());
            Ok(statements)
        },
    }
}

fn expand_statements(
    statements: Vec<Stmt>,
    base: String,
    files: &TextMap<ImportSource>,
    visited: &mut TextMap<()>,
    stack: &mut Vec<String>,
) -> (r: Result<Vec<Stmt>, ExpandError>)
    requires
        files@.dom().finite(),
        sources_fit(files@),
    ensures
        texts(final(stack)@) == texts(old(stack)@),
        match spec_expand(stmts_view(statements@), base@, files@, old(visited)@.dom(), texts(old(stack)@)) {
            Ok((s, v)) => r matches Ok(x) && stmts_view(x@) == s && final(visited)@.dom() == v,
            Err(e) => r matches Err(x) && x@ == e,
        },
    decreases stack_measure(files@, texts(old(stack)@)), 2int, 0int,
{
    let ghost sv = stmts_view(statements@);
    let ghost st = texts(stack@);
    let ghost vis0 = visited@.dom();
    let (imports, body) = split_imports(statements);
    let ghost paths = use_paths(sv);
    let mut expanded: Vec<Stmt> = Vec::new();
    let mut i: usize = 0;
    while i < imports.len()
        invariant
            files@.dom().finite(),
            sources_fit(files@),
            texts(imports@) == paths,
            texts(stack@) == st,
            st == texts(old(stack)@),
            vis0 == old(visited)@.dom(),
            paths == use_paths(sv),
            sv == stmts_view(statements@),
            i <= imports.len(),
            spec_load_list(paths, 0, base@, files@, vis0, st)
                == prefix_expanded(stmts_view(expanded@), spec_load_list(paths, i as int, base@, files@, visited@.dom(), st)),
        decreases imports.len() - i,
    {
        let ghost pre = stmts_view(expanded@);
        let ghost vis = visited@.dom();
        let path = resolve_import_path(base.as_str(), imports[i].as_str());
        assert(imports@[i as int]@ == paths[i as int]);
        let loaded = load_import(path, files, visited, stack);
        match loaded {
            Err(e) => {
                proof {
                    assert(paths.len() == imports@.len());
                    assert(spec_load_list(paths, i as int, base@, files@, vis, st) == Err::<(Seq<StmtV>, Set<Seq<char>>), ExpandErrorV>(e@));
                }
                return Err(e);
            },
            Ok(mut s) => {
                let ghost sl = stmts_view(s@);
                proof { lemma_stmts_view_index(expanded@); lemma_stmts_view_index(s@); }
                expanded.append(&mut s);
                proof {
                    lemma_stmts_view_index(expanded@);
                    assert(stmts_view(expanded@) =~= pre + sl);
                    let rest = spec_load_list(paths, i as int + 1, base@, files@, visited@.dom(), st);
                    match rest {
                        Ok((s2, v2)) => {
                            assert(pre + (sl + s2) =~= (pre + sl) + s2);
                        },
                        Err(_) => {},
                    }
                }
            },
        }
        i += 1;
    }
    let ghost pre = stmts_view(expanded@);
    let ghost bv = stmts_view(body@);
    let mut body = body;
    proof { lemma_stmts_view_index(expanded@); lemma_stmts_view_index(body@); }
    expanded.append(&mut body);
    proof {
        lemma_stmts_view_index(expanded@);
        assert(stmts_view(expanded@) =~= pre + bv);
    }
    Ok(expanded)
}

/// The program with its imports expanded from `base_dir`, reading files
/// from `files`.
pub fn expand_program(program: Program, base_dir: &str, files: &TextMap<ImportSource>) -> (r: Result<Program, ExpandError>)
    requires
        sources_fit(files@),
    ensures
        match spec_expand_program(program@, base_dir@, files@) {
            Ok(s) => r matches Ok(p) && p@ == s,
            Err(e) => r matches Err(x) && x@ == e,
        },
{
    let _ = files.len();
    let mut visited: TextMap<()> = TextMap::new();
    let mut stack: Vec<String> = Vec::new();
    assert(texts(stack@) =~= Seq::<Seq<char>>::empty());
    assert(visited@.dom() =~= Set::<Seq<char>>::empty());
    match expand_statements(program.statements, to_string(base_dir), files, &mut visited, &mut stack) {
        Ok(statements) => Ok(Program { statements }),
        Err(e) => Err(e),
    }
}

// ------------------------------------------------------------------
// Laws
// ------------------------------------------------------------------

proof fn lemma_no_imports(s: Seq<StmtV>)
    requires
        forall|i: int| 0 <= i < s.len() ==> !(#[trigger] s[i] is Use),
    ensures
        use_paths(s) == Seq::<Seq<char>>::empty(),
        non_imports(s) == s,
    decreases s.len(),
{
    if s.len() > 0 {
        let d = s.drop_last();
        assert forall|i: int| 0 <= i < d.len() implies !(#[trigger] d[i] is Use) by {
            assert(d[i] == s[i]);
        }
        lemma_no_imports(d);
        assert(!(s[s.len() - 1] is Use));
        assert(d.push(s.last()) =~= s);
    }
}

/// A program without `use` statements expands to itself, whatever files
/// are at hand.
pub proof fn law_program_without_imports_expands_to_itself(
    stmts: Seq<StmtV>,
    base: Seq<char>,
    files: Map<Seq<char>, ImportSource>,
)
    requires
        files.dom().finite(),
        forall|i: int| 0 <= i < stmts.len() ==> !(#[trigger] stmts[i] is Use),
    ensures
        spec_expand_program(stmts, base, files) == Ok::<Seq<StmtV>, ExpandErrorV>(stmts),
{
    lemma_no_imports(stmts);
    assert(Seq::<StmtV>::empty() + stmts =~= stmts);
}

/// A file that is its own import is refused as a cycle through itself.
pub proof fn law_self_import_is_a_cycle(
    path: Seq<char>,
    files: Map<Seq<char>, ImportSource>,
    visited: Set<Seq<char>>,
    stack: Seq<Seq<char>>,
)
    requires
        files.dom().finite(),
        stack.len() > 0,
        stack.last() == path,
        forall|i: int, j: int| 0 <= i < j < stack.len() ==> stack[i] != stack[j],
    ensures
        spec_load(path, files, visited, stack) == Err::<(Seq<StmtV>, Set<Seq<char>>), ExpandErrorV>(
            ExpandErrorV::Eval(EvalErrorV::CircularImport { chain: seq![path, path] }),
        ),
{
    let n = stack.len() - 1;
    assert(stack[n] == path);
    assert(stack.contains(path));
    lemma_find_from(stack, path, 0);
    let f = find_from(stack, path, 0);
    assert(f == n) by {
        if f < n {
            assert(stack[f] == path);
            assert(stack[f] != stack[n]);
        }
    }
    assert(stack.subrange(n, stack.len() as int).push(path) =~= seq![path, path]);
}

} // verus!
