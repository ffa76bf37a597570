//! What the system sees when it looks at itself: the outcome of building,
//! testing, linting, formatting and (optionally) running the interpreter
//! checks on its own code, read from the tools' output and sealed with a
//! health hash.

use vstd::prelude::*;
use crate::hash::{canonical_hash, text_hash};
use crate::nex::iteration::SystemState;
use crate::text::{
    chars_of, contains, is_whitespace, matches_at, occurs_at, push_decimal, push_str, spec_contains, spec_decimal,
    spec_is_whitespace, spec_lines, spec_trim, split_lines, lines_view, string_from_chars, sub_chars, to_string,
    trim_chars, next_occ, before_first, after_first, before_first_exec, after_first_exec,
};

verus! {

/// What the system observed of itself.
#[derive(Debug, Clone)]
pub struct ObservedState {
    pub build_ok: bool,
    pub build_warnings: usize,
    pub tests_passed: usize,
    pub tests_failed: usize,
    pub tests_ignored: usize,
    pub clippy_ok: bool,
    pub clippy_warnings: usize,
    pub fmt_ok: bool,
    pub miri_ok: bool,
    pub miri_errors: Vec<String>,
    pub timestamp: u64,
    pub timestamp_iso: String,
    pub health_hash: String,
}

impl ObservedState {
    /// The state in the form the iteration log keeps: build and lint
    /// warnings added up.
    pub fn to_system_state(&self) -> (s: SystemState)
        requires
            self.build_warnings + self.clippy_warnings <= usize::MAX,
        ensures
            s == (SystemState {
                build_ok: self.build_ok,
                warnings: (self.build_warnings + self.clippy_warnings) as usize,
                tests_passed: self.tests_passed,
                tests_failed: self.tests_failed,
                clippy_ok: self.clippy_ok,
                fmt_ok: self.fmt_ok,
            }),
    {
        SystemState {
            build_ok: self.build_ok,
            warnings: self.build_warnings + self.clippy_warnings,
            tests_passed: self.tests_passed,
            tests_failed: self.tests_failed,
            clippy_ok: self.clippy_ok,
            fmt_ok: self.fmt_ok,
        }
    }

    /// Healthy: it builds, no test fails, lint, format and interpreter
    /// checks pass.
    pub fn is_healthy(&self) -> (b: bool)
        ensures
            b == (self.build_ok && self.tests_failed == 0 && self.clippy_ok && self.fmt_ok && self.miri_ok),
    {
        self.build_ok && self.tests_failed == 0 && self.clippy_ok && self.fmt_ok && self.miri_ok
    }
}

/// The outcome of running one tool.
#[derive(Debug, Clone)]
pub struct CmdResult {
    pub ok: bool,
    pub stdout: String,
    pub stderr: String,
}

impl CmdResult {
    /// The stand-in for the interpreter checks when they were not asked for.
    pub fn miri_skipped() -> (r: CmdResult)
        ensures
            r.ok,
            r.stdout@ == Seq::<char>::empty(),
            r.stderr@ == "skipped (use MIRI=1 to enable)"@,
    {
        CmdResult { ok: true, stdout: String::new(), stderr: to_string("skipped (use MIRI=1 to enable)") }
    }
}

/// Where the system looks at itself: its project directory and the tool
/// that builds it; without a tool it only pretends to look.
#[derive(Debug, Clone)]
pub struct SelfAwareness {
    pub project_dir: String,
    pub cargo_path: String,
}

impl SelfAwareness {
    /// Looks at the project in `project_dir` with the tool at `cargo_path`.
    pub fn new(project_dir: String, cargo_path: String) -> (s: SelfAwareness)
        ensures
            s.project_dir@ == project_dir@,
            s.cargo_path@ == cargo_path@,
    {
        SelfAwareness { project_dir, cargo_path }
    }

    /// A stand-in that runs no tool.
    pub fn fake() -> (s: SelfAwareness)
        ensures
            s.project_dir@ == Seq::<char>::empty(),
            s.cargo_path@ == Seq::<char>::empty(),
    {
        SelfAwareness { project_dir: String::new(), cargo_path: String::new() }
    }

    /// Runs no tool: it has no tool to run.
    pub fn is_fake(&self) -> (b: bool)
        ensures
            b == (self.cargo_path@.len() == 0),
    {
        self.cargo_path.as_str().is_empty()
    }
}

// ------------------------------------------------------------------
// Reading tool output
// ------------------------------------------------------------------

/// The number of lines that mention `warning:`.
pub open spec fn spec_count_warnings(output: Seq<char>) -> nat {
    spec_lines(output).filter(|l: Seq<char>| spec_contains(l, "warning:"@)).len()
}

/// Counts the lines of `output` that mention `warning:`.
pub fn count_warnings(output: &str) -> (n: usize)
    ensures
        n == spec_count_warnings(output@),
{
    let chars = chars_of(output);
    let lines = split_lines(&chars);
    let ghost ls = lines_view(lines@);
    let needle = chars_of("warning:");
    let mut n: usize = 0;
    let mut k: usize = 0;
    while k < lines.len()
        invariant
            k <= lines.len(),
            ls == lines_view(lines@),
            needle@ == "warning:"@,
            n == ls.take(k as int).filter(|l: Seq<char>| spec_contains(l, "warning:"@)).len(),
            n <= k,
        decreases lines.len() - k,
    {
        proof {
            let t0 = ls.take(k as int);
            assert(ls.take(k as int + 1) =~= t0.push(ls[k as int]));
            assert(ls.take(k as int + 1).drop_last() =~= t0);
            reveal(Seq::filter);
            t0.lemma_filter_len(|l: Seq<char>| spec_contains(l, "warning:"@));
        }
        if contains(&lines[k], &needle) {
            n += 1;
        }
        k += 1;
    }
    assert(ls.take(lines.len() as int) =~= ls);
    n
}

/// A trimmed line reports an interpreter error: it starts with `error:` or
/// mentions undefined behaviour, memory allocation or stacked borrows.
pub open spec fn is_miri_error(t: Seq<char>) -> bool {
    occurs_at(t, "error:"@, 0) || spec_contains(t, "undefined behavior"@) || spec_contains(t, "UndefinedBehavior"@)
        || spec_contains(t, "memory allocation"@) || spec_contains(t, "stacked borrows"@)
}

/// The trimmed lines that report interpreter errors, in order.
pub open spec fn miri_errors_of(lines: Seq<Seq<char>>) -> Seq<Seq<char>>
    decreases lines.len(),
{
    if lines.len() == 0 {
        Seq::empty()
    } else {
        let r = miri_errors_of(lines.drop_last());
        let t = spec_trim(lines.last());
        if is_miri_error(t) { r.push(t) } else { r }
    }
}

/// The lines of `output` that report interpreter errors, trimmed.
pub fn parse_miri_errors(output: &str) -> (v: Vec<String>)
    ensures
        v@.map_values(|s: String| s@) == miri_errors_of(spec_lines(output@)),
{
    let chars = chars_of(output);
    let lines = split_lines(&chars);
    let ghost ls = lines_view(lines@);
    let p_error = chars_of("error:");
    let p_ub = chars_of("undefined behavior");
    let p_ub2 = chars_of("UndefinedBehavior");
    let p_mem = chars_of("memory allocation");
    let p_sb = chars_of("stacked borrows");
    let mut errors: Vec<String> = Vec::new();
    let mut k: usize = 0;
    while k < lines.len()
        invariant
            k <= lines.len(),
            ls == lines_view(lines@),
            p_error@ == "error:"@,
            p_ub@ == "undefined behavior"@,
            p_ub2@ == "UndefinedBehavior"@,
            p_mem@ == "memory allocation"@,
            p_sb@ == "stacked borrows"@,
            errors@.map_values(|s: String| s@) == miri_errors_of(ls.take(k as int)),
        decreases lines.len() - k,
    {
        proof {
            assert(ls.take(k as int + 1).drop_last() =~= ls.take(k as int));
            assert(ls.take(k as int + 1).last() == lines@[k as int]@);
        }
        let trimmed = trim_chars(&lines[k]);
        if matches_at(&trimmed, &p_error, 0) || contains(&trimmed, &p_ub) || contains(&trimmed, &p_ub2)
            || contains(&trimmed, &p_mem) || contains(&trimmed, &p_sb)
        {
            let ghost e0 = errors@;
            errors.push(string_from_chars(&trimmed));
            assert(errors@.map_values(|s: String| s@) =~= e0.map_values(|s: String| s@).push(trimmed@));
        }
        k += 1;
    }
    assert(ls.take(lines.len() as int) =~= ls);
    errors
}

// ------------------------------------------------------------------
// Test summaries
// ------------------------------------------------------------------

/// End of the run of non-white-space characters that starts at `i`.
pub open spec fn word_end(s: Seq<char>, i: int) -> int
    decreases s.len() - i,
{
    if 0 <= i < s.len() && !spec_is_whitespace(s[i]) {
        word_end(s, i + 1)
    } else {
        i
    }
}

/// Start of the run of non-white-space characters that ends at `j`.
pub open spec fn word_start(s: Seq<char>, j: int) -> int
    decreases j,
{
    if 0 < j <= s.len() && !spec_is_whitespace(s[j - 1]) {
        word_start(s, j - 1)
    } else {
        j
    }
}

/// `s.split_whitespace().next()`.
pub open spec fn first_word(s: Seq<char>) -> Option<Seq<char>> {
    let a = crate::text::ws_run_end(s, 0);
    if a >= s.len() { None } else { Some(s.subrange(a, word_end(s, a))) }
}

/// `s.split_whitespace().last()`.
pub open spec fn last_word(s: Seq<char>) -> Option<Seq<char>> {
    let b = crate::text::ws_run_start(s, s.len() as int);
    if b <= 0 { None } else { Some(s.subrange(word_start(s, b), b)) }
}

/// The value of a string of decimal digits.
pub open spec fn digits_value(d: Seq<char>) -> nat
    decreases d.len(),
{
    if d.len() == 0 {
        0
    } else {
        digits_value(d.drop_last()) * 10 + ((d.last() as int - '0' as int) as nat)
    }
}

/// All characters are ASCII digits.
pub open spec fn all_digits(d: Seq<char>) -> bool {
    forall|i: int| 0 <= i < d.len() ==> '0' <= #[trigger] d[i] <= '9'
}

/// `w.parse::<usize>().unwrap_or(0)`: an optional `+` and at least one
/// digit, with a value that fits; anything else counts as 0.
pub open spec fn parse_or_zero(w: Seq<char>) -> nat {
    let d = if w.len() > 0 && w[0] == '+' { w.drop_first() } else { w };
    if d.len() == 0 || !all_digits(d) || digits_value(d) > usize::MAX {
        0
    } else {
        digits_value(d)
    }
}

/// The counts one `test result:` line adds: the word before `passed`, the
/// first word after `passed;` (before `failed`), the first word after
/// `failed;` (before `ignored`).
pub open spec fn line_counts(line: Seq<char>) -> (nat, nat, nat) {
    let rest = spec_trim(match after_first(line, "test result:"@) {
        Some(r) => r,
        None => Seq::empty(),
    });
    let passed = match last_word(before_first(rest, "passed"@)) {
        Some(w) => parse_or_zero(w),
        None => 0,
    };
    let failed = match after_first(before_first(rest, "failed"@), "passed;"@) {
        Some(p) => match first_word(p) {
            Some(w) => parse_or_zero(w),
            None => 0,
        },
        None => 0,
    };
    let ignored = match after_first(before_first(rest, "ignored"@), "failed;"@) {
        Some(p) => match first_word(p) {
            Some(w) => parse_or_zero(w),
            None => 0,
        },
        None => 0,
    };
    (passed, failed, ignored)
}

/// The totals over the lines that mention `test result:`.
pub open spec fn test_totals(lines: Seq<Seq<char>>) -> (nat, nat, nat)
    decreases lines.len(),
{
    if lines.len() == 0 {
        (0, 0, 0)
    } else {
        let (p, f, i) = test_totals(lines.drop_last());
        if spec_contains(lines.last(), "test result:"@) {
            let (a, b, c) = line_counts(lines.last());
            (p + a, f + b, i + c)
        } else {
            (p, f, i)
        }
    }
}

proof fn lemma_totals_grow(lines: Seq<Seq<char>>, k: int)
    requires
        0 <= k <= lines.len(),
    ensures
        test_totals(lines.take(k)).0 <= test_totals(lines).0,
        test_totals(lines.take(k)).1 <= test_totals(lines).1,
        test_totals(lines.take(k)).2 <= test_totals(lines).2,
    decreases lines.len() - k,
{
    if k < lines.len() {
        lemma_totals_grow(lines, k + 1);
        assert(lines.take(k + 1).drop_last() =~= lines.take(k));
    } else {
        assert(lines.take(k) =~= lines);
    }
}

fn first_word_exec(s: &Vec<char>) -> (r: Option<Vec<char>>)
    ensures
        match first_word(s@) {
            Some(w) => r matches Some(x) && x@ == w,
            None => r is None,
        },
{
    let mut a: usize = 0;
    while a < s.len() && is_whitespace(s[a])
        invariant
            a <= s.len(),
            crate::text::ws_run_end(s@, 0) == crate::text::ws_run_end(s@, a as int),
        decreases s.len() - a,
    {
        a += 1;
    }
    if a >= s.len() {
        return None;
    }
    let mut b = a;
    while b < s.len() && !is_whitespace(s[b])
        invariant
            a <= b <= s.len(),
            word_end(s@, a as int) == word_end(s@, b as int),
        decreases s.len() - b,
    {
        b += 1;
    }
    Some(sub_chars(s, a, b))
}

fn last_word_exec(s: &Vec<char>) -> (r: Option<Vec<char>>)
    ensures
        match last_word(s@) {
            Some(w) => r matches Some(x) && x@ == w,
            None => r is None,
        },
{
    let mut b: usize = s.len();
    while b > 0 && is_whitespace(s[b - 1])
        invariant
            b <= s.len(),
            crate::text::ws_run_start(s@, s.len() as int) == crate::text::ws_run_start(s@, b as int),
        decreases b,
    {
        b -= 1;
    }
    if b == 0 {
        return None;
    }
    let mut a = b;
    while a > 0 && !is_whitespace(s[a - 1])
        invariant
            a <= b <= s.len(),
            word_start(s@, b as int) == word_start(s@, a as int),
        decreases a,
    {
        a -= 1;
    }
    Some(sub_chars(s, a, b))
}

/// A prefix of a digit string is worth no more than the whole.
pub proof fn lemma_digits_grow(d: Seq<char>, k: int)
    requires
        0 <= k <= d.len(),
        all_digits(d),
    ensures
        digits_value(d.take(k)) <= digits_value(d),
    decreases d.len() - k,
{
    if k < d.len() {
        lemma_digits_grow(d, k + 1);
        assert(d.take(k + 1).drop_last() =~= d.take(k));
    } else {
        assert(d.take(k) =~= d);
    }
}

fn parse_or_zero_exec(w: &Vec<char>) -> (n: usize)
    ensures
        n == parse_or_zero(w@),
{
    let start: usize = if w.len() > 0 && w[0] == '+' { 1 } else { 0 };
    let ghost d = if w@.len() > 0 && w@[0] == '+' { w@.drop_first() } else { w@ };
    assert(d =~= w@.subrange(start as int, w@.len() as int));
    assert(parse_or_zero(w@) == if d.len() == 0 || !all_digits(d) || digits_value(d) > usize::MAX { 0 } else { digits_value(d) });
    if start >= w.len() {
        assert(d.len() == 0);
        return 0;
    }
    let mut k = start;
    while k < w.len()
        invariant
            start <= k <= w.len(),
            d == w@.subrange(start as int, w@.len() as int),
            parse_or_zero(w@) == if d.len() == 0 || !all_digits(d) || digits_value(d) > usize::MAX { 0 } else { digits_value(d) },
            forall|j: int| 0 <= j < k - start ==> '0' <= #[trigger] d[j] <= '9',
        decreases w.len() - k,
    {
        assert(d[k - start] == w@[k as int]);
        if w[k] < '0' || w[k] > '9' {
            assert(!all_digits(d));
            return 0;
        }
        k += 1;
    }
    assert(all_digits(d));
    let mut v: u128 = 0;
    let mut k2 = start;
    while k2 < w.len()
        invariant
            start <= k2 <= w.len(),
            d == w@.subrange(start as int, w@.len() as int),
            parse_or_zero(w@) == if d.len() == 0 || !all_digits(d) || digits_value(d) > usize::MAX { 0 } else { digits_value(d) },
            all_digits(d),
            v == digits_value(d.take(k2 - start)),
            v <= usize::MAX,
        decreases w.len() - k2,
    {
        assert(d[k2 - start] == w@[k2 as int]);
        assert('0' <= w@[k2 as int] <= '9');
        let digit = (w[k2] as u32 - '0' as u32) as u128;
        proof {
            assert(d.take(k2 - start + 1).drop_last() =~= d.take(k2 - start));
            assert(d.take(k2 - start + 1).last() == w@[k2 as int]);
        }
        let next = v * 10 + digit;
        if next > usize::MAX as u128 {
            proof { lemma_digits_grow(d, k2 - start + 1); }
            return 0;
        }
        v = next;
        k2 += 1;
    }
    assert(d.take(d.len() as int) =~= d);
    v as usize
}

fn word_count(w: Option<Vec<char>>) -> (n: usize)
    ensures
        n == match w {
            Some(x) => parse_or_zero(x@),
            None => 0,
        },
{
    match w {
        Some(x) => parse_or_zero_exec(&x),
        None => 0,
    }
}

fn line_counts_exec(line: &Vec<char>) -> (r: (usize, usize, usize))
    ensures
        r.0 == line_counts(line@).0,
        r.1 == line_counts(line@).1,
        r.2 == line_counts(line@).2,
{
    let marker = chars_of("test result:");
    let raw = match after_first_exec(line, &marker) {
        Some(r) => r,
        None => Vec::new(),
    };
    let rest = trim_chars(&raw);
    let passed = word_count(last_word_exec(&before_first_exec(&rest, &chars_of("passed"))));
    let failed = match after_first_exec(&before_first_exec(&rest, &chars_of("failed")), &chars_of("passed;")) {
        Some(p) => word_count(first_word_exec(&p)),
        None => 0,
    };
    let ignored = match after_first_exec(&before_first_exec(&rest, &chars_of("ignored")), &chars_of("failed;")) {
        Some(p) => word_count(first_word_exec(&p)),
        None => 0,
    };
    (passed, failed, ignored)
}

/// The passed, failed and ignored counts summed over the `test result:`
/// lines of `output`; `None` where a sum would not fit a `usize`.
pub fn parse_test_results(output: &str) -> (r: Option<(usize, usize, usize)>)
    ensures
        ({
            let t = test_totals(spec_lines(output@));
            match r {
                Some((p, f, i)) => p == t.0 && f == t.1 && i == t.2,
                None => t.0 > usize::MAX || t.1 > usize::MAX || t.2 > usize::MAX,
            }
        }),
{
    let chars = chars_of(output);
    let lines = split_lines(&chars);
    let ghost ls = lines_view(lines@);
    let marker = chars_of("test result:");
    let mut passed: usize = 0;
    let mut failed: usize = 0;
    let mut ignored: usize = 0;
    let mut k: usize = 0;
    while k < lines.len()
        invariant
            k <= lines.len(),
            ls == lines_view(lines@),
            ls == spec_lines(output@),
            marker@ == "test result:"@,
            test_totals(ls.take(k as int)) == (passed as nat, failed as nat, ignored as nat),
        decreases lines.len() - k,
    {
        proof {
            assert(ls.take(k as int + 1).drop_last() =~= ls.take(k as int));
            assert(ls.take(k as int + 1).last() == lines@[k as int]@);
        }
        if contains(&lines[k], &marker) {
            let (a, b, c) = line_counts_exec(&lines[k]);
            proof {
                assert(spec_contains(ls.take(k as int + 1).last(), "test result:"@));
                assert(test_totals(ls.take(k as int + 1)).0 == passed + a);
                assert(test_totals(ls.take(k as int + 1)).1 == failed + b);
                assert(test_totals(ls.take(k as int + 1)).2 == ignored + c);
            }
            if a > usize::MAX - passed || b > usize::MAX - failed || c > usize::MAX - ignored {
                proof {
                    lemma_totals_grow(ls, k as int + 1);
                    assert(ls.take(ls.len() as int) =~= ls);
                }
                return None;
            }
            passed = passed + a;
            failed = failed + b;
            ignored = ignored + c;
        }
        k += 1;
    }
    assert(ls.take(lines.len() as int) =~= ls);
    Some((passed, failed, ignored))
}

// ------------------------------------------------------------------
// Observations
// ------------------------------------------------------------------

/// The text of a boolean.
pub open spec fn bool_word(b: bool) -> Seq<char> {
    if b { "true"@ } else { "false"@ }
}

fn push_bool(s: &mut String, b: bool)
    ensures
        final(s)@ == old(s)@ + bool_word(b),
{
    if b {
        push_str(s, "true");
    } else {
        push_str(s, "false");
    }
}

/// The tools' outcomes of one full observation.
#[derive(Debug, Clone)]
pub struct ToolRuns {
    pub build: CmdResult,
    pub test: CmdResult,
    pub clippy: CmdResult,
    pub miri: CmdResult,
    pub fmt: CmdResult,
}

/// The text sealed by a full observation's health hash.
pub open spec fn full_health_content(
    build_ok: bool,
    build_warnings: nat,
    passed: nat,
    failed: nat,
    clippy_ok: bool,
    clippy_warnings: nat,
    fmt_ok: bool,
    miri_ok: bool,
) -> Seq<char> {
    bool_word(build_ok) + ":"@ + spec_decimal(build_warnings) + ":"@ + spec_decimal(passed) + ":"@
        + spec_decimal(failed) + ":"@ + bool_word(clippy_ok) + ":"@ + spec_decimal(clippy_warnings) + ":"@
        + bool_word(fmt_ok) + ":"@ + bool_word(miri_ok)
}

/// The interpreter output that is searched for errors: its standard output,
/// a line feed, its error output.
pub open spec fn joined_output(r: CmdResult) -> Seq<char> {
    r.stdout@ + "\n"@ + r.stderr@
}

fn join_output(r: &CmdResult) -> (s: String)
    ensures
        s@ == joined_output(*r),
{
    let mut s = String::new();
    push_str(&mut s, r.stdout.as_str());
    push_str(&mut s, "\n");
    push_str(&mut s, r.stderr.as_str());
    s
}

/// What a full observation sees, from the tools' outcomes, the test counts
/// read from the test run's output, and the instant.
pub fn observe_from(runs: &ToolRuns, tests: (usize, usize, usize), timestamp: u64, timestamp_iso: String) -> (o:
    ObservedState)
    ensures
        o.build_ok == runs.build.ok,
        o.build_warnings == spec_count_warnings(runs.build.stderr@),
        o.tests_passed == tests.0,
        o.tests_failed == tests.1,
        o.tests_ignored == tests.2,
        o.clippy_ok == runs.clippy.ok,
        o.clippy_warnings == spec_count_warnings(runs.clippy.stderr@),
        o.fmt_ok == runs.fmt.ok,
        o.miri_ok == runs.miri.ok,
        o.miri_errors@.map_values(|s: String| s@) == miri_errors_of(spec_lines(joined_output(runs.miri))),
        o.timestamp == timestamp,
        o.timestamp_iso@ == timestamp_iso@,
        o.health_hash@ == text_hash(full_health_content(
            runs.build.ok,
            o.build_warnings as nat,
            tests.0 as nat,
            tests.1 as nat,
            runs.clippy.ok,
            o.clippy_warnings as nat,
            runs.fmt.ok,
            runs.miri.ok,
        )),
{
    let build_warnings = count_warnings(runs.build.stderr.as_str());
    let clippy_warnings = count_warnings(runs.clippy.stderr.as_str());
    let miri_out = join_output(&runs.miri);
    let miri_errors = parse_miri_errors(miri_out.as_str());
    let mut content = String::new();
    push_bool(&mut content, runs.build.ok);
    push_str(&mut content, ":");
    push_decimal(&mut content, build_warnings as u64);
    push_str(&mut content, ":");
    push_decimal(&mut content, tests.0 as u64);
    push_str(&mut content, ":");
    push_decimal(&mut content, tests.1 as u64);
    push_str(&mut content, ":");
    push_bool(&mut content, runs.clippy.ok);
    push_str(&mut content, ":");
    push_decimal(&mut content, clippy_warnings as u64);
    push_str(&mut content, ":");
    push_bool(&mut content, runs.fmt.ok);
    push_str(&mut content, ":");
    push_bool(&mut content, runs.miri.ok);
    assert(content@ =~= full_health_content(
        runs.build.ok,
        build_warnings as nat,
        tests.0 as nat,
        tests.1 as nat,
        runs.clippy.ok,
        clippy_warnings as nat,
        runs.fmt.ok,
        runs.miri.ok,
    ));
    let health_hash = canonical_hash(content.as_str());
    ObservedState {
        build_ok: runs.build.ok,
        build_warnings,
        tests_passed: tests.0,
        tests_failed: tests.1,
        tests_ignored: tests.2,
        clippy_ok: runs.clippy.ok,
        clippy_warnings,
        fmt_ok: runs.fmt.ok,
        miri_ok: runs.miri.ok,
        miri_errors,
        timestamp,
        timestamp_iso,
        health_hash,
    }
}

/// The text sealed by a stand-in observation.
pub open spec fn fake_health_content(timestamp: nat) -> Seq<char> {
    "fake:"@ + spec_decimal(timestamp) + ":0:0:true:0:true:true"@
}

/// What the stand-in sees: everything passes, nothing is counted.
pub fn fake_state(timestamp: u64, timestamp_iso: String) -> (o: ObservedState)
    ensures
        o.build_ok && o.clippy_ok && o.fmt_ok && o.miri_ok,
        o.build_warnings == 0 && o.tests_passed == 0 && o.tests_failed == 0 && o.tests_ignored == 0,
        o.clippy_warnings == 0,
        o.miri_errors@.len() == 0,
        o.timestamp == timestamp,
        o.timestamp_iso@ == timestamp_iso@,
        o.health_hash@ == text_hash(fake_health_content(timestamp as nat)),
{
    let mut content = String::new();
    push_str(&mut content, "fake:");
    push_decimal(&mut content, timestamp);
    push_str(&mut content, ":0:0:true:0:true:true");
    let health_hash = canonical_hash(content.as_str());
    ObservedState {
        build_ok: true,
        build_warnings: 0,
        tests_passed: 0,
        tests_failed: 0,
        tests_ignored: 0,
        clippy_ok: true,
        clippy_warnings: 0,
        fmt_ok: true,
        miri_ok: true,
        miri_errors: Vec::new(),
        timestamp,
        timestamp_iso,
        health_hash,
    }
}

/// The text sealed by a light observation.
pub open spec fn light_health_content(build_ok: bool, warnings: nat) -> Seq<char> {
    "light:"@ + bool_word(build_ok) + ":"@ + spec_decimal(warnings)
}

/// What a light observation sees: only whether it builds, and its warnings.
pub fn observe_light_from(build: &CmdResult, timestamp: u64, timestamp_iso: String) -> (o: ObservedState)
    ensures
        o.build_ok == build.ok,
        o.build_warnings == spec_count_warnings(build.stderr@),
        o.clippy_ok && o.fmt_ok && o.miri_ok,
        o.tests_passed == 0 && o.tests_failed == 0 && o.tests_ignored == 0 && o.clippy_warnings == 0,
        o.miri_errors@.len() == 0,
        o.timestamp == timestamp,
        o.timestamp_iso@ == timestamp_iso@,
        o.health_hash@ == text_hash(light_health_content(build.ok, o.build_warnings as nat)),
{
    let build_warnings = count_warnings(build.stderr.as_str());
    let mut content = String::new();
    push_str(&mut content, "light:");
    push_bool(&mut content, build.ok);
    push_str(&mut content, ":");
    push_decimal(&mut content, build_warnings as u64);
    let health_hash = canonical_hash(content.as_str());
    ObservedState {
        build_ok: build.ok,
        build_warnings,
        tests_passed: 0,
        tests_failed: 0,
        tests_ignored: 0,
        clippy_ok: true,
        clippy_warnings: 0,
        fmt_ok: true,
        miri_ok: true,
        miri_errors: Vec::new(),
        timestamp,
        timestamp_iso,
        health_hash,
    }
}

} // verus!
