//! Text helpers shared by the parsers and report builders: character
//! classification, ASCII case folding, substring search and decimal rendering.

use vstd::prelude::*;
use vstd::string::StringExecFns;

verus! {

/// Unicode `White_Space` property (the set `char::is_whitespace` accepts).
pub open spec fn spec_is_whitespace(c: char) -> bool {
    let u = c as u32;
    (0x09 <= u && u <= 0x0d) || u == 0x20 || u == 0x85 || u == 0xa0 || u == 0x1680
        || (0x2000 <= u && u <= 0x200a) || u == 0x2028 || u == 0x2029 || u == 0x202f
        || u == 0x205f || u == 0x3000
}

/// ASCII digit `0`..`9`.
pub open spec fn spec_is_digit(c: char) -> bool {
    '0' <= c && c <= '9'
}

/// ASCII upper-case letters become lower-case; every other character is kept.
pub open spec fn spec_lower_char(c: char) -> char {
    if 'A' <= c && c <= 'Z' {
        ((c as u32) + 32) as char
    } else {
        c
    }
}

/// `to_ascii_lowercase` on a whole text.
pub open spec fn spec_lower(s: Seq<char>) -> Seq<char> {
    s.map_values(|c: char| spec_lower_char(c))
}

/// `needle` occurs in `hay` starting at position `i`.
pub open spec fn occurs_at(hay: Seq<char>, needle: Seq<char>, i: int) -> bool {
    0 <= i && i + needle.len() <= hay.len() && hay.subrange(i, i + needle.len()) == needle
}

/// `needle` occurs somewhere in `hay`.
pub open spec fn spec_contains(hay: Seq<char>, needle: Seq<char>) -> bool {
    exists|i: int| occurs_at(hay, needle, i)
}

/// Every character of the text is white space (what `trim().is_empty()` tests).
pub open spec fn spec_is_blank(s: Seq<char>) -> bool {
    forall|i: int| 0 <= i < s.len() ==> spec_is_whitespace(#[trigger] s[i])
}

/// Decimal digits of a natural number, most significant first, no leading zeros.
pub open spec fn spec_decimal(n: nat) -> Seq<char>
    decreases n,
{
    if n < 10 {
        seq![digit_char(n)]
    } else {
        spec_decimal(n / 10).push(digit_char(n % 10))
    }
}

/// The character for a single decimal digit.
pub open spec fn digit_char(d: nat) -> char {
    if d == 0 { '0' }
    else if d == 1 { '1' }
    else if d == 2 { '2' }
    else if d == 3 { '3' }
    else if d == 4 { '4' }
    else if d == 5 { '5' }
    else if d == 6 { '6' }
    else if d == 7 { '7' }
    else if d == 8 { '8' }
    else { '9' }
}

/// Decimal rendering of a signed integer, with a leading `-` for negatives.
pub open spec fn spec_int_decimal(v: int) -> Seq<char> {
    if v < 0 {
        seq!['-'] + spec_decimal((-v) as nat)
    } else {
        spec_decimal(v as nat)
    }
}

/// Appends one character (`String::push`).
#[verifier::external_body]
pub fn push_char(s: &mut String, c: char)
    ensures
        final(s)@ == old(s)@.push(c),
{
    s.push(c);
}

/// The characters of a text, in order.
pub fn chars_of(s: &str) -> (v: Vec<char>)
    ensures
        v@ == s@,
{
    broadcast use vstd::string::group_string_axioms;
    let mut v: Vec<char> = Vec::new();
    for c in it: s.chars()
        invariant
            it.seq() == s@,
            v@ =~= s@.take(it.index() as int),
    {
        v.push(c);
    }
    assert(v@ =~= s@.take(s@.len() as int));
    v
}

/// `char::is_whitespace`.
pub fn is_whitespace(c: char) -> (b: bool)
    ensures
        b == spec_is_whitespace(c),
{
    let u = c as u32;
    (0x09 <= u && u <= 0x0d) || u == 0x20 || u == 0x85 || u == 0xa0 || u == 0x1680
        || (0x2000 <= u && u <= 0x200a) || u == 0x2028 || u == 0x2029 || u == 0x202f
        || u == 0x205f || u == 0x3000
}

/// `char::is_ascii_digit`.
pub fn is_digit(c: char) -> (b: bool)
    ensures
        b == spec_is_digit(c),
{
    '0' <= c && c <= '9'
}

/// `char::to_ascii_lowercase`.
pub fn lower_char(c: char) -> (r: char)
    ensures
        r == spec_lower_char(c),
{
    if 'A' <= c && c <= 'Z' {
        let u = (c as u32) + 32;
        assert(u < 0x80);
        (u as u8) as char
    } else {
        c
    }
}

/// `to_ascii_lowercase` on a sequence of characters.
pub fn lower_chars(s: &Vec<char>) -> (r: Vec<char>)
    ensures
        r@ == spec_lower(s@),
{
    let mut r: Vec<char> = Vec::new();
    let mut i: usize = 0;
    while i < s.len()
        invariant
            i <= s.len(),
            r@ =~= spec_lower(s@.take(i as int)),
        decreases s.len() - i,
    {
        let c = lower_char(s[i]);
        r.push(c);
        i += 1;
        assert(s@.take(i as int) =~= s@.take(i - 1).push(s@[i - 1]));
    }
    assert(s@.take(s.len() as int) =~= s@);
    r
}

/// `needle` occurs in `hay` at position `i` (checked character by character).
pub fn matches_at(hay: &Vec<char>, needle: &Vec<char>, i: usize) -> (b: bool)
    ensures
        b == occurs_at(hay@, needle@, i as int),
{
    if i > hay.len() || needle.len() > hay.len() - i {
        return false;
    }
    let mut k: usize = 0;
    while k < needle.len()
        invariant
            i + needle.len() <= hay.len(),
            k <= needle.len(),
            forall|j: int| 0 <= j < k ==> hay@[i + j] == needle@[j],
        decreases needle.len() - k,
    {
        if hay[i + k] != needle[k] {
            assert(hay@.subrange(i as int, i + needle.len())[k as int] != needle@[k as int]);
            return false;
        }
        k += 1;
    }
    assert(hay@.subrange(i as int, i + needle.len()) =~= needle@);
    true
}

/// `needle` occurs somewhere in `hay` (`str::contains`).
pub fn contains(hay: &Vec<char>, needle: &Vec<char>) -> (b: bool)
    ensures
        b == spec_contains(hay@, needle@),
{
    let mut i: usize = 0;
    while i < hay.len()
        invariant
            i <= hay.len(),
            forall|j: int| 0 <= j < i ==> !occurs_at(hay@, needle@, j),
        decreases hay.len() - i,
    {
        if matches_at(hay, needle, i) {
            return true;
        }
        i += 1;
    }
    if matches_at(hay, needle, i) {
        return true;
    }
    assert forall|j: int| !occurs_at(hay@, needle@, j) by {
        if 0 <= j <= i {
        }
    }
    false
}

/// Every character is white space (`trim().is_empty()`).
pub fn is_blank(s: &Vec<char>) -> (b: bool)
    ensures
        b == spec_is_blank(s@),
{
    let mut i: usize = 0;
    while i < s.len()
        invariant
            i <= s.len(),
            forall|j: int| 0 <= j < i ==> spec_is_whitespace(#[trigger] s@[j]),
        decreases s.len() - i,
    {
        if !is_whitespace(s[i]) {
            return false;
        }
        i += 1;
    }
    true
}

/// The text made of the given characters.
pub fn string_from_chars(v: &Vec<char>) -> (s: String)
    ensures
        s@ == v@,
{
    let mut s = String::new();
    let mut i: usize = 0;
    while i < v.len()
        invariant
            i <= v.len(),
            s@ =~= v@.take(i as int),
        decreases v.len() - i,
    {
        push_char(&mut s, v[i]);
        i += 1;
    }
    assert(v@.take(v.len() as int) =~= v@);
    s
}

/// The single decimal digit `d`.
pub fn digit(d: u64) -> (c: char)
    requires
        d < 10,
    ensures
        c == digit_char(d as nat),
{
    if d == 0 { '0' }
    else if d == 1 { '1' }
    else if d == 2 { '2' }
    else if d == 3 { '3' }
    else if d == 4 { '4' }
    else if d == 5 { '5' }
    else if d == 6 { '6' }
    else if d == 7 { '7' }
    else if d == 8 { '8' }
    else { '9' }
}

/// Appends the decimal rendering of `n` (`u64`'s `Display`).
pub fn push_decimal(s: &mut String, n: u64)
    ensures
        final(s)@ == old(s)@ + spec_decimal(n as nat),
    decreases n,
{
    if n < 10 {
        push_char(s, digit(n));
        assert(spec_decimal(n as nat) =~= seq![digit_char(n as nat)]);
    } else {
        push_decimal(s, n / 10);
        push_char(s, digit(n % 10));
        assert(old(s)@ + spec_decimal(n as nat) =~= old(s)@ + spec_decimal((n / 10) as nat) + seq![digit_char((n % 10) as nat)]);
    }
}

/// Appends the decimal rendering of `v` (`i64`'s `Display`).
pub fn push_int_decimal(s: &mut String, v: i64)
    ensures
        final(s)@ == old(s)@ + spec_int_decimal(v as int),
{
    if v < 0 {
        push_char(s, '-');
        let m: u64 = if v == i64::MIN { 9223372036854775808u64 } else { (-v) as u64 };
        assert(m as int == -(v as int));
        push_decimal(s, m);
        assert(old(s)@ + spec_int_decimal(v as int) =~= old(s)@.push('-') + spec_decimal(m as nat));
    } else {
        push_decimal(s, v as u64);
    }
}

/// Appends a text (`String::push_str`).
pub fn push_str(s: &mut String, t: &str)
    ensures
        final(s)@ == old(s)@ + t@,
{
    s.append(t);
}

/// Two texts are equal, character by character.
pub fn chars_eq(a: &Vec<char>, b: &Vec<char>) -> (r: bool)
    ensures
        r == (a@ == b@),
{
    if a.len() != b.len() {
        return false;
    }
    let mut i: usize = 0;
    while i < a.len()
        invariant
            a.len() == b.len(),
            i <= a.len(),
            forall|j: int| 0 <= j < i ==> a@[j] == b@[j],
        decreases a.len() - i,
    {
        if a[i] != b[i] {
            return false;
        }
        i += 1;
    }
    assert(a@ =~= b@);
    true
}

/// A text equals a literal.
pub fn eq_str(a: &Vec<char>, b: &str) -> (r: bool)
    ensures
        r == (a@ == b@),
{
    chars_eq(a, &chars_of(b))
}

/// A `String` equals a literal.
pub fn string_eq_str(a: &String, b: &str) -> (r: bool)
    ensures
        r == (a@ == b@),
{
    chars_eq(&chars_of(a.as_str()), &chars_of(b))
}

/// The text as a `String` (`str::to_string`).
pub fn to_string(a: &str) -> (r: String)
    ensures
        r@ == a@,
{
    a.to_owned()
}

/// The characters of `c` from `from` up to `to`.
pub fn sub_chars(c: &Vec<char>, from: usize, to: usize) -> (r: Vec<char>)
    requires
        from <= to <= c@.len(),
    ensures
        r@ == c@.subrange(from as int, to as int),
{
    let mut r: Vec<char> = Vec::new();
    let mut i = from;
    while i < to
        invariant
            from <= i <= to <= c@.len(),
            r@ =~= c@.subrange(from as int, i as int),
        decreases to - i,
    {
        r.push(c[i]);
        i += 1;
    }
    r
}

/// End of the run of white space that starts at `i`.
pub open spec fn ws_run_end(s: Seq<char>, i: int) -> int
    decreases s.len() - i,
{
    if 0 <= i < s.len() && spec_is_whitespace(s[i]) {
        ws_run_end(s, i + 1)
    } else {
        i
    }
}

/// Start of the run of white space that ends at `j`.
pub open spec fn ws_run_start(s: Seq<char>, j: int) -> int
    decreases j,
{
    if 0 < j <= s.len() && spec_is_whitespace(s[j - 1]) {
        ws_run_start(s, j - 1)
    } else {
        j
    }
}

/// `str::trim_start`: the text without its leading white space.
pub open spec fn spec_trim_start(s: Seq<char>) -> Seq<char> {
    s.subrange(ws_run_end(s, 0), s.len() as int)
}

/// `str::trim_end`: the text without its trailing white space.
pub open spec fn spec_trim_end(s: Seq<char>) -> Seq<char> {
    s.subrange(0, ws_run_start(s, s.len() as int))
}

/// `str::trim`: the text without white space at either end.
pub open spec fn spec_trim(s: Seq<char>) -> Seq<char> {
    spec_trim_end(spec_trim_start(s))
}

proof fn lemma_ws_run_end_bounds(s: Seq<char>, i: int)
    requires
        0 <= i <= s.len(),
    ensures
        i <= ws_run_end(s, i) <= s.len(),
    decreases s.len() - i,
{
    if i < s.len() && spec_is_whitespace(s[i]) {
        lemma_ws_run_end_bounds(s, i + 1);
    }
}

proof fn lemma_ws_run_start_bounds(s: Seq<char>, j: int)
    requires
        0 <= j <= s.len(),
    ensures
        0 <= ws_run_start(s, j) <= j,
    decreases j,
{
    if 0 < j && spec_is_whitespace(s[j - 1]) {
        lemma_ws_run_start_bounds(s, j - 1);
    }
}

/// `str::trim_start` on characters.
pub fn trim_start_chars(s: &Vec<char>) -> (r: Vec<char>)
    ensures
        r@ == spec_trim_start(s@),
{
    let mut i: usize = 0;
    while i < s.len() && is_whitespace(s[i])
        invariant
            i <= s.len(),
            ws_run_end(s@, 0) == ws_run_end(s@, i as int),
        decreases s.len() - i,
    {
        i += 1;
    }
    sub_chars(s, i, s.len())
}

/// `str::trim_end` on characters.
pub fn trim_end_chars(s: &Vec<char>) -> (r: Vec<char>)
    ensures
        r@ == spec_trim_end(s@),
{
    let mut j: usize = s.len();
    while j > 0 && is_whitespace(s[j - 1])
        invariant
            j <= s.len(),
            ws_run_start(s@, s.len() as int) == ws_run_start(s@, j as int),
        decreases j,
    {
        j -= 1;
    }
    sub_chars(s, 0, j)
}

/// `str::trim` on characters.
pub fn trim_chars(s: &Vec<char>) -> (r: Vec<char>)
    ensures
        r@ == spec_trim(s@),
{
    trim_end_chars(&trim_start_chars(s))
}

/// Position of the first line feed at or after `p`, or the end of the text.
pub open spec fn line_end(s: Seq<char>, p: int) -> int
    decreases s.len() - p,
{
    if 0 <= p < s.len() && s[p] != '\n' {
        line_end(s, p + 1)
    } else {
        p
    }
}

pub proof fn lemma_line_end_bounds(s: Seq<char>, p: int)
    requires
        0 <= p <= s.len(),
    ensures
        p <= line_end(s, p) <= s.len(),
        line_end(s, p) < s.len() ==> s[line_end(s, p)] == '\n',
    decreases s.len() - p,
{
    if p < s.len() && s[p] != '\n' {
        lemma_line_end_bounds(s, p + 1);
    }
}

/// A line without the carriage return that ends it, if any.
pub open spec fn strip_cr(l: Seq<char>) -> Seq<char> {
    if l.len() > 0 && l[l.len() - 1] == '\r' {
        l.subrange(0, l.len() - 1)
    } else {
        l
    }
}

/// `str::lines` of the text from position `p` on: split at `\n`, a `\r` before
/// the `\n` dropped, no empty line after a final `\n`.
pub open spec fn spec_lines_from(s: Seq<char>, p: int) -> Seq<Seq<char>>
    decreases s.len() - p,
{
    if p < 0 || p >= s.len() {
        Seq::empty()
    } else {
        let e = line_end(s, p);
        proof { lemma_line_end_bounds(s, p); }
        if e >= s.len() {
            seq![s.subrange(p, s.len() as int)]
        } else {
            seq![strip_cr(s.subrange(p, e))] + spec_lines_from(s, e + 1)
        }
    }
}

/// `str::lines`.
pub open spec fn spec_lines(s: Seq<char>) -> Seq<Seq<char>> {
    spec_lines_from(s, 0)
}

/// View of a list of lines.
pub open spec fn lines_view(v: Seq<Vec<char>>) -> Seq<Seq<char>> {
    v.map_values(|l: Vec<char>| l@)
}

/// `str::lines` on characters; no line is longer than the text.
pub fn split_lines(s: &Vec<char>) -> (r: Vec<Vec<char>>)
    ensures
        lines_view(r@) == spec_lines(s@),
        forall|i: int| 0 <= i < r.len() ==> #[trigger] r[i].len() <= s.len(),
{
    let n = s.len();
    let mut out: Vec<Vec<char>> = Vec::new();
    let mut p: usize = 0;
    while p < n
        invariant
            p <= n,
            n == s.len(),
            spec_lines(s@) == lines_view(out@) + spec_lines_from(s@, p as int),
            forall|i: int| 0 <= i < out.len() ==> #[trigger] out[i].len() <= n,
        decreases n - p,
    {
        let ghost before = lines_view(out@);
        proof { lemma_line_end_bounds(s@, p as int); }
        let mut e: usize = p;
        while e < n && s[e] != '\n'
            invariant
                p <= e <= n,
                n == s.len(),
                line_end(s@, p as int) == line_end(s@, e as int),
            decreases n - e,
        {
            e += 1;
        }
        if e >= n {
            let line = sub_chars(s, p, n);
            out.push(line);
            proof {
                assert(lines_view(out@) =~= before.push(line@));
                assert(spec_lines_from(s@, n as int) =~= Seq::<Seq<char>>::empty());
            }
            p = n;
        } else {
            let mut end: usize = e;
            if end > p && s[end - 1] == '\r' {
                end = end - 1;
            }
            let line = sub_chars(s, p, end);
            out.push(line);
            proof {
                assert(lines_view(out@) =~= before.push(line@));
                assert(line@ == strip_cr(s@.subrange(p as int, e as int)));
            }
            p = e + 1;
        }
    }
    out
}

/// The text of the error `String::from_utf8` reports for invalid bytes.
pub uninterp spec fn utf8_error_text_of(bytes: Seq<u8>) -> Seq<char>;

/// `String::from_utf8`, with the error turned into its text.
/// Trusted: valid UTF-8 decodes to its characters; otherwise the error text
/// is the named one of the bytes.
#[verifier::external_body]
pub fn string_from_utf8(bytes: Vec<u8>) -> (r: Result<String, String>)
    ensures
        vstd::utf8::valid_utf8(bytes@) <==> r is Ok,
        r matches Ok(s) ==> s@ == vstd::utf8::decode_utf8(bytes@),
        r matches Err(m) ==> m@ == utf8_error_text_of(bytes@),
{
    String::from_utf8(bytes).map_err(|e| e.to_string())
}

/// The text `String::from_utf8_lossy` makes of bytes (invalid sequences
/// replaced by U+FFFD).
pub uninterp spec fn utf8_lossy_of(bytes: Seq<u8>) -> Seq<char>;

/// `String::from_utf8_lossy(bytes).into_owned()`.
/// Trusted: the result is the named text; valid UTF-8 decodes unchanged.
#[verifier::external_body]
pub fn string_from_utf8_lossy(bytes: &[u8]) -> (s: String)
    ensures
        s@ == utf8_lossy_of(bytes@),
        vstd::utf8::valid_utf8(bytes@) ==> s@ == vstd::utf8::decode_utf8(bytes@),
{
    String::from_utf8_lossy(bytes).into_owned()
}

/// The first position at or after `i` where `n` occurs in `h`, or -1.
pub open spec fn next_occ(h: Seq<char>, n: Seq<char>, i: int) -> int
    decreases h.len() + 1 - i,
{
    if i < 0 || i + n.len() > h.len() {
        -1
    } else if occurs_at(h, n, i) {
        i
    } else {
        next_occ(h, n, i + 1)
    }
}

/// Bounds of the next occurrence.
pub proof fn lemma_next_occ(h: Seq<char>, n: Seq<char>, i: int)
    requires
        0 <= i,
    ensures
        next_occ(h, n, i) == -1 || (i <= next_occ(h, n, i) && next_occ(h, n, i) + n.len() <= h.len()),
    decreases h.len() + 1 - i,
{
    if i + n.len() <= h.len() && !occurs_at(h, n, i) {
        lemma_next_occ(h, n, i + 1);
    }
}

/// `h.split(n).next()`: the text before the first occurrence of `n`, or all
/// of it.
pub open spec fn before_first(h: Seq<char>, n: Seq<char>) -> Seq<char> {
    let f = next_occ(h, n, 0);
    if f < 0 { h } else { h.take(f) }
}

/// `h.split(n).nth(1)`: the text between the first and the second
/// occurrence of `n` (or the end), if `n` occurs.
pub open spec fn after_first(h: Seq<char>, n: Seq<char>) -> Option<Seq<char>> {
    let f = next_occ(h, n, 0);
    if f < 0 {
        None
    } else {
        let s = f + n.len();
        let g = next_occ(h, n, s);
        Some(if g < 0 { h.subrange(s, h.len() as int) } else { h.subrange(s, g) })
    }
}

/// The first position at or after `i` where `n` occurs in `h`.
pub fn find_occ(h: &Vec<char>, n: &Vec<char>, i: usize) -> (r: Option<usize>)
    ensures
        match r {
            Some(k) => k as int == next_occ(h@, n@, i as int),
            None => next_occ(h@, n@, i as int) == -1,
        },
{
    if i > h.len() {
        return None;
    }
    let mut k = i;
    while k < h.len() && n.len() <= h.len() - k
        invariant
            i <= k <= h.len(),
            next_occ(h@, n@, i as int) == next_occ(h@, n@, k as int),
        decreases h.len() - k,
    {
        if matches_at(h, n, k) {
            return Some(k);
        }
        k += 1;
    }
    let found = matches_at(h, n, k);
    proof {
        if k + n@.len() > h@.len() {
            assert(next_occ(h@, n@, k as int) == -1);
        } else {
            assert(k == h@.len());
            assert(n@.len() == 0);
            assert(h@.subrange(k as int, k as int) =~= n@);
            assert(occurs_at(h@, n@, k as int));
            assert(next_occ(h@, n@, k as int) == k);
        }
    }
    if found {
        Some(k)
    } else {
        None
    }
}

/// The text before the first occurrence of `n`, or all of it.
pub fn before_first_exec(h: &Vec<char>, n: &Vec<char>) -> (r: Vec<char>)
    ensures
        r@ == before_first(h@, n@),
{
    match find_occ(h, n, 0) {
        None => sub_chars(h, 0, h.len()),
        Some(f) => {
            proof { lemma_next_occ(h@, n@, 0); }
            sub_chars(h, 0, f)
        },
    }
}

/// The text between the first and the second occurrence of `n`.
pub fn after_first_exec(h: &Vec<char>, n: &Vec<char>) -> (r: Option<Vec<char>>)
    ensures
        match after_first(h@, n@) {
            Some(p) => r matches Some(x) && x@ == p,
            None => r is None,
        },
{
    match find_occ(h, n, 0) {
        None => None,
        Some(f) => {
            proof { lemma_next_occ(h@, n@, 0); }
            assert(f + n@.len() <= h@.len());
            let hl = h.len();
            let s = f + n.len();
            match find_occ(h, n, s) {
                None => Some(sub_chars(h, s, h.len())),
                Some(g) => {
                    proof { lemma_next_occ(h@, n@, s as int); }
                    Some(sub_chars(h, s, g))
                },
            }
        },
    }
}

/// What `{:?}` prints for a text: quoted, with the characters escaped as
/// `str::escape_debug` does.
pub uninterp spec fn str_debug_of(s: Seq<char>) -> Seq<char>;

/// `format!("{:?}", s)`; the result is named `str_debug_of`.
#[verifier::external_body]
pub fn str_debug(s: &str) -> (r: String)
    ensures
        r@ == str_debug_of(s@),
{
    format!("{:?}", s)
}

} // verus!
