//! Controlled access to the internet: only a few documentation and code
//! hosts may be asked, answers are cached under the hash of their address
//! and a cached answer is used while it is younger than a day.

use vstd::prelude::*;
use crate::hash::{canonical_hash, text_hash};
use crate::text::{
    before_first, before_first_exec, chars_of, contains, matches_at, occurs_at, push_decimal, push_str,
    spec_contains, spec_decimal, string_from_chars, sub_chars, to_string,
};

verus! {

/// How long a cached answer stays fresh, in seconds (a day).
pub const CACHE_TTL_SECS: u64 = 86400;

/// The largest answer accepted, in bytes.
pub const MAX_RESPONSE_BYTES: usize = 1048576;

/// How long a request may take, in seconds.
pub const REQUEST_TIMEOUT_SECS: u64 = 5;

/// A cached answer.
#[derive(Debug, Clone)]
pub struct CacheEntry {
    pub url: String,
    pub url_hash: String,
    pub content_hash: String,
    pub fetched_at: u64,
    pub content: String,
    pub content_type: String,
}

/// The outcome of a fetch.
#[derive(Debug, Clone)]
pub struct FetchResult {
    pub content: String,
    pub from_cache: bool,
    pub url: String,
    pub content_hash: String,
}

/// Counts of cache files: all, fresh and stale among those that could be
/// read.
#[derive(Debug, Clone, Copy, PartialEq, Eq, Structural)]
pub struct CacheStats {
    pub total: usize,
    pub fresh: usize,
    pub stale: usize,
}

/// Where answers are cached, and whether a network client is at hand.
#[derive(Debug, Clone)]
pub struct InternetFetcher {
    pub cache_dir: String,
    pub online: bool,
}

impl InternetFetcher {
    /// A fetcher that caches in `cache_dir`, online or not.
    pub fn new(cache_dir: String, online: bool) -> (f: InternetFetcher)
        ensures
            f.cache_dir@ == cache_dir@,
            f.online == online,
    {
        InternetFetcher { cache_dir, online }
    }

    /// A fetcher without network client.
    pub fn new_fake(cache_dir: String) -> (f: InternetFetcher)
        ensures
            f.cache_dir@ == cache_dir@,
            !f.online,
    {
        InternetFetcher { cache_dir, online: false }
    }
}

// ------------------------------------------------------------------
// Addresses
// ------------------------------------------------------------------

/// The hosts that may be asked.
pub open spec fn allowed_domains() -> Seq<Seq<char>> {
    seq!["doc.rust-lang.org"@, "crates.io"@, "docs.rs"@, "raw.githubusercontent.com"@, "github.com"@]
}

/// The allowed hosts as they print for debugging.
pub open spec fn allowed_domains_debug() -> Seq<char> {
    "[\"doc.rust-lang.org\", \"crates.io\", \"docs.rs\", \"raw.githubusercontent.com\", \"github.com\"]"@
}

/// `s` ends with `t`.
pub open spec fn ends_with(s: Seq<char>, t: Seq<char>) -> bool {
    s.len() >= t.len() && s.skip(s.len() - t.len()) == t
}

/// The host of an address: without an `https://` or `http://` prefix, up
/// to the first `/`, then up to the first `:`.
pub open spec fn spec_domain(url: Seq<char>) -> Seq<char> {
    let stripped = if occurs_at(url, "https://"@, 0) {
        url.skip(8)
    } else if occurs_at(url, "http://"@, 0) {
        url.skip(7)
    } else {
        url
    };
    before_first(before_first(stripped, "/"@), ":"@)
}

/// A host is allowed when it is an allowed host or a subdomain of one.
pub open spec fn domain_allowed(d: Seq<char>) -> bool {
    exists|i: int| 0 <= i < allowed_domains().len()
        && (d == #[trigger] allowed_domains()[i] || ends_with(d, "."@ + allowed_domains()[i]))
}

/// The refusal of an address whose host is not allowed.
pub open spec fn refusal_text(d: Seq<char>) -> Seq<char> {
    "Domínio não permitido: "@ + d + ". Permitidos: "@ + allowed_domains_debug()
}

/// Allowed addresses pass; others are refused with their host named.
pub open spec fn spec_validate_url(url: Seq<char>) -> Result<(), Seq<char>> {
    if domain_allowed(spec_domain(url)) {
        Ok(())
    } else {
        Err(refusal_text(spec_domain(url)))
    }
}

fn ends_with_exec(s: &Vec<char>, t: &Vec<char>) -> (b: bool)
    ensures
        b == ends_with(s@, t@),
{
    if s.len() < t.len() {
        return false;
    }
    let k = s.len() - t.len();
    let r = matches_at(s, t, k);
    assert(occurs_at(s@, t@, k as int) ==> s@.skip(k as int) =~= t@);
    assert(ends_with(s@, t@) ==> s@.subrange(k as int, k + t@.len()) =~= t@);
    r
}

fn domain_of(url: &str) -> (d: Vec<char>)
    ensures
        d@ == spec_domain(url@),
{
    let u = chars_of(url);
    let https = chars_of("https://");
    let http = chars_of("http://");
    proof {
        reveal_strlit("https://");
        reveal_strlit("http://");
    }
    let stripped = if matches_at(&u, &https, 0) {
        sub_chars(&u, 8, u.len())
    } else if matches_at(&u, &http, 0) {
        sub_chars(&u, 7, u.len())
    } else {
        sub_chars(&u, 0, u.len())
    };
    assert(stripped@ =~= if occurs_at(url@, "https://"@, 0) {
        url@.skip(8)
    } else if occurs_at(url@, "http://"@, 0) {
        url@.skip(7)
    } else {
        url@
    });
    let first = before_first_exec(&stripped, &chars_of("/"));
    before_first_exec(&first, &chars_of(":"))
}

fn allowed_list() -> (v: Vec<&'static str>)
    ensures
        v@.map_values(|s: &str| s@) == allowed_domains(),
{
    let v = vec!["doc.rust-lang.org", "crates.io", "docs.rs", "raw.githubusercontent.com", "github.com"];
    assert(v@.map_values(|s: &str| s@) =~= allowed_domains());
    v
}

impl InternetFetcher {
    /// Checks that the address's host may be asked.
    pub fn validate_url(&self, url: &str) -> (r: Result<(), String>)
        ensures
            match spec_validate_url(url@) {
                Ok(_) => r is Ok,
                Err(m) => r matches Err(x) && x@ == m,
            },
    {
        let d = domain_of(url);
        let list = allowed_list();
        let ghost names = list@.map_values(|s: &str| s@);
        let mut i: usize = 0;
        while i < list.len()
            invariant
                i <= list.len(),
                names == list@.map_values(|s: &str| s@),
                names == allowed_domains(),
                d@ == spec_domain(url@),
                forall|j: int| 0 <= j < i ==> !(d@ == #[trigger] allowed_domains()[j] || ends_with(d@, "."@ + allowed_domains()[j])),
            decreases list.len() - i,
        {
            let a = chars_of(list[i]);
            let mut dotted = to_string(".");
            push_str(&mut dotted, list[i]);
            let dotted_chars = chars_of(dotted.as_str());
            assert(a@ == allowed_domains()[i as int]);
            assert(dotted_chars@ == "."@ + allowed_domains()[i as int]);
            if crate::text::chars_eq(&d, &a) || ends_with_exec(&d, &dotted_chars) {
                assert(d@ == allowed_domains()[i as int] || ends_with(d@, "."@ + allowed_domains()[i as int]));
                assert(domain_allowed(d@));
                return Ok(());
            }
            i += 1;
        }
        let mut m = to_string("Domínio não permitido: ");
        let ds = string_from_chars(&d);
        push_str(&mut m, ds.as_str());
        push_str(&mut m, ". Permitidos: ");
        push_str(&mut m, "[\"doc.rust-lang.org\", \"crates.io\", \"docs.rs\", \"raw.githubusercontent.com\", \"github.com\"]");
        Err(m)
    }
}

// ------------------------------------------------------------------
// Content and cache
// ------------------------------------------------------------------

/// The kind of an answer, judged from its address and first character.
pub open spec fn spec_content_type(url: Seq<char>, content: Seq<char>) -> Seq<char> {
    if ends_with(url, ".json"@) || occurs_at(content, "{"@, 0) || occurs_at(content, "["@, 0) {
        "application/json"@
    } else if ends_with(url, ".rs"@) || spec_contains(url, "doc.rust-lang.org"@) || spec_contains(url, "/rust/"@) {
        "text/rust"@
    } else if ends_with(url, ".md"@) || spec_contains(url, "github.com"@) {
        "text/markdown"@
    } else if ends_with(url, ".html"@) || spec_contains(url, "docs.rs"@) {
        "text/html"@
    } else {
        "text/plain"@
    }
}

impl InternetFetcher {
    /// The kind of an answer.
    pub fn detect_content_type(&self, url: &str, content: &str) -> (t: String)
        ensures
            t@ == spec_content_type(url@, content@),
    {
        let u = chars_of(url);
        let c = chars_of(content);
        if ends_with_exec(&u, &chars_of(".json")) || matches_at(&c, &chars_of("{"), 0) || matches_at(&c, &chars_of("["), 0) {
            to_string("application/json")
        } else if ends_with_exec(&u, &chars_of(".rs")) || contains(&u, &chars_of("doc.rust-lang.org"))
            || contains(&u, &chars_of("/rust/"))
        {
            to_string("text/rust")
        } else if ends_with_exec(&u, &chars_of(".md")) || contains(&u, &chars_of("github.com")) {
            to_string("text/markdown")
        } else if ends_with_exec(&u, &chars_of(".html")) || contains(&u, &chars_of("docs.rs")) {
            to_string("text/html")
        } else {
            to_string("text/plain")
        }
    }

    /// A cached answer is fresh while younger than a day (an entry from the
    /// future counts as fresh).
    pub fn is_cache_fresh(&self, entry: &CacheEntry, now: u64) -> (b: bool)
        ensures
            b == (if now >= entry.fetched_at { now - entry.fetched_at < CACHE_TTL_SECS } else { true }),
    {
        now.saturating_sub(entry.fetched_at) < CACHE_TTL_SECS
    }
}

/// The cache file of an address: the first sixteen characters of its hash,
/// then `.json`.
pub open spec fn spec_cache_file(url: Seq<char>) -> Seq<char> {
    text_hash(url).take(16) + ".json"@
}

/// The name of the cache file of an address.
pub fn cache_file_name(url: &str) -> (name: String)
    ensures
        name@ == spec_cache_file(url@),
{
    let h = canonical_hash(url);
    let hc = chars_of(h.as_str());
    let prefix = sub_chars(&hc, 0, 16);
    let mut name = string_from_chars(&prefix);
    push_str(&mut name, ".json");
    name
}

/// The length of a text's UTF-8 encoding, as `str::len` reports it.
pub open spec fn byte_len(s: Seq<char>) -> nat {
    (vstd::utf8::encode_utf8(s).len() as usize) as nat
}

/// What a cached entry gives for an address.
pub open spec fn cached_result_ok(url: Seq<char>, e: CacheEntry, r: FetchResult) -> bool {
    &&& r.content@ == e.content@
    &&& r.from_cache
    &&& r.url@ == url
    &&& r.content_hash@ == e.content_hash@
}

impl InternetFetcher {
    /// Fetching without the network: a refused address fails, a cached
    /// entry is used whatever its age, and otherwise the fetch fails.
    pub fn fetch_offline(&self, url: &str, cached: Option<CacheEntry>) -> (r: Result<FetchResult, String>)
        ensures
            match spec_validate_url(url@) {
                Err(m) => r matches Err(x) && x@ == m,
                Ok(_) => match cached {
                    Some(e) => r matches Ok(x) && cached_result_ok(url@, e, x),
                    None => r matches Err(x) && x@ == "Cache não encontrado para "@ + url@,
                },
            },
    {
        match self.validate_url(url) {
            Err(m) => return Err(m),
            Ok(_) => {},
        }
        match cached {
            Some(e) => Ok(FetchResult { content: e.content, from_cache: true, url: to_string(url), content_hash: e.content_hash }),
            None => {
                let mut m = to_string("Cache não encontrado para ");
                push_str(&mut m, url);
                Err(m)
            },
        }
    }

    /// The first step of a fetch: a refused address fails; a fresh cached
    /// entry answers; otherwise (`Ok(None)`) the network must be asked.
    pub fn fetch_cached(&self, url: &str, cached: Option<CacheEntry>, now: u64) -> (r: Result<Option<FetchResult>, String>)
        ensures
            match spec_validate_url(url@) {
                Err(m) => r matches Err(x) && x@ == m,
                Ok(_) => match cached {
                    Some(e) => if (if now >= e.fetched_at { now - e.fetched_at < CACHE_TTL_SECS } else { true }) {
                        r matches Ok(Some(x)) && cached_result_ok(url@, e, x)
                    } else {
                        r matches Ok(None)
                    },
                    None => r matches Ok(None),
                },
            },
    {
        match self.validate_url(url) {
            Err(m) => return Err(m),
            Ok(_) => {},
        }
        match cached {
            Some(e) => {
                if self.is_cache_fresh(&e, now) {
                    Ok(Some(FetchResult { content: e.content, from_cache: true, url: to_string(url), content_hash: e.content_hash }))
                } else {
                    Ok(None)
                }
            },
            None => Ok(None),
        }
    }

    /// The last step of a fetch: an answer too large is refused; otherwise
    /// the result and the cache entry to write.
    pub fn accept_response(&self, url: &str, content: String, now: u64) -> (r: Result<(FetchResult, CacheEntry), String>)
        ensures
            match r {
                Ok((res, e)) => {
                    &&& byte_len(content@) <= MAX_RESPONSE_BYTES
                    &&& res.content@ == content@ && !res.from_cache && res.url@ == url@
                    &&& res.content_hash@ == text_hash(content@)
                    &&& e.url@ == url@ && e.url_hash@ == text_hash(url@)
                    &&& e.content_hash@ == text_hash(content@) && e.fetched_at == now
                    &&& e.content@ == content@ && e.content_type@ == spec_content_type(url@, content@)
                },
                Err(m) => byte_len(content@) > MAX_RESPONSE_BYTES && m@
                    == "Resposta muito grande: "@ + spec_decimal(byte_len(content@)) + " bytes (máx: 1048576)"@,
            },
    {
        let size = content.as_str().len();
        if size > MAX_RESPONSE_BYTES {
            let mut m = to_string("Resposta muito grande: ");
            push_decimal(&mut m, size as u64);
            push_str(&mut m, " bytes (máx: 1048576)");
            return Err(m);
        }
        let content_type = self.detect_content_type(url, content.as_str());
        let content_hash = canonical_hash(content.as_str());
        let entry = CacheEntry {
            url: to_string(url),
            url_hash: canonical_hash(url),
            content_hash: content_hash.clone(),
            fetched_at: now,
            content: content.clone(),
            content_type,
        };
        Ok((FetchResult { content, from_cache: false, url: to_string(url), content_hash }, entry))
    }

    /// Counts of the cache: `files` cache files, of which `read` could be
    /// read as entries, each judged fresh or stale at `now`.
    pub fn cache_stats(&self, files: usize, read: &Vec<CacheEntry>, now: u64) -> (s: CacheStats)
        ensures
            s.total == files,
            s.fresh + s.stale == read@.len(),
            s.fresh == read@.filter(|e: CacheEntry| if now >= e.fetched_at { now - e.fetched_at < CACHE_TTL_SECS } else { true }).len(),
    {
        let mut fresh: usize = 0;
        let mut stale: usize = 0;
        let mut k: usize = 0;
        while k < read.len()
            invariant
                k <= read.len(),
                fresh + stale == k,
                fresh == read@.take(k as int).filter(|e: CacheEntry| if now >= e.fetched_at { now - e.fetched_at < CACHE_TTL_SECS } else { true }).len(),
            decreases read.len() - k,
        {
            proof {
                assert(read@.take(k as int + 1).drop_last() =~= read@.take(k as int));
                reveal(Seq::filter);
            }
            if self.is_cache_fresh(&read[k], now) {
                fresh += 1;
            } else {
                stale += 1;
            }
            k += 1;
        }
        assert(read@.take(read.len() as int) =~= read@);
        CacheStats { total: files, fresh, stale }
    }
}

} // verus!
