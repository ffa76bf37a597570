//! First line of defence: raw input screening, and the sliding-window
//! decision of the per-source rate limiter.

use vstd::prelude::*;
use vstd::string::StringSliceAdditionalSpecFns;
use crate::text::{chars_of, push_decimal, push_str, spec_decimal};
use crate::clock::now_millis;
use crate::limits::{MAX_RATE_LIMIT_KEY_LEN, MAX_RATE_LIMIT_SOURCES};
use crate::textmap::TextMap;

verus! {

/// Why a raw input was refused.
#[derive(Debug, Clone, PartialEq)]
pub enum ValidationError {
    EmptyInput,
    ExceedsMaxSize { limit: usize, actual: usize },
    SuspiciousPattern(String),
}

/// Mathematical view of a refusal.
pub enum ValidationErrorV {
    EmptyInput,
    ExceedsMaxSize { limit: nat, actual: nat },
    SuspiciousPattern(Seq<char>),
}

impl View for ValidationError {
    type V = ValidationErrorV;

    open spec fn view(&self) -> ValidationErrorV {
        match self {
            ValidationError::EmptyInput => ValidationErrorV::EmptyInput,
            ValidationError::ExceedsMaxSize { limit, actual } => ValidationErrorV::ExceedsMaxSize {
                limit: *limit as nat,
                actual: *actual as nat,
            },
            ValidationError::SuspiciousPattern(p) => ValidationErrorV::SuspiciousPattern(p@),
        }
    }
}

/// The verdict on a raw input of `bytes` UTF-8 bytes and characters `chars`:
/// empty, then too long, then holding a NUL character.
pub open spec fn spec_validate_raw(chars: Seq<char>, bytes: nat, max_bytes: nat) -> Result<(), ValidationErrorV> {
    if chars.len() == 0 {
        Err(ValidationErrorV::EmptyInput)
    } else if bytes > max_bytes {
        Err(ValidationErrorV::ExceedsMaxSize { limit: max_bytes, actual: bytes })
    } else if chars.contains('\0') {
        Err(ValidationErrorV::SuspiciousPattern("null byte encontrado"@))
    } else {
        Ok(())
    }
}

fn has_nul(v: &Vec<char>) -> (b: bool)
    ensures
        b == v@.contains('\0'),
{
    let mut i: usize = 0;
    while i < v.len()
        invariant
            i <= v.len(),
            forall|k: int| 0 <= k < i ==> v@[k] != '\0',
        decreases v.len() - i,
    {
        if v[i] == '\0' {
            assert(v@[i as int] == '\0');
            return true;
        }
        i += 1;
    }
    false
}

/// Screens a raw input before anything else reads it: it must not be empty,
/// must fit in `max_bytes` bytes, and must hold no NUL character.
pub fn validate_raw_input(input: &str, max_bytes: usize) -> (r: Result<(), ValidationError>)
    ensures
        match (r, spec_validate_raw(input@, input.spec_bytes().len(), max_bytes as nat)) {
            (Ok(_), Ok(_)) => true,
            (Err(e), Err(se)) => e@ == se,
            _ => false,
        },
{
    broadcast use vstd::string::group_string_axioms;
    let chars = chars_of(input);
    if chars.len() == 0 {
        return Err(ValidationError::EmptyInput);
    }
    let n = input.as_bytes().len();
    if n > max_bytes {
        return Err(ValidationError::ExceedsMaxSize { limit: max_bytes, actual: n });
    }
    if has_nul(&chars) {
        return Err(ValidationError::SuspiciousPattern(crate::text::to_string("null byte encontrado")));
    }
    Ok(())
}

impl ValidationError {
    /// The text of a refusal.
    pub open spec fn spec_text(e: ValidationErrorV) -> Seq<char> {
        match e {
            ValidationErrorV::EmptyInput => "entrada vazia rejeitada"@,
            ValidationErrorV::ExceedsMaxSize { limit, actual } => "entrada excede limite: "@ + spec_decimal(actual)
                + " bytes (máximo: "@ + spec_decimal(limit) + seq![')'],
            ValidationErrorV::SuspiciousPattern(p) => "padrão suspeito detectado: "@ + p,
        }
    }

    /// The text of the refusal.
    pub fn to_string(&self) -> (s: String)
        ensures
            s@ == ValidationError::spec_text(self@),
    {
        let mut s = String::new();
        match self {
            ValidationError::EmptyInput => push_str(&mut s, "entrada vazia rejeitada"),
            ValidationError::ExceedsMaxSize { limit, actual } => {
                push_str(&mut s, "entrada excede limite: ");
                push_decimal(&mut s, *actual as u64);
                push_str(&mut s, " bytes (máximo: ");
                push_decimal(&mut s, *limit as u64);
                push_str(&mut s, ")");
                proof { reveal_strlit(")"); }
            },
            ValidationError::SuspiciousPattern(p) => {
                push_str(&mut s, "padrão suspeito detectado: ");
                push_str(&mut s, p.as_str());
            },
        }
        s
    }
}

/// The requests of a window still counted at `now`: older entries (at least
/// `window` old) leave from the front until a recent one is met.
pub open spec fn spec_trim(ts: Seq<i64>, now: i64, window: u64) -> Seq<i64>
    decreases ts.len(),
{
    if ts.len() > 0 && now - ts[0] >= window {
        spec_trim(ts.drop_first(), now, window)
    } else {
        ts
    }
}

/// Drops the expired requests from the front of a window.
pub fn trim_expired(timestamps: &mut Vec<i64>, now: i64, window: u64)
    ensures
        final(timestamps)@ == spec_trim(old(timestamps)@, now, window),
{
    let mut k: usize = 0;
    assert(timestamps@.skip(0) =~= timestamps@);
    while k < timestamps.len() && (now as i128 - timestamps[k] as i128) >= window as i128
        invariant
            k <= timestamps@.len(),
            spec_trim(timestamps@, now, window) == spec_trim(timestamps@.skip(k as int), now, window),
        decreases timestamps@.len() - k,
    {
        proof {
            assert(timestamps@.skip(k as int).drop_first() =~= timestamps@.skip(k + 1));
        }
        k += 1;
    }
    let mut kept: Vec<i64> = Vec::new();
    let mut j: usize = k;
    while j < timestamps.len()
        invariant
            k <= j <= timestamps@.len(),
            kept@ =~= timestamps@.subrange(k as int, j as int),
        decreases timestamps@.len() - j,
    {
        kept.push(timestamps[j]);
        j += 1;
    }
    proof {
        assert(kept@ =~= timestamps@.skip(k as int));
    }
    *timestamps = kept;
}

/// A per-source sliding-window rate limiter: at most `max_requests` accepted
/// requests of a source within `window` milliseconds, at most
/// `MAX_RATE_LIMIT_SOURCES` sources tracked, and no source key longer than
/// `MAX_RATE_LIMIT_KEY_LEN` bytes. Times are milliseconds since the Unix
/// epoch.
pub struct RateLimiter {
    history: TextMap<Vec<i64>>,
    max_requests: usize,
    window: u64,
}

impl View for RateLimiter {
    type V = Map<Seq<char>, Seq<i64>>;

    closed spec fn view(&self) -> Map<Seq<char>, Seq<i64>> {
        self.history@.map_values(|v: Vec<i64>| v@)
    }
}

impl RateLimiter {
    /// The most requests a source may make within a window.
    pub closed spec fn spec_max_requests(&self) -> nat {
        self.max_requests as nat
    }

    /// The window, in milliseconds.
    pub closed spec fn spec_window(&self) -> u64 {
        self.window
    }

    /// A limiter with no history.
    pub fn new(max_requests: usize, window: u64) -> (r: Self)
        ensures
            r@ == Map::<Seq<char>, Seq<i64>>::empty(),
            r.spec_max_requests() == max_requests,
            r.spec_window() == window,
    {
        let r = RateLimiter { history: TextMap::new(), max_requests, window };
        assert(r@ =~= Map::<Seq<char>, Seq<i64>>::empty());
        r
    }

    /// Decides a request of `source_key` at `now`. A key longer than the
    /// limit, or a limiter allowing no request, refuses it. A known source's
    /// window drops its expired requests; the request is accepted and
    /// recorded when fewer than `max_requests` remain. A new source is
    /// accepted and tracked while fewer than the most sources are tracked.
    pub fn check_at(&mut self, source_key: &str, now: i64) -> (accepted: bool)
        ensures
            final(self).spec_max_requests() == old(self).spec_max_requests(),
            final(self).spec_window() == old(self).spec_window(),
            source_key.spec_bytes().len() > MAX_RATE_LIMIT_KEY_LEN || old(self).spec_max_requests() == 0
                ==> !accepted && final(self)@ == old(self)@,
            source_key.spec_bytes().len() <= MAX_RATE_LIMIT_KEY_LEN && old(self).spec_max_requests() > 0
                && old(self)@.contains_key(source_key@) ==> {
                let t = spec_trim(old(self)@[source_key@], now, old(self).spec_window());
                &&& accepted == (t.len() < old(self).spec_max_requests())
                &&& final(self)@ == old(self)@.insert(source_key@, if accepted { t.push(now) } else { t })
            },
            source_key.spec_bytes().len() <= MAX_RATE_LIMIT_KEY_LEN && old(self).spec_max_requests() > 0
                && !old(self)@.contains_key(source_key@) ==> {
                &&& accepted == (old(self)@.dom().len() < MAX_RATE_LIMIT_SOURCES)
                &&& final(self)@ == if accepted { old(self)@.insert(source_key@, seq![now]) } else { old(self)@ }
            },
            accepted ==> final(self)@[source_key@].len() <= final(self).spec_max_requests(),
    {
        broadcast use vstd::string::group_string_axioms;
        if source_key.as_bytes().len() > MAX_RATE_LIMIT_KEY_LEN {
            return false;
        }
        if self.max_requests == 0 {
            return false;
        }
        proof {
            assert(self.history@.dom() =~= self@.dom());
        }
        match self.history.remove(source_key) {
            Some(ts) => {
                let mut ts = ts;
                trim_expired(&mut ts, now, self.window);
                let accepted = ts.len() < self.max_requests;
                if accepted {
                    ts.push(now);
                }
                let ghost tv = ts@;
                self.history.insert(crate::text::to_string(source_key), ts);
                proof {
                    assert(self@ =~= old(self)@.insert(source_key@, tv));
                }
                accepted
            },
            None => {
                proof {
                    assert(old(self).history@.remove(source_key@) =~= old(self).history@);
                    assert(self@ =~= old(self)@);
                    assert(self@.dom() =~= self.history@.dom());
                }
                if self.history.len() >= MAX_RATE_LIMIT_SOURCES {
                    return false;
                }
                let mut ts: Vec<i64> = Vec::new();
                ts.push(now);
                self.history.insert(crate::text::to_string(source_key), ts);
                proof {
                    assert(self@ =~= old(self)@.insert(source_key@, seq![now]));
                }
                true
            },
        }
    }

    /// Decides a request of `source_key` now (see `check_at`).
    pub fn check(&mut self, source_key: &str) -> (accepted: bool)
        ensures
            source_key.spec_bytes().len() > MAX_RATE_LIMIT_KEY_LEN || old(self).spec_max_requests() == 0
                ==> !accepted && final(self)@ == old(self)@,
            accepted ==> final(self)@[source_key@].len() <= final(self).spec_max_requests(),
    {
        self.check_at(source_key, now_millis())
    }

    /// Periodic cleanup at `now`: every window drops its expired requests
    /// and sources with none left are forgotten.
    pub fn cleanup_at(&mut self, now: i64)
        ensures
            final(self).spec_max_requests() == old(self).spec_max_requests(),
            final(self).spec_window() == old(self).spec_window(),
            forall|k: Seq<char>| #[trigger] final(self)@.contains_key(k) <==> old(self)@.contains_key(k)
                && spec_trim(old(self)@[k], now, old(self).spec_window()).len() > 0,
            forall|k: Seq<char>| #[trigger] final(self)@.contains_key(k)
                ==> final(self)@[k] == spec_trim(old(self)@[k], now, old(self).spec_window()),
    {
        let keys = self.history.keys_list();
        let mut fresh: TextMap<Vec<i64>> = TextMap::new();
        let mut i: usize = 0;
        while i < keys.len()
            invariant
                i <= keys@.len(),
                forall|j: int| 0 <= j < keys@.len() ==> self.history@.contains_key(#[trigger] keys@[j]@),
                forall|k: Seq<char>| #[trigger] self.history@.contains_key(k) ==> exists|j: int| 0 <= j < keys@.len() && keys@[j]@ == k,
                forall|a: int, b: int| 0 <= a < b < keys@.len() ==> keys@[a]@ != keys@[b]@,
                self.history@ == old(self).history@,
                forall|k: Seq<char>| #[trigger] fresh@.contains_key(k) <==> (exists|j: int| 0 <= j < i && keys@[j]@ == k)
                    && spec_trim(self@[k], now, self.window).len() > 0,
                forall|k: Seq<char>| #[trigger] fresh@.contains_key(k) ==> fresh@[k]@ == spec_trim(self@[k], now, self.window),
            decreases keys@.len() - i,
        {
            let key = &keys[i];
            match self.history.get(key.as_str()) {
                Some(ts) => {
                    let mut t: Vec<i64> = Vec::new();
                    let mut j: usize = 0;
                    while j < ts.len()
                        invariant
                            j <= ts@.len(),
                            t@ =~= ts@.take(j as int),
                        decreases ts@.len() - j,
                    {
                        t.push(ts[j]);
                        j += 1;
                    }
                    proof {
                        assert(ts@.take(ts@.len() as int) =~= ts@);
                    }
                    trim_expired(&mut t, now, self.window);
                    if t.len() > 0 {
                        fresh.insert(key.clone(), t);
                    }
                },
                None => {},
            }
            proof {
                assert forall|k: Seq<char>| #[trigger] fresh@.contains_key(k) <==> (exists|j: int| 0 <= j < i + 1 && keys@[j]@ == k)
                    && spec_trim(self@[k], now, self.window).len() > 0 by {
                    if exists|j: int| 0 <= j < i + 1 && keys@[j]@ == k {
                        let j = choose|j: int| 0 <= j < i + 1 && keys@[j]@ == k;
                        if j < i {
                            assert(exists|j2: int| 0 <= j2 < i && keys@[j2]@ == k);
                        }
                    }
                    if exists|j: int| 0 <= j < i && keys@[j]@ == k {
                        let j = choose|j: int| 0 <= j < i && keys@[j]@ == k;
                        assert(exists|j2: int| 0 <= j2 < i + 1 && keys@[j2]@ == k);
                    }
                }
            }
            i += 1;
        }
        self.history = fresh;
        proof {
            assert forall|k: Seq<char>| #[trigger] self@.contains_key(k) <==> old(self)@.contains_key(k)
                && spec_trim(old(self)@[k], now, old(self).spec_window()).len() > 0 by {
                if old(self)@.contains_key(k) {
                    let j = choose|j: int| 0 <= j < keys@.len() && keys@[j]@ == k;
                }
            }
        }
    }

    /// Periodic cleanup now.
    pub fn cleanup(&mut self)
        ensures
            final(self).spec_max_requests() == old(self).spec_max_requests(),
            final(self).spec_window() == old(self).spec_window(),
            forall|k: Seq<char>| #[trigger] final(self)@.contains_key(k) ==> old(self)@.contains_key(k),
    {
        self.cleanup_at(now_millis());
    }
}

/// Within one window the limiter accepts at most `max_requests` requests of
/// a source: an accepted request leaves at most that many recorded.
pub proof fn law_accepted_requests_fit_the_window(recorded: Seq<i64>, now: i64, window: u64, max_requests: nat)
    requires
        spec_trim(recorded, now, window).len() < max_requests,
    ensures
        spec_trim(recorded, now, window).push(now).len() <= max_requests,
{
}

} // verus!
