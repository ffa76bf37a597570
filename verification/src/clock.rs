//! The wall clock (`chrono`, UTC): the current time, and the age of a
//! timestamp.

use vstd::prelude::*;

verus! {

/// A point in time, UTC: whole seconds since the Unix epoch and the
/// nanoseconds within the second.
#[derive(Debug, Clone, Copy, PartialEq, Eq, Structural)]
pub struct UtcInstant {
    pub secs: i64,
    pub nanos: u32,
}

/// `a` comes strictly before `b`.
pub open spec fn spec_before(a: UtcInstant, b: UtcInstant) -> bool {
    a.secs < b.secs || (a.secs == b.secs && a.nanos < b.nanos)
}

/// The current instant (`chrono::Utc::now()`).
/// Trusted: the nanoseconds lie within a second (below 2·10^9, leap
/// seconds included); nothing else is stated.
#[verifier::external_body]
pub fn now_instant() -> (t: UtcInstant)
    ensures
        t.nanos < 2_000_000_000,
{
    let now = chrono::Utc::now();
    UtcInstant { secs: now.timestamp(), nanos: now.timestamp_subsec_nanos() }
}

/// The text is a timestamp that `DateTime<Utc>` parses (relaxed RFC 3339).
pub uninterp spec fn utc_timestamp_parses(text: Seq<char>) -> bool;

/// Whole seconds elapsed from the timestamp to now, rounded toward zero
/// (`(Utc::now() - text.parse::<DateTime<Utc>>()?).num_seconds()`), or
/// `None` when the text does not parse.
/// Trusted: the result is `Some` exactly when the text parses. Its value
/// depends on the clock and is not stated. (`chrono::DateTime` itself cannot
/// be declared to Verus here, so parsing, reading the clock and subtracting
/// stand in this one item.)
#[verifier::external_body]
pub fn timestamp_age_seconds(text: &str) -> (age: Option<i64>)
    ensures
        age is Some <==> utc_timestamp_parses(text@),
{
    match text.parse::<chrono::DateTime<chrono::Utc>>() {
        Ok(ts) => Some(chrono::Utc::now().signed_duration_since(ts).num_seconds()),
        Err(_) => None,
    }
}

/// The wall clock, in milliseconds since the Unix epoch, UTC
/// (`chrono::Utc::now().timestamp_millis()`).
/// Trusted: nothing is stated of the value, which depends on the clock.
#[verifier::external_body]
pub fn now_millis() -> (t: i64) {
    chrono::Utc::now().timestamp_millis()
}

/// The current time as RFC 3339 text (`chrono::Utc::now().to_rfc3339()`).
/// Trusted: the text parses back as a UTC timestamp; its value depends on
/// the clock and is not stated.
#[verifier::external_body]
pub fn now_rfc3339() -> (t: String)
    ensures
        utc_timestamp_parses(t@),
{
    chrono::Utc::now().to_rfc3339()
}

} // verus!
