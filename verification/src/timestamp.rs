//! Timestamp normalization: event timestamps of whatever shape become the
//! backend's form, nanoseconds since the epoch in decimal.

use crate::decimal::{decimal_string, decimal_text, lemma_decimal_text_shape};
use vstd::prelude::*;
use vstd::string::*;

verus! {

/// What chrono makes of a text read as an RFC 3339 date and time: `None` where
/// its parser rejects the text; otherwise the instant in nanoseconds since the
/// epoch, or `Some(None)` for an instant too far from the epoch to count in
/// 64 bits.
pub uninterp spec fn rfc3339_nanos(text: Seq<char>) -> Option<Option<i64>>;

/// Calls `chrono::DateTime::parse_from_rfc3339` and, on the instant it
/// returns, `chrono::DateTime::timestamp_nanos_opt`. Trusted: the outcome is
/// a function of the text alone. The parser has a fixed grammar and reads the
/// offset from the text, never from the machine's time zone or locale.
#[verifier::external_body]
fn parse_rfc3339_nanos(text: &str) -> (r: Option<Option<i64>>)
    ensures
        r == rfc3339_nanos(text@),
{
    match chrono::DateTime::parse_from_rfc3339(text) {
        Ok(instant) => Some(instant.timestamp_nanos_opt()),
        Err(_) => None,
    }
}

/// Reads the system clock with `std::time::SystemTime::now`, has chrono take
/// the reading as a UTC instant (`From<SystemTime> for DateTime<Utc>`) and
/// counts it in nanoseconds with `chrono::DateTime::timestamp_nanos_opt`.
/// Nothing is claimed of the reading. A clock set before 1970 gives an
/// instant before the epoch, and so a negative count.
#[verifier::external_body]
fn clock_nanos() -> (r: Option<i64>) {
    chrono::DateTime::<chrono::Utc>::from(std::time::SystemTime::now()).timestamp_nanos_opt()
}

/// `s` without the `Z` at its end, where it ends in one: one character at
/// most is dropped, also where a second `Z` stands before it.
pub open spec fn strip_trailing_z(s: Seq<char>) -> Seq<char> {
    if s.len() > 0 && s.last() == 'Z' {
        s.drop_last()
    } else {
        s
    }
}

/// The repaired form of a timestamp: a trailing `Z` dropped and an explicit
/// zero offset put in its place.
pub open spec fn repaired_text(s: Seq<char>) -> Seq<char> {
    strip_trailing_z(s) + "+00:00"@
}

/// The nanoseconds that a parse stands for: an instant that cannot be counted
/// in 64 bits stands for 0.
pub open spec fn settled(parsed: Option<Option<i64>>) -> Option<i64> {
    match parsed {
        Some(Some(nanos)) => Some(nanos),
        Some(None) => Some(0i64),
        None => None,
    }
}

/// The instant a timestamp text resolves to: what the strict parse gives, or
/// else what the parse of the repaired text gives; `None` where both fail.
pub open spec fn resolved_nanos(text: Seq<char>) -> Option<i64> {
    match settled(rfc3339_nanos(text)) {
        Some(nanos) => Some(nanos),
        None => settled(rfc3339_nanos(repaired_text(text))),
    }
}

/// The backend's timestamp for a resolved instant, with `clock` standing in
/// where the text did not resolve. A clock reading that cannot be counted in
/// 64 bits stands for 0.
pub open spec fn backend_time_text(resolved: Option<i64>, clock: Option<i64>) -> Seq<char> {
    match resolved {
        Some(nanos) => decimal_text(nanos as int),
        None => match clock {
            Some(now) => decimal_text(now as int),
            None => decimal_text(0),
        },
    }
}

/// What a parse stands for in nanoseconds, see [`settled`].
pub fn settle(parsed: Option<Option<i64>>) -> (r: Option<i64>)
    ensures
        r == settled(parsed),
{
    match parsed {
        Some(Some(nanos)) => Some(nanos),
        Some(None) => Some(0),
        None => None,
    }
}

/// The repaired form of `text`: a `Z` at its end dropped, `+00:00` appended.
pub fn repair_timestamp(text: &str) -> (r: String)
    ensures
        r@ == repaired_text(text@),
{
    let ghost s = text@;
    let total: usize = text.unicode_len();
    let mut ends_in_z: bool = false;
    let ghost mut done: int = 0;
    for c in it: text.chars()
        invariant
            it.seq() == s,
            s == text@,
            done == it.index(),
            ends_in_z == (it.index() > 0 && s[it.index() - 1] == 'Z'),
    {
        assert(c == s[it.index() as int]);
        proof {
            done = it.index() + 1;
        }
        ends_in_z = c == 'Z';
    }
    assert(done == s.len());
    let keep: usize = if ends_in_z {
        total - 1
    } else {
        total
    };
    let kept = text.substring_char(0, keep);
    assert(kept@ =~= strip_trailing_z(s));
    let mut repaired = String::from_str(kept);
    repaired.append("+00:00");
    repaired
}

/// Resolves a timestamp text to nanoseconds since the epoch: a strict
/// RFC 3339 parse first, then a second parse of the repaired text.
pub fn resolve_nanos(text: &str) -> (r: Option<i64>)
    ensures
        r == resolved_nanos(text@),
{
    match settle(parse_rfc3339_nanos(text)) {
        Some(nanos) => Some(nanos),
        None => {
            let repaired = repair_timestamp(text);
            settle(parse_rfc3339_nanos(repaired.as_str()))
        },
    }
}

/// The backend's timestamp for a resolved instant, or for the clock reading
/// where there is none.
pub fn backend_time(resolved: Option<i64>, clock: Option<i64>) -> (r: String)
    ensures
        r@ == backend_time_text(resolved, clock),
{
    match resolved {
        Some(nanos) => decimal_string(nanos),
        None => match clock {
            Some(now) => decimal_string(now),
            None => decimal_string(0),
        },
    }
}

/// Whether `stamp` is a timestamp that [`timestamp_to_nanoseconds`] may give
/// for `text`: the resolved instant in decimal, or, where the text does not
/// resolve, some clock reading in decimal.
pub open spec fn is_backend_time_for(text: Seq<char>, stamp: Seq<char>) -> bool {
    exists|clock: Option<i64>| stamp == #[trigger] backend_time_text(resolved_nanos(text), clock)
}

/// Converts a timestamp text to the backend's form. Never fails: a text that
/// cannot be read even after repair gets the current wall-clock time. The
/// clock is read only for such a text.
pub fn timestamp_to_nanoseconds(text: &str) -> (r: String)
    ensures
        is_backend_time_for(text@, r@),
        resolved_nanos(text@) matches Some(nanos) ==> r@ == decimal_text(nanos as int),
        r@.len() >= 1,
{
    let resolved = resolve_nanos(text);
    let clock = match resolved {
        Some(_) => None,
        None => clock_nanos(),
    };
    let r = backend_time(resolved, clock);
    proof {
        assert(r@ == backend_time_text(resolved_nanos(text@), clock));
        match resolved {
            Some(nanos) => lemma_decimal_text_shape(nanos as int),
            None => match clock {
                Some(now) => lemma_decimal_text_shape(now as int),
                None => lemma_decimal_text_shape(0),
            },
        }
    }
    r
}

} // verus!
