//! Time handling: relative time expressions ("1h", "30m", "2d") resolve
//! against a caller-supplied wall-clock reading into absolute timestamps;
//! ISO-8601 strings pass through unchanged; anything else fails closed.

use vstd::prelude::*;
use vstd::string::StrSliceExecFns;
use crate::text::spec_parse_i64;
use crate::text::parse_i64;

verus! {

/// The RFC 3339 rendering (UTC) of an epoch-seconds instant.
pub uninterp spec fn rfc3339_of(secs: int) -> Seq<char>;

/// Relies on chrono's `DateTime::from_timestamp` and `to_rfc3339`: the
/// rendering is a function of the instant alone; an instant outside chrono's
/// representable range renders as the empty string.
#[verifier::external_body]
pub fn format_rfc3339_secs(secs: i64) -> (r: String)
    ensures
        r@ == rfc3339_of(secs as int),
{
    match chrono::DateTime::from_timestamp(secs, 0) {
        Some(dt) => dt.to_rfc3339(),
        None => String::new(),
    }
}

/// The RFC 3339 rendering (UTC) of an epoch-microseconds instant.
pub uninterp spec fn rfc3339_of_micros(micros: int) -> Seq<char>;

/// Relies on chrono's `DateTime::from_timestamp_micros` and `to_rfc3339`: the
/// rendering is a function of the instant alone; an instant outside chrono's
/// representable range renders as the empty string.
#[verifier::external_body]
pub fn format_rfc3339_micros(micros: i64) -> (r: String)
    ensures
        r@ == rfc3339_of_micros(micros as int),
{
    match chrono::DateTime::from_timestamp_micros(micros) {
        Some(dt) => dt.to_rfc3339(),
        None => String::new(),
    }
}

/// What parsing an RFC 3339 timestamp into epoch microseconds yields; `None`
/// on text that is no such timestamp.
pub uninterp spec fn rfc3339_to_micros(s: Seq<char>) -> Option<i64>;

/// Relies on chrono's `DateTime::parse_from_rfc3339` and `timestamp_micros`:
/// the parse depends on the text alone.
#[verifier::external_body]
pub fn parse_rfc3339_micros(s: &str) -> (r: Option<i64>)
    ensures
        r == rfc3339_to_micros(s@),
{
    chrono::DateTime::parse_from_rfc3339(s).ok().map(|dt| dt.timestamp_micros())
}

/// Relies on chrono's `Utc::now`: the current wall-clock instant in epoch
/// seconds. Two calls may differ; nothing more is assumed of the value.
#[verifier::external_body]
pub fn now_epoch_seconds() -> i64 {
    chrono::Utc::now().timestamp()
}

/// The seconds-per-unit factor of a relative-time suffix, 0 for any other
/// character.
pub open spec fn spec_unit_factor(c: char) -> int {
    if c == 'h' {
        3600
    } else if c == 'm' {
        60
    } else if c == 'd' {
        86400
    } else {
        0
    }
}

/// What a relative time expression resolves to against `now`: a signed count,
/// a unit suffix `h`/`m`/`d`, and the resolved instant `now - count * factor`
/// when everything is well-formed and in range; `None` otherwise (malformed
/// expressions fail closed).
pub open spec fn spec_resolve_relative(s: Seq<char>, now: int) -> Option<int> {
    if s.len() >= 2 && spec_unit_factor(s.last()) > 0 {
        match spec_parse_i64(s.drop_last()) {
            Some(v) => {
                let instant = now - v * spec_unit_factor(s.last());
                if i64::MIN <= v * spec_unit_factor(s.last()) <= i64::MAX && i64::MIN <= instant
                    <= i64::MAX {
                    Some(instant)
                } else {
                    None
                }
            },
            None => None,
        }
    } else {
        None
    }
}

/// Resolves a relative time expression ("1h", "30m", "2d") to the absolute
/// epoch second `now - count * unit`; fails closed on malformed units,
/// malformed counts, and out-of-range results.
pub fn resolve_relative(s: &str, now: i64) -> (r: Option<i64>)
    ensures
        r == match spec_resolve_relative(s@, now as int) {
            Some(v) => Some(v as i64),
            None => None::<i64>,
        },
{
    let n = s.unicode_len();
    if n < 2 {
        return None;
    }
    let unit = s.get_char(n - 1);
    let factor: i64 = if unit == 'h' {
        3600
    } else if unit == 'm' {
        60
    } else if unit == 'd' {
        86400
    } else {
        return None;
    };
    let head = s.substring_char(0, n - 1);
    assert(head@ =~= s@.drop_last());
    match parse_i64(head) {
        Some(v) => {
            match v.checked_mul(factor) {
                Some(delta) => {
                    match now.checked_sub(delta) {
                        Some(instant) => Some(instant),
                        None => None,
                    }
                },
                None => None,
            }
        },
        None => None,
    }
}

/// True when `s` contains the character `c`.
pub fn has_char(s: &str, c: char) -> (r: bool)
    ensures
        r == s@.contains(c),
{
    let n = s.unicode_len();
    let mut i: usize = 0;
    while i < n
        invariant
            0 <= i <= n,
            n == s@.len(),
            forall|j: int| 0 <= j < i ==> s@[j] != c,
        decreases n - i,
    {
        if s.get_char(i) == c {
            assert(s@.contains(c));
            return true;
        }
        i = i + 1;
    }
    assert(!s@.contains(c));
    false
}

/// True of text the time resolver passes through as an already-absolute
/// timestamp: anything containing a 'T' or a '-'.
pub open spec fn spec_looks_absolute(s: Seq<char>) -> bool {
    s.contains('T') || s.contains('-')
}

/// What resolving a time argument yields, after trimming surrounding
/// whitespace: absolute-looking text passes through unchanged; otherwise the
/// text must resolve as a relative expression against `now` and is rendered
/// in RFC 3339; malformed text yields `None`.
pub open spec fn spec_parse_time(s: Seq<char>, now: int) -> Option<Seq<char>> {
    let t = crate::text::spec_trim(s);
    if spec_looks_absolute(t) {
        Some(t)
    } else {
        match spec_resolve_relative(t, now) {
            Some(instant) => Some(rfc3339_of(instant)),
            None => None,
        }
    }
}

/// Resolves a tool-call time argument against the wall-clock reading `now`:
/// ISO-8601-looking strings pass through unchanged, relative expressions
/// become absolute RFC 3339 timestamps, anything else fails closed.
pub fn parse_time(s: &str, now: i64) -> (r: Option<String>)
    ensures
        match r {
            Some(t) => spec_parse_time(s@, now as int) == Some(t@),
            None => spec_parse_time(s@, now as int) is None,
        },
{
    let trimmed = crate::text::trim(s);
    if has_char(trimmed.as_str(), 'T') || has_char(trimmed.as_str(), '-') {
        Some(trimmed)
    } else {
        match resolve_relative(trimmed.as_str(), now) {
            Some(instant) => Some(format_rfc3339_secs(instant)),
            None => None,
        }
    }
}

} // verus!
