//! Log-exploration helpers over normalized entries: case-insensitive
//! filtering, aggregation by level and service, and CSV line framing.

use vstd::prelude::*;
use vstd::string::StringExecFns;
use crate::backends::LogEntry;
use crate::backends::view_opt;
use crate::level::spec_eq_upper;
use crate::level::eq_ignore_case;
use crate::text::chars_of;
use crate::text::push_char;
use crate::text::str_eq;
use crate::text::spec_contains_seq;
use crate::text::contains_str;
use crate::tools::LevelCounts;
use crate::tools::count_levels;
use crate::tools::distinct_services;
use crate::tools::spec_count_service;
use crate::tools::TimeRange;
use crate::tools::time_range_of;

verus! {

/// The Unicode lower-casing of a character sequence; the result depends on
/// the characters alone, and an empty string stays empty.
pub uninterp spec fn lower_of(s: Seq<char>) -> Seq<char>;

/// Relies on str::to_lowercase: the result depends on the characters alone.
#[verifier::external_body]
pub fn lowercase(s: &str) -> (r: String)
    ensures
        r@ == lower_of(s@),
        s@.len() == 0 ==> r@.len() == 0,
{
    s.to_lowercase()
}

/// A filter over already-fetched entries; every field is optional and all
/// present fields must match.
#[derive(Clone, Debug)]
pub struct LogFilter {
    pub level: Option<String>,
    pub service: Option<String>,
    pub start_time: Option<String>,
    pub end_time: Option<String>,
    pub contains: Option<String>,
}

impl Default for LogFilter {
    /// The empty filter: nothing constrained.
    fn default() -> (r: LogFilter)
        ensures
            r.level is None,
            r.service is None,
            r.start_time is None,
            r.end_time is None,
            r.contains is None,
    {
        LogFilter { level: None, service: None, start_time: None, end_time: None, contains: None }
    }
}

/// What it is for an entry to pass the filter: the level filter compares
/// case-insensitively against the entry's level name, the service filter
/// exactly, and the containment filter looks for the lower-cased needle
/// inside the lower-cased message.
pub open spec fn spec_matches_filter(e: LogEntry, f: LogFilter) -> bool {
    &&& match f.level {
        Some(l) => spec_eq_upper(l@, e.level.spec_name()),
        None => true,
    }
    &&& match f.service {
        Some(s) => view_opt(e.service) == Some(s@),
        None => true,
    }
    &&& match f.contains {
        Some(c) => spec_contains_seq(lower_of(e.message@), lower_of(c@)),
        None => true,
    }
}

/// Tests one entry against the filter.
pub fn matches_filter(e: &LogEntry, f: &LogFilter) -> (r: bool)
    ensures
        r == spec_matches_filter(*e, *f),
{
    let level_ok = match &f.level {
        Some(l) => eq_ignore_case(l.as_str(), e.level.name()),
        None => true,
    };
    let service_ok = match &f.service {
        Some(s) => {
            match &e.service {
                Some(es) => str_eq(es.as_str(), s.as_str()),
                None => false,
            }
        },
        None => true,
    };
    let contains_ok = match &f.contains {
        Some(c) => {
            let low_msg = lowercase(e.message.as_str());
            let low_needle = lowercase(c.as_str());
            contains_str(low_msg.as_str(), low_needle.as_str())
        },
        None => true,
    };
    level_ok && service_ok && contains_ok
}

/// Keeps exactly the entries that pass the filter, in order.
pub fn filter_logs(entries: Vec<LogEntry>, f: &LogFilter) -> (r: Vec<LogEntry>)
    ensures
        r@ == entries@.filter(|e: LogEntry| spec_matches_filter(e, *f)),
{
    let ghost orig = entries@;
    let ghost pred = |e: LogEntry| spec_matches_filter(e, *f);
    let mut v = entries;
    let mut out: Vec<LogEntry> = Vec::new();
    let mut i: usize = 0;
    let n = v.len();
    assert(orig.subrange(0, 0) =~= Seq::<LogEntry>::empty());
    assert(Seq::<LogEntry>::empty().filter(pred) =~= Seq::<LogEntry>::empty()) by {
        reveal(Seq::filter);
    }
    while i < n
        invariant
            0 <= i <= n,
            n == orig.len(),
            v@.len() == n - i,
            forall|j: int| 0 <= j < v@.len() ==> v@[j] == orig[i + j],
            pred == (|e: LogEntry| spec_matches_filter(e, *f)),
            out@ == orig.subrange(0, i as int).filter(pred),
        decreases n - i,
    {
        let e = v.remove(0);
        assert(e == orig[i as int]);
        proof {
            let pfx = orig.subrange(0, i as int);
            let nxt = orig.subrange(0, i + 1);
            assert(nxt.drop_last() =~= pfx);
            assert(nxt.last() == orig[i as int]);
            reveal(Seq::filter);
        }
        if matches_filter(&e, f) {
            out.push(e);
            assert(out@ =~= orig.subrange(0, i + 1).filter(pred));
        } else {
            assert(out@ =~= orig.subrange(0, i + 1).filter(pred));
        }
        i = i + 1;
    }
    assert(orig.subrange(0, orig.len() as int) =~= orig);
    out
}

/// The aggregation of a result set: the total, the level histogram, the
/// per-service counts, and the timestamp range.
pub struct LogAggregation {
    pub total_count: usize,
    pub level_counts: LevelCounts,
    pub service_counts: Vec<(String, usize)>,
    pub time_range: Option<TimeRange>,
}

/// Counts the entries carrying the given service name.
pub fn count_service(entries: &Vec<LogEntry>, name: &str) -> (r: usize)
    ensures
        r == spec_count_service(entries@, name@),
{
    let ghost pred = |e: LogEntry| view_opt(e.service) == Some(name@);
    let mut count: usize = 0;
    let mut i: usize = 0;
    assert(entries@.subrange(0, 0) =~= Seq::<LogEntry>::empty());
    assert(Seq::<LogEntry>::empty().filter(pred) =~= Seq::<LogEntry>::empty()) by {
        reveal(Seq::filter);
    }
    while i < entries.len()
        invariant
            0 <= i <= entries@.len(),
            pred == (|e: LogEntry| view_opt(e.service) == Some(name@)),
            count == entries@.subrange(0, i as int).filter(pred).len(),
            count <= i,
        decreases entries@.len() - i,
    {
        proof {
            let pfx = entries@.subrange(0, i as int);
            let nxt = entries@.subrange(0, i + 1);
            assert(nxt.drop_last() =~= pfx);
            assert(nxt.last() == entries@[i as int]);
            reveal(Seq::filter);
        }
        let hit = match &entries[i].service {
            Some(s) => str_eq(s.as_str(), name),
            None => false,
        };
        if hit {
            count = count + 1;
        }
        i = i + 1;
    }
    assert(entries@.subrange(0, entries@.len() as int) =~= entries@);
    count
}

/// Every service seen in `entries` stands among the keys of `counts`.
pub open spec fn spec_counts_cover(counts: Seq<(String, usize)>, entries: Seq<LogEntry>) -> bool {
    forall|a: int|
        0 <= a < entries.len() ==> match view_opt(#[trigger] entries[a].service) {
            Some(s) => exists|j: int| 0 <= j < counts.len() && (#[trigger] counts[j]).0@ == s,
            None => true,
        }
}

/// Aggregates a result set: exact total, exact per-level counts, one count
/// per distinct service, and the timestamp range.
pub fn aggregate_logs(entries: &Vec<LogEntry>) -> (r: LogAggregation)
    ensures
        r.total_count == entries@.len(),
        r.level_counts.trace == crate::tools::spec_count_level(
            entries@,
            crate::level::Level::Trace,
        ),
        r.level_counts.debug == crate::tools::spec_count_level(
            entries@,
            crate::level::Level::Debug,
        ),
        r.level_counts.info == crate::tools::spec_count_level(entries@, crate::level::Level::Info),
        r.level_counts.warn == crate::tools::spec_count_level(entries@, crate::level::Level::Warn),
        r.level_counts.error == crate::tools::spec_count_level(
            entries@,
            crate::level::Level::Error,
        ),
        r.level_counts.fatal == crate::tools::spec_count_level(
            entries@,
            crate::level::Level::Fatal,
        ),
        forall|i: int|
            0 <= i < r.service_counts@.len() ==> (#[trigger] r.service_counts@[i]).1 as int
                == spec_count_service(entries@, r.service_counts@[i].0@),
        forall|a: int, b: int|
            0 <= a < b < r.service_counts@.len() ==> (#[trigger] r.service_counts@[a]).0@
                != (#[trigger] r.service_counts@[b]).0@,
        spec_counts_cover(r.service_counts@, entries@),
        r.time_range is Some <==> entries@.len() > 0,
{
    let level_counts = count_levels(entries);
    let names = distinct_services(entries);
    let mut service_counts: Vec<(String, usize)> = Vec::new();
    let mut i: usize = 0;
    while i < names.len()
        invariant
            0 <= i <= names@.len(),
            service_counts@.len() == i,
            forall|j: int|
                0 <= j < i ==> (#[trigger] service_counts@[j]).1 as int == spec_count_service(
                    entries@,
                    service_counts@[j].0@,
                ),
            forall|j: int|
                0 <= j < i ==> (#[trigger] service_counts@[j]).0@ == names@[j]@,
        decreases names@.len() - i,
    {
        let c = count_service(entries, names[i].as_str());
        service_counts.push((names[i].clone(), c));
        i = i + 1;
    }
    proof {
        assert forall|a: int|
            0 <= a < entries@.len() implies match view_opt(#[trigger] entries@[a].service) {
            Some(s) => exists|j: int|
                0 <= j < service_counts@.len() && (#[trigger] service_counts@[j]).0@ == s,
            None => true,
        } by {
            match view_opt(entries@[a].service) {
                Some(s) => {
                    let j = choose|j: int| 0 <= j < names@.len() && (#[trigger] names@[j])@ == s;
                    assert(service_counts@[j].0@ == s);
                },
                None => {},
            }
        }
        assert(spec_counts_cover(service_counts@, entries@));
    }
    let time_range = time_range_of(entries);
    LogAggregation { total_count: entries.len(), level_counts, service_counts, time_range }
}

/// The CSV sanitization of a message: commas become semicolons and newlines
/// become spaces.
pub open spec fn spec_csv_sanitize(s: Seq<char>) -> Seq<char> {
    s.map_values(
        |c: char|
            if c == ',' {
                ';'
            } else if c == '\n' {
                ' '
            } else {
                c
            },
    )
}

/// One CSV export line: timestamp, level, sanitized message, service and
/// trace id (empty when absent), comma-separated.
pub open spec fn spec_csv_line(e: LogEntry) -> Seq<char> {
    e.timestamp@ + ","@ + e.level.spec_name() + ","@ + spec_csv_sanitize(e.message@) + ","@ + (
    match view_opt(e.service) {
        Some(s) => s,
        None => Seq::<char>::empty(),
    }) + ","@ + (match view_opt(e.trace_id) {
        Some(t) => t,
        None => Seq::<char>::empty(),
    })
}

/// Frames one entry as its CSV export line.
pub fn csv_line(e: &LogEntry) -> (r: String)
    ensures
        r@ == spec_csv_line(*e),
{
    let mut out = String::new();
    out.append(e.timestamp.as_str());
    out.append(",");
    out.append(e.level.name());
    out.append(",");
    let cs = chars_of(e.message.as_str());
    let ghost base = out@;
    let mut k: usize = 0;
    while k < cs.len()
        invariant
            0 <= k <= cs@.len(),
            cs@ == e.message@,
            out@ =~= base + spec_csv_sanitize(e.message@).subrange(0, k as int),
        decreases cs@.len() - k,
    {
        let c = cs[k];
        if c == ',' {
            push_char(&mut out, ';');
        } else if c == '\n' {
            push_char(&mut out, ' ');
        } else {
            push_char(&mut out, c);
        }
        assert(out@ =~= base + spec_csv_sanitize(e.message@).subrange(0, k + 1));
        k = k + 1;
    }
    assert(out@ =~= base + spec_csv_sanitize(e.message@));
    out.append(",");
    match &e.service {
        Some(s) => out.append(s.as_str()),
        None => {},
    }
    out.append(",");
    match &e.trace_id {
        Some(t) => out.append(t.as_str()),
        None => {},
    }
    assert(out@ =~= spec_csv_line(*e));
    out
}

} // verus!
