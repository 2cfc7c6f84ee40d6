//! The tool executor's decision logic: parsing AI-issued tool arguments,
//! turning them into bounded backend queries, and reducing query results to
//! summaries small enough to hand back to the model.

use vstd::prelude::*;
use vstd::string::StringExecFns;
use crate::backends::LogQuery;
use crate::backends::LogEntry;
use crate::backends::view_opt;
use crate::backends::spec_clamp_max_results;
use crate::backends::clamp_max_results;
use crate::level::Level;
use crate::text::str_eq;
use crate::text::lex_le;
use crate::text::lemma_lex_total;
use crate::text::lemma_lex_trans;
use crate::text::str_le;
use crate::text::spec_truncate;
use crate::text::truncate_message;
use crate::json::parse_json;
use crate::time::spec_parse_time;
use crate::time::parse_time;
use crate::time::rfc3339_of;
use crate::time::format_rfc3339_secs;

verus! {

/// The arguments of a `query_logs` tool call.
#[derive(Clone, Debug)]
pub struct QueryLogsArgs {
    pub query: String,
    pub max_results: usize,
    pub level: Option<String>,
    pub service: Option<String>,
    pub start_time: Option<String>,
    pub end_time: Option<String>,
}

/// The result count used when a `query_logs` call names none.
pub fn default_max_results() -> (r: usize)
    ensures
        r == 50,
{
    50
}

/// The arguments of a `get_log_stats` tool call.
#[derive(Clone, Debug)]
pub struct LogStatsArgs {
    pub start_time: Option<String>,
    pub end_time: Option<String>,
}

/// One summarized entry, bounded for model consumption.
#[derive(Clone, Debug)]
pub struct LogEntrySummary {
    pub timestamp: String,
    pub level: Level,
    pub message: String,
    pub service: Option<String>,
    pub trace_id: Option<String>,
}

/// The per-level histogram of a result set.
#[derive(Clone, Copy, Debug, PartialEq, Eq, Structural)]
pub struct LevelCounts {
    pub trace: usize,
    pub debug: usize,
    pub info: usize,
    pub warn: usize,
    pub error: usize,
    pub fatal: usize,
}

/// The timestamp range of a result set.
#[derive(Clone, Debug)]
pub struct TimeRange {
    pub start: String,
    pub end: String,
}

/// The bounded reduction of a query's result set.
#[derive(Clone, Debug)]
pub struct LogQueryResult {
    pub total_count: usize,
    pub logs: Vec<LogEntrySummary>,
    pub level_distribution: LevelCounts,
    pub services: Vec<String>,
    pub time_range: Option<TimeRange>,
}

/// Why a tool call could not be executed: a name outside the tool table, or
/// arguments that do not parse.
#[derive(Clone, Debug)]
pub enum ToolError {
    UnknownTool(String),
    ArgumentError(String),
}

/// How many entries carry the given level.
pub open spec fn spec_count_level(entries: Seq<LogEntry>, l: Level) -> int {
    entries.filter(|e: LogEntry| e.level == l).len() as int
}

/// How many entries carry the given service name.
pub open spec fn spec_count_service(entries: Seq<LogEntry>, name: Seq<char>) -> int {
    entries.filter(|e: LogEntry| view_opt(e.service) == Some(name)).len() as int
}

/// True when some entry carries the given service name.
pub open spec fn spec_has_service(entries: Seq<LogEntry>, name: Seq<char>) -> bool {
    exists|i: int|
        0 <= i < entries.len() && view_opt(#[trigger] entries[i].service) == Some(name)
}

/// The level histogram of `entries`, each field counting exactly the entries
/// of its level.
pub fn count_levels(entries: &Vec<LogEntry>) -> (r: LevelCounts)
    ensures
        r.trace == spec_count_level(entries@, Level::Trace),
        r.debug == spec_count_level(entries@, Level::Debug),
        r.info == spec_count_level(entries@, Level::Info),
        r.warn == spec_count_level(entries@, Level::Warn),
        r.error == spec_count_level(entries@, Level::Error),
        r.fatal == spec_count_level(entries@, Level::Fatal),
{
    let mut r = LevelCounts { trace: 0, debug: 0, info: 0, warn: 0, error: 0, fatal: 0 };
    let mut i: usize = 0;
    while i < entries.len()
        invariant
            0 <= i <= entries@.len(),
            r.trace == spec_count_level(entries@.subrange(0, i as int), Level::Trace),
            r.debug == spec_count_level(entries@.subrange(0, i as int), Level::Debug),
            r.info == spec_count_level(entries@.subrange(0, i as int), Level::Info),
            r.warn == spec_count_level(entries@.subrange(0, i as int), Level::Warn),
            r.error == spec_count_level(entries@.subrange(0, i as int), Level::Error),
            r.fatal == spec_count_level(entries@.subrange(0, i as int), Level::Fatal),
            r.trace <= i && r.debug <= i && r.info <= i && r.warn <= i && r.error <= i
                && r.fatal <= i,
        decreases entries@.len() - i,
    {
        proof {
            let pfx = entries@.subrange(0, i as int);
            let nxt = entries@.subrange(0, i + 1);
            assert(nxt.drop_last() =~= pfx);
            reveal(Seq::filter);
        }
        match entries[i].level {
            Level::Trace => {
                r.trace = r.trace + 1;
            },
            Level::Debug => {
                r.debug = r.debug + 1;
            },
            Level::Info => {
                r.info = r.info + 1;
            },
            Level::Warn => {
                r.warn = r.warn + 1;
            },
            Level::Error => {
                r.error = r.error + 1;
            },
            Level::Fatal => {
                r.fatal = r.fatal + 1;
            },
        }
        i = i + 1;
    }
    assert(entries@.subrange(0, entries@.len() as int) =~= entries@);
    r
}

/// True when some string in `seen` reads `name`.
pub open spec fn spec_vec_has_str(seen: Seq<String>, name: Seq<char>) -> bool {
    exists|j: int| 0 <= j < seen.len() && (#[trigger] seen[j])@ == name
}

/// True when `name` already occurs in `seen`.
pub fn vec_contains_str(seen: &Vec<String>, name: &str) -> (r: bool)
    ensures
        r == spec_vec_has_str(seen@, name@),
{
    let mut i: usize = 0;
    while i < seen.len()
        invariant
            0 <= i <= seen@.len(),
            forall|j: int| 0 <= j < i ==> (#[trigger] seen@[j])@ != name@,
        decreases seen@.len() - i,
    {
        if str_eq(seen[i].as_str(), name) {
            return true;
        }
        i = i + 1;
    }
    false
}

/// The distinct service names occurring in `entries`, in first-seen order,
/// without duplicates: each name listed occurs in some entry (the empty
/// string included, when an entry carries it), and every service seen is
/// listed.
pub fn distinct_services(entries: &Vec<LogEntry>) -> (r: Vec<String>)
    ensures
        forall|a: int, b: int|
            0 <= a < b < r@.len() ==> (#[trigger] r@[a])@ != (#[trigger] r@[b])@,
        forall|a: int| 0 <= a < r@.len() ==> spec_has_service(entries@, (#[trigger] r@[a])@),
        forall|a: int|
            0 <= a < entries@.len() ==> match view_opt(#[trigger] entries@[a].service) {
                Some(s) => spec_vec_has_str(r@, s),
                None => true,
            },
{
    let mut r: Vec<String> = Vec::new();
    let mut i: usize = 0;
    while i < entries.len()
        invariant
            0 <= i <= entries@.len(),
            forall|a: int, b: int|
                0 <= a < b < r@.len() ==> (#[trigger] r@[a])@ != (#[trigger] r@[b])@,
            forall|a: int| 0 <= a < r@.len() ==> spec_has_service(entries@, (#[trigger] r@[a])@),
            forall|a: int|
                0 <= a < i ==> match view_opt(#[trigger] entries@[a].service) {
                    Some(s) => spec_vec_has_str(r@, s),
                    None => true,
                },
        decreases entries@.len() - i,
    {
        let ghost old_r = r@;
        match &entries[i].service {
            Some(s) => {
                if !vec_contains_str(&r, s.as_str()) {
                    r.push(s.clone());
                    proof {
                        assert(r@[r@.len() - 1]@ == s@);
                        assert(view_opt(entries@[i as int].service) == Some(s@));
                        assert(spec_has_service(entries@, s@));
                        assert forall|a: int|
                            0 <= a < i implies match view_opt(#[trigger] entries@[a].service) {
                            Some(t) => spec_vec_has_str(r@, t),
                            None => true,
                        } by {
                            match view_opt(entries@[a].service) {
                                Some(t) => {
                                    if spec_vec_has_str(old_r, t) {
                                        let j = choose|j: int|
                                            0 <= j < old_r.len() && (#[trigger] old_r[j])@ == t;
                                        assert(r@[j]@ == t);
                                    }
                                },
                                None => {},
                            }
                        }
                    }
                }
            },
            None => {},
        }
        i = i + 1;
    }
    r
}

/// The distinct non-empty service names occurring in `entries`: the
/// best-effort discovery list `list_services` reduces to. Each name listed
/// is non-empty and occurs in some entry, and every non-empty service seen
/// is listed.
pub fn distinct_nonempty_services(entries: &Vec<LogEntry>) -> (r: Vec<String>)
    ensures
        forall|a: int, b: int|
            0 <= a < b < r@.len() ==> (#[trigger] r@[a])@ != (#[trigger] r@[b])@,
        forall|a: int|
            0 <= a < r@.len() ==> (#[trigger] r@[a])@.len() > 0 && spec_has_service(
                entries@,
                r@[a]@,
            ),
        forall|a: int|
            0 <= a < entries@.len() ==> match view_opt(#[trigger] entries@[a].service) {
                Some(s) => s.len() > 0 ==> spec_vec_has_str(r@, s),
                None => true,
            },
{
    let all = distinct_services(entries);
    let mut r: Vec<String> = Vec::new();
    let mut i: usize = 0;
    while i < all.len()
        invariant
            0 <= i <= all@.len(),
            forall|a: int, b: int|
                0 <= a < b < all@.len() ==> (#[trigger] all@[a])@ != (#[trigger] all@[b])@,
            forall|a: int| 0 <= a < all@.len() ==> spec_has_service(entries@, (#[trigger] all@[a])@),
            forall|a: int, b: int|
                0 <= a < b < r@.len() ==> (#[trigger] r@[a])@ != (#[trigger] r@[b])@,
            forall|a: int|
                0 <= a < r@.len() ==> (#[trigger] r@[a])@.len() > 0 && spec_has_service(
                    entries@,
                    r@[a]@,
                ),
            forall|a: int|
                0 <= a < i && (#[trigger] all@[a])@.len() > 0 ==> spec_vec_has_str(r@, all@[a]@),
            forall|a: int|
                0 <= a < r@.len() ==> exists|b: int|
                    0 <= b < i && (#[trigger] r@[a])@ == all@[b]@,
        decreases all@.len() - i,
    {
        let ghost old_r = r@;
        if !all[i].as_str().is_empty() {
            r.push(all[i].clone());
            proof {
                assert(r@[r@.len() - 1]@ == all@[i as int]@);
                assert forall|a: int|
                    0 <= a < i && (#[trigger] all@[a])@.len() > 0 implies spec_vec_has_str(
                    r@,
                    all@[a]@,
                ) by {
                    let j = choose|j: int|
                        0 <= j < old_r.len() && (#[trigger] old_r[j])@ == all@[a]@;
                    assert(r@[j]@ == all@[a]@);
                }
            }
        }
        i = i + 1;
    }
    proof {
        assert forall|a: int|
            0 <= a < entries@.len() implies match view_opt(#[trigger] entries@[a].service) {
            Some(s) => s.len() > 0 ==> spec_vec_has_str(r@, s),
            None => true,
        } by {
            match view_opt(entries@[a].service) {
                Some(s) => {
                    if s.len() > 0 {
                        let b = choose|b: int|
                            0 <= b < all@.len() && (#[trigger] all@[b])@ == s;
                        assert(spec_vec_has_str(r@, all@[b]@));
                    }
                },
                None => {},
            }
        }
    }
    r
}

/// True when `t` is a lexicographically minimal timestamp among `entries`.
pub open spec fn spec_is_min_ts(t: Seq<char>, entries: Seq<LogEntry>) -> bool {
    &&& exists|i: int| 0 <= i < entries.len() && (#[trigger] entries[i].timestamp)@ == t
    &&& forall|i: int| 0 <= i < entries.len() ==> lex_le(t, (#[trigger] entries[i].timestamp)@)
}

/// True when `t` is a lexicographically maximal timestamp among `entries`.
pub open spec fn spec_is_max_ts(t: Seq<char>, entries: Seq<LogEntry>) -> bool {
    &&& exists|i: int| 0 <= i < entries.len() && (#[trigger] entries[i].timestamp)@ == t
    &&& forall|i: int| 0 <= i < entries.len() ==> lex_le((#[trigger] entries[i].timestamp)@, t)
}

/// The timestamp range of `entries`: `None` when empty, else the
/// lexicographically smallest and largest timestamps.
pub fn time_range_of(entries: &Vec<LogEntry>) -> (r: Option<TimeRange>)
    ensures
        match r {
            None => entries@.len() == 0,
            Some(tr) => entries@.len() > 0 && spec_is_min_ts(tr.start@, entries@)
                && spec_is_max_ts(tr.end@, entries@),
        },
{
    if entries.len() == 0 {
        return None;
    }
    let mut start: String = entries[0].timestamp.clone();
    let mut end: String = entries[0].timestamp.clone();
    let ghost whole = entries@;
    let mut i: usize = 1;
    assert(lex_le(start@, start@)) by {
        lemma_lex_total(start@, start@);
    }
    while i < entries.len()
        invariant
            1 <= i <= whole.len(),
            whole == entries@,
            exists|k: int| 0 <= k < i && (#[trigger] whole[k].timestamp)@ == start@,
            exists|k: int| 0 <= k < i && (#[trigger] whole[k].timestamp)@ == end@,
            forall|k: int| 0 <= k < i ==> lex_le(start@, (#[trigger] whole[k].timestamp)@),
            forall|k: int| 0 <= k < i ==> lex_le((#[trigger] whole[k].timestamp)@, end@),
        decreases whole.len() - i,
    {
        let t = &entries[i].timestamp;
        if str_le(t.as_str(), start.as_str()) {
            proof {
                assert forall|k: int| 0 <= k < i + 1 implies lex_le(
                    t@,
                    (#[trigger] whole[k].timestamp)@,
                ) by {
                    if k < i {
                        lemma_lex_trans(t@, start@, whole[k].timestamp@);
                    } else {
                        lemma_lex_total(t@, t@);
                    }
                }
            }
            start = t.clone();
        } else {
            proof {
                lemma_lex_total(t@, start@);
            }
        }
        let t2 = &entries[i].timestamp;
        if str_le(end.as_str(), t2.as_str()) {
            proof {
                assert forall|k: int| 0 <= k < i + 1 implies lex_le(
                    (#[trigger] whole[k].timestamp)@,
                    t2@,
                ) by {
                    if k < i {
                        lemma_lex_trans(whole[k].timestamp@, end@, t2@);
                    } else {
                        lemma_lex_total(t2@, t2@);
                    }
                }
            }
            end = t2.clone();
        } else {
            proof {
                lemma_lex_total(end@, t2@);
            }
        }
        i = i + 1;
    }
    Some(TimeRange { start, end })
}

/// Reduces a result set for model consumption: the exact total, a per-level
/// histogram, the distinct services, the timestamp range, and at most
/// `max_results` summaries whose messages are truncated to 500 characters.
pub fn summarize_query_result(entries: &Vec<LogEntry>, max_results: usize) -> (r: LogQueryResult)
    ensures
        r.total_count == entries@.len(),
        r.logs@.len() <= max_results,
        r.logs@.len() <= entries@.len(),
        entries@.len() <= max_results ==> r.logs@.len() == entries@.len(),
        forall|i: int|
            0 <= i < r.logs@.len() ==> {
                &&& (#[trigger] r.logs@[i]).timestamp@ == entries@[i].timestamp@
                &&& r.logs@[i].level == entries@[i].level
                &&& r.logs@[i].message@ == spec_truncate(entries@[i].message@, 500)
                &&& view_opt(r.logs@[i].service) == view_opt(entries@[i].service)
                &&& view_opt(r.logs@[i].trace_id) == view_opt(entries@[i].trace_id)
            },
        r.level_distribution.trace == spec_count_level(entries@, Level::Trace),
        r.level_distribution.debug == spec_count_level(entries@, Level::Debug),
        r.level_distribution.info == spec_count_level(entries@, Level::Info),
        r.level_distribution.warn == spec_count_level(entries@, Level::Warn),
        r.level_distribution.error == spec_count_level(entries@, Level::Error),
        r.level_distribution.fatal == spec_count_level(entries@, Level::Fatal),
        r.time_range is Some <==> entries@.len() > 0,
        r.time_range matches Some(tr) ==> spec_is_min_ts(tr.start@, entries@) && spec_is_max_ts(
            tr.end@,
            entries@,
        ),
        forall|a: int, b: int|
            0 <= a < b < r.services@.len() ==> (#[trigger] r.services@[a])@
                != (#[trigger] r.services@[b])@,
        forall|a: int|
            0 <= a < r.services@.len() ==> spec_has_service(entries@, (#[trigger] r.services@[a])@),
        forall|a: int|
            0 <= a < entries@.len() ==> match view_opt(#[trigger] entries@[a].service) {
                Some(s) => spec_vec_has_str(r.services@, s),
                None => true,
            },
{
    let level_distribution = count_levels(entries);
    let services = distinct_services(entries);
    let time_range = time_range_of(entries);
    let mut logs: Vec<LogEntrySummary> = Vec::new();
    let mut i: usize = 0;
    while i < entries.len()
        invariant
            0 <= i <= entries@.len(),
            logs@.len() <= max_results,
            logs@.len() <= i,
            i <= max_results ==> logs@.len() == i,
            max_results <= i ==> logs@.len() == max_results,
            forall|j: int|
                0 <= j < logs@.len() ==> {
                    &&& (#[trigger] logs@[j]).timestamp@ == entries@[j].timestamp@
                    &&& logs@[j].level == entries@[j].level
                    &&& logs@[j].message@ == spec_truncate(entries@[j].message@, 500)
                    &&& view_opt(logs@[j].service) == view_opt(entries@[j].service)
                    &&& view_opt(logs@[j].trace_id) == view_opt(entries@[j].trace_id)
                },
        decreases entries@.len() - i,
    {
        if logs.len() < max_results {
            let e = &entries[i];
            let service = match &e.service {
                Some(s) => Some(s.clone()),
                None => None,
            };
            let trace_id = match &e.trace_id {
                Some(t) => Some(t.clone()),
                None => None,
            };
            let summary = LogEntrySummary {
                timestamp: e.timestamp.clone(),
                level: e.level,
                message: truncate_message(e.message.as_str(), 500),
                service,
                trace_id,
            };
            logs.push(summary);
        }
        i = i + 1;
    }
    LogQueryResult {
        total_count: entries.len(),
        logs,
        level_distribution,
        services,
        time_range,
    }
}

/// What the resolved form of an optional time argument is: absent stays
/// absent, present text resolves (and a failed resolution is dropped rather
/// than defaulted).
pub open spec fn spec_resolve_opt_time(o: Option<String>, now: int) -> Option<Seq<char>> {
    match o {
        Some(s) => spec_parse_time(s@, now),
        None => None,
    }
}

/// The same resolution over an optional text view.
pub open spec fn spec_resolve_opt_time_v(o: Option<Seq<char>>, now: int) -> Option<Seq<char>> {
    match o {
        Some(s) => spec_parse_time(s, now),
        None => None,
    }
}

fn resolve_opt_time(o: &Option<String>, now: i64) -> (r: Option<String>)
    ensures
        view_opt(r) == spec_resolve_opt_time(*o, now as int),
{
    match o {
        Some(s) => parse_time(s.as_str(), now),
        None => None,
    }
}

/// Builds the backend query for a `query_logs` call: the result bound is
/// clamped into 1..=200, both time arguments are resolved against `now`, and
/// the remaining filters pass through.
pub fn build_log_query(args: &QueryLogsArgs, now: i64, index_pattern: Option<String>) -> (q:
    LogQuery)
    ensures
        q.query@ == args.query@,
        q.max_results as int == spec_clamp_max_results(args.max_results as int),
        view_opt(q.start_time) == spec_resolve_opt_time(args.start_time, now as int),
        view_opt(q.end_time) == spec_resolve_opt_time(args.end_time, now as int),
        view_opt(q.level) == view_opt(args.level),
        view_opt(q.service) == view_opt(args.service),
        view_opt(q.index_pattern) == view_opt(index_pattern),
{
    LogQuery {
        query: args.query.clone(),
        max_results: clamp_max_results(args.max_results),
        start_time: resolve_opt_time(&args.start_time, now),
        end_time: resolve_opt_time(&args.end_time, now),
        level: args.level.clone(),
        service: args.service.clone(),
        index_pattern,
    }
}

/// The broad one-hour discovery query used by `list_services`.
pub fn build_list_services_query(now: i64, index_pattern: Option<String>) -> (q: LogQuery)
    requires
        i64::MIN + 3600 <= now,
    ensures
        q.query@ == "*"@,
        q.max_results == 100,
        view_opt(q.start_time) == Some(rfc3339_of(now - 3600)),
        q.end_time is None,
        q.level is None,
        q.service is None,
        view_opt(q.index_pattern) == view_opt(index_pattern),
{
    LogQuery {
        query: "*".to_owned(),
        max_results: 100,
        start_time: Some(format_rfc3339_secs(now - 3600)),
        end_time: None,
        level: None,
        service: None,
        index_pattern,
    }
}

/// The broad query used by `get_log_stats`: the full window defaults to the
/// last hour when no start is given (or when it fails to resolve).
pub fn build_stats_query(args: &LogStatsArgs, now: i64, index_pattern: Option<String>) -> (q:
    LogQuery)
    requires
        i64::MIN + 3600 <= now,
    ensures
        q.query@ == "*"@,
        q.max_results == 200,
        view_opt(q.start_time) == match spec_resolve_opt_time(args.start_time, now as int) {
            Some(t) => Some(t),
            None => Some(rfc3339_of(now - 3600)),
        },
        view_opt(q.end_time) == spec_resolve_opt_time(args.end_time, now as int),
        q.level is None,
        q.service is None,
        view_opt(q.index_pattern) == view_opt(index_pattern),
{
    let start = match resolve_opt_time(&args.start_time, now) {
        Some(t) => Some(t),
        None => Some(format_rfc3339_secs(now - 3600)),
    };
    LogQuery {
        query: "*".to_owned(),
        max_results: 200,
        start_time: start,
        end_time: resolve_opt_time(&args.end_time, now),
        level: None,
        service: None,
        index_pattern,
    }
}

/// What an optional string field of the argument text reads as: `None`
/// when absent, its content when present as a string. Meaningful only on
/// well-formed arguments, where a present field is a string.
pub open spec fn spec_opt_str_field(a: Seq<char>, key: Seq<char>) -> Option<Seq<char>> {
    crate::json::str_field_of(a, key)
}

/// The result bound a well-formed `query_logs` argument text carries: its
/// `max_results` capped at 200, or the default of 50 when absent.
pub open spec fn spec_query_max(a: Seq<char>) -> int {
    match crate::json::u64_field_of(a, "max_results"@) {
        Some(n) => if n > 200 {
            200int
        } else {
            n as int
        },
        None => 50int,
    }
}

/// Well-formedness of `query_logs` arguments: `query` is present as a
/// string, and each optional field, where present, has its expected type
/// (`max_results` a non-negative integer, the rest strings).
pub open spec fn spec_query_args_ok(a: Seq<char>) -> bool {
    &&& crate::json::str_field_of(a, "query"@) is Some
    &&& (crate::json::has_field_of(a, "max_results"@) ==> crate::json::u64_field_of(
        a,
        "max_results"@,
    ) is Some)
    &&& (crate::json::has_field_of(a, "level"@) ==> crate::json::str_field_of(a, "level"@) is Some)
    &&& (crate::json::has_field_of(a, "service"@) ==> crate::json::str_field_of(a, "service"@)
        is Some)
    &&& (crate::json::has_field_of(a, "start_time"@) ==> crate::json::str_field_of(
        a,
        "start_time"@,
    ) is Some)
    &&& (crate::json::has_field_of(a, "end_time"@) ==> crate::json::str_field_of(a, "end_time"@)
        is Some)
}

fn opt_str_field(arguments: &str, key: &str) -> (r: Result<Option<String>, ToolError>)
    ensures
        r is Ok <==> (crate::json::has_field_of(arguments@, key@) ==> crate::json::str_field_of(
            arguments@,
            key@,
        ) is Some),
        r matches Ok(o) ==> view_opt(o) == spec_opt_str_field(arguments@, key@),
        r matches Err(e) ==> e is ArgumentError,
{
    if crate::json::json_text_has_field(arguments, key) {
        match crate::json::json_text_str_field(arguments, key) {
            Some(v) => Ok(Some(v)),
            None => Err(ToolError::ArgumentError("failed to parse tool arguments".to_owned())),
        }
    } else {
        match crate::json::json_text_str_field(arguments, key) {
            Some(v) => Ok(Some(v)),
            None => Ok(None),
        }
    }
}

/// Parses the JSON arguments of a `query_logs` call: `query` is required as
/// a string, `max_results` defaults to 50 and is capped at 200, the rest
/// are optional strings; a present field of the wrong type fails the call.
pub fn parse_query_logs_args(arguments: &str) -> (r: Result<QueryLogsArgs, ToolError>)
    ensures
        r is Ok <==> spec_query_args_ok(arguments@),
        r matches Err(e) ==> e is ArgumentError,
        r matches Ok(args) ==> {
            &&& Some(args.query@) == crate::json::str_field_of(arguments@, "query"@)
            &&& args.max_results as int == spec_query_max(arguments@)
            &&& args.max_results <= 200
            &&& view_opt(args.level) == spec_opt_str_field(arguments@, "level"@)
            &&& view_opt(args.service) == spec_opt_str_field(arguments@, "service"@)
            &&& view_opt(args.start_time) == spec_opt_str_field(arguments@, "start_time"@)
            &&& view_opt(args.end_time) == spec_opt_str_field(arguments@, "end_time"@)
        },
{
    let query = match crate::json::json_text_str_field(arguments, "query") {
        Some(q) => q,
        None => {
            return Err(
                ToolError::ArgumentError("failed to parse query_logs arguments".to_owned()),
            );
        },
    };
    let max_results: usize = if crate::json::json_text_has_field(arguments, "max_results") {
        match crate::json::json_text_u64_field(arguments, "max_results") {
            Some(n) => if n > 200 {
                200
            } else {
                n as usize
            },
            None => {
                return Err(
                    ToolError::ArgumentError("failed to parse query_logs arguments".to_owned()),
                );
            },
        }
    } else {
        match crate::json::json_text_u64_field(arguments, "max_results") {
            Some(n) => if n > 200 {
                200
            } else {
                n as usize
            },
            None => default_max_results(),
        }
    };
    let level = match opt_str_field(arguments, "level") {
        Ok(o) => o,
        Err(e) => {
            return Err(e);
        },
    };
    let service = match opt_str_field(arguments, "service") {
        Ok(o) => o,
        Err(e) => {
            return Err(e);
        },
    };
    let start_time = match opt_str_field(arguments, "start_time") {
        Ok(o) => o,
        Err(e) => {
            return Err(e);
        },
    };
    let end_time = match opt_str_field(arguments, "end_time") {
        Ok(o) => o,
        Err(e) => {
            return Err(e);
        },
    };
    Ok(QueryLogsArgs { query, max_results, level, service, start_time, end_time })
}

/// Well-formedness of `get_log_stats` arguments: the text is a JSON
/// document, and each of the two optional fields, where present, is a
/// string.
pub open spec fn spec_stats_args_ok(a: Seq<char>) -> bool {
    &&& crate::json::is_json_doc(a)
    &&& (crate::json::has_field_of(a, "start_time"@) ==> crate::json::str_field_of(
        a,
        "start_time"@,
    ) is Some)
    &&& (crate::json::has_field_of(a, "end_time"@) ==> crate::json::str_field_of(a, "end_time"@)
        is Some)
}

/// Parses the JSON arguments of a `get_log_stats` call; both fields are
/// optional strings, and a present field of the wrong type fails the call.
pub fn parse_stats_args(arguments: &str) -> (r: Result<LogStatsArgs, ToolError>)
    ensures
        r is Ok <==> spec_stats_args_ok(arguments@),
        r matches Err(e) ==> e is ArgumentError,
        r matches Ok(args) ==> {
            &&& view_opt(args.start_time) == spec_opt_str_field(arguments@, "start_time"@)
            &&& view_opt(args.end_time) == spec_opt_str_field(arguments@, "end_time"@)
        },
{
    match parse_json(arguments) {
        Some(_) => {},
        None => {
            return Err(
                ToolError::ArgumentError("failed to parse get_log_stats arguments".to_owned()),
            );
        },
    }
    let start_time = match opt_str_field(arguments, "start_time") {
        Ok(o) => o,
        Err(e) => {
            return Err(e);
        },
    };
    let end_time = match opt_str_field(arguments, "end_time") {
        Ok(o) => o,
        Err(e) => {
            return Err(e);
        },
    };
    Ok(LogStatsArgs { start_time, end_time })
}

/// What a recognized tool call plans to do: one backend query, and a marker
/// of which reduction applies to its result.
pub enum ToolPlan {
    QueryLogs(LogQuery),
    ListServices(LogQuery),
    GetLogStats(LogQuery),
}

/// Recognizes a tool call and plans its backend query against the wall-clock
/// reading `now`: exactly the three known tool names are accepted,
/// unrecognized names fail as `UnknownTool`, and malformed arguments as
/// `ArgumentError`.
pub fn plan_tool_call(
    tool_name: &str,
    arguments: &str,
    now: i64,
    index_pattern: Option<String>,
) -> (r: Result<ToolPlan, ToolError>)
    requires
        i64::MIN + 3600 <= now,
    ensures
        tool_name@ != "query_logs"@ && tool_name@ != "list_services"@ && tool_name@
            != "get_log_stats"@ ==> r matches Err(ToolError::UnknownTool(_)),
        tool_name@ == "query_logs"@ ==> (r matches Ok(ToolPlan::QueryLogs(_)) || r matches Err(
            ToolError::ArgumentError(_),
        )),
        tool_name@ == "list_services"@ ==> (r matches Ok(ToolPlan::ListServices(q)) && q.query@
            == "*"@ && q.max_results == 100),
        tool_name@ == "get_log_stats"@ ==> ((r matches Ok(ToolPlan::GetLogStats(q)) && q.query@
            == "*"@ && q.max_results == 200) || r matches Err(ToolError::ArgumentError(_))),
        r matches Ok(ToolPlan::QueryLogs(q)) ==> 1 <= q.max_results <= 200,
        tool_name@ == "query_logs"@ ==> (r is Ok <==> spec_query_args_ok(arguments@)),
        tool_name@ == "get_log_stats"@ ==> (r is Ok <==> spec_stats_args_ok(arguments@)),
        tool_name@ == "query_logs"@ ==> (r matches Ok(ToolPlan::QueryLogs(q)) ==> {
            &&& Some(q.query@) == crate::json::str_field_of(arguments@, "query"@)
            &&& q.max_results as int == spec_clamp_max_results(spec_query_max(arguments@))
            &&& view_opt(q.level) == spec_opt_str_field(arguments@, "level"@)
            &&& view_opt(q.service) == spec_opt_str_field(arguments@, "service"@)
            &&& view_opt(q.start_time) == spec_resolve_opt_time_v(
                spec_opt_str_field(arguments@, "start_time"@),
                now as int,
            )
            &&& view_opt(q.end_time) == spec_resolve_opt_time_v(
                spec_opt_str_field(arguments@, "end_time"@),
                now as int,
            )
            &&& view_opt(q.index_pattern) == view_opt(index_pattern)
        }),
        tool_name@ == "get_log_stats"@ ==> (r matches Ok(ToolPlan::GetLogStats(q)) ==> {
            &&& view_opt(q.start_time) == (match spec_resolve_opt_time_v(
                spec_opt_str_field(arguments@, "start_time"@),
                now as int,
            ) {
                Some(t) => Some(t),
                None => Some(rfc3339_of(now - 3600)),
            })
            &&& view_opt(q.end_time) == spec_resolve_opt_time_v(
                spec_opt_str_field(arguments@, "end_time"@),
                now as int,
            )
            &&& view_opt(q.index_pattern) == view_opt(index_pattern)
        }),
{
    proof {
        reveal_strlit("query_logs");
        reveal_strlit("list_services");
        reveal_strlit("get_log_stats");
        assert("query_logs"@.len() == 10);
        assert("list_services"@.len() == 13);
        assert("get_log_stats"@.len() == 13);
        assert("list_services"@[0] == 'l');
        assert("get_log_stats"@[0] == 'g');
    }
    if str_eq(tool_name, "query_logs") {
        match parse_query_logs_args(arguments) {
            Ok(args) => Ok(ToolPlan::QueryLogs(build_log_query(&args, now, index_pattern))),
            Err(e) => Err(e),
        }
    } else if str_eq(tool_name, "list_services") {
        Ok(ToolPlan::ListServices(build_list_services_query(now, index_pattern)))
    } else if str_eq(tool_name, "get_log_stats") {
        match parse_stats_args(arguments) {
            Ok(args) => Ok(ToolPlan::GetLogStats(build_stats_query(&args, now, index_pattern))),
            Err(e) => Err(e),
        }
    } else {
        Err(ToolError::UnknownTool(tool_name.to_owned()))
    }
}

} // verus!
