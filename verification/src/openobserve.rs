//! The SQL-style backend adapter: translates the unified query into a
//! generated SQL SELECT with WHERE clauses, and normalizes response records
//! whose severity is numeric.

use vstd::prelude::*;
use vstd::string::StrSliceExecFns;
use vstd::string::StringExecFns;
use crate::backends::LogQuery;
use crate::backends::LogEntry;
use crate::backends::view_opt;
use crate::level::spec_upper_seq;
use crate::level::eq_ignore_case;
use crate::level::spec_severity_level;
use crate::level::severity_level;
use crate::text::str_eq;
use crate::text::spec_join;
use crate::text::join_with;
use crate::text::spec_dec;
use crate::text::usize_to_dec;
use crate::text::spec_truncate;
use crate::text::truncate_message;
use crate::json::json_get;
use crate::json::json_as_str;
use crate::json::json_as_i64;
use crate::json::json_as_array;
use crate::time::format_rfc3339_micros;
use crate::time::rfc3339_to_micros as rfc3339_to_micros_spec;
use crate::time::rfc3339_of_micros;

verus! {

/// The severity WHERE condition for a free-text level filter, compared
/// case-insensitively; an unrecognized level falls back to `severity >= 1`.
pub open spec fn spec_severity_cond(level: Seq<char>) -> Seq<char> {
    let u = spec_upper_seq(level);
    if u == "ERROR"@ || u == "ERR"@ {
        "severity >= 17 AND severity <= 20"@
    } else if u == "WARN"@ || u == "WARNING"@ {
        "severity >= 13 AND severity <= 16"@
    } else if u == "INFO"@ {
        "severity >= 9 AND severity <= 12"@
    } else if u == "DEBUG"@ {
        "severity >= 5 AND severity <= 8"@
    } else if u == "TRACE"@ {
        "severity >= 1 AND severity <= 4"@
    } else if u == "FATAL"@ || u == "CRITICAL"@ {
        "severity >= 21"@
    } else {
        "severity >= 1"@
    }
}

/// Maps a level filter to its severity WHERE condition.
pub fn severity_cond(level: &str) -> (r: &'static str)
    ensures
        r@ == spec_severity_cond(level@),
{
    if eq_ignore_case(level, "ERROR") || eq_ignore_case(level, "ERR") {
        "severity >= 17 AND severity <= 20"
    } else if eq_ignore_case(level, "WARN") || eq_ignore_case(level, "WARNING") {
        "severity >= 13 AND severity <= 16"
    } else if eq_ignore_case(level, "INFO") {
        "severity >= 9 AND severity <= 12"
    } else if eq_ignore_case(level, "DEBUG") {
        "severity >= 5 AND severity <= 8"
    } else if eq_ignore_case(level, "TRACE") {
        "severity >= 1 AND severity <= 4"
    } else if eq_ignore_case(level, "FATAL") || eq_ignore_case(level, "CRITICAL") {
        "severity >= 21"
    } else {
        "severity >= 1"
    }
}

/// The free-text WHERE condition matching the query against body, payload
/// and service name.
pub open spec fn spec_text_cond(q: Seq<char>) -> Seq<char> {
    "(body LIKE '%"@ + q + "%' OR payload LIKE '%"@ + q + "%' OR service_name LIKE '%"@ + q
        + "%')"@
}

/// The service WHERE condition.
pub open spec fn spec_service_cond(s: Seq<char>) -> Seq<char> {
    "service_name LIKE '%"@ + s + "%'"@
}

/// The conjunction of WHERE conditions this query gives rise to, in order:
/// free text (when the query is neither empty nor `*`), then severity (when
/// a level filter is set), then service (when a service filter is set).
pub open spec fn spec_conditions(q: LogQuery) -> Seq<Seq<char>> {
    let base: Seq<Seq<char>> = if q.query@.len() > 0 && q.query@ != "*"@ {
        seq![spec_text_cond(q.query@)]
    } else {
        Seq::empty()
    };
    let with_level: Seq<Seq<char>> = match q.level {
        Some(l) => base.push(spec_severity_cond(l@)),
        None => base,
    };
    match q.service {
        Some(s) => with_level.push(spec_service_cond(s@)),
        None => with_level,
    }
}

/// The WHERE clause: empty when there are no conditions.
pub open spec fn spec_where_clause(q: LogQuery) -> Seq<char> {
    let conds = spec_conditions(q);
    if conds.len() == 0 {
        Seq::empty()
    } else {
        "WHERE "@ + spec_join(conds, " AND "@)
    }
}

/// The stream the query runs against: its own index override, or the
/// configured default.
pub open spec fn spec_stream(default_stream: Seq<char>, q: LogQuery) -> Seq<char> {
    match view_opt(q.index_pattern) {
        Some(s) => s,
        None => default_stream,
    }
}

/// The whole generated SQL SELECT.
pub open spec fn spec_sql(default_stream: Seq<char>, q: LogQuery) -> Seq<char> {
    "SELECT * FROM \""@ + spec_stream(default_stream, q) + "\" "@ + spec_where_clause(q)
        + " ORDER BY _timestamp DESC LIMIT "@ + spec_dec(q.max_results as nat)
}

/// Translates the unified query into its native SQL SELECT against
/// `default_stream` (or the query's own index override).
pub fn build_sql_query(default_stream: &str, q: &LogQuery) -> (r: String)
    ensures
        r@ == spec_sql(default_stream@, *q),
{
    let mut conds: Vec<String> = Vec::new();
    if !q.query.as_str().is_empty() && !str_eq(q.query.as_str(), "*") {
        let mut c = String::new();
        c.append("(body LIKE '%");
        c.append(q.query.as_str());
        c.append("%' OR payload LIKE '%");
        c.append(q.query.as_str());
        c.append("%' OR service_name LIKE '%");
        c.append(q.query.as_str());
        c.append("%')");
        assert(c@ =~= spec_text_cond(q.query@));
        conds.push(c);
    }
    match &q.level {
        Some(l) => {
            conds.push(severity_cond(l.as_str()).to_owned());
        },
        None => {},
    }
    match &q.service {
        Some(s) => {
            let mut c = String::new();
            c.append("service_name LIKE '%");
            c.append(s.as_str());
            c.append("%'");
            assert(c@ =~= spec_service_cond(s@));
            conds.push(c);
        },
        None => {},
    }
    assert(conds@.map_values(|s: String| s@) =~= spec_conditions(*q));

    let mut sql = String::new();
    sql.append("SELECT * FROM \"");
    match &q.index_pattern {
        Some(p) => sql.append(p.as_str()),
        None => sql.append(default_stream),
    }
    sql.append("\" ");
    if conds.len() > 0 {
        sql.append("WHERE ");
        let joined = join_with(&conds, " AND ");
        sql.append(joined.as_str());
    }
    sql.append(" ORDER BY _timestamp DESC LIMIT ");
    let dec = usize_to_dec(q.max_results);
    sql.append(dec.as_str());
    assert(sql@ =~= spec_sql(default_stream@, *q));
    sql
}


/// The absolute microsecond window a query runs over: each bound parses as
/// RFC 3339 when given and parseable, and otherwise defaults to the last
/// hour before `now` (for the start) or `now` itself (for the end).
pub open spec fn spec_window_micros(
    start: Option<Seq<char>>,
    end: Option<Seq<char>>,
    now: int,
) -> (int, int) {
    let s = match start {
        Some(t) => match rfc3339_to_micros_spec(t) {
            Some(m) => m as int,
            None => (now - 3600) * 1000000,
        },
        None => (now - 3600) * 1000000,
    };
    let e = match end {
        Some(t) => match rfc3339_to_micros_spec(t) {
            Some(m) => m as int,
            None => now * 1000000,
        },
        None => now * 1000000,
    };
    (s, e)
}

/// Computes the query's absolute microsecond window against `now`.
pub fn query_window(q: &LogQuery, now: i64) -> (r: (i64, i64))
    requires
        0 <= now < 253402300800,
    ensures
        (r.0 as int, r.1 as int) == spec_window_micros(
            view_opt(q.start_time),
            view_opt(q.end_time),
            now as int,
        ),
{
    let start: i64 = match &q.start_time {
        Some(t) => {
            match crate::time::parse_rfc3339_micros(t.as_str()) {
                Some(m) => m,
                None => (now - 3600) * 1000000,
            }
        },
        None => (now - 3600) * 1000000,
    };
    let end: i64 = match &q.end_time {
        Some(t) => {
            match crate::time::parse_rfc3339_micros(t.as_str()) {
                Some(m) => m,
                None => now * 1000000,
            }
        },
        None => now * 1000000,
    };
    (start, end)
}


/// The whole native search request body: the SQL, the absolute microsecond
/// window, and the paging bounds.
pub open spec fn spec_oo_body(default_stream: Seq<char>, q: LogQuery, now: int) -> Seq<char> {
    "{\"query\":{\"sql\":"@ + crate::json::spec_json_string(spec_sql(default_stream, q))
        + ",\"start_time\":"@ + crate::text::spec_dec_signed(
        spec_window_micros(view_opt(q.start_time), view_opt(q.end_time), now).0,
    ) + ",\"end_time\":"@ + crate::text::spec_dec_signed(
        spec_window_micros(view_opt(q.start_time), view_opt(q.end_time), now).1,
    ) + ",\"from\":0,\"size\":"@ + spec_dec(q.max_results as nat) + "}}"@
}

/// Translates the unified query into the whole native JSON request body
/// against `default_stream` (or the query's own index override), the time
/// window defaulting against the wall-clock reading `now`.
pub fn build_oo_body(default_stream: &str, q: &LogQuery, now: i64) -> (r: String)
    requires
        0 <= now < 253402300800,
    ensures
        r@ == spec_oo_body(default_stream@, *q, now as int),
{
    let (start, end) = query_window(q, now);
    let sql = build_sql_query(default_stream, q);
    let mut out = String::new();
    out.append("{\"query\":{\"sql\":");
    crate::json::append_json_string(&mut out, sql.as_str());
    out.append(",\"start_time\":");
    let s_dec = crate::text::i64_to_dec(start);
    out.append(s_dec.as_str());
    out.append(",\"end_time\":");
    let e_dec = crate::text::i64_to_dec(end);
    out.append(e_dec.as_str());
    out.append(",\"from\":0,\"size\":");
    let n_dec = usize_to_dec(q.max_results);
    out.append(n_dec.as_str());
    out.append("}}");
    assert(out@ =~= spec_oo_body(default_stream@, *q, now as int));
    out
}

/// What the assembled message is: a non-empty body other than the literal
/// `analytics` stands by itself; otherwise the payload, truncated to 300
/// characters, is shown behind an `[event]` tag; with no payload the body
/// stands behind the tag.
pub open spec fn spec_message(body: Seq<char>, event: Seq<char>, payload: Option<Seq<char>>) -> Seq<
    char,
> {
    if body.len() > 0 && body != "analytics"@ {
        body
    } else {
        match payload {
            Some(p) => "["@ + event + "] "@ + spec_truncate(p, 300),
            None => "["@ + event + "] "@ + body,
        }
    }
}

/// Assembles a normalized entry from the plain fields probed out of one
/// response record: the numeric severity (defaulting to 9, an info-level
/// value) picks the level by the fixed buckets; the message follows
/// `spec_message`, truncated to 500 characters with an ellipsis marker; a
/// missing timestamp renders as the empty string.
pub fn assemble_entry(
    severity: Option<i64>,
    body: String,
    event: String,
    payload: Option<String>,
    ts_micros: Option<i64>,
    service: Option<String>,
    trace_id: Option<String>,
) -> (e: LogEntry)
    ensures
        e.level == spec_severity_level(
            match severity {
                Some(n) => n as int,
                None => 9,
            },
        ),
        e.message@ == spec_truncate(spec_message(body@, event@, view_opt(payload)), 500),
        e.message@.len() <= 503,
        e.timestamp@ == match ts_micros {
            Some(t) => rfc3339_of_micros(t as int),
            None => Seq::<char>::empty(),
        },
        view_opt(e.service) == view_opt(service),
        view_opt(e.trace_id) == view_opt(trace_id),
        e.labels@.len() == 0,
{
    let level = match severity {
        Some(n) => severity_level(n),
        None => severity_level(9),
    };
    let raw: String = if !body.as_str().is_empty() && !str_eq(body.as_str(), "analytics") {
        body
    } else {
        let mut m = String::new();
        m.append("[");
        m.append(event.as_str());
        m.append("] ");
        match &payload {
            Some(p) => {
                let t = truncate_message(p.as_str(), 300);
                m.append(t.as_str());
            },
            None => {
                m.append(body.as_str());
            },
        }
        m
    };
    let message = truncate_message(raw.as_str(), 500);
    let timestamp = match ts_micros {
        Some(t) => format_rfc3339_micros(t),
        None => String::new(),
    };
    proof {
        reveal_strlit("...");
        assert("..."@.len() == 3);
    }
    LogEntry { timestamp, level, message, service, trace_id, labels: Vec::new() }
}

/// Reads the severity of one record: a string field is parsed as a number,
/// a numeric field is taken as it stands.
fn probe_severity(record: &serde_json::Value) -> Option<i64> {
    match json_get(record, "severity") {
        Some(v) => {
            match json_as_str(v) {
                Some(s) => {
                    match crate::text::parse_i64(s.as_str()) {
                        Some(n) => Some(n),
                        None => json_as_i64(v),
                    }
                },
                None => json_as_i64(v),
            }
        },
        None => None,
    }
}

/// Parses one response record by probing its fields and assembling a
/// normalized entry; every record yields an entry, carrying no labels, a
/// message of at most 503 characters, and a timestamp that is empty or the
/// rendering of some microsecond instant.
pub fn parse_record(record: &serde_json::Value) -> (e: LogEntry)
    ensures
        e.labels@.len() == 0,
        e.message@.len() <= 503,
        e.timestamp@.len() == 0 || exists|t: int| e.timestamp@ == rfc3339_of_micros(t),
{
    let severity = probe_severity(record);
    let body = match json_get(record, "body") {
        Some(v) => match json_as_str(v) {
            Some(s) => s,
            None => String::new(),
        },
        None => String::new(),
    };
    let event = match json_get(record, "event") {
        Some(v) => match json_as_str(v) {
            Some(s) => s,
            None => String::new(),
        },
        None => String::new(),
    };
    let payload = match json_get(record, "payload") {
        Some(v) => json_as_str(v),
        None => None,
    };
    let ts_micros = match json_get(record, "_timestamp") {
        Some(v) => json_as_i64(v),
        None => None,
    };
    let service = match json_get(record, "service_name") {
        Some(v) => json_as_str(v),
        None => match json_get(record, "service") {
            Some(v) => json_as_str(v),
            None => None,
        },
    };
    let trace_id = match json_get(record, "trace_id") {
        Some(v) => json_as_str(v),
        None => None,
    };
    assemble_entry(severity, body, event, payload, ts_micros, service, trace_id)
}

/// Parses a whole response document: the `hits` array's records, each
/// normalized, capped at the query's own `max_results`; a response without a
/// `hits` array reads as empty. Every returned entry carries no labels and
/// a message of at most 503 characters.
pub fn parse_response(doc: &serde_json::Value, max_results: usize) -> (r: Vec<LogEntry>)
    ensures
        r@.len() <= max_results as int,
        forall|i: int|
            0 <= i < r@.len() ==> (#[trigger] r@[i]).labels@.len() == 0 && r@[i].message@.len()
                <= 503,
{
    let mut out: Vec<LogEntry> = Vec::new();
    let hits = match json_get(doc, "hits") {
        Some(h) => h,
        None => {
            return out;
        },
    };
    let arr = match json_as_array(hits) {
        Some(a) => a,
        None => {
            return out;
        },
    };
    let mut i: usize = 0;
    while i < arr.len()
        invariant
            out@.len() <= i,
            out@.len() <= max_results as int,
            forall|j: int|
                0 <= j < out@.len() ==> (#[trigger] out@[j]).labels@.len() == 0
                    && out@[j].message@.len() <= 503,
        decreases arr@.len() - i,
    {
        if out.len() < max_results {
            let e = parse_record(&arr[i]);
            out.push(e);
        }
        i = i + 1;
    }
    out
}

} // verus!
