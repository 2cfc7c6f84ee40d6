//! The KQL/Lucene-style backend adapter: translates the unified query into a
//! conjunctive filter list (with a default one-hour lookback window when no
//! time bounds are given), renders the filters as JSON, and normalizes
//! response hits, mapping raw pod names to display service names.

use vstd::prelude::*;
use vstd::string::StringExecFns;
use crate::backends::LogQuery;
use crate::backends::LogEntry;
use crate::backends::view_opt;
use crate::backends::spec_or_empty;
use crate::backends::spec_level_of;
use crate::backends::level_of;
use crate::level::spec_upper_seq;
use crate::level::upper_char;
use crate::text::str_eq;
use crate::text::chars_of;
use crate::text::push_char;
use crate::text::string_from_chars;
use crate::text::spec_join;
use crate::text::join_with;
use crate::text::spec_truncate;
use crate::text::truncate_message;
use crate::text::spec_contains_seq;
use crate::text::contains_str;
use crate::json::spec_json_string;
use crate::json::append_json_string;
use crate::json::json_get;
use crate::json::json_as_str;
use crate::json::json_as_array;
use crate::json::first_string_field;
use crate::time::rfc3339_of;
use crate::time::format_rfc3339_secs;

verus! {

/// One conjunctive filter: a lenient multi-field text match, or the time
/// window.
pub enum KibanaFilter {
    MultiMatch { query: String, fields: Vec<String> },
    TimeRange { gte: String, lte: String },
}

/// The abstract value of one filter.
#[verifier::ext_equal]
pub enum KibanaFilterView {
    MultiMatch(Seq<char>, Seq<Seq<char>>),
    TimeRange(Seq<char>, Seq<char>),
}

impl View for KibanaFilter {
    type V = KibanaFilterView;

    open spec fn view(&self) -> KibanaFilterView {
        match self {
            KibanaFilter::MultiMatch { query, fields } => KibanaFilterView::MultiMatch(
                query@,
                fields@.map_values(|s: String| s@),
            ),
            KibanaFilter::TimeRange { gte, lte } => KibanaFilterView::TimeRange(gte@, lte@),
        }
    }
}

/// The lower bound of the query's time window: its own start time, or one
/// hour before `now`.
pub open spec fn spec_window_gte(q: LogQuery, now: int) -> Seq<char> {
    match view_opt(q.start_time) {
        Some(s) => s,
        None => rfc3339_of(now - 3600),
    }
}

/// The upper bound of the query's time window: its own end time, or `now`.
pub open spec fn spec_window_lte(q: LogQuery, now: int) -> Seq<char> {
    match view_opt(q.end_time) {
        Some(s) => s,
        None => rfc3339_of(now),
    }
}

/// The conjunctive filter list a query translates into, in order: a free-text
/// match (when the query is neither empty nor `*`), the time window (always,
/// with defaults filled from `now`), the upper-cased level against the level
/// field aliases, and the service against the service field aliases.
pub open spec fn spec_kibana_filters(q: LogQuery, now: int) -> Seq<KibanaFilterView> {
    let base: Seq<KibanaFilterView> = if q.query@.len() > 0 && q.query@ != "*"@ {
        seq![KibanaFilterView::MultiMatch(q.query@, Seq::empty())]
    } else {
        Seq::empty()
    };
    let with_window: Seq<KibanaFilterView> = base.push(
        KibanaFilterView::TimeRange(spec_window_gte(q, now), spec_window_lte(q, now)),
    );
    let with_level: Seq<KibanaFilterView> = match q.level {
        Some(l) => with_window.push(
            KibanaFilterView::MultiMatch(
                spec_upper_seq(l@),
                seq!["level"@, "severity"@, "log_level"@],
            ),
        ),
        None => with_window,
    };
    match q.service {
        Some(s) => with_level.push(
            KibanaFilterView::MultiMatch(
                s@,
                seq!["pod_name"@, "pod_name.keyword"@, "service"@, "service_name"@],
            ),
        ),
        None => with_level,
    }
}

/// ASCII-upper-cases a string.
fn upper_ascii(s: &str) -> (r: String)
    ensures
        r@ == spec_upper_seq(s@),
{
    let cs = chars_of(s);
    let mut out = String::new();
    let mut i: usize = 0;
    while i < cs.len()
        invariant
            0 <= i <= cs@.len(),
            cs@ == s@,
            out@ =~= spec_upper_seq(s@).subrange(0, i as int),
        decreases cs@.len() - i,
    {
        push_char(&mut out, upper_char(cs[i]));
        assert(out@ =~= spec_upper_seq(s@).subrange(0, i + 1));
        i = i + 1;
    }
    assert(out@ =~= spec_upper_seq(s@));
    out
}

/// Builds the conjunctive filter list for `q`, filling the default one-hour
/// window from the wall-clock reading `now`.
pub fn build_kibana_filters(q: &LogQuery, now: i64) -> (r: Vec<KibanaFilter>)
    requires
        0 <= now < 253402300800,
    ensures
        r@.map_values(|f: KibanaFilter| f@) == spec_kibana_filters(*q, now as int),
{
    let mut out: Vec<KibanaFilter> = Vec::new();
    if !q.query.as_str().is_empty() && !str_eq(q.query.as_str(), "*") {
        out.push(KibanaFilter::MultiMatch { query: q.query.clone(), fields: Vec::new() });
    }
    let gte = match &q.start_time {
        Some(s) => s.clone(),
        None => format_rfc3339_secs(now - 3600),
    };
    let lte = match &q.end_time {
        Some(s) => s.clone(),
        None => format_rfc3339_secs(now),
    };
    out.push(KibanaFilter::TimeRange { gte, lte });
    match &q.level {
        Some(l) => {
            let mut fields: Vec<String> = Vec::new();
            fields.push("level".to_owned());
            fields.push("severity".to_owned());
            fields.push("log_level".to_owned());
            assert(fields@.map_values(|s: String| s@) =~= seq![
                "level"@,
                "severity"@,
                "log_level"@,
            ]);
            out.push(KibanaFilter::MultiMatch { query: upper_ascii(l.as_str()), fields });
        },
        None => {},
    }
    match &q.service {
        Some(s) => {
            let mut fields: Vec<String> = Vec::new();
            fields.push("pod_name".to_owned());
            fields.push("pod_name.keyword".to_owned());
            fields.push("service".to_owned());
            fields.push("service_name".to_owned());
            assert(fields@.map_values(|s: String| s@) =~= seq![
                "pod_name"@,
                "pod_name.keyword"@,
                "service"@,
                "service_name"@,
            ]);
            out.push(KibanaFilter::MultiMatch { query: s.clone(), fields });
        },
        None => {},
    }
    assert(out@.map_values(|f: KibanaFilter| f@) =~~= spec_kibana_filters(*q, now as int));
    out
}

/// The JSON text of one filter.
pub open spec fn spec_render_kibana_filter(f: KibanaFilterView) -> Seq<char> {
    match f {
        KibanaFilterView::MultiMatch(q, fields) => if fields.len() == 0 {
            "{\"multi_match\":{\"type\":\"best_fields\",\"query\":"@ + spec_json_string(q)
                + ",\"lenient\":true}}"@
        } else {
            "{\"multi_match\":{\"type\":\"best_fields\",\"query\":"@ + spec_json_string(q)
                + ",\"fields\":["@ + spec_join(
                fields.map_values(|x| spec_json_string(x)),
                ","@,
            ) + "],\"lenient\":true}}"@
        },
        KibanaFilterView::TimeRange(gte, lte) => "{\"range\":{\"timestamp\":{\"gte\":"@
            + spec_json_string(gte) + ",\"lte\":"@ + spec_json_string(lte)
            + ",\"format\":\"strict_date_optional_time\"}}}"@,
    }
}

fn render_kibana_filter(f: &KibanaFilter) -> (r: String)
    ensures
        r@ == spec_render_kibana_filter(f@),
{
    let mut out = String::new();
    match f {
        KibanaFilter::MultiMatch { query, fields } => {
            out.append("{\"multi_match\":{\"type\":\"best_fields\",\"query\":");
            append_json_string(&mut out, query.as_str());
            if fields.len() == 0 {
                out.append(",\"lenient\":true}}");
            } else {
                out.append(",\"fields\":[");
                let ghost target = fields@.map_values(|s: String| s@).map_values(
                    |x| spec_json_string(x),
                );
                let mut quoted: Vec<String> = Vec::new();
                let mut i: usize = 0;
                while i < fields.len()
                    invariant
                        0 <= i <= fields@.len(),
                        target == fields@.map_values(|s: String| s@).map_values(
                            |x| spec_json_string(x),
                        ),
                        quoted@.map_values(|s: String| s@) =~= target.subrange(0, i as int),
                    decreases fields@.len() - i,
                {
                    let mut one = String::new();
                    append_json_string(&mut one, fields[i].as_str());
                    assert(one@ =~= spec_json_string(fields@[i as int]@));
                    let ghost one_view = one@;
                    let ghost oldq = quoted@;
                    quoted.push(one);
                    proof {
                        assert(fields@.map_values(|s: String| s@)[i as int] == fields@[i as int]@);
                        assert(target[i as int] == spec_json_string(fields@[i as int]@));
                        assert(oldq.map_values(|s: String| s@).len() == oldq.len());
                        assert(oldq.len() == i);
                        assert(quoted@.len() == i + 1);
                        assert(quoted@[i as int]@ == one_view);
                        assert forall|j: int| 0 <= j <= i implies quoted@.map_values(
                            |s: String| s@,
                        )[j] == #[trigger] target.subrange(0, i + 1)[j] by {
                            assert(quoted@.map_values(|s: String| s@)[j] == quoted@[j]@);
                            if j < i {
                                assert(quoted@[j] == oldq[j]);
                                assert(oldq.map_values(|s: String| s@)[j] == oldq[j]@);
                                assert(oldq.map_values(|s: String| s@)[j] == target.subrange(
                                    0,
                                    i as int,
                                )[j]);
                            } else {
                                assert(quoted@[j]@ == one_view);
                            }
                        }
                        assert(quoted@.map_values(|s: String| s@) =~= target.subrange(0, i + 1));
                    }
                    i = i + 1;
                }
                assert(quoted@.map_values(|s: String| s@) =~= target);
                let joined = join_with(&quoted, ",");
                out.append(joined.as_str());
                out.append("],\"lenient\":true}}");
            }
        },
        KibanaFilter::TimeRange { gte, lte } => {
            out.append("{\"range\":{\"timestamp\":{\"gte\":");
            append_json_string(&mut out, gte.as_str());
            out.append(",\"lte\":");
            append_json_string(&mut out, lte.as_str());
            out.append(",\"format\":\"strict_date_optional_time\"}}}");
        },
    }
    assert(out@ =~= spec_render_kibana_filter(f@));
    out
}

/// The JSON array of all of a query's filters.
pub open spec fn spec_kibana_filter_array(q: LogQuery, now: int) -> Seq<char> {
    "["@ + spec_join(
        spec_kibana_filters(q, now).map_values(|f| spec_render_kibana_filter(f)),
        ","@,
    ) + "]"@
}

/// Translates the unified query into the native conjunctive filter array,
/// rendered as JSON text.
pub fn build_kibana_filter_json(q: &LogQuery, now: i64) -> (r: String)
    requires
        0 <= now < 253402300800,
    ensures
        r@ == spec_kibana_filter_array(*q, now as int),
{
    let filters = build_kibana_filters(q, now);
    let mut rendered: Vec<String> = Vec::new();
    let mut i: usize = 0;
    while i < filters.len()
        invariant
            0 <= i <= filters@.len(),
            filters@.map_values(|f: KibanaFilter| f@) == spec_kibana_filters(*q, now as int),
            rendered@.map_values(|s: String| s@) =~= spec_kibana_filters(*q, now as int)
                .map_values(|f| spec_render_kibana_filter(f)).subrange(0, i as int),
        decreases filters@.len() - i,
    {
        let ghost old_map = rendered@.map_values(|s: String| s@);
        let one = render_kibana_filter(&filters[i]);
        proof {
            let specfs = spec_kibana_filters(*q, now as int);
            assert(filters@.map_values(|f: KibanaFilter| f@)[i as int] == filters@[i as int]@);
            assert(one@ == spec_render_kibana_filter(specfs[i as int]));
        }
        rendered.push(one);
        proof {
            let specfs = spec_kibana_filters(*q, now as int);
            let spec_map = specfs.map_values(|f| spec_render_kibana_filter(f));
            assert(rendered@.map_values(|s: String| s@) =~= old_map.push(
                spec_render_kibana_filter(specfs[i as int]),
            ));
            assert(old_map.push(spec_render_kibana_filter(specfs[i as int])) =~= spec_map
                .subrange(0, i + 1));
        }
        i = i + 1;
    }
    assert(rendered@.map_values(|s: String| s@) =~= spec_kibana_filters(*q, now as int)
        .map_values(|f| spec_render_kibana_filter(f)));
    let mut out = String::new();
    out.append("[");
    let joined = join_with(&rendered, ",");
    out.append(joined.as_str());
    out.append("]");
    assert(out@ =~= spec_kibana_filter_array(*q, now as int));
    out
}


/// The index the query runs against: its own override, or the configured
/// default.
pub open spec fn spec_kibana_index(default_index: Seq<char>, q: LogQuery) -> Seq<char> {
    match view_opt(q.index_pattern) {
        Some(p) => p,
        None => default_index,
    }
}

/// The whole native search body: the index, the result-size bound, the
/// fixed envelope (newest-first sort, docvalue timestamp, full source, the
/// highlight block), the conjunctive filter array, and a shard-routing
/// preference derived from the clock reading.
pub open spec fn spec_kibana_body(default_index: Seq<char>, q: LogQuery, now: int) -> Seq<char> {
    "{\"params\":{\"index\":"@ + spec_json_string(spec_kibana_index(default_index, q))
        + ",\"body\":{\"version\":true,\"size\":"@ + crate::text::spec_dec(
        q.max_results as nat,
    )
        + ",\"sort\":[{\"timestamp\":{\"order\":\"desc\",\"unmapped_type\":\"boolean\"}}],\"stored_fields\":[\"*\"],\"docvalue_fields\":[{\"field\":\"timestamp\",\"format\":\"date_time\"}],\"_source\":{\"excludes\":[]},\"query\":{\"bool\":{\"must\":[],\"filter\":"@
        + spec_kibana_filter_array(q, now)
        + ",\"should\":[],\"must_not\":[]}},\"highlight\":{\"pre_tags\":[\"@kibana-highlighted-field@\"],\"post_tags\":[\"@/kibana-highlighted-field@\"],\"fields\":{\"*\":{}},\"fragment_size\":2147483647}},\"preference\":"@
        + crate::text::spec_dec((now * 1000) as nat) + "}}"@
}

/// Translates the unified query into the whole native JSON search body
/// against `default_index` (or the query's own index override), filling the
/// default one-hour window from the wall-clock reading `now`.
pub fn build_kibana_body(default_index: &str, q: &LogQuery, now: i64) -> (r: String)
    requires
        0 <= now < 253402300800,
    ensures
        r@ == spec_kibana_body(default_index@, *q, now as int),
{
    let mut out = String::new();
    out.append("{\"params\":{\"index\":");
    match &q.index_pattern {
        Some(p) => append_json_string(&mut out, p.as_str()),
        None => append_json_string(&mut out, default_index),
    }
    out.append(",\"body\":{\"version\":true,\"size\":");
    let dec = crate::text::usize_to_dec(q.max_results);
    out.append(dec.as_str());
    out.append(
        ",\"sort\":[{\"timestamp\":{\"order\":\"desc\",\"unmapped_type\":\"boolean\"}}],\"stored_fields\":[\"*\"],\"docvalue_fields\":[{\"field\":\"timestamp\",\"format\":\"date_time\"}],\"_source\":{\"excludes\":[]},\"query\":{\"bool\":{\"must\":[],\"filter\":",
    );
    let filters = build_kibana_filter_json(q, now);
    out.append(filters.as_str());
    out.append(
        ",\"should\":[],\"must_not\":[]}},\"highlight\":{\"pre_tags\":[\"@kibana-highlighted-field@\"],\"post_tags\":[\"@/kibana-highlighted-field@\"],\"fields\":{\"*\":{}},\"fragment_size\":2147483647}},\"preference\":",
    );
    let pref = crate::text::u64_to_dec((now as u64) * 1000);
    out.append(pref.as_str());
    out.append("}}");
    assert(out@ =~= spec_kibana_body(default_index@, *q, now as int));
    out
}

/// The display name a raw service or pod name maps to: the first matching
/// known prefix pattern wins; anything unrecognized stands as itself.
pub open spec fn spec_service_display(s: Seq<char>) -> Seq<char> {
    if spec_contains_seq(s, "breeze-api-custom-pre"@) {
        "Vayu(Jockey) Preflight"@
    } else if spec_contains_seq(s, "breeze-api-custom"@) {
        "Vayu(Jockey)"@
    } else if spec_contains_seq(s, "breeze-api-pre"@) {
        "Vayu Preflight"@
    } else if spec_contains_seq(s, "breeze-api-producer"@) {
        "Vayu Producer"@
    } else if spec_contains_seq(s, "breeze-api"@) {
        "Vayu"@
    } else if spec_contains_seq(s, "breeze-app-jockey"@) {
        "Nimble(Jockey)"@
    } else if spec_contains_seq(s, "breeze-app-analytics"@) {
        "Nimble Analytics"@
    } else if spec_contains_seq(s, "breeze-app-cron"@) {
        "Nimble Cron"@
    } else if spec_contains_seq(s, "breeze-app-"@) {
        "Nimble"@
    } else if spec_contains_seq(s, "breeze-lighthouse-cron"@) {
        "Lighthouse Cron"@
    } else if spec_contains_seq(s, "breeze-lighthouse-pre"@) {
        "Lighthouse Preflight"@
    } else if spec_contains_seq(s, "breeze-lighthouse"@) {
        "Lighthouse"@
    } else {
        s
    }
}

/// Maps a raw service or pod name to its display name.
pub fn service_display(s: &str) -> (r: String)
    ensures
        r@ == spec_service_display(s@),
{
    if contains_str(s, "breeze-api-custom-pre") {
        "Vayu(Jockey) Preflight".to_owned()
    } else if contains_str(s, "breeze-api-custom") {
        "Vayu(Jockey)".to_owned()
    } else if contains_str(s, "breeze-api-pre") {
        "Vayu Preflight".to_owned()
    } else if contains_str(s, "breeze-api-producer") {
        "Vayu Producer".to_owned()
    } else if contains_str(s, "breeze-api") {
        "Vayu".to_owned()
    } else if contains_str(s, "breeze-app-jockey") {
        "Nimble(Jockey)".to_owned()
    } else if contains_str(s, "breeze-app-analytics") {
        "Nimble Analytics".to_owned()
    } else if contains_str(s, "breeze-app-cron") {
        "Nimble Cron".to_owned()
    } else if contains_str(s, "breeze-app-") {
        "Nimble".to_owned()
    } else if contains_str(s, "breeze-lighthouse-cron") {
        "Lighthouse Cron".to_owned()
    } else if contains_str(s, "breeze-lighthouse-pre") {
        "Lighthouse Preflight".to_owned()
    } else if contains_str(s, "breeze-lighthouse") {
        "Lighthouse".to_owned()
    } else {
        s.to_owned()
    }
}

/// Assembles a normalized entry from the plain fields probed out of one hit:
/// level text normalizes with `Info` as the default, the message is
/// truncated to 500 characters, the service maps to its display name, and
/// missing timestamp or message read as empty.
pub fn kibana_entry(
    timestamp: Option<String>,
    level_text: Option<String>,
    message: Option<String>,
    service_raw: Option<String>,
    trace_id: Option<String>,
) -> (e: LogEntry)
    ensures
        e.timestamp@ == spec_or_empty(timestamp),
        e.level == spec_level_of(level_text),
        e.message@ == spec_truncate(spec_or_empty(message), 500),
        e.message@.len() <= 503,
        view_opt(e.service) == match view_opt(service_raw) {
            Some(s) => Some(spec_service_display(s)),
            None => None::<Seq<char>>,
        },
        view_opt(e.trace_id) == view_opt(trace_id),
        e.labels@.len() == 0,
{
    let level = level_of(&level_text);
    let timestamp = match timestamp {
        Some(t) => t,
        None => String::new(),
    };
    let message = match message {
        Some(m) => truncate_message(m.as_str(), 500),
        None => {
            let cs: Vec<char> = Vec::new();
            assert(cs@ =~= spec_truncate(Seq::empty(), 500));
            string_from_chars(&cs)
        },
    };
    let service = match service_raw {
        Some(s) => Some(service_display(s.as_str())),
        None => None,
    };
    proof {
        reveal_strlit("...");
        assert("..."@.len() == 3);
    }
    LogEntry { timestamp, level, message, service, trace_id, labels: Vec::new() }
}

/// Parses one hit: the timestamp probes the docvalue `fields.timestamp`
/// array first and then the `_source` aliases; the other attributes probe
/// their `_source` aliases; a hit without `_source` is skipped. Every entry
/// produced carries no labels and a message of at most 503 characters (500
/// plus the ellipsis marker).
pub fn parse_hit(hit: &serde_json::Value) -> (r: Option<LogEntry>)
    ensures
        r matches Some(e) ==> e.labels@.len() == 0 && e.message@.len() <= 503,
{
    let source = match json_get(hit, "_source") {
        Some(s) => s,
        None => {
            return None;
        },
    };
    let ts_docvalue = match json_get(hit, "fields") {
        Some(f) => {
            match json_get(f, "timestamp") {
                Some(t) => {
                    match json_as_array(t) {
                        Some(arr) => if arr.len() > 0 {
                            json_as_str(&arr[0])
                        } else {
                            None
                        },
                        None => None,
                    }
                },
                None => None,
            }
        },
        None => None,
    };
    let timestamp = match ts_docvalue {
        Some(t) => Some(t),
        None => first_string_field(source, &vec!["timestamp", "@timestamp"]),
    };
    let level_text = first_string_field(source, &vec!["level", "severity", "log_level"]);
    let message = first_string_field(source, &vec!["message", "log", "body"]);
    let service_raw = first_string_field(source, &vec!["pod_name", "service", "service_name"]);
    let trace_id = first_string_field(source, &vec!["trace_id", "traceId", "request_id"]);
    Some(kibana_entry(timestamp, level_text, message, service_raw, trace_id))
}

/// Parses a whole search response: the hits under `rawResponse` or
/// `response`, or at the top level, each normalized, unparsable hits
/// skipped, capped at `max_results`; a response with no hits array anywhere
/// reads as empty. Every returned entry carries no labels and a message of
/// at most 503 characters.
pub fn parse_response(doc: &serde_json::Value, max_results: usize) -> (r: Vec<LogEntry>)
    ensures
        r@.len() <= max_results as int,
        forall|i: int|
            0 <= i < r@.len() ==> (#[trigger] r@[i]).labels@.len() == 0 && r@[i].message@.len()
                <= 503,
{
    let wrapped = match json_get(doc, "rawResponse") {
        Some(w) => Some(w),
        None => json_get(doc, "response"),
    };
    let root = match wrapped {
        Some(w) => w,
        None => doc,
    };
    let mut out: Vec<LogEntry> = Vec::new();
    let outer = match json_get(root, "hits") {
        Some(h) => h,
        None => {
            return out;
        },
    };
    let inner = match json_get(outer, "hits") {
        Some(h) => h,
        None => {
            return out;
        },
    };
    let arr = match json_as_array(inner) {
        Some(a) => a,
        None => {
            return out;
        },
    };
    let mut i: usize = 0;
    while i < arr.len()
        invariant
            out@.len() <= i,
            out@.len() <= max_results as int,
            forall|j: int|
                0 <= j < out@.len() ==> (#[trigger] out@[j]).labels@.len() == 0
                    && out@[j].message@.len() <= 503,
        decreases arr@.len() - i,
    {
        if out.len() < max_results {
            match parse_hit(&arr[i]) {
                Some(e) => out.push(e),
                None => {},
            }
        }
        i = i + 1;
    }
    out
}

} // verus!
