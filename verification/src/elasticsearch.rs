//! The JSON-query-DSL backend adapter: translates the unified query into a
//! structured filter tree, renders it as the native JSON search body, and
//! normalizes response hits.

use vstd::prelude::*;
use vstd::string::StringExecFns;
use crate::backends::LogQuery;
use crate::backends::LogEntry;
use crate::backends::BackendError;
use crate::backends::view_opt;
use crate::backends::spec_or_empty;
use crate::backends::spec_level_of;
use crate::backends::level_of;
use crate::level::spec_lower_seq;
use crate::level::lower_ascii;
use crate::text::str_eq;
use crate::text::spec_dec;
use crate::text::usize_to_dec;
use crate::text::spec_join;
use crate::text::join_with;
use crate::json::spec_json_string;
use crate::json::append_json_string;
use crate::json::json_get;
use crate::json::json_as_str;
use crate::json::json_as_array;
use crate::json::first_string_field;

verus! {

/// One node of the structured filter tree the unified query translates into.
pub enum EsFilter {
    QueryString { query: String },
    TermLevel { level: String },
    TermService { service: String },
    TimeRange { gte: Option<String>, lte: Option<String> },
}

/// The abstract value of a filter node.
pub enum EsFilterView {
    QueryString(Seq<char>),
    TermLevel(Seq<char>),
    TermService(Seq<char>),
    TimeRange(Option<Seq<char>>, Option<Seq<char>>),
}

impl View for EsFilter {
    type V = EsFilterView;

    open spec fn view(&self) -> EsFilterView {
        match self {
            EsFilter::QueryString { query } => EsFilterView::QueryString(query@),
            EsFilter::TermLevel { level } => EsFilterView::TermLevel(level@),
            EsFilter::TermService { service } => EsFilterView::TermService(service@),
            EsFilter::TimeRange { gte, lte } => EsFilterView::TimeRange(
                view_opt(*gte),
                view_opt(*lte),
            ),
        }
    }
}

/// The filter tree a query translates into, in order: a query-string filter
/// (when the query is neither empty nor `*`), a lower-cased level term, a
/// service term, and a time range (when either bound is given).
pub open spec fn spec_es_filters(q: LogQuery) -> Seq<EsFilterView> {
    let base: Seq<EsFilterView> = if q.query@.len() > 0 && q.query@ != "*"@ {
        seq![EsFilterView::QueryString(q.query@)]
    } else {
        Seq::empty()
    };
    let with_level: Seq<EsFilterView> = match q.level {
        Some(l) => base.push(EsFilterView::TermLevel(spec_lower_seq(l@))),
        None => base,
    };
    let with_service: Seq<EsFilterView> = match q.service {
        Some(s) => with_level.push(EsFilterView::TermService(s@)),
        None => with_level,
    };
    if q.start_time is Some || q.end_time is Some {
        with_service.push(
            EsFilterView::TimeRange(view_opt(q.start_time), view_opt(q.end_time)),
        )
    } else {
        with_service
    }
}

/// Builds the filter tree for `q`.
pub fn build_es_filters(q: &LogQuery) -> (r: Vec<EsFilter>)
    ensures
        r@.map_values(|f: EsFilter| f@) == spec_es_filters(*q),
{
    let mut out: Vec<EsFilter> = Vec::new();
    if !q.query.as_str().is_empty() && !str_eq(q.query.as_str(), "*") {
        out.push(EsFilter::QueryString { query: q.query.clone() });
    }
    match &q.level {
        Some(l) => {
            out.push(EsFilter::TermLevel { level: lower_ascii(l.as_str()) });
        },
        None => {},
    }
    match &q.service {
        Some(s) => {
            out.push(EsFilter::TermService { service: s.clone() });
        },
        None => {},
    }
    if q.start_time.is_some() || q.end_time.is_some() {
        out.push(EsFilter::TimeRange { gte: q.start_time.clone(), lte: q.end_time.clone() });
    }
    assert(out@.map_values(|f: EsFilter| f@) =~= spec_es_filters(*q));
    out
}

/// The inner object of a range filter: whichever bounds are present, `gte`
/// first.
pub open spec fn spec_range_inner(gte: Option<Seq<char>>, lte: Option<Seq<char>>) -> Seq<char> {
    match (gte, lte) {
        (Some(g), Some(l)) => "\"gte\":"@ + spec_json_string(g) + ",\"lte\":"@ + spec_json_string(
            l,
        ),
        (Some(g), None) => "\"gte\":"@ + spec_json_string(g),
        (None, Some(l)) => "\"lte\":"@ + spec_json_string(l),
        (None, None) => Seq::empty(),
    }
}

/// The JSON text of one filter node.
pub open spec fn spec_render_filter(f: EsFilterView) -> Seq<char> {
    match f {
        EsFilterView::QueryString(q) => "{\"query_string\":{\"query\":"@ + spec_json_string(q)
            + "}}"@,
        EsFilterView::TermLevel(l) => "{\"term\":{\"level\":"@ + spec_json_string(l) + "}}"@,
        EsFilterView::TermService(s) => "{\"term\":{\"service.name\":"@ + spec_json_string(s)
            + "}}"@,
        EsFilterView::TimeRange(g, l) => "{\"range\":{\"@timestamp\":{"@ + spec_range_inner(g, l)
            + "}}}"@,
    }
}

fn render_filter(f: &EsFilter) -> (r: String)
    ensures
        r@ == spec_render_filter(f@),
{
    let mut out = String::new();
    match f {
        EsFilter::QueryString { query } => {
            out.append("{\"query_string\":{\"query\":");
            append_json_string(&mut out, query.as_str());
            out.append("}}");
        },
        EsFilter::TermLevel { level } => {
            out.append("{\"term\":{\"level\":");
            append_json_string(&mut out, level.as_str());
            out.append("}}");
        },
        EsFilter::TermService { service } => {
            out.append("{\"term\":{\"service.name\":");
            append_json_string(&mut out, service.as_str());
            out.append("}}");
        },
        EsFilter::TimeRange { gte, lte } => {
            out.append("{\"range\":{\"@timestamp\":{");
            match (gte, lte) {
                (Some(g), Some(l)) => {
                    out.append("\"gte\":");
                    append_json_string(&mut out, g.as_str());
                    out.append(",\"lte\":");
                    append_json_string(&mut out, l.as_str());
                },
                (Some(g), None) => {
                    out.append("\"gte\":");
                    append_json_string(&mut out, g.as_str());
                },
                (None, Some(l)) => {
                    out.append("\"lte\":");
                    append_json_string(&mut out, l.as_str());
                },
                (None, None) => {},
            }
            out.append("}}}");
        },
    }
    assert(out@ =~= spec_render_filter(f@));
    out
}

/// The boolean query: `match_all` with no filters, else the filters as a
/// `bool`/`must` conjunction.
pub open spec fn spec_bool_query(fs: Seq<EsFilterView>) -> Seq<char> {
    if fs.len() == 0 {
        "{\"match_all\":{}}"@
    } else {
        "{\"bool\":{\"must\":["@ + spec_join(fs.map_values(|f| spec_render_filter(f)), ","@)
            + "]}}"@
    }
}

/// The whole native search body: the boolean query, the result-size bound,
/// and a newest-first sort.
pub open spec fn spec_es_body(q: LogQuery) -> Seq<char> {
    "{\"query\":"@ + spec_bool_query(spec_es_filters(q)) + ",\"size\":"@ + spec_dec(
        q.max_results as nat,
    ) + ",\"sort\":[{\"@timestamp\":{\"order\":\"desc\"}}]}"@
}

/// Translates the unified query into the native JSON search body.
pub fn build_es_body(q: &LogQuery) -> (r: String)
    ensures
        r@ == spec_es_body(*q),
{
    let filters = build_es_filters(q);
    let mut rendered: Vec<String> = Vec::new();
    let mut i: usize = 0;
    while i < filters.len()
        invariant
            0 <= i <= filters@.len(),
            filters@.map_values(|f: EsFilter| f@) == spec_es_filters(*q),
            rendered@.map_values(|s: String| s@) =~= spec_es_filters(*q).map_values(
                |f| spec_render_filter(f),
            ).subrange(0, i as int),
        decreases filters@.len() - i,
    {
        let ghost old_map = rendered@.map_values(|s: String| s@);
        let ghost old_vec = rendered@;
        let one = render_filter(&filters[i]);
        proof {
            let specfs = spec_es_filters(*q);
            assert(filters@.map_values(|f: EsFilter| f@)[i as int] == filters@[i as int]@);
            assert(one@ == spec_render_filter(specfs[i as int]));
        }
        rendered.push(one);
        proof {
            let specfs = spec_es_filters(*q);
            let spec_map = specfs.map_values(|f| spec_render_filter(f));
            assert(rendered@.map_values(|s: String| s@) =~= old_map.push(
                spec_render_filter(specfs[i as int]),
            ));
            assert(old_map.push(spec_render_filter(specfs[i as int])) =~= spec_map.subrange(
                0,
                i + 1,
            ));
        }
        i = i + 1;
    }
    assert(rendered@.map_values(|s: String| s@) =~= spec_es_filters(*q).map_values(
        |f| spec_render_filter(f),
    ));

    let mut out = String::new();
    out.append("{\"query\":");
    if rendered.len() == 0 {
        out.append("{\"match_all\":{}}");
    } else {
        out.append("{\"bool\":{\"must\":[");
        let joined = join_with(&rendered, ",");
        out.append(joined.as_str());
        out.append("]}}");
    }
    out.append(",\"size\":");
    let dec = usize_to_dec(q.max_results);
    out.append(dec.as_str());
    out.append(",\"sort\":[{\"@timestamp\":{\"order\":\"desc\"}}]}");
    assert(out@ =~= spec_es_body(*q));
    out
}

/// Assembles a normalized entry from the plain fields probed out of one hit:
/// missing timestamp and message read as empty, the level text normalizes
/// with `Info` as the default, and the message is truncated to 500
/// characters with an ellipsis marker.
pub fn es_entry(
    timestamp: Option<String>,
    level_text: Option<String>,
    message: Option<String>,
    service: Option<String>,
    trace_id: Option<String>,
) -> (e: LogEntry)
    ensures
        e.timestamp@ == spec_or_empty(timestamp),
        e.level == spec_level_of(level_text),
        e.message@ == crate::text::spec_truncate(spec_or_empty(message), 500),
        e.message@.len() <= 503,
        view_opt(e.service) == view_opt(service),
        view_opt(e.trace_id) == view_opt(trace_id),
        e.labels@.len() == 0,
{
    let level = level_of(&level_text);
    let timestamp = match timestamp {
        Some(t) => t,
        None => String::new(),
    };
    let message = match message {
        Some(m) => crate::text::truncate_message(m.as_str(), 500),
        None => {
            let m = String::new();
            assert(m@ =~= crate::text::spec_truncate(Seq::<char>::empty(), 500));
            m
        },
    };
    proof {
        reveal_strlit("...");
        assert("..."@.len() == 3);
    }
    LogEntry { timestamp, level, message, service, trace_id, labels: Vec::new() }
}

/// Parses one hit: probes the `_source` document's field aliases and
/// assembles a normalized entry; a hit without `_source` is skipped. Every
/// entry produced carries no labels and a message of at most 503
/// characters (500 plus the ellipsis marker).
pub fn parse_hit(hit: &serde_json::Value) -> (r: Option<LogEntry>)
    ensures
        r matches Some(e) ==> e.labels@.len() == 0 && e.message@.len() <= 503,
{
    let source = match json_get(hit, "_source") {
        Some(s) => s,
        None => {
            return None;
        },
    };
    let timestamp = first_string_field(source, &vec!["@timestamp", "timestamp"]);
    let level_text = first_string_field(source, &vec!["level", "severity", "log_level"]);
    let message = first_string_field(source, &vec!["message", "log", "body"]);
    let service = match json_get(source, "service") {
        Some(svc) => {
            match json_get(svc, "name") {
                Some(n) => json_as_str(n),
                None => None,
            }
        },
        None => None,
    };
    let service = match service {
        Some(s) => Some(s),
        None => {
            match json_get(source, "service_name") {
                Some(v) => json_as_str(v),
                None => None,
            }
        },
    };
    let trace_id = first_string_field(source, &vec!["trace_id", "traceId"]);
    Some(es_entry(timestamp, level_text, message, service, trace_id))
}

/// Parses a whole search response: the `hits.hits` array, each hit
/// normalized, unparsable hits skipped, capped at `max_results`; a response
/// without that array is a decode error. Every returned entry carries no
/// labels and a message of at most 503 characters.
pub fn parse_response(doc: &serde_json::Value, max_results: usize) -> (r: Result<
    Vec<LogEntry>,
    BackendError,
>)
    ensures
        match r {
            Ok(v) => v@.len() <= max_results as int && (forall|i: int|
                0 <= i < v@.len() ==> (#[trigger] v@[i]).labels@.len() == 0 && v@[i].message@.len()
                    <= 503),
            Err(e) => e is Decode,
        },
{
    let outer = match json_get(doc, "hits") {
        Some(h) => h,
        None => {
            return Err(BackendError::Decode("invalid search response format".to_owned()));
        },
    };
    let inner = match json_get(outer, "hits") {
        Some(h) => h,
        None => {
            return Err(BackendError::Decode("invalid search response format".to_owned()));
        },
    };
    let arr = match json_as_array(inner) {
        Some(a) => a,
        None => {
            return Err(BackendError::Decode("invalid search response format".to_owned()));
        },
    };
    let mut out: Vec<LogEntry> = Vec::new();
    let mut i: usize = 0;
    while i < arr.len()
        invariant
            out@.len() <= i,
            out@.len() <= max_results as int,
            forall|j: int|
                0 <= j < out@.len() ==> (#[trigger] out@[j]).labels@.len() == 0
                    && out@[j].message@.len() <= 503,
        decreases arr@.len() - i,
    {
        if out.len() < max_results {
            match parse_hit(&arr[i]) {
                Some(e) => out.push(e),
                None => {},
            }
        }
        i = i + 1;
    }
    Ok(out)
}

} // verus!
