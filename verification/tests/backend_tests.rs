use zeteo::backends::{clamp_max_results, LogQuery};
use zeteo::cache::Cache;
use zeteo::config::{Config, LogBackend};
use zeteo::elasticsearch::{build_es_body, parse_response as es_parse_response};
use zeteo::kibana::{build_kibana_filters, build_kibana_filter_json, service_display, KibanaFilter};
use zeteo::level::Level;
use zeteo::openobserve::{build_sql_query, parse_response as oo_parse_response};
use zeteo::time::now_epoch_seconds;

fn query(text: &str, max: usize) -> LogQuery {
    LogQuery {
        query: text.to_string(),
        max_results: max,
        start_time: None,
        end_time: None,
        level: None,
        service: None,
        index_pattern: None,
    }
}

#[test]
fn test_clamp_max_results() {
    assert_eq!(clamp_max_results(0), 1);
    assert_eq!(clamp_max_results(1), 1);
    assert_eq!(clamp_max_results(50), 50);
    assert_eq!(clamp_max_results(200), 200);
    assert_eq!(clamp_max_results(1000), 200);
}

#[test]
fn test_build_query_simple() {
    let q = query("error", 10);
    let body = build_es_body(&q);
    let es_query: serde_json::Value = serde_json::from_str(&body).unwrap();
    assert!(es_query.get("query").is_some());
    assert_eq!(es_query.get("size").unwrap().as_u64().unwrap(), 10);
}

#[test]
fn test_build_query_with_filters() {
    let q = LogQuery {
        query: "*".to_string(),
        max_results: 50,
        start_time: Some("2024-01-01T00:00:00Z".to_string()),
        end_time: Some("2024-01-02T00:00:00Z".to_string()),
        level: Some("ERROR".to_string()),
        service: Some("api-service".to_string()),
        index_pattern: None,
    };
    let body = build_es_body(&q);
    let es_query: serde_json::Value = serde_json::from_str(&body).unwrap();
    assert!(es_query.get("query").is_some());
    assert_eq!(es_query.get("size").unwrap().as_u64().unwrap(), 50);
    let must = &es_query["query"]["bool"]["must"];
    let arr = must.as_array().unwrap();
    assert_eq!(arr.len(), 3);
    assert_eq!(arr[0]["term"]["level"], "error");
    assert_eq!(arr[2]["range"]["@timestamp"]["gte"], "2024-01-01T00:00:00Z");
}

#[test]
fn test_es_parse_caps_at_max_results() {
    let mut hits = Vec::new();
    for i in 0..5 {
        hits.push(format!(
            "{{\"_source\":{{\"@timestamp\":\"2024-01-01T00:00:0{}Z\",\"level\":\"error\",\"message\":\"boom\"}}}}",
            i
        ));
    }
    let doc_text = format!("{{\"hits\":{{\"hits\":[{}]}}}}", hits.join(","));
    let doc: serde_json::Value = serde_json::from_str(&doc_text).unwrap();
    let entries = es_parse_response(&doc, 3).unwrap();
    assert_eq!(entries.len(), 3);
    assert_eq!(entries[0].level, Level::Error);
    assert_eq!(entries[0].message, "boom");
}

#[test]
fn test_es_parse_missing_message_aliases() {
    // a hit missing every known message-field alias still parses, with an
    // empty message, and is not dropped
    let doc: serde_json::Value = serde_json::from_str(
        "{\"hits\":{\"hits\":[{\"_source\":{\"@timestamp\":\"2024-01-01T00:00:00Z\",\"level\":\"warn\"}}]}}",
    )
    .unwrap();
    let entries = es_parse_response(&doc, 10).unwrap();
    assert_eq!(entries.len(), 1);
    assert_eq!(entries[0].message, "");
    assert_eq!(entries[0].level, Level::Warn);
}

#[test]
fn test_es_parse_bad_shape_is_decode_error() {
    let doc: serde_json::Value = serde_json::from_str("{\"unexpected\":true}").unwrap();
    assert!(es_parse_response(&doc, 10).is_err());
}

#[test]
fn test_build_search_body_simple() {
    let now = now_epoch_seconds();
    let q = query("error", 10);
    let filters = build_kibana_filters(&q, now);
    // the free-text match plus the always-present time window
    assert_eq!(filters.len(), 2);
    match &filters[0] {
        KibanaFilter::MultiMatch { query, fields } => {
            assert_eq!(query, "error");
            assert!(fields.is_empty());
        },
        _ => panic!("first filter must be the free-text match"),
    }
    match &filters[1] {
        KibanaFilter::TimeRange { .. } => {},
        _ => panic!("second filter must be the default time window"),
    }
    let json = build_kibana_filter_json(&q, now);
    let parsed: serde_json::Value = serde_json::from_str(&json).unwrap();
    assert_eq!(parsed.as_array().unwrap().len(), 2);
}

#[test]
fn test_build_search_body_with_filters() {
    let now = now_epoch_seconds();
    let q = LogQuery {
        query: "payment".to_string(),
        max_results: 50,
        start_time: Some("2024-01-01T00:00:00Z".to_string()),
        end_time: Some("2024-01-02T00:00:00Z".to_string()),
        level: Some("ERROR".to_string()),
        service: Some("vayu".to_string()),
        index_pattern: None,
    };
    let filters = build_kibana_filters(&q, now);
    assert!(filters.len() >= 2);
    assert_eq!(filters.len(), 4);
    let json = build_kibana_filter_json(&q, now);
    let parsed: serde_json::Value = serde_json::from_str(&json).unwrap();
    let arr = parsed.as_array().unwrap();
    assert_eq!(arr[1]["range"]["timestamp"]["gte"], "2024-01-01T00:00:00Z");
    assert_eq!(arr[2]["multi_match"]["query"], "ERROR");
}

#[test]
fn test_kibana_service_display_mapping() {
    assert_eq!(service_display("breeze-api-custom-pre-x"), "Vayu(Jockey) Preflight");
    assert_eq!(service_display("pod-breeze-api-7f"), "Vayu");
    assert_eq!(service_display("breeze-app-analytics-1"), "Nimble Analytics");
    assert_eq!(service_display("breeze-lighthouse-2"), "Lighthouse");
    assert_eq!(service_display("unrelated"), "unrelated");
}

#[test]
fn test_build_sql_query_simple() {
    let q = query("error", 10);
    let sql = build_sql_query("logs", &q);
    assert!(sql.contains("SELECT * FROM"));
    assert!(sql.contains("error"));
    assert!(sql.contains("LIMIT 10"));
}

#[test]
fn test_build_sql_query_with_filters() {
    let q = LogQuery {
        query: "*".to_string(),
        max_results: 50,
        start_time: None,
        end_time: None,
        level: Some("ERROR".to_string()),
        service: Some("api-service".to_string()),
        index_pattern: None,
    };
    let sql = build_sql_query("logs", &q);
    assert!(sql.contains("severity >= 17 AND severity <= 20"));
    assert!(sql.contains("service_name LIKE '%api-service%'"));
    assert!(sql.contains("LIMIT 50"));
}

#[test]
fn test_oo_parse_numeric_severity() {
    let doc: serde_json::Value = serde_json::from_str(
        "{\"hits\":[{\"severity\":18,\"body\":\"boom\",\"_timestamp\":1700000000000000,\"service_name\":\"api\"},{\"severity\":\"6\",\"body\":\"dbg\"},{\"body\":\"\",\"event\":\"analytics_event\",\"payload\":\"p\"}]}",
    )
    .unwrap();
    let entries = oo_parse_response(&doc, 10);
    assert_eq!(entries.len(), 3);
    assert_eq!(entries[0].level, Level::Error);
    assert_eq!(entries[0].message, "boom");
    assert_eq!(entries[0].service.as_deref(), Some("api"));
    assert_eq!(entries[1].level, Level::Debug);
    // default severity is an info-level value
    assert_eq!(entries[2].level, Level::Info);
    assert_eq!(entries[2].message, "[analytics_event] p");
}

#[test]
fn test_oo_parse_caps_at_max_results() {
    let mut hits = Vec::new();
    for _ in 0..300 {
        hits.push("{\"severity\":9,\"body\":\"x\"}".to_string());
    }
    let doc_text = format!("{{\"hits\":[{}]}}", hits.join(","));
    let doc: serde_json::Value = serde_json::from_str(&doc_text).unwrap();
    let entries = oo_parse_response(&doc, 200);
    assert_eq!(entries.len(), 200);
}

#[test]
fn test_cache_set_and_get() {
    let mut cache: Cache<String> = Cache::new(60_000);
    cache.set("key1".to_string(), "value1".to_string()).unwrap();
    let result = cache.get("key1");
    assert_eq!(result, Some("value1".to_string()));
}

#[test]
fn test_cache_expiry() {
    let mut cache: Cache<String> = Cache::new(100);
    cache.set_with_expiry("key1".to_string(), "value1".to_string(), 1_000);
    // live before the expiry instant
    assert!(cache.get_at("key1", 999).is_some());
    // expired at and after it
    assert!(cache.get_at("key1", 1_000).is_none());
    assert!(cache.get_at("key1", 2_000).is_none());
}

#[test]
fn test_cache_invalidate() {
    let mut cache: Cache<String> = Cache::new(60_000);
    cache.set("key1".to_string(), "value1".to_string()).unwrap();
    assert!(cache.get("key1").is_some());
    cache.invalidate("key1").unwrap();
    assert!(cache.get("key1").is_none());
}

#[test]
fn test_cache_clear() {
    let mut cache: Cache<String> = Cache::new(60_000);
    cache.set("key1".to_string(), "value1".to_string()).unwrap();
    cache.set("key2".to_string(), "value2".to_string()).unwrap();
    assert_eq!(cache.size(), 2);
    cache.clear().unwrap();
    assert_eq!(cache.size(), 0);
}

#[test]
fn test_cache_cleanup_expired() {
    let mut cache: Cache<String> = Cache::new(100);
    cache.set_with_expiry("key1".to_string(), "value1".to_string(), 1_000);
    cache.set_with_expiry("key2".to_string(), "value2".to_string(), 60_000);
    let removed = cache.cleanup_at(2_000);
    assert_eq!(removed, 1);
    assert_eq!(cache.size(), 1);
    assert!(cache.get_at("key2", 2_000).is_some());
}

#[test]
fn test_default_config_has_otel_server() {
    let config = Config::default_config();
    assert!(config.contains_server("otel-mcp-server"));
}

#[test]
fn test_otel_server_config() {
    let config = Config::default_config();
    let server = config.get_server("otel-mcp-server").unwrap();
    assert_eq!(server.command, "npx");
    assert_eq!(server.args, vec!["-y", "otel-mcp-server"]);
    assert!(server.env_contains("ELASTICSEARCH_URL"));
    assert_eq!(server.env_get("ELASTICSEARCH_URL").unwrap(), "http://localhost:9200");
}

#[test]
fn test_backend_types() {
    let config = Config::default_config();

    if let Some(LogBackend::Elasticsearch { url, .. }) = config.get_backend("elasticsearch") {
        assert_eq!(url, "http://localhost:9200");
    } else {
        panic!("Elasticsearch backend not found or wrong type");
    }

    if let Some(LogBackend::OpenObserve { url, organization, stream, .. }) =
        config.get_backend("openobserve")
    {
        assert_eq!(url, "http://localhost:5080");
        assert_eq!(organization, "default");
        assert_eq!(stream, "default");
    } else {
        panic!("OpenObserve backend not found or wrong type");
    }

    if let Some(LogBackend::Kibana { url, version, .. }) = config.get_backend("kibana") {
        assert_eq!(url, "http://localhost:5601");
        assert_eq!(version, "7.10.2");
    } else {
        panic!("Kibana backend not found or wrong type");
    }
}

#[test]
fn test_oo_query_window_defaults() {
    let now = now_epoch_seconds();
    let q = query("*", 10);
    let (start, end) = zeteo::openobserve::query_window(&q, now);
    assert_eq!(start, (now - 3600) * 1_000_000);
    assert_eq!(end, now * 1_000_000);

    let mut q2 = query("*", 10);
    q2.start_time = Some("1970-01-01T00:00:00+00:00".to_string());
    let (start2, _) = zeteo::openobserve::query_window(&q2, now);
    assert_eq!(start2, 0);
}

#[test]
fn test_kibana_full_body_envelope() {
    let now = now_epoch_seconds();
    let q = query("error", 10);
    let body = zeteo::kibana::build_kibana_body("breeze-v2*", &q, now);
    let parsed: serde_json::Value = serde_json::from_str(&body).unwrap();
    assert_eq!(parsed["params"]["index"], "breeze-v2*");
    assert_eq!(parsed["params"]["body"]["size"], 10);
    let filters = parsed["params"]["body"]["query"]["bool"]["filter"].as_array().unwrap();
    assert_eq!(filters.len(), 2);
    // the index override wins over the configured default
    let mut q2 = query("*", 5);
    q2.index_pattern = Some("logs-prod-*".to_string());
    let body2 = zeteo::kibana::build_kibana_body("breeze-v2*", &q2, now);
    let parsed2: serde_json::Value = serde_json::from_str(&body2).unwrap();
    assert_eq!(parsed2["params"]["index"], "logs-prod-*");
}

#[test]
fn test_oo_full_body_envelope() {
    let now = now_epoch_seconds();
    let q = query("error", 10);
    let body = zeteo::openobserve::build_oo_body("logs", &q, now);
    let parsed: serde_json::Value = serde_json::from_str(&body).unwrap();
    assert_eq!(parsed["query"]["size"], 10);
    assert_eq!(parsed["query"]["from"], 0);
    assert_eq!(parsed["query"]["start_time"], (now - 3600) * 1_000_000);
    assert_eq!(parsed["query"]["end_time"], now * 1_000_000);
    assert!(parsed["query"]["sql"].as_str().unwrap().contains("LIMIT 10"));
}

#[test]
fn test_cache_returns_matching_value() {
    let mut cache: Cache<String> = Cache::new(60_000);
    cache.set("key1".to_string(), "value1".to_string()).unwrap();
    cache.set("key2".to_string(), "value2".to_string()).unwrap();
    assert_eq!(cache.get("key1"), Some("value1".to_string()));
    assert_eq!(cache.get("key2"), Some("value2".to_string()));
    // overwriting keeps the size and replaces the value
    cache.set("key1".to_string(), "value3".to_string()).unwrap();
    assert_eq!(cache.size(), 2);
    assert_eq!(cache.get("key1"), Some("value3".to_string()));
}

#[test]
fn test_adapter_messages_truncated_with_ellipsis() {
    // every adapter truncates oversized messages to 500 characters
    let long = "y".repeat(600);
    let es_doc = format!(
        "{{\"hits\":{{\"hits\":[{{\"_source\":{{\"message\":\"{}\"}}}}]}}}}",
        long
    );
    let doc: serde_json::Value = serde_json::from_str(&es_doc).unwrap();
    let entries = es_parse_response(&doc, 10).unwrap();
    assert_eq!(entries[0].message.chars().count(), 503);
    assert!(entries[0].message.ends_with("..."));

    let oo_doc = format!("{{\"hits\":[{{\"severity\":9,\"body\":\"{}\"}}]}}", long);
    let doc2: serde_json::Value = serde_json::from_str(&oo_doc).unwrap();
    let entries2 = oo_parse_response(&doc2, 10);
    assert_eq!(entries2[0].message.chars().count(), 503);
    assert!(entries2[0].message.ends_with("..."));
}

#[test]
fn test_kibana_body_highlight_and_preference() {
    let now = now_epoch_seconds();
    let q = query("error", 10);
    let body = zeteo::kibana::build_kibana_body("breeze-v2*", &q, now);
    let parsed: serde_json::Value = serde_json::from_str(&body).unwrap();
    let highlight = &parsed["params"]["body"]["highlight"];
    assert_eq!(highlight["pre_tags"][0], "@kibana-highlighted-field@");
    assert_eq!(highlight["fragment_size"], 2147483647i64);
    assert_eq!(parsed["params"]["preference"], now * 1000);
}
