use zeteo::backends::LogEntry;
use zeteo::engine::{
    apply_loaded_session, assistant_indices, build_copy_text, dispatch_command,
    get_filtered_commands, is_auto_execute_command, CommandOutcome, Mode, SessionState,
    SlashCommit,
};
use zeteo::level::Level;
use zeteo::logs::{aggregate_logs, filter_logs, LogFilter};
use zeteo::mcp::{
    check_response_id, classify_line, encode_notification, encode_request,
    make_initialize_params, make_query_logs_arguments, make_tool_call_params,
    parse_response_line, scan_step, LineClass, McpSession, ScanState, ScanStep,
};
use zeteo::orchestrator::{
    build_followup_request, build_initial_request, decide_turn, record_tool_phase, record_user,
    TurnAction,
};
use zeteo::providers::{
    create_log_tools, to_wire_messages, ChatResponse, FunctionCall, Message, ToolCall,
};
use zeteo::session::{derive_title, messages_for_storage, sort_sessions, session_key,
    ConversationInfo, StoredMessage};
use zeteo::time::now_epoch_seconds;
use zeteo::tools::{plan_tool_call, summarize_query_result, ToolPlan};

fn entry(ts: &str, level: Level, msg: &str, service: Option<&str>) -> LogEntry {
    LogEntry {
        timestamp: ts.to_string(),
        level,
        message: msg.to_string(),
        service: service.map(|s| s.to_string()),
        trace_id: None,
        labels: Vec::new(),
    }
}

fn tool_call(id: &str, name: &str, arguments: &str) -> ToolCall {
    ToolCall {
        id: id.to_string(),
        call_type: "function".to_string(),
        function: FunctionCall { name: name.to_string(), arguments: arguments.to_string() },
    }
}

#[test]
fn test_slash_filtering_prefix_and_shortcut() {
    // a pure prefix match
    let all = get_filtered_commands("");
    assert_eq!(all.len(), 7);
    let ba = get_filtered_commands("ba");
    assert_eq!(ba.len(), 1);
    assert_eq!(ba[0].name, "backend");
    // a shortcut match: "y" is copy's shortcut, and prefixes no name
    let y = get_filtered_commands("y");
    assert_eq!(y.len(), 1);
    assert_eq!(y[0].name, "copy");
    // case-insensitive
    let up = get_filtered_commands("QU");
    assert_eq!(up.len(), 1);
    assert_eq!(up[0].name, "quit");
    // an unmatched filter yields zero candidates, without error
    let none = get_filtered_commands("zz");
    assert_eq!(none.len(), 0);
}

#[test]
fn test_auto_execute_split() {
    for c in ["quit", "clear", "help", "resume", "copy"] {
        assert!(is_auto_execute_command(c));
    }
    assert!(!is_auto_execute_command("backend"));
    assert!(!is_auto_execute_command("index"));
}

#[test]
fn test_editing_and_paste_flattening() {
    let mut st = SessionState::new();
    st.insert_char('h');
    st.insert_char('i');
    assert_eq!(st.input, vec!['h', 'i']);
    st.cursor_left();
    st.insert_char('e');
    assert_eq!(st.input, vec!['h', 'e', 'i']);
    st.backspace();
    assert_eq!(st.input, vec!['h', 'i']);
    st.cursor_end();
    st.paste("a\r\nb\nc");
    // carriage returns vanish, newlines flatten to spaces
    assert_eq!(st.input, vec!['h', 'i', 'a', ' ', 'b', ' ', 'c']);
}

#[test]
fn test_slash_modal_flow() {
    let mut st = SessionState::new();
    st.open_slash_modal();
    assert!(matches!(st.mode, Mode::SlashModal { .. }));
    st.slash_char('q');
    match st.slash_enter() {
        SlashCommit::Auto(name) => assert_eq!(name, "quit"),
        _ => panic!("q must commit the auto-executing quit command"),
    }
    assert!(matches!(st.mode, Mode::Idle));
    assert!(st.input.is_empty());

    // an argument-taking command pre-fills the buffer
    let mut st2 = SessionState::new();
    st2.open_slash_modal();
    st2.slash_char('b');
    match st2.slash_enter() {
        SlashCommit::Prefill(name) => assert_eq!(name, "backend"),
        _ => panic!("b must commit the argument-taking backend command"),
    }
    let buf: String = st2.input.iter().collect();
    assert_eq!(buf, "/backend ");

    // escape on a lone slash clears the buffer
    let mut st3 = SessionState::new();
    st3.open_slash_modal();
    st3.slash_escape();
    assert!(st3.input.is_empty());
    assert!(matches!(st3.mode, Mode::Idle));
}

#[test]
fn test_resume_with_zero_sessions_shows_message_not_modal() {
    // `/resume` with zero stored sessions shows an informational message and
    // does not open the modal
    let mut st = SessionState::new();
    let mut history: Vec<Message> = Vec::new();
    st.apply_sessions_list(&mut history, Vec::new());
    assert!(matches!(st.mode, Mode::Idle));
    assert_eq!(history.len(), 1);
    assert_eq!(history[0].role, "assistant");
    assert_eq!(history[0].content, "No previous conversations found.");

    let sessions = vec![ConversationInfo {
        id: "s1".to_string(),
        title: "t".to_string(),
        created_at: 1,
        updated_at: 2,
        message_count: 4,
    }];
    let mut st2 = SessionState::new();
    let mut history2: Vec<Message> = Vec::new();
    st2.apply_sessions_list(&mut history2, sessions);
    assert!(matches!(st2.mode, Mode::ResumeModal { .. }));
    assert!(history2.is_empty());
    let id = st2.resume_enter();
    assert_eq!(id, "s1");
    assert!(matches!(st2.mode, Mode::Idle));
}

#[test]
fn test_dispatch_unknown_and_quit() {
    let mut st = SessionState::new();
    let mut history: Vec<Message> = Vec::new();
    let names = vec!["kibana".to_string(), "openobserve".to_string()];
    let out = dispatch_command(&mut st, &mut history, "/bogus", &names, &None, false);
    assert!(matches!(out, CommandOutcome::Unknown));
    assert_eq!(history.len(), 1);
    assert_eq!(history[0].role, "error");
    assert_eq!(history[0].content, "Unknown command: /bogus. Type /help for available commands.");

    let out2 = dispatch_command(&mut st, &mut history, "/quit", &names, &None, false);
    assert!(matches!(out2, CommandOutcome::Quit));
    let out3 = dispatch_command(&mut st, &mut history, "/q", &names, &None, false);
    assert!(matches!(out3, CommandOutcome::Quit));
}

#[test]
fn test_dispatch_backend_switch_and_index() {
    let mut st = SessionState::new();
    let mut history: Vec<Message> = Vec::new();
    let names = vec!["kibana".to_string(), "openobserve".to_string()];
    let out = dispatch_command(&mut st, &mut history, "/backend KIBANA", &names, &None, false);
    match out {
        CommandOutcome::SwitchBackend(n) => assert_eq!(n, "kibana"),
        _ => panic!("known backend must switch"),
    }
    let out2 = dispatch_command(&mut st, &mut history, "/backend nosuch", &names, &None, false);
    assert!(matches!(out2, CommandOutcome::BackendNotFound));

    let out3 = dispatch_command(&mut st, &mut history, "/index logs-prod-*", &names, &None, false);
    match out3 {
        CommandOutcome::IndexSet(p) => assert_eq!(p, "logs-prod-*"),
        _ => panic!("index with an argument must set the pattern"),
    }
    assert_eq!(st.index_pattern.as_deref(), Some("logs-prod-*"));

    let out4 = dispatch_command(&mut st, &mut history, "/resume", &names, &None, false);
    assert!(matches!(out4, CommandOutcome::ResumeUnavailable));
    let out5 = dispatch_command(&mut st, &mut history, "/resume", &names, &None, true);
    assert!(matches!(out5, CommandOutcome::RequestSessions));
}

#[test]
fn test_message_selection_and_copy_text() {
    let mut history: Vec<Message> = Vec::new();
    record_user(&mut history, "question".to_string());
    zeteo::orchestrator::record_assistant(&mut history, "answer".to_string());
    zeteo::orchestrator::record_assistant(&mut history, String::new());
    let idx = assistant_indices(&history);
    assert_eq!(idx, vec![1]);
    let text = build_copy_text(&Some("question".to_string()), "answer");
    assert_eq!(text, "## Prompt\n\nquestion\n\n## Response\n\nanswer");
    assert_eq!(build_copy_text(&None, "answer"), "answer");
}

#[test]
fn test_tool_phase_answers_every_call_exactly_once() {
    // for every tool call of an assistant message, exactly one matching
    // tool-role message stands in the transcript before the follow-up
    let mut history: Vec<Message> = Vec::new();
    record_user(&mut history, "check the logs".to_string());
    let calls = vec![
        tool_call("call_1", "query_logs", "{\"query\":\"error\"}"),
        tool_call("call_2", "list_services", "{}"),
    ];
    let results = vec!["r1".to_string(), "r2".to_string()];
    record_tool_phase(&mut history, String::new(), calls, results);
    assert_eq!(history.len(), 4);
    assert_eq!(history[1].role, "assistant");
    assert_eq!(history[1].tool_calls.as_ref().unwrap().len(), 2);
    assert_eq!(history[2].role, "tool");
    assert_eq!(history[2].tool_call_id.as_deref(), Some("call_1"));
    assert_eq!(history[2].content, "r1");
    assert_eq!(history[3].role, "tool");
    assert_eq!(history[3].tool_call_id.as_deref(), Some("call_2"));
    for id in ["call_1", "call_2"] {
        let answers = history
            .iter()
            .filter(|m| m.role == "tool" && m.tool_call_id.as_deref() == Some(id))
            .count();
        assert_eq!(answers, 1, "never zero, never two");
    }
}

#[test]
fn test_scenario_tool_calling_turn() {
    // "show me errors in the last hour" with a configured backend
    let mut history: Vec<Message> = Vec::new();
    record_user(&mut history, "show me errors in the last hour".to_string());

    // the initial provider call carries the tool schemas
    let tools = create_log_tools();
    assert_eq!(tools.len(), 3);
    let req = build_initial_request(&history, "system prompt", Some(tools));
    assert!(req.tools.is_some());
    assert_eq!(req.messages[0].role, "system");
    assert_eq!(req.messages[1].role, "user");

    // the model requests query_logs{query:"error", start_time:"1h"}
    let response = ChatResponse {
        content: String::new(),
        model: "m".to_string(),
        tool_calls: Some(vec![tool_call(
            "call_1",
            "query_logs",
            "{\"query\":\"error\",\"start_time\":\"1h\"}",
        )]),
    };
    let calls = match decide_turn(&response, true) {
        TurnAction::RunTools(calls) => calls,
        TurnAction::Final => panic!("a tool phase must run"),
    };
    assert_eq!(calls.len(), 1);

    // the executor resolves start_time to about one hour before now
    let now = now_epoch_seconds();
    let plan = plan_tool_call(&calls[0].function.name, &calls[0].function.arguments, now, None)
        .expect("query_logs must be recognized");
    let q = match plan {
        ToolPlan::QueryLogs(q) => q,
        _ => panic!("the plan must be a log query"),
    };
    assert_eq!(q.query, "error");
    let start = q.start_time.expect("start time resolves");
    let micros = zeteo::time::parse_rfc3339_micros(&start).unwrap();
    assert!(((micros / 1_000_000) - (now - 3600)).abs() <= 1);

    // the backend answers; the summary's level distribution shows ERROR
    let entries = vec![
        entry("2024-01-01T00:00:00Z", Level::Error, "boom", Some("api")),
        entry("2024-01-01T00:01:00Z", Level::Error, "bang", Some("api")),
    ];
    let summary = summarize_query_result(&entries, q.max_results);
    assert_eq!(summary.total_count, 2);
    assert!(summary.level_distribution.error > 0);

    // exactly one follow-up call, without tool schemas
    record_tool_phase(&mut history, String::new(), calls, vec!["summary-json".to_string()]);
    let followup = build_followup_request(&history, "system prompt");
    assert!(followup.tools.is_none());

    // the final assistant message is appended
    zeteo::orchestrator::record_assistant(&mut history, "two errors in the last hour".to_string());
    assert_eq!(history.last().unwrap().role, "assistant");
    assert_eq!(history.last().unwrap().content, "two errors in the last hour");
}

#[test]
fn test_decide_turn_without_executor() {
    let response = ChatResponse {
        content: "plain".to_string(),
        model: "m".to_string(),
        tool_calls: Some(vec![tool_call("c", "query_logs", "{}")]),
    };
    assert!(matches!(decide_turn(&response, false), TurnAction::Final));
    let empty = ChatResponse {
        content: "plain".to_string(),
        model: "m".to_string(),
        tool_calls: None,
    };
    assert!(matches!(decide_turn(&empty, true), TurnAction::Final));
}

#[test]
fn test_wire_content_rule() {
    let msgs = vec![
        Message {
            role: "assistant".to_string(),
            content: String::new(),
            tool_calls: Some(vec![tool_call("c", "query_logs", "{}")]),
            tool_call_id: None,
        },
        Message {
            role: "user".to_string(),
            content: String::new(),
            tool_calls: None,
            tool_call_id: None,
        },
    ];
    let wire = to_wire_messages(&msgs);
    // only an assistant message carrying tool calls may drop its content
    assert!(wire[0].content.is_none());
    assert_eq!(wire[1].content.as_deref(), Some(""));
}

#[test]
fn test_error_role_is_not_sent_to_provider() {
    let mut history: Vec<Message> = Vec::new();
    record_user(&mut history, "hi".to_string());
    zeteo::orchestrator::record_error(&mut history, "backend exploded".to_string());
    let req = build_followup_request(&history, "sys");
    assert_eq!(req.messages.len(), 2);
    assert_eq!(req.messages[0].role, "system");
    assert_eq!(req.messages[1].role, "user");
}

#[test]
fn test_plan_unknown_tool_and_bad_arguments() {
    let now = now_epoch_seconds();
    assert!(plan_tool_call("nonsense", "{}", now, None).is_err());
    assert!(plan_tool_call("query_logs", "not json", now, None).is_err());
    assert!(plan_tool_call("query_logs", "{\"no_query\":1}", now, None).is_err());
    match plan_tool_call("list_services", "{}", now, None).unwrap() {
        ToolPlan::ListServices(q) => {
            assert_eq!(q.query, "*");
            assert_eq!(q.max_results, 100);
            assert!(q.start_time.is_some());
        },
        _ => panic!("list_services must plan its discovery query"),
    }
}

#[test]
fn test_parse_query_logs_args() {
    let json = "{\"query\": \"error\", \"max_results\": 100, \"level\": \"ERROR\"}";
    let args = zeteo::tools::parse_query_logs_args(json).unwrap();
    assert_eq!(args.query, "error");
    assert_eq!(args.max_results, 100);
    assert_eq!(args.level, Some("ERROR".to_string()));
}

#[test]
fn test_default_max_results() {
    let json = "{\"query\": \"test\"}";
    let args = zeteo::tools::parse_query_logs_args(json).unwrap();
    assert_eq!(args.max_results, 50);
}

#[test]
fn test_summarize_truncates_messages() {
    let long = "x".repeat(600);
    let entries = vec![entry("t", Level::Info, &long, None)];
    let summary = summarize_query_result(&entries, 50);
    assert_eq!(summary.logs.len(), 1);
    assert_eq!(summary.logs[0].message.chars().count(), 503);
    assert!(summary.logs[0].message.ends_with("..."));
    let range = summary.time_range.unwrap();
    assert_eq!(range.start, "t");
    assert_eq!(range.end, "t");
}

#[test]
fn test_summarize_caps_and_distinct_services() {
    let entries = vec![
        entry("2024-01-01T00:00:00Z", Level::Error, "a", Some("api")),
        entry("2024-01-01T00:02:00Z", Level::Warn, "b", Some("worker")),
        entry("2024-01-01T00:01:00Z", Level::Error, "c", Some("api")),
    ];
    let summary = summarize_query_result(&entries, 2);
    assert_eq!(summary.total_count, 3);
    assert_eq!(summary.logs.len(), 2);
    assert_eq!(summary.level_distribution.error, 2);
    assert_eq!(summary.level_distribution.warn, 1);
    assert_eq!(summary.services, vec!["api", "worker"]);
    let range = summary.time_range.unwrap();
    assert_eq!(range.start, "2024-01-01T00:00:00Z");
    assert_eq!(range.end, "2024-01-01T00:02:00Z");
}

#[test]
fn test_log_aggregation() {
    let entries = vec![
        entry("2024-01-01T00:00:00Z", Level::Error, "Error 1", Some("api")),
        entry("2024-01-01T00:01:00Z", Level::Error, "Error 2", Some("api")),
        entry("2024-01-01T00:02:00Z", Level::Warn, "Warning 1", Some("worker")),
    ];
    let agg = aggregate_logs(&entries);
    assert_eq!(agg.total_count, 3);
    assert_eq!(agg.level_counts.error, 2);
    assert_eq!(agg.level_counts.warn, 1);
    let api = agg.service_counts.iter().find(|(s, _)| s == "api").unwrap();
    assert_eq!(api.1, 2);
    let worker = agg.service_counts.iter().find(|(s, _)| s == "worker").unwrap();
    assert_eq!(worker.1, 1);
    let range = agg.time_range.unwrap();
    assert_eq!(range.start, "2024-01-01T00:00:00Z");
    assert_eq!(range.end, "2024-01-01T00:02:00Z");
}

#[test]
fn test_log_filter_application() {
    let entries = vec![
        entry("2024-01-01T00:00:00Z", Level::Error, "Database connection failed", Some("api")),
        entry("2024-01-01T00:01:00Z", Level::Info, "Request completed successfully", Some("api")),
        entry("2024-01-01T00:02:00Z", Level::Error, "Timeout occurred", Some("worker")),
    ];
    let mut f = LogFilter::default();
    f.contains = Some("failed".to_string());
    let hits = filter_logs(entries.clone(), &f);
    assert_eq!(hits.len(), 1);
    assert_eq!(hits[0].message, "Database connection failed");

    let mut by_level = LogFilter::default();
    by_level.level = Some("error".to_string());
    assert_eq!(filter_logs(entries.clone(), &by_level).len(), 2);

    let mut by_service = LogFilter::default();
    by_service.service = Some("worker".to_string());
    assert_eq!(filter_logs(entries, &by_service).len(), 1);
}

#[test]
fn test_csv_line_sanitizes() {
    let e = entry("t1", Level::Warn, "a,b\nc", Some("svc"));
    assert_eq!(zeteo::logs::csv_line(&e), "t1,WARN,a;b c,svc,");
}

#[test]
fn test_lowercase_helper_folds() {
    // the case-folding call must not hand its argument back unchanged
    assert_eq!(zeteo::logs::lowercase("AbC"), "abc");
    assert_eq!(zeteo::logs::lowercase(""), "");
}

#[test]
fn test_request_serialization() {
    let line = encode_request(1, "test", &Some("{\"key\":\"value\"}".to_string()));
    assert!(line.contains("\"jsonrpc\":\"2.0\""));
    assert!(line.contains("\"method\":\"test\""));
    assert_eq!(line, "{\"jsonrpc\":\"2.0\",\"id\":1,\"method\":\"test\",\"params\":{\"key\":\"value\"}}");
}

#[test]
fn test_response_deserialization() {
    let json = "{\"jsonrpc\":\"2.0\",\"id\":1,\"result\":{\"data\":\"test\"}}";
    let response = parse_response_line(json).unwrap();
    assert_eq!(response.jsonrpc, "2.0");
    assert_eq!(response.id, 1);
    assert!(response.result.is_some());
    assert!(response.error.is_none());
}

#[test]
fn test_error_response_deserialization() {
    let json = "{\"jsonrpc\":\"2.0\",\"id\":1,\"error\":{\"code\":-32600,\"message\":\"Invalid request\"}}";
    let response = parse_response_line(json).unwrap();
    assert_eq!(response.jsonrpc, "2.0");
    assert_eq!(response.id, 1);
    assert!(response.result.is_none());
    assert!(response.error.is_some());
    let error = response.error.unwrap();
    assert_eq!(error.code, -32600);
    assert_eq!(error.message, "Invalid request");
}

#[test]
fn test_mcp_request_serialization() {
    let params = make_initialize_params();
    assert!(params.contains("\"protocolVersion\":\"2024-11-05\""));
    assert!(params.contains("\"name\":\"zeteo-cli\""));
    assert!(params.contains("\"version\":\"0.1.0\""));
    let line = encode_request(1, "initialize", &Some(params));
    assert!(line.contains("\"jsonrpc\":\"2.0\""));
    assert!(line.contains("\"method\":\"initialize\""));
    assert!(line.contains("\"id\":1"));
}

#[test]
fn test_tool_call_request_format() {
    let arguments = make_query_logs_arguments("error", 10);
    let params = make_tool_call_params("query_logs", &arguments);
    let line = encode_request(2, "tools/call", &Some(params));
    assert!(line.contains("\"method\":\"tools/call\""));
    assert!(line.contains("\"name\":\"query_logs\""));
    assert!(line.contains("\"query\":\"error\""));
    assert!(line.contains("\"maxResults\":10"));
}

#[test]
fn test_mcp_line_scan_and_handshake() {
    assert!(matches!(classify_line("   "), LineClass::Blank));
    assert!(matches!(classify_line("log: starting up"), LineClass::Diagnostic));
    assert!(matches!(classify_line("  {\"jsonrpc\":\"2.0\"}"), LineClass::Candidate));

    // the scan gives up after the bounded number of skipped lines
    let mut st = ScanState { attempts: 0 };
    let mut failed = false;
    for _ in 0..12 {
        match scan_step(st, "noise") {
            ScanStep::Skip(next) => st = next,
            ScanStep::Fail(_) => {
                failed = true;
                break;
            },
            ScanStep::Accept => panic!("noise is never accepted"),
        }
    }
    assert!(failed, "the scan must fail rather than block indefinitely");
    assert!(matches!(scan_step(ScanState { attempts: 0 }, "{\"x\":1}"), ScanStep::Accept));

    // ids are unique and increasing; calls before the handshake fail
    let mut session = McpSession::new();
    assert!(session.require_initialized().is_err());
    let a = session.next_request_id();
    let b = session.next_request_id();
    assert!(b > a);
    session.mark_initialized();
    assert!(session.require_initialized().is_ok());

    let resp = parse_response_line("{\"jsonrpc\":\"2.0\",\"id\":7,\"result\":{}}").unwrap();
    assert!(check_response_id(&resp, 7).is_ok());
    assert!(check_response_id(&resp, 8).is_err());
}

#[test]
fn test_notification_encoding() {
    let line = encode_notification("notifications/initialized", &None);
    assert_eq!(
        line,
        "{\"jsonrpc\":\"2.0\",\"method\":\"notifications/initialized\",\"params\":null}"
    );
}

#[test]
fn test_session_title_and_sorting() {
    let msgs = vec![
        StoredMessage { role: "assistant".to_string(), content: "welcome".to_string() },
        StoredMessage { role: "user".to_string(), content: "x".repeat(60) },
    ];
    let title = derive_title(&msgs);
    assert_eq!(title.chars().count(), 53);
    assert!(title.ends_with("..."));
    assert_eq!(derive_title(&Vec::new()), "New conversation");
    assert_eq!(session_key("abc"), "zeteo:session:abc");

    let mut sessions = Vec::new();
    for i in 0..25 {
        sessions.push(ConversationInfo {
            id: format!("s{}", i),
            title: "t".to_string(),
            created_at: i,
            updated_at: i,
            message_count: 1,
        });
    }
    let sorted = sort_sessions(sessions);
    assert_eq!(sorted.len(), 20);
    assert_eq!(sorted[0].updated_at, 24);
    for w in sorted.windows(2) {
        assert!(w[0].updated_at >= w[1].updated_at);
    }
}

#[test]
fn test_storage_roles_and_resume() {
    let mut history: Vec<Message> = Vec::new();
    record_user(&mut history, "q".to_string());
    record_tool_phase(
        &mut history,
        String::new(),
        vec![tool_call("c1", "query_logs", "{}")],
        vec!["r".to_string()],
    );
    zeteo::orchestrator::record_assistant(&mut history, "a".to_string());
    let stored = messages_for_storage(&history);
    // only user and assistant turns persist
    assert_eq!(stored.len(), 3);
    assert_eq!(stored[0].role, "user");
    assert_eq!(stored[1].role, "assistant");
    assert_eq!(stored[2].role, "assistant");

    let mut fresh: Vec<Message> = Vec::new();
    apply_loaded_session(&mut fresh, stored);
    assert_eq!(fresh.len(), 3);
    assert_eq!(fresh[0].role, "user");
    assert_eq!(fresh[0].content, "q");
    assert!(fresh[0].tool_calls.is_none());
}

#[test]
fn test_mcp_log_result_parsing() {
    let result: serde_json::Value = serde_json::from_str(
        "{\"logs\":[{\"timestamp\":\"2024-01-01T00:00:00Z\",\"level\":\"error\",\"message\":\"boom\",\"service\":\"api\"},{\"level\":\"warn\"}]}",
    )
    .unwrap();
    let entries = zeteo::mcp::parse_log_result(&result, 10);
    assert_eq!(entries.len(), 2);
    assert_eq!(entries[0].level, Level::Error);
    assert_eq!(entries[0].message, "boom");
    // missing aliases still parse, with empty fields
    assert_eq!(entries[1].message, "");
    assert_eq!(entries[1].timestamp, "");
    assert_eq!(zeteo::mcp::parse_log_result(&result, 1).len(), 1);
}

#[test]
fn test_mcp_tool_list_parsing() {
    let result: serde_json::Value = serde_json::from_str(
        "{\"tools\":[{\"name\":\"query_logs\",\"description\":\"d\"},{\"nameless\":true}]}",
    )
    .unwrap();
    let tools = zeteo::mcp::parse_tool_list(&result).unwrap();
    assert_eq!(tools.len(), 1);
    assert_eq!(tools[0].name, "query_logs");
}

#[test]
fn test_mcp_request_encode_method() {
    let req = zeteo::mcp::McpRequest {
        jsonrpc: "2.0".to_string(),
        id: 3,
        method: "tools/list".to_string(),
        params: None,
    };
    assert_eq!(req.encode(), "{\"jsonrpc\":\"2.0\",\"id\":3,\"method\":\"tools/list\"}");
}

#[test]
fn test_argument_parse_iff() {
    // a present-but-wrong-typed optional field fails the call, as serde would
    assert!(zeteo::tools::parse_query_logs_args("{\"query\":\"e\",\"level\":5}").is_err());
    assert!(zeteo::tools::parse_query_logs_args("{\"query\":\"e\",\"max_results\":\"x\"}").is_err());
    assert!(zeteo::tools::parse_query_logs_args("{\"query\":5}").is_err());
    assert!(zeteo::tools::parse_query_logs_args("{}").is_err());
    assert!(zeteo::tools::parse_query_logs_args("not json").is_err());
    let ok = zeteo::tools::parse_query_logs_args("{\"query\":\"e\",\"level\":\"ERROR\"}").unwrap();
    assert_eq!(ok.query, "e");
    assert_eq!(ok.level.as_deref(), Some("ERROR"));

    assert!(zeteo::tools::parse_stats_args("not json").is_err());
    assert!(zeteo::tools::parse_stats_args("{\"start_time\":5}").is_err());
    let stats = zeteo::tools::parse_stats_args("{\"start_time\":\"1h\"}").unwrap();
    assert_eq!(stats.start_time.as_deref(), Some("1h"));
}

#[test]
fn test_dispatch_forward_implications() {
    let mut st = SessionState::new();
    let mut history: Vec<Message> = Vec::new();
    let names = vec!["kibana".to_string()];
    assert!(matches!(
        dispatch_command(&mut st, &mut history, "/h", &names, &None, false),
        CommandOutcome::HelpShown
    ));
    assert!(matches!(
        dispatch_command(&mut st, &mut history, "/c", &names, &None, false),
        CommandOutcome::Cleared
    ));
    assert!(matches!(
        dispatch_command(&mut st, &mut history, "/y", &names, &None, false),
        CommandOutcome::Copy
    ));
    assert!(matches!(
        dispatch_command(&mut st, &mut history, "/index", &names, &None, false),
        CommandOutcome::IndexShown
    ));
    assert!(matches!(
        dispatch_command(&mut st, &mut history, "/backend", &names, &None, false),
        CommandOutcome::BackendList
    ));
    assert!(matches!(
        dispatch_command(&mut st, &mut history, "//quit", &names, &None, false),
        CommandOutcome::Quit
    ));
    assert!(matches!(
        dispatch_command(&mut st, &mut history, "/   ", &names, &None, false),
        CommandOutcome::Nothing
    ));
    // the switch confirmation is no longer recorded by the dispatcher itself
    let before = history.len();
    let out = dispatch_command(&mut st, &mut history, "/b kibana", &names, &None, false);
    assert!(matches!(out, CommandOutcome::SwitchBackend(_)));
    assert_eq!(history.len(), before);
    zeteo::engine::record_backend_switched(&mut history, "kibana");
    assert_eq!(history.last().unwrap().content, "Switched to **kibana** backend");
}

#[test]
fn test_sort_sessions_keeps_most_recent() {
    let mut sessions = Vec::new();
    for i in 0..30 {
        sessions.push(ConversationInfo {
            id: format!("s{}", i),
            title: "t".to_string(),
            created_at: i,
            updated_at: i,
            message_count: 1,
        });
    }
    let sorted = sort_sessions(sessions);
    assert_eq!(sorted.len(), 20);
    // the 20 kept are exactly the most recently updated ones
    assert_eq!(sorted.first().unwrap().updated_at, 29);
    assert_eq!(sorted.last().unwrap().updated_at, 10);
}

#[test]
fn test_tool_schemas_pinned() {
    let tools = create_log_tools();
    assert!(tools[0].function.parameters.contains("\"required\":[\"query\"]"));
    assert!(tools[0].function.parameters.contains("\"default\":50"));
    assert_eq!(tools[1].function.description, "List available services in the log backend");
    // every declared schema parses as JSON
    for t in &tools {
        assert!(serde_json::from_str::<serde_json::Value>(&t.function.parameters).is_ok());
    }
}

#[test]
fn test_summary_keeps_empty_service_discovery_drops_it() {
    let entries = vec![
        entry("t1", Level::Info, "a", Some("")),
        entry("t2", Level::Info, "b", Some("api")),
        entry("t3", Level::Info, "c", Some("api")),
    ];
    // the query summary lists every distinct service seen, "" included
    let summary = summarize_query_result(&entries, 10);
    assert_eq!(summary.services, vec!["", "api"]);
    // the discovery list reduces to the distinct non-empty values
    let discovered = zeteo::tools::distinct_nonempty_services(&entries);
    assert_eq!(discovered, vec!["api"]);
}
