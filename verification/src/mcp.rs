//! The subprocess JSON-RPC client's protocol logic: newline-delimited
//! request framing, the bounded skip-non-JSON line scan, response id
//! checking, and the handshake state. The process itself and its stdio live
//! outside; every decision on the bytes is made here.

use vstd::prelude::*;
use vstd::string::StrSliceExecFns;
use vstd::string::StringExecFns;
use crate::text::spec_dec;
use crate::text::u64_to_dec;
use crate::text::usize_to_dec;
use crate::json::spec_json_string;
use crate::json::append_json_string;
use crate::json::parse_json;
use crate::json::json_get;
use crate::json::json_as_str;
use crate::json::json_as_u64;
use crate::json::json_as_i64;
use crate::json::json_as_array;

verus! {

/// One JSON-RPC request: protocol version, unique id, method, and the
/// params object as JSON text.
#[derive(Clone, Debug)]
pub struct McpRequest {
    pub jsonrpc: String,
    pub id: u64,
    pub method: String,
    pub params: Option<String>,
}

/// A JSON-RPC error object.
#[derive(Debug)]
pub struct McpError {
    pub code: i32,
    pub message: String,
    pub data: Option<serde_json::Value>,
}

/// One JSON-RPC response: the echoed id, and a result or an error.
#[derive(Debug)]
pub struct McpResponse {
    pub jsonrpc: String,
    pub id: u64,
    pub result: Option<serde_json::Value>,
    pub error: Option<McpError>,
}

/// Why a call failed: the transport broke or gave up, the peer broke
/// protocol (malformed JSON, wrong id, missing fields), the client was used
/// before its handshake, or the peer answered with an error object.
#[derive(Debug)]
pub enum McpClientError {
    Transport(String),
    Protocol(String),
    NotInitialized,
    Remote { code: i32, message: String },
}

/// The wire line of a request (without the trailing newline): compact JSON
/// with `jsonrpc`, `id`, `method`, and the params exactly when present.
pub open spec fn spec_encode_request(id: int, method: Seq<char>, params: Option<Seq<char>>) -> Seq<
    char,
> {
    "{\"jsonrpc\":\"2.0\",\"id\":"@ + spec_dec(id as nat) + ",\"method\":"@ + spec_json_string(
        method,
    ) + (match params {
        Some(p) => ",\"params\":"@ + p,
        None => Seq::empty(),
    }) + "}"@
}

/// Frames a request as its wire line.
pub fn encode_request(id: u64, method: &str, params: &Option<String>) -> (r: String)
    ensures
        r@ == spec_encode_request(
            id as int,
            method@,
            match params {
                Some(p) => Some(p@),
                None => None,
            },
        ),
{
    let mut out = String::new();
    out.append("{\"jsonrpc\":\"2.0\",\"id\":");
    let dec = u64_to_dec(id);
    out.append(dec.as_str());
    out.append(",\"method\":");
    append_json_string(&mut out, method);
    match params {
        Some(p) => {
            out.append(",\"params\":");
            out.append(p.as_str());
        },
        None => {},
    }
    out.append("}");
    assert(out@ =~= spec_encode_request(
        id as int,
        method@,
        match params {
            Some(p) => Some(p@),
            None => None,
        },
    ));
    out
}

impl McpRequest {
    /// Frames this request as its wire line.
    pub fn encode(&self) -> (r: String)
        ensures
            r@ == spec_encode_request(
                self.id as int,
                self.method@,
                crate::backends::view_opt(self.params),
            ),
    {
        encode_request(self.id, self.method.as_str(), &self.params)
    }
}

/// The wire line of a notification: like a request, but without an id, and
/// with a literal `null` for absent params.
pub open spec fn spec_encode_notification(method: Seq<char>, params: Option<Seq<char>>) -> Seq<
    char,
> {
    "{\"jsonrpc\":\"2.0\",\"method\":"@ + spec_json_string(method) + ",\"params\":"@ + (
    match params {
        Some(p) => p,
        None => "null"@,
    }) + "}"@
}

/// Frames a notification as its wire line; no response is expected for it.
pub fn encode_notification(method: &str, params: &Option<String>) -> (r: String)
    ensures
        r@ == spec_encode_notification(
            method@,
            match params {
                Some(p) => Some(p@),
                None => None,
            },
        ),
{
    let mut out = String::new();
    out.append("{\"jsonrpc\":\"2.0\",\"method\":");
    append_json_string(&mut out, method);
    out.append(",\"params\":");
    match params {
        Some(p) => out.append(p.as_str()),
        None => out.append("null"),
    }
    out.append("}");
    assert(out@ =~= spec_encode_notification(
        method@,
        match params {
            Some(p) => Some(p@),
            None => None,
        },
    ));
    out
}

/// True of the whitespace characters the line scanner ignores.
pub open spec fn spec_is_ws(c: char) -> bool {
    c == ' ' || c == '\t' || c == '\n' || c == '\r'
}

/// The first non-whitespace character of a line, if any.
pub open spec fn spec_first_non_ws(s: Seq<char>) -> Option<char>
    decreases s.len(),
{
    if s.len() == 0 {
        None
    } else if spec_is_ws(s[0]) {
        spec_first_non_ws(s.skip(1))
    } else {
        Some(s[0])
    }
}

proof fn lemma_first_non_ws_skip(s: Seq<char>, i: int)
    requires
        0 <= i <= s.len(),
        forall|j: int| 0 <= j < i ==> spec_is_ws(#[trigger] s[j]),
    ensures
        spec_first_non_ws(s) == spec_first_non_ws(s.skip(i)),
    decreases i,
{
    if i > 0 {
        assert(spec_is_ws(s[0]));
        assert(spec_first_non_ws(s) == spec_first_non_ws(s.skip(1)));
        assert(s.skip(1).len() == s.len() - 1);
        assert(forall|j: int| 0 <= j < i - 1 ==> spec_is_ws(#[trigger] s.skip(1)[j]));
        lemma_first_non_ws_skip(s.skip(1), i - 1);
        assert(s.skip(1).skip(i - 1) =~= s.skip(i));
    } else {
        assert(s.skip(0) =~= s);
    }
}

/// How the line scanner reads one stdout line: blank lines and lines whose
/// first visible character is not `{` are incidental output to skip; a line
/// opening with `{` is the response candidate.
pub enum LineClass {
    Blank,
    Diagnostic,
    Candidate,
}

/// Classifies one stdout line.
pub fn classify_line(line: &str) -> (r: LineClass)
    ensures
        match spec_first_non_ws(line@) {
            None => r is Blank,
            Some(c) => if c == '{' {
                r is Candidate
            } else {
                r is Diagnostic
            },
        },
{
    let n = line.unicode_len();
    let mut i: usize = 0;
    while i < n
        invariant
            0 <= i <= n,
            n == line@.len(),
            forall|j: int| 0 <= j < i ==> spec_is_ws(#[trigger] line@[j]),
        decreases n - i,
    {
        let c = line.get_char(i);
        if !(c == ' ' || c == '\t' || c == '\n' || c == '\r') {
            proof {
                lemma_first_non_ws_skip(line@, i as int);
                assert(line@.skip(i as int)[0] == line@[i as int]);
            }
            if c == '{' {
                return LineClass::Candidate;
            }
            return LineClass::Diagnostic;
        }
        i = i + 1;
    }
    proof {
        lemma_first_non_ws_skip(line@, n as int);
        assert(line@.skip(n as int).len() == 0);
    }
    LineClass::Blank
}

/// The bound on how many stdout lines one call will read past before the
/// scan fails as a transport error.
pub const MAX_LINE_ATTEMPTS: u64 = 10;

/// The scanner's progress through a read loop.
#[derive(Clone, Copy, Debug, PartialEq, Eq, Structural)]
pub struct ScanState {
    pub attempts: u64,
}

/// What one scanned line leads to: accept it as the response, skip it and
/// keep reading, or give up.
#[derive(Clone, Debug)]
pub enum ScanStep {
    Accept,
    Skip(ScanState),
    Fail(McpClientError),
}

impl Clone for McpClientError {
    fn clone(&self) -> (r: Self) {
        match self {
            McpClientError::Transport(m) => McpClientError::Transport(m.clone()),
            McpClientError::Protocol(m) => McpClientError::Protocol(m.clone()),
            McpClientError::NotInitialized => McpClientError::NotInitialized,
            McpClientError::Remote { code, message } => McpClientError::Remote {
                code: *code,
                message: message.clone(),
            },
        }
    }
}

/// Advances the scan by one line: a line opening with `{` is accepted; any
/// other line is skipped at most `MAX_LINE_ATTEMPTS` times, after which the
/// scan fails as a transport error rather than blocking indefinitely.
pub fn scan_step(st: ScanState, line: &str) -> (r: ScanStep)
    requires
        st.attempts < MAX_LINE_ATTEMPTS,
    ensures
        match spec_first_non_ws(line@) {
            Some(c) => if c == '{' {
                r is Accept
            } else {
                if st.attempts + 1 >= MAX_LINE_ATTEMPTS {
                    r matches ScanStep::Fail(e) && e is Transport
                } else {
                    r matches ScanStep::Skip(s2) && s2.attempts == st.attempts + 1
                }
            },
            None => if st.attempts + 1 >= MAX_LINE_ATTEMPTS {
                r matches ScanStep::Fail(e) && e is Transport
            } else {
                r matches ScanStep::Skip(s2) && s2.attempts == st.attempts + 1
            },
        },
{
    match classify_line(line) {
        LineClass::Candidate => ScanStep::Accept,
        LineClass::Blank => {
            let next = st.attempts + 1;
            if next >= MAX_LINE_ATTEMPTS {
                ScanStep::Fail(
                    McpClientError::Transport("no response from the server".to_owned()),
                )
            } else {
                ScanStep::Skip(ScanState { attempts: next })
            }
        },
        LineClass::Diagnostic => {
            let next = st.attempts + 1;
            if next >= MAX_LINE_ATTEMPTS {
                ScanStep::Fail(
                    McpClientError::Transport("no valid JSON response from the server".to_owned()),
                )
            } else {
                ScanStep::Skip(ScanState { attempts: next })
            }
        },
    }
}

/// Relies on serde_json::Value::clone: a deep copy of a JSON value.
#[verifier::external_body]
fn json_clone_value(v: &serde_json::Value) -> serde_json::Value {
    v.clone()
}

/// Parses one accepted line into a response: `jsonrpc` and `id` are
/// required, `result` and `error` are optional; anything else is a protocol
/// violation. A response comes back only from a line that is a JSON
/// document, and every failure is a protocol error.
pub fn parse_response_line(line: &str) -> (r: Result<McpResponse, McpClientError>)
    ensures
        r is Ok ==> crate::json::is_json_doc(line@),
        r matches Err(e) ==> e is Protocol,
{
    let doc = match parse_json(line) {
        Some(d) => d,
        None => {
            return Err(McpClientError::Protocol("failed to parse the response".to_owned()));
        },
    };
    let jsonrpc = match json_get(&doc, "jsonrpc") {
        Some(v) => {
            match json_as_str(v) {
                Some(s) => s,
                None => {
                    return Err(
                        McpClientError::Protocol("failed to parse the response".to_owned()),
                    );
                },
            }
        },
        None => {
            return Err(McpClientError::Protocol("failed to parse the response".to_owned()));
        },
    };
    let id = match json_get(&doc, "id") {
        Some(v) => {
            match json_as_u64(v) {
                Some(n) => n,
                None => {
                    return Err(
                        McpClientError::Protocol("failed to parse the response".to_owned()),
                    );
                },
            }
        },
        None => {
            return Err(McpClientError::Protocol("failed to parse the response".to_owned()));
        },
    };
    let result = match json_get(&doc, "result") {
        Some(v) => Some(json_clone_value(v)),
        None => None,
    };
    let error = match json_get(&doc, "error") {
        Some(e) => {
            let code64 = match json_get(e, "code") {
                Some(c) => {
                    match json_as_i64(c) {
                        Some(n) => n,
                        None => {
                            return Err(
                                McpClientError::Protocol(
                                    "failed to parse the response".to_owned(),
                                ),
                            );
                        },
                    }
                },
                None => {
                    return Err(
                        McpClientError::Protocol("failed to parse the response".to_owned()),
                    );
                },
            };
            if code64 < -2147483648i64 || code64 > 2147483647i64 {
                return Err(McpClientError::Protocol("failed to parse the response".to_owned()));
            }
            let message = match json_get(e, "message") {
                Some(m) => {
                    match json_as_str(m) {
                        Some(s) => s,
                        None => {
                            return Err(
                                McpClientError::Protocol(
                                    "failed to parse the response".to_owned(),
                                ),
                            );
                        },
                    }
                },
                None => {
                    return Err(
                        McpClientError::Protocol("failed to parse the response".to_owned()),
                    );
                },
            };
            let data = match json_get(e, "data") {
                Some(d) => Some(json_clone_value(d)),
                None => None,
            };
            Some(McpError { code: code64 as i32, message, data })
        },
        None => None,
    };
    Ok(McpResponse { jsonrpc, id, result, error })
}


/// One tool advertised by the peer.
#[derive(Debug)]
pub struct ToolInfo {
    pub name: String,
    pub description: String,
    pub input_schema: Option<serde_json::Value>,
}

/// Parses the result of `tools/list`: its `tools` array, one entry per tool
/// with a name; entries without a name are skipped.
pub fn parse_tool_list(result: &serde_json::Value) -> Option<Vec<ToolInfo>> {
    let tools = json_get(result, "tools")?;
    let arr = json_as_array(tools)?;
    let mut out: Vec<ToolInfo> = Vec::new();
    let mut i: usize = 0;
    while i < arr.len()
        decreases arr@.len() - i,
    {
        let t = &arr[i];
        match json_get(t, "name") {
            Some(n) => {
                match json_as_str(n) {
                    Some(name) => {
                        let description = match json_get(t, "description") {
                            Some(d) => {
                                match json_as_str(d) {
                                    Some(text) => text,
                                    None => String::new(),
                                }
                            },
                            None => String::new(),
                        };
                        let input_schema = match json_get(t, "input_schema") {
                            Some(schema) => Some(json_clone_value(schema)),
                            None => None,
                        };
                        out.push(ToolInfo { name, description, input_schema });
                    },
                    None => {},
                }
            },
            None => {},
        }
        i = i + 1;
    }
    Some(out)
}

/// Parses the `logs` array of a log-query result over this channel into
/// normalized entries, capped at `max_results`; records are probed for the
/// same field aliases as the direct backends, the level text normalizing
/// with `Info` as the default, and unparsable fields reading as empty.
/// Every returned entry carries no labels and a message of at most 503
/// characters.
pub fn parse_log_result(result: &serde_json::Value, max_results: usize) -> (r: Vec<
    crate::backends::LogEntry,
>)
    ensures
        r@.len() <= max_results as int,
        forall|i: int|
            0 <= i < r@.len() ==> (#[trigger] r@[i]).labels@.len() == 0 && r@[i].message@.len()
                <= 503,
{
    let mut out: Vec<crate::backends::LogEntry> = Vec::new();
    let logs = match json_get(result, "logs") {
        Some(l) => l,
        None => {
            return out;
        },
    };
    let arr = match json_as_array(logs) {
        Some(a) => a,
        None => {
            return out;
        },
    };
    let mut i: usize = 0;
    while i < arr.len()
        invariant
            out@.len() <= i,
            out@.len() <= max_results as int,
            forall|j: int|
                0 <= j < out@.len() ==> (#[trigger] out@[j]).labels@.len() == 0
                    && out@[j].message@.len() <= 503,
        decreases arr@.len() - i,
    {
        if out.len() < max_results {
            let record = &arr[i];
            let timestamp = crate::json::first_string_field(
                record,
                &vec!["timestamp", "@timestamp"],
            );
            let level_text = crate::json::first_string_field(
                record,
                &vec!["level", "severity", "log_level"],
            );
            let message = crate::json::first_string_field(record, &vec!["message", "log", "body"]);
            let service = crate::json::first_string_field(record, &vec!["service", "service_name"]);
            let trace_id = crate::json::first_string_field(record, &vec!["trace_id", "traceId"]);
            out.push(
                crate::elasticsearch::es_entry(timestamp, level_text, message, service, trace_id),
            );
        }
        i = i + 1;
    }
    out
}

/// Checks the echoed id against the request's: a mismatch is a protocol
/// violation that fails the call.
pub fn check_response_id(resp: &McpResponse, expected: u64) -> (r: Result<(), McpClientError>)
    ensures
        resp.id == expected <==> r is Ok,
        r matches Err(e) ==> e is Protocol,
{
    if resp.id == expected {
        Ok(())
    } else {
        Err(McpClientError::Protocol("response id does not match the request id".to_owned()))
    }
}

/// The client's handshake and id state: ids are handed out strictly
/// increasing, so they stay unique over the client's lifetime, and no call
/// but `initialize` may run before the handshake succeeded.
#[derive(Clone, Copy, Debug, PartialEq, Eq, Structural)]
pub struct McpSession {
    pub initialized: bool,
    pub next_id: u64,
}

impl McpSession {
    /// A fresh, un-initialized session.
    pub fn new() -> (r: McpSession)
        ensures
            !r.initialized,
            r.next_id == 0,
    {
        McpSession { initialized: false, next_id: 0 }
    }

    /// Hands out the next request id, strictly greater than every id handed
    /// out before.
    pub fn next_request_id(&mut self) -> (r: u64)
        requires
            old(self).next_id < u64::MAX,
        ensures
            final(self).next_id == old(self).next_id + 1,
            r == final(self).next_id,
            final(self).initialized == old(self).initialized,
    {
        self.next_id = self.next_id + 1;
        self.next_id
    }

    /// Fails with `NotInitialized` unless the handshake has succeeded.
    pub fn require_initialized(&self) -> (r: Result<(), McpClientError>)
        ensures
            self.initialized <==> r is Ok,
            r matches Err(e) ==> e is NotInitialized,
    {
        if self.initialized {
            Ok(())
        } else {
            Err(McpClientError::NotInitialized)
        }
    }

    /// Records a successful handshake.
    pub fn mark_initialized(&mut self)
        ensures
            final(self).initialized,
            final(self).next_id == old(self).next_id,
    {
        self.initialized = true;
    }
}

/// The params of the `initialize` handshake request.
pub fn make_initialize_params() -> (r: String)
    ensures
        r@
            == "{\"protocolVersion\":\"2024-11-05\",\"capabilities\":{\"tools\":{}},\"clientInfo\":{\"name\":\"zeteo-cli\",\"version\":\"0.1.0\"}}"@,
{
    "{\"protocolVersion\":\"2024-11-05\",\"capabilities\":{\"tools\":{}},\"clientInfo\":{\"name\":\"zeteo-cli\",\"version\":\"0.1.0\"}}".to_owned()
}

/// The params of a `tools/call` request: the tool's name and its arguments
/// object, passed through as JSON text.
pub open spec fn spec_tool_call_params(name: Seq<char>, arguments: Seq<char>) -> Seq<char> {
    "{\"name\":"@ + spec_json_string(name) + ",\"arguments\":"@ + arguments + "}"@
}

/// Frames the params of a `tools/call` request.
pub fn make_tool_call_params(name: &str, arguments_json: &str) -> (r: String)
    ensures
        r@ == spec_tool_call_params(name@, arguments_json@),
{
    let mut out = String::new();
    out.append("{\"name\":");
    append_json_string(&mut out, name);
    out.append(",\"arguments\":");
    out.append(arguments_json);
    out.append("}");
    assert(out@ =~= spec_tool_call_params(name@, arguments_json@));
    out
}

/// The arguments of the `query_logs` helper: the query text and the result
/// bound.
pub open spec fn spec_query_logs_arguments(query: Seq<char>, max_results: int) -> Seq<char> {
    "{\"query\":"@ + spec_json_string(query) + ",\"maxResults\":"@ + spec_dec(max_results as nat)
        + "}"@
}

/// Frames the arguments of the `query_logs` helper.
pub fn make_query_logs_arguments(query: &str, max_results: usize) -> (r: String)
    ensures
        r@ == spec_query_logs_arguments(query@, max_results as int),
{
    let mut out = String::new();
    out.append("{\"query\":");
    append_json_string(&mut out, query);
    out.append(",\"maxResults\":");
    let dec = usize_to_dec(max_results);
    out.append(dec.as_str());
    out.append("}");
    assert(out@ =~= spec_query_logs_arguments(query@, max_results as int));
    out
}

} // verus!
