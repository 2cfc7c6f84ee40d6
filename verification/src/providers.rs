//! The chat-completion model: conversation messages, tool-call structures,
//! the tool schemas attached to requests, and the wire-shape conversion the
//! OpenAI-style providers apply to messages.

use vstd::prelude::*;
use crate::backends::view_opt;

verus! {

/// A function invocation requested by the model: a name and its JSON
/// arguments as text.
#[derive(Clone, Debug)]
pub struct FunctionCall {
    pub name: String,
    pub arguments: String,
}

/// One structured tool call emitted inside an assistant message.
#[derive(Clone, Debug)]
pub struct ToolCall {
    pub id: String,
    pub call_type: String,
    pub function: FunctionCall,
}

/// The abstract value of a tool call.
#[verifier::ext_equal]
pub struct ToolCallView {
    pub id: Seq<char>,
    pub call_type: Seq<char>,
    pub name: Seq<char>,
    pub arguments: Seq<char>,
}

impl View for ToolCall {
    type V = ToolCallView;

    open spec fn view(&self) -> ToolCallView {
        ToolCallView {
            id: self.id@,
            call_type: self.call_type@,
            name: self.function.name@,
            arguments: self.function.arguments@,
        }
    }
}

/// One conversation message: a role, content, the tool calls an assistant
/// message carries, and the call a tool-role message answers.
#[derive(Clone, Debug)]
pub struct Message {
    pub role: String,
    pub content: String,
    pub tool_calls: Option<Vec<ToolCall>>,
    pub tool_call_id: Option<String>,
}

/// The abstract value of a message.
#[verifier::ext_equal]
pub struct MessageView {
    pub role: Seq<char>,
    pub content: Seq<char>,
    pub tool_calls: Option<Seq<ToolCallView>>,
    pub tool_call_id: Option<Seq<char>>,
}

/// The views of an optional tool-call list.
pub open spec fn view_opt_calls(o: Option<Vec<ToolCall>>) -> Option<Seq<ToolCallView>> {
    match o {
        Some(v) => Some(v@.map_values(|t: ToolCall| t@)),
        None => None,
    }
}

impl View for Message {
    type V = MessageView;

    open spec fn view(&self) -> MessageView {
        MessageView {
            role: self.role@,
            content: self.content@,
            tool_calls: view_opt_calls(self.tool_calls),
            tool_call_id: view_opt(self.tool_call_id),
        }
    }
}

/// The declaration of one callable tool: a name, a description, and its
/// JSON-Schema parameter declaration as text.
#[derive(Clone, Debug)]
pub struct ToolFunction {
    pub name: String,
    pub description: String,
    pub parameters: String,
}

/// One tool attached to a chat request.
#[derive(Clone, Debug)]
pub struct Tool {
    pub tool_type: String,
    pub function: ToolFunction,
}

/// One chat-completion request: the messages, sampling settings, and the
/// tool schemas (attached on the initial call of a turn, omitted on the
/// forced-synthesis follow-up). The temperature is in hundredths.
#[derive(Clone, Debug)]
pub struct ChatRequest {
    pub messages: Vec<Message>,
    pub temperature_centi: Option<u32>,
    pub max_tokens: Option<u32>,
    pub tools: Option<Vec<Tool>>,
}

/// One chat-completion response: the assistant's content, the answering
/// model, and any tool calls it requests.
#[derive(Clone, Debug)]
pub struct ChatResponse {
    pub content: String,
    pub model: String,
    pub tool_calls: Option<Vec<ToolCall>>,
}

/// A deep copy of a tool call, preserving its abstract value.
pub fn clone_tool_call(t: &ToolCall) -> (r: ToolCall)
    ensures
        r@ == t@,
{
    ToolCall {
        id: t.id.clone(),
        call_type: t.call_type.clone(),
        function: FunctionCall {
            name: t.function.name.clone(),
            arguments: t.function.arguments.clone(),
        },
    }
}

/// A deep copy of a tool-call list, preserving the abstract values.
pub fn clone_tool_calls(v: &Vec<ToolCall>) -> (r: Vec<ToolCall>)
    ensures
        r@.map_values(|t: ToolCall| t@) == v@.map_values(|t: ToolCall| t@),
{
    let mut out: Vec<ToolCall> = Vec::new();
    let mut i: usize = 0;
    while i < v.len()
        invariant
            0 <= i <= v@.len(),
            out@.len() == i,
            forall|j: int| 0 <= j < i ==> (#[trigger] out@[j])@ == v@[j]@,
        decreases v@.len() - i,
    {
        out.push(clone_tool_call(&v[i]));
        i = i + 1;
    }
    assert(out@.map_values(|t: ToolCall| t@) =~= v@.map_values(|t: ToolCall| t@));
    out
}

/// A deep copy of a message, preserving its abstract value.
pub fn clone_message(m: &Message) -> (r: Message)
    ensures
        r@ == m@,
{
    let tool_calls = match &m.tool_calls {
        Some(v) => Some(clone_tool_calls(v)),
        None => None,
    };
    let tool_call_id = match &m.tool_call_id {
        Some(s) => Some(s.clone()),
        None => None,
    };
    let r = Message { role: m.role.clone(), content: m.content.clone(), tool_calls, tool_call_id };
    assert(r@ =~~= m@);
    r
}

/// The abstract values of a whole message list.
pub open spec fn spec_msgs(h: Seq<Message>) -> Seq<MessageView> {
    h.map_values(|m: Message| m@)
}

/// Appends a message, extending the transcript's abstract value by exactly
/// that message.
pub fn push_message(v: &mut Vec<Message>, m: Message)
    ensures
        final(v)@.map_values(|x: Message| x@) == old(v)@.map_values(|x: Message| x@).push(m@),
{
    let ghost mv = m@;
    let ghost oldv = v@;
    v.push(m);
    proof {
        assert forall|j: int| 0 <= j < v@.len() implies (#[trigger] v@[j])@ == oldv.map_values(
            |x: Message| x@,
        ).push(mv)[j] by {
            if j < oldv.len() {
                assert(v@[j] == oldv[j]);
                assert(oldv.map_values(|x: Message| x@)[j] == oldv[j]@);
            } else {
                assert(v@[j]@ == mv);
            }
        }
        assert(v@.map_values(|x: Message| x@) =~= oldv.map_values(|x: Message| x@).push(mv));
    }
}

/// The wire shape of a message for OpenAI-style chat APIs, whose `content`
/// can be absent.
#[derive(Clone, Debug)]
pub struct WireMessage {
    pub role: String,
    pub content: Option<String>,
    pub tool_calls: Option<Vec<ToolCall>>,
    pub tool_call_id: Option<String>,
}

/// What a message's wire content is: only an assistant message that carries
/// tool calls and has empty content sends no content at all; every other
/// message sends its content, an empty string included.
pub open spec fn spec_wire_content(m: MessageView) -> Option<Seq<char>> {
    if m.role == "assistant"@ && m.tool_calls is Some && m.content.len() == 0 {
        None
    } else {
        Some(m.content)
    }
}

/// Converts messages to the OpenAI-style wire shape: roles, tool calls and
/// answered-call ids pass through; content follows `spec_wire_content`.
pub fn to_wire_messages(msgs: &Vec<Message>) -> (r: Vec<WireMessage>)
    ensures
        r@.len() == msgs@.len(),
        forall|i: int|
            0 <= i < msgs@.len() ==> {
                &&& (#[trigger] r@[i]).role@ == msgs@[i]@.role
                &&& view_opt(r@[i].content) == spec_wire_content(msgs@[i]@)
                &&& view_opt_calls(r@[i].tool_calls) == msgs@[i]@.tool_calls
                &&& view_opt(r@[i].tool_call_id) == msgs@[i]@.tool_call_id
            },
{
    let mut out: Vec<WireMessage> = Vec::new();
    let mut i: usize = 0;
    while i < msgs.len()
        invariant
            0 <= i <= msgs@.len(),
            out@.len() == i,
            forall|j: int|
                0 <= j < i ==> {
                    &&& (#[trigger] out@[j]).role@ == msgs@[j]@.role
                    &&& view_opt(out@[j].content) == spec_wire_content(msgs@[j]@)
                    &&& view_opt_calls(out@[j].tool_calls) == msgs@[j]@.tool_calls
                    &&& view_opt(out@[j].tool_call_id) == msgs@[j]@.tool_call_id
                },
        decreases msgs@.len() - i,
    {
        let m = &msgs[i];
        let content: Option<String> = if crate::text::str_eq(m.role.as_str(), "assistant")
            && m.tool_calls.is_some() && m.content.as_str().is_empty() {
            None
        } else {
            Some(m.content.clone())
        };
        let tool_calls = match &m.tool_calls {
            Some(v) => Some(clone_tool_calls(v)),
            None => None,
        };
        let tool_call_id = match &m.tool_call_id {
            Some(s) => Some(s.clone()),
            None => None,
        };
        out.push(WireMessage { role: m.role.clone(), content, tool_calls, tool_call_id });
        i = i + 1;
    }
    out
}

/// The role a message maps to on Gemini-style wire formats: assistant
/// messages become `model`, tool results become `function`, anything else
/// passes through.
pub open spec fn spec_gemini_role(role: Seq<char>) -> Seq<char> {
    if role == "assistant"@ {
        "model"@
    } else if role == "tool"@ {
        "function"@
    } else {
        role
    }
}

/// Maps a message role to its Gemini-style wire role.
pub fn gemini_role(role: &str) -> (r: String)
    ensures
        r@ == spec_gemini_role(role@),
{
    if crate::text::str_eq(role, "assistant") {
        "model".to_owned()
    } else if crate::text::str_eq(role, "tool") {
        "function".to_owned()
    } else {
        role.to_owned()
    }
}

/// The three log tools declared to the model: `query_logs`,
/// `list_services` and `get_log_stats`, each a function-type tool with its
/// exact description and JSON-Schema parameter declaration (`query`
/// required, `max_results` defaulting to 50 with a cap of 200).
pub fn create_log_tools() -> (r: Vec<Tool>)
    ensures
        r@.len() == 3,
        r@[0].function.name@ == "query_logs"@,
        r@[1].function.name@ == "list_services"@,
        r@[2].function.name@ == "get_log_stats"@,
        forall|i: int| 0 <= i < 3 ==> (#[trigger] r@[i]).tool_type@ == "function"@,
        r@[0].function.description@
            == "Search and query logs from the observability backend. Use this to find errors, investigate issues, analyze patterns, or get log data for a specific service, time range, or search term."@,
        r@[0].function.parameters@
            == "{\"type\":\"object\",\"properties\":{\"query\":{\"type\":\"string\",\"description\":\"Search query string. Use '*' for all logs, or specific terms like 'error', 'payment failed', 'timeout', etc.\"},\"max_results\":{\"type\":\"integer\",\"description\":\"Maximum number of log entries to return (default: 50, max: 200)\",\"default\":50},\"level\":{\"type\":\"string\",\"description\":\"Filter by log level: ERROR, WARN, INFO, DEBUG\",\"enum\":[\"ERROR\",\"WARN\",\"INFO\",\"DEBUG\"]},\"service\":{\"type\":\"string\",\"description\":\"Filter by service name\"},\"start_time\":{\"type\":\"string\",\"description\":\"Start time in ISO 8601 format (e.g., 2024-01-01T00:00:00Z) or relative time like '1h' (1 hour ago), '30m' (30 minutes ago)\"},\"end_time\":{\"type\":\"string\",\"description\":\"End time in ISO 8601 format. Defaults to now.\"}},\"required\":[\"query\"]}"@,
        r@[1].function.description@ == "List available services in the log backend"@,
        r@[1].function.parameters@
            == "{\"type\":\"object\",\"properties\":{},\"required\":[]}"@,
        r@[2].function.description@
            == "Get aggregated statistics about logs: counts by level, by service, time distribution"@,
        r@[2].function.parameters@
            == "{\"type\":\"object\",\"properties\":{\"start_time\":{\"type\":\"string\",\"description\":\"Start time for stats calculation\"},\"end_time\":{\"type\":\"string\",\"description\":\"End time for stats calculation\"}},\"required\":[]}"@,
{
    let mut out: Vec<Tool> = Vec::new();
    out.push(
        Tool {
            tool_type: "function".to_owned(),
            function: ToolFunction {
                name: "query_logs".to_owned(),
                description:
                    "Search and query logs from the observability backend. Use this to find errors, investigate issues, analyze patterns, or get log data for a specific service, time range, or search term.".to_owned(),
                parameters:
                    "{\"type\":\"object\",\"properties\":{\"query\":{\"type\":\"string\",\"description\":\"Search query string. Use '*' for all logs, or specific terms like 'error', 'payment failed', 'timeout', etc.\"},\"max_results\":{\"type\":\"integer\",\"description\":\"Maximum number of log entries to return (default: 50, max: 200)\",\"default\":50},\"level\":{\"type\":\"string\",\"description\":\"Filter by log level: ERROR, WARN, INFO, DEBUG\",\"enum\":[\"ERROR\",\"WARN\",\"INFO\",\"DEBUG\"]},\"service\":{\"type\":\"string\",\"description\":\"Filter by service name\"},\"start_time\":{\"type\":\"string\",\"description\":\"Start time in ISO 8601 format (e.g., 2024-01-01T00:00:00Z) or relative time like '1h' (1 hour ago), '30m' (30 minutes ago)\"},\"end_time\":{\"type\":\"string\",\"description\":\"End time in ISO 8601 format. Defaults to now.\"}},\"required\":[\"query\"]}".to_owned(),
            },
        },
    );
    out.push(
        Tool {
            tool_type: "function".to_owned(),
            function: ToolFunction {
                name: "list_services".to_owned(),
                description: "List available services in the log backend".to_owned(),
                parameters: "{\"type\":\"object\",\"properties\":{},\"required\":[]}".to_owned(),
            },
        },
    );
    out.push(
        Tool {
            tool_type: "function".to_owned(),
            function: ToolFunction {
                name: "get_log_stats".to_owned(),
                description:
                    "Get aggregated statistics about logs: counts by level, by service, time distribution".to_owned(),
                parameters:
                    "{\"type\":\"object\",\"properties\":{\"start_time\":{\"type\":\"string\",\"description\":\"Start time for stats calculation\"},\"end_time\":{\"type\":\"string\",\"description\":\"End time for stats calculation\"}},\"required\":[]}".to_owned(),
            },
        },
    );
    out
}

} // verus!
