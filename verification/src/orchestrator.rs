//! The multi-turn tool-calling state machine: building provider requests
//! from the transcript, deciding what a response asks for, and recording the
//! assistant, tool-result and error messages of a turn in order.
//!
//! One turn runs at most one tool phase: the initial request carries the tool
//! schemas, the single follow-up request carries none, forcing
//! natural-language synthesis. A provider failure aborts only the turn.

use vstd::prelude::*;
use crate::providers::Message;
use crate::providers::MessageView;
use crate::providers::ToolCall;
use crate::providers::ToolCallView;
use crate::providers::Tool;
use crate::providers::ChatRequest;
use crate::providers::ChatResponse;
use crate::providers::clone_message;
use crate::providers::clone_tool_calls;
use crate::providers::push_message;
use crate::providers::view_opt_calls;
use crate::text::str_eq;

verus! {

/// True of the roles that are sent to the provider; error-role transcript
/// entries are local and never sent.
pub open spec fn spec_is_api_role(role: Seq<char>) -> bool {
    role == "user"@ || role == "assistant"@ || role == "tool"@
}

/// The view of a system message with the given content.
pub open spec fn spec_system_msg(system: Seq<char>) -> MessageView {
    MessageView { role: "system"@, content: system, tool_calls: None, tool_call_id: None }
}

/// What a request's message list is: the system message first, then the
/// transcript restricted to the provider-facing roles, in order.
pub open spec fn spec_api_messages(h: Seq<MessageView>, system: Seq<char>) -> Seq<MessageView> {
    seq![spec_system_msg(system)] + h.filter(|m: MessageView| spec_is_api_role(m.role))
}

/// Builds the provider-facing message list: the system message, then the
/// user, assistant and tool messages of the transcript in order.
pub fn build_request_messages(history: &Vec<Message>, system: &str) -> (r: Vec<Message>)
    ensures
        r@.map_values(|m: Message| m@) == spec_api_messages(
            history@.map_values(|m: Message| m@),
            system@,
        ),
{
    proof {
        reveal_strlit("user");
        reveal_strlit("assistant");
        reveal_strlit("tool");
        reveal_strlit("system");
    }
    let mut out: Vec<Message> = Vec::new();
    push_message(
        &mut out,
        Message {
            role: "system".to_owned(),
            content: system.to_owned(),
            tool_calls: None,
            tool_call_id: None,
        },
    );
    let ghost hv = history@.map_values(|m: Message| m@);
    assert(out@.map_values(|m: Message| m@) =~= seq![spec_system_msg(system@)]);
    assert(hv.subrange(0, 0) =~= Seq::<MessageView>::empty());
    assert(Seq::<MessageView>::empty().filter(|m: MessageView| spec_is_api_role(m.role))
        =~= Seq::<MessageView>::empty()) by {
        reveal(Seq::filter);
    }
    let mut i: usize = 0;
    while i < history.len()
        invariant
            0 <= i <= history@.len(),
            hv == history@.map_values(|m: Message| m@),
            out@.map_values(|m: Message| m@) == seq![spec_system_msg(system@)] + hv.subrange(
                0,
                i as int,
            ).filter(|m: MessageView| spec_is_api_role(m.role)),
        decreases history@.len() - i,
    {
        let m = &history[i];
        let keep = str_eq(m.role.as_str(), "user") || str_eq(m.role.as_str(), "assistant")
            || str_eq(m.role.as_str(), "tool");
        proof {
            let pfx = hv.subrange(0, i as int);
            let nxt = hv.subrange(0, i + 1);
            assert(nxt.drop_last() =~= pfx);
            assert(nxt.last() == hv[i as int]);
            assert(hv[i as int] == history@[i as int]@);
            reveal(Seq::filter);
        }
        if keep {
            let copy = clone_message(m);
            push_message(&mut out, copy);
            assert(out@.map_values(|m2: Message| m2@) =~= seq![spec_system_msg(system@)]
                + hv.subrange(0, i + 1).filter(|m2: MessageView| spec_is_api_role(m2.role)));
        } else {
            assert(out@.map_values(|m2: Message| m2@) =~= seq![spec_system_msg(system@)]
                + hv.subrange(0, i + 1).filter(|m2: MessageView| spec_is_api_role(m2.role)));
        }
        i = i + 1;
    }
    assert(hv.subrange(0, hv.len() as int) =~= hv);
    out
}

/// Builds the initial request of a turn: the transcript behind the system
/// message, the fixed sampling settings, and the tool schemas exactly as
/// given (present when a tool executor is configured).
pub fn build_initial_request(history: &Vec<Message>, system: &str, tools: Option<Vec<Tool>>) -> (r:
    ChatRequest)
    ensures
        r.messages@.map_values(|m: Message| m@) == spec_api_messages(
            history@.map_values(|m: Message| m@),
            system@,
        ),
        r.temperature_centi == Some(70u32),
        r.max_tokens == Some(4096u32),
        r.tools == tools,
{
    ChatRequest {
        messages: build_request_messages(history, system),
        temperature_centi: Some(70),
        max_tokens: Some(4096),
        tools,
    }
}

/// Builds the single follow-up request of a turn: the full transcript again,
/// and no tool schemas, forcing natural-language synthesis.
pub fn build_followup_request(history: &Vec<Message>, system: &str) -> (r: ChatRequest)
    ensures
        r.messages@.map_values(|m: Message| m@) == spec_api_messages(
            history@.map_values(|m: Message| m@),
            system@,
        ),
        r.temperature_centi == Some(70u32),
        r.max_tokens == Some(4096u32),
        r.tools is None,
{
    ChatRequest {
        messages: build_request_messages(history, system),
        temperature_centi: Some(70),
        max_tokens: Some(4096),
        tools: None,
    }
}

/// What one provider response asks of the turn: record the assistant message
/// and stop, or run its tool calls first.
pub enum TurnAction {
    Final,
    RunTools(Vec<ToolCall>),
}

/// Decides what a response asks for: a tool phase exactly when the response
/// carries a non-empty tool-call list and a tool executor is configured;
/// anything else ends the turn with the assistant's content.
pub fn decide_turn(response: &ChatResponse, has_executor: bool) -> (r: TurnAction)
    ensures
        match response.tool_calls {
            Some(tcs) => if tcs@.len() > 0 && has_executor {
                r matches TurnAction::RunTools(c) && c@.map_values(|t: ToolCall| t@)
                    == tcs@.map_values(|t: ToolCall| t@)
            } else {
                r is Final
            },
            None => r is Final,
        },
{
    match &response.tool_calls {
        Some(tcs) => {
            if tcs.len() > 0 && has_executor {
                TurnAction::RunTools(clone_tool_calls(tcs))
            } else {
                TurnAction::Final
            }
        },
        None => TurnAction::Final,
    }
}

/// The view of a user message.
pub open spec fn spec_user_msg(content: Seq<char>) -> MessageView {
    MessageView { role: "user"@, content, tool_calls: None, tool_call_id: None }
}

/// The view of a plain assistant message.
pub open spec fn spec_assistant_msg(content: Seq<char>) -> MessageView {
    MessageView { role: "assistant"@, content, tool_calls: None, tool_call_id: None }
}

/// The view of an assistant message carrying tool calls.
pub open spec fn spec_assistant_calls_msg(content: Seq<char>, calls: Seq<ToolCallView>)
    -> MessageView {
    MessageView { role: "assistant"@, content, tool_calls: Some(calls), tool_call_id: None }
}

/// The view of a tool-role message answering one call.
pub open spec fn spec_tool_msg(id: Seq<char>, content: Seq<char>) -> MessageView {
    MessageView { role: "tool"@, content, tool_calls: None, tool_call_id: Some(id) }
}

/// The view of a local error-role message.
pub open spec fn spec_error_msg(content: Seq<char>) -> MessageView {
    MessageView { role: "error"@, content, tool_calls: None, tool_call_id: None }
}

/// Appends the user's submitted text to the transcript.
pub fn record_user(history: &mut Vec<Message>, content: String)
    ensures
        final(history)@.map_values(|m: Message| m@) == old(history)@.map_values(|m: Message| m@)
            .push(spec_user_msg(content@)),
{
    push_message(
        history,
        Message { role: "user".to_owned(), content, tool_calls: None, tool_call_id: None },
    );
}

/// Appends a plain assistant message to the transcript.
pub fn record_assistant(history: &mut Vec<Message>, content: String)
    ensures
        final(history)@.map_values(|m: Message| m@) == old(history)@.map_values(|m: Message| m@)
            .push(spec_assistant_msg(content@)),
{
    push_message(
        history,
        Message { role: "assistant".to_owned(), content, tool_calls: None, tool_call_id: None },
    );
}

/// Appends a local error-role message; such entries never reach the
/// provider.
pub fn record_error(history: &mut Vec<Message>, content: String)
    ensures
        final(history)@.map_values(|m: Message| m@) == old(history)@.map_values(|m: Message| m@)
            .push(spec_error_msg(content@)),
{
    push_message(
        history,
        Message { role: "error".to_owned(), content, tool_calls: None, tool_call_id: None },
    );
}

/// The tool-role messages answering `calls` with `results`, one per call, in
/// call order.
pub open spec fn spec_tool_result_msgs(calls: Seq<ToolCallView>, results: Seq<Seq<char>>)
    -> Seq<MessageView> {
    Seq::new(calls.len(), |i: int| spec_tool_msg(calls[i].id, results[i]))
}

/// Records a whole tool phase: the assistant message carrying its tool
/// calls, then, for each call in order, exactly one tool-role message whose
/// `tool_call_id` matches that call and whose content is that call's result.
pub fn record_tool_phase(
    history: &mut Vec<Message>,
    content: String,
    calls: Vec<ToolCall>,
    results: Vec<String>,
)
    requires
        results@.len() == calls@.len(),
    ensures
        final(history)@.map_values(|m: Message| m@) == old(history)@.map_values(|m: Message| m@)
            .push(
            spec_assistant_calls_msg(content@, calls@.map_values(|t: ToolCall| t@)),
        ) + spec_tool_result_msgs(
            calls@.map_values(|t: ToolCall| t@),
            results@.map_values(|s: String| s@),
        ),
{
    let ghost callviews = calls@.map_values(|t: ToolCall| t@);
    let ghost resultviews = results@.map_values(|s: String| s@);
    let ghost h0 = history@.map_values(|m: Message| m@);
    let calls_copy = clone_tool_calls(&calls);
    push_message(
        history,
        Message {
            role: "assistant".to_owned(),
            content,
            tool_calls: Some(calls_copy),
            tool_call_id: None,
        },
    );
    let ghost base = h0.push(spec_assistant_calls_msg(content@, callviews));
    assert(history@.map_values(|m: Message| m@) == base);
    let mut i: usize = 0;
    let mut results = results;
    let n = calls.len();
    assert(spec_tool_result_msgs(callviews, resultviews).subrange(0, 0)
        =~= Seq::<MessageView>::empty());
    assert(history@.map_values(|m: Message| m@) =~= base + spec_tool_result_msgs(
        callviews,
        resultviews,
    ).subrange(0, 0));
    while i < n
        invariant
            0 <= i <= n,
            n == calls@.len(),
            results@.len() == n - i,
            callviews == calls@.map_values(|t: ToolCall| t@),
            forall|j: int| 0 <= j < results@.len() ==> (#[trigger] results@[j])@ == resultviews[i + j],
            resultviews.len() == n,
            history@.map_values(|m: Message| m@) == base + spec_tool_result_msgs(
                callviews,
                resultviews,
            ).subrange(0, i as int),
        decreases n - i,
    {
        let result = results.remove(0);
        assert(result@ == resultviews[i as int]);
        let id = calls[i].id.clone();
        assert(id@ == callviews[i as int].id);
        push_message(
            history,
            Message {
                role: "tool".to_owned(),
                content: result,
                tool_calls: None,
                tool_call_id: Some(id),
            },
        );
        assert(history@.map_values(|m: Message| m@) =~= base + spec_tool_result_msgs(
            callviews,
            resultviews,
        ).subrange(0, i + 1));
        i = i + 1;
    }
    assert(spec_tool_result_msgs(callviews, resultviews).subrange(0, n as int)
        =~= spec_tool_result_msgs(callviews, resultviews));
}

/// How many messages of `msgs` are tool-role answers to the call id `id`.
pub open spec fn spec_count_answers(msgs: Seq<MessageView>, id: Seq<char>) -> int
    decreases msgs.len(),
{
    if msgs.len() == 0 {
        0
    } else {
        spec_count_answers(msgs.drop_last(), id) + if msgs.last().role == "tool"@
            && msgs.last().tool_call_id == Some(id) {
            1int
        } else {
            0int
        }
    }
}

proof fn lemma_count_answers_zero(msgs: Seq<MessageView>, id: Seq<char>)
    requires
        forall|j: int| 0 <= j < msgs.len() ==> (#[trigger] msgs[j]).tool_call_id != Some(id),
    ensures
        spec_count_answers(msgs, id) == 0,
    decreases msgs.len(),
{
    if msgs.len() > 0 {
        lemma_count_answers_zero(msgs.drop_last(), id);
    }
}

proof fn lemma_count_answers_one(calls: Seq<ToolCallView>, results: Seq<Seq<char>>, k: int)
    requires
        results.len() == calls.len(),
        0 <= k < calls.len(),
        forall|a: int, b: int|
            0 <= a < b < calls.len() ==> (#[trigger] calls[a]).id != (#[trigger] calls[b]).id,
    ensures
        spec_count_answers(spec_tool_result_msgs(calls, results), calls[k].id) == 1,
    decreases calls.len(),
{
    let msgs = spec_tool_result_msgs(calls, results);
    let last = calls.len() - 1;
    assert(msgs.drop_last() =~= spec_tool_result_msgs(calls.drop_last(), results.drop_last()));
    if k == last {
        assert(msgs.last().tool_call_id == Some(calls[k].id));
        assert forall|j: int|
            0 <= j < msgs.drop_last().len() implies (#[trigger] msgs.drop_last()[j]).tool_call_id
            != Some(calls[k].id) by {
            assert(msgs.drop_last()[j].tool_call_id == Some(calls[j].id));
            assert(calls[j].id != calls[k].id);
        }
        lemma_count_answers_zero(msgs.drop_last(), calls[k].id);
    } else {
        assert(calls[last].id != calls[k].id);
        assert(msgs.last().tool_call_id == Some(calls[last].id));
        lemma_count_answers_one(calls.drop_last(), results.drop_last(), k);
        assert(calls.drop_last()[k] == calls[k]);
    }
}

/// Every tool call of an assistant message is answered, before the turn's
/// follow-up request, by exactly one tool-role message with the matching
/// `tool_call_id` — never zero, never two — and the answers stand in call
/// order, directly behind the assistant message that requested them.
pub proof fn lemma_every_call_answered_once(
    h0: Seq<MessageView>,
    content: Seq<char>,
    calls: Seq<ToolCallView>,
    results: Seq<Seq<char>>,
    h1: Seq<MessageView>,
)
    requires
        results.len() == calls.len(),
        forall|a: int, b: int|
            0 <= a < b < calls.len() ==> (#[trigger] calls[a]).id != (#[trigger] calls[b]).id,
        h1 == h0.push(spec_assistant_calls_msg(content, calls)) + spec_tool_result_msgs(
            calls,
            results,
        ),
    ensures
        h1.len() == h0.len() + 1 + calls.len(),
        h1[h0.len() as int] == spec_assistant_calls_msg(content, calls),
        forall|i: int|
            0 <= i < calls.len() ==> #[trigger] h1[h0.len() + 1 + i] == spec_tool_msg(
                calls[i].id,
                results[i],
            ),
        forall|i: int|
            0 <= i < calls.len() ==> spec_count_answers(
                h1.subrange(h0.len() as int, h1.len() as int),
                (#[trigger] calls[i]).id,
            ) == 1,
{
    let block = h1.subrange(h0.len() as int, h1.len() as int);
    let msgs = spec_tool_result_msgs(calls, results);
    assert forall|i: int| 0 <= i < calls.len() implies spec_count_answers(
        block,
        (#[trigger] calls[i]).id,
    ) == 1 by {
        lemma_count_answers_one(calls, results, i);
        assert(block =~= seq![spec_assistant_calls_msg(content, calls)] + msgs);
        assert(spec_assistant_calls_msg(content, calls).role != "tool"@) by {
            reveal_strlit("assistant");
            reveal_strlit("tool");
            assert("assistant"@.len() == 9);
            assert("tool"@.len() == 4);
        }
        lemma_count_prepend_nontool(spec_assistant_calls_msg(content, calls), msgs, calls[i].id);
        assert(spec_count_answers(block, calls[i].id) == spec_count_answers(msgs, calls[i].id));
    }
}

proof fn lemma_count_prepend_nontool(m: MessageView, rest: Seq<MessageView>, id: Seq<char>)
    requires
        m.role != "tool"@,
    ensures
        spec_count_answers(seq![m] + rest, id) == spec_count_answers(rest, id),
    decreases rest.len(),
{
    let whole = seq![m] + rest;
    if rest.len() == 0 {
        assert(whole.len() == 1);
        assert(whole.drop_last() =~= Seq::<MessageView>::empty());
        assert(whole.last() == m);
        assert(spec_count_answers(whole.drop_last(), id) == 0);
        assert(spec_count_answers(whole, id) == 0);
        assert(spec_count_answers(rest, id) == 0);
    } else {
        assert(whole.drop_last() =~= seq![m] + rest.drop_last());
        lemma_count_prepend_nontool(m, rest.drop_last(), id);
        assert(whole.last() == rest.last());
        assert(spec_count_answers(whole, id) == spec_count_answers(whole.drop_last(), id) + (
        if whole.last().role == "tool"@ && whole.last().tool_call_id == Some(id) {
            1int
        } else {
            0int
        }));
        assert(spec_count_answers(rest, id) == spec_count_answers(rest.drop_last(), id) + (
        if rest.last().role == "tool"@ && rest.last().tool_call_id == Some(id) {
            1int
        } else {
            0int
        }));
    }
}


/// The system message's opening line, shared by both variants.
pub open spec fn spec_system_preamble() -> Seq<char> {
    "You are Zeteo, an AI assistant specialized in log analysis and observability.\n\n"@
}

/// Builds the system message for a turn: with a tool executor configured it
/// describes the three tools and names the active backend (or `logs`);
/// without one it says that no backend is configured.
pub fn build_system_message(backend_name: &Option<String>, has_executor: bool) -> (r: String)
    ensures
        r@.len() >= spec_system_preamble().len(),
        r@.subrange(0, spec_system_preamble().len() as int) == spec_system_preamble(),
{
    let mut msg = String::new();
    msg.append("You are Zeteo, an AI assistant specialized in log analysis and observability.\n\n");
    if has_executor {
        msg.append("## Your Capabilities\nYou have access to a log backend (");
        match backend_name {
            Some(b) => msg.append(b.as_str()),
            None => msg.append("logs"),
        }
        msg.append(
            ") and can query logs to help users investigate issues, find errors, analyze patterns, and troubleshoot problems.\n\n## Available Tools\n\n### 1. query_logs\nSearch and retrieve logs from the backend.\n- **query** (required): Search string. Use '*' for all logs, or terms like 'error', 'timeout', 'failed'.\n- **max_results** (optional): Number of results (default: 50, max: 200). Start with 20-50 for initial queries.\n- **level** (optional): Filter by severity - must be exactly one of: ERROR, WARN, INFO, DEBUG\n- **service** (optional): Filter by service name (use list_services first if unsure).\n- **start_time** (optional): Relative time like '1h', '30m', '2d' or ISO 8601 format.\n- **end_time** (optional): Defaults to now.\n\n### 2. list_services\nGet available service names. No parameters required. Call this first if you need to filter by service.\n\n### 3. get_log_stats\nGet aggregated statistics (counts by level, service distribution).\n- **start_time** (optional): Start of time range.\n- **end_time** (optional): End of time range.\n\n## Tool Usage Guidelines\n\n1. **Start broad, then narrow**: Begin with a general query, then refine based on results.\n2. **Use appropriate time ranges**: Default to '1h' for recent issues, '24h' for patterns, '7d' for trends.\n3. **Check services first**: If filtering by service, call list_services to get valid names.\n4. **Combine filters wisely**: Use level + query together for targeted results.\n5. **Handle empty results**: If no results, try broadening the query or time range.\n\n## Response Format\n\n- Summarize findings clearly with key insights first.\n- Highlight error patterns, anomalies, or concerning trends.\n- Provide actionable recommendations when issues are found.\n- Format log snippets in code blocks for readability.\n- If results are truncated, suggest how to narrow the search.",
        );
    } else {
        msg.append(
            "You can help with general questions about observability, logging best practices, and troubleshooting strategies.\n\n**Note**: No log backend is currently configured. To enable log analysis, configure a backend (kibana, openobserve, or elasticsearch) in your config file.",
        );
    }
    assert(msg@.subrange(0, spec_system_preamble().len() as int) =~= spec_system_preamble());
    msg
}

} // verus!
