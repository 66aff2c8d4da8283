//! One attempt at a task: turns of a model and the tools that it calls.
//!
//! The machine says what to do next, and is told what came of it: a request is first held against
//! the budget, and sent where it can be afforded.

use vstd::prelude::*;
use vstd::string::*;

use crate::agent::plan::PlanV;
use crate::agent::plan::RecallExecutionPlan;
use crate::agent::prompts;
use crate::agent::prompts::deliverable_contract_text;
use crate::agent::prompts::render_execution_user_message;
use crate::agent::prompts::render_review_repair_user_message;
use crate::agent::prompts::EXECUTION_PROMPT;
use crate::agent::task;
use crate::agent::task::Amount;
use crate::agent::task::AmountV;
use crate::agent::task::StateV;
use crate::agent::task::TaskState;
use crate::agent::task::TaskStatus;
use crate::agent::task::TraceV;
use crate::client::memory::ListFactsParams;
use crate::client::memory::ListV;
use crate::client::memory::RecallParams;
use crate::client::memory::RecallV;
use crate::codec;
use crate::json;
use crate::json::put;
use crate::json::put_text;
use crate::json::JValue;
use crate::json::Json;
use crate::llm::chat;
use crate::llm::chat::tools_value;
use crate::llm::chat::LlmResponse;
use crate::llm::chat::Message;
use crate::llm::chat::MessageV;
use crate::llm::chat::ResponseV;
use crate::llm::chat::ToolCall;
use crate::llm::chat::ToolCallV;
use crate::llm::chat::ToolDef;
use crate::llm::chat::ToolDefV;
use crate::text;
use crate::text::chars_of;
use crate::text::decimal_of;
use crate::text::is_blank;
use crate::text::join;
use crate::text::opt_str;
use crate::text::same;
use crate::text::string_of;

verus! {

/// How many turns a task may take, over all its attempts.
pub const MAX_EXECUTION_ITERATIONS: u32 = 32;

/// What a model is told after it used tools and said nothing.
pub const RECOVERY_NOTE: &'static str =
    "The previous assistant turn produced no final text after tool use. Your next response must contain only the final deliverable.";

/// What the trace says of a turn without text after tool use.
pub const EMPTY_OUTPUT_LINE: &'static str =
    "[empty_post_tool_output] → assistant returned no final text after tool use";

// ── Requests ────────────────────────────────────────────────────────────

/// What a model is asked.
#[derive(Debug)]
pub struct ChatRequest {
    pub system: String,
    pub messages: Vec<Message>,
    pub tools: Vec<ToolDef>,
    pub max_tokens: u32,
}

pub ghost struct ChatV {
    pub system: Seq<char>,
    pub messages: Seq<MessageV>,
    pub tools: Seq<ToolDefV>,
    pub max_tokens: u32,
}

impl ChatRequest {
    pub open spec fn view(&self) -> ChatV {
        ChatV {
            system: self.system@,
            messages: chat::messages_view(self.messages@),
            tools: chat::tools_view(self.tools@),
            max_tokens: self.max_tokens,
        }
    }
}

/// A request with one message from the user.
pub open spec fn user_request(
    system: Seq<char>,
    content: Seq<char>,
    tools: Seq<ToolDefV>,
    max_tokens: u32,
) -> ChatV {
    ChatV { system, messages: seq![MessageV { role: "user"@, content }], tools, max_tokens }
}

/// A request with one message from the user.
pub fn ask_user(system: &str, content: String, tools: Vec<ToolDef>, max_tokens: u32) -> (r:
    ChatRequest)
    ensures
        r@ == user_request(system@, content@, chat::tools_view(tools@), max_tokens),
{
    let mut messages: Vec<Message> = Vec::new();
    messages.push(Message { role: "user".to_owned(), content });
    assert(chat::messages_view(messages@) =~= seq![
        MessageV { role: "user"@, content: content@ },
    ]);
    ChatRequest { system: system.to_owned(), messages, tools, max_tokens }
}

// ── Estimates ───────────────────────────────────────────────────────────

/// A count, up to the largest that is told apart.
pub open spec fn capped(n: int) -> int {
    if n > u32::MAX {
        u32::MAX as int
    } else {
        n
    }
}

/// How many characters of a text are ASCII.
pub open spec fn ascii_count(s: Seq<char>) -> nat
    decreases s.len(),
{
    if s.len() == 0 {
        0
    } else {
        ascii_count(s.drop_last()) + (if (s.last() as u32) < 128 {
            1nat
        } else {
            0
        })
    }
}

/// How many tokens a text comes to: one for four ASCII characters, two for each other one.
pub open spec fn text_tokens(s: Seq<char>) -> int {
    let ascii = ascii_count(s);
    capped((ascii + 3) / 4 + capped(2 * (s.len() - ascii)))
}

/// How many tokens a text comes to.
pub fn estimate_text_tokens(s: &str) -> (r: u32)
    ensures
        r == text_tokens(s@),
{
    let chars = chars_of(s);
    let mut ascii: usize = 0;
    let mut i: usize = 0;
    while i < chars.len()
        invariant
            i <= chars.len(),
            ascii <= i,
            chars@ == s@,
            ascii == ascii_count(s@.take(i as int)),
        decreases chars.len() - i,
    {
        assert(s@.take(i + 1).drop_last() =~= s@.take(i as int));
        if (chars[i] as u32) < 128 {
            ascii = ascii + 1;
        }
        i = i + 1;
    }
    assert(s@.take(i as int) =~= s@);
    let wide: usize = chars.len() - ascii;
    let mut quarters: usize = ascii / 4;
    if ascii % 4 != 0 {
        quarters = quarters + 1;
    }
    let most: u32 = u32::MAX;
    let doubled: u32 = if wide > 0x7fff_ffff {
        most
    } else {
        2 * (wide as u32)
    };
    if quarters > (most - doubled) as usize {
        most
    } else {
        quarters as u32 + doubled
    }
}

/// How many tokens messages come to, six more for each.
pub open spec fn messages_tokens(messages: Seq<MessageV>) -> int
    decreases messages.len(),
{
    if messages.len() == 0 {
        0
    } else {
        messages_tokens(messages.drop_last()) + text_tokens(messages.last().role) + text_tokens(
            messages.last().content,
        ) + 6
    }
}

/// How many tokens the input of a request comes to.  Tools count as their JSON text; the order of
/// its fields makes no difference to the count.
pub open spec fn input_tokens(c: ChatV) -> int {
    let base = text_tokens(c.system) + 16 + messages_tokens(c.messages);
    if c.tools.len() == 0 {
        capped(base)
    } else {
        capped(base + text_tokens(json::json_text(chat::tools_json(c.tools))) + 8)
    }
}

fn plus(a: u32, b: u32) -> (r: u32)
    ensures
        r == capped(a + b),
{
    if a > u32::MAX - b {
        u32::MAX
    } else {
        a + b
    }
}

/// How many tokens the input of a request comes to.
pub fn estimate_chat_input_tokens(request: &ChatRequest) -> (r: u32)
    ensures
        r == input_tokens(request@),
{
    let ghost all = chat::messages_view(request.messages@);
    let mut tokens: u32 = plus(estimate_text_tokens(request.system.as_str()), 16);
    let mut i: usize = 0;
    assert(messages_tokens(all.take(0)) == 0);
    while i < request.messages.len()
        invariant
            i <= request.messages.len(),
            all == chat::messages_view(request.messages@),
            tokens == capped(
                text_tokens(request.system@) + 16 + messages_tokens(all.take(i as int)),
            ),
        decreases request.messages.len() - i,
    {
        assert(all.take(i + 1).drop_last() =~= all.take(i as int));
        tokens = plus(tokens, estimate_text_tokens(request.messages[i].role.as_str()));
        tokens = plus(tokens, estimate_text_tokens(request.messages[i].content.as_str()));
        tokens = plus(tokens, 6);
        i = i + 1;
    }
    assert(all.take(i as int) =~= all);
    if request.tools.len() > 0 {
        let listed = tools_value(request.tools.as_slice()).to_text();
        tokens = plus(tokens, estimate_text_tokens(listed.as_str()));
        tokens = plus(tokens, 8);
    }
    tokens
}

// ── Tools ───────────────────────────────────────────────────────────────

/// A parameter of a tool.
pub open spec fn parameter(kind: Seq<char>, description: Seq<char>) -> JValue {
    JValue::Obj(
        Map::<Seq<char>, JValue>::empty().insert("type"@, JValue::Str(kind)).insert(
            "description"@,
            JValue::Str(description),
        ),
    )
}

fn parameter_value(kind: &str, description: &str) -> (r: Json)
    ensures
        r@ == parameter(kind@, description@),
{
    let mut e: Vec<(String, Json)> = Vec::new();
    put_text(&mut e, "type", kind);
    put_text(&mut e, "description", description);
    Json::Obj(e)
}

pub const RECALL_DESCRIPTION: &'static str =
    "Use this tool when the current context lacks concrete facts needed for the task, especially metrics, dates, counts, percentages, names, risks, next steps, or other exact support. Use a short focused English query built from the entity, timeframe, and the missing facts. If the first recall is partial, call memory_recall again with a narrower query. Do not claim that something is not specified until you have searched for it.";

pub const LIST_DESCRIPTION: &'static str =
    "Use this tool to inspect what facts are available when recall is sparse or ambiguous before issuing a narrower memory_recall query.";

pub const QUERY_DESCRIPTION: &'static str =
    "Compact English retrieval query for the missing facts, centered on entity, timeframe, and missing facts.";

pub const KIND_DESCRIPTION: &'static str = "Optional fact kind filter.";

pub const SIZE_DESCRIPTION: &'static str = "Maximum context size to return.";

pub const LIMIT_DESCRIPTION: &'static str = "Maximum number of facts to inspect.";

/// The tool that searches memory.
pub open spec fn recall_tool() -> ToolDefV {
    ToolDefV {
        name: "memory_recall"@,
        description: RECALL_DESCRIPTION@,
        input_schema: JValue::Obj(
            Map::<Seq<char>, JValue>::empty().insert("type"@, JValue::Str("object"@)).insert(
                "properties"@,
                JValue::Obj(
                    Map::<Seq<char>, JValue>::empty().insert(
                        "query"@,
                        parameter("string"@, QUERY_DESCRIPTION@),
                    ).insert("kind"@, parameter("string"@, KIND_DESCRIPTION@)).insert(
                        "token_budget"@,
                        parameter("integer"@, SIZE_DESCRIPTION@),
                    ),
                ),
            ).insert("required"@, json::jtexts(seq!["query"@])),
        ),
    }
}

/// The tool that lists facts.
pub open spec fn list_tool() -> ToolDefV {
    ToolDefV {
        name: "memory_list"@,
        description: LIST_DESCRIPTION@,
        input_schema: JValue::Obj(
            Map::<Seq<char>, JValue>::empty().insert("type"@, JValue::Str("object"@)).insert(
                "properties"@,
                JValue::Obj(
                    Map::<Seq<char>, JValue>::empty().insert(
                        "kind"@,
                        parameter("string"@, KIND_DESCRIPTION@),
                    ).insert("limit"@, parameter("integer"@, LIMIT_DESCRIPTION@)),
                ),
            ),
        ),
    }
}

/// The tools that a model is given.
pub fn memory_tools() -> (r: Vec<ToolDef>)
    ensures
        chat::tools_view(r@) == seq![recall_tool(), list_tool()],
{
    let mut recall: Vec<(String, Json)> = Vec::new();
    put(&mut recall, "query", parameter_value("string", QUERY_DESCRIPTION));
    put(&mut recall, "kind", parameter_value("string", KIND_DESCRIPTION));
    put(&mut recall, "token_budget", parameter_value("integer", SIZE_DESCRIPTION));
    let mut needed: Vec<String> = Vec::new();
    needed.push("query".to_owned());
    assert(text::texts(needed@) =~= seq!["query"@]);
    let mut recall_schema: Vec<(String, Json)> = Vec::new();
    put_text(&mut recall_schema, "type", "object");
    put(&mut recall_schema, "properties", Json::Obj(recall));
    put(&mut recall_schema, "required", Json::texts(&needed));
    let mut list: Vec<(String, Json)> = Vec::new();
    put(&mut list, "kind", parameter_value("string", KIND_DESCRIPTION));
    put(&mut list, "limit", parameter_value("integer", LIMIT_DESCRIPTION));
    let mut list_schema: Vec<(String, Json)> = Vec::new();
    put_text(&mut list_schema, "type", "object");
    put(&mut list_schema, "properties", Json::Obj(list));
    let mut out: Vec<ToolDef> = Vec::new();
    out.push(
        ToolDef {
            name: "memory_recall".to_owned(),
            description: RECALL_DESCRIPTION.to_owned(),
            input_schema: Json::Obj(recall_schema),
        },
    );
    out.push(
        ToolDef {
            name: "memory_list".to_owned(),
            description: LIST_DESCRIPTION.to_owned(),
            input_schema: Json::Obj(list_schema),
        },
    );
    assert(chat::tools_view(out@) =~= seq![recall_tool(), list_tool()]);
    out
}

/// What a tool call asks of memory.
#[derive(Debug)]
pub enum ToolRequest {
    Recall(RecallParams),
    List(ListFactsParams),
    /// There is no such tool.
    Unknown(String),
}

pub ghost enum ToolRequestV {
    Recall(RecallV),
    List(ListV),
    Unknown(Seq<char>),
}

impl ToolRequest {
    pub open spec fn view(&self) -> ToolRequestV {
        match self {
            ToolRequest::Recall(p) => ToolRequestV::Recall(p@),
            ToolRequest::List(p) => ToolRequestV::List(p@),
            ToolRequest::Unknown(name) => ToolRequestV::Unknown(name@),
        }
    }
}

/// A number in a tool's input, or a default.
pub open spec fn input_number(input: JValue, key: Seq<char>, default: int) -> int {
    match json::jget(input, key) {
        Some(v) => match json::ji64(v) {
            Some(n) => n,
            None => default,
        },
        None => default,
    }
}

/// What a tool call asks of memory: always in the task's own context.
pub open spec fn tool_request(call: ToolCallV, s: StateV) -> ToolRequestV {
    if call.name == "memory_recall"@ {
        ToolRequestV::Recall(
            RecallV {
                key: s.context_key,
                agent_id: s.agent_id,
                swarm_id: s.swarm_id,
                query: match json::jget_str(call.input, "query"@) {
                    Some(q) => q,
                    None => ""@,
                },
                token_budget: input_number(call.input, "token_budget"@, 4000),
            },
        )
    } else if call.name == "memory_list"@ {
        ToolRequestV::List(
            ListV {
                key: s.context_key,
                agent_id: s.agent_id,
                swarm_id: s.swarm_id,
                kind: json::jget_str(call.input, "kind"@),
                limit: Some(input_number(call.input, "limit"@, 20) as i64),
            },
        )
    } else {
        ToolRequestV::Unknown(call.name)
    }
}

fn number_in(input: &Json, key: &str, default: i64) -> (r: i64)
    ensures
        r == input_number(input@, key@, default as int),
{
    match input.get(key) {
        Some(v) => match v.as_i64() {
            Some(n) => n,
            None => default,
        },
        None => default,
    }
}

/// What a tool call asks of memory.
pub fn execute_tool(call: &ToolCall, state: &TaskState) -> (r: ToolRequest)
    ensures
        r@ == tool_request(call@, state@),
{
    if same(call.name.as_str(), "memory_recall") {
        let query = match call.input.get_str("query") {
            Some(q) => q.to_owned(),
            None => "".to_owned(),
        };
        ToolRequest::Recall(
            RecallParams {
                key: state.context_key.clone(),
                agent_id: state.agent_id.clone(),
                swarm_id: state.swarm_id.clone(),
                query,
                token_budget: number_in(&call.input, "token_budget", 4000),
            },
        )
    } else if same(call.name.as_str(), "memory_list") {
        let kind = match call.input.get_str("kind") {
            Some(k) => Some(k.to_owned()),
            None => None,
        };
        ToolRequest::List(
            ListFactsParams {
                key: state.context_key.clone(),
                agent_id: state.agent_id.clone(),
                swarm_id: state.swarm_id.clone(),
                kind,
                limit: Some(number_in(&call.input, "limit", 20)),
            },
        )
    } else {
        ToolRequest::Unknown(call.name.clone())
    }
}

/// What a call of an unknown tool gives.
pub fn unknown_tool(name: &str) -> (r: String)
    ensures
        r@ == "unknown tool: "@ + name@,
{
    let mut out = "unknown tool: ".to_owned();
    out.append(name);
    out
}

/// How many characters of a text fit into so many bytes, the first `k` of them known to.
pub open spec fn fitting(s: Seq<char>, bytes: int, k: int) -> int
    decreases s.len() - k,
{
    if 0 <= k < s.len() && codec::utf8(s.take(k + 1)).len() <= bytes {
        fitting(s, bytes, k + 1)
    } else {
        k
    }
}

/// A tool's output, cut to 2000 bytes.
pub open spec fn cut_output(s: Seq<char>) -> Seq<char> {
    if codec::utf8(s).len() > 2000 {
        s.take(fitting(s, 2000, 0)) + "...(truncated)"@
    } else {
        s
    }
}

/// A tool's output, cut to 2000 bytes.
pub fn truncate_output(s: &str) -> (r: String)
    ensures
        r@ == cut_output(s@),
{
    if s.as_bytes().len() <= 2000 {
        return s.to_owned();
    }
    let chars = chars_of(s);
    let mut k: usize = 0;
    let mut more = true;
    while more
        invariant
            k <= chars.len(),
            chars@ == s@,
            fitting(s@, 2000, 0) == fitting(s@, 2000, k as int),
            !more ==> fitting(s@, 2000, k as int) == k,
        decreases chars.len() - k + (if more {
            1int
        } else {
            0
        }),
    {
        if k < chars.len() {
            let longer = string_of(&chars, 0, k + 1);
            assert(longer@ =~= s@.take(k + 1));
            if longer.as_str().as_bytes().len() <= 2000 {
                k = k + 1;
            } else {
                more = false;
            }
        } else {
            more = false;
        }
    }
    let mut out = string_of(&chars, 0, k);
    assert(out@ =~= s@.take(k as int));
    out.append("...(truncated)");
    out
}

/// What a tool call gave, as a text.
pub open spec fn output_text(output: Result<JValue, Seq<char>>) -> Seq<char> {
    match output {
        Ok(v) => json::json_text(v),
        Err(e) => "error: "@ + e,
    }
}

pub open spec fn output_view(output: Result<Json, String>) -> Result<JValue, Seq<char>> {
    match output {
        Ok(v) => Ok(v@),
        Err(e) => Err(e@),
    }
}

// ── The machine ─────────────────────────────────────────────────────────

/// What an attempt knows.
#[derive(Debug)]
pub struct Execution {
    pub task_text: String,
    pub retrieved_context: Option<String>,
    pub retry_reason: Option<String>,
    /// The answer limit of the plan and whether it allows tools, where there is a plan.
    pub limits: Option<(u32, bool)>,
    /// The system prompt of a retry.
    pub repair_prompt: String,
    /// What the tools gave so far.
    pub trace: Vec<String>,
    pub used_tools: bool,
    /// Whether a turn without text was forgiven already.
    pub recovered: bool,
    /// The tool calls of the last turn that are still to be made.
    pub pending: Vec<ToolCall>,
}

pub ghost struct ExecutionV {
    pub task_text: Seq<char>,
    pub retrieved_context: Option<Seq<char>>,
    pub retry_reason: Option<Seq<char>>,
    pub limits: Option<(u32, bool)>,
    pub repair_prompt: Seq<char>,
    pub trace: Seq<Seq<char>>,
    pub used_tools: bool,
    pub recovered: bool,
    pub pending: Seq<ToolCallV>,
}

/// What to do next.
#[derive(Debug)]
pub enum ExecutionAction {
    /// Ask the model, where the budget allows it.
    Ask { request: ChatRequest, input_tokens: u32 },
    /// Make a tool call.
    CallTool(ToolRequest),
    /// The attempt gave this result.
    Finished(String),
    /// The attempt failed.
    Failed(String),
}

pub ghost enum ActionV {
    Ask { request: ChatV, input_tokens: int },
    CallTool(ToolRequestV),
    Finished(Seq<char>),
    Failed(Seq<char>),
}

impl ExecutionAction {
    pub open spec fn view(&self) -> ActionV {
        match self {
            ExecutionAction::Ask { request, input_tokens } => ActionV::Ask {
                request: request@,
                input_tokens: *input_tokens as int,
            },
            ExecutionAction::CallTool(t) => ActionV::CallTool(t@),
            ExecutionAction::Finished(s) => ActionV::Finished(s@),
            ExecutionAction::Failed(s) => ActionV::Failed(s@),
        }
    }
}

/// What is said of a task that took too many turns.
pub open spec fn limit_message() -> Seq<char> {
    "execution exceeded maximum iteration limit ("@ + text::decimal(
        MAX_EXECUTION_ITERATIONS as nat,
    ) + ") without producing a final answer"@
}

/// Whether a task may take another turn.
pub fn enforce_execution_iteration_limit(iteration: u32) -> (r: Result<(), String>)
    ensures
        match r {
            Ok(_) => iteration <= MAX_EXECUTION_ITERATIONS,
            Err(message) => iteration > MAX_EXECUTION_ITERATIONS && message@ == limit_message(),
        },
{
    if iteration > MAX_EXECUTION_ITERATIONS {
        let mut message = "execution exceeded maximum iteration limit (".to_owned();
        message.append(decimal_of(MAX_EXECUTION_ITERATIONS as u64).as_str());
        message.append(") without producing a final answer");
        Err(message)
    } else {
        Ok(())
    }
}

/// Whether a turn has tools: not the very first one, where the plan forbids them.
pub open spec fn tools_enabled(m: ExecutionV, iteration: int) -> bool {
    !(iteration == 1 && m.retry_reason is None && m.trace.len() == 0 && (m.limits matches Some(l)
        && !l.1))
}

/// Whether a turn has tools.
pub fn execution_tools_enabled(
    iteration: u32,
    retry_reason: Option<&str>,
    tool_trace: &[String],
    limits: Option<(u32, bool)>,
) -> (r: bool)
    ensures
        r == !(iteration == 1 && retry_reason is None && tool_trace@.len() == 0 && (
        limits matches Some(l) && !l.1)),
{
    let forbidden = match limits {
        Some((_, use_tool)) => !use_tool,
        None => false,
    };
    !(iteration == 1 && retry_reason.is_none() && tool_trace.len() == 0 && forbidden)
}

/// What the model is asked in a turn.
pub open spec fn turn_request(m: ExecutionV, s: StateV) -> ChatV {
    let tools = if tools_enabled(m, s.iteration) {
        seq![recall_tool(), list_tool()]
    } else {
        seq![]
    };
    let max_tokens = match m.limits {
        Some(l) => l.0,
        None => 4096u32,
    };
    match m.retry_reason {
        Some(reason) => user_request(
            m.repair_prompt,
            prompts::repair_message(m.task_text, m.retrieved_context, reason, m.trace),
            tools,
            max_tokens,
        ),
        None => user_request(
            EXECUTION_PROMPT@,
            prompts::execution_message(
                prompts::deliverable_contract(s),
                m.task_text,
                m.retrieved_context,
                None,
                m.trace,
                if m.recovered {
                    Some(RECOVERY_NOTE@)
                } else {
                    None
                },
            ),
            tools,
            max_tokens,
        ),
    }
}

/// The next turn of a task.
pub open spec fn turn(m: ExecutionV, s: StateV) -> (StateV, ActionV) {
    let next = StateV { iteration: s.iteration + 1, ..s };
    if next.iteration > MAX_EXECUTION_ITERATIONS {
        (next, ActionV::Failed(limit_message()))
    } else {
        let request = turn_request(m, next);
        (next, ActionV::Ask { request, input_tokens: input_tokens(request) })
    }
}

/// What follows where the next turn can not be afforded: the task ends with what its tools gave.
pub open spec fn unaffordable(m: ExecutionV, s: StateV) -> (StateV, ActionV) {
    (
        StateV { status: TaskStatus::PartialBudgetOverdraw, ..s },
        ActionV::Finished(
            "(budget exhausted after "@ + text::decimal_int(s.iteration) + " iterations)\n"@
                + text::joined(m.trace, "\n"@),
        ),
    )
}

/// What follows an answer of the model.
pub open spec fn answered(m: ExecutionV, s: StateV, response: ResponseV, spent: AmountV) -> (
    ExecutionV,
    StateV,
    ActionV,
) {
    let charged = StateV { shell_spent: spent, ..s };
    if response.tool_calls.len() == 0 {
        let said = match response.text {
            Some(t) => t,
            None => seq![],
        };
        if m.used_tools && text::trimmed(said).len() == 0 && !m.recovered {
            let m2 = ExecutionV {
                recovered: true,
                trace: m.trace.push(EMPTY_OUTPUT_LINE@),
                ..m
            };
            let s2 = StateV {
                tool_trace: charged.tool_trace.push(
                    TraceV { tool: "empty_post_tool_output"@, success: false },
                ).push(TraceV { tool: "empty_output_recovery"@, success: true }),
                ..charged
            };
            let (s3, action) = turn(m2, s2);
            (m2, s3, action)
        } else {
            (m, charged, ActionV::Finished(said))
        }
    } else {
        (
            ExecutionV { used_tools: true, pending: response.tool_calls, ..m },
            charged,
            ActionV::CallTool(tool_request(response.tool_calls[0], charged)),
        )
    }
}

/// What follows a tool call.
pub open spec fn tool_done(m: ExecutionV, s: StateV, output: Result<JValue, Seq<char>>) -> (
    ExecutionV,
    StateV,
    ActionV,
) {
    let name = m.pending[0].name;
    let rest = m.pending.drop_first();
    let m2 = ExecutionV {
        trace: m.trace.push("["@ + name + "] → "@ + cut_output(output_text(output))),
        pending: rest,
        ..m
    };
    let s2 = StateV {
        tool_trace: s.tool_trace.push(TraceV { tool: name, success: output is Ok }),
        ..s
    };
    if rest.len() > 0 {
        (m2, s2, ActionV::CallTool(tool_request(rest[0], s2)))
    } else {
        let (s3, action) = turn(m2, s2);
        (m2, s3, action)
    }
}

/// What comes of an action of an attempt.
pub ghost enum ExecutionEventV {
    Unaffordable,
    Answered { response: ResponseV, spent: AmountV },
    CallFailed(Seq<char>),
    TimedOut,
    ToolDone(Result<JValue, Seq<char>>),
}

/// An attempt: the machine, the task and what to do.
pub ghost struct AttemptV {
    pub machine: ExecutionV,
    pub state: StateV,
    pub action: ActionV,
}

/// Whether an event is what can come of an action.
pub open spec fn answers(action: ActionV, e: ExecutionEventV) -> bool {
    match e {
        ExecutionEventV::ToolDone(_) => action is CallTool,
        _ => action is Ask,
    }
}

/// What follows an event.
pub open spec fn advanced(a: AttemptV, e: ExecutionEventV) -> AttemptV {
    match e {
        ExecutionEventV::Unaffordable => {
            let (state, action) = unaffordable(a.machine, a.state);
            AttemptV { machine: a.machine, state, action }
        },
        ExecutionEventV::Answered { response, spent } => {
            let (machine, state, action) = answered(a.machine, a.state, response, spent);
            AttemptV { machine, state, action }
        },
        ExecutionEventV::CallFailed(message) => AttemptV { action: ActionV::Failed(message), ..a },
        ExecutionEventV::TimedOut => AttemptV {
            action: ActionV::Failed("LLM call timed out"@),
            ..a
        },
        ExecutionEventV::ToolDone(output) => {
            let (machine, state, action) = tool_done(a.machine, a.state, output);
            AttemptV { machine, state, action }
        },
    }
}

/// An attempt after so many events.
pub open spec fn attempted(m: ExecutionV, s: StateV, events: Seq<ExecutionEventV>) -> AttemptV
    decreases events.len(),
{
    if events.len() == 0 {
        let (state, action) = turn(m, s);
        AttemptV { machine: m, state, action }
    } else {
        advanced(attempted(m, s, events.drop_last()), events.last())
    }
}

/// Whether each event is what can come of the action before it.
pub open spec fn orderly(m: ExecutionV, s: StateV, events: Seq<ExecutionEventV>) -> bool
    decreases events.len(),
{
    events.len() == 0 || (orderly(m, s, events.drop_last()) && answers(
        attempted(m, s, events.drop_last()).action,
        events.last(),
    ))
}

/// An attempt changes of its task only the count of turns, what was spent, the trace of its tools,
/// and the status where the budget gave out.
pub proof fn law_attempt_keeps_the_task(m: ExecutionV, s: StateV, events: Seq<ExecutionEventV>)
    ensures
        ({
            let s2 = attempted(m, s, events).state;
            &&& s2 == (StateV {
                iteration: s2.iteration,
                shell_spent: s2.shell_spent,
                tool_trace: s2.tool_trace,
                status: s2.status,
                ..s
            })
            &&& s2.status == s.status || s2.status == TaskStatus::PartialBudgetOverdraw
        }),
    decreases events.len(),
{
    if events.len() > 0 {
        law_attempt_keeps_the_task(m, s, events.drop_last());
    }
}

/// A task never takes more turns than the limit, over all its attempts.
pub proof fn law_turns_are_limited(m: ExecutionV, s: StateV)
    ensures
        turn(m, s).0.iteration == s.iteration + 1,
        turn(m, s).1 is Ask ==> turn(m, s).0.iteration <= MAX_EXECUTION_ITERATIONS,
        s.iteration >= MAX_EXECUTION_ITERATIONS ==> turn(m, s).1 == ActionV::Failed(
            limit_message(),
        ),
{
}

/// A turn without text after tool use is forgiven once: the second one ends the attempt.
pub proof fn law_empty_output_is_forgiven_once(
    m: ExecutionV,
    s: StateV,
    response: ResponseV,
    spent: AmountV,
)
    requires
        response.tool_calls.len() == 0,
        m.recovered,
    ensures
        answered(m, s, response, spent).2 is Finished,
{
}

/// Every call that a model makes leaves one entry in the task's trace, in order.
pub proof fn law_tool_calls_are_traced(m: ExecutionV, s: StateV, output: Result<JValue, Seq<char>>)
    requires
        m.pending.len() > 0,
    ensures
        tool_done(m, s, output).1.tool_trace == s.tool_trace.push(
            TraceV { tool: m.pending[0].name, success: output is Ok },
        ),
        tool_done(m, s, output).0.trace.len() == m.trace.len() + 1,
{
}

/// Tools only ever read the task's own context, as the task's own agent.
pub proof fn law_tools_stay_in_context(call: ToolCallV, s: StateV)
    ensures
        tool_request(call, s) matches ToolRequestV::Recall(p) ==> p.key == s.context_key
            && p.agent_id == s.agent_id && p.swarm_id == s.swarm_id,
        tool_request(call, s) matches ToolRequestV::List(p) ==> p.key == s.context_key && p.agent_id
            == s.agent_id && p.swarm_id == s.swarm_id,
{
}

/// The limits of a plan.
pub open spec fn limits_of(plan: Option<PlanV>) -> Option<(u32, bool)> {
    match plan {
        Some(p) => Some((p.max_tokens, p.use_tool)),
        None => None,
    }
}

impl Execution {
    pub open spec fn view(&self) -> ExecutionV {
        ExecutionV {
            task_text: self.task_text@,
            retrieved_context: text::opt_text(self.retrieved_context),
            retry_reason: text::opt_text(self.retry_reason),
            limits: self.limits,
            repair_prompt: self.repair_prompt@,
            trace: text::texts(self.trace@),
            used_tools: self.used_tools,
            recovered: self.recovered,
            pending: chat::calls_view(self.pending@),
        }
    }

    /// An attempt that has not begun.
    pub fn new(
        task_text: String,
        retrieved_context: Option<String>,
        retry_reason: Option<String>,
        plan: Option<&RecallExecutionPlan>,
        repair_prompt: String,
    ) -> (r: Execution)
        ensures
            r@ == fresh_execution(
                task_text@,
                text::opt_text(retrieved_context),
                text::opt_text(retry_reason),
                match plan {
                    Some(p) => Some(p@),
                    None => None,
                },
                repair_prompt@,
            ),
    {
        let limits = match plan {
            Some(p) => Some((p.max_tokens, p.use_tool)),
            None => None,
        };
        let r = Execution {
            task_text,
            retrieved_context,
            retry_reason,
            limits,
            repair_prompt,
            trace: Vec::new(),
            used_tools: false,
            recovered: false,
            pending: Vec::new(),
        };
        assert(text::texts(r.trace@) =~= seq![]);
        assert(chat::calls_view(r.pending@) =~= seq![]);
        r
    }

    /// What the model is asked in a turn.
    pub fn build_execution_request(&self, state: &TaskState) -> (r: ChatRequest)
        ensures
            r@ == turn_request(self@, state@),
    {
        let tools = if execution_tools_enabled(
            state.iteration,
            opt_str(&self.retry_reason),
            self.trace.as_slice(),
            self.limits,
        ) {
            memory_tools()
        } else {
            let none: Vec<ToolDef> = Vec::new();
            assert(chat::tools_view(none@) =~= seq![]);
            none
        };
        let max_tokens: u32 = match self.limits {
            Some((n, _)) => n,
            None => 4096,
        };
        match &self.retry_reason {
            Some(reason) => {
                let content = render_review_repair_user_message(
                    self.task_text.as_str(),
                    opt_str(&self.retrieved_context),
                    reason.as_str(),
                    self.trace.as_slice(),
                );
                ask_user(self.repair_prompt.as_str(), content, tools, max_tokens)
            },
            None => {
                let note = if self.recovered {
                    Some(RECOVERY_NOTE)
                } else {
                    None
                };
                let content = render_execution_user_message(
                    deliverable_contract_text(state),
                    self.task_text.as_str(),
                    opt_str(&self.retrieved_context),
                    None,
                    self.trace.as_slice(),
                    note,
                );
                ask_user(EXECUTION_PROMPT, content, tools, max_tokens)
            },
        }
    }

    /// The next turn of the task.
    pub fn begin(&self, state: &mut TaskState) -> (r: ExecutionAction)
        requires
            old(state).iteration < u32::MAX,
        ensures
            (final(state)@, r@) == turn(self@, old(state)@),
    {
        state.iteration = state.iteration + 1;
        match enforce_execution_iteration_limit(state.iteration) {
            Ok(_) => {
                let request = self.build_execution_request(state);
                let input_tokens: u32 = estimate_chat_input_tokens(&request);
                ExecutionAction::Ask { request, input_tokens }
            },
            Err(message) => ExecutionAction::Failed(message),
        }
    }

    /// The next turn can not be afforded.
    pub fn on_unaffordable(&self, state: &mut TaskState) -> (r: ExecutionAction)
        ensures
            (final(state)@, r@) == unaffordable(self@, old(state)@),
    {
        state.status = TaskStatus::PartialBudgetOverdraw;
        let mut out = "(budget exhausted after ".to_owned();
        out.append(decimal_of(state.iteration as u64).as_str());
        out.append(" iterations)\n");
        out.append(join(self.trace.as_slice(), "\n").as_str());
        ExecutionAction::Finished(out)
    }

    /// The model answered, and so much was spent on the task by now.
    pub fn on_answer(&mut self, state: &mut TaskState, response: LlmResponse, spent: Amount) -> (r:
        ExecutionAction)
        requires
            old(state).iteration < u32::MAX,
        ensures
            (final(self)@, final(state)@, r@) == answered(
                old(self)@,
                old(state)@,
                response@,
                spent@,
            ),
    {
        state.shell_spent = spent;
        if response.tool_calls.len() == 0 {
            let said = match response.text {
                Some(t) => t,
                None => String::new(),
            };
            if self.used_tools && is_blank(said.as_str()) && !self.recovered {
                self.recovered = true;
                self.trace.push(EMPTY_OUTPUT_LINE.to_owned());
                assert(text::texts(self.trace@) =~= text::texts(old(self).trace@).push(
                    EMPTY_OUTPUT_LINE@,
                ));
                state.note_tool("empty_post_tool_output", false);
                state.note_tool("empty_output_recovery", true);
                self.begin(state)
            } else {
                ExecutionAction::Finished(said)
            }
        } else {
            self.used_tools = true;
            self.pending = response.tool_calls;
            let request = execute_tool(&self.pending[0], state);
            ExecutionAction::CallTool(request)
        }
    }

    /// The model could not be asked.
    pub fn on_failure(&self, message: String) -> (r: ExecutionAction)
        ensures
            r@ == ActionV::Failed(message@),
    {
        ExecutionAction::Failed(message)
    }

    /// The model did not answer in time.
    pub fn on_timeout(&self) -> (r: ExecutionAction)
        ensures
            r@ == ActionV::Failed("LLM call timed out"@),
    {
        ExecutionAction::Failed("LLM call timed out".to_owned())
    }

    /// The tool call was made.
    pub fn on_tool(&mut self, state: &mut TaskState, output: Result<Json, String>) -> (r:
        ExecutionAction)
        requires
            old(self).pending@.len() > 0,
            old(state).iteration < u32::MAX,
        ensures
            (final(self)@, final(state)@, r@) == tool_done(
                old(self)@,
                old(state)@,
                output_view(output),
            ),
    {
        let call = self.pending.remove(0);
        assert(chat::calls_view(self.pending@) =~= chat::calls_view(
            old(self).pending@,
        ).drop_first());
        let success = output.is_ok();
        let said = match output {
            Ok(v) => v.to_text(),
            Err(e) => {
                let mut s = "error: ".to_owned();
                s.append(e.as_str());
                s
            },
        };
        let mut line = "[".to_owned();
        line.append(call.name.as_str());
        line.append("] → ");
        line.append(truncate_output(said.as_str()).as_str());
        let ghost it = line@;
        self.trace.push(line);
        assert(text::texts(self.trace@) =~= text::texts(old(self).trace@).push(it));
        state.note_tool(call.name.as_str(), success);
        if self.pending.len() > 0 {
            let request = execute_tool(&self.pending[0], state);
            ExecutionAction::CallTool(request)
        } else {
            self.begin(state)
        }
    }
}

// ── What a model is told ────────────────────────────────────────────────

/// The one message of a turn.
pub open spec fn told(request: ChatV) -> Seq<char> {
    request.messages[0].content
}

/// A turn asks one question as the user, which shows the task, the context where there is any,
/// and the reason for a retry where there is one.  A retry goes by the prompt for repairs.
pub proof fn law_turn_shows_its_task(m: ExecutionV, s: StateV)
    ensures
        ({
            let request = turn_request(m, s);
            &&& request.messages.len() == 1
            &&& request.messages[0].role == "user"@
            &&& prompts::shows(told(request), "task"@, m.task_text)
            &&& m.retrieved_context matches Some(c) ==> text::trimmed(c).len() > 0
                ==> prompts::shows(told(request), "retrieved_context"@, c)
            &&& m.retry_reason matches Some(reason) ==> request.system == m.repair_prompt
                && prompts::shows(told(request), "reviewer_output"@, reason)
            &&& m.retry_reason is None ==> request.system == EXECUTION_PROMPT@
        }),
{
    match m.retry_reason {
        Some(reason) => {
            prompts::law_repair_message_shows_what_it_is_given(
                m.task_text,
                m.retrieved_context,
                reason,
                m.trace,
            );
        },
        None => {
            prompts::law_execution_message_shows_what_it_is_given(
                prompts::deliverable_contract(s),
                m.task_text,
                m.retrieved_context,
                None,
                m.trace,
                if m.recovered {
                    Some(RECOVERY_NOTE@)
                } else {
                    None
                },
            );
        },
    }
}

/// The question of a first attempt shows the contract of the task's deliverable, where a coding
/// CLI owes one.
pub proof fn law_first_attempt_shows_its_contract(m: ExecutionV, s: StateV)
    requires
        m.retry_reason is None,
    ensures
        prompts::deliverable_contract(s) matches Some(c) ==> text::trimmed(c).len() > 0
            ==> prompts::shows(told(turn_request(m, s)), "deliverable_contract"@, c),
        m.recovered ==> text::trimmed(RECOVERY_NOTE@).len() > 0 ==> prompts::shows(
            told(turn_request(m, s)),
            "execution_recovery_note"@,
            RECOVERY_NOTE@,
        ),
{
    prompts::law_execution_message_shows_what_it_is_given(
        prompts::deliverable_contract(s),
        m.task_text,
        m.retrieved_context,
        None,
        m.trace,
        if m.recovered {
            Some(RECOVERY_NOTE@)
        } else {
            None
        },
    );
}

/// A turn shows every line of the trace that is not blank.
pub proof fn law_turn_shows_each_line(m: ExecutionV, s: StateV, k: int)
    requires
        0 <= k < m.trace.len(),
        text::trimmed(m.trace[k]).len() > 0,
    ensures
        text::has_infix(told(turn_request(m, s)), prompts::escaped(m.trace[k])),
{
    let all = text::joined(m.trace, "\n"@);
    let line = m.trace[k];
    text::law_joined_text_holds_each_part(m.trace, "\n"@, k);
    let at = text::law_trimming_takes_only_space(line);
    let i = choose|i: int| text::occurs_at(all, line, i);
    assert(text::trimmed(line)[0] == line[at]);
    assert(all.subrange(i, i + line.len())[at] == all[i + at]);
    text::law_blank_text_is_all_space(all, i + at);
    match m.retry_reason {
        Some(reason) => {
            prompts::law_repair_message_shows_what_it_is_given(
                m.task_text,
                m.retrieved_context,
                reason,
                m.trace,
            );
        },
        None => {
            prompts::law_execution_message_shows_what_it_is_given(
                prompts::deliverable_contract(s),
                m.task_text,
                m.retrieved_context,
                None,
                m.trace,
                if m.recovered {
                    Some(RECOVERY_NOTE@)
                } else {
                    None
                },
            );
        },
    }
    let message = told(turn_request(m, s));
    prompts::law_shown_text_stands_in_the_message(message, "tool_trace"@, all);
    prompts::law_escaping_keeps_parts(all, line);
    text::lemma_infix_of_infix(message, prompts::escaped(all), prompts::escaped(line));
}

/// Whatever happens in an attempt, each of its turns asks about the same task, in the same
/// context, and for the same reason where it is a retry.
pub proof fn law_every_turn_shows_its_task(m: ExecutionV, s: StateV, events: Seq<ExecutionEventV>)
    ensures
        attempted(m, s, events).action matches ActionV::Ask { request, .. } ==> {
            &&& request.messages.len() == 1
            &&& prompts::shows(told(request), "task"@, m.task_text)
            &&& m.retrieved_context matches Some(c) ==> text::trimmed(c).len() > 0
                ==> prompts::shows(told(request), "retrieved_context"@, c)
            &&& m.retry_reason matches Some(reason) ==> request.system == m.repair_prompt
                && prompts::shows(told(request), "reviewer_output"@, reason)
            &&& m.retry_reason is None ==> request.system == EXECUTION_PROMPT@
        },
        ({
            let m2 = attempted(m, s, events).machine;
            &&& m2.task_text == m.task_text
            &&& m2.retrieved_context == m.retrieved_context
            &&& m2.retry_reason == m.retry_reason
            &&& m2.repair_prompt == m.repair_prompt
            &&& m2.limits == m.limits
        }),
    decreases events.len(),
{
    if events.len() == 0 {
        law_turn_shows_its_task(m, StateV { iteration: s.iteration + 1, ..s });
    } else {
        law_every_turn_shows_its_task(m, s, events.drop_last());
        let a = attempted(m, s, events.drop_last());
        let b = advanced(a, events.last());
        law_turn_shows_its_task(b.machine, b.state);
    }
}

/// What the tools gave is never forgotten within an attempt: the trace only grows.
pub proof fn law_trace_only_grows(a: AttemptV, e: ExecutionEventV)
    requires
        e is ToolDone ==> a.machine.pending.len() > 0,
    ensures
        ({
            let b = advanced(a, e);
            &&& a.machine.trace.len() <= b.machine.trace.len()
            &&& b.machine.trace.take(a.machine.trace.len() as int) == a.machine.trace
        }),
{
    let t = a.machine.trace;
    assert(t.take(t.len() as int) =~= t);
    assert forall|line: Seq<char>| (#[trigger] t.push(line)).take(t.len() as int) == t by {
        assert(t.push(line).take(t.len() as int) =~= t);
    }
}

proof fn lemma_fitting(s: Seq<char>, bytes: int, k: int)
    requires
        0 <= k <= s.len(),
        codec::utf8(s.take(k)).len() <= bytes,
    ensures
        k <= fitting(s, bytes, k) <= s.len(),
        codec::utf8(s.take(fitting(s, bytes, k))).len() <= bytes,
        fitting(s, bytes, k) < s.len() ==> codec::utf8(s.take(fitting(s, bytes, k) + 1)).len()
            > bytes,
    decreases s.len() - k,
{
    if k < s.len() && codec::utf8(s.take(k + 1)).len() <= bytes {
        lemma_fitting(s, bytes, k + 1);
    }
}

/// A tool's output of at most 2000 bytes is kept whole.  Of a longer one as many characters are
/// kept as 2000 bytes hold, from its start.
pub proof fn law_output_is_kept(s: Seq<char>) -> (n: int)
    ensures
        0 <= n <= s.len(),
        s.take(n) == cut_output(s).take(n),
        n <= cut_output(s).len(),
        codec::utf8(s).len() <= 2000 ==> n == s.len() && cut_output(s) == s,
        codec::utf8(s).len() > 2000 ==> codec::utf8(s.take(n)).len() <= 2000 && n < s.len()
            && codec::utf8(s.take(n + 1)).len() > 2000 && cut_output(s) == s.take(n)
            + "...(truncated)"@,
{
    if codec::utf8(s).len() <= 2000 {
        s.len() as int
    } else {
        assert(s.take(0) =~= seq![]);
        assert(codec::utf8(Seq::<char>::empty()).len() == 0);
        lemma_fitting(s, 2000, 0);
        let n = fitting(s, 2000, 0);
        assert(s.take(s.len() as int) =~= s);
        assert(cut_output(s).take(n) =~= s.take(n));
        n
    }
}

proof fn lemma_bracket_is_not_blank(name: Seq<char>, said: Seq<char>)
    ensures
        text::trimmed("["@ + name + "] → "@ + said).len() > 0,
{
    reveal_strlit("[");
    let line = "["@ + name + "] → "@ + said;
    assert(line[0] == '[');
    text::law_blank_text_is_all_space(line, 0);
}

proof fn lemma_line_shows_the_output(line: Seq<char>, head: Seq<char>, said: Seq<char>, message: Seq<char>)
    requires
        line == head + cut_output(said),
        text::has_infix(message, prompts::escaped(line)),
    ensures
        codec::utf8(said).len() <= 2000 ==> text::has_infix(message, prompts::escaped(head + said)),
        codec::utf8(said).len() > 2000 ==> exists|n: int|
            0 <= n < said.len() && codec::utf8(said.take(n)).len() <= 2000 < codec::utf8(
                said.take(n + 1),
            ).len() && text::has_infix(message, prompts::escaped(head + #[trigger] said.take(n))),
{
    let n = law_output_is_kept(said);
    if codec::utf8(said).len() > 2000 {
        let short = head + said.take(n);
        assert(line =~= short + "...(truncated)"@);
        text::lemma_infix(seq![], short, "...(truncated)"@);
        prompts::law_escaping_keeps_parts(line, short);
        text::lemma_infix_of_infix(message, prompts::escaped(line), prompts::escaped(short));
    }
}

/// The model is given what its tools gave: the question that follows the last call shows the
/// tool's name and its output, whole where it is at most 2000 bytes and from its start where it
/// is longer.
pub proof fn law_tool_output_reaches_the_model(
    m: ExecutionV,
    s: StateV,
    output: Result<JValue, Seq<char>>,
    said: Seq<char>,
)
    requires
        m.pending.len() == 1,
        s.iteration < MAX_EXECUTION_ITERATIONS,
        said == (match output {
            Ok(v) => json::json_text(v),
            Err(e) => "error: "@ + e,
        }),
    ensures
        tool_done(m, s, output).2 matches ActionV::Ask { request, .. } && {
            let head = "["@ + m.pending[0].name + "] → "@;
            &&& codec::utf8(said).len() <= 2000 ==> text::has_infix(
                told(request),
                prompts::escaped(head + said),
            )
            &&& codec::utf8(said).len() > 2000 ==> exists|n: int|
                0 <= n < said.len() && codec::utf8(said.take(n)).len() <= 2000 < codec::utf8(
                    said.take(n + 1),
                ).len() && text::has_infix(
                    told(request),
                    prompts::escaped(head + #[trigger] said.take(n)),
                )
        },
{
    let name = m.pending[0].name;
    let (m2, s2, _) = tool_done(m, s, output);
    let line = m2.trace.last();
    let head = "["@ + name + "] → "@;
    lemma_bracket_is_not_blank(name, cut_output(said));
    assert(line == head + cut_output(said));
    law_turn_shows_each_line(m2, s2, m2.trace.len() - 1);
    lemma_line_shows_the_output(line, head, said, told(turn_request(m2, s2)));
}

/// Every tool call leaves its output in the trace, whatever calls are still to be made: the last
/// line names the tool and goes on with the output, whole where it is at most 2000 bytes.
pub proof fn law_trace_holds_the_output(m: ExecutionV, s: StateV, output: Result<JValue, Seq<char>>)
    requires
        m.pending.len() > 0,
    ensures
        ({
            let trace = tool_done(m, s, output).0.trace;
            let said = match output {
                Ok(v) => json::json_text(v),
                Err(e) => "error: "@ + e,
            };
            &&& trace.len() == m.trace.len() + 1
            &&& trace.take(m.trace.len() as int) == m.trace
            &&& text::has_prefix(trace.last(), "["@ + m.pending[0].name + "] → "@)
            &&& codec::utf8(said).len() <= 2000 ==> text::has_suffix(trace.last(), said)
        }),
{
    let trace = tool_done(m, s, output).0.trace;
    let said = match output {
        Ok(v) => json::json_text(v),
        Err(e) => "error: "@ + e,
    };
    let head = "["@ + m.pending[0].name + "] → "@;
    let line = trace.last();
    assert(trace.take(m.trace.len() as int) =~= m.trace);
    assert(line =~= head + cut_output(said));
    assert(line.subrange(0, head.len() as int) =~= head);
    let _ = law_output_is_kept(said);
    if codec::utf8(said).len() <= 2000 {
        assert(line.subrange(line.len() - said.len(), line.len() as int) =~= said);
    }
}

// ── What comes of an answer ─────────────────────────────────────────────

/// What a model says is the result of the attempt, to the letter, unless it said nothing after it
/// used tools.
pub proof fn law_words_of_the_model_are_the_result(
    m: ExecutionV,
    s: StateV,
    response: ResponseV,
    spent: AmountV,
)
    requires
        response.tool_calls.len() == 0,
    ensures
        response.text matches Some(t) ==> text::trimmed(t).len() > 0 || !m.used_tools ==> answered(
            m,
            s,
            response,
            spent,
        ).2 == ActionV::Finished(t),
        answered(m, s, response, spent).1.shell_spent == spent,
{
}

/// Nothing said after tools were used is not taken for a result at first: the model is told and
/// asked again.
pub proof fn law_silence_after_tools_is_asked_about(
    m: ExecutionV,
    s: StateV,
    response: ResponseV,
    spent: AmountV,
)
    requires
        response.tool_calls.len() == 0,
        response.text matches Some(t) ==> text::trimmed(t).len() == 0,
        m.used_tools,
        !m.recovered,
        s.iteration < MAX_EXECUTION_ITERATIONS,
    ensures
        answered(m, s, response, spent).2 is Ask,
        answered(m, s, response, spent).0.recovered,
        answered(m, s, response, spent).1.iteration == s.iteration + 1,
{
    let _ = text::law_trimming_takes_only_space(Seq::<char>::empty());
}

/// The calls of a model are made, all of them and in their order: the first at once, each other
/// when the one before it is done.
pub proof fn law_calls_of_the_model_are_made(
    m: ExecutionV,
    s: StateV,
    response: ResponseV,
    spent: AmountV,
    output: Result<JValue, Seq<char>>,
)
    ensures
        response.tool_calls.len() > 0 ==> {
            let (m2, s2, action) = answered(m, s, response, spent);
            &&& m2.pending == response.tool_calls
            &&& m2.used_tools
            &&& s2.shell_spent == spent
            &&& action == ActionV::CallTool(tool_request(response.tool_calls[0], s2))
        },
        m.pending.len() > 1 ==> {
            let (m2, s2, action) = tool_done(m, s, output);
            &&& m2.pending == m.pending.drop_first()
            &&& action == ActionV::CallTool(tool_request(m.pending[1], s2))
        },
        m.pending.len() == 1 && s.iteration < MAX_EXECUTION_ITERATIONS ==> tool_done(
            m,
            s,
            output,
        ).2 is Ask,
{
}

/// A tool call asks memory for what the model asked for: its query, its filter, its limits where
/// it gave them.
pub proof fn law_call_asks_what_the_model_asked(call: ToolCallV, s: StateV)
    ensures
        call.name == "memory_recall"@ ==> (tool_request(call, s) matches ToolRequestV::Recall(p) && {
            &&& json::jget_str(call.input, "query"@) matches Some(q) ==> p.query == q
            &&& json::jget_str(call.input, "query"@) is None ==> p.query == ""@
            &&& json::ji64(json::jat(call.input, "token_budget"@)) matches Some(n)
                ==> p.token_budget == n
            &&& json::jget(call.input, "token_budget"@) is None ==> p.token_budget == 4000
        }),
        call.name == "memory_list"@ ==> (tool_request(call, s) matches ToolRequestV::List(p) && {
            &&& p.kind == json::jget_str(call.input, "kind"@)
            &&& json::ji64(json::jat(call.input, "limit"@)) matches Some(n) ==> p.limit == Some(
                n as i64,
            )
            &&& json::jget(call.input, "limit"@) is None ==> p.limit == Some(20i64)
        }),
        call.name != "memory_recall"@ && call.name != "memory_list"@ ==> tool_request(call, s)
            == ToolRequestV::Unknown(call.name),
{
    reveal_strlit("memory_recall");
    reveal_strlit("memory_list");
    assert("memory_recall"@.len() != "memory_list"@.len());
}

/// A turn may use both memory tools, unless it is the first of a task whose plan forbids tools;
/// its answer is limited as the plan says.
pub proof fn law_turn_follows_its_plan(m: ExecutionV, s: StateV)
    ensures
        s.iteration > 1 || m.limits is None || m.retry_reason is Some ==> ({
            let tools = turn_request(m, s).tools;
            &&& tools.len() == 2
            &&& tools[0].name == "memory_recall"@
            &&& tools[1].name == "memory_list"@
        }),
        s.iteration == 1 && m.retry_reason is None && m.trace.len() == 0 && m.limits == Some(
            (turn_request(m, s).max_tokens, false),
        ) ==> turn_request(m, s).tools.len() == 0,
        m.limits matches Some(l) ==> turn_request(m, s).max_tokens == l.0,
        m.limits is None ==> turn_request(m, s).max_tokens == 4096,
{
}

/// A turn that can not be afforded ends the attempt with all that the tools gave.
pub proof fn law_unaffordable_turn_gives_the_trace(m: ExecutionV, s: StateV, k: int)
    requires
        0 <= k < m.trace.len(),
    ensures
        unaffordable(m, s).0.status == TaskStatus::PartialBudgetOverdraw,
        unaffordable(m, s).1 matches ActionV::Finished(said) && text::has_infix(said, m.trace[k]),
{
    text::law_joined_text_holds_each_part(m.trace, "\n"@, k);
    let said = unaffordable(m, s).1->Finished_0;
    let all = text::joined(m.trace, "\n"@);
    let head = "(budget exhausted after "@ + text::decimal_int(s.iteration) + " iterations)\n"@;
    assert(said =~= head + all);
    text::lemma_infix(head, all, seq![]);
    text::lemma_infix_of_infix(said, all, m.trace[k]);
}

proof fn lemma_ascii_count(a: Seq<char>, b: Seq<char>)
    ensures
        ascii_count(a + b) == ascii_count(a) + ascii_count(b),
        ascii_count(b) <= b.len(),
    decreases b.len(),
{
    if b.len() == 0 {
        assert(a + b =~= a);
    } else {
        lemma_ascii_count(a, b.drop_last());
        assert((a + b).drop_last() =~= a + b.drop_last());
        assert((a + b).last() == b.last());
    }
}

/// Whether a character is one of the plain ones, which a model reads four at a time.
pub open spec fn is_plain(c: char) -> bool {
    (c as u32) < 128
}

proof fn lemma_plain_text(s: Seq<char>, plain: bool)
    requires
        forall|i: int| 0 <= i < s.len() ==> is_plain(#[trigger] s[i]) == plain,
    ensures
        ascii_count(s) == (if plain {
            s.len()
        } else {
            0
        }),
    decreases s.len(),
{
    if s.len() > 0 {
        let front = s.drop_last();
        assert forall|i: int| 0 <= i < front.len() implies is_plain(#[trigger] front[i])
            == plain by {
            assert(front[i] == s[i]);
        }
        lemma_plain_text(front, plain);
        assert(s.last() == s[s.len() - 1]);
    }
}

/// A text is estimated at a token for four plain characters and two for any other; more text is
/// never estimated at less, and the estimate fits its number.
pub proof fn law_estimate_goes_by_characters(s: Seq<char>, more: Seq<char>)
    ensures
        0 <= text_tokens(s) <= u32::MAX,
        text_tokens(s) <= text_tokens(s + more),
        s.len() <= u32::MAX && (forall|i: int| 0 <= i < s.len() ==> is_plain(#[trigger] s[i]))
            ==> text_tokens(s) == (s.len() + 3) / 4,
        2 * s.len() <= u32::MAX && (forall|i: int|
            0 <= i < s.len() ==> !is_plain(#[trigger] s[i])) ==> text_tokens(s) == 2 * s.len(),
{
    lemma_ascii_count(s, more);
    lemma_ascii_count(seq![], s);
    assert(Seq::<char>::empty() + s =~= s);
    if forall|i: int| 0 <= i < s.len() ==> is_plain(#[trigger] s[i]) {
        lemma_plain_text(s, true);
    }
    if forall|i: int| 0 <= i < s.len() ==> !is_plain(#[trigger] s[i]) {
        lemma_plain_text(s, false);
    }
}

/// The estimate of a question counts all that is sent: its prompt, each of its messages, and the
/// tools that it offers.
pub proof fn law_estimate_counts_all_that_is_sent(c: ChatV, message: MessageV, tools: Seq<ToolDefV>)
    requires
        c.tools.len() == 0,
    ensures
        c.messages.len() == 0 && text_tokens(c.system) + 16 <= u32::MAX ==> input_tokens(c)
            == text_tokens(c.system) + 16,
        input_tokens(ChatV { messages: c.messages.push(message), ..c }) < u32::MAX ==> input_tokens(
            ChatV { messages: c.messages.push(message), ..c },
        ) == input_tokens(c) + text_tokens(message.role) + text_tokens(message.content) + 6,
        tools.len() > 0 && input_tokens(ChatV { tools, ..c }) < u32::MAX ==> input_tokens(
            ChatV { tools, ..c },
        ) == input_tokens(c) + text_tokens(json::json_text(chat::tools_json(tools))) + 8,
{
    assert(c.messages.push(message).drop_last() =~= c.messages);
    law_estimate_goes_by_characters(message.role, seq![]);
    law_estimate_goes_by_characters(message.content, seq![]);
    law_estimate_goes_by_characters(json::json_text(chat::tools_json(tools)), seq![]);
}

/// A turn is paid for by what it asks: its estimate is that of the very question that is sent.
pub proof fn law_turn_is_estimated(m: ExecutionV, s: StateV)
    ensures
        turn(m, s).1 matches ActionV::Ask { request, input_tokens: n } ==> n == input_tokens(request)
            && request == turn_request(m, StateV { iteration: s.iteration + 1, ..s }),
        s.iteration < MAX_EXECUTION_ITERATIONS ==> turn(m, s).1 is Ask,
        turn(m, s).0 == (StateV { iteration: s.iteration + 1, ..s }),
{
}

/// A call that failed ends the attempt with what went wrong.
pub proof fn law_failed_call_ends_the_attempt(a: AttemptV, message: Seq<char>)
    ensures
        advanced(a, ExecutionEventV::CallFailed(message)).action == ActionV::Failed(message),
        advanced(a, ExecutionEventV::TimedOut).action is Failed,
        advanced(a, ExecutionEventV::CallFailed(message)).state == a.state,
        advanced(a, ExecutionEventV::TimedOut).state == a.state,
{
}

/// A plan sets the limits of its attempt: the length of an answer and whether there are tools.
pub proof fn law_limits_are_the_plans(p: PlanV, m: ExecutionV, s: StateV)
    ensures
        limits_of(Some(p)) == Some((p.max_tokens, p.use_tool)),
        limits_of(None) is None,
        m.limits == limits_of(Some(p)) ==> turn_request(m, s).max_tokens == p.max_tokens,
        m.limits == limits_of(Some(p)) && p.use_tool ==> turn_request(m, s).tools.len() == 2,
{
}

proof fn lemma_schema_keys()
    ensures
        "type"@.len() == 4 && "type"@[0] == 't',
        "properties"@.len() == 10,
        "required"@.len() == 8,
        "query"@.len() == 5 && "query"@[0] == 'q',
        "kind"@.len() == 4 && "kind"@[0] == 'k',
        "token_budget"@.len() == 12,
        "limit"@.len() == 5 && "limit"@[0] == 'l',
        "description"@.len() == 11,
{
    reveal_strlit("type");
    reveal_strlit("properties");
    reveal_strlit("required");
    reveal_strlit("query");
    reveal_strlit("kind");
    reveal_strlit("token_budget");
    reveal_strlit("limit");
    reveal_strlit("description");
}

/// The tools that are offered say what they take.
pub proof fn law_offered_tools_say_what_they_take()
    ensures
        ({
            let recall = recall_tool().input_schema;
            let list = list_tool().input_schema;
            let given = json::jat(recall, "properties"@);
            let listed = json::jat(list, "properties"@);
            &&& json::jget_str(recall, "type"@) == Some("object"@)
            &&& json::jget_str(list, "type"@) == Some("object"@)
            &&& json::jget_str(json::jat(given, "query"@), "type"@) == Some("string"@)
            &&& json::jget_str(json::jat(given, "kind"@), "type"@) == Some("string"@)
            &&& json::jget_str(json::jat(given, "token_budget"@), "type"@) == Some("integer"@)
            &&& json::jget_str(json::jat(listed, "kind"@), "type"@) == Some("string"@)
            &&& json::jget_str(json::jat(listed, "limit"@), "type"@) == Some("integer"@)
            &&& json::jat(recall, "required"@) == json::jtexts(seq!["query"@])
        }),
{
    lemma_schema_keys();
}

/// Silence after tools leaves its marks: the trace has a line for it, and the task's trace both
/// the silence and the second chance.
pub proof fn law_silence_leaves_its_marks(
    m: ExecutionV,
    s: StateV,
    response: ResponseV,
    spent: AmountV,
)
    requires
        response.tool_calls.len() == 0,
        response.text matches Some(t) ==> text::trimmed(t).len() == 0,
        m.used_tools,
        !m.recovered,
    ensures
        ({
            let (m2, s2, action) = answered(m, s, response, spent);
            &&& m2.trace == m.trace.push(EMPTY_OUTPUT_LINE@)
            &&& s2.tool_trace.len() == s.tool_trace.len() + 2
            &&& !s2.tool_trace[s.tool_trace.len() as int].success
            &&& s2.tool_trace.last().success
            &&& s2.shell_spent == spent
            &&& m2.used_tools && m2.pending == m.pending
        }),
{
    assert(text::trimmed(Seq::<char>::empty()).len() == 0);
}

/// An attempt that has not asked yet.
pub open spec fn fresh_execution(
    task_text: Seq<char>,
    retrieved_context: Option<Seq<char>>,
    retry_reason: Option<Seq<char>>,
    plan: Option<PlanV>,
    repair_prompt: Seq<char>,
) -> ExecutionV {
    ExecutionV {
        task_text,
        retrieved_context,
        retry_reason,
        limits: limits_of(plan),
        repair_prompt,
        trace: seq![],
        used_tools: false,
        recovered: false,
        pending: seq![],
    }
}

/// An attempt asks by what it was given: its first question shows the task, the context and the
/// reason that the last one was sent back for, within the limits of its plan.
pub proof fn law_attempt_asks_by_what_it_was_given(
    task_text: Seq<char>,
    context: Option<Seq<char>>,
    reason: Option<Seq<char>>,
    plan: Option<PlanV>,
    repair_prompt: Seq<char>,
    s: StateV,
)
    requires
        s.iteration < MAX_EXECUTION_ITERATIONS,
    ensures
        turn(fresh_execution(task_text, context, reason, plan, repair_prompt), s).1 matches ActionV::Ask {
            request,
            ..
        } && {
            &&& prompts::shows(told(request), "task"@, task_text)
            &&& context matches Some(c) ==> text::trimmed(c).len() > 0 ==> prompts::shows(
                told(request),
                "retrieved_context"@,
                c,
            )
            &&& reason matches Some(why) ==> request.system == repair_prompt && prompts::shows(
                told(request),
                "reviewer_output"@,
                why,
            )
            &&& reason is None ==> request.system == EXECUTION_PROMPT@
            &&& plan matches Some(p) ==> request.max_tokens == p.max_tokens
        },
{
    let m = fresh_execution(task_text, context, reason, plan, repair_prompt);
    law_turn_shows_its_task(m, StateV { iteration: s.iteration + 1, ..s });
}

/// An attempt that ends without an answer says how many turns it had.
pub proof fn law_end_without_answer_is_told(m: ExecutionV, s: StateV)
    ensures
        text::has_infix(limit_message(), "("@ + text::decimal(32) + ")"@),
        unaffordable(m, s).1 matches ActionV::Finished(said) && text::has_prefix(
            said,
            "(budget exhausted after "@ + text::decimal_int(s.iteration) + " iterations)"@,
        ),
        unaffordable(m, s).0 == (StateV { status: TaskStatus::PartialBudgetOverdraw, ..s }),
{
    reveal_strlit("execution exceeded maximum iteration limit (");
    reveal_strlit("(");
    reveal_strlit(")");
    reveal_strlit(") without producing a final answer");
    let head = "execution exceeded maximum iteration limit ("@;
    let tail = ") without producing a final answer"@;
    let n = head.len() as int;
    assert(head =~= head.take(n - 1) + "("@);
    assert(tail =~= ")"@ + tail.skip(1));
    let core = "("@ + text::decimal(32) + ")"@;
    assert(limit_message() =~= head.take(n - 1) + core + tail.skip(1));
    text::lemma_infix(head.take(n - 1), core, tail.skip(1));
    reveal_strlit(" iterations)\n");
    reveal_strlit(" iterations)");
    let said = "(budget exhausted after "@ + text::decimal_int(s.iteration) + " iterations)\n"@
        + text::joined(m.trace, "\n"@);
    let told = "(budget exhausted after "@ + text::decimal_int(s.iteration) + " iterations)"@;
    assert(said.subrange(0, told.len() as int) =~= told);
}

/// A model that says nothing and used no tools leaves an empty result.
pub proof fn law_silence_is_an_empty_result(
    m: ExecutionV,
    s: StateV,
    response: ResponseV,
    spent: AmountV,
)
    requires
        response.tool_calls.len() == 0,
        response.text is None,
        !m.used_tools || m.recovered,
    ensures
        answered(m, s, response, spent).2 == ActionV::Finished(Seq::empty()),
        answered(m, s, response, spent).0 == m,
        answered(m, s, response, spent).1 == (StateV { shell_spent: spent, ..s }),
{
}

} // verus!
