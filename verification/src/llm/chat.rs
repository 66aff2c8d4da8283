//! A conversation with a model.

use vstd::prelude::*;
use vstd::string::*;

use crate::json;
use crate::json::put;
use crate::json::put_text;
use crate::json::JValue;
use crate::json::Json;

verus! {

/// A tool definition passed to the LLM.
#[derive(Debug)]
pub struct ToolDef {
    pub name: String,
    pub description: String,
    pub input_schema: Json,
}

pub ghost struct ToolDefV {
    pub name: Seq<char>,
    pub description: Seq<char>,
    pub input_schema: JValue,
}

impl ToolDef {
    pub open spec fn view(&self) -> ToolDefV {
        ToolDefV {
            name: self.name@,
            description: self.description@,
            input_schema: self.input_schema@,
        }
    }
}

pub open spec fn tools_view(tools: Seq<ToolDef>) -> Seq<ToolDefV> {
    tools.map_values(|t: ToolDef| t@)
}

/// A message in the conversation.
#[derive(Debug)]
pub struct Message {
    pub role: String,
    pub content: String,
}

pub ghost struct MessageV {
    pub role: Seq<char>,
    pub content: Seq<char>,
}

impl Message {
    pub open spec fn view(&self) -> MessageV {
        MessageV { role: self.role@, content: self.content@ }
    }
}

pub open spec fn messages_view(messages: Seq<Message>) -> Seq<MessageV> {
    messages.map_values(|m: Message| m@)
}

/// A tool-use request from the LLM.
#[derive(Debug)]
pub struct ToolCall {
    pub id: String,
    pub name: String,
    pub input: Json,
}

pub ghost struct ToolCallV {
    pub id: Seq<char>,
    pub name: Seq<char>,
    pub input: JValue,
}

impl ToolCall {
    pub open spec fn view(&self) -> ToolCallV {
        ToolCallV { id: self.id@, name: self.name@, input: self.input@ }
    }
}

pub open spec fn calls_view(calls: Seq<ToolCall>) -> Seq<ToolCallV> {
    calls.map_values(|c: ToolCall| c@)
}

/// Token usage from a single LLM call.
#[derive(Debug, Clone, Copy, PartialEq, Eq, Structural)]
pub struct Usage {
    pub input_tokens: u32,
    pub output_tokens: u32,
    pub reasoning_tokens: u32,
    pub cached_input_read_tokens: u32,
    pub cached_input_write_tokens: u32,
}

impl Default for Usage {
    fn default() -> (r: Self)
        ensures
            r == no_usage(),
    {
        Usage {
            input_tokens: 0,
            output_tokens: 0,
            reasoning_tokens: 0,
            cached_input_read_tokens: 0,
            cached_input_write_tokens: 0,
        }
    }
}

/// No tokens at all.
pub open spec fn no_usage() -> Usage {
    Usage {
        input_tokens: 0,
        output_tokens: 0,
        reasoning_tokens: 0,
        cached_input_read_tokens: 0,
        cached_input_write_tokens: 0,
    }
}

/// Parsed response from an LLM call.
#[derive(Debug)]
pub struct LlmResponse {
    pub text: Option<String>,
    pub tool_calls: Vec<ToolCall>,
    pub usage: Usage,
    pub stop_reason: String,
}

pub ghost struct ResponseV {
    pub text: Option<Seq<char>>,
    pub tool_calls: Seq<ToolCallV>,
    pub usage: Usage,
    pub stop_reason: Seq<char>,
}

impl LlmResponse {
    pub open spec fn view(&self) -> ResponseV {
        ResponseV {
            text: crate::text::opt_text(self.text),
            tool_calls: calls_view(self.tool_calls@),
            usage: self.usage,
            stop_reason: self.stop_reason@,
        }
    }
}

/// A tool as a request lists it.
pub open spec fn tool_json(t: ToolDefV) -> JValue {
    JValue::Obj(
        Map::<Seq<char>, JValue>::empty().insert("name"@, JValue::Str(t.name)).insert(
            "description"@,
            JValue::Str(t.description),
        ).insert("input_schema"@, t.input_schema),
    )
}

/// The tools as a request lists them.
pub open spec fn tools_json(tools: Seq<ToolDefV>) -> JValue {
    JValue::Arr(tools.map_values(|t: ToolDefV| tool_json(t)))
}

/// The tools as a request lists them.
pub(crate) fn tools_value(tools: &[ToolDef]) -> (r: Json)
    ensures
        r@ == tools_json(tools_view(tools@)),
{
    let mut items: Vec<Json> = Vec::new();
    let mut i: usize = 0;
    while i < tools.len()
        invariant
            i <= tools.len(),
            items.len() == i,
            forall|k: int| 0 <= k < i ==> (#[trigger] items@[k])@ == tool_json(tools@[k]@),
        decreases tools.len() - i,
    {
        let mut entries: Vec<(String, Json)> = Vec::new();
        put_text(&mut entries, "name", tools[i].name.as_str());
        put_text(&mut entries, "description", tools[i].description.as_str());
        put(&mut entries, "input_schema", tools[i].input_schema.copy());
        items.push(Json::Obj(entries));
        i = i + 1;
    }
    assert(json::items_view(items@) =~= tools_view(tools@).map_values(
        |t: ToolDefV| tool_json(t),
    ));
    Json::Arr(items)
}

/// A message as the APIs take it.
pub open spec fn message_json(m: MessageV) -> JValue {
    JValue::Obj(
        Map::<Seq<char>, JValue>::empty().insert("role"@, JValue::Str(m.role)).insert(
            "content"@,
            JValue::Str(m.content),
        ),
    )
}

/// A message as the APIs take it.
pub fn message_value(role: &str, content: &str) -> (r: Json)
    ensures
        r@ == message_json(MessageV { role: role@, content: content@ }),
{
    let mut entries: Vec<(String, Json)> = Vec::new();
    put_text(&mut entries, "role", role);
    put_text(&mut entries, "content", content);
    Json::Obj(entries)
}

/// Appends messages as the APIs take them.
pub fn push_messages(items: &mut Vec<Json>, messages: &[Message])
    ensures
        json::items_view(final(items)@) == json::items_view(old(items)@) + messages_view(messages@).map_values(
            |m: MessageV| message_json(m),
        ),
{
    let ghost before = json::items_view(items@);
    let ghost all = messages_view(messages@).map_values(|m: MessageV| message_json(m));
    let mut i: usize = 0;
    assert(before + all.take(0) =~= before);
    while i < messages.len()
        invariant
            i <= messages.len(),
            all == messages_view(messages@).map_values(|m: MessageV| message_json(m)),
            json::items_view(items@) == before + all.take(i as int),
        decreases messages.len() - i,
    {
        let ghost so_far = items@;
        let v = message_value(messages[i].role.as_str(), messages[i].content.as_str());
        items.push(v);
        assert(json::items_view(items@) =~= json::items_view(so_far).push(v@));
        assert(before + all.take(i + 1) =~= (before + all.take(i as int)).push(v@));
        i = i + 1;
    }
    assert(all.take(i as int) =~= all);
}

proof fn lemma_keys()
    ensures
        "role"@.len() == 4 && "role"@[0] == 'r',
        "content"@.len() == 7,
        "name"@.len() == 4 && "name"@[0] == 'n',
        "description"@.len() == 11,
        "input_schema"@.len() == 12,
{
    reveal_strlit("role");
    reveal_strlit("content");
    reveal_strlit("name");
    reveal_strlit("description");
    reveal_strlit("input_schema");
}

/// A message is sent as it is: with its role and its whole content.
pub proof fn law_message_is_sent_whole(m: MessageV)
    ensures
        json::jget_str(message_json(m), "role"@) == Some(m.role),
        json::jget_str(message_json(m), "content"@) == Some(m.content),
{
    lemma_keys();
}

/// A tool is offered by its name, its description and the schema of its input.
pub proof fn law_tool_is_offered_whole(t: ToolDefV)
    ensures
        json::jget_str(tool_json(t), "name"@) == Some(t.name),
        json::jget_str(tool_json(t), "description"@) == Some(t.description),
        json::jget(tool_json(t), "input_schema"@) == Some(t.input_schema),
{
    lemma_keys();
}

/// Whether a list of values is a list of messages: one for each, in order, with its role and its
/// content.
pub open spec fn lists_messages(items: Seq<JValue>, messages: Seq<MessageV>) -> bool {
    &&& items.len() == messages.len()
    &&& forall|k: int|
        #![trigger items[k]]
        0 <= k < messages.len() ==> json::jget_str(items[k], "role"@) == Some(messages[k].role)
            && json::jget_str(items[k], "content"@) == Some(messages[k].content)
}

/// Messages are sent one for one.
pub proof fn law_messages_are_sent_one_for_one(messages: Seq<MessageV>)
    ensures
        lists_messages(messages.map_values(|m: MessageV| message_json(m)), messages),
{
    let items = messages.map_values(|m: MessageV| message_json(m));
    assert forall|k: int| #![trigger items[k]] 0 <= k < messages.len() implies json::jget_str(
        items[k],
        "role"@,
    ) == Some(messages[k].role) && json::jget_str(items[k], "content"@) == Some(
        messages[k].content,
    ) by {
        law_message_is_sent_whole(messages[k]);
    }
}

/// Tools are offered one for one, in order.
pub proof fn law_tools_are_offered_one_for_one(tools: Seq<ToolDefV>)
    ensures
        json::jarr(tools_json(tools)) matches Some(items) && items.len() == tools.len()
            && forall|k: int|
            #![trigger items[k]]
            0 <= k < tools.len() ==> json::jget_str(items[k], "name"@) == Some(tools[k].name)
                && json::jget_str(items[k], "description"@) == Some(tools[k].description)
                && json::jget(items[k], "input_schema"@) == Some(tools[k].input_schema),
{
    let items = json::jarr(tools_json(tools)).unwrap();
    assert forall|k: int| #![trigger items[k]] 0 <= k < tools.len() implies json::jget_str(
        items[k],
        "name"@,
    ) == Some(tools[k].name) && json::jget_str(items[k], "description"@) == Some(
        tools[k].description,
    ) && json::jget(items[k], "input_schema"@) == Some(tools[k].input_schema) by {
        law_tool_is_offered_whole(tools[k]);
    }
}

} // verus!
