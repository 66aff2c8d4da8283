//! The Anthropic messages API.

use vstd::prelude::*;
use vstd::string::*;

use crate::llm::chat;
use crate::llm::chat::push_messages;
use crate::llm::chat::tools_value;
use crate::llm::chat::LlmResponse;
use crate::llm::chat::Message;
use crate::llm::chat::MessageV;
use crate::llm::chat::ResponseV;
use crate::llm::chat::ToolCall;
use crate::llm::chat::ToolCallV;
use crate::llm::chat::ToolDef;
use crate::llm::chat::ToolDefV;
use crate::llm::chat::Usage;
use crate::text;
use crate::json;
use crate::json::put;
use crate::json::put_text;
use crate::json::JValue;
use crate::json::Json;
use crate::text::join;
use crate::text::same;

verus! {

/// The body of a call of the messages API.
pub open spec fn request_json(
    model: Seq<char>,
    system: Seq<char>,
    messages: Seq<MessageV>,
    tools: Seq<ToolDefV>,
    max_tokens: int,
) -> JValue {
    let base = Map::<Seq<char>, JValue>::empty().insert("model"@, JValue::Str(model)).insert(
        "max_tokens"@,
        JValue::Int(max_tokens),
    ).insert("system"@, JValue::Str(system)).insert(
        "messages"@,
        JValue::Arr(messages.map_values(|m: MessageV| chat::message_json(m))),
    );
    JValue::Obj(
        if tools.len() == 0 {
            base
        } else {
            base.insert("tools"@, chat::tools_json(tools))
        },
    )
}

/// The body of a call of the messages API.
pub fn request_body(
    model: &str,
    system: &str,
    messages: &[Message],
    tools: &[ToolDef],
    max_tokens: u32,
) -> (r: Json)
    ensures
        r@ == request_json(
            model@,
            system@,
            chat::messages_view(messages@),
            chat::tools_view(tools@),
            max_tokens as int,
        ),
{
    let mut list: Vec<Json> = Vec::new();
    push_messages(&mut list, messages);
    assert(json::items_view(list@) =~= chat::messages_view(messages@).map_values(|m: MessageV| chat::message_json(m)));
    let mut entries: Vec<(String, Json)> = Vec::new();
    put_text(&mut entries, "model", model);
    put(&mut entries, "max_tokens", Json::UInt(max_tokens as u64));
    put_text(&mut entries, "system", system);
    put(&mut entries, "messages", Json::Arr(list));
    if tools.len() > 0 {
        put(&mut entries, "tools", tools_value(tools));
    }
    Json::Obj(entries)
}

/// A count of tokens: the integer that `v` holds, cut to 32 bits, or zero.
pub open spec fn token_count(v: JValue) -> int {
    match json::ju64(v) {
        Some(n) => n % 0x1_0000_0000,
        None => 0,
    }
}

/// The value of one key, or of another where the first is missing.
pub open spec fn either_key(v: JValue, first: Seq<char>, second: Seq<char>) -> JValue {
    match json::jget(v, first) {
        Some(w) => w,
        None => json::jat(v, second),
    }
}

/// The token usage that a response of the messages API reports.
pub open spec fn usage_in(data: JValue) -> Usage {
    let u = json::jat(data, "usage"@);
    Usage {
        input_tokens: token_count(json::jat(u, "input_tokens"@)) as u32,
        output_tokens: token_count(json::jat(u, "output_tokens"@)) as u32,
        reasoning_tokens: 0,
        cached_input_read_tokens: token_count(
            either_key(u, "cache_read_input_tokens"@, "cache_read_tokens"@),
        ) as u32,
        cached_input_write_tokens: token_count(
            either_key(u, "cache_creation_input_tokens"@, "cache_write_input_tokens"@),
        ) as u32,
    }
}

/// The token count of an optional value.
pub fn count_tokens(v: Option<&Json>) -> (r: u32)
    ensures
        r == token_count(
            match v {
                Some(j) => j@,
                None => JValue::Null,
            },
        ),
{
    match v {
        Some(j) => match j.as_u64() {
            Some(n) => {
                assert((#[verifier::truncate] (n as u32)) == n % 0x1_0000_0000) by (bit_vector);
                #[verifier::truncate]
                (n as u32)
            },
            None => 0,
        },
        None => 0,
    }
}

fn get_either<'a>(v: &'a Json, first: &str, second: &str) -> (r: Option<&'a Json>)
    ensures
        (match r {
            Some(j) => j@,
            None => JValue::Null,
        }) == either_key(v@, first@, second@),
{
    match v.get(first) {
        Some(w) => Some(w),
        None => v.get(second),
    }
}

pub fn parse_usage(data: &Json) -> (r: Usage)
    ensures
        r == usage_in(data@),
{
    match data.get("usage") {
        Some(u) => Usage {
            input_tokens: count_tokens(u.get("input_tokens")),
            output_tokens: count_tokens(u.get("output_tokens")),
            reasoning_tokens: 0,
            cached_input_read_tokens: count_tokens(
                get_either(u, "cache_read_input_tokens", "cache_read_tokens"),
            ),
            cached_input_write_tokens: count_tokens(
                get_either(u, "cache_creation_input_tokens", "cache_write_input_tokens"),
            ),
        },
        None => Usage::default(),
    }
}

/// The texts of the text blocks of a response, in order.
pub open spec fn text_blocks(blocks: Seq<JValue>) -> Seq<Seq<char>>
    decreases blocks.len(),
{
    if blocks.len() == 0 {
        seq![]
    } else {
        let b = blocks.last();
        let before = text_blocks(blocks.drop_last());
        match (json::jget_str(b, "type"@), json::jget_str(b, "text"@)) {
            (Some(t), Some(text)) if t == "text"@ => before.push(text),
            _ => before,
        }
    }
}

pub open spec fn or_empty(o: Option<Seq<char>>) -> Seq<char> {
    match o {
        Some(s) => s,
        None => seq![],
    }
}

/// The tool calls of a response, in order.
pub open spec fn tool_blocks(blocks: Seq<JValue>) -> Seq<ToolCallV>
    decreases blocks.len(),
{
    if blocks.len() == 0 {
        seq![]
    } else {
        let b = blocks.last();
        let before = tool_blocks(blocks.drop_last());
        match json::jget_str(b, "type"@) {
            Some(t) if t == "tool_use"@ => before.push(
                ToolCallV {
                    id: or_empty(json::jget_str(b, "id"@)),
                    name: or_empty(json::jget_str(b, "name"@)),
                    input: json::jat(b, "input"@),
                },
            ),
            _ => before,
        }
    }
}

/// The content blocks of a response.
pub open spec fn content_blocks(data: JValue) -> Seq<JValue> {
    match json::jarr(json::jat(data, "content"@)) {
        Some(blocks) => blocks,
        None => seq![],
    }
}

/// What a response of the messages API says.
pub open spec fn response_in(data: JValue) -> ResponseV {
    let blocks = content_blocks(data);
    ResponseV {
        text: if text_blocks(blocks).len() == 0 {
            None
        } else {
            Some(text::joined(text_blocks(blocks), "\n"@))
        },
        tool_calls: tool_blocks(blocks),
        usage: usage_in(data),
        stop_reason: match json::jget_str(data, "stop_reason"@) {
            Some(reason) => reason,
            None => "end_turn"@,
        },
    }
}

/// An owned copy of an optional text, empty where there is none.
pub fn text_or_empty(o: Option<&str>) -> (r: String)
    ensures
        r@ == or_empty(crate::text::opt_slice(o)),
{
    match o {
        Some(s) => s.to_owned(),
        None => String::new(),
    }
}

/// A copy of an optional value, null where there is none.
pub fn copy_or_null(o: Option<&Json>) -> (r: Json)
    ensures
        r@ == (match o {
            Some(j) => j@,
            None => JValue::Null,
        }),
{
    match o {
        Some(j) => j.copy(),
        None => Json::Null,
    }
}

/// What a response of the messages API says.
pub fn parse_response(data: &Json) -> (r: LlmResponse)
    ensures
        r@ == response_in(data@),
{
    let mut parts: Vec<String> = Vec::new();
    let mut calls: Vec<ToolCall> = Vec::new();
    let ghost blocks = content_blocks(data@);
    match data.get_array("content") {
        Some(items) => {
            let mut i: usize = 0;
            assert(blocks == json::items_view(items@));
            while i < items.len()
                invariant
                    i <= items.len(),
                    blocks == json::items_view(items@),
                    text::texts(parts@) == text_blocks(blocks.take(i as int)),
                    super::chat::calls_view(calls@) == tool_blocks(blocks.take(i as int)),
                decreases items.len() - i,
            {
                let b = &items[i];
                let ghost before = blocks.take(i as int);
                let ghost after = blocks.take(i + 1);
                let ghost parts0 = text::texts(parts@);
                let ghost calls0 = super::chat::calls_view(calls@);
                assert(after.drop_last() =~= before);
                assert(after.last() == b@);
                proof {
                    reveal_strlit("text");
                    reveal_strlit("tool_use");
                    assert("text"@.len() != "tool_use"@.len());
                }
                match b.get_str("type") {
                    Some(t) => {
                        if same(t, "text") {
                            match b.get_str("text") {
                                Some(text) => {
                                    parts.push(text.to_owned());
                                    assert(text::texts(parts@) =~= parts0.push(text@));
                                },
                                None => {},
                            }
                        } else if same(t, "tool_use") {
                            let call = ToolCall {
                                id: text_or_empty(b.get_str("id")),
                                name: text_or_empty(b.get_str("name")),
                                input: copy_or_null(b.get("input")),
                            };
                            calls.push(call);
                            assert(super::chat::calls_view(calls@) =~= calls0.push(call@));
                        }
                    },
                    None => {},
                }
                i = i + 1;
            }
            assert(blocks.take(i as int) =~= blocks);
        },
        None => {
            assert(text::texts(parts@) =~= text_blocks(blocks));
            assert(super::chat::calls_view(calls@) =~= tool_blocks(blocks));
        },
    }
    let text = if parts.len() == 0 {
        None
    } else {
        Some(join(parts.as_slice(), "\n"))
    };
    let stop_reason = match data.get_str("stop_reason") {
        Some(reason) => reason.to_owned(),
        None => "end_turn".to_owned(),
    };
    LlmResponse { text, tool_calls: calls, usage: parse_usage(data), stop_reason }
}

/// What a refused call is reported as.
pub fn api_error(status: &str, body: &str) -> (r: String)
    ensures
        r@ == "Anthropic API error (HTTP "@ + status@ + "): "@ + body@,
{
    let mut out: String = "Anthropic API error (HTTP ".to_owned();
    out.append(status);
    out.append("): ");
    out.append(body);
    out
}

proof fn lemma_keys()
    ensures
        "model"@.len() == 5 && "model"@[0] == 'm',
        "max_tokens"@.len() == 10,
        "system"@.len() == 6,
        "messages"@.len() == 8,
        "tools"@.len() == 5 && "tools"@[0] == 't',
{
    reveal_strlit("model");
    reveal_strlit("max_tokens");
    reveal_strlit("system");
    reveal_strlit("messages");
    reveal_strlit("tools");
}

/// A request carries the whole conversation: the model, the system prompt and the limit as they
/// were given, one item for each message, in order, with its role and content, and one for each
/// tool.
pub proof fn law_request_carries_the_conversation(
    model: Seq<char>,
    system: Seq<char>,
    messages: Seq<MessageV>,
    tools: Seq<ToolDefV>,
    max_tokens: int,
)
    ensures
        ({
            let v = request_json(model, system, messages, tools, max_tokens);
            &&& json::jget_str(v, "model"@) == Some(model)
            &&& json::jget_str(v, "system"@) == Some(system)
            &&& json::jget(v, "max_tokens"@) == Some(JValue::Int(max_tokens))
            &&& json::jarr(json::jat(v, "messages"@)) matches Some(items) && chat::lists_messages(
                items,
                messages,
            )
            &&& tools.len() == 0 ==> json::jget(v, "tools"@) is None
            &&& tools.len() > 0 ==> (json::jarr(json::jat(v, "tools"@)) matches Some(items)
                && items.len() == tools.len() && forall|k: int|
                #![trigger items[k]]
                0 <= k < tools.len() ==> json::jget_str(items[k], "name"@) == Some(tools[k].name)
                    && json::jget(items[k], "input_schema"@) == Some(tools[k].input_schema))
        }),
{
    lemma_keys();
    chat::law_messages_are_sent_one_for_one(messages);
    chat::law_tools_are_offered_one_for_one(tools);
}

proof fn lemma_text_blocks(a: Seq<JValue>, b: Seq<JValue>)
    ensures
        text_blocks(a + b) == text_blocks(a) + text_blocks(b),
    decreases b.len(),
{
    if b.len() == 0 {
        assert(a + b =~= a);
        assert(text_blocks(a) + text_blocks(b) =~= text_blocks(a));
    } else {
        lemma_text_blocks(a, b.drop_last());
        assert((a + b).drop_last() =~= a + b.drop_last());
        assert((a + b).last() == b.last());
        assert(text_blocks(a + b) =~= text_blocks(a) + text_blocks(b));
    }
}

proof fn lemma_tool_blocks(a: Seq<JValue>, b: Seq<JValue>)
    ensures
        tool_blocks(a + b) == tool_blocks(a) + tool_blocks(b),
    decreases b.len(),
{
    if b.len() == 0 {
        assert(a + b =~= a);
        assert(tool_blocks(a) + tool_blocks(b) =~= tool_blocks(a));
    } else {
        lemma_tool_blocks(a, b.drop_last());
        assert((a + b).drop_last() =~= a + b.drop_last());
        assert((a + b).last() == b.last());
        assert(tool_blocks(a + b) =~= tool_blocks(a) + tool_blocks(b));
    }
}

/// The blocks of a response are read one after the other: each text block adds its text, each
/// tool call adds a call with its own name and input, and no block changes what others add.
pub proof fn law_blocks_are_read_in_order(before: Seq<JValue>, b: JValue, behind: Seq<JValue>)
    ensures
        json::jget_str(b, "type"@) == Some("text"@) ==> (json::jget_str(b, "text"@) matches Some(t)
            ==> text_blocks(before + seq![b] + behind) == text_blocks(before) + seq![t]
            + text_blocks(behind)),
        json::jget_str(b, "type"@) == Some("tool_use"@) ==> exists|call: ToolCallV|
            tool_blocks(before + seq![b] + behind) == tool_blocks(before) + #[trigger] seq![call]
                + tool_blocks(behind) && call.input == json::jat(b, "input"@) && (json::jget_str(
                b,
                "name"@,
            ) matches Some(name) ==> call.name == name) && (json::jget_str(b, "id"@) matches Some(
                id,
            ) ==> call.id == id),
        json::jget_str(b, "type"@) != Some("text"@) ==> text_blocks(before + seq![b] + behind)
            == text_blocks(before) + text_blocks(behind),
        json::jget_str(b, "type"@) != Some("tool_use"@) ==> tool_blocks(before + seq![b] + behind)
            == tool_blocks(before) + tool_blocks(behind),
{
    reveal_with_fuel(text_blocks, 2);
    reveal_with_fuel(tool_blocks, 2);
    assert(seq![b].drop_last() =~= seq![]);
    lemma_text_blocks(before + seq![b], behind);
    lemma_text_blocks(before, seq![b]);
    lemma_tool_blocks(before + seq![b], behind);
    lemma_tool_blocks(before, seq![b]);
    match (json::jget_str(b, "type"@), json::jget_str(b, "text"@)) {
        (Some(t), Some(said)) if t == "text"@ => {
            assert(text_blocks(seq![b]) =~= seq![said]);
        },
        _ => {
            assert(text_blocks(seq![b]) =~= seq![]);
            assert(text_blocks(before) + Seq::<Seq<char>>::empty() =~= text_blocks(before));
        },
    }
    if json::jget_str(b, "type"@) == Some("tool_use"@) {
        let call = ToolCallV {
            id: or_empty(json::jget_str(b, "id"@)),
            name: or_empty(json::jget_str(b, "name"@)),
            input: json::jat(b, "input"@),
        };
        assert(tool_blocks(seq![b]) =~= seq![call]);
    } else {
        assert(tool_blocks(seq![b]) =~= seq![]);
        assert(tool_blocks(before) + Seq::<ToolCallV>::empty() =~= tool_blocks(before));
    }
}

/// A response says all that its blocks say: each text stands in its text, each call among its
/// calls; it has no text where no block has one, and no calls where none is made.
pub proof fn law_response_says_what_its_blocks_say(data: JValue, blocks: Seq<JValue>, k: int)
    requires
        json::jarr(json::jat(data, "content"@)) == Some(blocks),
        0 <= k < blocks.len(),
    ensures
        json::jget_str(blocks[k], "type"@) == Some("text"@) ==> (json::jget_str(
            blocks[k],
            "text"@,
        ) matches Some(t) ==> (response_in(data).text matches Some(said) && text::has_infix(
            said,
            t,
        ))),
        json::jget_str(blocks[k], "type"@) == Some("tool_use"@) ==> exists|i: int|
            0 <= i < response_in(data).tool_calls.len() && (#[trigger] response_in(
                data,
            ).tool_calls[i]).input == json::jat(blocks[k], "input"@) && (json::jget_str(
                blocks[k],
                "name"@,
            ) matches Some(name) ==> response_in(data).tool_calls[i].name == name),
        json::jget_str(data, "stop_reason"@) matches Some(reason) ==> response_in(data).stop_reason
            == reason,
        response_in(data).usage == usage_in(data),
{
    let before = blocks.take(k);
    let behind = blocks.skip(k + 1);
    let b = blocks[k];
    assert(blocks =~= before + seq![b] + behind);
    law_blocks_are_read_in_order(before, b, behind);
    if json::jget_str(b, "type"@) == Some("text"@) && json::jget_str(b, "text"@) is Some {
        let i = text_blocks(before).len() as int;
        assert(text_blocks(blocks)[i] == json::jget_str(b, "text"@).unwrap());
        text::law_joined_text_holds_each_part(text_blocks(blocks), "\n"@, i);
    }
    if json::jget_str(b, "type"@) == Some("tool_use"@) {
        let call = choose|call: ToolCallV|
            tool_blocks(blocks) == tool_blocks(before) + #[trigger] seq![call] + tool_blocks(behind)
                && call.input == json::jat(b, "input"@) && (json::jget_str(b, "name"@) matches Some(
                name,
            ) ==> call.name == name) && (json::jget_str(b, "id"@) matches Some(id) ==> call.id
                == id);
        assert(response_in(data).tool_calls[tool_blocks(before).len() as int] == call);
    }
}

/// The tokens that a response reports are the tokens that are counted.
pub proof fn law_reported_tokens_are_counted(data: JValue, n: int)
    requires
        0 <= n <= u32::MAX,
    ensures
        ({
            let u = json::jat(data, "usage"@);
            &&& json::jat(u, "input_tokens"@) == JValue::Int(n) ==> usage_in(data).input_tokens == n
            &&& json::jat(u, "output_tokens"@) == JValue::Int(n) ==> usage_in(data).output_tokens
                == n
            &&& json::jget(u, "cache_read_input_tokens"@) == Some(JValue::Int(n)) ==> usage_in(
                data,
            ).cached_input_read_tokens == n
            &&& json::jget(u, "cache_creation_input_tokens"@) == Some(JValue::Int(n)) ==> usage_in(
                data,
            ).cached_input_write_tokens == n
        }),
{
}

/// What a response does not say is not made up: tokens that are not reported are not counted, the
/// older words for them are understood, and one that does not say why it stopped ended its turn.
pub proof fn law_silence_is_not_made_up(data: JValue, n: int)
    requires
        0 <= n <= u32::MAX,
    ensures
        ({
            let u = json::jat(data, "usage"@);
            &&& json::jget(u, "input_tokens"@) is None ==> usage_in(data).input_tokens == 0
            &&& json::jget(u, "output_tokens"@) is None ==> usage_in(data).output_tokens == 0
            &&& json::jget(u, "cache_read_input_tokens"@) is None && json::jat(
                u,
                "cache_read_tokens"@,
            ) == JValue::Int(n) ==> usage_in(data).cached_input_read_tokens == n
            &&& json::jget(u, "cache_creation_input_tokens"@) is None && json::jat(
                u,
                "cache_write_input_tokens"@,
            ) == JValue::Int(n) ==> usage_in(data).cached_input_write_tokens == n
            &&& usage_in(data).reasoning_tokens == 0
        }),
        json::jget_str(data, "stop_reason"@) is None ==> response_in(data).stop_reason == "end_turn"@,
        json::jget(data, "content"@) is None ==> response_in(data).text is None && response_in(
            data,
        ).tool_calls.len() == 0,
{
}

/// A request asks for nothing that was not asked for.
pub proof fn law_request_asks_nothing_else(
    model: Seq<char>,
    system: Seq<char>,
    messages: Seq<MessageV>,
    tools: Seq<ToolDefV>,
    max_tokens: int,
    key: Seq<char>,
)
    ensures
        json::jget(request_json(model, system, messages, tools, max_tokens), key) is Some ==> key
            == "model"@ || key == "messages"@ || key == "max_tokens"@ || key == "system"@ || key
            == "tools"@,
{
}

} // verus!
