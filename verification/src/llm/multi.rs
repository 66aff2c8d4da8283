//! The API providers: which one serves a model, what it is sent, and what it answers.

use vstd::prelude::*;
use vstd::string::*;

use crate::llm::chat;
use crate::llm::anthropic;
use crate::llm::anthropic::count_tokens;
use crate::llm::anthropic::request_body;
use crate::llm::anthropic::text_or_empty;
use crate::llm::chat::message_value;
use crate::llm::chat::push_messages;
use crate::llm::chat::LlmResponse;
use crate::llm::chat::Message;
use crate::llm::chat::MessageV;
use crate::llm::chat::ResponseV;
use crate::llm::chat::ToolCall;
use crate::llm::chat::ToolCallV;
use crate::llm::chat::ToolDef;
use crate::llm::chat::ToolDefV;
use crate::llm::chat::Usage;
use crate::text;
use crate::json;
use crate::json::put;
use crate::json::put_text;
use crate::json::JValue;
use crate::json::Json;
use crate::names;
use crate::text::join;
use crate::text::same;
use crate::text::starts_with;
use crate::text::strip_prefix;

verus! {

pub const GROQ_BASE_URL: &'static str = "https://api.groq.com/openai/v1";

pub const OPENAI_BASE_URL: &'static str = "https://api.openai.com/v1";

pub const INCEPTION_BASE_URL: &'static str = "https://api.inceptionlabs.ai/v1";

/// The provider that serves a model.
#[derive(Debug, Clone, Copy, PartialEq, Eq, Structural)]
pub enum ApiRoute {
    Anthropic,
    OpenAi,
    Groq,
    Inception,
}

/// The provider that serves a model, by the model's name; `brand` is what Anthropic's models go
/// by.
pub open spec fn route_of(model: Seq<char>, brand: Seq<char>) -> ApiRoute {
    if text::has_prefix(model, "anthropic/"@) || text::has_prefix(
        model,
        names::model_prefix(brand),
    ) {
        ApiRoute::Anthropic
    } else if text::has_prefix(model, "inception/"@) {
        ApiRoute::Inception
    } else if text::has_prefix(model, "openai/"@) {
        ApiRoute::OpenAi
    } else if text::has_prefix(model, "qwen/"@) || text::has_prefix(model, "groq/"@) || text::has_prefix(
        model,
        "meta-llama/"@,
    ) || text::has_prefix(model, "moonshotai/"@) || text::has_prefix(model, "canopylabs/"@) {
        ApiRoute::Groq
    } else {
        ApiRoute::OpenAi
    }
}

pub fn route_for_model(model: &str, brand: &str) -> (r: ApiRoute)
    ensures
        r == route_of(model@, brand@),
{
    if starts_with(model, "anthropic/") || starts_with(
        model,
        names::prefix_of_models(brand).as_str(),
    ) {
        return ApiRoute::Anthropic;
    }
    if starts_with(model, "inception/") {
        return ApiRoute::Inception;
    }
    if starts_with(model, "openai/") {
        return ApiRoute::OpenAi;
    }
    if starts_with(model, "qwen/") || starts_with(model, "groq/") || starts_with(
        model,
        "meta-llama/",
    ) || starts_with(model, "moonshotai/") || starts_with(model, "canopylabs/") {
        return ApiRoute::Groq;
    }
    ApiRoute::OpenAi
}

/// `s` without `p` in front of it, where it is there.
pub open spec fn unprefixed(s: Seq<char>, p: Seq<char>) -> Seq<char> {
    match text::without_prefix(s, p) {
        Some(rest) => rest,
        None => s,
    }
}

/// The name that a provider knows a model by.
pub open spec fn api_name(model: Seq<char>, route: ApiRoute) -> Seq<char> {
    match route {
        ApiRoute::Anthropic => unprefixed(model, "anthropic/"@),
        ApiRoute::Inception => unprefixed(model, "inception/"@),
        ApiRoute::Groq => model,
        ApiRoute::OpenAi => unprefixed(model, "openai/"@),
    }
}

fn drop_prefix<'a>(s: &'a str, p: &str) -> (r: &'a str)
    ensures
        r@ == unprefixed(s@, p@),
{
    match strip_prefix(s, p) {
        Some(rest) => rest,
        None => s,
    }
}

pub fn api_model_name(model: &str, route: ApiRoute) -> (r: &str)
    ensures
        r@ == api_name(model@, route),
{
    match route {
        ApiRoute::Anthropic => drop_prefix(model, "anthropic/"),
        ApiRoute::Inception => drop_prefix(model, "inception/"),
        ApiRoute::Groq => model,
        ApiRoute::OpenAi => drop_prefix(model, "openai/"),
    }
}

/// The name under which a provider's key is known.
pub open spec fn secret_name(route: ApiRoute) -> Seq<char> {
    match route {
        ApiRoute::Anthropic => "anthropic"@,
        ApiRoute::OpenAi => "openai"@,
        ApiRoute::Groq => "groq"@,
        ApiRoute::Inception => "inception"@,
    }
}

pub fn secret_name_for_model(model: &str, brand: &str) -> (r: &'static str)
    ensures
        r@ == secret_name(route_of(model@, brand@)),
{
    match route_for_model(model, brand) {
        ApiRoute::Anthropic => "anthropic",
        ApiRoute::OpenAi => "openai",
        ApiRoute::Groq => "groq",
        ApiRoute::Inception => "inception",
    }
}

// ── The request ─────────────────────────────────────────────────────────

/// The messages of a chat completion: the system prompt first, where there is one.
pub open spec fn chat_messages(system: Seq<char>, messages: Seq<MessageV>) -> Seq<JValue> {
    let rest = messages.map_values(|m: MessageV| chat::message_json(m));
    if system.len() == 0 {
        rest
    } else {
        seq![chat::message_json(MessageV { role: "system"@, content: system })] + rest
    }
}

/// A tool as a chat completion takes it.
pub open spec fn function_json(t: ToolDefV) -> JValue {
    let function = JValue::Obj(
        Map::<Seq<char>, JValue>::empty().insert("name"@, JValue::Str(t.name)).insert(
            "description"@,
            JValue::Str(t.description),
        ).insert("parameters"@, t.input_schema),
    );
    JValue::Obj(
        Map::<Seq<char>, JValue>::empty().insert("type"@, JValue::Str("function"@)).insert(
            "function"@,
            function,
        ),
    )
}

/// The body of a chat completion.
pub open spec fn completion_json(
    model: Seq<char>,
    system: Seq<char>,
    messages: Seq<MessageV>,
    tools: Seq<ToolDefV>,
    max_tokens: int,
) -> JValue {
    let base = Map::<Seq<char>, JValue>::empty().insert("model"@, JValue::Str(model)).insert(
        "messages"@,
        JValue::Arr(chat_messages(system, messages)),
    ).insert("max_tokens"@, JValue::Int(max_tokens)).insert("temperature"@, JValue::Int(0));
    JValue::Obj(
        if tools.len() == 0 {
            base
        } else {
            base.insert(
                "tools"@,
                JValue::Arr(tools.map_values(|t: ToolDefV| function_json(t))),
            ).insert("tool_choice"@, JValue::Str("auto"@))
        },
    )
}

pub fn openai_messages(system: &str, messages: &[Message]) -> (r: Vec<Json>)
    ensures
        json::items_view(r@) == chat_messages(system@, chat::messages_view(messages@)),
{
    let mut items: Vec<Json> = Vec::new();
    if !system.is_empty() {
        items.push(message_value("system", system));
    }
    push_messages(&mut items, messages);
    assert(json::items_view(items@) =~= chat_messages(system@, chat::messages_view(messages@)));
    items
}

pub fn openai_tools(tools: &[ToolDef]) -> (r: Vec<Json>)
    ensures
        json::items_view(r@) == chat::tools_view(tools@).map_values(|t: ToolDefV| function_json(t)),
{
    let mut items: Vec<Json> = Vec::new();
    let mut i: usize = 0;
    while i < tools.len()
        invariant
            i <= tools.len(),
            items.len() == i,
            forall|k: int| 0 <= k < i ==> (#[trigger] items@[k])@ == function_json(tools@[k]@),
        decreases tools.len() - i,
    {
        let mut function: Vec<(String, Json)> = Vec::new();
        put_text(&mut function, "name", tools[i].name.as_str());
        put_text(&mut function, "description", tools[i].description.as_str());
        put(&mut function, "parameters", tools[i].input_schema.copy());
        let mut entries: Vec<(String, Json)> = Vec::new();
        put_text(&mut entries, "type", "function");
        put(&mut entries, "function", Json::Obj(function));
        items.push(Json::Obj(entries));
        i = i + 1;
    }
    assert(json::items_view(items@) =~= chat::tools_view(tools@).map_values(|t: ToolDefV| function_json(t)));
    items
}

/// The body of a chat completion.
pub fn completion_body(
    model: &str,
    system: &str,
    messages: &[Message],
    tools: &[ToolDef],
    max_tokens: u32,
) -> (r: Json)
    ensures
        r@ == completion_json(
            model@,
            system@,
            chat::messages_view(messages@),
            chat::tools_view(tools@),
            max_tokens as int,
        ),
{
    let mut entries: Vec<(String, Json)> = Vec::new();
    put_text(&mut entries, "model", model);
    put(&mut entries, "messages", Json::Arr(openai_messages(system, messages)));
    put(&mut entries, "max_tokens", Json::UInt(max_tokens as u64));
    put(&mut entries, "temperature", Json::UInt(0));
    if tools.len() > 0 {
        put(&mut entries, "tools", Json::Arr(openai_tools(tools)));
        put_text(&mut entries, "tool_choice", "auto");
    }
    Json::Obj(entries)
}

/// A call of an API, ready to be sent.
#[derive(Debug)]
pub struct ApiCall {
    pub route: ApiRoute,
    pub url: String,
    pub api_key: String,
    pub body: Json,
}

pub ghost struct ApiCallV {
    pub route: ApiRoute,
    pub url: Seq<char>,
    pub api_key: Seq<char>,
    pub body: JValue,
}

impl ApiCall {
    pub open spec fn view(&self) -> ApiCallV {
        ApiCallV { route: self.route, url: self.url@, api_key: self.api_key@, body: self.body@ }
    }
}

pub open spec fn api_call_result(r: Result<ApiCall, String>) -> Result<ApiCallV, Seq<char>> {
    match r {
        Ok(c) => Ok(c@),
        Err(e) => Err(e@),
    }
}

/// The API providers whose keys are at hand.
#[derive(Debug)]
pub struct MultiProvider {
    /// What Anthropic's models go by.
    pub brand: String,
    pub anthropic_api_key: Option<String>,
    pub openai_api_key: Option<String>,
    pub groq_api_key: Option<String>,
    pub inception_api_key: Option<String>,
}

/// The keys of the API providers, and what Anthropic's models go by.
pub ghost struct KeysV {
    pub brand: Seq<char>,
    pub anthropic: Option<Seq<char>>,
    pub openai: Option<Seq<char>>,
    pub groq: Option<Seq<char>>,
    pub inception: Option<Seq<char>>,
}

/// The key of a provider.
pub open spec fn key_of(keys: KeysV, route: ApiRoute) -> Option<Seq<char>> {
    match route {
        ApiRoute::Anthropic => keys.anthropic,
        ApiRoute::OpenAi => keys.openai,
        ApiRoute::Groq => keys.groq,
        ApiRoute::Inception => keys.inception,
    }
}

/// The variables that a provider's key is known by.
pub open spec fn key_name(route: ApiRoute) -> Seq<char> {
    match route {
        ApiRoute::Anthropic => "ANTHROPIC_API_KEY"@,
        ApiRoute::OpenAi => "OPENAI_API_KEY"@,
        ApiRoute::Groq => "GROQ_API_KEY"@,
        ApiRoute::Inception => "INCEPTION_API_KEY or MERCURY_API_KEY"@,
    }
}

/// Where a provider takes calls.
pub open spec fn url_of(route: ApiRoute) -> Seq<char> {
    match route {
        ApiRoute::Anthropic => "https://api.anthropic.com/v1/messages"@,
        ApiRoute::OpenAi => OPENAI_BASE_URL@ + "/chat/completions"@,
        ApiRoute::Groq => GROQ_BASE_URL@ + "/chat/completions"@,
        ApiRoute::Inception => INCEPTION_BASE_URL@ + "/chat/completions"@,
    }
}

/// The call that serves a chat with a model: it goes to the model's provider, with that
/// provider's key, and fails where the key is missing.
pub open spec fn chat_call(
    keys: KeysV,
    model: Seq<char>,
    system: Seq<char>,
    messages: Seq<MessageV>,
    tools: Seq<ToolDefV>,
    max_tokens: int,
) -> Result<ApiCallV, Seq<char>> {
    let route = route_of(model, keys.brand);
    let name = api_name(model, route);
    match key_of(keys, route) {
        None => Err(key_name(route) + " is required for model "@ + model),
        Some(api_key) => Ok(
            ApiCallV {
                route,
                url: url_of(route),
                api_key,
                body: if route == ApiRoute::Anthropic {
                    anthropic::request_json(name, system, messages, tools, max_tokens)
                } else {
                    completion_json(name, system, messages, tools, max_tokens)
                },
            },
        ),
    }
}

/// A key only ever goes to the provider that it belongs to.
pub proof fn law_key_goes_to_its_own_provider(
    keys: KeysV,
    model: Seq<char>,
    system: Seq<char>,
    messages: Seq<MessageV>,
    tools: Seq<ToolDefV>,
    max_tokens: int,
)
    ensures
        chat_call(keys, model, system, messages, tools, max_tokens) matches Ok(call) ==> Some(
            call.api_key,
        ) == key_of(keys, call.route) && call.url == url_of(call.route),
{
}

impl MultiProvider {
    pub open spec fn view(&self) -> KeysV {
        KeysV {
            brand: self.brand@,
            anthropic: text::opt_text(self.anthropic_api_key),
            openai: text::opt_text(self.openai_api_key),
            groq: text::opt_text(self.groq_api_key),
            inception: text::opt_text(self.inception_api_key),
        }
    }

    pub fn new(
        brand: &str,
        anthropic_api_key: Option<String>,
        openai_api_key: Option<String>,
        groq_api_key: Option<String>,
        inception_api_key: Option<String>,
    ) -> (r: Self)
        ensures
            r@ == (KeysV {
                brand: brand@,
                anthropic: text::opt_text(anthropic_api_key),
                openai: text::opt_text(openai_api_key),
                groq: text::opt_text(groq_api_key),
                inception: text::opt_text(inception_api_key),
            }),
    {
        MultiProvider {
            brand: brand.to_owned(),
            anthropic_api_key,
            openai_api_key,
            groq_api_key,
            inception_api_key,
        }
    }

    /// The providers when one key is at hand: that of the model's own provider.
    pub fn for_model(brand: &str, model: &str, api_key: String) -> (r: Self)
        ensures
            r@ == keys_for(brand@, route_of(model@, brand@), api_key@),
    {
        match route_for_model(model, brand) {
            ApiRoute::Anthropic => Self::new(brand, Some(api_key), None, None, None),
            ApiRoute::OpenAi => Self::new(brand, None, Some(api_key), None, None),
            ApiRoute::Groq => Self::new(brand, None, None, Some(api_key), None),
            ApiRoute::Inception => Self::new(brand, None, None, None, Some(api_key)),
        }
    }

    /// The call that serves a chat with a model, or which key it lacks.
    pub fn chat(
        &self,
        model: &str,
        system: &str,
        messages: &[Message],
        tools: &[ToolDef],
        max_tokens: u32,
    ) -> (r: Result<ApiCall, String>)
        ensures
            api_call_result(r) == chat_call(
                self@,
                model@,
                system@,
                chat::messages_view(messages@),
                chat::tools_view(tools@),
                max_tokens as int,
            ),
    {
        let route = route_for_model(model, self.brand.as_str());
        let key = match route {
            ApiRoute::Anthropic => &self.anthropic_api_key,
            ApiRoute::OpenAi => &self.openai_api_key,
            ApiRoute::Groq => &self.groq_api_key,
            ApiRoute::Inception => &self.inception_api_key,
        };
        let api_key = match key {
            Some(k) => k.clone(),
            None => {
                let mut message: String = match route {
                    ApiRoute::Anthropic => "ANTHROPIC_API_KEY".to_owned(),
                    ApiRoute::OpenAi => "OPENAI_API_KEY".to_owned(),
                    ApiRoute::Groq => "GROQ_API_KEY".to_owned(),
                    ApiRoute::Inception => "INCEPTION_API_KEY or MERCURY_API_KEY".to_owned(),
                };
                message.append(" is required for model ");
                message.append(model);
                return Err(message);
            },
        };
        let name = api_model_name(model, route);
        let url: String = match route {
            ApiRoute::Anthropic => "https://api.anthropic.com/v1/messages".to_owned(),
            ApiRoute::OpenAi => OPENAI_BASE_URL.to_owned().concat("/chat/completions"),
            ApiRoute::Groq => GROQ_BASE_URL.to_owned().concat("/chat/completions"),
            ApiRoute::Inception => INCEPTION_BASE_URL.to_owned().concat("/chat/completions"),
        };
        let body = if route == ApiRoute::Anthropic {
            request_body(name, system, messages, tools, max_tokens)
        } else {
            completion_body(name, system, messages, tools, max_tokens)
        };
        Ok(ApiCall { route, url, api_key, body })
    }
}

/// The keys when only one provider has one.
pub open spec fn keys_for(brand: Seq<char>, route: ApiRoute, key: Seq<char>) -> KeysV {
    let none = KeysV { brand, anthropic: None, openai: None, groq: None, inception: None };
    match route {
        ApiRoute::Anthropic => KeysV { anthropic: Some(key), ..none },
        ApiRoute::OpenAi => KeysV { openai: Some(key), ..none },
        ApiRoute::Groq => KeysV { groq: Some(key), ..none },
        ApiRoute::Inception => KeysV { inception: Some(key), ..none },
    }
}

/// What a refused chat completion is reported as.
pub fn completion_error(model: &str, status: &str, body: &str) -> (r: String)
    ensures
        r@ == "API error for "@ + model@ + " (HTTP "@ + status@ + "): "@ + body@,
{
    let mut out: String = "API error for ".to_owned();
    out.append(model);
    out.append(" (HTTP ");
    out.append(status);
    out.append("): ");
    out.append(body);
    out
}

// ── The response ────────────────────────────────────────────────────────

/// The arguments of a tool call: as JSON, or as a text where they are not JSON.
pub open spec fn arguments_of(text: Seq<char>, read: Option<JValue>) -> JValue {
    match read {
        Some(v) => v,
        None => JValue::Str(text),
    }
}

pub fn parse_tool_arguments(arguments: &str) -> (r: Json)
    ensures
        r@ == arguments_of(arguments@, json::json_parsed(arguments@)),
{
    match Json::parse(arguments) {
        Some(v) => v,
        None => Json::text(arguments),
    }
}

/// The texts of the items of a message's content, in order.
pub open spec fn content_texts(items: Seq<JValue>) -> Seq<Seq<char>>
    decreases items.len(),
{
    if items.len() == 0 {
        seq![]
    } else {
        let before = content_texts(items.drop_last());
        match items.last() {
            JValue::Str(s) => before.push(s),
            v => match (json::jget_str(v, "type"@), json::jget_str(v, "text"@)) {
                (Some(t), Some(text)) if t == "text"@ => before.push(text),
                _ => before,
            },
        }
    }
}

/// The text of a message.
pub open spec fn message_text(message: JValue) -> Option<Seq<char>> {
    match json::jat(message, "content"@) {
        JValue::Str(s) => Some(s),
        JValue::Arr(items) => if content_texts(items).len() == 0 {
            None
        } else {
            Some(text::joined(content_texts(items), "\n"@))
        },
        _ => None,
    }
}

pub fn parse_openai_content(message: &Json) -> (r: Option<String>)
    ensures
        text::opt_text(r) == message_text(message@),
{
    match message.get("content") {
        Some(Json::Str(s)) => Some(s.clone()),
        Some(Json::Arr(items)) => {
            let mut chunks: Vec<String> = Vec::new();
            let ghost all = json::items_view(items@);
            let mut i: usize = 0;
            while i < items.len()
                invariant
                    i <= items.len(),
                    all == json::items_view(items@),
                    text::texts(chunks@) == content_texts(all.take(i as int)),
                decreases items.len() - i,
            {
                let item = &items[i];
                let ghost before = text::texts(chunks@);
                assert(all.take(i + 1).drop_last() =~= all.take(i as int));
                assert(all.take(i + 1).last() == item@);
                match item {
                    Json::Str(s) => {
                        chunks.push(s.clone());
                        assert(text::texts(chunks@) =~= before.push(s@));
                    },
                    _ => match item.get_str("type") {
                        Some(t) => {
                            if same(t, "text") {
                                match item.get_str("text") {
                                    Some(text) => {
                                        chunks.push(text.to_owned());
                                        assert(text::texts(chunks@) =~= before.push(text@));
                                    },
                                    None => {},
                                }
                            }
                        },
                        None => {},
                    },
                }
                i = i + 1;
            }
            assert(all.take(i as int) =~= all);
            if chunks.len() == 0 {
                None
            } else {
                Some(join(chunks.as_slice(), "\n"))
            }
        },
        _ => None,
    }
}

/// The tool call that an item of a message's tool calls is, where it names a function.
pub open spec fn tool_call_in(call: JValue, read: spec_fn(Seq<char>) -> Option<JValue>) -> Option<
    ToolCallV,
> {
    let function = json::jat(call, "function"@);
    match json::jget_str(function, "name"@) {
        None => None,
        Some(name) => Some(
            ToolCallV {
                id: anthropic::or_empty(json::jget_str(call, "id"@)),
                name,
                input: match json::jget_str(function, "arguments"@) {
                    Some(text) => arguments_of(text, read(text)),
                    None => JValue::Obj(Map::empty()),
                },
            },
        ),
    }
}

/// The tool calls of a message, in order.
pub open spec fn tool_calls_in(calls: Seq<JValue>, read: spec_fn(Seq<char>) -> Option<JValue>) -> Seq<
    ToolCallV,
>
    decreases calls.len(),
{
    if calls.len() == 0 {
        seq![]
    } else {
        let before = tool_calls_in(calls.drop_last(), read);
        match tool_call_in(calls.last(), read) {
            Some(c) => before.push(c),
            None => before,
        }
    }
}

/// What a chat completion says.
pub open spec fn completion_in(data: JValue, read: spec_fn(Seq<char>) -> Option<JValue>) -> Result<
    ResponseV,
    Seq<char>,
> {
    match json::jarr(json::jat(data, "choices"@)) {
        Some(choices) if choices.len() > 0 => {
            let choice = choices[0];
            match json::jget(choice, "message"@) {
                None => Err("completion response missing choices[0].message"@),
                Some(message) => Ok(
                    ResponseV {
                        text: message_text(message),
                        tool_calls: match json::jarr(json::jat(message, "tool_calls"@)) {
                            Some(calls) => tool_calls_in(calls, read),
                            None => seq![],
                        },
                        usage: Usage {
                            input_tokens: anthropic::token_count(
                                json::jat(json::jat(data, "usage"@), "prompt_tokens"@),
                            ) as u32,
                            output_tokens: anthropic::token_count(
                                json::jat(json::jat(data, "usage"@), "completion_tokens"@),
                            ) as u32,
                            reasoning_tokens: 0,
                            cached_input_read_tokens: 0,
                            cached_input_write_tokens: 0,
                        },
                        stop_reason: match json::jget_str(choice, "finish_reason"@) {
                            Some(reason) => reason,
                            None => "stop"@,
                        },
                    },
                ),
            }
        },
        _ => Err("completion response missing choices[0]"@),
    }
}

pub open spec fn response_result(r: Result<LlmResponse, String>) -> Result<ResponseV, Seq<char>> {
    match r {
        Ok(v) => Ok(v@),
        Err(e) => Err(e@),
    }
}

fn parse_tool_call(call: &Json) -> (r: Option<ToolCall>)
    ensures
        (match r {
            Some(c) => Some(c@),
            None => None,
        }) == tool_call_in(call@, json::json_reader()),
{
    match call.get("function") {
        None => None,
        Some(function) => match function.get_str("name") {
            None => None,
            Some(name) => {
                let input = match function.get_str("arguments") {
                    Some(text) => parse_tool_arguments(text),
                    None => Json::Obj(Vec::new()),
                };
                Some(
                    ToolCall {
                        id: text_or_empty(call.get_str("id")),
                        name: name.to_owned(),
                        input,
                    },
                )
            },
        },
    }
}

fn parse_tool_calls(message: &Json) -> (r: Vec<ToolCall>)
    ensures
        chat::calls_view(r@) == (match json::jarr(json::jat(message@, "tool_calls"@)) {
            Some(calls) => tool_calls_in(calls, json::json_reader()),
            None => seq![],
        }),
{
    let mut out: Vec<ToolCall> = Vec::new();
    match message.get_array("tool_calls") {
        None => {
            assert(chat::calls_view(out@) =~= seq![]);
        },
        Some(items) => {
            let ghost all = json::items_view(items@);
            let ghost read = json::json_reader();
            let mut i: usize = 0;
            assert(chat::calls_view(out@) =~= tool_calls_in(all.take(0), read));
            while i < items.len()
                invariant
                    i <= items.len(),
                    all == json::items_view(items@),
                    read == json::json_reader(),
                    chat::calls_view(out@) == tool_calls_in(all.take(i as int), read),
                decreases items.len() - i,
            {
                let ghost before = chat::calls_view(out@);
                assert(all.take(i + 1).drop_last() =~= all.take(i as int));
                assert(all.take(i + 1).last() == items@[i as int]@);
                match parse_tool_call(&items[i]) {
                    Some(c) => {
                        out.push(c);
                        assert(chat::calls_view(out@) =~= before.push(c@));
                    },
                    None => {},
                }
                i = i + 1;
            }
            assert(all.take(i as int) =~= all);
        },
    }
    out
}

/// A count of tokens that a chat completion reports.
fn usage_count(data: &Json, key: &str) -> (r: u32)
    ensures
        r == anthropic::token_count(json::jat(json::jat(data@, "usage"@), key@)),
{
    match data.get("usage") {
        Some(usage) => count_tokens(usage.get(key)),
        None => 0,
    }
}

/// What a chat completion says.
pub fn parse_completion(data: &Json) -> (r: Result<LlmResponse, String>)
    ensures
        response_result(r) == completion_in(data@, json::json_reader()),
{
    match data.get_array("choices") {
        Some(choices) => {
            if choices.len() == 0 {
                return Err("completion response missing choices[0]".to_owned());
            }
            let choice = &choices[0];
            assert(json::items_view(choices@)[0] == choice@);
            match choice.get("message") {
                None => Err("completion response missing choices[0].message".to_owned()),
                Some(message) => {
                    let usage = Usage {
                        input_tokens: usage_count(data, "prompt_tokens"),
                        output_tokens: usage_count(data, "completion_tokens"),
                        reasoning_tokens: 0,
                        cached_input_read_tokens: 0,
                        cached_input_write_tokens: 0,
                    };
                    let stop_reason = match choice.get_str("finish_reason") {
                        Some(reason) => reason.to_owned(),
                        None => "stop".to_owned(),
                    };
                    Ok(
                        LlmResponse {
                            text: parse_openai_content(message),
                            tool_calls: parse_tool_calls(message),
                            usage,
                            stop_reason,
                        },
                    )
                },
            }
        },
        None => Err("completion response missing choices[0]".to_owned()),
    }
}

// ── Laws ────────────────────────────────────────────────────────────────

proof fn lemma_keys()
    ensures
        "model"@.len() == 5 && "model"@[0] == 'm',
        "messages"@.len() == 8 && "messages"@[0] == 'm',
        "max_tokens"@.len() == 10 && "max_tokens"@[0] == 'm',
        "temperature"@.len() == 11 && "temperature"@[0] == 't' && "temperature"@[1] == 'e',
        "tools"@.len() == 5 && "tools"@[0] == 't',
        "tool_choice"@.len() == 11 && "tool_choice"@[0] == 't' && "tool_choice"@[1] == 'o',
        "type"@.len() == 4 && "type"@[0] == 't',
        "function"@.len() == 8 && "function"@[0] == 'f',
        "name"@.len() == 4 && "name"@[0] == 'n',
        "description"@.len() == 11 && "description"@[0] == 'd',
        "parameters"@.len() == 10 && "parameters"@[0] == 'p',
{
    reveal_strlit("model");
    reveal_strlit("messages");
    reveal_strlit("max_tokens");
    reveal_strlit("temperature");
    reveal_strlit("tools");
    reveal_strlit("tool_choice");
    reveal_strlit("type");
    reveal_strlit("function");
    reveal_strlit("name");
    reveal_strlit("description");
    reveal_strlit("parameters");
}

/// A chat completion carries the whole conversation: the model and the limit as they were given,
/// the system prompt as the first message where there is one, one item for each message, in order,
/// with its role and content, and one for each tool.
pub proof fn law_completion_carries_the_conversation(
    model: Seq<char>,
    system: Seq<char>,
    messages: Seq<MessageV>,
    tools: Seq<ToolDefV>,
    max_tokens: int,
)
    ensures
        ({
            let v = completion_json(model, system, messages, tools, max_tokens);
            &&& json::jget_str(v, "model"@) == Some(model)
            &&& json::jget(v, "max_tokens"@) == Some(JValue::Int(max_tokens))
            &&& json::jget(v, "temperature"@) == Some(JValue::Int(0))
            &&& system.len() == 0 ==> (json::jarr(json::jat(v, "messages"@)) matches Some(items)
                && chat::lists_messages(items, messages))
            &&& system.len() > 0 ==> (json::jarr(json::jat(v, "messages"@)) matches Some(items)
                && items.len() > 0 && json::jget_str(items[0], "role"@) == Some("system"@)
                && json::jget_str(items[0], "content"@) == Some(system) && chat::lists_messages(
                items.drop_first(),
                messages,
            ))
            &&& tools.len() == 0 ==> json::jget(v, "tools"@) is None
            &&& tools.len() > 0 ==> json::jget_str(v, "tool_choice"@) == Some("auto"@) && (
            json::jarr(json::jat(v, "tools"@)) matches Some(items) && items.len() == tools.len()
                && forall|k: int|
                #![trigger items[k]]
                0 <= k < tools.len() ==> offers_function(items[k], tools[k]))
        }),
{
    lemma_keys();
    chat::law_messages_are_sent_one_for_one(messages);
    let rest = messages.map_values(|m: MessageV| chat::message_json(m));
    let first = MessageV { role: "system"@, content: system };
    chat::law_message_is_sent_whole(first);
    assert((seq![chat::message_json(first)] + rest).drop_first() =~= rest);
    if tools.len() > 0 {
        let items = tools.map_values(|t: ToolDefV| function_json(t));
        assert forall|k: int| #![trigger items[k]] 0 <= k < tools.len() implies offers_function(
            items[k],
            tools[k],
        ) by {
            lemma_function(tools[k]);
        }
    }
}

/// Whether a value offers a tool as a function.
pub open spec fn offers_function(v: JValue, t: ToolDefV) -> bool {
    let function = json::jat(v, "function"@);
    &&& json::jget_str(v, "type"@) == Some("function"@)
    &&& json::jget_str(function, "name"@) == Some(t.name)
    &&& json::jget_str(function, "description"@) == Some(t.description)
    &&& json::jget(function, "parameters"@) == Some(t.input_schema)
}

proof fn lemma_function(t: ToolDefV)
    ensures
        offers_function(function_json(t), t),
{
    lemma_keys();
}

/// A chat is sent to the provider of its model, with that provider's key and with the whole
/// conversation; without the key it is refused, and the refusal names the model.
pub proof fn law_chat_carries_the_conversation(
    keys: KeysV,
    model: Seq<char>,
    system: Seq<char>,
    messages: Seq<MessageV>,
    tools: Seq<ToolDefV>,
    max_tokens: int,
)
    ensures
        ({
            let route = route_of(model, keys.brand);
            let name = api_name(model, route);
            &&& key_of(keys, route) is None ==> (chat_call(
                keys,
                model,
                system,
                messages,
                tools,
                max_tokens,
            ) matches Err(e) && text::has_suffix(e, model))
            &&& key_of(keys, route) matches Some(key) ==> (chat_call(
                keys,
                model,
                system,
                messages,
                tools,
                max_tokens,
            ) matches Ok(call) && {
                &&& call.route == route
                &&& call.api_key == key
                &&& json::jget_str(call.body, "model"@) == Some(name)
                &&& json::jget(call.body, "max_tokens"@) == Some(JValue::Int(max_tokens))
                &&& json::jarr(json::jat(call.body, "messages"@)) matches Some(items) && (
                system.len() == 0 || route == ApiRoute::Anthropic ==> chat::lists_messages(
                    items,
                    messages,
                )) && (system.len() > 0 && route != ApiRoute::Anthropic ==> items.len() > 0
                    && json::jget_str(items[0], "content"@) == Some(system)
                    && chat::lists_messages(items.drop_first(), messages))
                &&& route == ApiRoute::Anthropic ==> json::jget_str(call.body, "system"@) == Some(
                    system,
                )
            })
        }),
{
    let route = route_of(model, keys.brand);
    let name = api_name(model, route);
    anthropic::law_request_carries_the_conversation(name, system, messages, tools, max_tokens);
    law_completion_carries_the_conversation(name, system, messages, tools, max_tokens);
    let head = key_name(route) + " is required for model "@;
    let e = head + model;
    assert(e.subrange(e.len() - model.len(), e.len() as int) =~= model);
}

/// A model goes to the provider that its name begins with, and that provider knows it by the name
/// without the provider's.
pub proof fn law_provider_is_named_by_the_model(rest: Seq<char>, brand: Seq<char>)
    requires
        !text::has_prefix("inception/"@ + rest, names::model_prefix(brand)),
        !text::has_prefix("openai/"@ + rest, names::model_prefix(brand)),
        !text::has_prefix("groq/"@ + rest, names::model_prefix(brand)),
    ensures
        route_of("anthropic/"@ + rest, brand) == ApiRoute::Anthropic,
        api_name("anthropic/"@ + rest, ApiRoute::Anthropic) == rest,
        route_of("inception/"@ + rest, brand) == ApiRoute::Inception,
        api_name("inception/"@ + rest, ApiRoute::Inception) == rest,
        route_of("openai/"@ + rest, brand) == ApiRoute::OpenAi,
        api_name("openai/"@ + rest, ApiRoute::OpenAi) == rest,
        route_of("groq/"@ + rest, brand) == ApiRoute::Groq,
        api_name("groq/"@ + rest, ApiRoute::Groq) == "groq/"@ + rest,
        route_of(brand + "-"@ + rest, brand) == ApiRoute::Anthropic,
{
    lemma_prefixed("anthropic/"@, rest);
    lemma_prefixed("inception/"@, rest);
    lemma_prefixed("openai/"@, rest);
    lemma_prefixed("groq/"@, rest);
    lemma_prefixed(names::model_prefix(brand), rest);
    reveal_strlit("anthropic/");
    reveal_strlit("inception/");
    reveal_strlit("openai/");
    reveal_strlit("groq/");
    reveal_strlit("qwen/");
    let i = "inception/"@ + rest;
    let o = "openai/"@ + rest;
    let g = "groq/"@ + rest;
    assert(i[0] == 'i');
    assert(o[0] == 'o');
    assert(g[0] == 'g');
    lemma_other_start(i, "anthropic/"@);
    lemma_other_start(o, "anthropic/"@);
    lemma_other_start(o, "inception/"@);
    lemma_other_start(g, "anthropic/"@);
    lemma_other_start(g, "inception/"@);
    lemma_other_start(g, "openai/"@);
}

proof fn lemma_prefixed(p: Seq<char>, rest: Seq<char>)
    ensures
        text::has_prefix(p + rest, p),
        unprefixed(p + rest, p) == rest,
{
    assert((p + rest).subrange(0, p.len() as int) =~= p);
    assert((p + rest).skip(p.len() as int) =~= rest);
}

proof fn lemma_other_start(s: Seq<char>, p: Seq<char>)
    requires
        s.len() > 0,
        p.len() > 0,
        s[0] != p[0],
    ensures
        !text::has_prefix(s, p),
{
    if text::has_prefix(s, p) {
        assert(s.subrange(0, p.len() as int)[0] == s[0]);
    }
}

/// The answer of a chat completion is the message of its first choice: its text to the letter,
/// and its calls with their names and arguments.
pub proof fn law_completion_says_what_its_message_says(
    data: JValue,
    choices: Seq<JValue>,
    message: JValue,
    read: spec_fn(Seq<char>) -> Option<JValue>,
)
    requires
        json::jarr(json::jat(data, "choices"@)) == Some(choices),
        choices.len() > 0,
        json::jget(choices[0], "message"@) == Some(message),
    ensures
        completion_in(data, read) matches Ok(response) && {
            &&& json::jget_str(message, "content"@) matches Some(said) ==> response.text == Some(
                said,
            )
            &&& json::jarr(json::jat(message, "tool_calls"@)) is None ==> response.tool_calls.len()
                == 0
            &&& json::jarr(json::jat(message, "tool_calls"@)) matches Some(calls)
                ==> response.tool_calls == tool_calls_in(calls, read)
            &&& json::jget_str(choices[0], "finish_reason"@) matches Some(reason)
                ==> response.stop_reason == reason
        },
{
}

proof fn lemma_tool_calls(a: Seq<JValue>, b: Seq<JValue>, read: spec_fn(Seq<char>) -> Option<JValue>)
    ensures
        tool_calls_in(a + b, read) == tool_calls_in(a, read) + tool_calls_in(b, read),
    decreases b.len(),
{
    if b.len() == 0 {
        assert(a + b =~= a);
        assert(tool_calls_in(a, read) + tool_calls_in(b, read) =~= tool_calls_in(a, read));
    } else {
        lemma_tool_calls(a, b.drop_last(), read);
        assert((a + b).drop_last() =~= a + b.drop_last());
        assert((a + b).last() == b.last());
        assert(tool_calls_in(a + b, read) =~= tool_calls_in(a, read) + tool_calls_in(b, read));
    }
}

/// The calls of a message are read one after the other: each that names a function adds a call
/// with that name, its id and its arguments.
pub proof fn law_calls_are_read_in_order(
    before: Seq<JValue>,
    call: JValue,
    behind: Seq<JValue>,
    name: Seq<char>,
    read: spec_fn(Seq<char>) -> Option<JValue>,
)
    requires
        json::jget_str(json::jat(call, "function"@), "name"@) == Some(name),
    ensures
        exists|c: ToolCallV|
            tool_calls_in(before + seq![call] + behind, read) == tool_calls_in(before, read)
                + #[trigger] seq![c] + tool_calls_in(behind, read) && c.name == name && (
            json::jget_str(call, "id"@) matches Some(id) ==> c.id == id) && (json::jget_str(
                json::jat(call, "function"@),
                "arguments"@,
            ) matches Some(args) ==> (read(args) matches Some(v) ==> c.input == v)),
{
    reveal_with_fuel(tool_calls_in, 2);
    assert(seq![call].drop_last() =~= seq![]);
    lemma_tool_calls(before + seq![call], behind, read);
    lemma_tool_calls(before, seq![call], read);
    let c = tool_call_in(call, read).unwrap();
    assert(tool_calls_in(seq![call], read) =~= seq![c]);
}

proof fn lemma_content_texts(a: Seq<JValue>, b: Seq<JValue>)
    ensures
        content_texts(a + b) == content_texts(a) + content_texts(b),
    decreases b.len(),
{
    if b.len() == 0 {
        assert(a + b =~= a);
        assert(content_texts(a) + content_texts(b) =~= content_texts(a));
    } else {
        lemma_content_texts(a, b.drop_last());
        assert((a + b).drop_last() =~= a + b.drop_last());
        assert((a + b).last() == b.last());
        assert(content_texts(a + b) =~= content_texts(a) + content_texts(b));
    }
}

/// A message in pieces is read whole: the text of each piece stands in the text of the message.
pub proof fn law_message_in_pieces_is_read_whole(message: JValue, items: Seq<JValue>, k: int, t: Seq<char>)
    requires
        json::jat(message, "content"@) == JValue::Arr(items),
        0 <= k < items.len(),
        items[k] == JValue::Str(t) || (json::jget_str(items[k], "type"@) == Some("text"@)
            && json::jget_str(items[k], "text"@) == Some(t)),
    ensures
        message_text(message) matches Some(said) && text::has_infix(said, t),
{
    reveal_with_fuel(content_texts, 2);
    let a = items.take(k);
    let b = items.skip(k + 1);
    assert(items =~= a + seq![items[k]] + b);
    lemma_content_texts(a + seq![items[k]], b);
    lemma_content_texts(a, seq![items[k]]);
    assert(seq![items[k]].drop_last() =~= seq![]);
    assert(content_texts(seq![items[k]]) =~= seq![t]);
    let i = content_texts(a).len() as int;
    assert(content_texts(items)[i] == t);
    text::law_joined_text_holds_each_part(content_texts(items), "\n"@, i);
}

/// The key that a model was resolved with is the one that its calls go out with.
pub proof fn law_resolved_key_is_used(brand: Seq<char>, model: Seq<char>, key: Seq<char>)
    ensures
        key_of(keys_for(brand, route_of(model, brand), key), route_of(model, brand)) == Some(key),
        keys_for(brand, route_of(model, brand), key).brand == brand,
{
}

/// A call says what it was called with: what can not be read is handed on as a text, and a call
/// without arguments has none.  What has no name is no call.
pub proof fn law_call_keeps_its_arguments(
    call: JValue,
    name: Seq<char>,
    args: Seq<char>,
    read: spec_fn(Seq<char>) -> Option<JValue>,
)
    ensures
        ({
            let function = json::jat(call, "function"@);
            &&& json::jget_str(function, "name"@) is None ==> tool_call_in(call, read) is None
            &&& json::jget_str(function, "name"@) == Some(name) && json::jget_str(
                function,
                "arguments"@,
            ) == Some(args) ==> (tool_call_in(call, read) matches Some(c) && (read(args) is None
                ==> c.input == JValue::Str(args)) && (read(args) matches Some(v) ==> c.input == v))
            &&& json::jget_str(function, "name"@) == Some(name) && json::jget_str(
                function,
                "arguments"@,
            ) is None ==> (tool_call_in(call, read) matches Some(c) && c.input is Obj && forall|
                k: Seq<char>,
            |
                json::jget(c.input, k) is None)
        }),
{
}

/// A completion counts its tokens; one without a message is an error, and one that does not say why
/// it stopped simply stopped.
pub proof fn law_completion_counts_its_tokens(
    data: JValue,
    choices: Seq<JValue>,
    n: int,
    read: spec_fn(Seq<char>) -> Option<JValue>,
)
    requires
        0 <= n <= u32::MAX,
        json::jarr(json::jat(data, "choices"@)) == Some(choices),
    ensures
        choices.len() == 0 ==> completion_in(data, read) is Err,
        choices.len() > 0 && json::jget(choices[0], "message"@) is None ==> completion_in(data, read)
            is Err,
        choices.len() > 0 ==> (completion_in(data, read) matches Ok(response) ==> {
            let u = json::jat(data, "usage"@);
            &&& json::jat(u, "prompt_tokens"@) == JValue::Int(n) ==> response.usage.input_tokens == n
            &&& json::jat(u, "completion_tokens"@) == JValue::Int(n) ==> response.usage.output_tokens
                == n
            &&& json::jget(u, "prompt_tokens"@) is None ==> response.usage.input_tokens == 0
            &&& json::jget(u, "completion_tokens"@) is None ==> response.usage.output_tokens == 0
            &&& json::jget_str(choices[0], "finish_reason"@) is None ==> response.stop_reason
                == "stop"@
        }),
{
}

/// Each provider has its own address, its own secret and its own word for its key.
pub proof fn law_providers_are_kept_apart(a: ApiRoute, b: ApiRoute)
    ensures
        secret_name(a) == secret_name(b) ==> a == b,
        key_name(a) == key_name(b) ==> a == b,
        url_of(a) == url_of(b) ==> a == b,
{
    reveal_strlit("anthropic");
    reveal_strlit("openai");
    reveal_strlit("groq");
    reveal_strlit("inception");
    assert("anthropic"@.len() == 9 && "inception"@.len() == 9 && "openai"@.len() == 6
        && "groq"@.len() == 4);
    assert("anthropic"@[0] == 'a' && "inception"@[0] == 'i');
    reveal_strlit("ANTHROPIC_API_KEY");
    reveal_strlit("OPENAI_API_KEY");
    reveal_strlit("GROQ_API_KEY");
    reveal_strlit("INCEPTION_API_KEY or MERCURY_API_KEY");
    assert("ANTHROPIC_API_KEY"@[0] == 'A' && "OPENAI_API_KEY"@[0] == 'O' && "GROQ_API_KEY"@[0] == 'G'
        && "INCEPTION_API_KEY or MERCURY_API_KEY"@[0] == 'I');
    reveal_strlit("https://api.anthropic.com/v1/messages");
    reveal_strlit("https://api.openai.com/v1");
    reveal_strlit("https://api.groq.com/openai/v1");
    reveal_strlit("https://api.inceptionlabs.ai/v1");
    let x = url_of(ApiRoute::Anthropic);
    let y = url_of(ApiRoute::OpenAi);
    let z = url_of(ApiRoute::Groq);
    let w = url_of(ApiRoute::Inception);
    assert(x[12] == 'a' && y[12] == 'o' && z[12] == 'g' && w[12] == 'i');
}

/// A message without words has no text.
pub proof fn law_message_without_words_has_no_text(message: JValue)
    ensures
        json::jget(message, "content"@) is None ==> message_text(message) is None,
        json::jget(message, "content"@) == Some(JValue::Arr(Seq::empty())) ==> message_text(message)
            is None,
{
}

/// A call without its key names the key that it needs.
pub proof fn law_missing_key_is_named(
    keys: KeysV,
    model: Seq<char>,
    system: Seq<char>,
    messages: Seq<MessageV>,
    tools: Seq<ToolDefV>,
    max_tokens: int,
)
    requires
        key_of(keys, route_of(model, keys.brand)) is None,
    ensures
        chat_call(keys, model, system, messages, tools, max_tokens) matches Err(e)
            && text::has_prefix(e, key_name(route_of(model, keys.brand))),
{
    let name = key_name(route_of(model, keys.brand));
    let e = name + " is required for model "@ + model;
    assert(e.subrange(0, name.len() as int) =~= name);
}

proof fn lemma_prefix_starts_it(s: Seq<char>, p: Seq<char>)
    requires
        text::has_prefix(s, p),
        p.len() > 0,
    ensures
        s.len() > 0 && s[0] == p[0],
{
    assert(s.subrange(0, p.len() as int)[0] == p[0]);
}

/// The families of open models are served by Groq, and a model without a provider by OpenAI.
pub proof fn law_open_models_are_served_by_groq(model: Seq<char>, brand: Seq<char>)
    requires
        !text::has_prefix(model, names::model_prefix(brand)),
    ensures
        text::has_prefix(model, "qwen/"@) || text::has_prefix(model, "meta-llama/"@) || text::has_prefix(
            model,
            "moonshotai/"@,
        ) || text::has_prefix(model, "canopylabs/"@) ==> route_of(model, brand) == ApiRoute::Groq,
        !model.contains('/') ==> route_of(model, brand) == ApiRoute::OpenAi,
{
    reveal_strlit("qwen/");
    reveal_strlit("meta-llama/");
    reveal_strlit("moonshotai/");
    reveal_strlit("canopylabs/");
    reveal_strlit("groq/");
    reveal_strlit("anthropic/");
    reveal_strlit("inception/");
    reveal_strlit("openai/");
    assert("qwen/"@[0] == 'q' && "meta-llama/"@[0] == 'm' && "moonshotai/"@[0] == 'm'
        && "canopylabs/"@[0] == 'c');
    assert("anthropic/"@[0] == 'a' && "inception/"@[0] == 'i' && "openai/"@[0] == 'o');
    if text::has_prefix(model, "qwen/"@) {
        lemma_prefix_starts_it(model, "qwen/"@);
    }
    if text::has_prefix(model, "meta-llama/"@) {
        lemma_prefix_starts_it(model, "meta-llama/"@);
    }
    if text::has_prefix(model, "moonshotai/"@) {
        lemma_prefix_starts_it(model, "moonshotai/"@);
    }
    if text::has_prefix(model, "canopylabs/"@) {
        lemma_prefix_starts_it(model, "canopylabs/"@);
    }
    if text::has_prefix(model, "anthropic/"@) {
        lemma_prefix_starts_it(model, "anthropic/"@);
        assert(model.subrange(0, 10)[9] == "anthropic/"@[9]);
        assert(model[9] == '/');
    }
    if text::has_prefix(model, "inception/"@) {
        lemma_prefix_starts_it(model, "inception/"@);
        assert(model.subrange(0, 10)[9] == "inception/"@[9]);
        assert(model[9] == '/');
    }
    if text::has_prefix(model, "openai/"@) {
        lemma_prefix_starts_it(model, "openai/"@);
    }
    if !model.contains('/') {
        if text::has_prefix(model, "qwen/"@) {
            assert(model.subrange(0, 5)[4] == "qwen/"@[4]);
            assert(model[4] == '/');
        }
        if text::has_prefix(model, "groq/"@) {
            assert(model.subrange(0, 5)[4] == "groq/"@[4]);
            assert(model[4] == '/');
        }
        if text::has_prefix(model, "meta-llama/"@) {
            assert(model.subrange(0, 11)[10] == "meta-llama/"@[10]);
            assert(model[10] == '/');
        }
        if text::has_prefix(model, "moonshotai/"@) {
            assert(model.subrange(0, 11)[10] == "moonshotai/"@[10]);
            assert(model[10] == '/');
        }
        if text::has_prefix(model, "canopylabs/"@) {
            assert(model.subrange(0, 11)[10] == "canopylabs/"@[10]);
            assert(model[10] == '/');
        }
    }
}

/// A completion asks for nothing that was not asked for.
pub proof fn law_completion_asks_nothing_else(
    model: Seq<char>,
    system: Seq<char>,
    messages: Seq<MessageV>,
    tools: Seq<ToolDefV>,
    max_tokens: int,
    key: Seq<char>,
)
    ensures
        json::jget(completion_json(model, system, messages, tools, max_tokens), key) is Some ==> key
            == "model"@ || key == "messages"@ || key == "max_tokens"@ || key == "temperature"@ || key
            == "tools"@ || key == "tool_choice"@,
{
}

} // verus!
