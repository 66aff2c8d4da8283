//! The MCP protocol: what is sent, and how replies are read.

use vstd::prelude::*;
use vstd::string::*;

use crate::client::transport;
use crate::text;
use crate::json;
use crate::json::put;
use crate::json::put_text;
use crate::json::JValue;
use crate::json::Json;
use crate::text::same;

verus! {

/// A JSON-RPC request without parameters.
pub open spec fn rpc_json(method: Seq<char>) -> Map<Seq<char>, JValue> {
    Map::<Seq<char>, JValue>::empty().insert("jsonrpc"@, JValue::Str("2.0"@)).insert(
        "id"@,
        JValue::Int(1),
    ).insert("method"@, JValue::Str(method))
}

fn rpc_entries(method: &str) -> (r: Vec<(String, Json)>)
    ensures
        crate::json::entries_view(r@) == rpc_json(method@),
{
    let mut entries: Vec<(String, Json)> = Vec::new();
    put_text(&mut entries, "jsonrpc", "2.0");
    put(&mut entries, "id", Json::UInt(1));
    put_text(&mut entries, "method", method);
    entries
}

/// The request that opens a session.
pub open spec fn initialize_json(client: Seq<char>, version: Seq<char>) -> JValue {
    let info = JValue::Obj(
        Map::<Seq<char>, JValue>::empty().insert("name"@, JValue::Str(client)).insert(
            "version"@,
            JValue::Str(version),
        ),
    );
    let params = JValue::Obj(
        Map::<Seq<char>, JValue>::empty().insert(
            "protocolVersion"@,
            JValue::Str("2025-03-26"@),
        ).insert("capabilities"@, JValue::Obj(Map::empty())).insert("clientInfo"@, info),
    );
    JValue::Obj(rpc_json("initialize"@).insert("params"@, params))
}

/// The request that opens a session.
pub fn initialize_body(client_name: &str, version: &str) -> (r: Json)
    ensures
        r@ == initialize_json(client_name@, version@),
{
    let mut info: Vec<(String, Json)> = Vec::new();
    put_text(&mut info, "name", client_name);
    put_text(&mut info, "version", version);
    let mut params: Vec<(String, Json)> = Vec::new();
    put_text(&mut params, "protocolVersion", "2025-03-26");
    put(&mut params, "capabilities", Json::Obj(Vec::new()));
    put(&mut params, "clientInfo", Json::Obj(info));
    let mut entries = rpc_entries("initialize");
    put(&mut entries, "params", Json::Obj(params));
    Json::Obj(entries)
}

/// The notification that a session is open.
pub fn initialized_body() -> (r: Json)
    ensures
        r@ == JValue::Obj(
            Map::<Seq<char>, JValue>::empty().insert("jsonrpc"@, JValue::Str("2.0"@)).insert(
                "method"@,
                JValue::Str("notifications/initialized"@),
            ),
        ),
{
    let mut entries: Vec<(String, Json)> = Vec::new();
    put_text(&mut entries, "jsonrpc", "2.0");
    put_text(&mut entries, "method", "notifications/initialized");
    Json::Obj(entries)
}

/// The request for the list of tools.
pub fn list_tools_body() -> (r: Json)
    ensures
        r@ == JValue::Obj(rpc_json("tools/list"@)),
{
    Json::Obj(rpc_entries("tools/list"))
}

/// The request that calls a tool.
pub open spec fn call_json(tool: Seq<char>, args: JValue) -> JValue {
    let params = JValue::Obj(
        Map::<Seq<char>, JValue>::empty().insert("name"@, JValue::Str(tool)).insert(
            "arguments"@,
            args,
        ),
    );
    JValue::Obj(rpc_json("tools/call"@).insert("params"@, params))
}

/// The request that calls a tool.
pub fn call_tool_body(tool_name: &str, args: Json) -> (r: Json)
    ensures
        r@ == call_json(tool_name@, args@),
{
    let mut params: Vec<(String, Json)> = Vec::new();
    put_text(&mut params, "name", tool_name);
    put(&mut params, "arguments", args);
    let mut entries = rpc_entries("tools/call");
    put(&mut entries, "params", Json::Obj(params));
    Json::Obj(entries)
}

pub open spec fn text_result(r: Result<String, String>) -> Result<Seq<char>, Seq<char>> {
    match r {
        Ok(s) => Ok(s@),
        Err(e) => Err(e@),
    }
}

/// The session that a reply opened, where `write` is how JSON is written.
pub open spec fn session_in(
    reply: JValue,
    session: Option<Seq<char>>,
    write: spec_fn(JValue) -> Seq<char>,
) -> Result<Seq<char>, Seq<char>> {
    match session {
        None => Err("server did not return Mcp-Session-Id"@),
        Some(sid) => match json::jget(reply, "error"@) {
            Some(error) => Err("MCP initialize error: "@ + write(error)),
            None => Ok(sid),
        },
    }
}

/// The session that a reply opened.
pub fn initialize_outcome(reply: &Json, session_id: Option<String>) -> (r: Result<String, String>)
    ensures
        text_result(r) == session_in(reply@, text::opt_text(session_id), json::json_writer()),
{
    match session_id {
        None => Err("server did not return Mcp-Session-Id".to_owned()),
        Some(sid) => match reply.get("error") {
            Some(error) => {
                let mut message: String = "MCP initialize error: ".to_owned();
                message.append(error.to_text().as_str());
                Err(message)
            },
            None => Ok(sid),
        },
    }
}

/// The list of tools in a reply.
pub open spec fn tools_in(reply: JValue, write: spec_fn(JValue) -> Seq<char>) -> Result<
    JValue,
    Seq<char>,
> {
    match json::jget(reply, "error"@) {
        Some(error) => Err("MCP tools/list error: "@ + write(error)),
        None => Ok(json::jat(reply, "result"@)),
    }
}

/// The list of tools in a reply.
pub fn list_tools_outcome(reply: &Json) -> (r: Result<Json, String>)
    ensures
        transport::json_result(r) == tools_in(reply@, json::json_writer()),
{
    match reply.get("error") {
        Some(error) => {
            let mut message: String = "MCP tools/list error: ".to_owned();
            message.append(error.to_text().as_str());
            Err(message)
        },
        None => Ok(crate::llm::anthropic::copy_or_null(reply.get("result"))),
    }
}

/// The text of a text item of a tool's result.
pub open spec fn item_text(item: JValue) -> Option<Seq<char>> {
    match json::jget_str(item, "type"@) {
        Some(t) if t == "text"@ => json::jget_str(item, "text"@),
        _ => None,
    }
}

/// The first text in the content of a tool's result.
pub open spec fn first_text(items: Seq<JValue>) -> Option<Seq<char>>
    decreases items.len(),
{
    if items.len() == 0 {
        None
    } else if item_text(items[0]) is Some {
        item_text(items[0])
    } else {
        first_text(items.skip(1))
    }
}

/// What the text of a tool's result says: JSON, unless that is an error of the tool.
pub open spec fn text_outcome(
    tool: Seq<char>,
    text: Seq<char>,
    parsed: Option<JValue>,
) -> Result<JValue, Seq<char>> {
    match parsed {
        None => Ok(JValue::Str(text)),
        Some(v) => match json::jget_str(v, "error"@) {
            Some(message) => Err(
                tool + " error: "@ + message + " (code: "@ + (match json::jget_str(v, "code"@) {
                    Some(code) => code,
                    None => "UNKNOWN"@,
                }) + ")"@,
            ),
            None => Ok(v),
        },
    }
}

/// The content of a tool's result.
pub open spec fn result_items(reply: JValue) -> Seq<JValue> {
    match json::jarr(json::jat(json::jat(reply, "result"@), "content"@)) {
        Some(items) => items,
        None => seq![],
    }
}

/// What a reply to a tool call says.
pub open spec fn call_outcome_in(
    tool: Seq<char>,
    reply: JValue,
    read: spec_fn(Seq<char>) -> Option<JValue>,
    write: spec_fn(JValue) -> Seq<char>,
) -> Result<JValue, Seq<char>> {
    match json::jget(reply, "error"@) {
        Some(error) => Err("MCP error: "@ + write(error)),
        None => match first_text(result_items(reply)) {
            None => Ok(json::jat(reply, "result"@)),
            Some(text) => if json::jbool(json::jat(json::jat(reply, "result"@), "isError"@)) == Some(true) {
                Err(tool + ": "@ + text)
            } else {
                text_outcome(tool, text, read(text))
            },
        },
    }
}

/// An error of the protocol, of the tool, or in the tool's own answer is never taken for a
/// result.
pub proof fn law_errors_are_not_results(
    tool: Seq<char>,
    reply: JValue,
    read: spec_fn(Seq<char>) -> Option<JValue>,
    write: spec_fn(JValue) -> Seq<char>,
)
    ensures
        json::jget(reply, "error"@) is Some ==> call_outcome_in(tool, reply, read, write) is Err,
        first_text(result_items(reply)) is Some && json::jbool(json::jat(json::jat(reply, "result"@), "isError"@))
            == Some(true) ==> call_outcome_in(tool, reply, read, write) is Err,
        call_outcome_in(tool, reply, read, write) matches Ok(v) ==> first_text(
            result_items(reply),
        ) is None || json::jget_str(v, "error"@) is None,
{
}

fn find_text(items: &Vec<Json>) -> (r: Option<&str>)
    ensures
        text::opt_slice(r) == first_text(json::items_view(items@)),
{
    let ghost all = json::items_view(items@);
    let mut i: usize = 0;
    assert(all.skip(0) =~= all);
    while i < items.len()
        invariant
            i <= items.len(),
            all == json::items_view(items@),
            first_text(all) == first_text(all.skip(i as int)),
        decreases items.len() - i,
    {
        assert(all.skip(i as int)[0] == items@[i as int]@);
        assert(all.skip(i as int).skip(1) =~= all.skip(i + 1));
        match items[i].get_str("type") {
            Some(t) => {
                if same(t, "text") {
                    let text = items[i].get_str("text");
                    if text.is_some() {
                        return text;
                    }
                }
            },
            None => {},
        }
        i = i + 1;
    }
    None
}

/// What the text of a tool's result says.
fn read_text(tool_name: &str, text: &str) -> (r: Result<Json, String>)
    ensures
        transport::json_result(r) == text_outcome(tool_name@, text@, json::json_parsed(text@)),
{
    match Json::parse(text) {
        None => Ok(Json::text(text)),
        Some(v) => {
            match v.get_str("error") {
                Some(error) => {
                    let mut message: String = tool_name.to_owned();
                    message.append(" error: ");
                    message.append(error);
                    message.append(" (code: ");
                    match v.get_str("code") {
                        Some(code) => {
                            message.append(code);
                        },
                        None => {
                            message.append("UNKNOWN");
                        },
                    }
                    message.append(")");
                    return Err(message);
                },
                None => {},
            }
            Ok(v)
        },
    }
}

/// What a reply to a tool call says: the first text of the result, read as JSON where it is
/// JSON, or the whole result where it has no text.
pub fn call_tool_outcome(tool_name: &str, reply: &Json) -> (r: Result<Json, String>)
    ensures
        transport::json_result(r) == call_outcome_in(
            tool_name@,
            reply@,
            json::json_reader(),
            json::json_writer(),
        ),
{
    match reply.get("error") {
        Some(error) => {
            let mut message: String = "MCP error: ".to_owned();
            message.append(error.to_text().as_str());
            return Err(message);
        },
        None => {},
    }
    let found = match reply.get("result") {
        Some(result) => match result.get_array("content") {
            Some(items) => find_text(items),
            None => None,
        },
        None => None,
    };
    match found {
        None => Ok(crate::llm::anthropic::copy_or_null(reply.get("result"))),
        Some(text) => {
            let is_error = match reply.get("result") {
                Some(result) => match result.get("isError") {
                    Some(flag) => match flag.as_bool() {
                        Some(b) => b,
                        None => false,
                    },
                    None => false,
                },
                None => false,
            };
            if is_error {
                let mut message: String = tool_name.to_owned();
                message.append(": ");
                message.append(text);
                return Err(message);
            }
            read_text(tool_name, text)
        },
    }
}

proof fn lemma_keys()
    ensures
        "jsonrpc"@.len() == 7,
        "id"@.len() == 2,
        "method"@.len() == 6 && "method"@[0] == 'm',
        "params"@.len() == 6 && "params"@[0] == 'p',
        "name"@.len() == 4,
        "arguments"@.len() == 9,
{
    reveal_strlit("jsonrpc");
    reveal_strlit("id");
    reveal_strlit("method");
    reveal_strlit("params");
    reveal_strlit("name");
    reveal_strlit("arguments");
}

/// A tool call names the tool and carries its arguments unchanged.
pub proof fn law_call_carries_its_arguments(tool: Seq<char>, args: JValue)
    ensures
        ({
            let v = call_json(tool, args);
            &&& json::jget_str(v, "method"@) == Some("tools/call"@)
            &&& json::jget_str(v, "jsonrpc"@) == Some("2.0"@)
            &&& json::jget_str(json::jat(v, "params"@), "name"@) == Some(tool)
            &&& json::jget(json::jat(v, "params"@), "arguments"@) == Some(args)
        }),
{
    lemma_keys();
}

/// What a tool answers is what its caller gets: the first text of the answer as JSON where it is
/// JSON, else as it is; without a text, the whole result.
pub proof fn law_answer_is_what_the_tool_said(
    tool: Seq<char>,
    reply: JValue,
    items: Seq<JValue>,
    said: Seq<char>,
    read: spec_fn(Seq<char>) -> Option<JValue>,
    write: spec_fn(JValue) -> Seq<char>,
)
    requires
        json::jget(reply, "error"@) is None,
        json::jarr(json::jat(json::jat(reply, "result"@), "content"@)) == Some(items),
        items.len() > 0,
        json::jget_str(items[0], "type"@) == Some("text"@),
        json::jget_str(items[0], "text"@) == Some(said),
    ensures
        json::jbool(json::jat(json::jat(reply, "result"@), "isError"@)) != Some(true) ==> {
            &&& read(said) is None ==> call_outcome_in(tool, reply, read, write) == Ok::<
                JValue,
                Seq<char>,
            >(JValue::Str(said))
            &&& read(said) matches Some(v) ==> json::jget_str(v, "error"@) is None
                ==> call_outcome_in(tool, reply, read, write) == Ok::<JValue, Seq<char>>(v)
        },
        json::jbool(json::jat(json::jat(reply, "result"@), "isError"@)) == Some(true) ==> (
        call_outcome_in(tool, reply, read, write) matches Err(e) && text::has_suffix(e, said)),
{
    let e = tool + ": "@ + said;
    assert(e.subrange(e.len() - said.len(), e.len() as int) =~= said);
}

proof fn lemma_hello_keys()
    ensures
        "jsonrpc"@.len() == 7 && "jsonrpc"@[0] == 'j',
        "id"@.len() == 2,
        "method"@.len() == 6 && "method"@[0] == 'm',
        "params"@.len() == 6 && "params"@[0] == 'p',
        "protocolVersion"@.len() == 15,
        "capabilities"@.len() == 12,
        "clientInfo"@.len() == 10,
        "name"@.len() == 4,
        "version"@.len() == 7 && "version"@[0] == 'v',
{
    reveal_strlit("jsonrpc");
    reveal_strlit("id");
    reveal_strlit("method");
    reveal_strlit("params");
    reveal_strlit("protocolVersion");
    reveal_strlit("capabilities");
    reveal_strlit("clientInfo");
    reveal_strlit("name");
    reveal_strlit("version");
}

/// A client introduces itself by its name and version, in the version of the protocol that it
/// speaks.
pub proof fn law_client_introduces_itself(client: Seq<char>, version: Seq<char>)
    ensures
        ({
            let v = initialize_json(client, version);
            let params = json::jat(v, "params"@);
            &&& json::jget_str(v, "method"@) == Some("initialize"@)
            &&& json::jget_str(v, "jsonrpc"@) == Some("2.0"@)
            &&& json::jget(v, "id"@) == Some(JValue::Int(1))
            &&& json::jget_str(params, "protocolVersion"@) == Some("2025-03-26"@)
            &&& json::jget_str(json::jat(params, "clientInfo"@), "name"@) == Some(client)
            &&& json::jget_str(json::jat(params, "clientInfo"@), "version"@) == Some(version)
        }),
{
    lemma_hello_keys();
}

/// A session is the one that the server named, unless it refused; so with its tools.
pub proof fn law_session_is_the_servers(
    reply: JValue,
    session: Seq<char>,
    error: JValue,
    write: spec_fn(JValue) -> Seq<char>,
)
    ensures
        json::jget(reply, "error"@) is None ==> session_in(reply, Some(session), write) == Ok::<
            Seq<char>,
            Seq<char>,
        >(session),
        json::jget(reply, "error"@) == Some(error) ==> (session_in(reply, Some(session), write)
            matches Err(e) && text::has_suffix(e, write(error))),
        session_in(reply, None, write) is Err,
        json::jget(reply, "error"@) is None ==> tools_in(reply, write) == Ok::<JValue, Seq<char>>(
            json::jat(reply, "result"@),
        ),
        json::jget(reply, "error"@) == Some(error) ==> (tools_in(reply, write) matches Err(e)
            && text::has_suffix(e, write(error))),
{
    let said = write(error);
    let a = "MCP initialize error: "@ + said;
    assert(a.subrange(a.len() - said.len(), a.len() as int) =~= said);
    let b = "MCP tools/list error: "@ + said;
    assert(b.subrange(b.len() - said.len(), b.len() as int) =~= said);
}

/// An error that a tool tells is told on, with the tool's name and its code.
pub proof fn law_error_of_a_tool_is_told(
    tool: Seq<char>,
    said: Seq<char>,
    v: JValue,
    message: Seq<char>,
    reply: JValue,
    error: JValue,
    read: spec_fn(Seq<char>) -> Option<JValue>,
    write: spec_fn(JValue) -> Seq<char>,
)
    ensures
        json::jget_str(v, "error"@) == Some(message) ==> (text_outcome(tool, said, Some(v)) matches Err(
            e,
        ) && text::has_prefix(e, tool) && text::has_infix(e, message)),
        json::jget(reply, "error"@) == Some(error) ==> (call_outcome_in(tool, reply, read, write)
            matches Err(e) && text::has_suffix(e, write(error))),
{
    if json::jget_str(v, "error"@) == Some(message) {
        let code = match json::jget_str(v, "code"@) {
            Some(code) => code,
            None => "UNKNOWN"@,
        };
        let e = tool + " error: "@ + message + " (code: "@ + code + ")"@;
        let head = tool + " error: "@;
        let tail = " (code: "@ + code + ")"@;
        assert(e =~= head + message + tail);
        text::lemma_infix(head, message, tail);
        assert(e.subrange(0, tool.len() as int) =~= tool);
    }
    let w = write(error);
    let m = "MCP error: "@ + w;
    assert(m.subrange(m.len() - w.len(), m.len() as int) =~= w);
}

/// What is no text is passed over: the answer is the first text that there is.
pub proof fn law_first_text_is_the_answer(before: Seq<JValue>, item: JValue, behind: Seq<JValue>, said: Seq<char>)
    requires
        forall|i: int| 0 <= i < before.len() ==> json::jget_str(#[trigger] before[i], "type"@)
            != Some("text"@),
        json::jget_str(item, "type"@) == Some("text"@),
        json::jget_str(item, "text"@) == Some(said),
    ensures
        first_text(before + seq![item] + behind) == Some(said),
    decreases before.len(),
{
    let all = before + seq![item] + behind;
    if before.len() == 0 {
        assert(all[0] == item);
    } else {
        assert(all[0] == before[0]);
        assert(all.skip(1) =~= before.skip(1) + seq![item] + behind);
        assert forall|i: int| 0 <= i < before.skip(1).len() implies json::jget_str(
            #[trigger] before.skip(1)[i],
            "type"@,
        ) != Some("text"@) by {
            assert(before.skip(1)[i] == before[i + 1]);
        }
        law_first_text_is_the_answer(before.skip(1), item, behind, said);
    }
}

} // verus!
