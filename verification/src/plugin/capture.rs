//! Writing what was said in a session to memory.

use vstd::prelude::*;
use vstd::string::*;

use crate::codec;
use crate::codec::short_hash;
use crate::json;
use crate::json::put;
use crate::json::put_text;
use crate::json::JValue;
use crate::json::Json;
use crate::plugin::offset::SessionOffset;
use crate::text;
use crate::text::decimal_of;
use crate::text::same;
use crate::text::trim_trailing;

verus! {

/// The turn that an event belongs to: a prompt starts a new one.
pub fn next_turn(offset: &mut SessionOffset, event: &str) -> (r: u32)
    requires
        event@ == "prompt"@ ==> old(offset).turn_count < u32::MAX,
    ensures
        r == final(offset).turn_count,
        final(offset).byte_offset == old(offset).byte_offset,
        final(offset).turn_count == old(offset).turn_count + (if event@ == "prompt"@ {
            1int
        } else {
            0
        }),
{
    if same(event, "prompt") {
        offset.turn_count = offset.turn_count + 1;
    }
    offset.turn_count
}

/// The id of a message, by its session, its turn and its event.
pub open spec fn message_id(session_id: Seq<char>, turn_number: u32, event: Seq<char>) -> Seq<char> {
    codec::short_digest(
        session_id + ":"@ + text::decimal(turn_number as nat) + ":"@ + event,
    )
}

/// The id of a message: the same message has the same id whenever it is captured.
pub fn deterministic_id(session_id: &str, turn_number: u32, event: &str) -> (r: String)
    ensures
        r@ == message_id(session_id@, turn_number, event@),
        r@.len() == 32,
{
    let mut input = session_id.to_owned();
    input.append(":");
    input.append(decimal_of(turn_number as u64).as_str());
    input.append(":");
    input.append(event);
    short_hash(input.as_str())
}

/// A message for memory.
pub struct WritePayloadParams<'a> {
    pub key: &'a str,
    pub message_id: &'a str,
    pub timestamp_ms: i64,
    pub content: &'a str,
    pub session_id: &'a str,
    pub agent_id: &'a str,
    pub swarm_id: Option<&'a str>,
    pub event: &'a str,
    pub turn_number: u32,
    pub platform_name: &'a str,
}

/// A message as memory takes it: shared with the swarm where there is one, else for the agent
/// alone.
pub open spec fn payload_json(p: WritePayloadParams) -> JValue {
    let m = Map::<Seq<char>, JValue>::empty().insert("key"@, JValue::Str(p.key@)).insert(
        "message_id"@,
        JValue::Str(p.message_id@),
    ).insert("timestamp_ms"@, JValue::Int(p.timestamp_ms as int)).insert(
        "content"@,
        JValue::Str(p.content@),
    ).insert("content_family"@, JValue::Str("chat"@)).insert(
        "session_id"@,
        JValue::Str(p.session_id@),
    ).insert("agent_id"@, JValue::Str(p.agent_id@)).insert(
        "scope"@,
        JValue::Str(
            if p.swarm_id is Some {
                "swarm-shared"@
            } else {
                "agent-private"@
            },
        ),
    ).insert(
        "metadata"@,
        JValue::Obj(
            Map::<Seq<char>, JValue>::empty().insert(
                "role"@,
                JValue::Str(
                    if p.event@ == "prompt"@ {
                        "user"@
                    } else {
                        "assistant"@
                    },
                ),
            ).insert("turn_number"@, JValue::Str(text::decimal(p.turn_number as nat))).insert(
                "platform"@,
                JValue::Str(p.platform_name@),
            ),
        ),
    );
    JValue::Obj(
        match p.swarm_id {
            Some(id) => m.insert("swarm_id"@, JValue::Str(id@)),
            None => m,
        },
    )
}

/// A message as memory takes it.
pub fn build_write_payload(p: &WritePayloadParams) -> (r: Json)
    ensures
        r@ == payload_json(*p),
{
    let scope = if p.swarm_id.is_some() {
        "swarm-shared"
    } else {
        "agent-private"
    };
    let role = if same(p.event, "prompt") {
        "user"
    } else {
        "assistant"
    };
    let mut metadata: Vec<(String, Json)> = Vec::new();
    put_text(&mut metadata, "role", role);
    put_text(&mut metadata, "turn_number", decimal_of(p.turn_number as u64).as_str());
    put_text(&mut metadata, "platform", p.platform_name);
    let mut e: Vec<(String, Json)> = Vec::new();
    put_text(&mut e, "key", p.key);
    put_text(&mut e, "message_id", p.message_id);
    put(&mut e, "timestamp_ms", Json::Int(p.timestamp_ms));
    put_text(&mut e, "content", p.content);
    put_text(&mut e, "content_family", "chat");
    put_text(&mut e, "session_id", p.session_id);
    put_text(&mut e, "agent_id", p.agent_id);
    put_text(&mut e, "scope", scope);
    put(&mut e, "metadata", Json::Obj(metadata));
    if let Some(id) = p.swarm_id {
        put_text(&mut e, "swarm_id", id);
    }
    Json::Obj(e)
}

/// What an agent captures without a swarm is never shared.
pub proof fn law_capture_is_private_without_a_swarm(p: WritePayloadParams)
    requires
        p.swarm_id is None,
    ensures
        json::jget_str(payload_json(p), "scope"@) == Some("agent-private"@),
        json::jget(payload_json(p), "swarm_id"@) is None,
{
    reveal_strlit("scope");
    reveal_strlit("metadata");
    reveal_strlit("swarm_id");
    reveal_strlit("key");
    reveal_strlit("message_id");
    reveal_strlit("timestamp_ms");
    reveal_strlit("content");
    reveal_strlit("content_family");
    reveal_strlit("session_id");
    reveal_strlit("agent_id");
    assert("scope"@.len() != "metadata"@.len());
    assert("swarm_id"@[1] == 'w');
    assert("metadata"@[1] == 'e');
    assert("agent_id"@[1] == 'g');
}

/// Where messages are sent.
pub fn endpoint(authority_url: &str) -> (r: String)
    ensures
        r@ == text::without_trailing(authority_url@, '/'),
{
    trim_trailing(authority_url, '/').to_owned()
}

/// How far a session has been captured once a message has arrived: after a response, to the end
/// of the transcript, where its size is known.
pub fn on_written(offset: SessionOffset, event: &str, transcript_len: Option<u64>) -> (r: SessionOffset)
    ensures
        r.turn_count == offset.turn_count,
        r.byte_offset == (match transcript_len {
            Some(len) => if event@ == "response"@ {
                len
            } else {
                offset.byte_offset
            },
            None => offset.byte_offset,
        }),
{
    match transcript_len {
        Some(len) => if same(event, "response") {
            SessionOffset { byte_offset: len, turn_count: offset.turn_count }
        } else {
            offset
        },
        None => offset,
    }
}

/// Whether it is noted how far a session has been captured though its message was only buffered:
/// after a prompt, so that the next one has a turn of its own.
pub fn saves_after_failure(event: &str) -> (r: bool)
    ensures
        r == (event@ == "prompt"@),
{
    same(event, "prompt")
}

proof fn lemma_keys()
    ensures
        "key"@.len() == 3,
        "message_id"@.len() == 10 && "message_id"@[0] == 'm',
        "timestamp_ms"@.len() == 12,
        "content"@.len() == 7,
        "content_family"@.len() == 14,
        "session_id"@.len() == 10 && "session_id"@[0] == 's',
        "agent_id"@.len() == 8 && "agent_id"@[0] == 'a',
        "scope"@.len() == 5,
        "metadata"@.len() == 8 && "metadata"@[0] == 'm',
        "swarm_id"@.len() == 8 && "swarm_id"@[0] == 's',
        "role"@.len() == 4 && "role"@[0] == 'r',
        "turn_number"@.len() == 11,
        "platform"@.len() == 8 && "platform"@[0] == 'p',
        "user"@.len() == 4 && "user"@[0] == 'u',
        "assistant"@.len() == 9,
{
    reveal_strlit("key");
    reveal_strlit("message_id");
    reveal_strlit("timestamp_ms");
    reveal_strlit("content");
    reveal_strlit("content_family");
    reveal_strlit("session_id");
    reveal_strlit("agent_id");
    reveal_strlit("scope");
    reveal_strlit("metadata");
    reveal_strlit("swarm_id");
    reveal_strlit("role");
    reveal_strlit("turn_number");
    reveal_strlit("platform");
    reveal_strlit("user");
    reveal_strlit("assistant");
}

/// What was captured is what is written: the payload holds the text itself, whatever the event and
/// with a swarm or without, and says where it belongs.
pub proof fn law_captured_text_is_written(p: WritePayloadParams)
    ensures
        ({
            let v = payload_json(p);
            &&& json::jget_str(v, "content"@) == Some(p.content@)
            &&& json::jget_str(v, "key"@) == Some(p.key@)
            &&& json::jget_str(v, "message_id"@) == Some(p.message_id@)
            &&& json::jget_str(v, "session_id"@) == Some(p.session_id@)
            &&& json::jget_str(v, "agent_id"@) == Some(p.agent_id@)
            &&& json::jget(v, "timestamp_ms"@) == Some(JValue::Int(p.timestamp_ms as int))
            &&& json::jget_str(v, "content_family"@) == Some("chat"@)
        }),
{
    lemma_keys();
}

/// A prompt is the user's and every other message the assistant's; the turn and the platform are
/// noted with it.
pub proof fn law_speaker_is_noted(p: WritePayloadParams)
    ensures
        ({
            let m = json::jat(payload_json(p), "metadata"@);
            &&& json::jget_str(m, "role"@) == Some("user"@) <==> p.event@ == "prompt"@
            &&& p.event@ != "prompt"@ ==> json::jget_str(m, "role"@) == Some("assistant"@)
            &&& json::jget_str(m, "platform"@) == Some(p.platform_name@)
            &&& json::jget_str(m, "turn_number"@) matches Some(n) && text::parsed_u64(n) == Some(
                p.turn_number as int,
            )
        }),
{
    lemma_keys();
    text::law_decimal_is_read_back(p.turn_number as u64);
}

/// What is captured in a swarm is shared with that swarm.
pub proof fn law_capture_is_shared_with_its_swarm(p: WritePayloadParams)
    requires
        p.swarm_id is Some,
    ensures
        json::jget_str(payload_json(p), "scope"@) == Some("swarm-shared"@),
        json::jget_str(payload_json(p), "swarm_id"@) == Some(p.swarm_id->0@),
{
    lemma_keys();
}

/// A message goes by an id of its own: two messages of a session have the same id only where the
/// digests of what tells them apart begin alike.
pub proof fn law_messages_are_told_apart(
    session_id: Seq<char>,
    a: u32,
    first: Seq<char>,
    b: u32,
    second: Seq<char>,
)
    requires
        message_id(session_id, a, first) == message_id(session_id, b, second),
    ensures
        ({
            let x = session_id + ":"@ + text::decimal(a as nat) + ":"@ + first;
            let y = session_id + ":"@ + text::decimal(b as nat) + ":"@ + second;
            codec::sha256(codec::utf8(x)).take(16) == codec::sha256(codec::utf8(y)).take(16)
        }),
{
    let x = session_id + ":"@ + text::decimal(a as nat) + ":"@ + first;
    let y = session_id + ":"@ + text::decimal(b as nat) + ":"@ + second;
    codec::law_hex_tells_bytes_apart(
        codec::sha256(codec::utf8(x)).take(16),
        codec::sha256(codec::utf8(y)).take(16),
    );
}

/// A capture writes nothing but what was captured and where it belongs.
pub proof fn law_capture_writes_nothing_else(p: WritePayloadParams, key: Seq<char>)
    ensures
        json::jget(payload_json(p), key) is Some ==> key == "key"@ || key == "message_id"@ || key
            == "timestamp_ms"@ || key == "content"@ || key == "content_family"@ || key
            == "session_id"@ || key == "agent_id"@ || key == "scope"@ || key == "metadata"@ || key
            == "swarm_id"@,
{
}

} // verus!
