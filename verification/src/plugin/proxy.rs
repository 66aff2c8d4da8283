//! The way of a coding CLI to the agent's daemon.

use vstd::prelude::*;
use vstd::string::*;

use crate::codec;
use crate::json;
use crate::json::put;
use crate::json::put_text;
use crate::json::JValue;
use crate::json::Json;
use crate::plugin::net;
use crate::plugin::net::client_host_for_local;
use crate::text;
use crate::text::decimal_of;
use crate::text::parse_u64;
use crate::text::starts_with;
use crate::text::strip_prefix;
use crate::text::trim;

verus! {

/// The host that a daemon serves on unless it is told otherwise.
pub const DEFAULT_HOST: &'static str = "127.0.0.1";

/// The port that a daemon serves on unless it is told otherwise.
pub const DEFAULT_PORT: u16 = 8767;

/// The daemon's address as its configuration gives it.
#[derive(Debug)]
pub struct ConfiguredEndpoint {
    pub host: Option<String>,
    pub port: Option<u16>,
}

/// The address of a daemon: what was asked for, else what is configured, else the default. The
/// configuration is needed only where something was not asked for.
pub open spec fn endpoint(
    host: Option<Seq<char>>,
    port: Option<u16>,
    configured: Option<ConfiguredEndpoint>,
) -> Option<(Seq<char>, u16)> {
    match (host, port, configured) {
        (Some(h), Some(p), _) => Some((net::client_host(h), p)),
        (_, _, None) => None,
        (_, _, Some(c)) => Some(
            (
                net::client_host(
                    match host {
                        Some(h) => h,
                        None => match c.host {
                            Some(h) => h@,
                            None => DEFAULT_HOST@,
                        },
                    },
                ),
                match port {
                    Some(p) => p,
                    None => match c.port {
                        Some(p) => p,
                        None => DEFAULT_PORT,
                    },
                },
            ),
        ),
    }
}

/// What is said where the daemon's address cannot be found.
pub open spec fn no_endpoint(agent_name: Seq<char>) -> Seq<char> {
    "no --daemon-host / --daemon-port and no GlobalConfig for agent '"@ + agent_name
        + "'. Run `gosh agent setup --instance "@ + agent_name
        + "` to write the per-instance config the proxy reads."@
}

/// The address of a daemon. `configured` is `None` where there is no configuration to read.
pub fn resolve_daemon_endpoint(
    agent_name: &str,
    host: Option<&str>,
    port: Option<u16>,
    configured: Option<ConfiguredEndpoint>,
) -> (r: Result<(String, u16), String>)
    ensures
        match r {
            Ok((h, p)) => endpoint(text::opt_slice(host), port, configured) == Some((h@, p)),
            Err(e) => endpoint(text::opt_slice(host), port, configured) is None && e@
                == no_endpoint(agent_name@),
        },
{
    if let Some(h) = host {
        if let Some(p) = port {
            return Ok((client_host_for_local(h), p));
        }
    }
    let c = match configured {
        Some(c) => c,
        None => {
            let mut e = "no --daemon-host / --daemon-port and no GlobalConfig for agent '".to_owned();
            e.append(agent_name);
            e.append("'. Run `gosh agent setup --instance ");
            e.append(agent_name);
            e.append("` to write the per-instance config the proxy reads.");
            return Err(e);
        },
    };
    let raw = match host {
        Some(h) => h.to_owned(),
        None => match c.host {
            Some(h) => h,
            None => DEFAULT_HOST.to_owned(),
        },
    };
    let chosen: u16 = match port {
        Some(p) => p,
        None => match c.port {
            Some(p) => p,
            None => DEFAULT_PORT,
        },
    };
    Ok((client_host_for_local(raw.as_str()), chosen))
}

/// What was asked for is what is used, whatever is configured.
pub proof fn law_asked_endpoint_wins(
    host: Seq<char>,
    port: u16,
    configured: Option<ConfiguredEndpoint>,
)
    ensures
        endpoint(Some(host), Some(port), configured) == Some((net::client_host(host), port)),
{
}

/// Where a daemon takes requests.
pub open spec fn url_at(host: Seq<char>, port: u16) -> Seq<char> {
    "http://"@ + host + ":"@ + text::decimal(port as nat) + "/mcp"@
}

/// Where a daemon takes requests.
pub fn daemon_url(host: &str, port: u16) -> (r: String)
    ensures
        r@ == url_at(host@, port),
{
    let mut url = "http://".to_owned();
    url.append(host);
    url.append(":");
    url.append(decimal_of(port as u64).as_str());
    url.append("/mcp");
    url
}

/// How messages are told apart on a stream.
#[derive(Debug, Clone, Copy, PartialEq, Eq, Structural)]
pub enum Framing {
    ContentLength,
    Newline,
}

/// Whether bytes begin with others.
pub open spec fn begins(data: Seq<u8>, with: Seq<u8>) -> bool {
    data.len() >= with.len() && data.take(with.len() as int) == with
}

fn bytes_begin(data: &[u8], with: &str) -> (r: bool)
    ensures
        r == begins(data@, codec::utf8(with@)),
{
    let p = with.as_bytes();
    if data.len() < p.len() {
        return false;
    }
    let mut i: usize = 0;
    while i < p.len()
        invariant
            i <= p.len() <= data.len(),
            p@ == codec::utf8(with@),
            forall|k: int| 0 <= k < i ==> data@[k] == p@[k],
        decreases p.len() - i,
    {
        if data[i] != p[i] {
            assert(data@.take(p@.len() as int)[i as int] != p@[i as int]);
            return false;
        }
        i = i + 1;
    }
    assert(data@.take(p@.len() as int) =~= p@);
    true
}

/// How a stream tells messages apart, by its first bytes.
pub fn detect_framing(data: &[u8]) -> (r: Framing)
    ensures
        r == (if begins(data@, codec::utf8("Content-Length:"@)) || begins(
            data@,
            codec::utf8("content-length:"@),
        ) {
            Framing::ContentLength
        } else {
            Framing::Newline
        }),
{
    if bytes_begin(data, "Content-Length:") || bytes_begin(data, "content-length:") {
        Framing::ContentLength
    } else {
        Framing::Newline
    }
}

/// What a header line says of a message's length, where it speaks of it.
pub open spec fn length_field(line: Seq<char>) -> Option<Seq<char>> {
    match text::without_prefix(text::trimmed(line), "Content-Length:"@) {
        Some(v) => Some(text::trimmed(v)),
        None => match text::without_prefix(text::trimmed(line), "content-length:"@) {
            Some(v) => Some(text::trimmed(v)),
            None => None,
        },
    }
}

/// A length that a machine can hold.
pub open spec fn length_in(field: Seq<char>) -> Option<int> {
    match text::parsed_u64(field) {
        Some(n) => if n <= usize::MAX {
            Some(n)
        } else {
            None
        },
        None => None,
    }
}

/// What follows a header line.
#[derive(Debug, PartialEq, Eq)]
pub enum HeaderStep {
    /// Another header line.
    More,
    /// A message of this many bytes.
    Body(usize),
    Failed(&'static str),
}

/// The headers of a message.
#[derive(Debug, Clone, Copy, PartialEq, Eq, Structural)]
pub struct Headers {
    pub content_length: Option<usize>,
}

impl Headers {
    pub fn new() -> (r: Headers)
        ensures
            r.content_length is None,
    {
        Headers { content_length: None }
    }

    /// Takes a header line. The last length that was given counts; an empty line ends the headers.
    pub fn on_line(&mut self, line: &str) -> (r: HeaderStep)
        ensures
            if text::trimmed(line@).len() == 0 {
                &&& *final(self) == *old(self)
                &&& match old(self).content_length {
                    Some(n) => r == HeaderStep::Body(n),
                    None => r matches HeaderStep::Failed(e) && e@ == "missing Content-Length header"@,
                }
            } else {
                match length_field(line@) {
                    None => r == HeaderStep::More && *final(self) == *old(self),
                    Some(field) => match length_in(field) {
                        Some(n) => r == HeaderStep::More && final(self).content_length == Some(
                            n as usize,
                        ),
                        None => r matches HeaderStep::Failed(e) && e@ == "invalid Content-Length"@
                            && *final(self) == *old(self),
                    },
                }
            },
    {
        let trimmed = trim(line);
        if trimmed.unicode_len() == 0 {
            return match self.content_length {
                Some(n) => HeaderStep::Body(n),
                None => HeaderStep::Failed("missing Content-Length header"),
            };
        }
        let field = match strip_prefix(trimmed, "Content-Length:") {
            Some(v) => trim(v),
            None => match strip_prefix(trimmed, "content-length:") {
                Some(v) => trim(v),
                None => {
                    return HeaderStep::More;
                },
            },
        };
        match parse_u64(field) {
            Some(n) => if n <= usize::MAX as u64 {
                self.content_length = Some(n as usize);
                HeaderStep::More
            } else {
                HeaderStep::Failed("invalid Content-Length")
            },
            None => HeaderStep::Failed("invalid Content-Length"),
        }
    }
}

/// The message that a line holds, where it is not blank.
pub fn newline_message(line: &str) -> (r: Option<String>)
    ensures
        text::opt_text(r) == (if text::trimmed(line@).len() == 0 {
            None
        } else {
            Some(text::trimmed(line@))
        }),
{
    let trimmed = trim(line);
    if trimmed.unicode_len() == 0 {
        None
    } else {
        Some(trimmed.to_owned())
    }
}

/// A message as a stream carries it.
pub open spec fn framed(message: Seq<char>, framing: Framing) -> Seq<char> {
    match framing {
        Framing::ContentLength => "Content-Length: "@ + text::decimal(codec::utf8(message).len())
            + "\r\n\r\n"@ + message,
        Framing::Newline => message + "\n"@,
    }
}

/// A message as a stream carries it.
pub fn frame_response(message: &str, framing: Framing) -> (r: String)
    ensures
        r@ == framed(message@, framing),
{
    match framing {
        Framing::ContentLength => {
            let len: usize = message.as_bytes().len();
            let mut out = "Content-Length: ".to_owned();
            out.append(decimal_of(len as u64).as_str());
            out.append("\r\n\r\n");
            out.append(message);
            out
        },
        Framing::Newline => {
            let mut out = message.to_owned();
            out.append("\n");
            out
        },
    }
}

/// The length that is written before a message is the length that is read before it.
pub proof fn law_length_is_read_back(n: usize)
    ensures
        length_field("Content-Length: "@ + text::decimal(n as nat) + "\r\n"@) == Some(
            text::decimal(n as nat),
        ),
        length_in(text::decimal(n as nat)) == Some(n as int),
{
    text::law_decimal_is_read_back(n as u64);
    reveal_strlit("Content-Length: ");
    reveal_strlit("Content-Length:");
    reveal_strlit("\r\n");
    let digits = text::decimal(n as nat);
    text::lemma_decimal_digits(n as nat);
    assert(text::is_digit(digits[0]) && text::is_digit(digits.last()));
    let line = "Content-Length: "@ + digits + "\r\n"@;
    let body = "Content-Length: "@ + digits;
    assert(text::trimmed_start(line) == line);
    assert(line.last() == '\n');
    assert(line.drop_last().last() == '\r');
    assert(line.drop_last().drop_last() =~= body);
    assert(body.last() == digits.last());
    assert(text::trimmed_end(line) == text::trimmed_end(line.drop_last()));
    assert(text::trimmed_end(line.drop_last()) == text::trimmed_end(body));
    assert(text::trimmed(line) == body);
    assert(body.subrange(0, "Content-Length:"@.len() as int) =~= "Content-Length:"@);
    let rest = body.skip("Content-Length:"@.len() as int);
    assert(rest =~= seq![' '] + digits);
    assert(rest.skip(1) =~= digits);
    assert(text::trimmed_start(digits) == digits);
    assert(text::trimmed_start(rest) == text::trimmed_start(rest.skip(1)));
    assert(text::trimmed(rest) == digits);
}

/// How answers are told apart: as the first message of the session was.
pub fn session_output_framing(session: &mut Option<Framing>, incoming: Framing) -> (r: Framing)
    ensures
        *final(session) == Some(r),
        r == (match *old(session) {
            Some(f) => f,
            None => incoming,
        }),
{
    match *session {
        Some(f) => f,
        None => {
            *session = Some(incoming);
            incoming
        },
    }
}

/// An answer that reports an error.
pub open spec fn error_json(id: Option<JValue>, code: int, message: Seq<char>) -> JValue {
    JValue::Obj(
        Map::<Seq<char>, JValue>::empty().insert("jsonrpc"@, JValue::Str("2.0"@)).insert(
            "id"@,
            match id {
                Some(v) => v,
                None => JValue::Null,
            },
        ).insert(
            "error"@,
            JValue::Obj(
                Map::<Seq<char>, JValue>::empty().insert("code"@, JValue::Int(code)).insert(
                    "message"@,
                    JValue::Str(message),
                ),
            ),
        ),
    )
}

/// An answer that reports an error.
pub fn make_error_response(id: Option<Json>, code: i64, message: &str) -> (r: Json)
    ensures
        r@ == error_json(json::opt_owned_json(id), code as int, message@),
{
    let mut error: Vec<(String, Json)> = Vec::new();
    put(&mut error, "code", Json::Int(code));
    put_text(&mut error, "message", message);
    let mut e: Vec<(String, Json)> = Vec::new();
    put_text(&mut e, "jsonrpc", "2.0");
    put(
        &mut e,
        "id",
        match id {
            Some(v) => v,
            None => Json::Null,
        },
    );
    put(&mut e, "error", Json::Obj(error));
    Json::Obj(e)
}

/// What came of a request to the daemon.
#[derive(Debug)]
pub enum DaemonReply {
    /// It could not be reached.
    Unreachable { url: String, error: String },
    /// It answered with a status that is not a success.
    Status(String),
    /// It answered with something that is not JSON.
    Invalid(String),
    Answer(Json),
}

/// The answer that the coding CLI gets.
pub open spec fn relayed(id: Option<JValue>, reply: DaemonReply) -> JValue {
    match reply {
        DaemonReply::Unreachable { url, error } => error_json(
            id,
            -32603,
            "agent daemon unreachable at "@ + url@ + ": "@ + error@
                + ". The daemon may not be running — try `gosh agent start` in another shell."@,
        ),
        DaemonReply::Status(status) => error_json(id, -32603, "daemon returned HTTP "@ + status@),
        DaemonReply::Invalid(error) => error_json(
            id,
            -32603,
            "invalid response from daemon: "@ + error@,
        ),
        DaemonReply::Answer(v) => v@,
    }
}

/// The answer that the coding CLI gets.
pub fn relay(id: Option<Json>, reply: DaemonReply) -> (r: Json)
    ensures
        r@ == relayed(json::opt_owned_json(id), reply),
{
    match reply {
        DaemonReply::Unreachable { url, error } => {
            let mut m = "agent daemon unreachable at ".to_owned();
            m.append(url.as_str());
            m.append(": ");
            m.append(error.as_str());
            m.append(
                ". The daemon may not be running — try `gosh agent start` in another shell.",
            );
            make_error_response(id, -32603, m.as_str())
        },
        DaemonReply::Status(status) => {
            let mut m = "daemon returned HTTP ".to_owned();
            m.append(status.as_str());
            make_error_response(id, -32603, m.as_str())
        },
        DaemonReply::Invalid(error) => {
            let mut m = "invalid response from daemon: ".to_owned();
            m.append(error.as_str());
            make_error_response(id, -32603, m.as_str())
        },
        DaemonReply::Answer(v) => v,
    }
}

/// The answer to what is not JSON.
pub fn parse_error(error: &str) -> (r: Json)
    ensures
        r@ == error_json(None, -32700, "parse error: "@ + error@),
{
    let mut m = "parse error: ".to_owned();
    m.append(error);
    make_error_response(None, -32700, m.as_str())
}

/// Whether a request gets no answer: notifications do not.
pub fn is_notification(request: &Json) -> (r: bool)
    ensures
        r == (match json::jget_str(request@, "method"@) {
            Some(method) => text::has_prefix(method, "notifications/"@),
            None => false,
        }),
{
    match request.get_str("method") {
        Some(method) => starts_with(method, "notifications/"),
        None => false,
    }
}

proof fn lemma_keys()
    ensures
        "jsonrpc"@.len() == 7 && "jsonrpc"@[0] == 'j',
        "id"@.len() == 2,
        "error"@.len() == 5,
        "code"@.len() == 4,
        "message"@.len() == 7 && "message"@[0] == 'm',
{
    reveal_strlit("jsonrpc");
    reveal_strlit("id");
    reveal_strlit("error");
    reveal_strlit("code");
    reveal_strlit("message");
}

/// What was not asked for comes from the configuration, and from the defaults where that has none.
pub proof fn law_configured_endpoint_is_used(c: ConfiguredEndpoint)
    ensures
        c.host matches Some(h) ==> (c.port matches Some(p) ==> endpoint(None, None, Some(c)) == Some(
            (net::client_host(h@), p),
        )),
        c.host is None && c.port is None ==> endpoint(None, None, Some(c)) == Some(
            (net::client_host(DEFAULT_HOST@), DEFAULT_PORT),
        ),
        endpoint(None, None, None) is None,
{
}

/// A message is framed whole: behind a header that tells its length in bytes, or on a line.
pub proof fn law_message_is_framed_whole(message: Seq<char>)
    ensures
        text::has_suffix(framed(message, Framing::ContentLength), message),
        text::has_prefix(framed(message, Framing::Newline), message),
        codec::utf8(message).len() <= usize::MAX ==> exists|digits: Seq<char>|
            #![trigger length_in(digits)]
            text::has_prefix(
                framed(message, Framing::ContentLength),
                "Content-Length: "@ + digits + "\r\n\r\n"@,
            ) && length_in(digits) == Some(codec::utf8(message).len() as int),
{
    let f = framed(message, Framing::ContentLength);
    assert(f.subrange(f.len() - message.len(), f.len() as int) =~= message);
    let g = framed(message, Framing::Newline);
    assert(g.subrange(0, message.len() as int) =~= message);
    if codec::utf8(message).len() <= usize::MAX {
        let n = codec::utf8(message).len() as usize;
        let digits = text::decimal(n as nat);
        law_length_is_read_back(n);
        let head = "Content-Length: "@ + digits + "\r\n\r\n"@;
        assert(f.subrange(0, head.len() as int) =~= head);
        assert(length_in(digits) == Some(n as int));
    }
}

/// An error answers the request that it is about: it has that request's id, and says what went
/// wrong.
pub proof fn law_error_answers_its_request(id: JValue, code: int, message: Seq<char>)
    ensures
        json::jget(error_json(Some(id), code, message), "id"@) == Some(id),
        json::jget_str(json::jat(error_json(Some(id), code, message), "error"@), "message"@) == Some(
            message,
        ),
        json::jget(json::jat(error_json(Some(id), code, message), "error"@), "code"@) == Some(
            JValue::Int(code),
        ),
        json::jget_str(error_json(Some(id), code, message), "jsonrpc"@) == Some("2.0"@),
        json::jget(error_json(None, code, message), "id"@) == Some(JValue::Null),
{
    lemma_keys();
}

/// What the daemon answers is handed on unchanged; where it does not, the client gets an error for
/// the same request.
pub proof fn law_answer_is_handed_on(id: JValue, reply: DaemonReply)
    ensures
        reply matches DaemonReply::Answer(v) ==> relayed(Some(id), reply) == v@,
        !(reply is Answer) ==> json::jget(relayed(Some(id), reply), "id"@) == Some(id)
            && json::jget(relayed(Some(id), reply), "error"@) is Some,
        reply matches DaemonReply::Invalid(e) ==> (json::jget_str(
            json::jat(relayed(Some(id), reply), "error"@),
            "message"@,
        ) matches Some(said) && text::has_suffix(said, e@)),
{
    lemma_keys();
    match reply {
        DaemonReply::Invalid(e) => {
            let said = "invalid response from daemon: "@ + e@;
            assert(said.subrange(said.len() - e@.len(), said.len() as int) =~= e@);
        },
        _ => {},
    }
}

/// What is asked for wins over what is configured, each for itself.
pub proof fn law_asked_part_wins(h: Seq<char>, p: u16, c: ConfiguredEndpoint)
    ensures
        endpoint(Some(h), None, Some(c)) matches Some(at) && at.0 == net::client_host(h) && (c.port
            matches Some(q) ==> at.1 == q) && (c.port is None ==> at.1 == DEFAULT_PORT),
        endpoint(None, Some(p), Some(c)) matches Some(at) && at.1 == p && (c.host matches Some(g)
            ==> at.0 == net::client_host(g@)) && (c.host is None ==> at.0 == net::client_host(
            DEFAULT_HOST@,
        )),
        endpoint(Some(h), None, None) is None,
        endpoint(None, Some(p), None) is None,
{
}

/// A daemon that can not be reached is told with its address and with what went wrong; one that
/// refused with its status.
pub proof fn law_trouble_with_the_daemon_is_told(id: JValue, reply: DaemonReply)
    ensures
        reply matches DaemonReply::Unreachable { url, error } ==> (json::jget_str(
            json::jat(relayed(Some(id), reply), "error"@),
            "message"@,
        ) matches Some(said) && text::has_infix(said, url@ + ": "@ + error@)),
        reply matches DaemonReply::Status(status) ==> (json::jget_str(
            json::jat(relayed(Some(id), reply), "error"@),
            "message"@,
        ) matches Some(said) && text::has_suffix(said, status@)),
        !(reply is Answer) ==> json::jget(json::jat(relayed(Some(id), reply), "error"@), "code"@) == Some(
            JValue::Int(-32603),
        ),
{
    lemma_keys();
    match reply {
        DaemonReply::Unreachable { url, error } => {
            let head = "agent daemon unreachable at "@;
            let core = url@ + ": "@ + error@;
            let tail = ". The daemon may not be running — try `gosh agent start` in another shell."@;
            assert(head + url@ + ": "@ + error@ + tail =~= head + core + tail);
            text::lemma_infix(head, core, tail);
        },
        DaemonReply::Status(status) => {
            let said = "daemon returned HTTP "@ + status@;
            assert(said.subrange(said.len() - status@.len(), said.len() as int) =~= status@);
        },
        _ => {},
    }
}

/// A daemon is called at its host and its port.
pub proof fn law_daemon_is_called_at_its_port(host: Seq<char>, port: u16)
    ensures
        text::has_prefix(url_at(host, port), "http://"@ + host + ":"@),
        text::has_suffix(url_at(host, port), ":"@ + text::decimal(port as nat) + "/mcp"@),
{
    let url = url_at(host, port);
    let head = "http://"@ + host + ":"@;
    let tail = ":"@ + text::decimal(port as nat) + "/mcp"@;
    assert(url.subrange(0, head.len() as int) =~= head);
    assert(url.subrange(url.len() - tail.len(), url.len() as int) =~= tail);
}

/// A proxy that knows no daemon names the agent that it has none for.
pub proof fn law_missing_endpoint_names_the_agent(agent_name: Seq<char>)
    ensures
        text::has_infix(no_endpoint(agent_name), agent_name + "'. Run"@),
        text::has_infix(no_endpoint(agent_name), "--instance "@ + agent_name),
{
    reveal_strlit("'. Run `gosh agent setup --instance ");
    reveal_strlit("'. Run");
    reveal_strlit("--instance ");
    let head = "no --daemon-host / --daemon-port and no GlobalConfig for agent '"@;
    let mid = "'. Run `gosh agent setup --instance "@;
    let tail = "` to write the per-instance config the proxy reads."@;
    let n = mid.len() as int;
    assert(mid =~= "'. Run"@ + mid.skip(6));
    assert(mid =~= mid.take(n - 11) + "--instance "@);
    let whole = no_endpoint(agent_name);
    assert(whole =~= head + (agent_name + "'. Run"@) + (mid.skip(6) + agent_name + tail));
    text::lemma_infix(head, agent_name + "'. Run"@, mid.skip(6) + agent_name + tail);
    assert(whole =~= (head + agent_name + mid.take(n - 11)) + ("--instance "@ + agent_name) + tail);
    text::lemma_infix(head + agent_name + mid.take(n - 11), "--instance "@ + agent_name, tail);
}

/// A message with a length is known by how it begins.
pub proof fn law_length_is_seen_at_the_beginning(with: Seq<u8>, rest: Seq<u8>, data: Seq<u8>)
    ensures
        begins(with + rest, with),
        data.len() < with.len() ==> !begins(data, with),
        with.len() > 0 && data.len() > 0 && data[0] != with[0] ==> !begins(data, with),
{
    assert((with + rest).take(with.len() as int) =~= with);
    if with.len() > 0 && data.len() > 0 && data[0] != with[0] && data.len() >= with.len() {
        assert(data.take(with.len() as int)[0] == data[0]);
    }
}

} // verus!
