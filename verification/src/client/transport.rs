//! MCP over HTTP: the endpoint, the headers, and replies in event streams.

use vstd::prelude::*;
use vstd::string::*;

use crate::text;
use crate::json;
use crate::json::JValue;
use crate::json::Json;
use crate::text::lines_of;
use crate::text::strip_prefix;
use crate::text::strip_suffix;
use crate::text::trim;
use crate::text::trim_trailing;

verus! {

/// A URL without one `/mcp` at its end.
pub open spec fn without_mcp(url: Seq<char>) -> Seq<char> {
    match text::without_suffix(url, "/mcp"@) {
        Some(rest) => rest,
        None => url,
    }
}

/// The MCP endpoint of an authority, however the authority was written.
pub open spec fn canonical(url: Seq<char>) -> Seq<char> {
    text::without_trailing(without_mcp(text::without_trailing(url, '/')), '/') + "/mcp"@
}

/// Canonicalises an authority URL into the full MCP JSON-RPC endpoint: a trailing slash and one
/// trailing `/mcp` are dropped, then `/mcp` is put behind.
pub fn canonical_mcp_url(authority_url: &str) -> (r: String)
    ensures
        r@ == canonical(authority_url@),
{
    let trimmed = trim_trailing(authority_url, '/');
    let base = match strip_suffix(trimmed, "/mcp") {
        Some(rest) => rest,
        None => trimmed,
    };
    let mut out: String = trim_trailing(base, '/').to_owned();
    out.append("/mcp");
    out
}

proof fn lemma_without_trailing(s: Seq<char>, c: char)
    ensures
        text::without_trailing(s, c).len() > 0 ==> text::without_trailing(s, c).last() != c,
        text::without_trailing(text::without_trailing(s, c), c) == text::without_trailing(s, c),
    decreases s.len(),
{
    if s.len() > 0 && s.last() == c {
        lemma_without_trailing(s.drop_last(), c);
    }
}

/// A text that ends in `/mcp` loses it, and nothing else.
proof fn lemma_mcp_suffix(base: Seq<char>)
    ensures
        text::without_trailing(base + "/mcp"@, '/') == base + "/mcp"@,
        without_mcp(base + "/mcp"@) == base,
        text::has_suffix(base + "/mcp"@, "/mcp"@),
{
    reveal_strlit("/mcp");
    let s = base + "/mcp"@;
    assert(s.last() == 'p');
    assert(s.subrange(s.len() - 4, s.len() as int) =~= "/mcp"@);
    assert(s.take(s.len() - 4) =~= base);
}

/// Every canonical URL ends in `/mcp`, and making it canonical again changes nothing.
pub proof fn law_canonical_url_is_stable(url: Seq<char>)
    ensures
        text::has_suffix(canonical(url), "/mcp"@),
        canonical(canonical(url)) == canonical(url),
{
    let base = text::without_trailing(without_mcp(text::without_trailing(url, '/')), '/');
    lemma_without_trailing(without_mcp(text::without_trailing(url, '/')), '/');
    lemma_mcp_suffix(base);
}

/// A slash at the end of an authority makes no difference.
pub proof fn law_trailing_slash_makes_no_difference(url: Seq<char>)
    ensures
        canonical(url.push('/')) == canonical(url),
{
    assert(url.push('/').drop_last() =~= url);
}

/// Nor does a `/mcp` at the end of an authority that has none.
pub proof fn law_trailing_mcp_makes_no_difference(url: Seq<char>)
    requires
        !text::has_suffix(text::without_trailing(url, '/'), "/mcp"@),
    ensures
        canonical(url + "/mcp"@) == canonical(url),
{
    lemma_mcp_suffix(url);
    lemma_without_trailing(url, '/');
}

/// A client of an MCP endpoint, and the tokens that it presents.
#[derive(Debug)]
pub struct HttpTransport {
    mcp_endpoint: String,
    server_token: Option<String>,
    principal_auth_token: Option<String>,
}

/// Headers, in order.
pub open spec fn headers_view(headers: Seq<(String, String)>) -> Seq<(Seq<char>, Seq<char>)> {
    headers.map_values(|h: (String, String)| (h.0@, h.1@))
}

/// Headers with one more, where there is a value for it.
pub open spec fn with_header(
    headers: Seq<(Seq<char>, Seq<char>)>,
    name: Seq<char>,
    value: Option<Seq<char>>,
) -> Seq<(Seq<char>, Seq<char>)> {
    match value {
        Some(v) => headers.push((name, v)),
        None => headers,
    }
}

/// The headers of a call.
pub open spec fn call_headers(
    server_token: Option<Seq<char>>,
    principal: Option<Seq<char>>,
    session: Option<Seq<char>>,
) -> Seq<(Seq<char>, Seq<char>)> {
    let h0 = seq![
        ("Content-Type"@, "application/json"@),
        ("Accept"@, "application/json, text/event-stream"@),
    ];
    let h1 = with_header(h0, "x-server-token"@, server_token);
    let h2 = with_header(
        h1,
        "Authorization"@,
        match principal {
            Some(token) => Some("Bearer "@ + token),
            None => None,
        },
    );
    with_header(h2, "Mcp-Session-Id"@, session)
}

fn push_header(headers: &mut Vec<(String, String)>, name: &str, value: &str)
    ensures
        headers_view(final(headers)@) == headers_view(old(headers)@).push((name@, value@)),
{
    headers.push((name.to_owned(), value.to_owned()));
    assert(headers_view(headers@) =~= headers_view(old(headers)@).push((name@, value@)));
}

impl HttpTransport {
    pub closed spec fn endpoint(&self) -> Seq<char> {
        self.mcp_endpoint@
    }

    pub closed spec fn token(&self) -> Option<Seq<char>> {
        text::opt_text(self.server_token)
    }

    pub closed spec fn principal(&self) -> Option<Seq<char>> {
        text::opt_text(self.principal_auth_token)
    }

    pub fn new(
        authority_url: &str,
        server_token: Option<String>,
        principal_auth_token: Option<String>,
    ) -> (r: Self)
        ensures
            r.endpoint() == canonical(authority_url@),
            r.token() == text::opt_text(server_token),
            r.principal() == text::opt_text(principal_auth_token),
    {
        HttpTransport {
            mcp_endpoint: canonical_mcp_url(authority_url),
            server_token,
            principal_auth_token,
        }
    }

    /// The full canonical MCP JSON-RPC endpoint this transport posts to.
    pub fn mcp_endpoint(&self) -> (r: &str)
        ensures
            r@ == self.endpoint(),
    {
        self.mcp_endpoint.as_str()
    }

    /// The headers of a call.
    pub fn headers(&self, session_id: Option<&str>) -> (r: Vec<(String, String)>)
        ensures
            headers_view(r@) == call_headers(self.token(), self.principal(), text::opt_slice(session_id)),
    {
        let mut headers: Vec<(String, String)> = Vec::new();
        push_header(&mut headers, "Content-Type", "application/json");
        push_header(&mut headers, "Accept", "application/json, text/event-stream");
        assert(headers_view(headers@) =~= seq![
            ("Content-Type"@, "application/json"@),
            ("Accept"@, "application/json, text/event-stream"@),
        ]);
        match &self.server_token {
            Some(token) => {
                push_header(&mut headers, "x-server-token", token.as_str());
            },
            None => {},
        }
        match &self.principal_auth_token {
            Some(token) => {
                let mut bearer: String = "Bearer ".to_owned();
                bearer.append(token.as_str());
                push_header(&mut headers, "Authorization", bearer.as_str());
            },
            None => {},
        }
        match session_id {
            Some(sid) => {
                push_header(&mut headers, "Mcp-Session-Id", sid);
            },
            None => {},
        }
        headers
    }
}

/// What a refused call is reported as.
pub fn call_error(status: &str, body: &str) -> (r: String)
    ensures
        r@ == "MCP call failed (HTTP "@ + status@ + "): "@ + body@,
{
    let mut out: String = "MCP call failed (HTTP ".to_owned();
    out.append(status);
    out.append("): ");
    out.append(body);
    out
}

/// The reply that a line of an event stream carries: a data line with JSON that has an id.
pub open spec fn line_reply(line: Seq<char>, read: spec_fn(Seq<char>) -> Option<JValue>) -> Option<
    JValue,
> {
    match text::without_prefix(text::trimmed(line), "data: "@) {
        Some(data) => match read(data) {
            Some(v) if json::jget(v, "id"@) is Some => Some(v),
            _ => None,
        },
        None => None,
    }
}

/// The first reply in the lines of an event stream.
pub open spec fn first_reply(
    all: Seq<Seq<char>>,
    read: spec_fn(Seq<char>) -> Option<JValue>,
) -> Option<JValue>
    decreases all.len(),
{
    if all.len() == 0 {
        None
    } else if line_reply(all[0], read) is Some {
        line_reply(all[0], read)
    } else {
        first_reply(all.skip(1), read)
    }
}

fn reply_of_line(line: &str) -> (r: Option<Json>)
    ensures
        json::opt_owned_json(r) == line_reply(line@, json::json_reader()),
{
    match strip_prefix(trim(line), "data: ") {
        Some(data) => match Json::parse(data) {
            Some(v) => if v.get("id").is_some() {
                Some(v)
            } else {
                None
            },
            None => None,
        },
        None => None,
    }
}

/// The first JSON-RPC reply in what has come of an event stream.
pub fn extract_sse_response(body: &str) -> (r: Option<Json>)
    ensures
        json::opt_owned_json(r) == first_reply(text::lines(body@), json::json_reader()),
{
    let all = lines_of(body);
    let ghost read = json::json_reader();
    let ghost whole = text::texts(all@);
    let mut i: usize = 0;
    assert(whole.skip(0) =~= whole);
    while i < all.len()
        invariant
            i <= all.len(),
            whole == text::texts(all@),
            whole == text::lines(body@),
            read == json::json_reader(),
            first_reply(whole, read) == first_reply(whole.skip(i as int), read),
        decreases all.len() - i,
    {
        assert(whole.skip(i as int)[0] == all@[i as int]@);
        assert(whole.skip(i as int).skip(1) =~= whole.skip(i + 1));
        let reply = reply_of_line(all[i].as_str());
        if reply.is_some() {
            return reply;
        }
        i = i + 1;
    }
    None
}

pub open spec fn json_result(r: Result<Json, String>) -> Result<JValue, Seq<char>> {
    match r {
        Ok(v) => Ok(v@),
        Err(e) => Err(e@),
    }
}

/// The JSON-RPC reply in an event stream that has ended.
pub fn parse_sse_response(body: &str) -> (r: Result<Json, String>)
    ensures
        json_result(r) == (match first_reply(text::lines(body@), json::json_reader()) {
            Some(v) => Ok::<JValue, Seq<char>>(v),
            None => Err("no JSON-RPC response found in SSE stream"@),
        }),
{
    match extract_sse_response(body) {
        Some(v) => Ok(v),
        None => Err("no JSON-RPC response found in SSE stream".to_owned()),
    }
}

/// A call carries each token that there is, under its own header, and no header for one that there
/// is not.
pub proof fn law_call_carries_its_tokens(
    server_token: Option<Seq<char>>,
    principal: Option<Seq<char>>,
    session: Option<Seq<char>>,
)
    ensures
        ({
            let h = call_headers(server_token, principal, session);
            &&& h.contains(("Content-Type"@, "application/json"@))
            &&& server_token matches Some(t) ==> h.contains(("x-server-token"@, t))
            &&& principal matches Some(t) ==> h.contains(("Authorization"@, "Bearer "@ + t))
            &&& session matches Some(t) ==> h.contains(("Mcp-Session-Id"@, t))
            &&& h.len() == 2 + (if server_token is Some {
                1int
            } else {
                0
            }) + (if principal is Some {
                1int
            } else {
                0
            }) + (if session is Some {
                1int
            } else {
                0
            })
        }),
{
    let h = call_headers(server_token, principal, session);
    assert(h[0] == ("Content-Type"@, "application/json"@));
    let a: int = if server_token is Some {
        1
    } else {
        0
    };
    let b: int = if principal is Some {
        1
    } else {
        0
    };
    if server_token is Some {
        assert(h[2] == ("x-server-token"@, server_token->0));
    }
    if principal is Some {
        assert(h[2 + a] == ("Authorization"@, "Bearer "@ + principal->0));
    }
    if session is Some {
        assert(h[2 + a + b] == ("Mcp-Session-Id"@, session->0));
    }
}

/// The endpoint of a server stands under the server's own address.
pub proof fn law_endpoint_stands_under_its_server(url: Seq<char>)
    requires
        url.len() > 0,
        url.last() != '/',
        !text::has_suffix(url, "/mcp"@),
    ensures
        canonical(url) == url + "/mcp"@,
{
}

/// The reply is the first message of the stream that has an id; what comes before it is passed
/// over.
pub proof fn law_reply_is_the_first_with_an_id(
    before: Seq<Seq<char>>,
    data: Seq<char>,
    behind: Seq<Seq<char>>,
    v: JValue,
    read: spec_fn(Seq<char>) -> Option<JValue>,
)
    requires
        forall|i: int| 0 <= i < before.len() ==> line_reply(#[trigger] before[i], read) is None,
        data.len() > 0,
        !text::is_space(data.last()),
        read(data) == Some(v),
        json::jget(v, "id"@) is Some,
    ensures
        first_reply(before + seq!["data: "@ + data] + behind, read) == Some(v),
    decreases before.len(),
{
    let line = "data: "@ + data;
    let all = before + seq![line] + behind;
    if before.len() == 0 {
        reveal_strlit("data: ");
        assert(all[0] == line);
        assert(line[0] == 'd');
        assert(line.last() == data.last());
        assert(text::trimmed_start(line) == line);
        assert(text::trimmed_end(line) == line);
        assert(line.subrange(0, 6) =~= "data: "@);
        assert(line.skip(6) =~= data);
    } else {
        assert(all[0] == before[0]);
        assert(all.skip(1) =~= before.skip(1) + seq![line] + behind);
        assert forall|i: int| 0 <= i < before.skip(1).len() implies line_reply(
            #[trigger] before.skip(1)[i],
            read,
        ) is None by {
            assert(before.skip(1)[i] == before[i + 1]);
        }
        law_reply_is_the_first_with_an_id(before.skip(1), data, behind, v, read);
    }
}

} // verus!
