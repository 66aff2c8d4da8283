//! Hosts to bind to and hosts to call.

use vstd::prelude::*;
use vstd::string::*;

use crate::text;
use crate::text::chars_of;
use crate::text::contains;
use crate::text::find_chars;
use crate::text::same;
use crate::text::starts_with;
use crate::text::string_of;
use crate::text::take_before;

verus! {

/// The host under which a client on this machine reaches a server that is bound to `bind`.
pub open spec fn client_host(bind: Seq<char>) -> Seq<char> {
    if bind == "0.0.0.0"@ {
        "127.0.0.1"@
    } else if bind == "::"@ || bind == "[::]"@ {
        "[::1]"@
    } else if text::has_prefix(bind, "["@) || !text::has_infix(bind, ":"@) {
        bind
    } else {
        "["@ + bind + "]"@
    }
}

/// The client form of a bind host, ready for a URL: the unspecified addresses become their
/// loopback counterparts, and a bare IPv6 literal gets brackets.
pub fn client_host_for_local(bind: &str) -> (r: String)
    ensures
        r@ == client_host(bind@),
{
    if same(bind, "0.0.0.0") {
        return "127.0.0.1".to_owned();
    }
    if same(bind, "::") || same(bind, "[::]") {
        return "[::1]".to_owned();
    }
    if starts_with(bind, "[") {
        return bind.to_owned();
    }
    if contains(bind, ":") {
        let mut out = "[".to_owned();
        out.append(bind);
        out.append("]");
        return out;
    }
    bind.to_owned()
}

/// A host without the port behind it.
pub open spec fn without_port(host: Seq<char>) -> Seq<char> {
    if text::has_prefix(host, "["@) {
        match text::find(host, "]"@) {
            Some(i) => host.take(i + 1),
            None => host,
        }
    } else {
        text::before_first(host, ":"@)
    }
}

/// A bind host that a loopback client reaches.
pub open spec fn reaches_loopback(host: Seq<char>) -> bool {
    let bare = without_port(host);
    ||| host == "::"@
    ||| host == "::1"@
    ||| bare == "0.0.0.0"@
    ||| bare == "[::]"@
    ||| bare == "localhost"@
    ||| text::has_prefix(bare, "127."@)
    ||| bare == "[::1]"@
}

/// A bracketed host without the port behind it.
fn bracketed(host: &str) -> (r: String)
    requires
        text::has_prefix(host@, "["@),
    ensures
        r@ == without_port(host@),
{
    proof {
        reveal_strlit("]");
    }
    let chars = chars_of(host);
    let bracket = chars_of("]");
    match find_chars(&chars, &bracket, 0) {
        Some(i) => {
            let r = string_of(&chars, 0, i + 1);
            assert(host@.subrange(0, i + 1) =~= host@.take(i + 1));
            r
        },
        None => host.to_owned(),
    }
}

/// Whether a daemon bound to `host` is reachable from the same machine through loopback.
pub fn is_local_mcp_compatible_bind(host: &str) -> (r: bool)
    ensures
        r == reaches_loopback(host@),
{
    if same(host, "::") || same(host, "::1") {
        return true;
    }
    let bare = if starts_with(host, "[") {
        bracketed(host)
    } else {
        take_before(host, ":")
    };
    same(bare.as_str(), "0.0.0.0") || same(bare.as_str(), "[::]") || same(
        bare.as_str(),
        "localhost",
    ) || starts_with(bare.as_str(), "127.") || same(
        bare.as_str(),
        "[::1]",
    )
}

/// What is said where a daemon's bind host leaves no way for local MCP clients.
pub open spec fn unreachable_bind(host: Seq<char>) -> Seq<char> {
    "refusing to write a local MCP config: the daemon binds only to `"@ + host
        + "`, and the MCP proxy reaches it through loopback alone. Bind to 127.0.0.1 or 0.0.0.0"@
}

/// Whether local MCP clients can be configured for a daemon that binds to `host`: a daemon that is
/// told no host binds to loopback.
pub fn check_local_mcp_bind(host: Option<&str>) -> (r: Result<(), String>)
    ensures
        match r {
            Ok(_) => host matches Some(h) ==> reaches_loopback(h@),
            Err(message) => host matches Some(h) && !reaches_loopback(h@) && message@
                == unreachable_bind(h@),
        },
{
    match host {
        None => Ok(()),
        Some(h) => if is_local_mcp_compatible_bind(h) {
            Ok(())
        } else {
            let mut message = "refusing to write a local MCP config: the daemon binds only to `".to_owned();
            message.append(h);
            message.append(
                "`, and the MCP proxy reaches it through loopback alone. Bind to 127.0.0.1 or 0.0.0.0",
            );
            Err(message)
        },
    }
}

/// The client form of a host is a fixed point: converting it again changes nothing.
pub proof fn law_client_host_is_stable(bind: Seq<char>)
    ensures
        client_host(client_host(bind)) == client_host(bind),
{
    reveal_strlit("0.0.0.0");
    reveal_strlit("127.0.0.1");
    reveal_strlit("::");
    reveal_strlit("[::]");
    reveal_strlit("[::1]");
    reveal_strlit("[");
    reveal_strlit("]");
    reveal_strlit(":");
    let c = client_host(bind);
    if bind == "0.0.0.0"@ {
        assert(!text::has_infix(c, ":"@)) by {
            if text::has_infix(c, ":"@) {
                let i = choose|i: int| text::occurs_at(c, ":"@, i);
                assert(c.subrange(i, i + 1)[0] == c[i]);
            }
        }
        assert(c.len() == 9);
    } else if bind == "::"@ || bind == "[::]"@ {
        assert(c.subrange(0, 1) =~= "["@);
        assert(c.len() == 5);
    } else if text::has_prefix(bind, "["@) || !text::has_infix(bind, ":"@) {
    } else {
        assert(c.subrange(0, 1) =~= "["@);
        assert(c[0] == '[');
        assert("0.0.0.0"@[0] == '0');
        assert("::"@[0] == ':');
        if c == "[::]"@ {
            assert(bind =~= c.subrange(1, 3));
            assert(bind =~= "::"@);
        }
    }
}

/// A daemon that listens everywhere is reached through loopback; any other plain host is reached
/// by its own name.
pub proof fn law_host_is_reached_by_its_name(bind: Seq<char>)
    ensures
        client_host("0.0.0.0"@) == "127.0.0.1"@,
        client_host("::"@) == "[::1]"@,
        bind != "0.0.0.0"@ && !text::has_infix(bind, ":"@) && bind != "::"@ && bind != "[::]"@
            ==> client_host(bind) == bind,
{
    reveal_strlit("0.0.0.0");
    reveal_strlit("::");
    assert("0.0.0.0"@.len() != "::"@.len());
}

/// A proxy reaches its daemon on this machine's own addresses, with a port or without, and on no
/// other.
pub proof fn law_only_this_machine_is_reached(host: Seq<char>, rest: Seq<char>)
    ensures
        without_port(host) == "localhost"@ || without_port(host) == "0.0.0.0"@ || without_port(host)
            == "[::1]"@ ==> reaches_loopback(host),
        text::has_prefix(without_port(host), "127."@) ==> reaches_loopback(host),
        reaches_loopback(host) ==> host == "::"@ || host == "::1"@ || without_port(host)
            == "0.0.0.0"@ || without_port(host) == "[::]"@ || without_port(host) == "localhost"@
            || text::has_prefix(without_port(host), "127."@) || without_port(host) == "[::1]"@,
        !host.contains(':') && !host.contains('[') ==> without_port(host + ":"@ + rest) == host
            || host.len() == 0,
{
    if !host.contains(':') && !host.contains('[') && host.len() > 0 {
        reveal_strlit(":");
        reveal_strlit("[");
        let s = host + ":"@ + rest;
        let n = host.len() as int;
        assert(s.subrange(0, 1)[0] == host[0]);
        assert(s.subrange(n, n + 1) =~= ":"@);
        assert(text::occurs_at(s, ":"@, n));
        text::lemma_find_from(s, ":"@, 0);
        let i = text::find(s, ":"@)->0;
        if i < n {
            assert(s.subrange(i, i + 1)[0] == ":"@[0]);
            assert(host[i] == ':');
        }
        assert(s.take(n) =~= host);
    }
}

/// An address with colons is written in brackets, once.
pub proof fn law_address_with_colons_is_bracketed(bind: Seq<char>)
    requires
        text::has_infix(bind, ":"@),
        bind != "::"@,
    ensures
        !text::has_prefix(bind, "["@) && bind != "0.0.0.0"@ && bind != "[::]"@ ==> client_host(bind)
            == "["@ + bind + "]"@,
        text::has_prefix(bind, "["@) && bind != "[::]"@ && bind != "0.0.0.0"@ ==> client_host(bind)
            == bind,
        client_host("[::]"@) == "[::1]"@,
{
    reveal_strlit("[::]");
    reveal_strlit("0.0.0.0");
    assert("[::]"@.len() != "0.0.0.0"@.len());
}

/// A daemon that can not be reached is named by the address that it binds to.
pub proof fn law_unreachable_bind_is_named(host: Seq<char>)
    ensures
        text::has_infix(unreachable_bind(host), host + "`"@),
{
    let head = "refusing to write a local MCP config: the daemon binds only to `"@;
    let tail = "`, and the MCP proxy reaches it through loopback alone. Bind to 127.0.0.1 or 0.0.0.0"@;
    reveal_strlit("`, and the MCP proxy reaches it through loopback alone. Bind to 127.0.0.1 or 0.0.0.0");
    reveal_strlit("`");
    assert(tail =~= "`"@ + tail.skip(1));
    assert(unreachable_bind(host) =~= head + (host + "`"@) + tail.skip(1));
    text::lemma_infix(head, host + "`"@, tail.skip(1));
}

} // verus!
