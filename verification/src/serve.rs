//! The settings of a daemon: what its flags, its configuration and its keychain entry come to.

use vstd::prelude::*;
use vstd::string::*;

use crate::auth::MemoryAuthState;
use crate::codec;
use crate::codec::b64_decode;
use crate::join;
use crate::join::JoinToken;
use crate::plugin::config::GlobalConfig;
use crate::plugin::config::LogLevel;
use crate::text;
use crate::text::copy_opt;
use crate::text::decimal_of;
use crate::text::is_blank;
use crate::text::same;
use crate::text::starts_with;
use crate::text::strip_prefix;
use crate::text::trim_suffixes;

verus! {

/// The flags of the `serve` command that override the configuration.
#[derive(Debug)]
pub struct ServeFlags {
    pub host: Option<String>,
    pub port: Option<u16>,
    pub watch: bool,
    pub no_watch: bool,
    pub watch_key: Option<String>,
    pub watch_context_key: Option<String>,
    pub watch_agent_id: Option<String>,
    pub watch_swarm_id: Option<String>,
    pub poll_interval: Option<u64>,
    /// A decimal number.
    pub watch_budget: Option<String>,
}

/// What a daemon runs with.
#[derive(Debug)]
pub struct ServeSettings {
    pub host: String,
    pub port: u16,
    pub watch: bool,
    pub watch_key: String,
    pub watch_context_key: Option<String>,
    pub watch_agent_id: String,
    pub watch_swarm_id: String,
    pub poll_interval: u64,
    pub watch_budget: String,
    /// Key for calls that name none.
    pub default_key: Option<String>,
    /// Swarm for calls that name none.
    pub default_swarm_id: Option<String>,
}

pub ghost struct SettingsV {
    pub host: Seq<char>,
    pub port: u16,
    pub watch: bool,
    pub watch_key: Seq<char>,
    pub watch_context_key: Option<Seq<char>>,
    pub watch_agent_id: Seq<char>,
    pub watch_swarm_id: Seq<char>,
    pub poll_interval: u64,
    pub watch_budget: Seq<char>,
    pub default_key: Option<Seq<char>>,
    pub default_swarm_id: Option<Seq<char>>,
}

impl ServeSettings {
    pub open spec fn view(&self) -> SettingsV {
        SettingsV {
            host: self.host@,
            port: self.port,
            watch: self.watch,
            watch_key: self.watch_key@,
            watch_context_key: text::opt_text(self.watch_context_key),
            watch_agent_id: self.watch_agent_id@,
            watch_swarm_id: self.watch_swarm_id@,
            poll_interval: self.poll_interval,
            watch_budget: self.watch_budget@,
            default_key: text::opt_text(self.default_key),
            default_swarm_id: text::opt_text(self.default_swarm_id),
        }
    }
}

/// The first of two values that is there.
pub open spec fn either<T>(first: Option<T>, second: Option<T>) -> Option<T> {
    match first {
        Some(_) => first,
        None => second,
    }
}

/// The value that is there, or a default.
pub open spec fn or_default<T>(o: Option<T>, default: T) -> T {
    match o {
        Some(v) => v,
        None => default,
    }
}

/// A text that is there and is not empty.
pub open spec fn nonempty(o: Option<Seq<char>>) -> Option<Seq<char>> {
    match o {
        Some(s) => if s.len() > 0 {
            Some(s)
        } else {
            None
        },
        None => None,
    }
}

/// What flags and configuration come to: a flag wins over the configuration, and that over the
/// default.
pub open spec fn settings(flags: ServeFlags, config: GlobalConfig) -> SettingsV {
    SettingsV {
        host: or_default(
            either(text::opt_text(flags.host), text::opt_text(config.host)),
            "127.0.0.1"@,
        ),
        port: or_default(either(flags.port, config.port), 8767u16),
        watch: flags.watch || (!flags.no_watch && config.watch),
        watch_key: or_default(
            either(text::opt_text(flags.watch_key), text::opt_text(config.watch_key)),
            "default"@,
        ),
        watch_context_key: either(
            text::opt_text(flags.watch_context_key),
            text::opt_text(config.watch_context_key),
        ),
        watch_agent_id: or_default(
            either(text::opt_text(flags.watch_agent_id), text::opt_text(config.watch_agent_id)),
            "default"@,
        ),
        watch_swarm_id: or_default(
            either(text::opt_text(flags.watch_swarm_id), text::opt_text(config.watch_swarm_id)),
            "default"@,
        ),
        poll_interval: or_default(either(flags.poll_interval, config.poll_interval), 30u64),
        watch_budget: or_default(
            either(text::opt_text(flags.watch_budget), text::opt_text(config.watch_budget)),
            "10"@,
        ),
        default_key: nonempty(text::opt_text(config.key)),
        default_swarm_id: nonempty(text::opt_text(config.swarm_id)),
    }
}

fn pick(first: &Option<String>, second: &Option<String>) -> (r: Option<String>)
    ensures
        text::opt_text(r) == either(text::opt_text(*first), text::opt_text(*second)),
{
    match first {
        Some(s) => Some(s.clone()),
        None => copy_opt(second),
    }
}

fn pick_or(first: &Option<String>, second: &Option<String>, default: &str) -> (r: String)
    ensures
        r@ == or_default(either(text::opt_text(*first), text::opt_text(*second)), default@),
{
    match pick(first, second) {
        Some(s) => s,
        None => default.to_owned(),
    }
}

fn keep_nonempty(o: &Option<String>) -> (r: Option<String>)
    ensures
        text::opt_text(r) == nonempty(text::opt_text(*o)),
{
    match o {
        Some(s) => if s.as_str().unicode_len() > 0 {
            Some(s.clone())
        } else {
            None
        },
        None => None,
    }
}

/// What flags and configuration come to.
pub fn serve_settings(flags: &ServeFlags, config: &GlobalConfig) -> (r: ServeSettings)
    ensures
        r@ == settings(*flags, *config),
{
    let port: u16 = match flags.port {
        Some(p) => p,
        None => match config.port {
            Some(p) => p,
            None => 8767,
        },
    };
    let poll_interval: u64 = match flags.poll_interval {
        Some(p) => p,
        None => match config.poll_interval {
            Some(p) => p,
            None => 30,
        },
    };
    let watch = if flags.watch {
        true
    } else if flags.no_watch {
        false
    } else {
        config.watch
    };
    ServeSettings {
        host: pick_or(&flags.host, &config.host, "127.0.0.1"),
        port,
        watch,
        watch_key: pick_or(&flags.watch_key, &config.watch_key, "default"),
        watch_context_key: pick(&flags.watch_context_key, &config.watch_context_key),
        watch_agent_id: pick_or(&flags.watch_agent_id, &config.watch_agent_id, "default"),
        watch_swarm_id: pick_or(&flags.watch_swarm_id, &config.watch_swarm_id, "default"),
        poll_interval,
        watch_budget: pick_or(&flags.watch_budget, &config.watch_budget, "10"),
        default_key: keep_nonempty(&config.key),
        default_swarm_id: keep_nonempty(&config.swarm_id),
    }
}

/// The agent that a principal is: `agent:<id>` is `<id>`, and anything else `default`.
pub open spec fn agent_of(principal_id: Option<Seq<char>>) -> Seq<char> {
    match principal_id {
        Some(p) => match text::without_prefix(p, "agent:"@) {
            Some(id) => id,
            None => "default"@,
        },
        None => "default"@,
    }
}

/// The agent that a principal is.
pub fn agent_id_of(principal_id: Option<&str>) -> (r: String)
    ensures
        r@ == agent_of(text::opt_slice(principal_id)),
{
    match principal_id {
        Some(p) => match strip_prefix(p, "agent:") {
            Some(id) => id.to_owned(),
            None => "default".to_owned(),
        },
        None => "default".to_owned(),
    }
}

/// The agent that the watcher looks for: the daemon's own where the settings name none.
pub fn watched_agent(watch_agent_id: &str, agent_id: &str) -> (r: String)
    ensures
        r@ == (if watch_agent_id@ == "default"@ {
            agent_id@
        } else {
            watch_agent_id@
        }),
{
    if same(watch_agent_id, "default") {
        agent_id.to_owned()
    } else {
        watch_agent_id.to_owned()
    }
}

/// Whether a daemon that is bound to `host` is exposed beyond its machine.
pub fn bind_is_public(host: &str) -> (r: bool)
    ensures
        r == !(text::has_prefix(host@, "127."@) || host@ == "localhost"@ || host@ == "::1"@ || host@
            == "[::1]"@),
{
    !starts_with(host, "127.") && !same(host, "localhost") && !same(host, "::1") && !same(
        host,
        "[::1]",
    )
}

/// The directives that the daemon logs by, unless the environment names others.
pub fn log_filter(level: LogLevel) -> (r: String)
    ensures
        r@ == "gosh_agent="@ + crate::plugin::config::level_name(level) + ",gosh_agent::http="@
            + crate::plugin::config::level_name(level)
            + ",hyper=warn,h2=warn,tower=warn,tower_http=warn,reqwest=warn"@,
{
    let mut out = "gosh_agent=".to_owned();
    out.append(level.as_str());
    out.append(",gosh_agent::http=");
    out.append(level.as_str());
    out.append(",hyper=warn,h2=warn,tower=warn,tower_http=warn,reqwest=warn");
    out
}

/// What is wrong with the private key of a keychain entry, if anything: `length` is that of the
/// key, where there is one.
pub open spec fn key_error(name: Seq<char>, length: Option<nat>) -> Option<Seq<char>> {
    match length {
        None => Some(
            "no `secret_key` found in keychain for agent '"@ + name
                + "'. Run `gosh agent create --instance "@ + name
                + "` or `gosh agent import` to provision it"@,
        ),
        Some(n) => if n != 32 {
            Some("secret_key from keychain must be exactly 32 bytes, got "@ + text::decimal(n))
        } else {
            None
        },
    }
}

/// What is said of a private key that is not base64.
pub const UNDECODED_KEY: &'static str = "decoding secret_key from keychain";

/// The private key of a keychain entry: 32 bytes, kept in base64.
pub fn secret_key_of(name: &str, stored: Option<&str>) -> (r: Result<Vec<u8>, String>)
    ensures
        match r {
            Ok(key) => stored matches Some(t) && codec::b64_decoded(t@) == Some(key@) && key@.len()
                == 32,
            Err(message) => match stored {
                None => key_error(name@, None) == Some(message@),
                Some(t) => match codec::b64_decoded(t@) {
                    None => message@ == UNDECODED_KEY@,
                    Some(bytes) => key_error(name@, Some(bytes.len())) == Some(message@),
                },
            },
        },
{
    let decoded = match stored {
        None => None,
        Some(t) => match b64_decode(t) {
            None => {
                return Err(UNDECODED_KEY.to_owned());
            },
            some => some,
        },
    };
    match check_secret_key(name, &decoded) {
        Err(message) => Err(message),
        Ok(_) => match decoded {
            Some(key) => Ok(key),
            None => Err(String::new()),
        },
    }
}

/// Whether a keychain entry has a private key of the right length.
fn check_secret_key(name: &str, key: &Option<Vec<u8>>) -> (r: Result<(), String>)
    ensures
        ({
            let length = match *key {
                Some(k) => Some(k@.len()),
                None => None,
            };
            match r {
                Ok(_) => key_error(name@, length) is None,
                Err(message) => key_error(name@, length) == Some(message@),
            }
        }),
{
    match key {
        None => {
            let mut message = "no `secret_key` found in keychain for agent '".to_owned();
            message.append(name);
            message.append("'. Run `gosh agent create --instance ");
            message.append(name);
            message.append("` or `gosh agent import` to provision it");
            Err(message)
        },
        Some(k) => if k.len() != 32 {
            let mut message = "secret_key from keychain must be exactly 32 bytes, got ".to_owned();
            message.append(decimal_of(k.len() as u64).as_str());
            Err(message)
        } else {
            Ok(())
        },
    }
}

// ── The memory server ───────────────────────────────────────────────────

/// The memory server where nothing names one.
pub const DEFAULT_MEMORY_URL: &'static str = "http://127.0.0.1:8765";

/// What is said of a raw token on the command line.
pub const INLINE_JOIN_REFUSED: &'static str =
    "--join is insecure for raw tokens; rely on the keychain-provisioned join_token (CLI handles this) or add --allow-insecure-inline-join";

/// What is said of a certificate fingerprint.
pub const FINGERPRINT_REFUSED: &'static str =
    "tls_fingerprint pinning is not supported yet; use tls_ca instead";

/// Whether a join token can be used.
pub fn check_inline_join(token: &str, allow_insecure_inline_join: bool) -> (r: Result<(), String>)
    ensures
        match r {
            Ok(_) => allow_insecure_inline_join || text::has_prefix(token@, join::PREFIX@),
            Err(message) => !allow_insecure_inline_join && !text::has_prefix(
                token@,
                join::PREFIX@,
            ) && message@ == INLINE_JOIN_REFUSED@,
        },
{
    if !allow_insecure_inline_join && !starts_with(token, join::PREFIX) {
        Err(INLINE_JOIN_REFUSED.to_owned())
    } else {
        Ok(())
    }
}

/// How a daemon reaches its memory server.
#[derive(Debug)]
pub struct ResolvedMemoryConnection {
    pub memory_url: String,
    pub transport_token: Option<String>,
    pub principal_token: Option<String>,
    pub principal_id: Option<String>,
    /// The certificate to trust, where one is pinned.
    pub pinned_ca: Option<String>,
}

pub ghost struct ConnectionV {
    pub memory_url: Seq<char>,
    pub transport_token: Option<Seq<char>>,
    pub principal_token: Option<Seq<char>>,
    pub principal_id: Option<Seq<char>>,
    pub pinned_ca: Option<Seq<char>>,
}

impl ResolvedMemoryConnection {
    pub open spec fn view(&self) -> ConnectionV {
        ConnectionV {
            memory_url: self.memory_url@,
            transport_token: text::opt_text(self.transport_token),
            principal_token: text::opt_text(self.principal_token),
            principal_id: text::opt_text(self.principal_id),
            pinned_ca: text::opt_text(self.pinned_ca),
        }
    }
}

/// How a daemon reaches its memory server, by its join token and the values that override it:
/// nothing where the token asks for a pinned fingerprint.
pub open spec fn connection(
    join: Option<JoinToken>,
    url: Option<Seq<char>>,
    transport_token: Option<Seq<char>>,
    principal_token: Option<Seq<char>>,
    principal_id: Option<Seq<char>>,
) -> Option<ConnectionV> {
    match join {
        Some(token) => {
            let pinned = match token.fingerprint {
                Some(f) => text::trimmed(f@).len() > 0,
                None => false,
            };
            if pinned {
                None
            } else {
                Some(
                    ConnectionV {
                        memory_url: text::without_suffixes(
                            or_default(url, token.url@),
                            "/mcp"@,
                        ),
                        transport_token: either(
                            transport_token,
                            text::opt_text(token.transport_token),
                        ),
                        principal_token: either(
                            principal_token,
                            text::opt_text(token.principal_token),
                        ),
                        principal_id: either(principal_id, text::opt_text(token.principal_id)),
                        pinned_ca: nonempty(text::opt_text(token.ca)),
                    },
                )
            }
        },
        None => Some(
            ConnectionV {
                memory_url: text::without_suffixes(
                    or_default(url, DEFAULT_MEMORY_URL@),
                    "/mcp"@,
                ),
                transport_token,
                principal_token,
                principal_id,
                pinned_ca: None,
            },
        ),
    }
}

/// What is given explicitly wins over the join token.
pub proof fn law_explicit_values_win(
    join: Option<JoinToken>,
    url: Seq<char>,
    transport_token: Seq<char>,
    principal_token: Seq<char>,
    principal_id: Seq<char>,
)
    ensures
        connection(
            join,
            Some(url),
            Some(transport_token),
            Some(principal_token),
            Some(principal_id),
        ) matches Some(c) ==> c.memory_url == text::without_suffixes(url, "/mcp"@)
            && c.transport_token == Some(transport_token) && c.principal_token == Some(
            principal_token,
        ) && c.principal_id == Some(principal_id),
{
}

/// How a daemon reaches its memory server, by its decoded join token and the values that override
/// it.
pub fn resolve_memory_connection(
    join: Option<&JoinToken>,
    memory_url: Option<&str>,
    memory_token: &Option<String>,
    memory_principal_token: &Option<String>,
    memory_principal_id: &Option<String>,
) -> (r: Result<ResolvedMemoryConnection, String>)
    ensures
        ({
            let token = match join {
                Some(t) => Some(*t),
                None => None,
            };
            let c = connection(
                token,
                text::opt_slice(memory_url),
                text::opt_text(*memory_token),
                text::opt_text(*memory_principal_token),
                text::opt_text(*memory_principal_id),
            );
            match r {
                Ok(resolved) => c == Some(resolved@),
                Err(message) => c is None && message@ == FINGERPRINT_REFUSED@,
            }
        }),
{
    let state = match join {
        Some(token) => MemoryAuthState::from_join_token(token),
        None => MemoryAuthState {
            memory_url: DEFAULT_MEMORY_URL.to_owned(),
            transport_token: None,
            principal_id: None,
            principal_token: None,
            tls_fingerprint: None,
            tls_ca: None,
        },
    };
    let pinned = match &state.tls_fingerprint {
        Some(f) => !is_blank(f.as_str()),
        None => false,
    };
    if pinned {
        return Err(FINGERPRINT_REFUSED.to_owned());
    }
    proof {
        reveal_strlit("/mcp");
    }
    let url = match memory_url {
        Some(url) => trim_suffixes(url, "/mcp"),
        None => trim_suffixes(state.memory_url.as_str(), "/mcp"),
    };
    let resolved = ResolvedMemoryConnection {
        memory_url: url,
        transport_token: pick(memory_token, &state.transport_token),
        principal_token: pick(memory_principal_token, &state.principal_token),
        principal_id: pick(memory_principal_id, &state.principal_id),
        pinned_ca: keep_nonempty(&state.tls_ca),
    };
    Ok(resolved)
}

/// A flag holds before the configuration, and the configuration before the default: for every
/// setting on its own.
pub proof fn law_flags_win(flags: ServeFlags, config: GlobalConfig)
    ensures
        flags.host matches Some(h) ==> settings(flags, config).host == h@,
        flags.host is None ==> (config.host matches Some(h) ==> settings(flags, config).host == h@),
        flags.host is None && config.host is None ==> settings(flags, config).host == "127.0.0.1"@,
        flags.port matches Some(p) ==> settings(flags, config).port == p,
        flags.port is None ==> (config.port matches Some(p) ==> settings(flags, config).port == p),
        flags.watch_key matches Some(k) ==> settings(flags, config).watch_key == k@,
        flags.watch_key is None ==> (config.watch_key matches Some(k) ==> settings(
            flags,
            config,
        ).watch_key == k@),
        flags.watch_context_key matches Some(k) ==> settings(flags, config).watch_context_key
            == Some(k@),
        flags.watch_context_key is None ==> settings(flags, config).watch_context_key
            == text::opt_text(config.watch_context_key),
        flags.watch_agent_id matches Some(k) ==> settings(flags, config).watch_agent_id == k@,
        flags.watch_agent_id is None ==> (config.watch_agent_id matches Some(k) ==> settings(
            flags,
            config,
        ).watch_agent_id == k@),
        flags.watch_swarm_id matches Some(k) ==> settings(flags, config).watch_swarm_id == k@,
        flags.watch_swarm_id is None ==> (config.watch_swarm_id matches Some(k) ==> settings(
            flags,
            config,
        ).watch_swarm_id == k@),
        flags.poll_interval matches Some(n) ==> settings(flags, config).poll_interval == n,
        flags.poll_interval is None ==> (config.poll_interval matches Some(n) ==> settings(
            flags,
            config,
        ).poll_interval == n),
        flags.watch_budget matches Some(b) ==> settings(flags, config).watch_budget == b@,
        flags.watch_budget is None ==> (config.watch_budget matches Some(b) ==> settings(
            flags,
            config,
        ).watch_budget == b@),
        flags.watch ==> settings(flags, config).watch,
        !flags.watch && flags.no_watch ==> !settings(flags, config).watch,
        !flags.watch && !flags.no_watch ==> settings(flags, config).watch == config.watch,
        config.key matches Some(k) ==> k@.len() > 0 ==> settings(flags, config).default_key == Some(
            k@,
        ),
        config.swarm_id matches Some(k) ==> k@.len() > 0 ==> settings(flags, config).default_swarm_id
            == Some(k@),
{
}

/// A join token that names no certificate to pin leads to its own server with its own tokens,
/// where nothing else was asked for; one that names a fingerprint is refused.
pub proof fn law_join_token_leads_to_its_server(token: JoinToken)
    ensures
        token.fingerprint matches Some(f) ==> text::trimmed(f@).len() > 0 ==> connection(
            Some(token),
            None,
            None,
            None,
            None,
        ) is None,
        token.fingerprint is None ==> (connection(Some(token), None, None, None, None) matches Some(
            c,
        ) && c.memory_url == text::without_suffixes(token.url@, "/mcp"@) && c.transport_token
            == text::opt_text(token.transport_token) && c.principal_token == text::opt_text(
            token.principal_token,
        ) && c.principal_id == text::opt_text(token.principal_id) && (token.ca matches Some(ca)
            ==> ca@.len() > 0 ==> c.pinned_ca == Some(ca@))),
{
}

/// The agent of a daemon is the one that its principal names.
pub proof fn law_principal_names_the_agent(id: Seq<char>)
    ensures
        agent_of(Some("agent:"@ + id)) == id,
        agent_of(None) == "default"@,
{
    let p = "agent:"@ + id;
    assert(p.subrange(0, "agent:"@.len() as int) =~= "agent:"@);
    assert(p.skip("agent:"@.len() as int) =~= id);
}

/// Where nothing is said, the daemon serves this machine alone, by its own port, and watches with
/// the default names.
pub proof fn law_silence_means_the_default(flags: ServeFlags, config: GlobalConfig)
    ensures
        flags.port is None && config.port is None ==> settings(flags, config).port == 8767,
        flags.watch_key is None && config.watch_key is None ==> settings(flags, config).watch_key
            == "default"@,
        flags.watch_agent_id is None && config.watch_agent_id is None ==> settings(
            flags,
            config,
        ).watch_agent_id == "default"@,
        flags.watch_swarm_id is None && config.watch_swarm_id is None ==> settings(
            flags,
            config,
        ).watch_swarm_id == "default"@,
        flags.poll_interval is None && config.poll_interval is None ==> settings(
            flags,
            config,
        ).poll_interval == 30,
        flags.watch_budget is None && config.watch_budget is None ==> settings(
            flags,
            config,
        ).watch_budget == "10"@,
        config.key is None ==> settings(flags, config).default_key is None,
        config.key matches Some(k) ==> k@.len() == 0 ==> settings(flags, config).default_key is None,
        config.swarm_id is None ==> settings(flags, config).default_swarm_id is None,
{
}

/// Without a join token the daemon connects as it is told, to this machine's memory by default.
pub proof fn law_memory_is_near_by_default(
    url: Seq<char>,
    transport: Option<Seq<char>>,
    principal: Option<Seq<char>>,
    id: Option<Seq<char>>,
)
    ensures
        connection(None, Some(url), transport, principal, id) matches Some(c) && c.memory_url
            == text::without_suffixes(url, "/mcp"@) && c.transport_token == transport
            && c.principal_token == principal && c.principal_id == id && c.pinned_ca is None,
        connection(None, None, transport, principal, id) matches Some(c) && c.memory_url
            == text::without_suffixes(DEFAULT_MEMORY_URL@, "/mcp"@),
{
}

/// A key is one of the right length; a missing one is told with the agent that lacks it.
pub proof fn law_key_has_its_length(name: Seq<char>, n: nat)
    ensures
        key_error(name, Some(n)) is None <==> n == 32,
        key_error(name, None) matches Some(e) && text::has_infix(e, "'"@ + name + "'"@),
        n != 32 ==> (key_error(name, Some(n)) matches Some(e) && text::has_suffix(
            e,
            text::decimal(n),
        )),
{
    reveal_strlit("'");
    reveal_strlit("no `secret_key` found in keychain for agent '");
    reveal_strlit("'. Run `gosh agent create --instance ");
    let whole = key_error(name, None)->0;
    let head = "no `secret_key` found in keychain for agent '"@.take(44);
    let rest = "'. Run `gosh agent create --instance "@.skip(1);
    let tail = rest + name + "` or `gosh agent import` to provision it"@;
    assert("no `secret_key` found in keychain for agent '"@ =~= head + "'"@);
    assert("'. Run `gosh agent create --instance "@ =~= "'"@ + rest);
    assert(whole =~= head + ("'"@ + name + "'"@) + tail);
    text::lemma_infix(head, "'"@ + name + "'"@, tail);
    let said = "secret_key from keychain must be exactly 32 bytes, got "@ + text::decimal(n);
    let d = text::decimal(n);
    assert(said.subrange(said.len() - d.len(), said.len() as int) =~= d);
}

} // verus!
