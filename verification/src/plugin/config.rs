//! The configuration of an agent instance and of a project.

use vstd::prelude::*;
use vstd::string::*;

use crate::codec;
use crate::codec::short_hash;
use crate::paths;
use crate::paths::base_dir;
use crate::paths::join_path;
use crate::text;
use crate::text::lower_ascii;
use crate::text::same;
use crate::text::trim;

verus! {

/// How much the daemon logs.
#[derive(Debug, Clone, Copy, PartialEq, Eq, Structural)]
pub enum LogLevel {
    Error,
    Warn,
    Info,
    Debug,
    Trace,
}

/// The name of a level.
pub open spec fn level_name(level: LogLevel) -> Seq<char> {
    match level {
        LogLevel::Error => "error"@,
        LogLevel::Warn => "warn"@,
        LogLevel::Info => "info"@,
        LogLevel::Debug => "debug"@,
        LogLevel::Trace => "trace"@,
    }
}

/// The level that a lower-case name stands for.
pub open spec fn level_named(name: Seq<char>) -> Option<LogLevel> {
    if name == "error"@ {
        Some(LogLevel::Error)
    } else if name == "warn"@ || name == "warning"@ {
        Some(LogLevel::Warn)
    } else if name == "info"@ {
        Some(LogLevel::Info)
    } else if name == "debug"@ {
        Some(LogLevel::Debug)
    } else if name == "trace"@ {
        Some(LogLevel::Trace)
    } else {
        None
    }
}

/// What is said of a name that stands for no level.
pub open spec fn unknown_level(name: Seq<char>) -> Seq<char> {
    "unknown log level '"@ + name + "'; expected one of error, warn, info, debug, trace"@
}

/// The level of a configuration that names none.
pub const DEFAULT_LOG_LEVEL: LogLevel = LogLevel::Info;

impl LogLevel {
    pub fn as_str(self) -> (r: &'static str)
        ensures
            r@ == level_name(self),
    {
        match self {
            LogLevel::Error => "error",
            LogLevel::Warn => "warn",
            LogLevel::Info => "info",
            LogLevel::Debug => "debug",
            LogLevel::Trace => "trace",
        }
    }

    /// The level that a name stands for, in upper or lower case.
    pub fn parse(raw: &str) -> (r: Result<LogLevel, String>)
        ensures
            match r {
                Ok(level) => level_named(text::ascii_lower(raw@)) == Some(level),
                Err(message) => level_named(text::ascii_lower(raw@)) is None && message@
                    == unknown_level(text::ascii_lower(raw@)),
            },
    {
        let lower = lower_ascii(raw);
        let name = lower.as_str();
        if same(name, "error") {
            Ok(LogLevel::Error)
        } else if same(name, "warn") || same(name, "warning") {
            Ok(LogLevel::Warn)
        } else if same(name, "info") {
            Ok(LogLevel::Info)
        } else if same(name, "debug") {
            Ok(LogLevel::Debug)
        } else if same(name, "trace") {
            Ok(LogLevel::Trace)
        } else {
            let mut message = "unknown log level '".to_owned();
            message.append(name);
            message.append("'; expected one of error, warn, info, debug, trace");
            Err(message)
        }
    }
}

impl std::str::FromStr for LogLevel {
    type Err = String;

    fn from_str(raw: &str) -> (r: Result<LogLevel, String>)
        ensures
            match r {
                Ok(level) => level_named(text::ascii_lower(raw@)) == Some(level),
                Err(message) => level_named(text::ascii_lower(raw@)) is None && message@
                    == unknown_level(text::ascii_lower(raw@)),
            },
    {
        LogLevel::parse(raw)
    }
}

/// A level is what its own name stands for.
pub proof fn law_level_name_parses_back(level: LogLevel)
    ensures
        level_named(text::ascii_lower(level_name(level))) == Some(level),
{
    reveal_strlit("error");
    reveal_strlit("warn");
    reveal_strlit("warning");
    reveal_strlit("info");
    reveal_strlit("debug");
    reveal_strlit("trace");
    let name = level_name(level);
    assert(text::ascii_lower(name) =~= name);
    assert("error"@[0] == 'e');
    assert("warn"@[0] == 'w');
    assert("info"@[0] == 'i');
    assert("debug"@[0] == 'd');
    assert("trace"@[0] == 't');
    assert("warning"@[0] == 'w');
}

/// The configuration of an agent instance.
#[derive(Debug)]
pub struct GlobalConfig {
    pub authority_url: String,
    pub token: Option<String>,
    pub principal_auth_token: Option<String>,
    pub install_id: String,
    /// Memory namespace key for this agent instance.
    pub key: Option<String>,
    /// Swarm for captured data.
    pub swarm_id: Option<String>,
    /// Daemon bind host.
    pub host: Option<String>,
    /// Daemon bind port.
    pub port: Option<u16>,
    /// Whether the daemon watches for tasks.
    pub watch: bool,
    pub watch_key: Option<String>,
    pub watch_swarm_id: Option<String>,
    pub watch_agent_id: Option<String>,
    pub watch_context_key: Option<String>,
    /// Budget per task, a decimal number.
    pub watch_budget: Option<String>,
    /// Seconds between polls.
    pub poll_interval: Option<u64>,
    /// Whether clients may register themselves.
    pub oauth_dcr_enabled: bool,
    pub log_level: LogLevel,
}

/// The configuration of a project.
#[derive(Debug)]
pub struct ProjectConfig {
    pub key: String,
}

/// Where an agent instance keeps its state.
pub open spec fn state_path(home: Option<Seq<char>>, agent_name: Seq<char>) -> Seq<char> {
    paths::joined_path(paths::joined_path(paths::base_path(home), "state"@), agent_name)
}

/// Where an agent instance keeps its state: `~/.gosh/agent/state/<name>`.
pub fn state_dir(home: Option<&str>, agent_name: &str) -> (r: String)
    ensures
        r@ == state_path(text::opt_slice(home), agent_name@),
{
    let base = base_dir(home);
    let state = join_path(base.as_str(), "state");
    join_path(state.as_str(), agent_name)
}

impl GlobalConfig {
    /// Where an agent instance keeps its configuration.
    pub fn path(home: Option<&str>, agent_name: &str) -> (r: String)
        ensures
            r@ == paths::joined_path(
                state_path(text::opt_slice(home), agent_name@),
                "config.toml"@,
            ),
    {
        let dir = state_dir(home, agent_name);
        join_path(dir.as_str(), "config.toml")
    }
}

/// The first project key, from the directory inwards-out.
pub open spec fn first_key(found: Seq<Option<ProjectConfig>>) -> Option<Seq<char>>
    decreases found.len(),
{
    if found.len() == 0 {
        None
    } else {
        match found[0] {
            Some(project) => Some(project.key@),
            None => first_key(found.drop_first()),
        }
    }
}

/// The key of the nearest project: `found` holds what was read in each directory, from the
/// working directory up.
pub fn find_project_key(found: &[Option<ProjectConfig>]) -> (r: Option<String>)
    ensures
        text::opt_text(r) == first_key(found@),
{
    let mut i: usize = 0;
    assert(found@.skip(0) =~= found@);
    while i < found.len()
        invariant
            i <= found.len(),
            first_key(found@.skip(i as int)) == first_key(found@),
        decreases found.len() - i,
    {
        assert(found@.skip(i as int)[0] == found@[i as int]);
        assert(found@.skip(i as int).drop_first() =~= found@.skip(i + 1));
        match &found[i] {
            Some(project) => {
                return Some(project.key.clone());
            },
            None => {},
        }
        i = i + 1;
    }
    None
}

/// The first directory with a repository in it.
pub open spec fn first_root(dirs: Seq<(String, bool)>) -> Option<Seq<char>>
    decreases dirs.len(),
{
    if dirs.len() == 0 {
        None
    } else if dirs[0].1 {
        Some(dirs[0].0@)
    } else {
        first_root(dirs.drop_first())
    }
}

/// The nearest repository root: `dirs` holds the directories from the working directory up,
/// each with whether it has a repository in it.
pub fn find_git_root(dirs: &[(String, bool)]) -> (r: Option<String>)
    ensures
        text::opt_text(r) == first_root(dirs@),
{
    let mut i: usize = 0;
    assert(dirs@.skip(0) =~= dirs@);
    while i < dirs.len()
        invariant
            i <= dirs.len(),
            first_root(dirs@.skip(i as int)) == first_root(dirs@),
        decreases dirs.len() - i,
    {
        assert(dirs@.skip(i as int)[0] == dirs@[i as int]);
        assert(dirs@.skip(i as int).drop_first() =~= dirs@.skip(i + 1));
        if dirs[i].1 {
            return Some(dirs[i].0.clone());
        }
        i = i + 1;
    }
    None
}

/// The URL of a repository's remote, from what `git remote get-url` printed.
pub open spec fn remote_url(succeeded: bool, stdout: Seq<char>) -> Option<Seq<char>> {
    if succeeded && text::trimmed(stdout).len() > 0 {
        Some(text::trimmed(stdout))
    } else {
        None
    }
}

/// The URL of a repository's remote, from what `git remote get-url` printed.
pub fn git_remote_url(succeeded: bool, stdout: &str) -> (r: Option<String>)
    ensures
        text::opt_text(r) == remote_url(succeeded, stdout@),
{
    if succeeded {
        let url = trim(stdout);
        if url.unicode_len() != 0 {
            return Some(url.to_owned());
        }
    }
    None
}

/// What is said where no key can be found.
pub const NO_KEY: &'static str =
    "no .gosh-memory.toml or git repo found. Run `gosh-agent setup` or create .gosh-memory.toml with key = \"your-project\"";

/// The memory key of a directory.
pub open spec fn resolved_key(
    project_key: Option<Seq<char>>,
    repo_root: Option<Seq<char>>,
    remote: Option<Seq<char>>,
) -> Option<Seq<char>> {
    match (project_key, repo_root, remote) {
        (Some(key), _, _) => Some(key),
        (None, Some(_), Some(url)) => Some(codec::short_digest(url)),
        (None, Some(root), None) => Some(codec::short_digest(root)),
        (None, None, _) => None,
    }
}

/// The memory key of a directory: the project's own, else one from the repository's remote, else
/// one from the repository's place.
pub fn resolve_key(
    project_key: Option<&str>,
    repo_root: Option<&str>,
    remote_url: Option<&str>,
) -> (r: Result<String, String>)
    ensures
        match r {
            Ok(key) => resolved_key(
                text::opt_slice(project_key),
                text::opt_slice(repo_root),
                text::opt_slice(remote_url),
            ) == Some(key@),
            Err(message) => resolved_key(
                text::opt_slice(project_key),
                text::opt_slice(repo_root),
                text::opt_slice(remote_url),
            ) is None && message@ == NO_KEY@,
        },
{
    match project_key {
        Some(key) => {
            return Ok(key.to_owned());
        },
        None => {},
    }
    match repo_root {
        Some(root) => match remote_url {
            Some(url) => Ok(short_hash(url)),
            None => Ok(short_hash(root)),
        },
        None => Err(NO_KEY.to_owned()),
    }
}

/// Repositories with the same remote have the same key wherever they are checked out.
pub proof fn law_remote_decides_key(a: Seq<char>, b: Seq<char>, url: Seq<char>)
    ensures
        resolved_key(None, Some(a), Some(url)) == resolved_key(None, Some(b), Some(url)),
{
}

/// The key of a project is the one that it names itself, nearest first; without one it follows
/// from the repository.
pub proof fn law_named_key_wins(
    key: Seq<char>,
    root: Option<Seq<char>>,
    remote: Option<Seq<char>>,
    found: Seq<Option<ProjectConfig>>,
    k: int,
)
    requires
        0 <= k < found.len(),
        found[k] is Some,
        forall|i: int| 0 <= i < k ==> (#[trigger] found[i]) is None,
    ensures
        resolved_key(Some(key), root, remote) == Some(key),
        root is None ==> resolved_key(None, root, remote) is None,
        root is Some ==> resolved_key(None, root, remote) is Some,
        first_key(found) == Some(found[k]->0.key@),
    decreases k,
{
    if k > 0 {
        let rest = found.drop_first();
        assert(found[0] is None);
        assert(rest[k - 1] == found[k]);
        assert forall|i: int| 0 <= i < k - 1 implies (#[trigger] rest[i]) is None by {
            assert(rest[i] == found[i + 1]);
        }
        law_named_key_wins(key, root, remote, rest, k - 1);
    }
}

/// Two repositories without a key of their own share one only where the digests of what they go by
/// begin alike.
pub proof fn law_repositories_are_told_apart(a: Seq<char>, b: Seq<char>, root: Seq<char>)
    requires
        resolved_key(None, Some(root), Some(a)) == resolved_key(None, Some(root), Some(b)),
    ensures
        codec::sha256(codec::utf8(a)).take(16) == codec::sha256(codec::utf8(b)).take(16),
{
    codec::law_hex_tells_bytes_apart(
        codec::sha256(codec::utf8(a)).take(16),
        codec::sha256(codec::utf8(b)).take(16),
    );
}

/// The root is the nearest directory that is one; the remote is what was printed, if it was.
pub proof fn law_nearest_root_wins(dirs: Seq<(String, bool)>, k: int, printed: Seq<char>)
    requires
        0 <= k < dirs.len(),
        dirs[k].1,
        forall|i: int| 0 <= i < k ==> !(#[trigger] dirs[i]).1,
    ensures
        first_root(dirs) == Some(dirs[k].0@),
        remote_url(true, printed) matches Some(url) ==> url == text::trimmed(printed) && url.len() > 0,
        text::trimmed(printed).len() > 0 ==> remote_url(true, printed) is Some,
        remote_url(false, printed) is None,
    decreases k,
{
    if k > 0 {
        let rest = dirs.drop_first();
        assert(!dirs[0].1);
        assert(rest[k - 1] == dirs[k]);
        assert forall|i: int| 0 <= i < k - 1 implies !(#[trigger] rest[i]).1 by {
            assert(rest[i] == dirs[i + 1]);
        }
        law_nearest_root_wins(rest, k - 1, printed);
    }
}

/// Without a key of its own a project goes by the digest of its remote, else of its root.
pub proof fn law_key_follows_from_the_repository(root: Seq<char>, url: Seq<char>)
    ensures
        resolved_key(None, Some(root), Some(url)) == Some(codec::short_digest(url)),
        resolved_key(None, Some(root), None) == Some(codec::short_digest(root)),
        resolved_key(None, None, Some(url)) is None,
        level_named("warning"@) == Some(LogLevel::Warn),
{
    reveal_strlit("warning");
    reveal_strlit("error");
    assert("warning"@.len() != "error"@.len());
}

/// A level that is not known is named.
pub proof fn law_unknown_level_is_named(name: Seq<char>)
    ensures
        text::has_infix(unknown_level(name), name + "'"@),
{
    reveal_strlit("'; expected one of error, warn, info, debug, trace");
    reveal_strlit("'");
    let tail = "'; expected one of error, warn, info, debug, trace"@;
    assert(tail =~= "'"@ + tail.skip(1));
    assert(unknown_level(name) =~= "unknown log level '"@ + (name + "'"@) + tail.skip(1));
    text::lemma_infix("unknown log level '"@, name + "'"@, tail.skip(1));
}

} // verus!
