//! Making coding CLIs tell an agent what they do, and use its memory.

use vstd::prelude::*;
use vstd::string::*;

use crate::json;
use crate::json::put;
use crate::json::put_text;
use crate::json::JValue;
use crate::json::Json;
use crate::names;
use crate::paths;
use crate::paths::join_path;
use crate::plugin::config::GlobalConfig;
use crate::plugin::config::LogLevel;
use crate::text;
use crate::text::capitalize;
use crate::text::chars_of;
use crate::text::find_chars;
use crate::text::same;

verus! {

// ── Platforms and scopes ────────────────────────────────────────────────

/// The coding CLIs that can be set up; `brand` is what Anthropic's goes by.
pub open spec fn platforms(brand: Seq<char>) -> Seq<Seq<char>> {
    seq![brand, "codex"@, "gemini"@]
}

/// The coding CLIs that can be set up.
pub fn valid_platforms(brand: &str) -> (r: Vec<String>)
    ensures
        text::texts(r@) == platforms(brand@),
{
    let mut out: Vec<String> = Vec::new();
    out.push(brand.to_owned());
    out.push("codex".to_owned());
    out.push("gemini".to_owned());
    assert(text::texts(out@) =~= platforms(brand@));
    out
}

/// Whether a coding CLI can be set up.
pub fn is_valid_platform(brand: &str, platform: &str) -> (r: bool)
    ensures
        r == platforms(brand@).contains(platform@),
{
    assert(platforms(brand@)[0] == brand@ && platforms(brand@)[1] == "codex"@ && platforms(
        brand@,
    )[2] == "gemini"@);
    same(platform, brand) || same(platform, "codex") || same(platform, "gemini")
}

/// Whether a list of texts holds a text.
fn listed(list: &[String], s: &str) -> (r: bool)
    ensures
        r == text::texts(list@).contains(s@),
{
    let mut i: usize = 0;
    while i < list.len()
        invariant
            i <= list.len(),
            forall|k: int| 0 <= k < i ==> (#[trigger] list@[k])@ != s@,
        decreases list.len() - i,
    {
        if same(list[i].as_str(), s) {
            assert(text::texts(list@)[i as int] == s@);
            return true;
        }
        i = i + 1;
    }
    assert(!text::texts(list@).contains(s@)) by {
        if text::texts(list@).contains(s@) {
            let k = choose|k: int| 0 <= k < list@.len() && text::texts(list@)[k] == s@;
            assert(list@[k]@ == s@);
        }
    }
    false
}

/// What is said of a coding CLI that cannot be set up.
pub open spec fn unknown_platform(brand: Seq<char>, platform: Seq<char>) -> Seq<char> {
    "unknown platform '"@ + platform + "'. Valid values: "@ + names::cli_names(brand)
}

/// Whether all of the coding CLIs can be set up; the first that cannot is named.
pub fn check_platforms(brand: &str, selected: &[String]) -> (r: Result<(), String>)
    ensures
        match r {
            Ok(_) => forall|i: int|
                0 <= i < selected@.len() ==> platforms(brand@).contains(
                    #[trigger] text::texts(selected@)[i],
                ),
            Err(e) => exists|i: int|
                0 <= i < selected@.len() && !platforms(brand@).contains(
                    #[trigger] text::texts(selected@)[i],
                ) && e@ == unknown_platform(
                    brand@,
                    text::texts(selected@)[i],
                ) && forall|k: int|
                    0 <= k < i ==> platforms(brand@).contains(#[trigger] text::texts(selected@)[k]),
        },
{
    let mut i: usize = 0;
    while i < selected.len()
        invariant
            i <= selected.len(),
            forall|k: int|
                0 <= k < i ==> platforms(brand@).contains(#[trigger] text::texts(selected@)[k]),
        decreases selected.len() - i,
    {
        assert(text::texts(selected@)[i as int] == selected@[i as int]@);
        if !is_valid_platform(brand, selected[i].as_str()) {
            let mut e = "unknown platform '".to_owned();
            e.append(selected[i].as_str());
            e.append("'. Valid values: ");
            e.append(names::list_of_clis(brand).as_str());
            return Err(e);
        }
        i = i + 1;
    }
    Ok(())
}

/// Whether a setup writes into the working directory: it does for a project, whatever coding CLI
/// is chosen or found there.
pub open spec fn writes_here(brand: Seq<char>, scope: Seq<char>, selected: Seq<Seq<char>>) -> bool {
    scope == "project"@ && (selected.len() == 0 || exists|i: int|
        0 <= i < selected.len() && platforms(brand).contains(#[trigger] selected[i]))
}

/// Whether a setup writes into the working directory.
pub fn writes_project_files_in_cwd(brand: &str, scope: &str, selected: &[String]) -> (r: bool)
    ensures
        r == writes_here(brand@, scope@, text::texts(selected@)),
{
    if !same(scope, "project") {
        return false;
    }
    if selected.len() == 0 {
        return true;
    }
    let mut i: usize = 0;
    while i < selected.len()
        invariant
            i <= selected.len(),
            scope@ == "project"@,
            selected@.len() > 0,
            forall|k: int|
                0 <= k < i ==> !platforms(brand@).contains(#[trigger] text::texts(selected@)[k]),
        decreases selected.len() - i,
    {
        assert(text::texts(selected@)[i as int] == selected@[i as int]@);
        if is_valid_platform(brand, selected[i].as_str()) {
            return true;
        }
        i = i + 1;
    }
    false
}

/// Why a setup in the root of the file system is refused.
pub open spec fn refused_at_root(brand: Seq<char>, cwd: Seq<char>) -> Seq<char> {
    "refusing to run `agent setup` with cwd = `"@ + cwd
        + "` (filesystem root).\nAt project scope (the default) we would write hooks and MCP config\nrooted at the current directory; "@
        + text::capitalized(brand)
        + " refuses to load `.mcp.json`\nfrom the root, and per-project hook files at `/` are unusable.\nEither re-run from a project directory (e.g. `mkdir -p ~/my-project\n&& cd ~/my-project && gosh agent setup ...`) or pass `--scope user`\nto install user-globally instead — but note `--scope user` makes the\nagent capture every session of the coding CLI on this host."@
}

/// Why a setup in the root of the file system is refused.
pub fn root_refusal(brand: &str, cwd: &str) -> (r: String)
    ensures
        r@ == refused_at_root(brand@, cwd@),
{
    let mut out = "refusing to run `agent setup` with cwd = `".to_owned();
    out.append(cwd);
    out.append(
        "` (filesystem root).\nAt project scope (the default) we would write hooks and MCP config\nrooted at the current directory; ",
    );
    out.append(capitalize(brand).as_str());
    out.append(
        " refuses to load `.mcp.json`\nfrom the root, and per-project hook files at `/` are unusable.\nEither re-run from a project directory (e.g. `mkdir -p ~/my-project\n&& cd ~/my-project && gosh agent setup ...`) or pass `--scope user`\nto install user-globally instead — but note `--scope user` makes the\nagent capture every session of the coding CLI on this host.",
    );
    out
}

/// The other one of the two scopes.
pub fn other_scope(scope: &str) -> (r: &'static str)
    ensures
        r@ == (if scope@ == "user"@ {
            "project"@
        } else {
            "user"@
        }),
{
    if same(scope, "user") {
        "project"
    } else {
        "user"
    }
}

/// The coding CLIs of a list that are chosen: all where none is.
pub open spec fn chosen(found: Seq<Seq<char>>, selected: Seq<Seq<char>>) -> Seq<Seq<char>> {
    if selected.len() == 0 {
        found
    } else {
        found.filter(|p: Seq<char>| selected.contains(p))
    }
}

/// The coding CLIs that lose what an earlier setup gave them: those that are not chosen, where any
/// is.
pub open spec fn dropped(brand: Seq<char>, selected: Seq<Seq<char>>) -> Seq<Seq<char>> {
    if selected.len() == 0 {
        seq![]
    } else {
        platforms(brand).filter(|p: Seq<char>| !selected.contains(p))
    }
}

fn keep_listed(found: &[String], selected: &[String], wanted: bool) -> (r: Vec<String>)
    ensures
        text::texts(r@) == text::texts(found@).filter(
            |p: Seq<char>| text::texts(selected@).contains(p) == wanted,
        ),
{
    let ghost all = text::texts(found@);
    let ghost keep = |p: Seq<char>| text::texts(selected@).contains(p) == wanted;
    let mut out: Vec<String> = Vec::new();
    let mut i: usize = 0;
    assert(text::texts(out@) =~= all.take(0).filter(keep)) by {
        reveal(Seq::filter);
    }
    while i < found.len()
        invariant
            i <= found.len(),
            all == text::texts(found@),
            keep == (|p: Seq<char>| text::texts(selected@).contains(p) == wanted),
            text::texts(out@) == all.take(i as int).filter(keep),
        decreases found.len() - i,
    {
        let ghost before = text::texts(out@);
        assert(all.take(i + 1).drop_last() =~= all.take(i as int));
        assert(all.take(i + 1).last() == found@[i as int]@);
        if listed(selected, found[i].as_str()) == wanted {
            out.push(found[i].clone());
            assert(text::texts(out@) =~= before.push(found@[i as int]@));
        }
        assert(text::texts(out@) == all.take(i + 1).filter(keep)) by {
            reveal(Seq::filter);
        }
        i = i + 1;
    }
    assert(all.take(i as int) =~= all);
    out
}

/// The coding CLIs that are set up: those that were found and are chosen.
pub fn select_platforms(found: &[String], selected: &[String]) -> (r: Vec<String>)
    ensures
        text::texts(r@) == chosen(text::texts(found@), text::texts(selected@)),
{
    if selected.len() == 0 {
        return text::copy_strings(found);
    }
    let kept = keep_listed(found, selected, true);
    assert((|p: Seq<char>| text::texts(selected@).contains(p) == true) =~= (|p: Seq<char>|
        text::texts(selected@).contains(p)));
    kept
}

/// The coding CLIs that lose what an earlier setup gave them.
pub fn deselect_platforms(brand: &str, selected: &[String]) -> (r: Vec<String>)
    ensures
        text::texts(r@) == dropped(brand@, text::texts(selected@)),
{
    if selected.len() == 0 {
        let none: Vec<String> = Vec::new();
        assert(text::texts(none@) =~= seq![]);
        return none;
    }
    let all = valid_platforms(brand);
    let kept = keep_listed(all.as_slice(), selected, false);
    assert((|p: Seq<char>| text::texts(selected@).contains(p) == false) =~= (|p: Seq<char>|
        !text::texts(selected@).contains(p)));
    kept
}

/// The coding CLIs that are there, each by whether it is.
pub fn detect_clis(brand: &str, first: bool, codex: bool, gemini: bool) -> (r: Vec<String>)
    ensures
        text::texts(r@) == (if first {
            seq![brand@]
        } else {
            seq![]
        }) + (if codex {
            seq!["codex"@]
        } else {
            seq![]
        }) + (if gemini {
            seq!["gemini"@]
        } else {
            seq![]
        }),
{
    let mut found: Vec<String> = Vec::new();
    if first {
        found.push(brand.to_owned());
    }
    if codex {
        found.push("codex".to_owned());
    }
    if gemini {
        found.push("gemini".to_owned());
    }
    assert(text::texts(found@) =~= (if first {
        seq![brand@]
    } else {
        Seq::<Seq<char>>::empty()
    }) + (if codex {
        seq!["codex"@]
    } else {
        Seq::<Seq<char>>::empty()
    }) + (if gemini {
        seq!["gemini"@]
    } else {
        Seq::<Seq<char>>::empty()
    }));
    found
}

// ── Files and commands ──────────────────────────────────────────────────

/// A file of a coding CLI: the user's, or the project's.
pub open spec fn scoped_file(
    scope: Seq<char>,
    home: Option<Seq<char>>,
    cwd: Seq<char>,
    dir: Seq<char>,
    file: Seq<char>,
) -> Seq<char> {
    paths::joined_path(
        paths::joined_path(
            if scope == "user"@ {
                paths::home_or_tilde(home)
            } else {
                cwd
            },
            dir,
        ),
        file,
    )
}

fn scoped_path(scope: &str, home: Option<&str>, cwd: &str, dir: &str, file: &str) -> (r: String)
    ensures
        r@ == scoped_file(scope@, text::opt_slice(home), cwd@, dir@, file@),
{
    let root = if same(scope, "user") {
        match home {
            Some(h) => h.to_owned(),
            None => "~".to_owned(),
        }
    } else {
        cwd.to_owned()
    };
    let inner = join_path(root.as_str(), dir);
    join_path(inner.as_str(), file)
}

pub fn claude_settings_path(brand: &str, scope: &str, home: Option<&str>, cwd: &str) -> (r: String)
    ensures
        r@ == scoped_file(
            scope@,
            text::opt_slice(home),
            cwd@,
            names::settings_dir(brand@),
            "settings.json"@,
        ),
{
    scoped_path(scope, home, cwd, names::dir_of_settings(brand).as_str(), "settings.json")
}

pub fn codex_hooks_path(scope: &str, home: Option<&str>, cwd: &str) -> (r: String)
    ensures
        r@ == scoped_file(scope@, text::opt_slice(home), cwd@, ".codex"@, "hooks.json"@),
{
    scoped_path(scope, home, cwd, ".codex", "hooks.json")
}

pub fn gemini_settings_path(scope: &str, home: Option<&str>, cwd: &str) -> (r: String)
    ensures
        r@ == scoped_file(scope@, text::opt_slice(home), cwd@, ".gemini"@, "settings.json"@),
{
    scoped_path(scope, home, cwd, ".gemini", "settings.json")
}

/// A file that earlier setups left behind, and nothing reads.
pub fn codex_legacy_path(scope: &str, home: Option<&str>, cwd: &str, agent_name: &str) -> (r: String)
    ensures
        r@ == scoped_file(
            scope@,
            text::opt_slice(home),
            cwd@,
            ".codex"@,
            "hooks-gosh-"@ + agent_name@ + ".json"@,
        ),
{
    let mut file = "hooks-gosh-".to_owned();
    file.append(agent_name);
    file.append(".json");
    scoped_path(scope, home, cwd, ".codex", file.as_str())
}

/// Where a project's memory servers are listed.
pub fn project_mcp_path(cwd: &str) -> (r: String)
    ensures
        r@ == paths::joined_path(cwd@, ".mcp.json"@),
{
    join_path(cwd, ".mcp.json")
}

/// The name of an agent's memory server.
pub open spec fn server_name(agent_name: Seq<char>) -> Seq<char> {
    "gosh-memory-"@ + agent_name
}

fn server_of(agent_name: &str) -> (r: String)
    ensures
        r@ == server_name(agent_name@),
{
    let mut out = "gosh-memory-".to_owned();
    out.append(agent_name);
    out
}

/// What starts an agent's memory server.
pub open spec fn proxy_args(agent_name: Seq<char>, key: Seq<char>, swarm: Option<Seq<char>>) -> Seq<
    Seq<char>,
> {
    seq!["mcp-proxy"@, "--name"@, agent_name, "--default-key"@, key] + (match swarm {
        Some(s) => seq!["--default-swarm"@, s],
        None => seq![],
    })
}

/// What starts an agent's memory server.
pub fn build_mcp_proxy_args(agent_name: &str, key: &str, swarm: Option<&str>) -> (r: Vec<String>)
    ensures
        text::texts(r@) == proxy_args(agent_name@, key@, text::opt_slice(swarm)),
{
    let mut args: Vec<String> = Vec::new();
    args.push("mcp-proxy".to_owned());
    args.push("--name".to_owned());
    args.push(agent_name.to_owned());
    args.push("--default-key".to_owned());
    args.push(key.to_owned());
    if let Some(s) = swarm {
        args.push("--default-swarm".to_owned());
        args.push(s.to_owned());
    }
    assert(text::texts(args@) =~= proxy_args(agent_name@, key@, text::opt_slice(swarm)));
    args
}

/// What takes an agent's memory server from a user.
pub fn claude_mcp_remove_user_args(agent_name: &str) -> (r: Vec<String>)
    ensures
        text::texts(r@) == seq!["mcp"@, "remove"@, "-s"@, "user"@, server_name(agent_name@)],
{
    let mut args: Vec<String> = Vec::new();
    args.push("mcp".to_owned());
    args.push("remove".to_owned());
    args.push("-s".to_owned());
    args.push("user".to_owned());
    args.push(server_of(agent_name));
    assert(text::texts(args@) =~= seq![
        "mcp"@,
        "remove"@,
        "-s"@,
        "user"@,
        server_name(agent_name@),
    ]);
    args
}

/// What gives an agent's memory server to a user.
pub open spec fn user_add_args(
    agent_name: Seq<char>,
    key: Seq<char>,
    swarm: Option<Seq<char>>,
    binary: Seq<char>,
) -> Seq<Seq<char>> {
    seq!["mcp"@, "add"@, "-s"@, "user"@, server_name(agent_name), "--"@, binary] + proxy_args(
        agent_name,
        key,
        swarm,
    )
}

/// What gives an agent's memory server to a user.
pub fn claude_mcp_add_user_args(
    agent_name: &str,
    key: &str,
    swarm: Option<&str>,
    binary: &str,
) -> (r: Vec<String>)
    ensures
        text::texts(r@) == user_add_args(agent_name@, key@, text::opt_slice(swarm), binary@),
{
    let mut args: Vec<String> = Vec::new();
    args.push("mcp".to_owned());
    args.push("add".to_owned());
    args.push("-s".to_owned());
    args.push("user".to_owned());
    args.push(server_of(agent_name));
    args.push("--".to_owned());
    args.push(binary.to_owned());
    let ghost head = text::texts(args@);
    assert(head =~= seq![
        "mcp"@,
        "add"@,
        "-s"@,
        "user"@,
        server_name(agent_name@),
        "--"@,
        binary@,
    ]);
    let mut more = build_mcp_proxy_args(agent_name, key, swarm);
    let ghost added = text::texts(more@);
    args.append(&mut more);
    assert(text::texts(args@) =~= head + added);
    args
}

/// What gives an agent's memory server to Codex.
pub open spec fn codex_add_args(
    agent_name: Seq<char>,
    key: Seq<char>,
    swarm: Option<Seq<char>>,
    binary: Seq<char>,
) -> Seq<Seq<char>> {
    seq!["mcp"@, "add"@, server_name(agent_name), "--"@, binary] + proxy_args(agent_name, key, swarm)
}

/// What gives an agent's memory server to Codex.
pub fn codex_mcp_add_args(agent_name: &str, key: &str, swarm: Option<&str>, binary: &str) -> (r: Vec<
    String,
>)
    ensures
        text::texts(r@) == codex_add_args(agent_name@, key@, text::opt_slice(swarm), binary@),
{
    let mut args: Vec<String> = Vec::new();
    args.push("mcp".to_owned());
    args.push("add".to_owned());
    args.push(server_of(agent_name));
    args.push("--".to_owned());
    args.push(binary.to_owned());
    let ghost head = text::texts(args@);
    assert(head =~= seq!["mcp"@, "add"@, server_name(agent_name@), "--"@, binary@]);
    let mut more = build_mcp_proxy_args(agent_name, key, swarm);
    let ghost added = text::texts(more@);
    args.append(&mut more);
    assert(text::texts(args@) =~= head + added);
    args
}

/// What takes an agent's memory server from Codex.
pub fn codex_mcp_remove_args(agent_name: &str) -> (r: Vec<String>)
    ensures
        text::texts(r@) == seq!["mcp"@, "remove"@, server_name(agent_name@)],
{
    let mut args: Vec<String> = Vec::new();
    args.push("mcp".to_owned());
    args.push("remove".to_owned());
    args.push(server_of(agent_name));
    assert(text::texts(args@) =~= seq!["mcp"@, "remove"@, server_name(agent_name@)]);
    args
}

// ── Hooks ───────────────────────────────────────────────────────────────

/// The command of a hook.
pub open spec fn capture_command(
    binary: Seq<char>,
    agent_name: Seq<char>,
    platform: Seq<char>,
    event: Seq<char>,
) -> Seq<char> {
    binary + " capture --name "@ + agent_name + " --platform "@ + platform + " --event "@ + event
}

fn command_of(binary: &str, agent_name: &str, platform: &str, event: &str) -> (r: String)
    ensures
        r@ == capture_command(binary@, agent_name@, platform@, event@),
{
    let mut out = binary.to_owned();
    out.append(" capture --name ");
    out.append(agent_name);
    out.append(" --platform ");
    out.append(platform);
    out.append(" --event ");
    out.append(event);
    out
}

/// Whether a command is an agent's: it names the agent, and not one whose name only begins so.
pub open spec fn command_matches(command: Seq<char>, agent_name: Seq<char>) -> bool {
    let needle = "--name "@ + agent_name;
    match text::find(command, needle) {
        Some(i) => i + needle.len() == command.len() || command[i + needle.len()] == ' ',
        None => false,
    }
}

fn names_agent(command: &str, agent_name: &str) -> (r: bool)
    ensures
        r == command_matches(command@, agent_name@),
{
    let mut needle = "--name ".to_owned();
    needle.append(agent_name);
    let chars = chars_of(command);
    let wanted = chars_of(needle.as_str());
    proof {
        text::lemma_find_from(command@, needle@, 0);
    }
    match find_chars(&chars, &wanted, 0) {
        Some(i) => {
            let after: usize = i + wanted.len();
            after == chars.len() || chars[after] == ' '
        },
        None => false,
    }
}

/// Whether a hook's own command is an agent's.
pub open spec fn hook_matches(hook: JValue, agent_name: Seq<char>) -> bool {
    match json::jget_str(hook, "command"@) {
        Some(command) => command_matches(command, agent_name),
        None => false,
    }
}

/// Whether an entry is an agent's: its own command is, or that of one of its hooks.
pub open spec fn item_matches(item: JValue, agent_name: Seq<char>) -> bool {
    hook_matches(item, agent_name) || match json::jarr(json::jat(item, "hooks"@)) {
        Some(hooks) => any_hook_matches(hooks, agent_name),
        None => false,
    }
}

/// Whether the command of one of some hooks is an agent's.
pub open spec fn any_hook_matches(hooks: Seq<JValue>, agent_name: Seq<char>) -> bool {
    exists|i: int| 0 <= i < hooks.len() && hook_matches(#[trigger] hooks[i], agent_name)
}

fn own_command_matches(hook: &Json, agent_name: &str) -> (r: bool)
    ensures
        r == hook_matches(hook@, agent_name@),
{
    match hook.get_str("command") {
        Some(command) => names_agent(command, agent_name),
        None => false,
    }
}

/// Whether an entry is an agent's.
pub fn item_matches_agent(item: &Json, agent_name: &str) -> (r: bool)
    ensures
        r == item_matches(item@, agent_name@),
{
    if own_command_matches(item, agent_name) {
        return true;
    }
    match item.get_array("hooks") {
        Some(hooks) => {
            let ghost all = json::items_view(hooks@);
            let mut i: usize = 0;
            while i < hooks.len()
                invariant
                    i <= hooks.len(),
                    all == json::items_view(hooks@),
                    json::jarr(json::jat(item@, "hooks"@)) == Some(all),
                    !hook_matches(item@, agent_name@),
                    forall|k: int| 0 <= k < i ==> !hook_matches(#[trigger] all[k], agent_name@),
                decreases hooks.len() - i,
            {
                assert(all[i as int] == hooks@[i as int]@);
                if own_command_matches(&hooks[i], agent_name) {
                    assert(any_hook_matches(all, agent_name@));
                    return true;
                }
                i = i + 1;
            }
            false
        },
        None => false,
    }
}

/// Entries without an agent's.
pub open spec fn without_agent(items: Seq<JValue>, agent_name: Seq<char>) -> Seq<JValue> {
    items.filter(|item: JValue| !item_matches(item, agent_name))
}

fn drop_agent(items: &Vec<Json>, agent_name: &str) -> (r: Vec<Json>)
    ensures
        json::items_view(r@) == without_agent(json::items_view(items@), agent_name@),
        r@.len() <= items@.len(),
{
    let ghost all = json::items_view(items@);
    let ghost keep = |item: JValue| !item_matches(item, agent_name@);
    let mut out: Vec<Json> = Vec::new();
    let mut i: usize = 0;
    assert(json::items_view(out@) =~= all.take(0).filter(keep)) by {
        reveal(Seq::filter);
    }
    while i < items.len()
        invariant
            i <= items.len(),
            out@.len() <= i,
            all == json::items_view(items@),
            keep == (|item: JValue| !item_matches(item, agent_name@)),
            json::items_view(out@) == all.take(i as int).filter(keep),
        decreases items.len() - i,
    {
        let ghost before = json::items_view(out@);
        assert(all.take(i + 1).drop_last() =~= all.take(i as int));
        assert(all.take(i + 1).last() == items@[i as int]@);
        if !item_matches_agent(&items[i], agent_name) {
            let kept = items[i].copy();
            let ghost it = kept@;
            out.push(kept);
            assert(json::items_view(out@) =~= before.push(it));
        }
        assert(json::items_view(out@) == all.take(i + 1).filter(keep)) by {
            reveal(Seq::filter);
        }
        i = i + 1;
    }
    assert(all.take(i as int) =~= all);
    out
}

/// The hooks of an event with an agent's entry in place of what it had. What is not a list stays as
/// it is.
pub open spec fn with_entry(
    hooks: JValue,
    event: Seq<char>,
    agent_name: Seq<char>,
    entry: JValue,
) -> JValue {
    match json::jget(hooks, event) {
        None => json::jset(hooks, event, JValue::Arr(seq![entry])),
        Some(JValue::Arr(items)) => json::jset(
            hooks,
            event,
            JValue::Arr(without_agent(items, agent_name).push(entry)),
        ),
        Some(_) => hooks,
    }
}

fn upsert_entry(hooks: &mut Json, event: &str, agent_name: &str, entry: Json)
    ensures
        final(hooks)@ == with_entry(old(hooks)@, event@, agent_name@, entry@),
{
    let mut fresh: Vec<Json> = Vec::new();
    match hooks.get(event) {
        None => {},
        Some(Json::Arr(items)) => {
            fresh = drop_agent(items, agent_name);
        },
        Some(_) => {
            return ;
        },
    }
    let ghost before = json::items_view(fresh@);
    let ghost it = entry@;
    assert(json::jget(hooks@, event@) is None ==> before =~= seq![]);
    fresh.push(entry);
    assert(json::items_view(fresh@) =~= before.push(it));
    assert(Seq::<JValue>::empty().push(it) =~= seq![it]);
    hooks.set(event, Json::Arr(fresh));
}

/// An entry of the hooks of an event.
pub open spec fn hook_entry(matcher: Seq<char>, name: Option<Seq<char>>, command: Seq<char>) -> JValue {
    let plain = Map::<Seq<char>, JValue>::empty().insert("type"@, JValue::Str("command"@)).insert(
        "command"@,
        JValue::Str(command),
    );
    let hook = JValue::Obj(
        match name {
            Some(n) => plain.insert("name"@, JValue::Str(n)),
            None => plain,
        },
    );
    JValue::Obj(
        Map::<Seq<char>, JValue>::empty().insert("matcher"@, JValue::Str(matcher)).insert(
            "hooks"@,
            JValue::Arr(seq![hook]),
        ),
    )
}

fn entry_of(matcher: &str, name: Option<String>, command: &str) -> (r: Json)
    ensures
        r@ == hook_entry(matcher@, text::opt_text(name), command@),
{
    let mut hook: Vec<(String, Json)> = Vec::new();
    put_text(&mut hook, "type", "command");
    put_text(&mut hook, "command", command);
    if let Some(n) = name {
        put_text(&mut hook, "name", n.as_str());
    }
    let mut hooks: Vec<Json> = Vec::new();
    let inner = Json::Obj(hook);
    let ghost it = inner@;
    hooks.push(inner);
    assert(json::items_view(hooks@) =~= seq![it]);
    let mut e: Vec<(String, Json)> = Vec::new();
    put_text(&mut e, "matcher", matcher);
    put(&mut e, "hooks", Json::Arr(hooks));
    Json::Obj(e)
}

/// An event and the entry of it.
pub ghost struct HookV {
    pub event: Seq<char>,
    pub entry: JValue,
}

/// Settings with two hooks of an agent.
pub open spec fn with_hooks(
    settings: JValue,
    agent_name: Seq<char>,
    first: HookV,
    second: HookV,
) -> Result<JValue, Seq<char>> {
    if !(settings is Obj) {
        Err("settings.json root is not object"@)
    } else {
        let hooks = match json::jget(settings, "hooks"@) {
            Some(h) => h,
            None => JValue::Obj(Map::empty()),
        };
        if !(hooks is Obj) {
            Err("hooks is not object"@)
        } else {
            Ok(
                json::jset(
                    settings,
                    "hooks"@,
                    with_entry(
                        with_entry(hooks, first.event, agent_name, first.entry),
                        second.event,
                        agent_name,
                        second.entry,
                    ),
                ),
            )
        }
    }
}

pub open spec fn edited(r: Result<Json, String>) -> Result<JValue, Seq<char>> {
    match r {
        Ok(v) => Ok(v@),
        Err(e) => Err(e@),
    }
}

fn add_hooks(
    settings: Json,
    agent_name: &str,
    first_event: &str,
    first: Json,
    second_event: &str,
    second: Json,
) -> (r: Result<Json, String>)
    ensures
        edited(r) == with_hooks(
            settings@,
            agent_name@,
            HookV { event: first_event@, entry: first@ },
            HookV { event: second_event@, entry: second@ },
        ),
{
    let mut settings = settings;
    if !settings.is_object() {
        return Err("settings.json root is not object".to_owned());
    }
    let mut hooks = match settings.get("hooks") {
        Some(h) => h.copy(),
        None => Json::Obj(Vec::new()),
    };
    if !hooks.is_object() {
        return Err("hooks is not object".to_owned());
    }
    upsert_entry(&mut hooks, first_event, agent_name, first);
    upsert_entry(&mut hooks, second_event, agent_name, second);
    settings.set("hooks", hooks);
    Ok(settings)
}

/// The hooks of a coding CLI that tells a prompt and the end of a response.
pub open spec fn plain_hook(
    binary: Seq<char>,
    agent_name: Seq<char>,
    platform: Seq<char>,
    event: Seq<char>,
    captured: Seq<char>,
) -> HookV {
    HookV {
        event,
        entry: hook_entry(""@, None, capture_command(binary, agent_name, platform, captured)),
    }
}

/// The hooks of Gemini.
pub open spec fn gemini_hook(
    binary: Seq<char>,
    agent_name: Seq<char>,
    event: Seq<char>,
    captured: Seq<char>,
) -> HookV {
    HookV {
        event,
        entry: hook_entry(
            ".*"@,
            Some("gosh-"@ + captured + "-"@ + agent_name),
            capture_command(binary, agent_name, "gemini"@, captured),
        ),
    }
}

/// Settings with an agent's hooks, for a CLI that tells prompts and the end of a turn.
pub open spec fn plainly_hooked(
    settings: JValue,
    platform: Seq<char>,
    agent_name: Seq<char>,
    binary: Seq<char>,
) -> Result<JValue, Seq<char>> {
    with_hooks(
        settings,
        agent_name,
        plain_hook(binary, agent_name, platform, "UserPromptSubmit"@, "prompt"@),
        plain_hook(binary, agent_name, platform, "Stop"@, "response"@),
    )
}

/// Gemini's settings with an agent's hooks.
pub open spec fn gemini_hooked(settings: JValue, agent_name: Seq<char>, binary: Seq<char>) -> Result<
    JValue,
    Seq<char>,
> {
    with_hooks(
        settings,
        agent_name,
        gemini_hook(binary, agent_name, "BeforeModel"@, "prompt"@),
        gemini_hook(binary, agent_name, "AfterModel"@, "response"@),
    )
}

/// Settings with an agent's hooks.
pub fn configure_claude_hooks(brand: &str, settings: Json, agent_name: &str, binary: &str) -> (r:
    Result<Json, String>)
    ensures
        edited(r) == plainly_hooked(settings@, brand@, agent_name@, binary@),
{
    let prompt = command_of(binary, agent_name, brand, "prompt");
    let response = command_of(binary, agent_name, brand, "response");
    add_hooks(
        settings,
        agent_name,
        "UserPromptSubmit",
        entry_of("", None, prompt.as_str()),
        "Stop",
        entry_of("", None, response.as_str()),
    )
}

/// Codex's hooks with an agent's. What is no list of hooks at all is replaced.
pub fn configure_codex_hooks(settings: Json, agent_name: &str, binary: &str) -> (r: Result<
    Json,
    String,
>)
    ensures
        edited(r) == plainly_hooked(
            if settings@ is Obj {
                settings@
            } else {
                JValue::Obj(Map::empty())
            },
            "codex"@,
            agent_name@,
            binary@,
        ),
{
    let settings = if settings.is_object() {
        settings
    } else {
        Json::Obj(Vec::new())
    };
    let prompt = command_of(binary, agent_name, "codex", "prompt");
    let response = command_of(binary, agent_name, "codex", "response");
    add_hooks(
        settings,
        agent_name,
        "UserPromptSubmit",
        entry_of("", None, prompt.as_str()),
        "Stop",
        entry_of("", None, response.as_str()),
    )
}

fn gemini_name(captured: &str, agent_name: &str) -> (r: String)
    ensures
        r@ == "gosh-"@ + captured@ + "-"@ + agent_name@,
{
    let mut out = "gosh-".to_owned();
    out.append(captured);
    out.append("-");
    out.append(agent_name);
    out
}

/// Gemini's settings with an agent's hooks.
pub fn configure_gemini_hooks(settings: Json, agent_name: &str, binary: &str) -> (r: Result<
    Json,
    String,
>)
    ensures
        edited(r) == gemini_hooked(settings@, agent_name@, binary@),
{
    let prompt = command_of(binary, agent_name, "gemini", "prompt");
    let response = command_of(binary, agent_name, "gemini", "response");
    add_hooks(
        settings,
        agent_name,
        "BeforeModel",
        entry_of(".*", Some(gemini_name("prompt", agent_name)), prompt.as_str()),
        "AfterModel",
        entry_of(".*", Some(gemini_name("response", agent_name)), response.as_str()),
    )
}

/// The hooks of an event without an agent's.
pub open spec fn event_without(hooks: JValue, event: Seq<char>, agent_name: Seq<char>) -> JValue {
    match json::jget(hooks, event) {
        Some(JValue::Arr(items)) => json::jset(
            hooks,
            event,
            JValue::Arr(without_agent(items, agent_name)),
        ),
        _ => hooks,
    }
}

/// Whether an agent has hooks of an event.
pub open spec fn event_has(hooks: JValue, event: Seq<char>, agent_name: Seq<char>) -> bool {
    match json::jget(hooks, event) {
        Some(JValue::Arr(items)) => without_agent(items, agent_name).len() != items.len(),
        _ => false,
    }
}

/// All hooks without an agent's.
pub open spec fn hooks_without(hooks: JValue, agent_name: Seq<char>) -> JValue {
    event_without(
        event_without(
            event_without(
                event_without(hooks, "UserPromptSubmit"@, agent_name),
                "Stop"@,
                agent_name,
            ),
            "BeforeModel"@,
            agent_name,
        ),
        "AfterModel"@,
        agent_name,
    )
}

/// Whether an agent has hooks.
pub open spec fn has_hooks(hooks: JValue, agent_name: Seq<char>) -> bool {
    event_has(hooks, "UserPromptSubmit"@, agent_name) || event_has(hooks, "Stop"@, agent_name)
        || event_has(hooks, "BeforeModel"@, agent_name) || event_has(
        hooks,
        "AfterModel"@,
        agent_name,
    )
}

fn strip_event(hooks: &mut Json, event: &str, agent_name: &str) -> (r: bool)
    ensures
        final(hooks)@ == event_without(old(hooks)@, event@, agent_name@),
        r == event_has(old(hooks)@, event@, agent_name@),
{
    let mut kept: Vec<Json> = Vec::new();
    let mut changed = false;
    match hooks.get(event) {
        Some(Json::Arr(items)) => {
            kept = drop_agent(items, agent_name);
            changed = kept.len() != items.len();
            assert(json::items_view(kept@).len() == kept@.len());
            assert(json::items_view(items@).len() == items@.len());
        },
        _ => {
            return false;
        },
    }
    hooks.set(event, Json::Arr(kept));
    changed
}

proof fn lemma_other_event(hooks: JValue, event: Seq<char>, other: Seq<char>, agent_name: Seq<char>)
    requires
        event != other,
    ensures
        json::jget(event_without(hooks, event, agent_name), other) == json::jget(hooks, other),
        event_has(event_without(hooks, event, agent_name), other, agent_name) == event_has(
            hooks,
            other,
            agent_name,
        ),
{
}

proof fn lemma_events_differ()
    ensures
        "UserPromptSubmit"@ != "Stop"@,
        "UserPromptSubmit"@ != "BeforeModel"@,
        "UserPromptSubmit"@ != "AfterModel"@,
        "Stop"@ != "BeforeModel"@,
        "Stop"@ != "AfterModel"@,
        "BeforeModel"@ != "AfterModel"@,
{
    reveal_strlit("UserPromptSubmit");
    reveal_strlit("Stop");
    reveal_strlit("BeforeModel");
    reveal_strlit("AfterModel");
    assert("UserPromptSubmit"@.len() == 16 && "Stop"@.len() == 4 && "BeforeModel"@.len() == 11
        && "AfterModel"@.len() == 10);
}

/// Takes an agent's hooks out of settings; says whether there were any.
pub fn remove_hooks_for_agent(settings: &mut Json, agent_name: &str) -> (r: bool)
    ensures
        match json::jget(old(settings)@, "hooks"@) {
            Some(JValue::Obj(m)) => final(settings)@ == json::jset(
                old(settings)@,
                "hooks"@,
                hooks_without(JValue::Obj(m), agent_name@),
            ) && r == has_hooks(JValue::Obj(m), agent_name@),
            _ => !r && final(settings)@ == old(settings)@,
        },
{
    let mut hooks = match settings.get("hooks") {
        Some(h) => h.copy(),
        None => {
            return false;
        },
    };
    if !hooks.is_object() {
        return false;
    }
    let ghost h0 = hooks@;
    proof {
        lemma_events_differ();
    }
    let a = strip_event(&mut hooks, "UserPromptSubmit", agent_name);
    let ghost h1 = hooks@;
    let b = strip_event(&mut hooks, "Stop", agent_name);
    let ghost h2 = hooks@;
    let c = strip_event(&mut hooks, "BeforeModel", agent_name);
    let d = strip_event(&mut hooks, "AfterModel", agent_name);
    proof {
        lemma_other_event(h0, "UserPromptSubmit"@, "Stop"@, agent_name@);
        lemma_other_event(h0, "UserPromptSubmit"@, "BeforeModel"@, agent_name@);
        lemma_other_event(h0, "UserPromptSubmit"@, "AfterModel"@, agent_name@);
        lemma_other_event(h1, "Stop"@, "BeforeModel"@, agent_name@);
        lemma_other_event(h1, "Stop"@, "AfterModel"@, agent_name@);
        lemma_other_event(h2, "BeforeModel"@, "AfterModel"@, agent_name@);
    }
    settings.set("hooks", hooks);
    a || b || c || d
}

proof fn lemma_filter_twice(items: Seq<JValue>, agent_name: Seq<char>)
    ensures
        without_agent(without_agent(items, agent_name), agent_name) == without_agent(
            items,
            agent_name,
        ),
        forall|i: int|
            0 <= i < without_agent(items, agent_name).len() ==> !item_matches(
                #[trigger] without_agent(items, agent_name)[i],
                agent_name,
            ),
    decreases items.len(),
{
    reveal(Seq::filter);
    if items.len() > 0 {
        lemma_filter_twice(items.drop_last(), agent_name);
        let before = without_agent(items.drop_last(), agent_name);
        if !item_matches(items.last(), agent_name) {
            assert(before.push(items.last()).drop_last() =~= before);
        }
    }
}

proof fn lemma_filter_push(items: Seq<JValue>, entry: JValue, agent_name: Seq<char>)
    requires
        item_matches(entry, agent_name),
    ensures
        without_agent(items.push(entry), agent_name) == without_agent(items, agent_name),
{
    reveal(Seq::filter);
    assert(items.push(entry).drop_last() =~= items);
}

/// Nothing of an agent's is left in the hooks of an event that it is taken out of, and the entries
/// of other agents stay.
pub proof fn law_removed_agent_is_gone(items: Seq<JValue>, agent_name: Seq<char>, item: JValue)
    ensures
        without_agent(items, agent_name).contains(item) == (items.contains(item) && !item_matches(
            item,
            agent_name,
        )),
    decreases items.len(),
{
    reveal(Seq::filter);
    let kept = without_agent(items, agent_name);
    if items.len() > 0 {
        let front = items.drop_last();
        law_removed_agent_is_gone(front, agent_name, item);
        let before = without_agent(front, agent_name);
        if items.contains(item) && item != items.last() {
            let i = choose|i: int| 0 <= i < items.len() && items[i] == item;
            assert(front[i] == item);
        }
        if front.contains(item) {
            let i = choose|i: int| 0 <= i < front.len() && front[i] == item;
            assert(items[i] == item);
        }
        assert(items[items.len() - 1] == items.last());
        if !item_matches(items.last(), agent_name) {
            assert(kept == before.push(items.last()));
            if before.contains(item) {
                let i = choose|i: int| 0 <= i < before.len() && before[i] == item;
                assert(kept[i] == item);
            }
            if kept.contains(item) && item != items.last() {
                let i = choose|i: int| 0 <= i < kept.len() && kept[i] == item;
                assert(before[i] == item);
            }
            assert(kept[kept.len() - 1] == items.last());
        }
    }
}

/// Setting an agent up once more changes nothing: its entry stands once among the hooks of an
/// event.
pub proof fn law_setup_is_idempotent(
    hooks: JValue,
    event: Seq<char>,
    agent_name: Seq<char>,
    entry: JValue,
)
    requires
        hooks is Obj,
        item_matches(entry, agent_name),
    ensures
        with_entry(with_entry(hooks, event, agent_name, entry), event, agent_name, entry)
            == with_entry(hooks, event, agent_name, entry),
{
    let once = with_entry(hooks, event, agent_name, entry);
    let m = hooks->Obj_0;
    match json::jget(hooks, event) {
        None => {
            assert(seq![entry] =~= Seq::<JValue>::empty().push(entry));
            lemma_filter_push(seq![], entry, agent_name);
            assert(without_agent(Seq::<JValue>::empty(), agent_name) =~= seq![]) by {
                reveal(Seq::filter);
            }
            assert(m.insert(event, JValue::Arr(seq![entry])).insert(
                event,
                JValue::Arr(seq![entry]),
            ) =~= m.insert(event, JValue::Arr(seq![entry])));
        },
        Some(JValue::Arr(items)) => {
            let kept = without_agent(items, agent_name);
            lemma_filter_push(kept, entry, agent_name);
            lemma_filter_twice(items, agent_name);
            let list = JValue::Arr(kept.push(entry));
            assert(m.insert(event, list).insert(event, list) =~= m.insert(event, list));
        },
        Some(_) => {},
    }
}

/// The command of an agent's hook is known as the agent's, unless the program's own path looks
/// like one.
pub proof fn law_own_hooks_are_known(
    binary: Seq<char>,
    agent_name: Seq<char>,
    platform: Seq<char>,
    event: Seq<char>,
    matcher: Seq<char>,
    name: Option<Seq<char>>,
)
    requires
        !text::has_infix(binary, "--name"@),
    ensures
        item_matches(
            hook_entry(matcher, name, capture_command(binary, agent_name, platform, event)),
            agent_name,
        ),
{
    reveal_strlit("--name ");
    reveal_strlit("--name");
    reveal_strlit(" capture --name ");
    reveal_strlit(" --platform ");
    reveal_strlit("command");
    reveal_strlit("type");
    reveal_strlit("name");
    reveal_strlit("hooks");
    reveal_strlit("matcher");
    let needle = "--name "@ + agent_name;
    let command = capture_command(binary, agent_name, platform, event);
    let at = binary.len() as int + 9;
    assert(command.subrange(at, at + needle.len()) =~= needle);
    assert(text::occurs_at(command, needle, at));
    assert(command[at + needle.len()] == ' ');
    assert forall|k: int| 0 <= k < at implies !text::occurs_at(command, needle, k) by {
        if text::occurs_at(command, needle, k) {
            let w = command.subrange(k, k + needle.len());
            assert(w == needle);
            assert(w[0] == '-' && w[1] == '-' && w[2] == 'n' && w[3] == 'a' && w[4] == 'm' && w[5]
                == 'e');
            assert(w.subrange(0, 6) =~= "--name"@);
            if k + 6 <= binary.len() {
                assert(binary.subrange(k, k + 6) =~= w.subrange(0, 6));
                assert(text::occurs_at(binary, "--name"@, k));
            } else if k < binary.len() {
                let j = binary.len() - k;
                assert(w[j] == command[k + j]);
                assert(command[k + j] == ' ');
            } else {
                assert(w[0] == command[k]);
                assert(command[k] == " capture --name "@[k - binary.len()]);
            }
        }
    }
    text::lemma_find_from(command, needle, 0);
    assert(text::find(command, needle) == Some(at)) by {
        match text::find(command, needle) {
            Some(i) => {
                if i < at {
                    assert(!text::occurs_at(command, needle, i));
                }
                if i > at {
                    assert(!text::occurs_at(command, needle, at));
                }
            },
            None => {},
        }
    }
    assert(command_matches(command, agent_name));
    let entry = hook_entry(matcher, name, command);
    let hooks = json::jarr(json::jat(entry, "hooks"@));
    assert("hooks"@.len() != "matcher"@.len());
    assert("name"@[0] != "type"@[0]);
    assert("command"@.len() == 7 && "name"@.len() == 4);
    assert(hook_matches(hooks->0[0], agent_name));
    assert(any_hook_matches(hooks->0, agent_name));
}

// ── Memory servers ──────────────────────────────────────────────────────

/// An agent's memory server, as a coding CLI starts it.
pub open spec fn server_json(binary: Seq<char>, args: Seq<Seq<char>>) -> JValue {
    JValue::Obj(
        Map::<Seq<char>, JValue>::empty().insert("command"@, JValue::Str(binary)).insert(
            "args"@,
            json::jtexts(args),
        ),
    )
}

/// Settings with an agent's memory server. `root` names the file in the message.
pub open spec fn with_server(
    settings: JValue,
    root: Seq<char>,
    agent_name: Seq<char>,
    server: JValue,
) -> Result<JValue, Seq<char>> {
    if !(settings is Obj) {
        Err(root + " root is not object"@)
    } else {
        let servers = match json::jget(settings, "mcpServers"@) {
            Some(s) => s,
            None => JValue::Obj(Map::empty()),
        };
        if !(servers is Obj) {
            Err("mcpServers not object"@)
        } else {
            Ok(
                json::jset(
                    settings,
                    "mcpServers"@,
                    json::jset(servers, server_name(agent_name), server),
                ),
            )
        }
    }
}

/// Settings with an agent's memory server.
pub fn add_mcp_server(
    settings: Json,
    root: &str,
    agent_name: &str,
    key: &str,
    swarm: Option<&str>,
    binary: &str,
) -> (r: Result<Json, String>)
    ensures
        edited(r) == with_server(
            settings@,
            root@,
            agent_name@,
            server_json(binary@, proxy_args(agent_name@, key@, text::opt_slice(swarm))),
        ),
{
    let mut settings = settings;
    if !settings.is_object() {
        let mut e = root.to_owned();
        e.append(" root is not object");
        return Err(e);
    }
    let mut servers = match settings.get("mcpServers") {
        Some(s) => s.copy(),
        None => Json::Obj(Vec::new()),
    };
    if !servers.is_object() {
        return Err("mcpServers not object".to_owned());
    }
    let args = build_mcp_proxy_args(agent_name, key, swarm);
    let mut server: Vec<(String, Json)> = Vec::new();
    put_text(&mut server, "command", binary);
    put(&mut server, "args", Json::texts(&args));
    servers.set(server_of(agent_name).as_str(), Json::Obj(server));
    settings.set("mcpServers", servers);
    Ok(settings)
}

/// Takes an agent's memory server out of settings; says whether there was one.
pub fn remove_mcp_server(settings: &mut Json, agent_name: &str) -> (r: bool)
    ensures
        match json::jget(old(settings)@, "mcpServers"@) {
            Some(JValue::Obj(m)) => final(settings)@ == json::jset(
                old(settings)@,
                "mcpServers"@,
                JValue::Obj(m.remove(server_name(agent_name@))),
            ) && r == m.dom().contains(server_name(agent_name@)),
            _ => !r && final(settings)@ == old(settings)@,
        },
{
    let mut servers = match settings.get("mcpServers") {
        Some(s) => s.copy(),
        None => {
            return false;
        },
    };
    if !servers.is_object() {
        return false;
    }
    let removed = servers.remove(server_of(agent_name).as_str());
    settings.set("mcpServers", servers);
    removed
}

// ── The agent's own configuration ───────────────────────────────────────

/// What a setup was asked to configure.
pub struct SetupRequest<'a> {
    pub authority_url: Option<&'a str>,
    pub token: Option<&'a str>,
    pub principal_auth_token: Option<&'a str>,
    pub key: &'a str,
    pub swarm_id: Option<&'a str>,
    /// Capture for the agent alone from now on.
    pub no_swarm: bool,
    pub host: Option<&'a str>,
    pub port: Option<u16>,
    pub watch: Option<bool>,
    pub watch_key: Option<&'a str>,
    pub watch_swarm_id: Option<&'a str>,
    pub watch_agent_id: Option<&'a str>,
    pub watch_context_key: Option<&'a str>,
    pub watch_budget: Option<&'a str>,
    pub poll_interval: Option<u64>,
    pub log_level: Option<LogLevel>,
    pub oauth_dcr_enabled: bool,
}

/// What was asked for, else what held before.
pub open spec fn asked_or<T>(asked: Option<T>, before: Option<T>) -> Option<T> {
    match asked {
        Some(v) => Some(v),
        None => before,
    }
}

fn patch(asked: Option<&str>, before: Option<String>) -> (r: Option<String>)
    ensures
        text::opt_text(r) == asked_or(text::opt_slice(asked), text::opt_text(before)),
{
    match asked {
        Some(s) => Some(s.to_owned()),
        None => before,
    }
}

/// What an instance is configured with that was never set up.
pub fn fresh_config(install_id: String) -> (r: GlobalConfig)
    ensures
        r.authority_url@ == "http://127.0.0.1:8765"@,
        r.install_id == install_id,
        r.token is None && r.principal_auth_token is None && r.key is None && r.swarm_id is None,
        r.host is None && r.port is None && !r.watch && r.oauth_dcr_enabled,
        r.watch_key is None && r.watch_swarm_id is None && r.watch_agent_id is None,
        r.watch_context_key is None && r.watch_budget is None && r.poll_interval is None,
        r.log_level == LogLevel::Info,
{
    GlobalConfig {
        authority_url: "http://127.0.0.1:8765".to_owned(),
        token: None,
        principal_auth_token: None,
        install_id,
        key: None,
        swarm_id: None,
        host: None,
        port: None,
        watch: false,
        watch_key: None,
        watch_swarm_id: None,
        watch_agent_id: None,
        watch_context_key: None,
        watch_budget: None,
        poll_interval: None,
        oauth_dcr_enabled: true,
        log_level: LogLevel::Info,
    }
}

/// A configuration with what a setup was asked for: what was not asked for stays, but whether
/// clients may register themselves, which every setup says.
pub fn apply_setup(config: GlobalConfig, request: &SetupRequest) -> (r: GlobalConfig)
    ensures
        r.authority_url@ == (match request.authority_url {
            Some(url) => url@,
            None => config.authority_url@,
        }),
        text::opt_text(r.token) == asked_or(
            text::opt_slice(request.token),
            text::opt_text(config.token),
        ),
        text::opt_text(r.principal_auth_token) == asked_or(
            text::opt_slice(request.principal_auth_token),
            text::opt_text(config.principal_auth_token),
        ),
        r.install_id == config.install_id,
        text::opt_text(r.key) == Some(request.key@),
        text::opt_text(r.swarm_id) == (if request.no_swarm {
            None
        } else {
            asked_or(text::opt_slice(request.swarm_id), text::opt_text(config.swarm_id))
        }),
        text::opt_text(r.host) == asked_or(
            text::opt_slice(request.host),
            text::opt_text(config.host),
        ),
        r.port == asked_or(request.port, config.port),
        r.watch == (match request.watch {
            Some(w) => w,
            None => config.watch,
        }),
        text::opt_text(r.watch_key) == asked_or(
            text::opt_slice(request.watch_key),
            text::opt_text(config.watch_key),
        ),
        text::opt_text(r.watch_swarm_id) == asked_or(
            text::opt_slice(request.watch_swarm_id),
            text::opt_text(config.watch_swarm_id),
        ),
        text::opt_text(r.watch_agent_id) == asked_or(
            text::opt_slice(request.watch_agent_id),
            text::opt_text(config.watch_agent_id),
        ),
        text::opt_text(r.watch_context_key) == asked_or(
            text::opt_slice(request.watch_context_key),
            text::opt_text(config.watch_context_key),
        ),
        text::opt_text(r.watch_budget) == asked_or(
            text::opt_slice(request.watch_budget),
            text::opt_text(config.watch_budget),
        ),
        r.poll_interval == asked_or(request.poll_interval, config.poll_interval),
        r.log_level == (match request.log_level {
            Some(level) => level,
            None => config.log_level,
        }),
        r.oauth_dcr_enabled == request.oauth_dcr_enabled,
{
    GlobalConfig {
        authority_url: match request.authority_url {
            Some(url) => url.to_owned(),
            None => config.authority_url,
        },
        token: patch(request.token, config.token),
        principal_auth_token: patch(request.principal_auth_token, config.principal_auth_token),
        install_id: config.install_id,
        key: Some(request.key.to_owned()),
        swarm_id: if request.no_swarm {
            None
        } else {
            patch(request.swarm_id, config.swarm_id)
        },
        host: patch(request.host, config.host),
        port: match request.port {
            Some(p) => Some(p),
            None => config.port,
        },
        watch: match request.watch {
            Some(w) => w,
            None => config.watch,
        },
        watch_key: patch(request.watch_key, config.watch_key),
        watch_swarm_id: patch(request.watch_swarm_id, config.watch_swarm_id),
        watch_agent_id: patch(request.watch_agent_id, config.watch_agent_id),
        watch_context_key: patch(request.watch_context_key, config.watch_context_key),
        watch_budget: patch(request.watch_budget, config.watch_budget),
        poll_interval: match request.poll_interval {
            Some(n) => Some(n),
            None => config.poll_interval,
        },
        oauth_dcr_enabled: request.oauth_dcr_enabled,
        log_level: match request.log_level {
            Some(level) => level,
            None => config.log_level,
        },
    }
}

// ── More laws ───────────────────────────────────────────────────────────

proof fn lemma_entry_keys()
    ensures
        "type"@.len() == 4 && "type"@[0] == 't',
        "command"@.len() == 7 && "command"@[0] == 'c',
        "name"@.len() == 4 && "name"@[0] == 'n',
        "matcher"@.len() == 7 && "matcher"@[0] == 'm',
        "hooks"@.len() == 5,
        "args"@.len() == 4 && "args"@[0] == 'a',
        "mcpServers"@.len() == 10,
{
    reveal_strlit("type");
    reveal_strlit("command");
    reveal_strlit("name");
    reveal_strlit("matcher");
    reveal_strlit("hooks");
    reveal_strlit("args");
    reveal_strlit("mcpServers");
}

/// Whether a hook runs the capture of an event for an agent and a platform.
pub open spec fn runs_capture(
    item: JValue,
    binary: Seq<char>,
    agent_name: Seq<char>,
    platform: Seq<char>,
    captured: Seq<char>,
) -> bool {
    json::jarr(json::jat(item, "hooks"@)) matches Some(hooks) && hooks.len() == 1 && json::jget_str(
        hooks[0],
        "type"@,
    ) == Some("command"@) && json::jget_str(hooks[0], "command"@) == Some(
        binary + " capture --name "@ + agent_name + " --platform "@ + platform + " --event "@
            + captured,
    )
}

proof fn lemma_entry_runs_capture(
    matcher: Seq<char>,
    name: Option<Seq<char>>,
    binary: Seq<char>,
    agent_name: Seq<char>,
    platform: Seq<char>,
    captured: Seq<char>,
)
    ensures
        runs_capture(
            hook_entry(matcher, name, capture_command(binary, agent_name, platform, captured)),
            binary,
            agent_name,
            platform,
            captured,
        ),
        json::jget_str(
            hook_entry(matcher, name, capture_command(binary, agent_name, platform, captured)),
            "matcher"@,
        ) == Some(matcher),
{
    lemma_entry_keys();
}

/// Whether hooks have an item for an event that runs its capture, behind all that others have.
pub open spec fn captures(
    settings: JValue,
    event: Seq<char>,
    binary: Seq<char>,
    agent_name: Seq<char>,
    platform: Seq<char>,
    captured: Seq<char>,
) -> bool {
    json::jarr(json::jat(json::jat(settings, "hooks"@), event)) matches Some(items) && items.len() > 0
        && runs_capture(items.last(), binary, agent_name, platform, captured)
}

/// Whether an event's hooks are a list, or not there yet.
pub open spec fn takes_hooks(settings: JValue, event: Seq<char>) -> bool {
    let hooks = json::jat(settings, "hooks"@);
    json::jget(hooks, event) is None || json::jarr(json::jat(hooks, event)) is Some
}

proof fn lemma_hooked(
    settings: JValue,
    agent_name: Seq<char>,
    first: HookV,
    second: HookV,
    other: Seq<char>,
)
    requires
        settings is Obj,
        json::jget(settings, "hooks"@) is None || json::jat(settings, "hooks"@) is Obj,
        takes_hooks(settings, first.event),
        takes_hooks(settings, second.event),
        first.event != second.event,
    ensures
        with_hooks(settings, agent_name, first, second) matches Ok(v) && {
            let hooks = json::jat(v, "hooks"@);
            &&& json::jarr(json::jat(hooks, first.event)) matches Some(items) && items.len() > 0
                && items.last() == first.entry
            &&& json::jarr(json::jat(hooks, second.event)) matches Some(items) && items.len() > 0
                && items.last() == second.entry
            &&& other != "hooks"@ ==> json::jget(v, other) == json::jget(settings, other)
            &&& other != first.event && other != second.event ==> json::jget(hooks, other)
                == json::jget(json::jat(settings, "hooks"@), other)
        },
{
}

/// A CLI that was set up captures prompts and responses: its hooks run the capture for this agent
/// and this platform, each for its own event.  Nothing else in its settings changes.
pub proof fn law_set_up_cli_captures(
    settings: JValue,
    platform: Seq<char>,
    agent_name: Seq<char>,
    binary: Seq<char>,
    other: Seq<char>,
)
    requires
        settings is Obj,
        json::jget(settings, "hooks"@) is None || json::jat(settings, "hooks"@) is Obj,
        takes_hooks(settings, "UserPromptSubmit"@),
        takes_hooks(settings, "Stop"@),
    ensures
        plainly_hooked(settings, platform, agent_name, binary) matches Ok(v) && {
            &&& captures(v, "UserPromptSubmit"@, binary, agent_name, platform, "prompt"@)
            &&& captures(v, "Stop"@, binary, agent_name, platform, "response"@)
            &&& other != "hooks"@ ==> json::jget(v, other) == json::jget(settings, other)
            &&& other != "UserPromptSubmit"@ && other != "Stop"@ ==> json::jget(
                json::jat(v, "hooks"@),
                other,
            ) == json::jget(json::jat(settings, "hooks"@), other)
        },
{
    lemma_events_differ();
    lemma_entry_runs_capture(""@, None, binary, agent_name, platform, "prompt"@);
    lemma_entry_runs_capture(""@, None, binary, agent_name, platform, "response"@);
    lemma_hooked(
        settings,
        agent_name,
        plain_hook(binary, agent_name, platform, "UserPromptSubmit"@, "prompt"@),
        plain_hook(binary, agent_name, platform, "Stop"@, "response"@),
        other,
    );
}

/// So does Gemini, by its own events.
pub proof fn law_set_up_gemini_captures(
    settings: JValue,
    agent_name: Seq<char>,
    binary: Seq<char>,
    other: Seq<char>,
)
    requires
        settings is Obj,
        json::jget(settings, "hooks"@) is None || json::jat(settings, "hooks"@) is Obj,
        takes_hooks(settings, "BeforeModel"@),
        takes_hooks(settings, "AfterModel"@),
    ensures
        gemini_hooked(settings, agent_name, binary) matches Ok(v) && {
            &&& captures(v, "BeforeModel"@, binary, agent_name, "gemini"@, "prompt"@)
            &&& captures(v, "AfterModel"@, binary, agent_name, "gemini"@, "response"@)
            &&& other != "hooks"@ ==> json::jget(v, other) == json::jget(settings, other)
        },
{
    lemma_events_differ();
    lemma_entry_runs_capture(
        ".*"@,
        Some("gosh-"@ + "prompt"@ + "-"@ + agent_name),
        binary,
        agent_name,
        "gemini"@,
        "prompt"@,
    );
    lemma_entry_runs_capture(
        ".*"@,
        Some("gosh-"@ + "response"@ + "-"@ + agent_name),
        binary,
        agent_name,
        "gemini"@,
        "response"@,
    );
    lemma_hooked(
        settings,
        agent_name,
        gemini_hook(binary, agent_name, "BeforeModel"@, "prompt"@),
        gemini_hook(binary, agent_name, "AfterModel"@, "response"@),
        other,
    );
}

/// The hooks of others stay: what an event had that is not this agent's is still there.
pub proof fn law_hooks_of_others_stay(
    hooks: JValue,
    event: Seq<char>,
    agent_name: Seq<char>,
    entry: JValue,
    items: Seq<JValue>,
    item: JValue,
)
    requires
        hooks is Obj,
        json::jget(hooks, event) == Some(JValue::Arr(items)),
        items.contains(item),
        !item_matches(item, agent_name),
    ensures
        json::jarr(json::jat(with_entry(hooks, event, agent_name, entry), event)) matches Some(after)
            && after.contains(item) && after.contains(entry),
{
    law_removed_agent_is_gone(items, agent_name, item);
    let kept = without_agent(items, agent_name);
    let after = kept.push(entry);
    let i = choose|i: int| 0 <= i < kept.len() && kept[i] == item;
    assert(after[i] == item);
    assert(after[kept.len() as int] == entry);
}

/// The server that a CLI is given is this program, as a proxy for this agent with its key and its
/// swarm; the servers of others stay.
pub proof fn law_server_is_a_proxy_for_the_agent(
    settings: JValue,
    root: Seq<char>,
    agent_name: Seq<char>,
    key: Seq<char>,
    swarm: Option<Seq<char>>,
    binary: Seq<char>,
    other: Seq<char>,
)
    requires
        settings is Obj,
        json::jget(settings, "mcpServers"@) is None || json::jat(settings, "mcpServers"@) is Obj,
    ensures
        with_server(settings, root, agent_name, server_json(binary, proxy_args(agent_name, key, swarm)))
            matches Ok(v) && {
            let servers = json::jat(v, "mcpServers"@);
            let own = json::jat(servers, "gosh-memory-"@ + agent_name);
            &&& json::jget_str(own, "command"@) == Some(binary)
            &&& json::jarr(json::jat(own, "args"@)) matches Some(args) && args.len() >= 5 && args[0]
                == JValue::Str("mcp-proxy"@) && args[1] == JValue::Str("--name"@) && args[2]
                == JValue::Str(agent_name) && args[3] == JValue::Str("--default-key"@) && args[4]
                == JValue::Str(key) && (swarm matches Some(s) ==> args.len() == 7 && args[5]
                == JValue::Str("--default-swarm"@) && args[6] == JValue::Str(s)) && (swarm is None
                ==> args.len() == 5)
            &&& other != "gosh-memory-"@ + agent_name ==> json::jget(servers, other) == json::jget(
                json::jat(settings, "mcpServers"@),
                other,
            )
            &&& other != "mcpServers"@ ==> json::jget(v, other) == json::jget(settings, other)
        },
{
    lemma_entry_keys();
}

/// A platform is set up where it was found and, if any were asked for, asked for; one that was not
/// asked for is taken back.
pub proof fn law_asked_platforms_are_set_up(
    brand: Seq<char>,
    found: Seq<Seq<char>>,
    selected: Seq<Seq<char>>,
    p: Seq<char>,
)
    ensures
        chosen(found, selected).contains(p) <==> found.contains(p) && (selected.len() == 0
            || selected.contains(p)),
        dropped(brand, selected).contains(p) <==> platforms(brand).contains(p) && selected.len() > 0
            && !selected.contains(p),
{
    lemma_filter_contains(found, |q: Seq<char>| selected.contains(q), p);
    lemma_filter_contains(platforms(brand), |q: Seq<char>| !selected.contains(q), p);
}

proof fn lemma_filter_contains(s: Seq<Seq<char>>, keep: spec_fn(Seq<char>) -> bool, p: Seq<char>)
    ensures
        s.filter(keep).contains(p) <==> s.contains(p) && keep(p),
    decreases s.len(),
{
    reveal(Seq::filter);
    if s.len() > 0 {
        let front = s.drop_last();
        lemma_filter_contains(front, keep, p);
        let kept = front.filter(keep);
        if s.contains(p) && p != s.last() {
            let i = choose|i: int| 0 <= i < s.len() && s[i] == p;
            assert(front[i] == p);
        }
        if front.contains(p) {
            let i = choose|i: int| 0 <= i < front.len() && front[i] == p;
            assert(s[i] == p);
        }
        assert(s[s.len() - 1] == s.last());
        if keep(s.last()) {
            let all = kept.push(s.last());
            assert(s.filter(keep) == all);
            assert(all[kept.len() as int] == s.last());
            if kept.contains(p) {
                let i = choose|i: int| 0 <= i < kept.len() && kept[i] == p;
                assert(all[i] == p);
            }
            if all.contains(p) && p != s.last() {
                let i = choose|i: int| 0 <= i < all.len() && all[i] == p;
                assert(kept[i] == p);
            }
        }
    }
}

/// What is set up for a user stands under their home, what is set up for a project under the
/// project.
pub proof fn law_scope_decides_the_place(
    home: Seq<char>,
    cwd: Seq<char>,
    dir: Seq<char>,
    file: Seq<char>,
)
    requires
        !text::has_prefix(dir, "/"@),
        !text::has_prefix(file, "/"@),
    ensures
        text::has_prefix(scoped_file("user"@, Some(home), cwd, dir, file), home),
        text::has_prefix(scoped_file("project"@, Some(home), cwd, dir, file), cwd),
        text::has_suffix(scoped_file("user"@, Some(home), cwd, dir, file), file),
{
    reveal_strlit("user");
    reveal_strlit("project");
    assert("user"@.len() != "project"@.len());
    paths::law_path_is_joined(home, dir);
    paths::law_path_is_joined(paths::joined_path(home, dir), file);
    paths::law_path_is_joined(cwd, dir);
    paths::law_path_is_joined(paths::joined_path(cwd, dir), file);
    lemma_prefix_of_prefix(
        paths::joined_path(paths::joined_path(home, dir), file),
        paths::joined_path(home, dir),
        home,
    );
    lemma_prefix_of_prefix(
        paths::joined_path(paths::joined_path(cwd, dir), file),
        paths::joined_path(cwd, dir),
        cwd,
    );
}

proof fn lemma_prefix_of_prefix(s: Seq<char>, m: Seq<char>, p: Seq<char>)
    requires
        text::has_prefix(s, m),
        text::has_prefix(m, p),
    ensures
        text::has_prefix(s, p),
{
    assert(s.subrange(0, p.len() as int) =~= m.subrange(0, p.len() as int));
}

/// After an agent was taken back, none of its hooks is left in any event, and those of others are.
pub proof fn law_taken_back_agent_is_gone(
    hooks: JValue,
    event: Seq<char>,
    agent_name: Seq<char>,
    items: Seq<JValue>,
    item: JValue,
)
    requires
        hooks is Obj,
        json::jget(hooks, event) == Some(JValue::Arr(items)),
    ensures
        json::jarr(json::jat(event_without(hooks, event, agent_name), event)) matches Some(left)
            && left.contains(item) == (items.contains(item) && !item_matches(item, agent_name)),
{
    law_removed_agent_is_gone(items, agent_name, item);
}

/// Each of the events is cleared, and no other.
pub proof fn law_every_event_is_cleared(hooks: JValue, agent_name: Seq<char>, other: Seq<char>)
    requires
        hooks is Obj,
    ensures
        ({
            let after = hooks_without(hooks, agent_name);
            &&& json::jget(after, "UserPromptSubmit"@) == json::jget(
                event_without(hooks, "UserPromptSubmit"@, agent_name),
                "UserPromptSubmit"@,
            )
            &&& json::jget(after, "Stop"@) == json::jget(
                event_without(hooks, "Stop"@, agent_name),
                "Stop"@,
            )
            &&& json::jget(after, "BeforeModel"@) == json::jget(
                event_without(hooks, "BeforeModel"@, agent_name),
                "BeforeModel"@,
            )
            &&& json::jget(after, "AfterModel"@) == json::jget(
                event_without(hooks, "AfterModel"@, agent_name),
                "AfterModel"@,
            )
            &&& other != "UserPromptSubmit"@ && other != "Stop"@ && other != "BeforeModel"@ && other
                != "AfterModel"@ ==> json::jget(after, other) == json::jget(hooks, other)
        }),
{
    lemma_events_differ();
    reveal_strlit("UserPromptSubmit");
    reveal_strlit("Stop");
    reveal_strlit("BeforeModel");
    reveal_strlit("AfterModel");
    assert("UserPromptSubmit"@.len() == 16 && "Stop"@.len() == 4 && "BeforeModel"@.len() == 11
        && "AfterModel"@.len() == 10);
}

/// A setup writes into the project that it runs in where its scope is the project and it sets up
/// any of the CLIs.
pub proof fn law_project_scope_writes_here(brand: Seq<char>, selected: Seq<Seq<char>>, k: int)
    ensures
        writes_here(brand, "project"@, Seq::empty()),
        0 <= k < selected.len() && (selected[k] == brand || selected[k] == "codex"@ || selected[k]
            == "gemini"@) ==> writes_here(brand, "project"@, selected),
        !writes_here(brand, "user"@, selected),
{
    reveal_strlit("user");
    reveal_strlit("project");
    assert("user"@.len() != "project"@.len());
    let all = platforms(brand);
    assert(all[0] == brand && all[1] == "codex"@ && all[2] == "gemini"@);
    if 0 <= k < selected.len() && (selected[k] == brand || selected[k] == "codex"@ || selected[k]
        == "gemini"@) {
        assert(all.contains(selected[k]));
    }
}

/// A CLI is given the agent's server by its own command: what it is to run stands behind the dashes,
/// this program first and its arguments behind it.
pub proof fn law_cli_is_given_the_server(
    agent_name: Seq<char>,
    key: Seq<char>,
    swarm: Option<Seq<char>>,
    binary: Seq<char>,
)
    ensures
        ({
            let a = user_add_args(agent_name, key, swarm, binary);
            let c = codex_add_args(agent_name, key, swarm, binary);
            &&& a.len() == (if swarm is Some { 14int } else { 12 })
            &&& a[0] == "mcp"@ && a[1] == "add"@ && a[2] == "-s"@ && a[3] == "user"@
            &&& a[4] == "gosh-memory-"@ + agent_name && a[5] == "--"@ && a[6] == binary
            &&& a[7] == "mcp-proxy"@ && a[9] == agent_name && a[11] == key
            &&& c.len() == (if swarm is Some { 12int } else { 10 })
            &&& c[0] == "mcp"@ && c[1] == "add"@ && c[2] == "gosh-memory-"@ + agent_name
            &&& c[3] == "--"@ && c[4] == binary && c[5] == "mcp-proxy"@ && c[7] == agent_name && c[9]
                == key
            &&& swarm matches Some(s) ==> a[13] == s && c[11] == s
        }),
{
}

/// A platform that is not known is named, with those that are; a setup that is refused names the
/// directory that it was refused for.
pub proof fn law_refused_setup_says_why(brand: Seq<char>, platform: Seq<char>, cwd: Seq<char>)
    ensures
        text::has_prefix(unknown_platform(brand, platform), "unknown platform '"@ + platform),
        text::has_suffix(unknown_platform(brand, platform), names::cli_names(brand)),
        text::has_prefix(
            refused_at_root(brand, cwd),
            "refusing to run `agent setup` with cwd = `"@ + cwd,
        ),
{
    let said = unknown_platform(brand, platform);
    let head = "unknown platform '"@ + platform;
    let tail = names::cli_names(brand);
    assert(said.subrange(0, head.len() as int) =~= head);
    assert(said.subrange(said.len() - tail.len(), said.len() as int) =~= tail);
    let root = refused_at_root(brand, cwd);
    let start = "refusing to run `agent setup` with cwd = `"@ + cwd;
    assert(root.subrange(0, start.len() as int) =~= start);
}

proof fn lemma_filter_len(items: Seq<JValue>, agent_name: Seq<char>)
    ensures
        without_agent(items, agent_name).len() <= items.len(),
        without_agent(items, agent_name).len() == items.len() <==> forall|i: int|
            0 <= i < items.len() ==> !item_matches(#[trigger] items[i], agent_name),
    decreases items.len(),
{
    reveal(Seq::filter);
    if items.len() > 0 {
        let front = items.drop_last();
        lemma_filter_len(front, agent_name);
        assert(items.last() == items[items.len() - 1]);
        if forall|i: int| 0 <= i < items.len() ==> !item_matches(#[trigger] items[i], agent_name) {
            assert forall|i: int| 0 <= i < front.len() implies !item_matches(
                #[trigger] front[i],
                agent_name,
            ) by {
                assert(front[i] == items[i]);
            }
        }
        if without_agent(items, agent_name).len() == items.len() {
            assert forall|i: int| 0 <= i < items.len() implies !item_matches(
                #[trigger] items[i],
                agent_name,
            ) by {
                if i < front.len() {
                    assert(front[i] == items[i]);
                }
            }
        }
    }
}

/// Hooks are an agent's where one of its events has an item of it.
pub proof fn law_agent_has_hooks_where_an_item_is_its(
    hooks: JValue,
    event: Seq<char>,
    agent_name: Seq<char>,
    items: Seq<JValue>,
)
    requires
        json::jget(hooks, event) == Some(JValue::Arr(items)),
    ensures
        event_has(hooks, event, agent_name) <==> exists|i: int|
            0 <= i < items.len() && item_matches(#[trigger] items[i], agent_name),
        event == "UserPromptSubmit"@ || event == "Stop"@ || event == "BeforeModel"@ || event
            == "AfterModel"@ ==> (event_has(hooks, event, agent_name) ==> has_hooks(
            hooks,
            agent_name,
        )),
{
    lemma_filter_len(items, agent_name);
}

/// Without hooks of an agent there is nothing to take back.
pub proof fn law_agent_without_hooks_has_none(hooks: JValue, agent_name: Seq<char>)
    requires
        json::jget(hooks, "UserPromptSubmit"@) is None,
        json::jget(hooks, "Stop"@) is None,
        json::jget(hooks, "BeforeModel"@) is None,
        json::jget(hooks, "AfterModel"@) is None,
    ensures
        !has_hooks(hooks, agent_name),
        hooks_without(hooks, agent_name) == hooks,
{
}

/// What is asked for wins over what was there before; where nothing is asked for, that stays.
pub proof fn law_asked_value_wins<T>(asked: T, before: Option<T>)
    ensures
        asked_or(Some(asked), before) == Some(asked),
        asked_or(None, before) == before,
{
}

} // verus!
