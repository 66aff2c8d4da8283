use gosh_agent::json::Json;
use gosh_agent::plugin::setup::{
    add_mcp_server, apply_setup, build_mcp_proxy_args, check_platforms, claude_mcp_remove_user_args,
    claude_settings_path, codex_hooks_path, configure_claude_hooks, configure_codex_hooks,
    configure_gemini_hooks, deselect_platforms, detect_clis, fresh_config, gemini_settings_path,
    item_matches_agent, other_scope, remove_hooks_for_agent, remove_mcp_server, root_refusal,
    select_platforms, writes_project_files_in_cwd, SetupRequest,
};

/// What the first of the coding CLIs goes by.
const FIRST: &str = "acme";

fn json(text: &str) -> Json {
    Json::parse(text).expect("a JSON text")
}

fn texts(v: &[&str]) -> Vec<String> {
    v.iter().map(|s| s.to_string()).collect()
}

fn hook(command: &str) -> Json {
    json(&format!("{{\"hooks\": [{{\"command\": \"{command}\"}}]}}"))
}

#[test]
fn exact_agent_name_matches() {
    let item = hook("gosh-agent capture --name prod --platform acme");
    assert!(item_matches_agent(&item, "prod"));
}

#[test]
fn agent_name_at_end_of_command_matches() {
    let item = hook("gosh-agent capture --name prod");
    assert!(item_matches_agent(&item, "prod"));
}

#[test]
fn prefix_agent_name_does_not_match_longer_name() {
    let item = hook("gosh-agent capture --name production --platform acme");
    assert!(!item_matches_agent(&item, "prod"));
}

#[test]
fn similar_agent_name_does_not_match() {
    let item = hook("gosh-agent capture --name alpha --event prompt");
    assert!(!item_matches_agent(&item, "a"));
}

#[test]
fn cwd_root_guard_skips_user_scope() {
    assert!(!writes_project_files_in_cwd(FIRST, "user", &[]));
    assert!(!writes_project_files_in_cwd(FIRST, "user", &[FIRST.to_string()]));
    assert!(!writes_project_files_in_cwd(FIRST, "user", &[FIRST.to_string(), "codex".to_string()],));
    assert!(!writes_project_files_in_cwd(FIRST, 
        "user",
        &[FIRST.to_string(), "codex".to_string(), "gemini".to_string()],
    ));
}

#[test]
fn cwd_root_guard_fires_for_project_scope_with_any_platform() {
    assert!(writes_project_files_in_cwd(FIRST, "project", &[FIRST.to_string()]));
    assert!(writes_project_files_in_cwd(FIRST, "project", &["codex".to_string()]));
    assert!(writes_project_files_in_cwd(FIRST, "project", &["gemini".to_string()]));
    assert!(writes_project_files_in_cwd(FIRST, "project", &[FIRST.to_string(), "codex".to_string()],));
    // Nothing chosen means that whatever is found is set up.
    assert!(writes_project_files_in_cwd(FIRST, "project", &[]));
}

#[test]
fn cwd_root_guard_ignores_unknown_platforms() {
    assert!(!writes_project_files_in_cwd(FIRST, "project", &["unknown".to_string()]));
}

#[test]
fn settings_paths_split_project_vs_user_for_each_platform() {
    let cwd = "/tmp/proj";
    let home = Some("/home/u");

    assert_eq!(
        claude_settings_path(FIRST, "project", home, cwd),
        "/tmp/proj/.acme/settings.json",
    );
    assert_eq!(codex_hooks_path("project", home, cwd), "/tmp/proj/.codex/hooks.json");
    assert_eq!(gemini_settings_path("project", home, cwd), "/tmp/proj/.gemini/settings.json");

    assert!(!claude_settings_path(FIRST, "user", home, cwd).starts_with(cwd));
    assert!(!codex_hooks_path("user", home, cwd).starts_with(cwd));
    assert!(!gemini_settings_path("user", home, cwd).starts_with(cwd));

    assert_eq!(
        claude_settings_path(FIRST, "anything-else", home, cwd),
        "/tmp/proj/.acme/settings.json",
    );
}

#[test]
fn other_scope_is_inverse_for_known_values_user_for_unknown() {
    assert_eq!(other_scope("project"), "user");
    assert_eq!(other_scope("user"), "project");
    // Unknown values map to "user".
    assert_eq!(other_scope("garbage"), "user");
}

#[test]
fn claude_mcp_remove_user_args_targets_agent_specific_user_scope_server() {
    let args = claude_mcp_remove_user_args("alpha");
    assert_eq!(args[0], "mcp", "subcommand");
    assert_eq!(args[1], "remove", "operation");
    assert_eq!(args[2], "-s", "scope flag");
    assert_eq!(args[3], "user", "scope value — must be `user`");
    assert_eq!(args[4], "gosh-memory-alpha", "server name includes agent name");
}

fn settings_with_two_agents() -> Json {
    json(
        "{\"hooks\": {
            \"UserPromptSubmit\": [
                { \"hooks\": [{ \"command\": \"gosh-agent capture --name target --platform acme --event prompt\", \"type\": \"command\" }] },
                { \"hooks\": [{ \"command\": \"gosh-agent capture --name keepme --platform acme --event prompt\", \"type\": \"command\" }] }
            ],
            \"Stop\": [
                { \"hooks\": [{ \"command\": \"gosh-agent capture --name target --platform acme --event response\", \"type\": \"command\" }] },
                { \"hooks\": [{ \"command\": \"gosh-agent capture --name keepme --platform acme --event response\", \"type\": \"command\" }] }
            ]
        }}",
    )
}

#[test]
fn remove_hooks_for_agent_strips_only_target_agent() {
    let mut settings = settings_with_two_agents();
    assert!(remove_hooks_for_agent(&mut settings, "target"));
    let hooks = settings.get("hooks").unwrap();
    for event in ["UserPromptSubmit", "Stop"] {
        let arr = hooks.get_array(event).unwrap();
        assert_eq!(arr.len(), 1, "only `keepme` entry should remain on {event}");
        let cmd = arr[0].get_array("hooks").unwrap()[0].get_str("command").unwrap();
        assert!(cmd.contains("--name keepme"), "wrong agent survived on {event}: {cmd}");
    }
}

#[test]
fn remove_hooks_for_agent_returns_false_when_no_match() {
    let mut settings = settings_with_two_agents();
    let original = settings.to_text();
    assert!(!remove_hooks_for_agent(&mut settings, "missing-agent"));
    assert_eq!(settings.to_text(), original);
}

#[test]
fn remove_hooks_for_agent_is_noop_when_file_absent() {
    let mut settings = json("{}");
    assert!(!remove_hooks_for_agent(&mut settings, "any"));
}

fn settings_with_servers() -> Json {
    json(
        "{\"mcpServers\": {
            \"gosh-memory-target\": { \"command\": \"x\", \"args\": [] },
            \"gosh-memory-other\":  { \"command\": \"y\", \"args\": [] },
            \"unrelated-tool\":     { \"command\": \"z\", \"args\": [] }
        }}",
    )
}

#[test]
fn remove_claude_project_entry_strips_only_target_agent() {
    let mut mcp = settings_with_servers();
    assert!(remove_mcp_server(&mut mcp, "target"));
    let servers = mcp.get("mcpServers").unwrap();
    assert!(servers.get("gosh-memory-target").is_none());
    assert!(servers.get("gosh-memory-other").is_some());
    assert!(servers.get("unrelated-tool").is_some());
}

#[test]
fn remove_claude_project_entry_is_noop_when_file_absent() {
    let mut mcp = json("{}");
    assert!(!remove_mcp_server(&mut mcp, "any"));
    assert_eq!(mcp.to_text(), "{}");
}

#[test]
fn remove_claude_project_entry_is_noop_when_entry_absent() {
    let mut mcp =
        json("{\"mcpServers\": { \"unrelated-tool\": { \"command\": \"z\", \"args\": [] } }}");
    let original = mcp.to_text();
    assert!(!remove_mcp_server(&mut mcp, "missing-agent"));
    assert_eq!(mcp.to_text(), original);
}

#[test]
fn remove_gemini_mcp_entry_strips_only_target() {
    let mut settings = json(
        "{\"mcpServers\": {
            \"gosh-memory-target\": { \"command\": \"x\", \"args\": [] },
            \"gosh-memory-keepme\": { \"command\": \"y\", \"args\": [] },
            \"unrelated\":          { \"command\": \"z\", \"args\": [] }
        }}",
    );
    assert!(remove_mcp_server(&mut settings, "target"));
    let servers = settings.get("mcpServers").unwrap();
    assert!(servers.get("gosh-memory-target").is_none());
    assert!(servers.get("gosh-memory-keepme").is_some());
    assert!(servers.get("unrelated").is_some());
}

#[test]
fn setting_up_twice_changes_nothing() {
    let once = configure_codex_hooks(json("{}"), "alpha", "/bin/gosh-agent").unwrap();
    let first = once.to_text();
    let twice = configure_codex_hooks(once, "alpha", "/bin/gosh-agent").unwrap();
    assert_eq!(twice.to_text(), first);
    let entry = &twice.get("hooks").unwrap().get_array("Stop").unwrap()[0];
    assert_eq!(entry.get_str("matcher"), Some(""));
    assert_eq!(
        entry.get_array("hooks").unwrap()[0].get_str("command"),
        Some("/bin/gosh-agent capture --name alpha --platform codex --event response")
    );
}

#[test]
fn hooks_need_objects() {
    assert_eq!(
        configure_claude_hooks(FIRST, json("[]"), "a", "b").unwrap_err(),
        "settings.json root is not object"
    );
    assert_eq!(
        configure_gemini_hooks(json("{\"hooks\": 1}"), "a", "b").unwrap_err(),
        "hooks is not object"
    );
    // What is no list of hooks at all is replaced.
    assert!(configure_codex_hooks(json("[]"), "a", "b").is_ok());
    // A list of another form is left alone.
    let odd = configure_claude_hooks(FIRST, json("{\"hooks\": {\"Stop\": 1}}"), "a", "b").unwrap();
    assert_eq!(odd.get("hooks").unwrap().get("Stop").unwrap().as_u64(), Some(1));
}

#[test]
fn gemini_hooks_have_names() {
    let settings = configure_gemini_hooks(json("{}"), "alpha", "gosh").unwrap();
    let entry = &settings.get("hooks").unwrap().get_array("BeforeModel").unwrap()[0];
    assert_eq!(entry.get_str("matcher"), Some(".*"));
    assert_eq!(
        entry.get_array("hooks").unwrap()[0].get_str("name"),
        Some("gosh-prompt-alpha")
    );
    assert!(item_matches_agent(entry, "alpha"));
}

#[test]
fn memory_servers_are_added_under_their_name() {
    let mcp = add_mcp_server(json("{}"), "mcp.json", "alpha", "k", Some("team"), "gosh").unwrap();
    let server = mcp.get("mcpServers").unwrap().get("gosh-memory-alpha").unwrap();
    assert_eq!(server.get_str("command"), Some("gosh"));
    assert_eq!(server.get_array("args").unwrap().len(), 7);
    assert_eq!(
        add_mcp_server(json("1"), "mcp.json", "a", "k", None, "g").unwrap_err(),
        "mcp.json root is not object"
    );
    assert_eq!(
        add_mcp_server(json("{\"mcpServers\": []}"), "mcp.json", "a", "k", None, "g").unwrap_err(),
        "mcpServers not object"
    );
}

#[test]
fn proxy_args_name_a_swarm_only_where_there_is_one() {
    assert_eq!(
        build_mcp_proxy_args("alpha", "k", None),
        texts(&["mcp-proxy", "--name", "alpha", "--default-key", "k"])
    );
    assert_eq!(
        build_mcp_proxy_args("alpha", "k", Some("s")),
        texts(&["mcp-proxy", "--name", "alpha", "--default-key", "k", "--default-swarm", "s"])
    );
}

#[test]
fn platforms_are_checked_and_chosen() {
    assert!(check_platforms(FIRST, &texts(&["codex", "gemini"])).is_ok());
    assert_eq!(
        check_platforms(FIRST, &texts(&["codex", "vim"])).unwrap_err(),
        "unknown platform 'vim'. Valid values: acme, codex, gemini"
    );
    let found = detect_clis(FIRST, true, false, true);
    assert_eq!(found, texts(&[FIRST, "gemini"]));
    assert_eq!(select_platforms(&found, &[]), found);
    assert_eq!(select_platforms(&found, &texts(&["gemini", "codex"])), texts(&["gemini"]));
    assert_eq!(deselect_platforms(FIRST, &texts(&["gemini"])), texts(&[FIRST, "codex"]));
    assert!(deselect_platforms(FIRST, &[]).is_empty());
    assert!(root_refusal(FIRST, "/").contains("; Acme refuses to load `.mcp.json`\nfrom the root"));
    assert!(root_refusal(FIRST, "/").starts_with("refusing to run `agent setup` with cwd = `/` (filesystem root)."));
}

fn request<'a>(swarm_id: Option<&'a str>, no_swarm: bool) -> SetupRequest<'a> {
    SetupRequest {
        authority_url: None,
        token: Some("t"),
        principal_auth_token: None,
        key: "ns",
        swarm_id,
        no_swarm,
        host: None,
        port: None,
        watch: Some(true),
        watch_key: None,
        watch_swarm_id: None,
        watch_agent_id: None,
        watch_context_key: None,
        watch_budget: None,
        poll_interval: None,
        log_level: None,
        oauth_dcr_enabled: false,
    }
}

#[test]
fn setup_keeps_what_it_was_not_asked_for() {
    let mut config = fresh_config("id-1".to_string());
    assert_eq!(config.authority_url, "http://127.0.0.1:8765");
    assert!(config.oauth_dcr_enabled);
    assert!(config.watch_key.is_none() && config.watch_swarm_id.is_none());
    assert!(config.watch_agent_id.is_none() && config.watch_context_key.is_none());
    assert!(config.watch_budget.is_none() && config.poll_interval.is_none());
    config.swarm_id = Some("old".to_string());
    config.port = Some(9000);
    let config = apply_setup(config, &request(None, false));
    assert_eq!(config.install_id, "id-1");
    assert_eq!(config.token.as_deref(), Some("t"));
    assert_eq!(config.key.as_deref(), Some("ns"));
    assert_eq!(config.swarm_id.as_deref(), Some("old"));
    assert_eq!(config.port, Some(9000));
    assert!(config.watch);
    assert!(!config.oauth_dcr_enabled);
    let config = apply_setup(config, &request(Some("new"), false));
    assert_eq!(config.swarm_id.as_deref(), Some("new"));
    let config = apply_setup(config, &request(None, true));
    assert_eq!(config.swarm_id, None);
}
