use gosh_agent::codec::short_hash;
use gosh_agent::json::Json;
use gosh_agent::plugin::autostart::{
    launchd_label, launchd_plist_path, launchd_user_domain, linger_enabled, render_launchd_plist,
    render_systemd_unit, systemd_unit_name, systemd_unit_path, uninstall, Supervisor,
};
use gosh_agent::plugin::buffer::{buffer_file, is_full, pending, truncate_buffer, Replay};
use gosh_agent::plugin::capture::{
    build_write_payload, deterministic_id, endpoint, next_turn, on_written, saves_after_failure,
    WritePayloadParams,
};
use gosh_agent::plugin::config::{
    find_git_root, find_project_key, git_remote_url, resolve_key, LogLevel, ProjectConfig,
};
use gosh_agent::plugin::offset::{offset_path, SessionOffset};
use gosh_agent::plugin::platform::transcript::diff_transcript;
use gosh_agent::plugin::platform::{extract, reads_again, ExtractStep, Form};
use gosh_agent::plugin::proxy::{
    daemon_url, detect_framing, frame_response, is_notification, make_error_response,
    newline_message, parse_error, relay, resolve_daemon_endpoint, session_output_framing,
    ConfiguredEndpoint, DaemonReply, Framing, HeaderStep, Headers,
};

/// What Anthropic's coding CLI and models go by.
const BRAND: &str = "acme";

fn json(text: &str) -> Json {
    Json::parse(text).expect("a JSON text")
}

#[test]
fn log_level_parses_case_insensitively() {
    assert_eq!("debug".parse::<LogLevel>().unwrap(), LogLevel::Debug);
    assert_eq!("WARN".parse::<LogLevel>().unwrap(), LogLevel::Warn);
    assert!("verbose".parse::<LogLevel>().is_err());
}

#[test]
fn log_level_names_parse_back() {
    for level in
        [LogLevel::Error, LogLevel::Warn, LogLevel::Info, LogLevel::Debug, LogLevel::Trace]
    {
        assert_eq!(LogLevel::parse(level.as_str()), Ok(level));
    }
}

#[test]
fn test_short_hash_deterministic() {
    let a = short_hash("https://github.com/example/repo.git");
    let b = short_hash("https://github.com/example/repo.git");
    assert_eq!(a, b);
    assert_eq!(a.len(), 32);
}

#[test]
fn test_short_hash_different_inputs() {
    assert_ne!(short_hash("repo-a"), short_hash("repo-b"));
}

#[test]
fn short_hash_is_the_start_of_sha256() {
    assert_eq!(short_hash("abc"), "ba7816bf8f01cfea414140de5dae2223");
}

#[test]
fn test_find_project_key_in_tempdir() {
    assert!(find_project_key(&[None, None]).is_none());
    let found = [None, Some(ProjectConfig { key: "test-project".to_string() })];
    assert_eq!(find_project_key(&found).as_deref(), Some("test-project"));
}

#[test]
fn keys_come_from_project_then_remote_then_place() {
    assert_eq!(resolve_key(Some("p"), Some("/r"), Some("u")).unwrap(), "p");
    assert_eq!(resolve_key(None, Some("/r"), Some("u")).unwrap(), short_hash("u"));
    assert_eq!(resolve_key(None, Some("/r"), None).unwrap(), short_hash("/r"));
    assert!(resolve_key(None, None, None).unwrap_err().contains("gosh-agent setup"));
    assert_eq!(git_remote_url(true, " u \n").as_deref(), Some("u"));
    assert_eq!(git_remote_url(false, "u"), None);
    let dirs = [("/a/b".to_string(), false), ("/a".to_string(), true)];
    assert_eq!(find_git_root(&dirs).as_deref(), Some("/a"));
}

// ── autostart ──

#[test]
fn launchd_plist_label_and_path_track_agent_name() {
    let label = launchd_label("alpha");
    assert_eq!(label, "com.gosh.agent.alpha");

    let path = launchd_plist_path(Some("/home/u"), "alpha");
    assert!(path.ends_with("Library/LaunchAgents/com.gosh.agent.alpha.plist"));
}

#[test]
fn render_launchd_plist_contains_serve_name() {
    let xml = render_launchd_plist(
        "com.gosh.agent.alpha",
        "/usr/local/bin/gosh-agent",
        "alpha",
        "/tmp/out.log",
        "/tmp/err.log",
    );
    assert!(xml.contains("<string>com.gosh.agent.alpha</string>"));
    assert!(xml.contains("<string>/usr/local/bin/gosh-agent</string>"));
    assert!(xml.contains("<string>serve</string>"));
    assert!(xml.contains("<string>--name</string>"));
    assert!(xml.contains("<string>alpha</string>"));
    assert!(xml.contains("<string>/tmp/out.log</string>"));
}

#[test]
fn launchd_plist_escapes_markup() {
    let xml = render_launchd_plist("l", "/a&b<c", "n", "o", "e");
    assert!(xml.contains("<string>/a&amp;b&lt;c</string>"));
}

#[test]
fn systemd_unit_name_and_path_track_agent_name() {
    assert_eq!(systemd_unit_name("alpha"), "gosh-agent-alpha.service");
    let path = systemd_unit_path(Some("/home/u"), "alpha");
    assert!(path.ends_with(".config/systemd/user/gosh-agent-alpha.service"));
}

#[test]
fn render_systemd_unit_contains_serve_name() {
    let unit = render_systemd_unit("/usr/local/bin/gosh-agent", "alpha");
    assert!(unit.contains("ExecStart=/usr/local/bin/gosh-agent serve --name alpha"));
    assert!(unit.contains("Description=GOSH Agent (instance: alpha)"));
}

#[test]
fn linger_is_off_only_where_it_is_said() {
    assert!(!linger_enabled("u", Some("Linger=no\n")));
    assert!(linger_enabled("u", Some("Linger=yes\n")));
    assert!(linger_enabled("u", None));
    assert!(linger_enabled("", Some("Linger=no\n")));
    assert_eq!(launchd_user_domain("501\n").unwrap(), "gui/501");
    assert!(launchd_user_domain(" \n").is_err());
}

#[test]
fn nothing_is_uninstalled_that_is_not_there() {
    assert!(uninstall(Supervisor::Systemd, "/u".to_string(), false, "a").is_none());
    assert!(uninstall(Supervisor::Unsupported, "/u".to_string(), true, "a").is_none());
    let removal = uninstall(Supervisor::Systemd, "/u".to_string(), true, "a").unwrap();
    assert_eq!(removal.path, "/u");
    assert_eq!(removal.unit.as_deref(), Some("gosh-agent-a.service"));
    assert!(uninstall(Supervisor::Launchd, "/p".to_string(), true, "a").unwrap().unit.is_none());
}

// ── buffer and offsets ──

#[test]
fn test_different_agents_have_separate_buffer_paths() {
    let path_a = buffer_file(Some("/home/u"), "alpha");
    let path_b = buffer_file(Some("/home/u"), "beta");

    assert_ne!(path_a, path_b);
    assert!(path_a.contains("/state/alpha/"));
    assert!(path_b.contains("/state/beta/"));
}

#[test]
fn test_different_agents_have_separate_offset_paths() {
    let path_a = offset_path(Some("/home/u"), "alpha", "sess-1");
    let path_b = offset_path(Some("/home/u"), "beta", "sess-1");

    assert_ne!(path_a, path_b);
    assert!(path_a.contains("/state/alpha/"));
    assert!(path_b.contains("/state/beta/"));
}

#[test]
fn session_ids_are_safe_in_paths() {
    let path = offset_path(Some("/home/u"), "a", "../é x");
    assert!(path.ends_with("/offsets/___é_x.json"));
}

#[test]
fn buffers_shrink_to_their_newer_half() {
    let few: String = (0..500).map(|i| format!("{i}\n")).collect();
    assert!(truncate_buffer(&few).is_none());
    let many: String = (0..501).map(|i| format!("{i}\n")).collect();
    let kept = truncate_buffer(&many).unwrap();
    assert!(kept.starts_with("250\n"));
    assert!(kept.ends_with("\n500\n"));
    assert!(is_full(104_857_600));
    assert!(!is_full(104_857_599));
}

#[test]
fn failed_writes_stay_in_the_buffer() {
    let mut replay = Replay::new();
    assert!(replay.finish().is_none());
    for (i, line) in pending("a\n\nb\nc\n").into_iter().enumerate() {
        replay.on_sent(line, i == 1);
    }
    assert_eq!(replay.succeeded, 1);
    let left = replay.finish().unwrap();
    assert_eq!(left, "a\nc\n");
    assert_eq!(pending(&left), vec!["a".to_string(), "c".to_string()]);
}

// ── capture ──

#[test]
fn test_deterministic_id_stable() {
    let a = deterministic_id("session-abc", 1, "prompt");
    let b = deterministic_id("session-abc", 1, "prompt");
    assert_eq!(a, b);
    assert_eq!(a.len(), 32);
}

#[test]
fn test_deterministic_id_varies() {
    let prompt = deterministic_id("s", 1, "prompt");
    let response = deterministic_id("s", 1, "response");
    assert_ne!(prompt, response);
}

#[test]
fn payload_swarm_shared_when_swarm_configured() {
    let payload = build_write_payload(&WritePayloadParams {
        key: "ns",
        message_id: "msg-1",
        timestamp_ms: 1000,
        content: "hello",
        session_id: "sess-1",
        agent_id: "my-agent",
        swarm_id: Some("team-alpha"),
        event: "prompt",
        turn_number: 1,
        platform_name: BRAND,
    });
    assert_eq!(payload.get_str("scope"), Some("swarm-shared"));
    assert_eq!(payload.get_str("swarm_id"), Some("team-alpha"));
    assert_eq!(payload.get_str("agent_id"), Some("my-agent"));
    assert!(!payload.get_str("agent_id").unwrap().contains(':'));
}

#[test]
fn payload_agent_private_when_no_swarm() {
    let payload = build_write_payload(&WritePayloadParams {
        key: "ns",
        message_id: "msg-1",
        timestamp_ms: 1000,
        content: "hello",
        session_id: "sess-1",
        agent_id: "my-agent",
        swarm_id: None,
        event: "response",
        turn_number: 2,
        platform_name: "codex",
    });
    assert_eq!(payload.get_str("scope"), Some("agent-private"));
    assert!(payload.get("swarm_id").is_none());
    assert_eq!(payload.get_str("agent_id"), Some("my-agent"));
}

#[test]
fn payload_metadata_role_matches_event() {
    let prompt = build_write_payload(&WritePayloadParams {
        key: "ns",
        message_id: "msg-1",
        timestamp_ms: 1000,
        content: "hi",
        session_id: "s",
        agent_id: "a",
        swarm_id: None,
        event: "prompt",
        turn_number: 1,
        platform_name: BRAND,
    });
    let response = build_write_payload(&WritePayloadParams {
        key: "ns",
        message_id: "msg-2",
        timestamp_ms: 1000,
        content: "ok",
        session_id: "s",
        agent_id: "a",
        swarm_id: None,
        event: "response",
        turn_number: 1,
        platform_name: BRAND,
    });
    assert_eq!(prompt.get("metadata").unwrap().get_str("role"), Some("user"));
    assert_eq!(response.get("metadata").unwrap().get_str("role"), Some("assistant"));
}

#[test]
fn prompts_start_turns() {
    let mut offset = SessionOffset::default();
    assert_eq!(next_turn(&mut offset, "prompt"), 1);
    assert_eq!(next_turn(&mut offset, "response"), 1);
    assert_eq!(next_turn(&mut offset, "prompt"), 2);
    let after = on_written(offset, "response", Some(77));
    assert_eq!(after.byte_offset, 77);
    assert_eq!(after.turn_count, 2);
    assert_eq!(on_written(offset, "prompt", Some(77)).byte_offset, 0);
    assert!(saves_after_failure("prompt"));
    assert!(!saves_after_failure("response"));
    assert_eq!(endpoint("http://h//"), "http://h");
}

// ── platforms ──

#[test]
fn diff_transcript_extracts_current_claude_code_assistant_shape() {
    let transcript = "{\"type\": \"assistant\", \"message\": {\"role\": \"assistant\", \"content\": [{\"type\": \"text\", \"text\": \"248911, 248912.\"}]}}\n";
    let text = diff_transcript(Form::Claude, transcript.as_bytes(), 0);
    assert_eq!(text, "248911, 248912.");
}

#[test]
fn diff_transcript_extracts_legacy_top_level_role_assistant_shape() {
    let transcript = "{\"role\": \"assistant\", \"content\": [{\"type\": \"text\", \"text\": \"legacy response\"}]}\n";
    let text = diff_transcript(Form::Claude, transcript.as_bytes(), 0);
    assert_eq!(text, "legacy response");
}

#[test]
fn transcripts_are_read_from_where_they_were_left() {
    let first = "{\"role\": \"assistant\", \"content\": \"one\"}\n";
    let second = "not json\n\n{\"role\": \"user\", \"content\": \"no\"}\n{\"role\": \"assistant\", \"content\": [{\"type\": \"text\", \"text\": \"two\"}, {\"type\": \"tool\"}, {\"type\": \"text\", \"text\": \"three\"}]}\n";
    let all = format!("{first}{second}");
    assert_eq!(diff_transcript(Form::Codex, all.as_bytes(), 0), "one\ntwo\nthree");
    assert_eq!(
        diff_transcript(Form::Codex, all.as_bytes(), first.len() as u64),
        "two\nthree"
    );
    let rest = diff_transcript(Form::Codex, all.as_bytes(), all.len() as u64);
    assert!(reads_again(&rest));
    let lossy = b"{\"role\": \"assistant\", \"content\": \"a\xffb\"}\n";
    assert_eq!(diff_transcript(Form::Codex, lossy, 0), "a\u{fffd}b");
}

#[test]
fn hooks_tell_prompts_and_transcripts() {
    let prompt = json("{\"session_id\": \"s\", \"prompt\": \"p\", \"transcript_path\": \"/t\"}");
    match extract(BRAND, "codex", "prompt", &prompt) {
        ExtractStep::Ready(c) => {
            assert_eq!(c.session_id, "s");
            assert_eq!(c.content, "p");
            assert_eq!(c.transcript_path.as_deref(), Some("/t"));
        }
        other => panic!("unexpected {other:?}"),
    }
    match extract(BRAND, BRAND, "response", &prompt) {
        ExtractStep::Read { session_id, transcript_path, form } => {
            assert_eq!(session_id, "s");
            assert_eq!(transcript_path, "/t");
            assert_eq!(form, Form::Claude);
        }
        other => panic!("unexpected {other:?}"),
    }
    for (platform, event, input, message) in [
        ("codex", "prompt", "{}", "missing session_id"),
        ("codex", "prompt", "{\"session_id\": \"s\"}", "missing prompt"),
        ("codex", "response", "{\"session_id\": \"s\"}", "missing transcript_path"),
        ("codex", "other", "{}", "unknown event for codex: other"),
        ("vim", "prompt", "{}", "unknown platform: vim"),
    ] {
        match extract(BRAND, platform, event, &json(input)) {
            ExtractStep::Failed(e) => assert_eq!(e, message),
            other => panic!("unexpected {other:?}"),
        }
    }
}

fn gemini(event: &str, input: &str) -> (String, String) {
    match extract(BRAND, "gemini", event, &json(input)) {
        ExtractStep::Ready(c) => (c.session_id, c.content),
        other => panic!("unexpected {other:?}"),
    }
}

#[test]
fn gemini_hooks_tell_their_text_in_several_forms() {
    assert_eq!(gemini("prompt", "{\"session_id\": \"s\", \"prompt\": \"p\"}").0, "s");
    let contents = "{\"contents\": [{\"role\": \"user\", \"parts\": [{\"text\": \"old\"}]}, {\"role\": \"user\", \"parts\": [{\"text\": \"a\"}, {\"text\": \"b\"}]}, {\"role\": \"model\", \"parts\": [{\"text\": \"m\"}]}]}";
    assert_eq!(gemini("prompt", contents), ("gemini-default".to_string(), "a\nb".to_string()));
    assert_eq!(gemini("prompt", "{\"x\":1}").1, "{\"x\":1}");
    assert_eq!(gemini("response", "{\"text\": \"t\"}").1, "t");
    let candidates = "{\"candidates\": [{\"content\": {\"parts\": [{\"text\": \"c\"}]}}, {\"content\": {\"parts\": []}}, {\"content\": \"d\"}]}";
    assert_eq!(gemini("response", candidates).1, "c\nd");
    assert_eq!(gemini("response", "{\"content\": \"e\"}").1, "e");
}

// ── proxy ──

#[test]
fn proxy_session_framing_sticks_to_first_content_length_message() {
    let mut session_framing = None;

    assert_eq!(
        session_output_framing(&mut session_framing, Framing::ContentLength),
        Framing::ContentLength
    );
    assert_eq!(
        session_output_framing(&mut session_framing, Framing::Newline),
        Framing::ContentLength
    );
}

#[test]
fn proxy_session_framing_sticks_to_first_newline_message() {
    let mut session_framing = None;

    assert_eq!(
        session_output_framing(&mut session_framing, Framing::Newline),
        Framing::Newline
    );
    assert_eq!(
        session_output_framing(&mut session_framing, Framing::ContentLength),
        Framing::Newline
    );
}

#[test]
fn framing_shows_in_the_first_bytes() {
    assert_eq!(detect_framing(b"Content-Length: 5\r\n"), Framing::ContentLength);
    assert_eq!(detect_framing(b"content-length: 5\r\n"), Framing::ContentLength);
    assert_eq!(detect_framing(b"{\"jsonrpc\""), Framing::Newline);
    assert_eq!(detect_framing(b""), Framing::Newline);
}

#[test]
fn written_lengths_are_read_back() {
    let framed = frame_response("{\"é\":1}", Framing::ContentLength);
    assert_eq!(framed, "Content-Length: 8\r\n\r\n{\"é\":1}");
    let mut headers = Headers::new();
    assert_eq!(headers.on_line("Content-Length: 8\r\n"), HeaderStep::More);
    assert_eq!(headers.on_line("X-Other: 1\r\n"), HeaderStep::More);
    assert_eq!(headers.on_line("\r\n"), HeaderStep::Body(8));
    assert_eq!(
        Headers::new().on_line("\r\n"),
        HeaderStep::Failed("missing Content-Length header")
    );
    assert_eq!(
        Headers::new().on_line("content-length: x\r\n"),
        HeaderStep::Failed("invalid Content-Length")
    );
    assert_eq!(frame_response("{}", Framing::Newline), "{}\n");
    assert_eq!(newline_message(" {} \n").as_deref(), Some("{}"));
    assert_eq!(newline_message(" \n"), None);
}

#[test]
fn endpoints_come_from_arguments_then_configuration() {
    let asked = resolve_daemon_endpoint("a", Some("0.0.0.0"), Some(1), None).unwrap();
    assert_eq!(asked, ("127.0.0.1".to_string(), 1));
    let configured = ConfiguredEndpoint { host: Some("::".to_string()), port: Some(9) };
    let found = resolve_daemon_endpoint("a", None, None, Some(configured)).unwrap();
    assert_eq!(found, ("[::1]".to_string(), 9));
    let empty = ConfiguredEndpoint { host: None, port: None };
    let default = resolve_daemon_endpoint("a", None, Some(2), Some(empty)).unwrap();
    assert_eq!(default, ("127.0.0.1".to_string(), 2));
    let missing = resolve_daemon_endpoint("alpha", Some("h"), None, None).unwrap_err();
    assert!(missing.contains("no GlobalConfig for agent 'alpha'"));
    assert_eq!(daemon_url("127.0.0.1", 8767), "http://127.0.0.1:8767/mcp");
}

#[test]
fn replies_are_relayed_or_reported() {
    let answer = relay(None, DaemonReply::Answer(json("{\"id\": 3}")));
    assert_eq!(answer.get("id").unwrap().as_u64(), Some(3));
    let status = relay(Some(json("7")), DaemonReply::Status("502 Bad Gateway".to_string()));
    assert_eq!(status.get("id").unwrap().as_u64(), Some(7));
    let error = status.get("error").unwrap();
    assert_eq!(error.get("code").unwrap().as_i64(), Some(-32603));
    assert_eq!(error.get_str("message"), Some("daemon returned HTTP 502 Bad Gateway"));
    let invalid = relay(None, DaemonReply::Invalid("eof".to_string()));
    assert_eq!(
        invalid.get("error").unwrap().get_str("message"),
        Some("invalid response from daemon: eof")
    );
    let gone = relay(
        None,
        DaemonReply::Unreachable { url: "http://h/mcp".to_string(), error: "refused".to_string() },
    );
    assert!(gone.get("error").unwrap().get_str("message").unwrap().starts_with(
        "agent daemon unreachable at http://h/mcp: refused. The daemon may not be running"
    ));
    assert!(matches!(make_error_response(None, 1, "m").get("id"), Some(Json::Null)));
    assert_eq!(
        parse_error("x").get("error").unwrap().get("code").unwrap().as_i64(),
        Some(-32700)
    );
    assert!(is_notification(&json("{\"method\": \"notifications/initialized\"}")));
    assert!(!is_notification(&json("{\"method\": \"tools/list\"}")));
}
