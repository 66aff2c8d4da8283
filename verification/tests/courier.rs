use gosh_agent::courier::{
    classify_sse_event, process_lines, start_args, CourierListener, DispatchDecision,
};
use gosh_agent::json::Json;
use gosh_agent::sandbox::{
    check_workspace, enable, enable_sandbox, readable_paths, writable_paths, SandboxAction,
    SandboxStatus, StepOutcome, WorkspaceCheck,
};

fn json(text: &str) -> Json {
    Json::parse(text).expect("a JSON text")
}

#[test]
fn classify_sse_event_accepts_connected_handshake() {
    let decision = classify_sse_event(
        "{\"type\": \"connected\", \"connection_id\": \"conn-1\"}",
        "planner",
    );
    assert!(matches!(decision, DispatchDecision::Connected(id) if id == "conn-1"));
}

#[test]
fn classify_sse_event_rejects_non_task_artifact() {
    let decision = classify_sse_event(
        "{\"type\": \"artifact\", \"payload\": {\"id\": \"note-1\", \"kind\": \"note\", \"target\": [\"agent:planner\"]}}",
        "planner",
    );
    assert!(matches!(decision, DispatchDecision::Ignore));
}

#[test]
fn classify_sse_event_rejects_wrong_target() {
    let decision = classify_sse_event(
        "{\"type\": \"artifact\", \"payload\": {\"id\": \"task-1\", \"kind\": \"task\", \"target\": [\"agent:other\"]}}",
        "planner",
    );
    assert!(matches!(decision, DispatchDecision::Ignore));
}

#[test]
fn classify_sse_event_accepts_task_for_target_agent() {
    let decision = classify_sse_event(
        "{\"type\": \"artifact\", \"payload\": {\"id\": \"task-1\", \"kind\": \"task\", \"target\": [\"agent:planner\"]}}",
        "planner",
    );
    assert!(matches!(decision, DispatchDecision::StartTask(id) if id == "task-1"));
}

#[test]
fn classify_sse_event_ignores_malformed_json() {
    let decision = classify_sse_event("{not-json", "planner");
    assert!(matches!(decision, DispatchDecision::Ignore));
}

#[test]
fn classify_sse_event_ignores_result_artifacts() {
    let decision = classify_sse_event(
        "{\"type\": \"artifact\", \"payload\": {\"id\": \"result-1\", \"kind\": \"task_result\", \"target\": [\"agent:planner\"]}}",
        "planner",
    );
    assert!(matches!(decision, DispatchDecision::Ignore));
}

#[test]
fn streams_announce_the_same_however_they_are_cut() {
    let stream = "event: x\ndata: one\r\n\ndata: two\ndata: thr";
    let mut whole = stream.to_string();
    let all = process_lines(&mut whole);
    assert_eq!(all, vec!["one".to_string(), "two".to_string()]);
    assert_eq!(whole, "data: thr");
    for cut in 0..stream.len() {
        let mut buffer = stream[..cut].to_string();
        let mut heard = process_lines(&mut buffer);
        buffer.push_str(&stream[cut..]);
        heard.extend(process_lines(&mut buffer));
        assert_eq!(heard, all);
        assert_eq!(buffer, whole);
    }
}

#[test]
fn agents_subscribe_once() {
    let mut listener = CourierListener::new("http://m:8765/mcp/");
    assert_eq!(listener.begin().unwrap(), "http://m:8765/mcp/sse");
    let params = CourierListener::subscription("k", "planner", "s", "conn-1".to_string());
    let filter = params.filter.as_ref().unwrap();
    assert_eq!(filter.get_str("kind"), Some("task"));
    assert_eq!(filter.get_str("target"), Some("agent:planner"));
    assert_eq!(
        listener.on_subscribed(&json("{\"sub_id\": \"\"}")).unwrap_err(),
        "courier_subscribe returned no sub_id"
    );
    assert!(!listener.is_subscribed());
    assert_eq!(listener.on_subscribed(&json("{\"sub_id\": \"sub-1\"}")).unwrap(), "sub-1");
    assert!(listener.is_subscribed());
    assert_eq!(listener.begin().unwrap_err(), "already subscribed");
    assert_eq!(listener.unsubscribe().as_deref(), Some("sub-1"));
    assert_eq!(listener.unsubscribe(), None);
    let args = start_args("a", "s", "k", "t", json("10.0"));
    assert_eq!(args.get_str("task_id"), Some("t"));
    assert_eq!(args.get("budget_shell").unwrap().to_text(), "10.0");
}

fn status(action: SandboxAction) -> SandboxStatus {
    match action {
        SandboxAction::Finish(status) => status,
        other => panic!("unexpected {other:?}"),
    }
}

#[test]
fn sandbox_rules_come_before_restriction() {
    let rw = vec!["/rw".to_string()];
    let ro = vec!["/ro".to_string()];
    assert!(matches!(
        status(enable_sandbox(false, &rw, &ro)),
        SandboxStatus::NotAvailable
    ));
    assert!(matches!(enable_sandbox(true, &rw, &ro), SandboxAction::Create));
    assert!(matches!(
        enable(&rw, &ro, 0, StepOutcome::Done),
        SandboxAction::Allow { path, write: true } if path == "/rw"
    ));
    assert!(matches!(
        enable(&rw, &ro, 1, StepOutcome::Done),
        SandboxAction::Allow { path, write: false } if path == "/ro"
    ));
    assert!(matches!(enable(&rw, &ro, 2, StepOutcome::Done), SandboxAction::Restrict));
    assert!(matches!(status(enable(&rw, &ro, 3, StepOutcome::Enforced)), SandboxStatus::Active));
    assert!(matches!(
        status(enable(&rw, &ro, 3, StepOutcome::NotEnforced)),
        SandboxStatus::NotAvailable
    ));
    for (n, outcome, message) in [
        (0, StepOutcome::Refused("e".to_string()), "create ruleset: e"),
        (1, StepOutcome::PathFailed("e".to_string()), "rw path /rw: e"),
        (1, StepOutcome::Refused("e".to_string()), "rw rule /rw: e"),
        (2, StepOutcome::PathFailed("e".to_string()), "ro path /ro: e"),
        (2, StepOutcome::Refused("e".to_string()), "ro rule /ro: e"),
        (3, StepOutcome::Refused("e".to_string()), "restrict_self: e"),
    ] {
        match status(enable(&rw, &ro, n, outcome)) {
            SandboxStatus::Failed(e) => assert_eq!(e, message),
            other => panic!("unexpected {other:?}"),
        }
    }
}

#[test]
fn agents_may_write_their_own_state_and_workspaces() {
    let rw = writable_paths("/h", None, &["/w".to_string()]);
    assert_eq!(rw, vec!["/h/.gosh/agent/state", "/h/.cache/gosh-agent", "/tmp", "/w"]);
    assert_eq!(writable_paths("/h", Some("/c"), &[])[1], "/c/gosh-agent");
    let ro = readable_paths("/h");
    assert_eq!(ro, vec!["/usr", "/etc", "/lib", "/lib64", "/h/.gosh/agent/instances"]);
    assert!(matches!(check_workspace("", false, None), WorkspaceCheck::Skip));
    assert!(matches!(
        check_workspace("/w", true, Some("/real".to_string())),
        WorkspaceCheck::Allow(p) if p == "/real"
    ));
    assert!(matches!(check_workspace("/w", false, None), WorkspaceCheck::Refuse(_)));
    assert!(matches!(check_workspace("/w", true, None), WorkspaceCheck::Refuse(_)));
}
