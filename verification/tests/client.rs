use gosh_agent::client::mcp::{
    call_tool_body, call_tool_outcome, initialize_body, initialize_outcome, list_tools_outcome,
};
use gosh_agent::client::memory::{MemoryStoreParams, RecallParams, StoreParams};
use gosh_agent::client::memory_inject::{
    is_memory_tool_name, set_default_key_if_absent, set_default_swarm_id_if_absent,
};
use gosh_agent::client::secrets::{describe_failure, resolve_body, resolve_url, SecretRef, SecretStep};
use gosh_agent::client::transport::{
    canonical_mcp_url, extract_sse_response, parse_sse_response, HttpTransport,
};
use gosh_agent::json::Json;

fn json(text: &str) -> Json {
    Json::parse(text).expect("a JSON text")
}

fn same_json(value: &Json, text: &str) {
    let left: serde_json::Value = serde_json::from_str(&value.to_text()).unwrap();
    let right: serde_json::Value = serde_json::from_str(text).unwrap();
    assert_eq!(left, right);
}

#[test]
fn is_memory_tool_name_matches_memory_prefix_only() {
    assert!(is_memory_tool_name("memory_recall"));
    assert!(is_memory_tool_name("memory_write"));
    assert!(is_memory_tool_name("memory_anything_at_all"));
    assert!(!is_memory_tool_name("agent_create_task"));
    assert!(!is_memory_tool_name("auth_login"));
    assert!(!is_memory_tool_name("courier_subscribe"));
    assert!(!is_memory_tool_name(""));
}

#[test]
fn set_default_key_if_absent_does_not_overwrite_existing() {
    let mut args = json("{ \"key\": \"caller-supplied\", \"query\": \"x\" }");

    set_default_key_if_absent(&mut args, "fallback");

    assert_eq!(args.get_str("key"), Some("caller-supplied"));
}

#[test]
fn set_default_key_if_absent_inserts_when_caller_omits() {
    let mut args = json("{ \"query\": \"x\" }");

    set_default_key_if_absent(&mut args, "fallback");

    assert_eq!(args.get_str("key"), Some("fallback"));
}

#[test]
fn set_default_swarm_id_if_absent_does_not_overwrite_existing() {
    let mut args = json("{ \"swarm_id\": \"caller-supplied\", \"query\": \"x\" }");

    set_default_swarm_id_if_absent(&mut args, "fallback");

    assert_eq!(args.get_str("swarm_id"), Some("caller-supplied"));
}

#[test]
fn set_default_swarm_id_if_absent_inserts_when_caller_omits() {
    let mut args = json("{ \"query\": \"x\" }");

    set_default_swarm_id_if_absent(&mut args, "fallback");

    assert_eq!(args.get_str("swarm_id"), Some("fallback"));
}

#[test]
fn set_default_helpers_no_op_on_non_object_args() {
    let mut args = json("[1, 2, 3]");
    set_default_key_if_absent(&mut args, "fallback");
    set_default_swarm_id_if_absent(&mut args, "fallback");
    same_json(&args, "[1, 2, 3]");

    let mut args = Json::Null;
    set_default_key_if_absent(&mut args, "fallback");
    assert!(matches!(args, Json::Null));
}

#[test]
fn canonical_mcp_url_normalises_trailing_variants() {
    let canonical = "http://localhost:8765/mcp";
    for input in [
        "http://localhost:8765",
        "http://localhost:8765/",
        "http://localhost:8765/mcp",
        "http://localhost:8765/mcp/",
    ] {
        assert_eq!(canonical_mcp_url(input), canonical, "input was {input:?}");
    }
}

#[test]
fn canonical_mcp_url_preserves_subpath_mounts() {
    assert_eq!(
        canonical_mcp_url("https://example.com/memory"),
        "https://example.com/memory/mcp",
    );
    assert_eq!(
        canonical_mcp_url("https://example.com/memory/"),
        "https://example.com/memory/mcp",
    );
    assert_eq!(
        canonical_mcp_url("https://example.com/memory/mcp"),
        "https://example.com/memory/mcp",
    );
}

#[test]
fn http_transport_endpoint_is_canonical_for_every_input_shape() {
    for input in [
        "http://localhost:8765",
        "http://localhost:8765/",
        "http://localhost:8765/mcp",
        "http://localhost:8765/mcp/",
        "https://example.com/memory/mcp",
    ] {
        let t = HttpTransport::new(input, None, None);
        assert!(
            t.mcp_endpoint().ends_with("/mcp"),
            "endpoint should end in /mcp, got {} from {input:?}",
            t.mcp_endpoint(),
        );
        assert!(
            !t.mcp_endpoint().ends_with("/mcp/mcp"),
            "endpoint must not double up, got {} from {input:?}",
            t.mcp_endpoint(),
        );
        assert_eq!(t.mcp_endpoint(), canonical_mcp_url(input));
    }
}

#[test]
fn extract_sse_response_reads_first_complete_event_from_partial_stream() {
    let partial = "event: message\ndata: {\"jsonrpc\":\"2.0\"";
    assert!(extract_sse_response(partial).is_none());

    let complete = format!("{partial},\"id\":1,\"result\":{{\"ok\":true}}}}\n\n");
    let parsed = extract_sse_response(&complete).expect("expected parsed event");
    same_json(&parsed, "{\"jsonrpc\": \"2.0\", \"id\": 1, \"result\": {\"ok\": true}}");
}

#[test]
fn parse_sse_response_ignores_non_json_data_lines() {
    let body = "event: ping\ndata: not-json\n\ndata: {\"jsonrpc\":\"2.0\",\"id\":2,\"result\":{\"value\":1}}\n\n";
    let parsed = parse_sse_response(body).expect("expected parsed event");
    assert_eq!(parsed.get("id").and_then(|v| v.as_u64()), Some(2));
    assert_eq!(
        parsed.get("result").and_then(|r| r.get("value")).and_then(|v| v.as_u64()),
        Some(1)
    );
}

#[test]
fn sse_without_a_reply_is_an_error() {
    assert!(parse_sse_response("event: ping\n\n").is_err());
}

#[test]
fn transport_headers_carry_tokens_and_session() {
    let t = HttpTransport::new("http://h", Some("srv".to_string()), Some("prin".to_string()));
    let with = t.headers(Some("sess"));
    assert!(with.iter().any(|(_, v)| v.contains("srv")));
    assert!(with.iter().any(|(_, v)| v.contains("prin")));
    assert!(with.iter().any(|(_, v)| v == "sess"));
    let without = HttpTransport::new("http://h", None, None).headers(None);
    assert!(without.len() < with.len());
}

#[test]
fn initialize_names_the_client() {
    let body = initialize_body("gosh-agent", "0.8.0");
    assert_eq!(body.get_str("method"), Some("initialize"));
    let info = body.get("params").and_then(|p| p.get("clientInfo")).expect("client info");
    assert_eq!(info.get_str("name"), Some("gosh-agent"));
    assert_eq!(info.get_str("version"), Some("0.8.0"));
    assert!(initialize_outcome(&json("{\"result\": {}}"), Some("s-1".to_string())).is_ok());
}

#[test]
fn call_tool_unwraps_text_content() {
    let body = call_tool_body("memory_recall", json("{\"query\": \"q\"}"));
    let params = body.get("params").expect("params");
    assert_eq!(params.get_str("name"), Some("memory_recall"));
    let reply = json(
        "{\"result\": {\"content\": [{\"type\": \"text\", \"text\": \"{\\\"stored\\\": true}\"}], \"isError\": false}}",
    );
    let value = call_tool_outcome("memory_store", &reply).unwrap();
    assert_eq!(value.get("stored").and_then(|v| v.as_bool()), Some(true));
    let failed = json("{\"error\": {\"code\": -1, \"message\": \"no\"}}");
    assert!(call_tool_outcome("memory_store", &failed).is_err());
    assert!(list_tools_outcome(&failed).is_err());
}

#[test]
fn memory_parameters_are_written_out() {
    let recall = RecallParams {
        key: "k".to_string(),
        agent_id: "a".to_string(),
        swarm_id: "s".to_string(),
        query: "q".to_string(),
        token_budget: 4000,
    };
    same_json(
        &recall.to_json(),
        "{\"key\":\"k\",\"agent_id\":\"a\",\"swarm_id\":\"s\",\"query\":\"q\",\"token_budget\":4000}",
    );
    let store = StoreParams {
        key: "k".to_string(),
        agent_id: "a".to_string(),
        swarm_id: "s".to_string(),
        content: "c".to_string(),
        scope: "agent-private".to_string(),
        content_type: "text".to_string(),
        session_num: 1,
        session_date: "2026-01-01".to_string(),
        speakers: "".to_string(),
        metadata: None,
        target: Some(vec!["agent:a".to_string()]),
    };
    same_json(
        &store.to_json(),
        "{\"key\":\"k\",\"agent_id\":\"a\",\"swarm_id\":\"s\",\"content\":\"c\",\"scope\":\"agent-private\",\"content_type\":\"text\",\"session_num\":1,\"session_date\":\"2026-01-01\",\"speakers\":\"\",\"target\":[\"agent:a\"]}",
    );
    let fact = MemoryStoreParams {
        key: "k".to_string(),
        agent_id: "a".to_string(),
        swarm_id: "s".to_string(),
        fact: "f".to_string(),
        kind: "note".to_string(),
        target: None,
        metadata: Some(json("{\"x\": 1}")),
    };
    same_json(
        &fact.to_json(),
        "{\"key\":\"k\",\"agent_id\":\"a\",\"swarm_id\":\"s\",\"fact\":\"f\",\"kind\":\"note\",\"metadata\":{\"x\":1}}",
    );
}

#[test]
fn secrets_are_asked_for_at_their_endpoint() {
    assert_eq!(resolve_url("http://m/"), "http://m/api/v1/agent/secrets/resolve");
    let wanted = SecretRef {
        name: "openai".to_string(),
        scope: "agent-private".to_string(),
        swarm_id: None,
    };
    assert_eq!(
        describe_failure(&wanted, SecretStep::Resolving),
        "resolving secret 'openai' (scope=agent-private)"
    );
    assert_eq!(
        describe_failure(&wanted, SecretStep::Empty),
        "secret 'openai' (scope=agent-private) resolved but returned no data"
    );
    assert_eq!(describe_failure(&wanted, SecretStep::Decrypting), "decrypting secret 'openai'");
    let body = resolve_body("ns", &[wanted]);
    assert_eq!(body.get_str("key"), Some("ns"));
    let refs = body.get_array("refs").expect("refs");
    assert_eq!(refs.len(), 1);
    assert_eq!(refs[0].get_str("name"), Some("openai"));
}
