use gosh_agent::json::Json;
use gosh_agent::llm::anthropic;
use gosh_agent::llm::chat::{Message, ToolDef, Usage};
use gosh_agent::llm::local_cli::{
    check_workspace_dir, cli_outcome, configure_command, render_local_cli_prompt,
    resolve_local_cli_config, resolve_workspace_dir, LocalCliCommand, LocalCliConfig,
    LocalCliProvider, CLAUDE_STDIN_PROMPT,
};
use gosh_agent::llm::multi::{
    api_model_name, completion_body, parse_completion, route_for_model, secret_name_for_model,
    ApiRoute,
};

/// What Anthropic's coding CLI and models go by.
const BRAND: &str = "acme";

fn json(text: &str) -> Json {
    Json::parse(text).expect("a JSON text")
}

fn user(content: &str) -> Vec<Message> {
    vec![Message { role: "user".to_string(), content: content.to_string() }]
}

#[test]
fn route_for_model_matches_expected_provider_family() {
    assert_eq!(route_for_model("qwen/qwen3-32b", BRAND), ApiRoute::Groq);
    assert_eq!(route_for_model("anthropic/acme-sonnet-4-6", BRAND), ApiRoute::Anthropic);
    assert_eq!(route_for_model("acme-sonnet-4-6", BRAND), ApiRoute::Anthropic);
    assert_eq!(route_for_model("inception/mercury-2", BRAND), ApiRoute::Inception);
    assert_eq!(route_for_model("openai/gpt-4.1", BRAND), ApiRoute::OpenAi);
    assert_eq!(route_for_model("gpt-4.1", BRAND), ApiRoute::OpenAi);
}

#[test]
fn api_model_name_strips_only_provider_prefixes_that_require_it() {
    assert_eq!(
        api_model_name("anthropic/acme-sonnet-4-6", ApiRoute::Anthropic),
        "acme-sonnet-4-6"
    );
    assert_eq!(api_model_name("inception/mercury-2", ApiRoute::Inception), "mercury-2");
    assert_eq!(api_model_name("qwen/qwen3-32b", ApiRoute::Groq), "qwen/qwen3-32b");
    assert_eq!(api_model_name("openai/gpt-4.1", ApiRoute::OpenAi), "gpt-4.1");
    assert_eq!(api_model_name("gpt-4.1", ApiRoute::OpenAi), "gpt-4.1");
}

#[test]
fn anthropic_usage_with_cache_fields_populates_cache_usage() {
    let usage = anthropic::parse_usage(&json(
        "{\"usage\": {\"input_tokens\": 120, \"output_tokens\": 40, \"cache_read_input_tokens\": 80, \"cache_creation_input_tokens\": 20}}",
    ));
    assert_eq!(
        usage,
        Usage {
            input_tokens: 120,
            output_tokens: 40,
            reasoning_tokens: 0,
            cached_input_read_tokens: 80,
            cached_input_write_tokens: 20,
        }
    );
}

#[test]
fn anthropic_missing_extra_fields_default_to_zero() {
    let usage =
        anthropic::parse_usage(&json("{\"usage\": {\"input_tokens\": 10, \"output_tokens\": 5}}"));
    assert_eq!(
        usage,
        Usage {
            input_tokens: 10,
            output_tokens: 5,
            reasoning_tokens: 0,
            cached_input_read_tokens: 0,
            cached_input_write_tokens: 0,
        }
    );
}

#[test]
fn anthropic_answers_are_read() {
    let response = anthropic::parse_response(&json(
        "{\"content\": [{\"type\": \"text\", \"text\": \"hi\"}, {\"type\": \"tool_use\", \"id\": \"t1\", \"name\": \"memory_recall\", \"input\": {\"query\": \"q\"}}], \"stop_reason\": \"tool_use\"}",
    ));
    assert_eq!(response.text.as_deref(), Some("hi"));
    assert_eq!(response.tool_calls.len(), 1);
    assert_eq!(response.tool_calls[0].id, "t1");
    assert_eq!(response.tool_calls[0].input.to_text(), "{\"query\":\"q\"}");
    assert_eq!(response.stop_reason, "tool_use");
    let tools: Vec<ToolDef> = Vec::new();
    let body = anthropic::request_body("m", "sys", &user("hi"), &tools, 5);
    assert_eq!(body.get_str("model"), Some("m"));
    assert_eq!(body.get_str("system"), Some("sys"));
    assert_eq!(body.get("max_tokens").and_then(|v| v.as_u64()), Some(5));
}

#[test]
fn completions_are_read() {
    let response = parse_completion(&json(
        "{\"choices\": [{\"message\": {\"content\": \"hi\", \"tool_calls\": [{\"id\": \"c\", \"function\": {\"name\": \"f\", \"arguments\": \"{}\"}}]}, \"finish_reason\": \"stop\"}], \"usage\": {\"prompt_tokens\": 3, \"completion_tokens\": 4}}",
    ))
    .unwrap();
    assert_eq!(response.text.as_deref(), Some("hi"));
    assert_eq!(response.tool_calls[0].name, "f");
    assert_eq!(response.usage.input_tokens, 3);
    assert_eq!(response.usage.output_tokens, 4);
    assert!(parse_completion(&json("{\"choices\": []}")).is_err());
    assert_eq!(secret_name_for_model("qwen/qwen3-32b", BRAND), "groq");
    let tools: Vec<ToolDef> = Vec::new();
    let body = completion_body("m", "sys", &user("hi"), &tools, 5);
    assert_eq!(
        body.to_text(),
        "{\"max_tokens\":5,\"messages\":[{\"content\":\"sys\",\"role\":\"system\"},{\"content\":\"hi\",\"role\":\"user\"}],\"model\":\"m\",\"temperature\":0}"
    );
}

#[test]
fn render_local_cli_prompt_matches_memory_shape() {
    let messages = vec![Message { role: "user".to_string(), content: "hello".to_string() }];
    assert_eq!(render_local_cli_prompt("sys", &messages), "SYSTEM:\nsys\n\nUSER:\nhello");
}

#[test]
fn resolve_local_cli_config_accepts_case_insensitive_requested_provider() {
    let config = resolve_local_cli_config(
        Some("LOCAL-CLI/CoDeX"),
        Some("/tmp/workspace".to_string()),
        None,
        false,
        false,
        false,
        BRAND,
    )
    .unwrap();
    assert!(matches!(config.command, LocalCliCommand::Codex));
    assert_eq!(config.workspace_dir, Some("/tmp/workspace".to_string()));
}

#[test]
fn the_first_installed_coding_cli_is_chosen() {
    let of = |env, claude, codex, gemini| {
        resolve_local_cli_config(None, None, env, claude, codex, gemini, BRAND).map(|c| c.command)
    };
    assert!(matches!(of(None, true, true, true), Ok(LocalCliCommand::Claude)));
    assert!(matches!(of(None, false, true, true), Ok(LocalCliCommand::Codex)));
    assert!(matches!(of(None, false, false, true), Ok(LocalCliCommand::Gemini)));
    assert!(matches!(of(Some("gemini"), true, true, true), Ok(LocalCliCommand::Gemini)));
    assert!(matches!(of(Some("ACME-code"), false, true, true), Ok(LocalCliCommand::Claude)));
    assert!(matches!(of(Some("acme_code"), false, true, true), Ok(LocalCliCommand::Claude)));
    assert_eq!(
        of(Some("vim"), true, true, true).unwrap_err(),
        "LOCAL_CLI_UNSUPPORTED: unsupported local_cli provider 'vim'; expected one of acme, codex, gemini"
    );
    assert!(of(None, false, false, false).is_err());
}

#[test]
fn built_in_local_cli_invocations_do_not_put_prompt_in_argv() {
    let prompt = "PRIVATE MEMORY CONTEXT";
    for command in [LocalCliCommand::Claude, LocalCliCommand::Codex, LocalCliCommand::Gemini] {
        let invocation =
            configure_command(&LocalCliConfig { command, workspace_dir: None }, BRAND).unwrap();

        assert!(invocation.writes_stdin);
        assert!(
            !invocation.args.iter().any(|arg| arg.contains(prompt)),
            "prompt leaked into argv: {:?}",
            invocation.args
        );
    }
}

fn invocation(command: LocalCliCommand) -> (String, Vec<String>, bool) {
    let i = configure_command(&LocalCliConfig { command, workspace_dir: None }, BRAND).unwrap();
    (i.cli_bin, i.args, i.writes_stdin)
}

fn stdin(cli_bin: &str, args: &[&str]) -> (String, Vec<String>, bool) {
    (cli_bin.to_string(), args.iter().map(|a| a.to_string()).collect(), true)
}

#[test]
fn built_in_local_cli_invocations_use_expected_private_prompt_transport() {
    assert_eq!(
        invocation(LocalCliCommand::Claude),
        stdin(
            BRAND,
            &["-p", "--dangerously-skip-permissions", CLAUDE_STDIN_PROMPT]
        )
    );
    assert_eq!(
        invocation(LocalCliCommand::Codex),
        stdin(
            "codex",
            &["exec", "--dangerously-bypass-approvals-and-sandbox", "--ephemeral", "-"]
        )
    );
    assert_eq!(invocation(LocalCliCommand::Gemini), stdin("gemini", &["--yolo"]));
}

#[test]
fn failed_coding_clis_are_reported() {
    let ok = cli_outcome(true, "exit status: 0", " out ".to_string(), "").unwrap();
    assert_eq!(ok, " out ");
    let response = LocalCliProvider::response(ok);
    assert!(response.tool_calls.is_empty());
    assert_eq!(
        cli_outcome(false, "exit status: 7", "".to_string(), "codex: unknown flag --foo\n")
            .unwrap_err(),
        "local_cli subprocess failed (exit_code=exit status: 7, stdout=\"\", stderr=\"codex: unknown flag --foo\")"
    );
    assert!(configure_command(
        &LocalCliConfig::legacy_stdin(" ".to_string(), Vec::new(), None),
        BRAND
    )
    .is_err());
}

#[test]
fn workspaces_of_coding_clis_are_checked() {
    assert!(check_workspace_dir("/w", true, true).is_ok());
    let missing = check_workspace_dir("/w", false, false).unwrap_err();
    assert!(missing.contains("LOCAL_CLI_WORKSPACE_INVALID"));
    assert!(missing.contains("does not exist"));
    assert!(check_workspace_dir("/w", true, false).unwrap_err().contains("is not a directory"));
    let blank = LocalCliConfig::legacy_stdin("x".to_string(), Vec::new(), Some(" ".to_string()));
    assert!(resolve_workspace_dir(&blank).is_err());
    let padded = LocalCliConfig::legacy_stdin("x".to_string(), Vec::new(), Some(" /w ".to_string()));
    assert_eq!(resolve_workspace_dir(&padded).unwrap(), Some("/w"));
}
