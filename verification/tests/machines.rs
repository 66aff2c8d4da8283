use gosh_agent::agent::config::AgentConfig;
use gosh_agent::agent::config_loader::{ConfigAction, ConfigSearch};
use gosh_agent::agent::execution::ExecutionAction;
use gosh_agent::agent::facts::{canonical_attempt_fact, canonical_review_fact, preview_of};
use gosh_agent::agent::persist::{CallError, MemoryAction};
use gosh_agent::agent::prompts::review_prompt;
use gosh_agent::agent::resolve::{ResolveAction, ResolvedTask, TaskReference};
use gosh_agent::agent::results::Persistence;
use gosh_agent::agent::review::{Review, ReviewAction};
use gosh_agent::agent::run::{unresolved_state, Readings, Run, RunAction};
use gosh_agent::agent::task::{Amount, TaskResult, TaskState, TaskStatus, ToolTraceEntry};
use gosh_agent::agent::verdict::ReviewVerdict;
use gosh_agent::json::Json;
use gosh_agent::llm::chat::{LlmResponse, Usage};

const NOW: &str = "2026-05-01T10:00:00+00:00";

fn json(text: &str) -> Json {
    Json::parse(text).expect("a JSON text")
}

fn nothing() -> Amount {
    Amount { number: json("0.0"), rounded: "0.00".to_string() }
}

fn done_state(result: &str) -> TaskState {
    let mut state = TaskState::new("task-1", "agent-a", "swarm-a", "key", nothing(), NOW);
    state.status = TaskStatus::Done;
    state.model_current = "qwen/qwen3-32b".to_string();
    state.backend_current = "groq".to_string();
    state.finished_at = Some(state.started_at.clone());
    state.task_fact_id = Some("fact-123".to_string());
    state.external_task_id = Some("task-ext-1".to_string());
    state.result = Some(result.to_string());
    state
}

// ── what memory is told of a task ──

/// What was written and asked while results were persisted.
struct Calls {
    ingested: Vec<Json>,
    queries: Vec<Json>,
}

fn first_fact(ingest: &Json) -> &Json {
    &ingest.get_array("facts").expect("facts")[0]
}

fn kinds(calls: &Calls) -> Vec<String> {
    calls
        .ingested
        .iter()
        .map(|i| first_fact(i).get_str("kind").unwrap_or("").to_string())
        .collect()
}

/// Runs a persistence; the queries whose numbers are in `hidden` find nothing.
fn persist(
    state: &mut TaskState,
    hidden: &[usize],
) -> (Result<Vec<String>, String>, Calls) {
    let mut calls = Calls { ingested: Vec::new(), queries: Vec::new() };
    let (mut persistence, mut action) = Persistence::begin(state, 60);
    for _ in 0..100 {
        action = match action {
            MemoryAction::Ingest(params) => {
                calls.ingested.push(params.to_json());
                persistence.on_ingested(state, Ok(()))
            }
            MemoryAction::Query(params) => {
                let number = calls.queries.len();
                calls.queries.push(params.to_json());
                let written = first_fact(calls.ingested.last().expect("a write"));
                let status = written.get("metadata").and_then(|m| m.get_str("status"));
                let answer = if hidden.contains(&number) {
                    json("{\"facts\": []}")
                } else {
                    json(&format!(
                        "{{\"facts\": [{{\"id\": \"{}\", \"kind\": \"{}\", \"metadata\": {{\"task_fact_id\": \"{}\", \"status\": \"{}\"}}}}]}}",
                        written.get_str("id").unwrap_or(""),
                        written.get_str("kind").unwrap_or(""),
                        written.get("metadata").and_then(|m| m.get_str("task_fact_id")).unwrap_or(""),
                        status.unwrap_or(""),
                    ))
                };
                persistence.on_searched(state, Ok(answer))
            }
            MemoryAction::Wait(_) => persistence.on_waited(state),
            MemoryAction::Done => return (Ok(persistence.artifacts), calls),
            MemoryAction::Failed(e) => return (Err(e), calls),
        };
    }
    panic!("persistence did not end");
}

fn artifacts(outcome: Result<Vec<String>, String>) -> Vec<String> {
    outcome.expect("results were written")
}

#[test]
fn persist_results_stores_only_sanitized_final_answer() {
    let mut state =
        done_state("<think>internal reasoning</think>\nFinal answer: Stakeholder-ready summary.");
    let (outcome, calls) = persist(&mut state, &[]);
    assert_eq!(artifacts(outcome), vec!["result:task-ext-1", "session:task-ext-1"]);
    let result = calls
        .ingested
        .iter()
        .map(first_fact)
        .find(|f| f.get_str("kind") == Some("task_result"))
        .expect("result persistence call");
    assert_eq!(result.get_str("fact"), Some("Stakeholder-ready summary."));
}

#[test]
fn persist_results_use_work_key_not_context_key() {
    let mut state = done_state("Stakeholder-ready summary.");
    state.work_key = "atlas-work".to_string();
    state.context_key = "atlas-context".to_string();
    let (outcome, calls) = persist(&mut state, &[]);
    assert!(outcome.is_ok());
    for call in calls.ingested.iter().chain(calls.queries.iter()) {
        assert_eq!(call.get_str("key"), Some("atlas-work"));
    }
}

#[test]
fn persist_results_writes_session_anchor_before_task_result() {
    let mut state = done_state("Final stakeholder-ready summary.");
    let (outcome, calls) = persist(&mut state, &[]);
    assert_eq!(artifacts(outcome), vec!["result:task-ext-1", "session:task-ext-1"]);
    assert_eq!(
        kinds(&calls),
        ["task_session", "task_result", "fact", "task_session", "action"]
    );
}

#[test]
fn persist_results_retries_until_canonical_session_is_visible() {
    let mut state = done_state("Final stakeholder-ready summary.");
    let (outcome, calls) = persist(&mut state, &[2]);
    assert_eq!(artifacts(outcome), vec!["result:task-ext-1", "session:task-ext-1"]);
    let session_ingest_calls = kinds(&calls).iter().filter(|k| *k == "task_session").count();
    let session_query_calls = calls
        .queries
        .iter()
        .filter(|q| q.get("filter").and_then(|f| f.get_str("kind")) == Some("task_session"))
        .count();
    assert_eq!(session_ingest_calls, 3);
    assert_eq!(session_query_calls, 3);
}

#[test]
fn persist_results_rejects_reasoning_only_output() {
    let mut state = done_state("<think>reasoning only</think>");
    let (outcome, calls) = persist(&mut state, &[]);
    assert!(outcome.unwrap_err().contains("reasoning-only"));
    assert!(calls.ingested.is_empty());
}

#[test]
fn facts_that_never_show_are_an_error() {
    let mut state = done_state("Final stakeholder-ready summary.");
    let (outcome, _) = persist(&mut state, &[0, 1, 2, 3, 4, 5, 6, 7, 8, 9]);
    assert!(outcome.is_err());
}

#[test]
fn persist_attempt_artifact_writes_canonical_task_attempt_fact() {
    let mut state = done_state("");
    state.tool_trace = vec![ToolTraceEntry { tool: "memory_recall".to_string(), success: true }];
    let fact = canonical_attempt_fact(
        &state,
        1,
        "completed",
        "2026-04-13T00:00:00Z",
        "2026-04-13T00:00:05Z",
        &preview_of("Atlas status update draft"),
        None,
    );
    assert_eq!(fact.get_str("kind"), Some("task_attempt"));
    let metadata = fact.get("metadata").unwrap();
    assert_eq!(metadata.get_str("task_fact_id"), Some("fact-123"));
    assert_eq!(metadata.get_str("task_id"), Some("task-ext-1"));
    assert_eq!(metadata.get("attempt").and_then(|v| v.as_u64()), Some(1));
    assert_eq!(metadata.get_str("status"), Some("completed"));
    assert_eq!(metadata.get_str("agent_id"), Some("agent-a"));
    assert_eq!(metadata.get_str("swarm_id"), Some("swarm-a"));
    assert_eq!(metadata.get_str("model_used"), Some("qwen/qwen3-32b"));
    assert_eq!(metadata.get_str("profile_used"), Some("qwen"));
    assert_eq!(metadata.get_str("backend_used"), Some("groq"));
    assert_eq!(metadata.get_str("result_preview"), Some("Atlas status update draft"));
    assert_eq!(metadata.get("result_truncated").and_then(|v| v.as_bool()), Some(false));
}

#[test]
fn persist_review_artifact_writes_canonical_task_review_fact() {
    let state = done_state("");
    let fact = canonical_review_fact(
        &state,
        2,
        "retry",
        Some("missing KPI literals"),
        "2026-04-13T00:00:06Z",
    );
    assert_eq!(fact.get_str("kind"), Some("task_review"));
    let metadata = fact.get("metadata").unwrap();
    assert_eq!(metadata.get_str("task_fact_id"), Some("fact-123"));
    assert_eq!(metadata.get_str("task_id"), Some("task-ext-1"));
    assert_eq!(metadata.get("attempt").and_then(|v| v.as_u64()), Some(2));
    assert_eq!(metadata.get_str("verdict"), Some("retry"));
    assert_eq!(metadata.get_str("reason"), Some("missing KPI literals"));
    assert_eq!(metadata.get_str("profile_used"), Some("qwen"));
    assert_eq!(metadata.get_str("backend_used"), Some("groq"));
    assert_eq!(metadata.get_str("reviewed_at"), Some("2026-04-13T00:00:06Z"));
}

// ── finding a task ──

fn reference(task_ref: &str, agent_id: &str) -> TaskReference {
    TaskReference {
        task_ref: task_ref.to_string(),
        agent_id: agent_id.to_string(),
        key: "default".to_string(),
        swarm_id: "default".to_string(),
    }
}

fn resolved(action: ResolveAction) -> ResolvedTask {
    match action {
        ResolveAction::Resolved(task) => task,
        other => panic!("unexpected {other:?}"),
    }
}

fn refused(action: ResolveAction) -> String {
    match action {
        ResolveAction::Failed(e) => e,
        other => panic!("unexpected {other:?}"),
    }
}

#[test]
fn resolver_exact_fact_id_works() {
    let r = reference("fact-abc-123", "worker-1");
    assert_eq!(r.begin().fact_id, "fact-abc-123");
    let got = json(
        "{\"fact\": {\"id\": \"fact-abc-123\", \"kind\": \"task\", \"fact\": \"Do the thing\", \"target\": [\"agent:worker-1\"], \"metadata\": {\"task_id\": \"ext-001\"}}}",
    );
    let task = resolved(r.on_got(Some(got)));
    assert_eq!(task.task_fact_id, "fact-abc-123");
    assert_eq!(task.external_task_id.as_deref(), Some("ext-001"));
    assert_eq!(task.fact, "Do the thing");
}

#[test]
fn resolver_exact_fact_id_unwraps_memory_get_payload() {
    let got = json(
        "{\"fact\": {\"id\": \"fact-wrap-1\", \"kind\": \"task\", \"fact\": \"Wrapped task\", \"target\": [\"agent:worker-1\"], \"metadata\": {\"task_id\": \"wrapped-001\"}}}",
    );
    let task = resolved(reference("fact-wrap-1", "worker-1").on_got(Some(got)));
    assert_eq!(task.task_fact_id, "fact-wrap-1");
    assert_eq!(task.external_task_id.as_deref(), Some("wrapped-001"));
    assert_eq!(task.fact, "Wrapped task");
}

#[test]
fn resolver_external_task_id_resolves() {
    let r = reference("my-task", "worker-1");
    assert!(matches!(r.on_got(Some(Json::Null)), ResolveAction::Query(_)));
    let found = json(
        "{\"facts\": [{\"id\": \"fact-xyz\", \"kind\": \"task\", \"fact\": \"Do it\", \"target\": [\"agent:worker-1\"], \"metadata\": {\"task_id\": \"my-task\"}}]}",
    );
    let task = resolved(r.on_searched(Ok(found)));
    assert_eq!(task.task_fact_id, "fact-xyz");
    assert_eq!(task.external_task_id.as_deref(), Some("my-task"));
}

#[test]
fn resolver_wrong_target_rejects() {
    let got = json(
        "{\"fact\": {\"id\": \"fact-abc\", \"kind\": \"task\", \"fact\": \"Do the thing\", \"target\": [\"agent:other-agent\"], \"metadata\": {\"task_id\": \"ext-001\"}}}",
    );
    let err = refused(reference("fact-abc", "worker-1").on_got(Some(got)));
    assert!(err.contains("TARGET_MISMATCH"), "expected TARGET_MISMATCH, got: {err}");
}

#[test]
fn resolver_ambiguous_errors() {
    let found = json(
        "{\"facts\": [{\"id\": \"fact-1\", \"kind\": \"task\", \"fact\": \"A\", \"target\": [\"agent:w\"], \"metadata\": {\"task_id\": \"dup\"}}, {\"id\": \"fact-2\", \"kind\": \"task\", \"fact\": \"B\", \"target\": [\"agent:w\"], \"metadata\": {\"task_id\": \"dup\"}}]}",
    );
    let err = refused(reference("dup", "w").on_searched(Ok(found)));
    assert!(err.contains("AMBIGUOUS"), "expected AMBIGUOUS, got: {err}");
}

#[test]
fn resolver_missing_errors() {
    let err = refused(reference("nonexistent", "w").on_searched(Ok(json("{\"facts\": []}"))));
    assert!(err.contains("NOT_FOUND"), "expected NOT_FOUND, got: {err}");
}

// ── configurations ──

fn config_search(key: &str, swarm: &str) -> ConfigSearch {
    ConfigSearch {
        key: key.to_string(),
        agent_id: "planner".to_string(),
        swarm_id: swarm.to_string(),
    }
}

fn loaded(action: ConfigAction) -> AgentConfig {
    match action {
        ConfigAction::Loaded(cfg) => cfg,
        other => panic!("unexpected {other:?}"),
    }
}

fn config_refused(facts: &str) -> String {
    let found = json(&format!("{{\"facts\": [{facts}]}}"));
    match config_search("project-x", "swarm-a").on_keyed(&AgentConfig::default(), Ok(found)) {
        ConfigAction::Failed(e) => e,
        other => panic!("unexpected {other:?}"),
    }
}

#[test]
fn load_agent_config_uses_key_specific_fact_when_present() {
    let search = config_search("proj-a", "swarm-alpha");
    let query = search.begin().to_json();
    assert_eq!(query.get("filter").and_then(|f| f.get_str("metadata.key")), Some("proj-a"));
    let found = json(
        "{\"facts\": [{\"kind\": \"agent_config\", \"target\": [\"agent:planner\"], \"metadata\": {\"schema_version\": 1, \"agent_id\": \"planner\", \"swarm_id\": \"swarm-alpha\", \"key\": \"proj-a\", \"fast_profile\": \"claude_code_cli\", \"max_parallel_tasks\": 2, \"profile.claude_code_cli.cooldown_secs\": 1200}}]}",
    );
    let cfg = loaded(search.on_keyed(&AgentConfig::default(), Ok(found)));
    assert_eq!(cfg.fast_profile, "claude_code_cli");
    assert_eq!(cfg.max_parallel_tasks, 2);
    assert_eq!(
        cfg.profile_runtime.get("claude_code_cli").and_then(|p| p.cooldown_secs),
        Some(1200)
    );
}

#[test]
fn shares_that_spell_no_number_keep_what_held_before() {
    let search = config_search("proj-a", "swarm-alpha");
    let found = json(
        "{\"facts\": [{\"target\": [\"agent:planner\"], \"metadata\": {\"schema_version\": 1, \"review_budget_reserve\": \"0.3\", \"too_complex_threshold\": \"most\"}}]}",
    );
    let mut bootstrap = AgentConfig::default();
    bootstrap.too_complex_threshold = Some(json("0.5"));
    let cfg = loaded(search.on_keyed(&bootstrap, Ok(found)));
    assert_eq!(cfg.review_budget_reserve.unwrap().to_text(), "\"0.3\"");
    assert_eq!(cfg.too_complex_threshold.unwrap().to_text(), "0.5");
}

#[test]
fn load_agent_config_falls_back_to_bootstrap_when_missing() {
    let search = config_search("proj-a", "swarm-alpha");
    let bootstrap = AgentConfig::default();
    match search.on_keyed(&bootstrap, Ok(json("{\"facts\": []}"))) {
        ConfigAction::Query(q) => assert!(q.filter.get("metadata.key").is_none()),
        other => panic!("unexpected {other:?}"),
    }
    let cfg = loaded(search.on_shared(&bootstrap, Ok(json("{\"facts\": []}"))));
    assert_eq!(cfg.fast_profile, bootstrap.fast_profile);
}

#[test]
fn load_agent_config_parses_enabled_and_runtime_limits() {
    let found = json(
        "{\"facts\": [{\"kind\": \"agent_config\", \"target\": [\"agent:planner\"], \"metadata\": {\"schema_version\": 1, \"agent_id\": \"planner\", \"swarm_id\": \"swarm-alpha\", \"key\": \"proj-a\", \"enabled\": false, \"max_parallel_tasks\": 3, \"global_cli_cooldown_secs\": 900, \"profile.codex_cli.max_concurrency\": 1, \"profile.codex_cli.cooldown_secs\": 1200}}]}",
    );
    let cfg = loaded(
        config_search("proj-a", "swarm-alpha").on_keyed(&AgentConfig::default(), Ok(found)),
    );
    assert!(!cfg.enabled);
    assert_eq!(cfg.max_parallel_tasks, 3);
    assert_eq!(cfg.global_cli_cooldown_secs, Some(900));
    assert_eq!(cfg.profile_runtime.get("codex_cli").and_then(|p| p.max_concurrency), Some(1));
    assert_eq!(cfg.profile_runtime.get("codex_cli").and_then(|p| p.cooldown_secs), Some(1200));
}

#[test]
fn load_agent_config_uses_newest_when_multiple_configs_exist() {
    let found = json(
        "{\"facts\": [{\"id\": \"cfg-new\", \"target\": [\"agent:planner\"], \"metadata\": {\"schema_version\": 1, \"agent_id\": \"planner\", \"fast_profile\": \"codex_cli\"}}, {\"id\": \"cfg-old\", \"target\": [\"agent:planner\"], \"metadata\": {\"schema_version\": 1, \"agent_id\": \"planner\", \"fast_profile\": \"claude_code_cli\"}}]}",
    );
    let cfg = loaded(
        config_search("project-x", "swarm-a").on_keyed(&AgentConfig::default(), Ok(found)),
    );
    assert_eq!(cfg.fast_profile, "codex_cli");
}

#[test]
fn load_agent_config_requires_schema_version() {
    let err = config_refused(
        "{\"id\": \"cfg-bad\", \"target\": [\"agent:planner\"], \"metadata\": {\"agent_id\": \"planner\", \"swarm_id\": \"swarm-a\", \"key\": \"project-x\"}}",
    );
    assert!(err.contains("AGENT_CONFIG_SCHEMA_VERSION_REQUIRED"));
}

#[test]
fn load_agent_config_rejects_unsupported_schema_version() {
    let err = config_refused(
        "{\"id\": \"cfg-future\", \"target\": [\"agent:planner\"], \"metadata\": {\"schema_version\": 99, \"agent_id\": \"planner\"}}",
    );
    assert!(err.contains("UNSUPPORTED_AGENT_CONFIG_SCHEMA_VERSION:99"));
}

#[test]
fn load_agent_config_rejects_target_mismatch() {
    let err = config_refused(
        "{\"id\": \"cfg-wrong-target\", \"target\": [\"agent:other-agent\"], \"metadata\": {\"schema_version\": 1, \"agent_id\": \"planner\"}}",
    );
    assert!(err.contains("AGENT_CONFIG_TARGET_MISMATCH"));
}

#[test]
fn load_agent_config_rejects_agent_id_mismatch() {
    let err = config_refused(
        "{\"id\": \"cfg-wrong-agent\", \"target\": [\"agent:planner\"], \"metadata\": {\"schema_version\": 1, \"agent_id\": \"imposter\"}}",
    );
    assert!(err.contains("AGENT_CONFIG_AGENT_ID_MISMATCH"));
}

#[test]
fn config_errors_are_told_apart() {
    let of = |metadata: &str| {
        config_refused(&format!("{{\"target\": \"agent:planner\", \"metadata\": {metadata}}}"))
    };
    assert_eq!(of("1"), "agent_config fact missing metadata object");
    assert_eq!(of("{\"schema_version\": \"x\"}"), "INVALID_AGENT_CONFIG_SCHEMA_VERSION");
    assert_eq!(
        of("{\"schema_version\": \"1\", \"max_parallel_tasks\": \"0\"}"),
        "max_parallel_tasks must be >= 1"
    );
    assert_eq!(
        of("{\"schema_version\": 1, \"profile.a.max_concurrency\": -1}"),
        "profile max_concurrency override must be integer"
    );
    assert_eq!(
        of("{\"schema_version\": 1, \"profile.b.max_concurrency\": true, \"profile.a.cooldown_secs\": 1.5}"),
        "profile cooldown override must be integer"
    );
}

// ── reviews ──

fn review() -> Review {
    Review {
        task_text: "Task context".to_string(),
        retrieved_context: Some("Retrieved Atlas notes".to_string()),
        result: "Final answer here".to_string(),
        repair_prompt: "repair".to_string(),
    }
}

#[test]
fn review_repairs_non_json_verdict_into_retry() {
    let state = done_state("");
    let review = review();
    assert!(matches!(review.begin(&state), ReviewAction::CheckBudget { .. }));
    match review.on_affordable(&state) {
        ReviewAction::Ask(request) => assert_eq!(request.system, review_prompt()),
        other => panic!("unexpected {other:?}"),
    }
    match review.on_answer(&state, Some("looks good".to_string())) {
        ReviewAction::AskRepair(request) => assert_eq!(request.system, "repair"),
        other => panic!("unexpected {other:?}"),
    }
    let repaired = r#"{"verdict":"retry","reason":"missing KPI literals"}"#.to_string();
    match review.on_repair(Some(repaired)) {
        ReviewAction::Verdict(ReviewVerdict::Retry(reason)) => {
            assert_eq!(reason, "missing KPI literals")
        }
        other => panic!("unexpected {other:?}"),
    }
}

#[test]
fn review_accepts_grounded_result_with_exact_context_values() {
    let state = done_state("");
    let retrieved_context = "Highlights: rollout completed.\nMetrics: uptime 99.95%, adoption 73%, median response time 1.8s, incidents resolved 12, escalations 4.\nRisk: delayed vendor API migration.\nNext steps: finish migration and clear analytics backlog.";
    let grounded_result = "Highlights: rollout completed.\nMetrics: uptime 99.95%, adoption 73%, median response time 1.8s, incidents resolved 12, escalations 4.\nRisks: delayed vendor API migration.\nNext Steps: finish migration and clear analytics backlog.";
    let review = Review {
        task_text: "Prepare a concise internal status update with highlights, metrics, risks, and next steps.".to_string(),
        retrieved_context: Some(retrieved_context.to_string()),
        result: grounded_result.to_string(),
        repair_prompt: "repair".to_string(),
    };
    match review.on_affordable(&state) {
        ReviewAction::Ask(request) => {
            assert_eq!(request.system, review_prompt());
            assert!(request.messages[0].content.contains(&format!(
                "<retrieved_context>\n{retrieved_context}\n</retrieved_context>"
            )));
            assert!(request.messages[0].content.contains(&format!(
                "<execution_result>\n{grounded_result}\n</execution_result>"
            )));
        }
        other => panic!("unexpected {other:?}"),
    }
    let verdict = review.on_answer(&state, Some(r#"{"verdict":"ok"}"#.to_string()));
    assert!(matches!(verdict, ReviewAction::Verdict(ReviewVerdict::Passed)));
}

#[test]
fn review_rejects_invented_concrete_metrics_when_context_contains_exact_values() {
    let state = done_state("");
    let retry_reason = "result invents unsupported metrics and omits exact grounded values";
    let task_text = "Напиши короткое письмо для стейкхолдеров по итогам марта по проекту Atlas. В письме нужен: 1) общий итог месяца, 2) три ключевые метрики, 3) один риск или ограничение, 4) два следующих шага. Пиши профессионально и кратко.";
    let retrieved_context = "Atlas March metrics: uptime 99.95%, adoption 73%, median response time 1.8s, incidents resolved 12, escalations 4.\nRisk: delayed vendor API migration.\nNext steps: finish migration and clear analytics backlog.";
    let bad_result = "Atlas finished March with 100% uptime, 40% adoption, and 99.5% SLA compliance. Risk remains manageable. Next steps are to scale operations and expand partnerships.";
    let review = Review {
        task_text: task_text.to_string(),
        retrieved_context: Some(retrieved_context.to_string()),
        result: bad_result.to_string(),
        repair_prompt: "repair".to_string(),
    };
    match review.on_affordable(&state) {
        ReviewAction::Ask(request) => {
            assert_eq!(request.system, review_prompt());
            assert!(request.messages[0].content.contains(&format!(
                "<retrieved_context>\n{retrieved_context}\n</retrieved_context>"
            )));
            assert!(request.messages[0].content.contains(&format!(
                "<execution_result>\n{bad_result}\n</execution_result>"
            )));
        }
        other => panic!("unexpected {other:?}"),
    }
    let said = format!(r#"{{"verdict":"retry","reason":"{retry_reason}"}}"#);
    match review.on_answer(&state, Some(said)) {
        ReviewAction::Verdict(ReviewVerdict::Retry(reason)) => assert_eq!(reason, retry_reason),
        other => panic!("unexpected {other:?}"),
    }
}

#[test]
fn review_fails_when_output_remains_malformed_after_repair() {
    let state = done_state("");
    let review = review();
    let second = review.on_answer(&state, Some("still not json".to_string()));
    assert!(matches!(second, ReviewAction::AskRepair(_)));
    match review.on_repair(Some("still bad".to_string())) {
        ReviewAction::Malformed { message, cause } => {
            assert!(message.contains("review output malformed after repair"));
            assert!(cause.contains("review output malformed: no valid JSON object found"));
        }
        other => panic!("unexpected {other:?}"),
    }
}

// ── runs ──

fn readings() -> Readings {
    Readings { now: NOW.to_string(), spent: nothing(), budget_left: true }
}

fn start() -> (Run, TaskState) {
    let (run, action) =
        Run::begin(
            "task-1",
            "work",
            "ctx",
            2,
            60,
            "acme",
            "repair".to_string(),
            nothing(),
        );
    assert!(matches!(action, RunAction::Resolve));
    let state =
        TaskState::with_keys("task-1", "agent-a", "swarm-a", "work", "ctx", nothing(), NOW);
    (run, state)
}

fn resolved_task() -> ResolvedTask {
    ResolvedTask {
        task_fact_id: "fact-task-1".to_string(),
        external_task_id: Some("task-1".to_string()),
        fact: "Write the update".to_string(),
        raw: json("{\"id\": \"fact-task-1\", \"kind\": \"task\", \"fact\": \"Write the update\"}"),
    }
}

fn finished(action: RunAction) -> TaskResult {
    match action {
        RunAction::Finished(result) => result,
        other => panic!("unexpected {other:?}"),
    }
}

/// Takes a run that failed before its first attempt to its end.
fn fail_early(
    run: &mut Run,
    state: &mut TaskState,
    action: RunAction,
    task_fact_id: &str,
    phase: &str,
    error: &str,
) -> TaskResult {
    assert!(matches!(action, RunAction::WriteLocalFailure { .. }));
    let action = run.on_local_written(state, Some("/failures/x.json".to_string()));
    assert!(matches!(action, RunAction::PersistResults));
    let (outcome, calls) = persist(state, &[]);
    let written = calls
        .ingested
        .iter()
        .map(first_fact)
        .find(|f| f.get_str("kind") == Some("task_result"))
        .expect("a result is written");
    let metadata = written.get("metadata").unwrap();
    assert_eq!(metadata.get_str("task_fact_id"), Some(task_fact_id));
    assert_eq!(metadata.get_str("task_id"), Some("task-1"));
    assert_eq!(metadata.get_str("status"), Some("failed"));
    assert_eq!(metadata.get_str("phase"), Some(phase));
    assert_eq!(metadata.get("complete").and_then(|v| v.as_bool()), Some(true));
    assert!(metadata.get_str("error").unwrap_or("").contains(error));
    let action = run.on_results(state, outcome);
    match action {
        RunAction::UpdateLocalFailure { memory_persisted, .. } => assert!(memory_persisted),
        other => panic!("unexpected {other:?}"),
    }
    finished(run.on_local_updated(state))
}

#[test]
fn run_returns_failed_task_result_when_bootstrap_task_resolve_times_out() {
    let (mut run, mut state) = start();
    let action = run.on_resolved(&mut state, Err(CallError::TimedOut), NOW);
    let result = fail_early(
        &mut run,
        &mut state,
        action,
        "task-1",
        "bootstrap_resolve",
        "BOOTSTRAP_RESOLVE_TIMEOUT",
    );
    assert_eq!(result.status, TaskStatus::Failed);
    assert!(result.error.unwrap().contains("BOOTSTRAP_RESOLVE_TIMEOUT"));
    assert!(result.result.is_none());
    assert_eq!(result.artifacts_written.len(), 3);
    assert!(result.artifacts_written[0].starts_with("local_failure:"));
    assert!(result.artifacts_written.contains(&"result:task-1".to_string()));
    assert!(result.artifacts_written.contains(&"session:task-1".to_string()));
    assert_eq!(state.phase, "bootstrap_resolve");
}

#[test]
fn run_returns_failed_task_result_when_bootstrap_recall_times_out() {
    let (mut run, mut state) = start();
    let found = ResolvedTask {
        task_fact_id: "fact-task-1".to_string(),
        external_task_id: Some("task-1".to_string()),
        fact: "Produce the requested deliverable.".to_string(),
        raw: json("{\"id\": \"fact-task-1\", \"kind\": \"task\", \"fact\": \"Produce the requested deliverable.\", \"target\": [\"agent:agent-a\"], \"scope\": \"agent-private\", \"metadata\": {\"task_id\": \"task-1\", \"work_key\": \"work\", \"context_key\": \"ctx\"}}"),
    };
    let action = run.on_resolved(&mut state, Ok(found), NOW);
    match action {
        RunAction::Recall(params) => {
            assert_eq!(params.key, "ctx");
            assert_eq!(params.query, "Produce the requested deliverable.");
        }
        other => panic!("unexpected {other:?}"),
    }
    let action = run.on_recalled(&mut state, Err(CallError::TimedOut), NOW);
    let result = fail_early(
        &mut run,
        &mut state,
        action,
        "fact-task-1",
        "bootstrap_recall",
        "BOOTSTRAP_RECALL_TIMEOUT",
    );
    assert_eq!(result.status, TaskStatus::Failed);
    assert!(result.error.unwrap().contains("BOOTSTRAP_RECALL_TIMEOUT"));
    assert!(result.result.is_none());
    assert_eq!(result.artifacts_written.len(), 3);
    assert!(result.artifacts_written[0].starts_with("local_failure:"));
    assert!(result.artifacts_written.contains(&"result:task-1".to_string()));
    assert!(result.artifacts_written.contains(&"session:task-1".to_string()));
    assert_eq!(state.phase, "bootstrap_recall");
    assert_eq!(state.task_fact_id.as_deref(), Some("fact-task-1"));
}

#[test]
fn unresolved_tasks_are_failed_ones() {
    let state =
        unresolved_state("task-1", "agent-a", "swarm-a", "work", "ctx", 60, nothing(), NOW);
    assert_eq!(state.status, TaskStatus::Failed);
    assert_eq!(state.phase, "bootstrap_resolve");
    assert_eq!(
        state.error.as_deref(),
        Some("BOOTSTRAP_RESOLVE_TIMEOUT: task resolution did not complete within 60s")
    );
}

#[test]
fn finish_failed_task_result_times_out_when_terminal_result_visibility_hangs() {
    let mut state = TaskState::new("task-1", "agent-a", "swarm-a", "key", nothing(), NOW);
    state.status = TaskStatus::Failed;
    state.phase = "persistence".to_string();
    state.task_fact_id = Some("fact-123".to_string());
    state.external_task_id = Some("task-ext-1".to_string());
    state.error = Some("MISSING_TERMINAL_DELIVERABLE".to_string());
    let (mut run, _) = start();
    assert!(matches!(
        run.stop(&mut state, NOW),
        RunAction::WriteLocalFailure { persistence_error: None }
    ));
    assert!(matches!(
        run.on_local_written(&state, Some("/failures/task_failure_task-ext-1.json".to_string())),
        RunAction::PersistResults
    ));

    let (mut persistence, mut action) = Persistence::begin(&state, 60);
    let mut written = Vec::new();
    let error = loop {
        action = match action {
            MemoryAction::Ingest(params) => {
                let params = params.to_json();
                written.push(first_fact(&params).get_str("kind").unwrap_or("").to_string());
                persistence.on_ingested(&mut state, Ok(()))
            }
            MemoryAction::Query(_) => {
                persistence.on_searched(&mut state, Err(CallError::TimedOut))
            }
            MemoryAction::Wait(_) => persistence.on_waited(&state),
            MemoryAction::Failed(e) => break e,
            other => panic!("unexpected {other:?}"),
        };
    };
    assert!(written.contains(&"task_result".to_string()));
    match run.on_results(&mut state, Err(error)) {
        RunAction::UpdateLocalFailure { path, memory_persisted, persistence_error } => {
            assert_eq!(path, "/failures/task_failure_task-ext-1.json");
            assert!(!memory_persisted);
            assert!(persistence_error.unwrap().contains("TASK_RESULT_PERSIST_TIMEOUT"));
        }
        other => panic!("unexpected {other:?}"),
    }
    let result = finished(run.on_local_updated(&mut state));
    assert_eq!(result.status, TaskStatus::Failed);
    let error = result.error.unwrap_or_default();
    assert!(error.contains("TASK_RESULT_PERSIST_TIMEOUT"), "got: {error}");
    assert_eq!(result.artifacts_written.len(), 1);
    assert!(result.artifacts_written[0].starts_with("local_failure:"));
}

fn answer(text: &str) -> LlmResponse {
    LlmResponse {
        text: Some(text.to_string()),
        tool_calls: Vec::new(),
        usage: Usage::default(),
        stop_reason: "stop".to_string(),
    }
}

/// Makes an attempt with a result, and persists it.
fn attempt(run: &mut Run, state: &mut TaskState, text: &str) -> RunAction {
    let mut execution = run.execution();
    assert!(matches!(execution.begin(state), ExecutionAction::Ask { .. }));
    let result = match execution.on_answer(state, answer(text), nothing()) {
        ExecutionAction::Finished(result) => result,
        other => panic!("unexpected {other:?}"),
    };
    let action = run.on_executed(state, Ok(result), NOW.to_string(), NOW.to_string());
    match action {
        RunAction::PersistAttempt(params) => {
            assert_eq!(first_fact(&params.to_json()).get_str("kind"), Some("task_attempt"))
        }
        other => panic!("unexpected {other:?}"),
    }
    run.on_attempt_persisted(state, Ok(()), readings())
}

#[test]
fn retry_chain_persists_attempt_review_history_before_final_result() {
    let (mut run, mut state) = start();
    let action = run.on_resolved(&mut state, Ok(resolved_task()), NOW);
    assert!(matches!(action, RunAction::Recall(_)));
    let action = run.on_recalled(&mut state, Ok(json("{\"context\": \"facts\"}")), NOW);
    assert!(matches!(action, RunAction::PlanInference(_)));
    let plan = json(
        "{\"payload\": {\"model\": \"qwen/qwen3-32b\", \"max_tokens\": 512}, \"payload_meta\": {\"use_tool\": false, \"secret_ref\": {\"name\": \"groq\", \"scope\": \"agent-private\"}}}",
    );
    let action = run.on_planned(&mut state, Ok(plan), NOW);
    match action {
        RunAction::Price { model_id, .. } => assert_eq!(model_id, "qwen/qwen3-32b"),
        other => panic!("unexpected {other:?}"),
    }
    let action = run.on_priced(&mut state, Ok(()), false, NOW);
    assert!(matches!(action, RunAction::ResolveSecret { .. }), "got {action:?}");
    let action = run.on_provider(&mut state, Ok(()), NOW);
    assert!(matches!(action, RunAction::Execute));

    let action = attempt(&mut run, &mut state, "Draft one");
    assert!(matches!(action, RunAction::Review { .. }), "got {action:?}");
    let verdict = ReviewVerdict::Retry("needs concrete metrics".to_string());
    let action = run.on_reviewed(&state, Ok(verdict), NOW);
    match action {
        RunAction::PersistReview(params) => {
            assert_eq!(first_fact(&params.to_json()).get_str("kind"), Some("task_review"))
        }
        other => panic!("unexpected {other:?}"),
    }
    let action = run.on_review_persisted(&mut state, Ok(()), readings());
    assert!(matches!(action, RunAction::Execute));

    let action = attempt(&mut run, &mut state, "Draft two with KPIs");
    assert!(matches!(action, RunAction::Review { .. }));
    let action = run.on_reviewed(&state, Ok(ReviewVerdict::Passed), NOW);
    assert!(matches!(action, RunAction::PersistReview(_)));
    let action = run.on_review_persisted(&mut state, Ok(()), readings());
    assert!(matches!(action, RunAction::PersistResults), "got {action:?}");
    assert_eq!(state.status, TaskStatus::Done);
    let (outcome, calls) = persist(&mut state, &[]);
    assert_eq!(kinds(&calls)[0], "task_session");
    let result = finished(run.on_results(&mut state, outcome));
    assert_eq!(result.status, TaskStatus::Done);
    assert_eq!(result.result.as_deref(), Some("Draft two with KPIs"));
    assert!(result.artifacts_written.contains(&"attempt:task-1:1".to_string()));
    assert!(result.artifacts_written.contains(&"review:task-1:1".to_string()));
    assert!(result.artifacts_written.contains(&"attempt:task-1:2".to_string()));
    assert!(result.artifacts_written.contains(&"review:task-1:2".to_string()));
    assert!(result.artifacts_written.contains(&"result:task-1".to_string()));
    assert!(result.artifacts_written.contains(&"session:task-1".to_string()));
    assert!(result.error.is_none());
}

/// Takes a run to the search for its model's prices.
fn planned() -> (Run, TaskState) {
    let (mut run, mut state) = start();
    run.on_resolved(&mut state, Ok(resolved_task()), NOW);
    run.on_recalled(&mut state, Ok(json("{\"context\": \"facts\"}")), NOW);
    let plan = json(
        "{\"payload\": {\"model\": \"qwen/qwen3-32b\", \"max_tokens\": 512}, \"payload_meta\": {\"use_tool\": false, \"secret_ref\": {\"name\": \"groq\", \"scope\": \"agent-private\"}}}",
    );
    assert!(matches!(run.on_planned(&mut state, Ok(plan), NOW), RunAction::Price { .. }));
    (run, state)
}

#[test]
fn tasks_that_are_too_complex_are_not_attempted() {
    let (mut run, mut state) = planned();
    let action = run.on_priced(&mut state, Ok(()), true, NOW);
    assert!(matches!(action, RunAction::WriteLocalFailure { persistence_error: None }));
    assert_eq!(state.status, TaskStatus::TooComplex);
    assert!(matches!(run.on_local_written(&state, None), RunAction::PersistResults));
    let (outcome, _) = persist(&mut state, &[]);
    let result = finished(run.on_results(&mut state, outcome));
    assert_eq!(result.status, TaskStatus::TooComplex);
    assert!(result.error.unwrap().starts_with("TOO_COMPLEX"));
    assert!(result.result.is_none());
    assert_eq!(
        result.artifacts_written,
        vec!["result:task-1".to_string(), "session:task-1".to_string()]
    );
}

#[test]
fn results_that_no_budget_is_left_to_review_are_not_done() {
    let (mut run, mut state) = planned();
    run.on_priced(&mut state, Ok(()), false, NOW);
    run.on_provider(&mut state, Ok(()), NOW);
    let result = match attempt(&mut run, &mut state, "Draft one") {
        RunAction::Review { result } => result,
        other => panic!("unexpected {other:?}"),
    };
    let review = run.review(result);
    assert!(matches!(review.on_unaffordable(), ReviewAction::Unaffordable));
    assert!(matches!(run.on_unreviewed(&mut state, readings()), RunAction::PersistResults));
    let (outcome, _) = persist(&mut state, &[]);
    let result = finished(run.on_results(&mut state, outcome));
    assert_eq!(result.status, TaskStatus::PartialBudgetOverdraw);
    assert_eq!(result.result.as_deref(), Some("Draft one"));
    assert!(result.error.unwrap().contains("not reviewed"));
}
