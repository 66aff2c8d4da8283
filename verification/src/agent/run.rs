//! A task from its reference to its result.
//!
//! The machine says what to do next, and is told what came of it.  Two of the things to do are
//! machines of their own: an attempt and a review.

use vstd::prelude::*;
use vstd::string::*;

use crate::agent::execution;
use crate::agent::execution::ActionV;
use crate::agent::execution::Execution;
use crate::agent::execution::ExecutionV;
use crate::agent::facts;
use crate::agent::facts::canonical_attempt_fact;
use crate::agent::facts::canonical_review_fact;
use crate::agent::facts::numbered;
use crate::agent::facts::preview_of;
use crate::agent::facts::task_metadata_string;
use crate::agent::facts::Preview;
use crate::agent::facts::PreviewV;
use crate::agent::persist;
use crate::agent::persist::ingest_fact;
use crate::agent::persist::CallError;
use crate::agent::persist::CallErrorV;
use crate::agent::plan;
use crate::agent::plan::execution_plan_from_recall;
use crate::agent::plan::PlanV;
use crate::agent::plan::RecallExecutionPlan;
use crate::agent::pricing;
use crate::agent::pricing::ModelPricing;
use crate::agent::pricing::PricingV;
use crate::agent::prompts;
use crate::agent::resolve::ResolvedTask;
use crate::agent::resolve::ResolvedV;
use crate::agent::results;
use crate::agent::results::begin_validation;
use crate::agent::results::query_terminal_deliverable;
use crate::agent::results::terminal_deliverable_query;
use crate::agent::results::validate_terminal_deliverable;
use crate::agent::review;
use crate::agent::review::Review;
use crate::agent::review::ReviewV;
use crate::agent::sanitize;
use crate::agent::sanitize::sanitize_task_result;
use crate::agent::sanitize::SanitizedTaskResult;
use crate::agent::sanitize::SanitizedV;
use crate::agent::task;
use crate::agent::task::mark_finished;
use crate::agent::task::Amount;
use crate::agent::task::AmountV;
use crate::agent::task::DeliverableKind;
use crate::agent::task::ResultV;
use crate::agent::task::StateV;
use crate::agent::task::TaskResult;
use crate::agent::task::TaskState;
use crate::agent::task::TaskStatus;
use crate::agent::verdict::ReviewVerdict;
use crate::agent::verdict::VerdictV;
use crate::client::memory::IngestFactsParams;
use crate::client::memory::IngestV;
use crate::client::memory::MemoryQueryParams;
use crate::client::memory::PlanInferenceParams;
use crate::client::memory::QueryV;
use crate::client::memory::RecallParams;
use crate::client::memory::RecallV;
use crate::client::secrets::SecretRef;
use crate::client::secrets::SecretRefV;
use crate::json;
use crate::json::JValue;
use crate::json::Json;
use crate::llm::local_cli::ConfigV;
use crate::llm::local_cli::LocalCliConfig;
use crate::llm::multi;
use crate::llm::multi::secret_name_for_model;
use crate::text;
use crate::text::copy_opt;
use crate::text::copy_strings;
use crate::text::decimal_of;
use crate::text::is_blank;

verus! {

// ── What happens between two steps ──────────────────────────────────────

/// What a step is told of the world.
#[derive(Debug)]
pub struct Readings {
    /// The time, in RFC 3339 form.
    pub now: String,
    /// What was spent on the task by now.
    pub spent: Amount,
    /// Whether the budget leaves anything for another attempt.
    pub budget_left: bool,
}

pub ghost struct ReadingsV {
    pub now: Seq<char>,
    pub spent: AmountV,
    pub budget_left: bool,
}

impl Readings {
    pub open spec fn view(&self) -> ReadingsV {
        ReadingsV { now: self.now@, spent: self.spent@, budget_left: self.budget_left }
    }
}

/// What a run waits for.
#[derive(Debug)]
pub enum Pending {
    Nothing,
    /// The search for the deliverable of an attempt with this result.
    Deliverable { result: String, kind: DeliverableKind },
    /// The record of an attempt with this result.
    AttemptDone { result: String },
    /// The record of an attempt that is tried again, or fails the task.
    AttemptRetry { reason: String, error: String },
    /// The record of an attempt that fails the task.
    AttemptFailed { error: String },
    ReviewPassed,
    ReviewRetry { reason: String },
    ReviewFailed { error: String },
    /// The results; whether the task was done.
    Results { done: bool },
    /// The local record of a failure, after the results could not be written.
    LocalFailure { done: bool },
    /// The results of a task that failed over its results; the local record's path.
    Remediation { local: Option<String> },
    /// The last change of the local record.
    Closing { more: Vec<String>, failure: Option<String> },
    /// The local record of a task that never started.
    EarlyLocal,
    /// The results of a task that never started.
    EarlyResults { local: Option<String> },
    EarlyClosing { more: Vec<String>, failure: Option<String> },
}

pub ghost enum PendingV {
    Nothing,
    Deliverable { result: Seq<char>, kind: DeliverableKind },
    AttemptDone { result: Seq<char> },
    AttemptRetry { reason: Seq<char>, error: Seq<char> },
    AttemptFailed { error: Seq<char> },
    ReviewPassed,
    ReviewRetry { reason: Seq<char> },
    ReviewFailed { error: Seq<char> },
    Results { done: bool },
    LocalFailure { done: bool },
    Remediation { local: Option<Seq<char>> },
    Closing { more: Seq<Seq<char>>, failure: Option<Seq<char>> },
    EarlyLocal,
    EarlyResults { local: Option<Seq<char>> },
    EarlyClosing { more: Seq<Seq<char>>, failure: Option<Seq<char>> },
}

impl Pending {
    pub open spec fn view(&self) -> PendingV {
        match self {
            Pending::Nothing => PendingV::Nothing,
            Pending::Deliverable { result, kind } => PendingV::Deliverable {
                result: result@,
                kind: *kind,
            },
            Pending::AttemptDone { result } => PendingV::AttemptDone { result: result@ },
            Pending::AttemptRetry { reason, error } => PendingV::AttemptRetry {
                reason: reason@,
                error: error@,
            },
            Pending::AttemptFailed { error } => PendingV::AttemptFailed { error: error@ },
            Pending::ReviewPassed => PendingV::ReviewPassed,
            Pending::ReviewRetry { reason } => PendingV::ReviewRetry { reason: reason@ },
            Pending::ReviewFailed { error } => PendingV::ReviewFailed { error: error@ },
            Pending::Results { done } => PendingV::Results { done: *done },
            Pending::LocalFailure { done } => PendingV::LocalFailure { done: *done },
            Pending::Remediation { local } => PendingV::Remediation {
                local: text::opt_text(*local),
            },
            Pending::Closing { more, failure: error } => PendingV::Closing {
                more: text::texts(more@),
                failure: text::opt_text(*error),
            },
            Pending::EarlyLocal => PendingV::EarlyLocal,
            Pending::EarlyResults { local } => PendingV::EarlyResults {
                local: text::opt_text(*local),
            },
            Pending::EarlyClosing { more, failure: error } => PendingV::EarlyClosing {
                more: text::texts(more@),
                failure: text::opt_text(*error),
            },
        }
    }
}

/// What to do next.
#[derive(Debug)]
pub enum RunAction {
    /// Find the task's fact.
    Resolve,
    Recall(RecallParams),
    PlanInference(PlanInferenceParams),
    /// Find the prices of a model.
    Price { model_id: String, pricing: Option<ModelPricing>, local_cli: bool },
    /// Let a coding CLI do the work.
    UseLocalCli(LocalCliConfig),
    /// Get the key of the model's API.
    ResolveSecret { key: String, model_id: String, secret_ref: SecretRef },
    /// Make an attempt.
    Execute,
    FindDeliverable(MemoryQueryParams),
    PersistAttempt(IngestFactsParams),
    /// Review a result.
    Review { result: String },
    PersistReview(IngestFactsParams),
    PersistResults,
    /// Write the local record of a failure.
    WriteLocalFailure { persistence_error: Option<String> },
    /// Write the local record of a failure once more.
    UpdateLocalFailure {
        path: String,
        memory_persisted: bool,
        persistence_error: Option<String>,
    },
    Finished(TaskResult),
    /// The run itself broke off.
    Aborted(String),
}

pub ghost enum RunActionV {
    Resolve,
    Recall(RecallV),
    PlanInference(RecallV),
    Price { model_id: Seq<char>, pricing: Option<PricingV>, local_cli: bool },
    UseLocalCli(ConfigV),
    ResolveSecret { key: Seq<char>, model_id: Seq<char>, secret_ref: SecretRefV },
    Execute,
    FindDeliverable(QueryV),
    PersistAttempt(IngestV),
    Review { result: Seq<char> },
    PersistReview(IngestV),
    PersistResults,
    WriteLocalFailure { persistence_error: Option<Seq<char>> },
    UpdateLocalFailure {
        path: Seq<char>,
        memory_persisted: bool,
        persistence_error: Option<Seq<char>>,
    },
    Finished(ResultV),
    Aborted(Seq<char>),
}

impl RunAction {
    pub open spec fn view(&self) -> RunActionV {
        match self {
            RunAction::Resolve => RunActionV::Resolve,
            RunAction::Recall(p) => RunActionV::Recall(p@),
            RunAction::PlanInference(p) => RunActionV::PlanInference(p@),
            RunAction::Price { model_id, pricing, local_cli } => RunActionV::Price {
                model_id: model_id@,
                pricing: pricing::pricing_view(*pricing),
                local_cli: *local_cli,
            },
            RunAction::UseLocalCli(c) => RunActionV::UseLocalCli(c@),
            RunAction::ResolveSecret { key, model_id, secret_ref } => RunActionV::ResolveSecret {
                key: key@,
                model_id: model_id@,
                secret_ref: secret_ref@,
            },
            RunAction::Execute => RunActionV::Execute,
            RunAction::FindDeliverable(q) => RunActionV::FindDeliverable(q@),
            RunAction::PersistAttempt(p) => RunActionV::PersistAttempt(p@),
            RunAction::Review { result } => RunActionV::Review { result: result@ },
            RunAction::PersistReview(p) => RunActionV::PersistReview(p@),
            RunAction::PersistResults => RunActionV::PersistResults,
            RunAction::WriteLocalFailure { persistence_error } => RunActionV::WriteLocalFailure {
                persistence_error: text::opt_text(*persistence_error),
            },
            RunAction::UpdateLocalFailure { path, memory_persisted, persistence_error } =>
                RunActionV::UpdateLocalFailure {
                path: path@,
                memory_persisted: *memory_persisted,
                persistence_error: text::opt_text(*persistence_error),
            },
            RunAction::Finished(r) => RunActionV::Finished(r@),
            RunAction::Aborted(e) => RunActionV::Aborted(e@),
        }
    }
}

/// A task on its way.
#[derive(Debug)]
pub struct Run {
    /// The reference that the task was started with.
    pub task_id: String,
    pub work_key: String,
    pub default_context_key: String,
    pub max_retries: u32,
    /// How many seconds a call of memory may take.
    pub timeout_secs: u64,
    /// What Anthropic's models go by.
    pub brand: String,
    pub repair_prompt: String,
    pub nothing_spent: Amount,
    pub task_text: String,
    pub context: String,
    /// What memory answered to the recall.
    pub recall: Option<Json>,
    pub plan: Option<RecallExecutionPlan>,
    pub attempt: u32,
    pub retries: u32,
    pub retry_reason: Option<String>,
    pub artifacts: Vec<String>,
    /// When the last attempt started and ended.
    pub started_at: String,
    pub ended_at: String,
    /// The result of a task that never started.
    pub early: Option<TaskResult>,
    pub pending: Pending,
}

pub ghost struct RunV {
    pub task_id: Seq<char>,
    pub work_key: Seq<char>,
    pub default_context_key: Seq<char>,
    pub max_retries: int,
    pub timeout_secs: int,
    pub brand: Seq<char>,
    pub repair_prompt: Seq<char>,
    pub nothing_spent: AmountV,
    pub task_text: Seq<char>,
    pub context: Seq<char>,
    pub recall: Option<JValue>,
    pub plan: Option<PlanV>,
    pub attempt: int,
    pub retries: int,
    pub retry_reason: Option<Seq<char>>,
    pub artifacts: Seq<Seq<char>>,
    pub started_at: Seq<char>,
    pub ended_at: Seq<char>,
    pub early: Option<ResultV>,
    pub pending: PendingV,
}

pub open spec fn result_view(o: Option<TaskResult>) -> Option<ResultV> {
    match o {
        Some(r) => Some(r@),
        None => None,
    }
}

impl Run {
    pub open spec fn view(&self) -> RunV {
        RunV {
            task_id: self.task_id@,
            work_key: self.work_key@,
            default_context_key: self.default_context_key@,
            max_retries: self.max_retries as int,
            timeout_secs: self.timeout_secs as int,
            brand: self.brand@,
            repair_prompt: self.repair_prompt@,
            nothing_spent: self.nothing_spent@,
            task_text: self.task_text@,
            context: self.context@,
            recall: json::opt_owned_json(self.recall),
            plan: plan::plan_view(self.plan),
            attempt: self.attempt as int,
            retries: self.retries as int,
            retry_reason: text::opt_text(self.retry_reason),
            artifacts: text::texts(self.artifacts@),
            started_at: self.started_at@,
            ended_at: self.ended_at@,
            early: result_view(self.early),
            pending: self.pending@,
        }
    }
}

/// A run that has just begun.
pub open spec fn begun(
    task_id: Seq<char>,
    work_key: Seq<char>,
    default_context_key: Seq<char>,
    max_retries: int,
    timeout_secs: int,
    brand: Seq<char>,
    repair_prompt: Seq<char>,
    nothing_spent: AmountV,
) -> RunV {
    RunV {
        task_id,
        work_key,
        default_context_key,
        max_retries,
        timeout_secs,
        brand,
        repair_prompt,
        nothing_spent,
        task_text: seq![],
        context: seq![],
        recall: None,
        plan: None,
        attempt: 0,
        retries: 0,
        retry_reason: None,
        artifacts: seq![],
        started_at: seq![],
        ended_at: seq![],
        early: None,
        pending: PendingV::Nothing,
    }
}

/// What follows: the run, the task and what to do.
pub ghost struct NextV {
    pub run: RunV,
    pub state: StateV,
    pub action: RunActionV,
}

// ── A task that never started ───────────────────────────────────────────

/// The result of a task that never started.
pub open spec fn early_result(r: RunV, s: StateV) -> ResultV {
    ResultV {
        task_id: r.task_id,
        status: s.status,
        shell_spent: r.nothing_spent,
        artifacts_written: seq![],
        result: None,
        error: s.error,
        deliverable_kind: s.deliverable_kind,
        deliverable_fact_id: s.deliverable_fact_id,
    }
}

/// The end of a task that never started: a local record first, then its results.
pub open spec fn stopped(r: RunV, s: StateV, now: Seq<char>) -> NextV {
    let s2 = task::finished(s, now);
    NextV {
        run: RunV {
            early: Some(early_result(r, s2)),
            pending: PendingV::EarlyLocal,
            ..r
        },
        state: s2,
        action: RunActionV::WriteLocalFailure { persistence_error: None },
    }
}

/// The end of a task that failed before it started.
pub open spec fn refused(r: RunV, s: StateV, error: Seq<char>, now: Seq<char>) -> NextV {
    stopped(r, task::failed(s, error), now)
}

/// What is said of a call that took too long before the task started.
pub open spec fn bootstrap_timeout(what: Seq<char>, r: RunV) -> Seq<char> {
    what + " did not complete within "@ + text::decimal(r.timeout_secs as nat) + "s"@
}

/// An error with one more about the results.
pub open spec fn amended(existing: Option<Seq<char>>, e: Seq<char>) -> Seq<char> {
    match existing {
        Some(x) => x + "; PERSISTENCE_ERROR: "@ + e,
        None => "PERSISTENCE_ERROR: "@ + e,
    }
}

/// A result with more artifacts, and an error about them where there was one.
pub open spec fn closed(result: ResultV, more: Seq<Seq<char>>, error: Option<Seq<char>>) -> ResultV {
    ResultV {
        artifacts_written: result.artifacts_written + more,
        error: match error {
            Some(e) => Some(amended(result.error, e)),
            None => result.error,
        },
        ..result
    }
}

// ── The start ───────────────────────────────────────────────────────────

/// The context that a task's recall or plan is made in.
pub open spec fn recall_call(r: RunV, s: StateV) -> RecallV {
    RecallV {
        key: s.context_key,
        agent_id: s.agent_id,
        swarm_id: s.swarm_id,
        query: r.task_text,
        token_budget: 4000,
    }
}

/// A text, or another one.
pub open spec fn or_text(o: Option<Seq<char>>, other: Seq<char>) -> Seq<char> {
    match o {
        Some(s) => s,
        None => other,
    }
}

/// The workspace that a task's metadata names.
pub open spec fn task_workspace(raw: JValue) -> Option<Seq<char>> {
    match facts::metadata_text(raw, "workspace_dir"@) {
        Some(s) => Some(s),
        None => match facts::metadata_text(raw, "local_cli_workspace"@) {
            Some(s) => Some(s),
            None => match facts::metadata_text(raw, "working_directory"@) {
                Some(s) => Some(s),
                None => match facts::metadata_text(raw, "repo_worktree"@) {
                    Some(s) => Some(s),
                    None => facts::metadata_text(raw, "cwd"@),
                },
            },
        },
    }
}

/// A task whose fact was found.
pub open spec fn resolved_state(r: RunV, s: StateV, t: ResolvedV) -> StateV {
    StateV {
        task_fact_id: Some(t.task_fact_id),
        external_task_id: t.external_task_id,
        scope: or_text(json::jget_str(t.raw, "scope"@), "agent-private"@),
        work_key: or_text(facts::metadata_text(t.raw, "work_key"@), r.work_key),
        context_key: or_text(facts::metadata_text(t.raw, "context_key"@), r.default_context_key),
        deliverable_kind: match facts::metadata_text(t.raw, "deliverable_kind"@) {
            Some(name) => task::kind_named(name),
            None => None,
        },
        workspace_dir: task_workspace(t.raw),
        ..s
    }
}

/// What follows the search for the task's fact.
pub open spec fn resolved(
    r: RunV,
    s: StateV,
    outcome: Result<ResolvedV, CallErrorV>,
    now: Seq<char>,
) -> NextV {
    match outcome {
        Ok(t) => {
            let r2 = RunV { task_text: t.fact, ..r };
            let s2 = resolved_state(r, s, t);
            NextV { run: r2, state: s2, action: RunActionV::Recall(recall_call(r2, s2)) }
        },
        Err(CallErrorV::Failed(e)) => refused(r, s, "RESOLVE_FAILED: "@ + e, now),
        Err(CallErrorV::TimedOut) => refused(
            r,
            StateV { phase: "bootstrap_resolve"@, task_fact_id: Some(r.task_id), ..s },
            bootstrap_timeout("BOOTSTRAP_RESOLVE_TIMEOUT: task resolution"@, r),
            now,
        ),
    }
}

/// What follows the recall: a failed one is no obstacle.
pub open spec fn recalled(
    r: RunV,
    s: StateV,
    outcome: Result<JValue, CallErrorV>,
    now: Seq<char>,
) -> NextV {
    match outcome {
        Ok(v) => {
            let r2 = RunV {
                context: match json::jget_str(v, "context"@) {
                    Some(extra) => if extra.len() > 0 {
                        extra
                    } else {
                        r.context
                    },
                    None => r.context,
                },
                recall: Some(v),
                ..r
            };
            NextV { run: r2, state: s, action: RunActionV::PlanInference(recall_call(r2, s)) }
        },
        Err(CallErrorV::Failed(_)) => NextV {
            run: r,
            state: s,
            action: RunActionV::PlanInference(recall_call(r, s)),
        },
        Err(CallErrorV::TimedOut) => refused(
            r,
            StateV { phase: "bootstrap_recall"@, ..s },
            bootstrap_timeout("BOOTSTRAP_RECALL_TIMEOUT: memory_recall"@, r),
            now,
        ),
    }
}

/// The plan of a task: of the planning, else of the recall.
pub open spec fn chosen_plan(r: RunV, answer: Option<JValue>) -> Option<PlanV> {
    let planned = match answer {
        Some(v) => plan::plan_in(v),
        None => None,
    };
    match planned {
        Some(p) => Some(p),
        None => match r.recall {
            Some(v) => plan::plan_in(v),
            None => None,
        },
    }
}

pub const NO_MODEL: &'static str =
    "NO_MODEL: memory_plan_inference (and legacy memory_recall fallback) did not provide a model";

/// What follows the planning.
pub open spec fn planned(
    r: RunV,
    s: StateV,
    outcome: Result<JValue, CallErrorV>,
    now: Seq<char>,
) -> NextV {
    if outcome == Err::<JValue, CallErrorV>(CallErrorV::TimedOut) {
        refused(
            r,
            StateV { phase: "bootstrap_plan"@, ..s },
            bootstrap_timeout("BOOTSTRAP_PLAN_TIMEOUT: memory_plan_inference"@, r),
            now,
        )
    } else {
        let answer = match outcome {
            Ok(v) => Some(v),
            Err(_) => None,
        };
        match chosen_plan(r, answer) {
            None => refused(r, s, NO_MODEL@, now),
            Some(p) => NextV {
                run: RunV { plan: Some(p), ..r },
                state: StateV {
                    model_current: p.model_id,
                    backend_current: if p.local_cli is Some {
                        "local_cli"@
                    } else {
                        multi::secret_name(multi::route_of(p.model_id, r.brand))
                    },
                    ..s
                },
                action: RunActionV::Price {
                    model_id: p.model_id,
                    pricing: p.pricing,
                    local_cli: p.local_cli is Some,
                },
            },
        }
    }
}

pub const NO_SECRET_REF: &'static str =
    "NO_SECRET_REF: memory recall did not provide secret_ref in payload_meta";

pub const TOO_COMPLEX: &'static str =
    "TOO_COMPLEX: the estimated effort exceeds the share of the budget that a task may take";

/// The end of a task that is too complex for its budget: it is not attempted.
pub open spec fn rejected(r: RunV, s: StateV, now: Seq<char>) -> NextV {
    stopped(
        r,
        StateV { status: TaskStatus::TooComplex, error: Some(TOO_COMPLEX@), ..s },
        now,
    )
}

/// What follows the search for the model's prices: `too_complex` tells whether the estimated
/// effort exceeds what the budget allows.
pub open spec fn priced(
    r: RunV,
    s: StateV,
    outcome: Result<(), Seq<char>>,
    too_complex: bool,
    now: Seq<char>,
) -> NextV {
    match outcome {
        Err(e) => refused(r, s, "PRICING_CONFIG_ERROR: "@ + e, now),
        Ok(_) => match r.plan {
            None => refused(r, s, NO_MODEL@, now),
            Some(p) => if too_complex {
                rejected(r, s, now)
            } else {
                match p.local_cli {
                Some(c) => NextV {
                    run: r,
                    state: s,
                    action: RunActionV::UseLocalCli(
                        ConfigV {
                            workspace_dir: match c.workspace_dir {
                                Some(d) => Some(d),
                                None => s.workspace_dir,
                            },
                            ..c
                        },
                    ),
                },
                None => match p.secret_ref {
                    Some(secret_ref) => NextV {
                        run: r,
                        state: s,
                        action: RunActionV::ResolveSecret {
                            key: s.context_key,
                            model_id: p.model_id,
                            secret_ref,
                        },
                    },
                    None => refused(r, s, NO_SECRET_REF@, now),
                },
                }
            },
        },
    }
}

pub const NO_TASK_CONTEXT: &'static str = "NO_TASK_CONTEXT: resolved task has empty fact text";

/// Another attempt.
pub open spec fn attempting(r: RunV, s: StateV) -> NextV {
    NextV {
        run: RunV { attempt: r.attempt + 1, pending: PendingV::Nothing, ..r },
        state: StateV { phase: "execution"@, ..s },
        action: RunActionV::Execute,
    }
}

/// What follows where the model can be reached, or can not.
pub open spec fn provided(
    r: RunV,
    s: StateV,
    outcome: Result<(), Seq<char>>,
    now: Seq<char>,
) -> NextV {
    match outcome {
        Err(e) => refused(r, s, "LLM_RESOLVE_FAILED: "@ + e, now),
        Ok(_) => if text::trimmed(r.task_text).len() == 0 {
            refused(r, s, NO_TASK_CONTEXT@, now)
        } else {
            attempting(r, s)
        },
    }
}

// ── Attempts ────────────────────────────────────────────────────────────

/// The context of a task, where there is any.
pub open spec fn context_of(r: RunV) -> Option<Seq<char>> {
    if text::trimmed(r.context).len() > 0 {
        Some(r.context)
    } else {
        None
    }
}

/// The plan that an attempt goes by: a retry goes by none.
pub open spec fn attempt_plan(r: RunV) -> Option<PlanV> {
    match r.retry_reason {
        Some(_) => None,
        None => r.plan,
    }
}

/// The attempt that a run makes next.
pub open spec fn execution_of(r: RunV) -> ExecutionV {
    ExecutionV {
        task_text: r.task_text,
        retrieved_context: context_of(r),
        retry_reason: r.retry_reason,
        limits: crate::agent::execution::limits_of(attempt_plan(r)),
        repair_prompt: r.repair_prompt,
        trace: seq![],
        used_tools: false,
        recovered: false,
        pending: seq![],
    }
}

/// The review that a run makes of a result.
pub open spec fn review_of(r: RunV, result: Seq<char>) -> ReviewV {
    ReviewV {
        task_text: r.task_text,
        retrieved_context: context_of(r),
        result,
        repair_prompt: r.repair_prompt,
    }
}

/// The record of an attempt.
pub open spec fn recording(
    r: RunV,
    s: StateV,
    shown: PreviewV,
    status: Seq<char>,
    error: Option<Seq<char>>,
    pending: PendingV,
) -> NextV {
    NextV {
        run: RunV { pending, ..r },
        state: s,
        action: RunActionV::PersistAttempt(
            persist::ingest_of(
                s,
                facts::attempt_fact(
                    s,
                    r.attempt,
                    status,
                    r.started_at,
                    r.ended_at,
                    shown,
                    error,
                ),
            ),
        ),
    }
}

pub open spec fn nothing_shown() -> PreviewV {
    PreviewV { preview: seq![], truncated: false }
}

/// The status of an attempt that gave a result.
pub open spec fn completed_status(s: StateV) -> Seq<char> {
    if s.status == TaskStatus::PartialBudgetOverdraw {
        "partial_budget_overdraw"@
    } else {
        "completed"@
    }
}

/// The record of an attempt that gave a result.
pub open spec fn recording_done(r: RunV, s: StateV, result: Seq<char>) -> NextV {
    recording(
        r,
        s,
        facts::preview_view(result),
        completed_status(s),
        None,
        PendingV::AttemptDone { result },
    )
}

/// What follows an attempt.
pub open spec fn executed(
    r: RunV,
    s: StateV,
    outcome: Result<Seq<char>, Seq<char>>,
    started_at: Seq<char>,
    ended_at: Seq<char>,
) -> NextV {
    let r2 = RunV { started_at, ended_at, ..r };
    match outcome {
        Err(e) => recording(
            r2,
            s,
            nothing_shown(),
            "execution_error"@,
            Some(e),
            PendingV::AttemptFailed { error: e },
        ),
        Ok(said) => match sanitize::sanitized(said) {
            SanitizedV::Rejected(reason) => recording(
                r2,
                s,
                nothing_shown(),
                "invalid_result"@,
                Some(reason),
                PendingV::AttemptRetry {
                    reason,
                    error: "EXECUTION_RESULT_INVALID: "@ + reason,
                },
            ),
            SanitizedV::Accepted(result) => {
                let s2 = StateV { deliverable_fact_id: None, ..s };
                match results::needs_deliverable(s) {
                    Some(kind) => NextV {
                        run: RunV { pending: PendingV::Deliverable { result, kind }, ..r2 },
                        state: s2,
                        action: RunActionV::FindDeliverable(
                            results::deliverable_search(s2, kind),
                        ),
                    },
                    None => recording_done(r2, s2, result),
                }
            },
        },
    }
}

/// A run that breaks off.
pub open spec fn aborted(r: RunV, s: StateV, e: Seq<char>) -> NextV {
    NextV {
        run: RunV { pending: PendingV::Nothing, ..r },
        state: s,
        action: RunActionV::Aborted(e),
    }
}

/// What follows the search for an attempt's deliverable.
pub open spec fn deliverable_found(r: RunV, s: StateV, outcome: Result<JValue, Seq<char>>) -> NextV {
    match outcome {
        Err(e) => aborted(r, s, e),
        Ok(response) => match r.pending {
            PendingV::Deliverable { result, kind } => {
                let (s2, reason) = results::validated(
                    s,
                    results::deliverable_in(response, s, kind),
                    kind,
                );
                match reason {
                    Some(why) => recording(
                        r,
                        s2,
                        facts::preview_view(result),
                        "missing_terminal_deliverable"@,
                        Some(why),
                        PendingV::AttemptRetry {
                            reason: why,
                            error: "MISSING_TERMINAL_DELIVERABLE: "@ + why,
                        },
                    ),
                    None => recording_done(r, s2, result),
                }
            },
            _ => aborted(r, s, seq![]),
        },
    }
}

/// The end of the attempts: the results are written.
pub open spec fn finishing(r: RunV, s: StateV, w: ReadingsV) -> NextV {
    let s2 = task::finished(StateV { shell_spent: w.spent, ..s }, w.now);
    NextV {
        run: RunV { pending: PendingV::Results { done: s2.status == TaskStatus::Done }, ..r },
        state: s2,
        action: RunActionV::PersistResults,
    }
}

/// Another attempt, where there are retries and budget left for one.
pub open spec fn retrying(
    r: RunV,
    s: StateV,
    reason: Seq<char>,
    error: Seq<char>,
    w: ReadingsV,
) -> NextV {
    let r2 = RunV { retries: r.retries + 1, ..r };
    if r2.retries > r2.max_retries {
        finishing(r2, task::failed(s, error), w)
    } else if !w.budget_left {
        finishing(r2, StateV { status: TaskStatus::PartialBudgetOverdraw, ..s }, w)
    } else {
        attempting(RunV { retry_reason: Some(reason), ..r2 }, s)
    }
}

/// What follows an attempt that did not pass.
#[derive(Debug)]
pub enum ReviewRetryAction {
    Retry(String),
    Fail(String),
    PartialBudgetOverdraw,
}

/// What follows an attempt that did not pass: another one while there are retries and budget left.
pub fn review_retry_action(
    retries: u32,
    max_retries: u32,
    budget_left: bool,
    reason: String,
) -> (r: ReviewRetryAction)
    ensures
        match r {
            ReviewRetryAction::Fail(why) => retries > max_retries && why == reason,
            ReviewRetryAction::PartialBudgetOverdraw => retries <= max_retries && !budget_left,
            ReviewRetryAction::Retry(why) => retries <= max_retries && budget_left && why == reason,
        },
{
    if retries > max_retries {
        ReviewRetryAction::Fail(reason)
    } else if !budget_left {
        ReviewRetryAction::PartialBudgetOverdraw
    } else {
        ReviewRetryAction::Retry(reason)
    }
}

/// A run with one more artifact.
pub open spec fn noted(r: RunV, s: StateV, kind: Seq<char>) -> RunV {
    RunV {
        artifacts: r.artifacts.push(
            kind + task::external_id(s) + ":"@ + text::decimal(r.attempt as nat),
        ),
        ..r
    }
}

/// What follows the record of an attempt.
pub open spec fn attempt_recorded(
    r: RunV,
    s: StateV,
    outcome: Result<(), Seq<char>>,
    w: ReadingsV,
) -> NextV {
    match outcome {
        Err(e) => aborted(r, s, e),
        Ok(_) => {
            let r2 = noted(r, s, "attempt:"@);
            match r.pending {
                PendingV::AttemptDone { result } => NextV {
                    run: RunV { pending: PendingV::Nothing, ..r2 },
                    state: StateV { result: Some(result), phase: "review"@, ..s },
                    action: RunActionV::Review { result },
                },
                PendingV::AttemptRetry { reason, error } => retrying(
                    r2,
                    StateV { result: None, ..s },
                    reason,
                    error,
                    w,
                ),
                PendingV::AttemptFailed { error } => finishing(r2, task::failed(s, error), w),
                _ => aborted(r2, s, seq![]),
            }
        },
    }
}

// ── Reviews ─────────────────────────────────────────────────────────────

/// What follows a review: its record.
pub open spec fn reviewed(
    r: RunV,
    s: StateV,
    outcome: Result<VerdictV, Seq<char>>,
    reviewed_at: Seq<char>,
) -> NextV {
    let (verdict, reason, pending) = match outcome {
        Ok(VerdictV::Passed) => ("ok"@, None::<Seq<char>>, PendingV::ReviewPassed),
        Ok(VerdictV::Retry(reason)) => (
            "retry"@,
            Some(reason),
            PendingV::ReviewRetry { reason },
        ),
        Err(e) => ("error"@, Some(e), PendingV::ReviewFailed { error: e }),
    };
    NextV {
        run: RunV { pending, ..r },
        state: s,
        action: RunActionV::PersistReview(
            persist::ingest_of(
                s,
                facts::review_fact(s, r.attempt, verdict, reason, reviewed_at),
            ),
        ),
    }
}

pub const NOT_REVIEWED: &'static str =
    "NO_REVIEW_BUDGET: the budget left nothing for the review, so the result was not reviewed";

/// What follows where the budget leaves nothing for the review: the task ends with a result that
/// was not reviewed, and is not done.
pub open spec fn unreviewed(r: RunV, s: StateV, w: ReadingsV) -> NextV {
    finishing(
        r,
        StateV {
            status: TaskStatus::PartialBudgetOverdraw,
            error: Some(NOT_REVIEWED@),
            ..s
        },
        w,
    )
}

/// What follows the record of a review.
pub open spec fn review_recorded(
    r: RunV,
    s: StateV,
    outcome: Result<(), Seq<char>>,
    w: ReadingsV,
) -> NextV {
    match outcome {
        Err(e) => aborted(r, s, e),
        Ok(_) => {
            let r2 = noted(r, s, "review:"@);
            match r.pending {
                PendingV::ReviewPassed => finishing(
                    r2,
                    StateV { status: TaskStatus::Done, ..s },
                    w,
                ),
                PendingV::ReviewRetry { reason } => retrying(
                    r2,
                    s,
                    reason,
                    "REVIEW_REJECTED: "@ + reason,
                    w,
                ),
                PendingV::ReviewFailed { error } => finishing(
                    r2,
                    task::failed(s, "REVIEW_ERROR: "@ + error),
                    w,
                ),
                _ => aborted(r2, s, seq![]),
            }
        },
    }
}

// ── The end ─────────────────────────────────────────────────────────────

/// The result of a task.
pub open spec fn final_result(r: RunV, s: StateV) -> ResultV {
    ResultV {
        task_id: r.task_id,
        status: s.status,
        shell_spent: s.shell_spent,
        artifacts_written: r.artifacts,
        result: s.result,
        error: s.error,
        deliverable_kind: s.deliverable_kind,
        deliverable_fact_id: s.deliverable_fact_id,
    }
}

/// A run that is over.
pub open spec fn over(r: RunV, s: StateV) -> NextV {
    NextV {
        run: RunV { pending: PendingV::Nothing, ..r },
        state: s,
        action: RunActionV::Finished(final_result(r, s)),
    }
}

/// The end of a run, with more artifacts and an error about them where there was one.
pub open spec fn closing(
    r: RunV,
    s: StateV,
    more: Seq<Seq<char>>,
    error: Option<Seq<char>>,
) -> NextV {
    let s2 = match error {
        Some(e) => StateV { error: Some(amended(s.error, e)), ..s },
        None => s,
    };
    over(RunV { artifacts: r.artifacts + more, ..r }, s2)
}

/// The end of a run that never started.
pub open spec fn early_closing(
    r: RunV,
    s: StateV,
    more: Seq<Seq<char>>,
    error: Option<Seq<char>>,
) -> NextV {
    let result = match r.early {
        Some(e) => e,
        None => early_result(r, s),
    };
    NextV {
        run: RunV { pending: PendingV::Nothing, early: None, ..r },
        state: s,
        action: RunActionV::Finished(closed(result, more, error)),
    }
}

/// A task whose results could not be written: one that was done is so no more.
pub open spec fn unwritten(s: StateV, done: bool, e: Seq<char>) -> StateV {
    if done {
        StateV {
            status: TaskStatus::Failed,
            phase: "persistence"@,
            error: Some("PERSISTENCE_ERROR: "@ + e),
            ..s
        }
    } else if s.error is None {
        StateV { error: Some("PERSISTENCE_ERROR: "@ + e), ..s }
    } else {
        s
    }
}

/// What follows the writing of the results.
pub open spec fn results_written(
    r: RunV,
    s: StateV,
    outcome: Result<Seq<Seq<char>>, Seq<char>>,
) -> NextV {
    match r.pending {
        PendingV::Results { done } => match outcome {
            Ok(more) => closing(r, s, more, None),
            Err(e) => NextV {
                run: RunV { pending: PendingV::LocalFailure { done }, ..r },
                state: unwritten(s, done, e),
                action: RunActionV::WriteLocalFailure { persistence_error: Some(e) },
            },
        },
        PendingV::Remediation { local } => {
            let (more, error) = match outcome {
                Ok(more) => (more, None::<Seq<char>>),
                Err(e) => (seq![], Some(e)),
            };
            match local {
                Some(path) => NextV {
                    run: RunV { pending: PendingV::Closing { more, failure: error }, ..r },
                    state: s,
                    action: RunActionV::UpdateLocalFailure {
                        path,
                        memory_persisted: outcome is Ok,
                        persistence_error: error,
                    },
                },
                None => closing(r, s, more, error),
            }
        },
        PendingV::EarlyResults { local } => {
            let (more, error) = match outcome {
                Ok(more) => (more, None::<Seq<char>>),
                Err(e) => (seq![], Some(e)),
            };
            match local {
                Some(path) => NextV {
                    run: RunV { pending: PendingV::EarlyClosing { more, failure: error }, ..r },
                    state: s,
                    action: RunActionV::UpdateLocalFailure {
                        path,
                        memory_persisted: outcome is Ok,
                        persistence_error: error,
                    },
                },
                None => early_closing(r, s, more, error),
            }
        },
        _ => aborted(r, s, seq![]),
    }
}

/// What follows the writing of the local record: its path, where it was written.
pub open spec fn local_written(r: RunV, s: StateV, path: Option<Seq<char>>) -> NextV {
    let note = match path {
        Some(p) => seq!["local_failure:"@ + p],
        None => seq![],
    };
    match r.pending {
        PendingV::LocalFailure { done } => {
            let r2 = RunV { artifacts: r.artifacts + note, ..r };
            if done {
                NextV {
                    run: RunV { pending: PendingV::Remediation { local: path }, ..r2 },
                    state: s,
                    action: RunActionV::PersistResults,
                }
            } else {
                over(r2, s)
            }
        },
        PendingV::EarlyLocal => {
            let early = match r.early {
                Some(e) => e,
                None => early_result(r, s),
            };
            NextV {
                run: RunV {
                    early: Some(closed(early, note, None)),
                    pending: PendingV::EarlyResults { local: path },
                    ..r
                },
                state: s,
                action: RunActionV::PersistResults,
            }
        },
        _ => aborted(r, s, seq![]),
    }
}

/// What follows the last change of the local record.
pub open spec fn local_updated(r: RunV, s: StateV) -> NextV {
    match r.pending {
        PendingV::Closing { more, failure: error } => closing(r, s, more, error),
        PendingV::EarlyClosing { more, failure: error } => early_closing(r, s, more, error),
        _ => aborted(r, s, seq![]),
    }
}

// ── Laws ────────────────────────────────────────────────────────────────

/// A task is done only by a review that passed it.
pub proof fn law_done_needs_a_passed_review(
    r: RunV,
    s: StateV,
    attempt: Result<(), Seq<char>>,
    review: Result<(), Seq<char>>,
    w: ReadingsV,
)
    requires
        s.status != TaskStatus::Done,
    ensures
        attempt_recorded(r, s, attempt, w).state.status != TaskStatus::Done,
        review_recorded(r, s, review, w).state.status == TaskStatus::Done ==> r.pending
            is ReviewPassed,
{
}

/// A task whose results could not be written is never reported as done.
pub proof fn law_unwritten_task_is_not_done(r: RunV, s: StateV, e: Seq<char>)
    requires
        r.pending == (PendingV::Results { done: s.status == TaskStatus::Done }),
    ensures
        results_written(r, s, Err(e)).state.status != TaskStatus::Done,
        results_written(r, s, Err(e)).state.error is Some,
{
}

/// Retries are limited: another attempt is made only while there are retries and budget left.
pub proof fn law_retries_are_limited(
    r: RunV,
    s: StateV,
    reason: Seq<char>,
    error: Seq<char>,
    w: ReadingsV,
)
    ensures
        retrying(r, s, reason, error, w).action is Execute <==> r.retries < r.max_retries
            && w.budget_left,
        retrying(r, s, reason, error, w).run.retries == r.retries + 1,
        r.retries >= r.max_retries ==> retrying(r, s, reason, error, w).state.status
            == TaskStatus::Failed,
{
}

/// A task is attempted once and then once for every retry, so never more often than the limit of
/// retries and one: this holds of the first attempt, and every step that leads to another keeps
/// it.
pub proof fn law_attempts_are_limited(
    r: RunV,
    s: StateV,
    provider: Result<(), Seq<char>>,
    record: Result<(), Seq<char>>,
    now: Seq<char>,
    w: ReadingsV,
)
    requires
        r.max_retries >= 0,
    ensures
        r.attempt == 0 && r.retries == 0 && provided(r, s, provider, now).action is Execute ==> {
            let next = provided(r, s, provider, now).run;
            next.attempt == next.retries + 1 && next.attempt <= next.max_retries + 1
        },
        r.attempt == r.retries + 1 && attempt_recorded(r, s, record, w).action is Execute ==> {
            let next = attempt_recorded(r, s, record, w).run;
            next.attempt == next.retries + 1 && next.attempt <= next.max_retries + 1
        },
        r.attempt == r.retries + 1 && review_recorded(r, s, record, w).action is Execute ==> {
            let next = review_recorded(r, s, record, w).run;
            next.attempt == next.retries + 1 && next.attempt <= next.max_retries + 1
        },
{
}

/// A task that is too complex for its budget is never attempted: it ends as too complex, with a
/// local record first.
pub proof fn law_too_complex_task_is_not_attempted(r: RunV, s: StateV, now: Seq<char>)
    requires
        r.plan is Some,
    ensures
        priced(r, s, Ok(()), true, now).state.status == TaskStatus::TooComplex,
        priced(r, s, Ok(()), true, now).action is WriteLocalFailure,
        priced(r, s, Ok(()), true, now).run.attempt == r.attempt,
        priced(r, s, Ok(()), true, now).run.early matches Some(e) && e.status
            == TaskStatus::TooComplex && e.error is Some && e.result is None,
{
}

/// Every attempt that is recorded is among the artifacts of the task.
pub proof fn law_records_are_artifacts(
    r: RunV,
    s: StateV,
    w: ReadingsV,
)
    requires
        r.pending is AttemptDone || r.pending is AttemptRetry || r.pending is AttemptFailed,
    ensures
        attempt_recorded(r, s, Ok(()), w).run.artifacts == r.artifacts.push(
            "attempt:"@ + task::external_id(s) + ":"@ + text::decimal(r.attempt as nat),
        ),
{
}

/// A task that never starts leaves a local record before anything else, and its result names the
/// error.
pub proof fn law_early_failure_is_recorded_locally(
    r: RunV,
    s: StateV,
    error: Seq<char>,
    now: Seq<char>,
)
    ensures
        refused(r, s, error, now).action is WriteLocalFailure,
        refused(r, s, error, now).run.early matches Some(e) && e.error == Some(error) && e.status
            == TaskStatus::Failed && e.result is None,
{
}

/// What a run is about never changes once its task was found: no step after the recall touches the
/// task, its context, the plan once it was made, or the prompt for repairs.
pub proof fn law_run_keeps_its_task(
    r: RunV,
    s: StateV,
    said: Result<Seq<char>, Seq<char>>,
    found: Result<JValue, Seq<char>>,
    verdict: Result<VerdictV, Seq<char>>,
    outcome: Result<(), Seq<char>>,
    started_at: Seq<char>,
    ended_at: Seq<char>,
    w: ReadingsV,
)
    ensures
        same_task(r, executed(r, s, said, started_at, ended_at).run),
        same_task(r, deliverable_found(r, s, found).run),
        same_task(r, attempt_recorded(r, s, outcome, w).run),
        same_task(r, reviewed(r, s, verdict, ended_at).run),
        same_task(r, review_recorded(r, s, outcome, w).run),
        same_task(r, unreviewed(r, s, w).run),
        same_task(r, provided(r, s, outcome, ended_at).run),
{
}

/// Whether two runs are about the same task.
pub open spec fn same_task(a: RunV, b: RunV) -> bool {
    &&& a.task_id == b.task_id
    &&& a.task_text == b.task_text
    &&& a.context == b.context
    &&& a.repair_prompt == b.repair_prompt
    &&& a.plan == b.plan
    &&& a.max_retries == b.max_retries
}

/// A task that was found is what memory is searched for: its text is the query, in the context
/// that its fact names, else in the one that the run was started with.
pub proof fn law_found_task_is_searched_for(r: RunV, s: StateV, t: ResolvedV, now: Seq<char>)
    ensures
        ({
            let next = resolved(r, s, Ok(t), now);
            &&& next.run.task_text == t.fact
            &&& next.state.task_fact_id == Some(t.task_fact_id)
            &&& next.state.external_task_id == t.external_task_id
            &&& facts::metadata_text(t.raw, "context_key"@) matches Some(key)
                ==> next.state.context_key == key
            &&& facts::metadata_text(t.raw, "context_key"@) is None ==> next.state.context_key
                == r.default_context_key
            &&& facts::metadata_text(t.raw, "work_key"@) matches Some(key) ==> next.state.work_key
                == key
            &&& facts::metadata_text(t.raw, "work_key"@) is None ==> next.state.work_key
                == r.work_key
            &&& next.action matches RunActionV::Recall(p) && p.query == t.fact && p.key
                == next.state.context_key && p.agent_id == s.agent_id && p.swarm_id == s.swarm_id
        }),
{
}

/// What memory recalled for a task is what every attempt at it and every review of it is shown:
/// to the letter, through the planning, the pricing and the choice of a provider.
pub proof fn law_recalled_context_reaches_attempt_and_review(
    r: RunV,
    s: StateV,
    answer: JValue,
    context: Seq<char>,
    plan: Result<JValue, CallErrorV>,
    price: Result<(), Seq<char>>,
    too_complex: bool,
    provider: Result<(), Seq<char>>,
    result: Seq<char>,
    now: Seq<char>,
)
    requires
        json::jget_str(answer, "context"@) == Some(context),
        text::trimmed(context).len() > 0,
    ensures
        ({
            let a = recalled(r, s, Ok(answer), now);
            let b = planned(a.run, a.state, plan, now);
            let c = priced(b.run, b.state, price, too_complex, now);
            let d = provided(c.run, c.state, provider, now);
            let m = execution_of(d.run);
            &&& m.task_text == r.task_text
            &&& m.retrieved_context == Some(context)
            &&& prompts::shows(
                execution::told(execution::turn_request(m, d.state)),
                "retrieved_context"@,
                context,
            )
            &&& review_of(d.run, result).retrieved_context == Some(context)
            &&& prompts::shows(
                execution::told(review::review_request(review_of(d.run, result), d.state)),
                "retrieved_context"@,
                context,
            )
        }),
{
    let _ = text::law_trimming_takes_only_space(context);
    let a = recalled(r, s, Ok(answer), now);
    let b = planned(a.run, a.state, plan, now);
    let c = priced(b.run, b.state, price, too_complex, now);
    let d = provided(c.run, c.state, provider, now);
    execution::law_turn_shows_its_task(execution_of(d.run), d.state);
    review::law_review_shows_task_and_result(review_of(d.run, result), d.state);
}

/// Any attempt and any review of a run show the run's task, and its context where there is any.
pub proof fn law_attempt_and_review_show_the_task(r: RunV, s: StateV, result: Seq<char>)
    ensures
        prompts::shows(
            execution::told(execution::turn_request(execution_of(r), s)),
            "task"@,
            r.task_text,
        ),
        prompts::shows(
            execution::told(review::review_request(review_of(r, result), s)),
            "task"@,
            r.task_text,
        ),
        prompts::shows(
            execution::told(review::review_request(review_of(r, result), s)),
            "execution_result"@,
            result,
        ),
        text::trimmed(r.context).len() > 0 ==> prompts::shows(
            execution::told(execution::turn_request(execution_of(r), s)),
            "retrieved_context"@,
            r.context,
        ) && prompts::shows(
            execution::told(review::review_request(review_of(r, result), s)),
            "retrieved_context"@,
            r.context,
        ),
        text::trimmed(r.context).len() == 0 ==> execution_of(r).retrieved_context is None
            && review_of(r, result).retrieved_context is None,
{
    execution::law_turn_shows_its_task(execution_of(r), s);
    review::law_review_shows_task_and_result(review_of(r, result), s);
}

/// Whether an attempt is asked for because the last one was sent back for a reason: its question
/// goes by the prompt for repairs, and shows the task and the reason.
pub open spec fn asks_again(next: NextV, prompt: Seq<char>, task: Seq<char>, reason: Seq<char>) -> bool {
    &&& next.action is Execute
    &&& next.state.iteration < execution::MAX_EXECUTION_ITERATIONS ==> (execution::turn(
        execution_of(next.run),
        next.state,
    ).1 matches ActionV::Ask { request, .. } && {
        &&& request.system == prompt
        &&& request.messages.len() == 1
        &&& prompts::shows(execution::told(request), "task"@, task)
        &&& prompts::shows(execution::told(request), "reviewer_output"@, reason)
    })
}

proof fn lemma_asks_again(r: RunV, s: StateV, reason: Seq<char>, error: Seq<char>, w: ReadingsV)
    requires
        r.retries < r.max_retries,
        w.budget_left,
    ensures
        asks_again(retrying(r, s, reason, error, w), r.repair_prompt, r.task_text, reason),
{
    let next = retrying(r, s, reason, error, w);
    execution::law_turn_shows_its_task(
        execution_of(next.run),
        StateV { iteration: next.state.iteration + 1, ..next.state },
    );
}

/// An attempt that a review sent back is followed by one that is told why, while there are
/// retries and budget left.
pub proof fn law_rejected_attempt_is_told_why(
    r: RunV,
    s: StateV,
    reason: Seq<char>,
    reviewed_at: Seq<char>,
    w: ReadingsV,
)
    requires
        r.retries < r.max_retries,
        w.budget_left,
    ensures
        ({
            let a = reviewed(r, s, Ok(VerdictV::Retry(reason)), reviewed_at);
            let b = review_recorded(a.run, a.state, Ok(()), w);
            asks_again(b, r.repair_prompt, r.task_text, reason)
        }),
{
    let a = reviewed(r, s, Ok(VerdictV::Retry(reason)), reviewed_at);
    lemma_asks_again(
        noted(a.run, a.state, "review:"@),
        a.state,
        reason,
        "REVIEW_REJECTED: "@ + reason,
        w,
    );
}

/// An attempt whose answer is no result is followed by one that is told so, while there are
/// retries and budget left; no review is made of it.
pub proof fn law_invalid_attempt_is_told_why(
    r: RunV,
    s: StateV,
    said: Seq<char>,
    reason: Seq<char>,
    started_at: Seq<char>,
    ended_at: Seq<char>,
    w: ReadingsV,
)
    requires
        sanitize::sanitized(said) == SanitizedV::Rejected(reason),
        r.retries < r.max_retries,
        w.budget_left,
    ensures
        ({
            let a = executed(r, s, Ok(said), started_at, ended_at);
            let b = attempt_recorded(a.run, a.state, Ok(()), w);
            asks_again(b, r.repair_prompt, r.task_text, reason)
        }),
{
    let a = executed(r, s, Ok(said), started_at, ended_at);
    lemma_asks_again(
        noted(a.run, a.state, "attempt:"@),
        StateV { result: None, ..a.state },
        reason,
        "EXECUTION_RESULT_INVALID: "@ + reason,
        w,
    );
}

/// An attempt that left no deliverable where one was owed is followed by one that is told so,
/// while there are retries and budget left.
pub proof fn law_attempt_without_deliverable_is_told_why(
    r: RunV,
    s: StateV,
    response: JValue,
    result: Seq<char>,
    kind: DeliverableKind,
    reason: Seq<char>,
    w: ReadingsV,
)
    requires
        r.pending == (PendingV::Deliverable { result, kind }),
        results::validated(s, results::deliverable_in(response, s, kind), kind).1 == Some(reason),
        r.retries < r.max_retries,
        w.budget_left,
    ensures
        ({
            let a = deliverable_found(r, s, Ok(response));
            let b = attempt_recorded(a.run, a.state, Ok(()), w);
            asks_again(b, r.repair_prompt, r.task_text, reason)
        }),
{
    let a = deliverable_found(r, s, Ok(response));
    lemma_asks_again(
        noted(a.run, a.state, "attempt:"@),
        StateV { result: None, ..a.state },
        reason,
        "MISSING_TERMINAL_DELIVERABLE: "@ + reason,
        w,
    );
}

/// The result of an attempt is what is reviewed, and what the task has as its result: from the
/// model's answer, with no deliverable owed.
pub proof fn law_result_is_what_is_reviewed(
    r: RunV,
    s: StateV,
    said: Seq<char>,
    result: Seq<char>,
    started_at: Seq<char>,
    ended_at: Seq<char>,
    w: ReadingsV,
)
    requires
        sanitize::sanitized(said) == SanitizedV::Accepted(result),
        results::needs_deliverable(s) is None,
    ensures
        ({
            let a = executed(r, s, Ok(said), started_at, ended_at);
            let b = attempt_recorded(a.run, a.state, Ok(()), w);
            &&& b.action == RunActionV::Review { result }
            &&& b.state.result == Some(result)
            &&& prompts::shows(
                execution::told(review::review_request(review_of(b.run, result), b.state)),
                "execution_result"@,
                result,
            )
        }),
{
    let a = executed(r, s, Ok(said), started_at, ended_at);
    let b = attempt_recorded(a.run, a.state, Ok(()), w);
    review::law_review_shows_task_and_result(review_of(b.run, result), b.state);
}

/// So it is where a deliverable was owed and found: it is noted, and the result is reviewed.
pub proof fn law_delivered_result_is_what_is_reviewed(
    r: RunV,
    s: StateV,
    response: JValue,
    result: Seq<char>,
    kind: DeliverableKind,
    w: ReadingsV,
)
    requires
        r.pending == (PendingV::Deliverable { result, kind }),
        results::validated(s, results::deliverable_in(response, s, kind), kind).1 is None,
    ensures
        ({
            let a = deliverable_found(r, s, Ok(response));
            let b = attempt_recorded(a.run, a.state, Ok(()), w);
            &&& b.action == RunActionV::Review { result }
            &&& b.state.result == Some(result)
        }),
{
}

/// A result that passed its review is what the run finishes with: the task is done, its result,
/// its cost and its artifacts are reported.
pub proof fn law_passed_result_is_reported(
    r: RunV,
    s: StateV,
    reviewed_at: Seq<char>,
    w: ReadingsV,
    more: Seq<Seq<char>>,
)
    ensures
        ({
            let a = reviewed(r, s, Ok(VerdictV::Passed), reviewed_at);
            let b = review_recorded(a.run, a.state, Ok(()), w);
            let c = results_written(b.run, b.state, Ok(more));
            &&& b.action is PersistResults
            &&& b.state.result == s.result
            &&& c.action matches RunActionV::Finished(report) && {
                &&& report.task_id == r.task_id
                &&& report.status == TaskStatus::Done
                &&& report.result == s.result
                &&& report.error == s.error
                &&& report.shell_spent == w.spent
                &&& report.deliverable_fact_id == s.deliverable_fact_id
                &&& forall|i: int|
                    0 <= i < r.artifacts.len() ==> report.artifacts_written.contains(
                        #[trigger] r.artifacts[i],
                    )
                &&& forall|i: int|
                    0 <= i < more.len() ==> report.artifacts_written.contains(#[trigger] more[i])
            }
        }),
{
    let a = reviewed(r, s, Ok(VerdictV::Passed), reviewed_at);
    let b = review_recorded(a.run, a.state, Ok(()), w);
    let c = results_written(b.run, b.state, Ok(more));
    let all = c.action->Finished_0.artifacts_written;
    let n = r.artifacts.len() + 1;
    assert forall|i: int| 0 <= i < r.artifacts.len() implies all.contains(
        #[trigger] r.artifacts[i],
    ) by {
        assert(all[i] == r.artifacts[i]);
    }
    assert forall|i: int| 0 <= i < more.len() implies all.contains(#[trigger] more[i]) by {
        assert(all[n + i] == more[i]);
    }
}

/// A run that fails says why: a failed attempt with its error, a rejected one with the reason, a
/// review that could not be made with what went wrong.
pub proof fn law_failure_is_reported(
    r: RunV,
    s: StateV,
    e: Seq<char>,
    reason: Seq<char>,
    at: Seq<char>,
    w: ReadingsV,
    more: Seq<Seq<char>>,
)
    requires
        r.retries >= r.max_retries,
        s.status != TaskStatus::Done,
    ensures
        ({
            let a = executed(r, s, Err(e), at, at);
            let b = attempt_recorded(a.run, a.state, Ok(()), w);
            results_written(b.run, b.state, Ok(more)).action matches RunActionV::Finished(report)
                && report.status == TaskStatus::Failed && report.error == Some(e)
        }),
        ({
            let a = reviewed(r, s, Ok(VerdictV::Retry(reason)), at);
            let b = review_recorded(a.run, a.state, Ok(()), w);
            results_written(b.run, b.state, Ok(more)).action matches RunActionV::Finished(report)
                && report.status == TaskStatus::Failed && (report.error matches Some(said)
                && text::has_suffix(said, reason))
        }),
        ({
            let a = reviewed(r, s, Err(e), at);
            let b = review_recorded(a.run, a.state, Ok(()), w);
            results_written(b.run, b.state, Ok(more)).action matches RunActionV::Finished(report)
                && report.status == TaskStatus::Failed && (report.error matches Some(said)
                && text::has_suffix(said, e))
        }),
{
    let p = "REVIEW_REJECTED: "@ + reason;
    assert(p.subrange(p.len() - reason.len(), p.len() as int) =~= reason);
    let q = "REVIEW_ERROR: "@ + e;
    assert(q.subrange(q.len() - e.len(), q.len() as int) =~= e);
}

/// A task that can not start says why in its result, whatever step refused it.
pub proof fn law_refusal_names_its_cause(r: RunV, s: StateV, e: Seq<char>, now: Seq<char>)
    ensures
        resolved(r, s, Err(CallErrorV::Failed(e)), now).run.early matches Some(report)
            && report.status == TaskStatus::Failed && (report.error matches Some(said)
            && text::has_suffix(said, e)),
        priced(r, s, Err(e), false, now).run.early matches Some(report) && report.status
            == TaskStatus::Failed && (report.error matches Some(said) && text::has_suffix(said, e)),
        provided(r, s, Err(e), now).run.early matches Some(report) && report.status
            == TaskStatus::Failed && (report.error matches Some(said) && text::has_suffix(said, e)),
        recalled(r, s, Err(CallErrorV::TimedOut), now).run.early matches Some(report)
            && report.status == TaskStatus::Failed && report.error is Some,
        planned(r, s, Err(CallErrorV::TimedOut), now).run.early matches Some(report)
            && report.status == TaskStatus::Failed && report.error is Some,
{
    let a = "RESOLVE_FAILED: "@ + e;
    assert(a.subrange(a.len() - e.len(), a.len() as int) =~= e);
    let b = "PRICING_CONFIG_ERROR: "@ + e;
    assert(b.subrange(b.len() - e.len(), b.len() as int) =~= e);
    let c = "LLM_RESOLVE_FAILED: "@ + e;
    assert(c.subrange(c.len() - e.len(), c.len() as int) =~= e);
}

/// A recall that failed is no obstacle: the task is planned all the same, with its own text.
pub proof fn law_failed_recall_is_no_obstacle(r: RunV, s: StateV, e: Seq<char>, now: Seq<char>)
    ensures
        ({
            let next = recalled(r, s, Err(CallErrorV::Failed(e)), now);
            &&& next.state == s
            &&& next.run == r
            &&& next.action matches RunActionV::PlanInference(p) && p.query == r.task_text && p.key
                == s.context_key && p.agent_id == s.agent_id
        }),
{
}

/// The plan of a task decides what it is done with: the planning's answer, else the recall's; its
/// model is priced, and reached by a coding CLI or with the key that the plan names.
pub proof fn law_plan_decides_the_model(
    r: RunV,
    s: StateV,
    answer: JValue,
    p: plan::PlanV,
    now: Seq<char>,
)
    requires
        plan::plan_in(answer) == Some(p),
    ensures
        ({
            let a = planned(r, s, Ok(answer), now);
            &&& a.run.plan == Some(p)
            &&& a.state.model_current == p.model_id
            &&& a.action matches RunActionV::Price { model_id, pricing, local_cli } && model_id
                == p.model_id && pricing == p.pricing && local_cli == (p.local_cli is Some)
            &&& p.local_cli is Some ==> a.state.backend_current == "local_cli"@ && priced(
                a.run,
                a.state,
                Ok(()),
                false,
                now,
            ).action is UseLocalCli
            &&& p.local_cli is None && p.secret_ref is Some ==> (priced(
                a.run,
                a.state,
                Ok(()),
                false,
                now,
            ).action matches RunActionV::ResolveSecret { key, model_id, secret_ref } && model_id
                == p.model_id && Some(secret_ref) == p.secret_ref && key == s.context_key)
        }),
{
}

// ── Execution ───────────────────────────────────────────────────────────

fn with_prefix(prefix: &str, s: &str) -> (r: String)
    ensures
        r@ == prefix@ + s@,
{
    let mut out = prefix.to_owned();
    out.append(s);
    out
}

fn take_workspace(raw: &Json) -> (r: Option<String>)
    ensures
        text::opt_text(r) == task_workspace(raw@),
{
    match task_metadata_string(raw, "workspace_dir") {
        Some(s) => Some(s),
        None => match task_metadata_string(raw, "local_cli_workspace") {
            Some(s) => Some(s),
            None => match task_metadata_string(raw, "working_directory") {
                Some(s) => Some(s),
                None => match task_metadata_string(raw, "repo_worktree") {
                    Some(s) => Some(s),
                    None => task_metadata_string(raw, "cwd"),
                },
            },
        },
    }
}

fn text_or(o: Option<String>, other: &str) -> (r: String)
    ensures
        r@ == or_text(text::opt_text(o), other@),
{
    match o {
        Some(s) => s,
        None => other.to_owned(),
    }
}

/// An error with one more about the results.
pub fn amend(existing: &Option<String>, e: &str) -> (r: String)
    ensures
        r@ == amended(text::opt_text(*existing), e@),
{
    match existing {
        Some(x) => {
            let mut out = x.clone();
            out.append("; PERSISTENCE_ERROR: ");
            out.append(e);
            out
        },
        None => with_prefix("PERSISTENCE_ERROR: ", e),
    }
}

fn append_all(list: &mut Vec<String>, more: Vec<String>)
    ensures
        text::texts(final(list)@) == text::texts(old(list)@) + text::texts(more@),
{
    let ghost added = more@;
    let mut more = more;
    list.append(&mut more);
    assert(text::texts(list@) =~= text::texts(old(list)@) + text::texts(added));
}

fn one_or_none(prefix: &str, o: &Option<String>) -> (r: Vec<String>)
    ensures
        text::texts(r@) == (match text::opt_text(*o) {
            Some(s) => seq![prefix@ + s],
            None => seq![],
        }),
{
    let mut out: Vec<String> = Vec::new();
    match o {
        Some(s) => {
            out.push(with_prefix(prefix, s.as_str()));
            assert(text::texts(out@) =~= seq![prefix@ + s@]);
        },
        None => {
            assert(text::texts(out@) =~= seq![]);
        },
    }
    out
}

fn close(result: TaskResult, more: Vec<String>, error: Option<String>) -> (r: TaskResult)
    ensures
        r@ == closed(result@, text::texts(more@), text::opt_text(error)),
{
    let mut result = result;
    append_all(&mut result.artifacts_written, more);
    match error {
        Some(e) => {
            let said = amend(&result.error, e.as_str());
            result.error = Some(said);
        },
        None => {},
    }
    result
}

/// The status of an attempt that gave a result.
pub fn task_attempt_status(state: &TaskState) -> (r: &'static str)
    ensures
        r@ == completed_status(state@),
{
    match state.status {
        TaskStatus::PartialBudgetOverdraw => "partial_budget_overdraw",
        _ => "completed",
    }
}

pub open spec fn unit_view(r: Result<(), String>) -> Result<(), Seq<char>> {
    match r {
        Ok(_) => Ok(()),
        Err(e) => Err(e@),
    }
}

pub open spec fn text_view(r: Result<String, String>) -> Result<Seq<char>, Seq<char>> {
    match r {
        Ok(s) => Ok(s@),
        Err(e) => Err(e@),
    }
}

pub open spec fn json_view(r: Result<Json, String>) -> Result<JValue, Seq<char>> {
    match r {
        Ok(v) => Ok(v@),
        Err(e) => Err(e@),
    }
}

pub open spec fn list_view(r: Result<Vec<String>, String>) -> Result<Seq<Seq<char>>, Seq<char>> {
    match r {
        Ok(v) => Ok(text::texts(v@)),
        Err(e) => Err(e@),
    }
}

pub open spec fn resolved_view(r: Result<ResolvedTask, CallError>) -> Result<
    ResolvedV,
    CallErrorV,
> {
    match r {
        Ok(t) => Ok(t@),
        Err(e) => Err(e@),
    }
}

impl Run {
    /// Begins with the search for the task's fact.
    pub fn begin(
        task_id: &str,
        work_key: &str,
        default_context_key: &str,
        max_retries: u32,
        timeout_secs: u64,
        brand: &str,
        repair_prompt: String,
        nothing_spent: Amount,
    ) -> (r: (Run, RunAction))
        ensures
            r.0@ == begun(
                task_id@,
                work_key@,
                default_context_key@,
                max_retries as int,
                timeout_secs as int,
                brand@,
                repair_prompt@,
                nothing_spent@,
            ),
            r.1@ == RunActionV::Resolve,
    {
        let run = Run {
            task_id: task_id.to_owned(),
            work_key: work_key.to_owned(),
            default_context_key: default_context_key.to_owned(),
            max_retries,
            timeout_secs,
            brand: brand.to_owned(),
            repair_prompt,
            nothing_spent,
            task_text: String::new(),
            context: String::new(),
            recall: None,
            plan: None,
            attempt: 0,
            retries: 0,
            retry_reason: None,
            artifacts: Vec::new(),
            started_at: String::new(),
            ended_at: String::new(),
            early: None,
            pending: Pending::Nothing,
        };
        assert(text::texts(run.artifacts@) =~= seq![]);
        (run, RunAction::Resolve)
    }

    /// The end of a task that never started.
    pub fn stop(&mut self, state: &mut TaskState, now: &str) -> (r: RunAction)
        ensures
            stopped(old(self)@, old(state)@, now@) == (NextV {
                run: final(self)@,
                state: final(state)@,
                action: r@,
            }),
    {
        mark_finished(state, now);
        let written: Vec<String> = Vec::new();
        assert(text::texts(written@) =~= seq![]);
        self.early = Some(
            TaskResult {
                task_id: self.task_id.clone(),
                status: state.status,
                shell_spent: self.nothing_spent.copy(),
                artifacts_written: written,
                result: None,
                error: copy_opt(&state.error),
                deliverable_kind: state.deliverable_kind,
                deliverable_fact_id: copy_opt(&state.deliverable_fact_id),
            },
        );
        self.pending = Pending::EarlyLocal;
        RunAction::WriteLocalFailure { persistence_error: None }
    }

    fn refuse(&mut self, state: &mut TaskState, error: String, now: &str) -> (r: RunAction)
        ensures
            refused(old(self)@, old(state)@, error@, now@) == (NextV {
                run: final(self)@,
                state: final(state)@,
                action: r@,
            }),
    {
        state.fail(error);
        self.stop(state, now)
    }

    fn timeout_message(&self, what: &str) -> (r: String)
        ensures
            r@ == bootstrap_timeout(what@, self@),
    {
        let mut out = what.to_owned();
        out.append(" did not complete within ");
        out.append(decimal_of(self.timeout_secs).as_str());
        out.append("s");
        out
    }

    /// The search for the task's fact came to its end.
    pub fn on_resolved(
        &mut self,
        state: &mut TaskState,
        outcome: Result<ResolvedTask, CallError>,
        now: &str,
    ) -> (r: RunAction)
        ensures
            resolved(old(self)@, old(state)@, resolved_view(outcome), now@) == (NextV {
                run: final(self)@,
                state: final(state)@,
                action: r@,
            }),
    {
        match outcome {
            Ok(t) => {
                let scope = match t.raw.get_str("scope") {
                    Some(s) => Some(s.to_owned()),
                    None => None,
                };
                state.scope = text_or(scope, "agent-private");
                state.work_key = text_or(
                    task_metadata_string(&t.raw, "work_key"),
                    self.work_key.as_str(),
                );
                state.context_key = text_or(
                    task_metadata_string(&t.raw, "context_key"),
                    self.default_context_key.as_str(),
                );
                state.deliverable_kind = match task_metadata_string(&t.raw, "deliverable_kind") {
                    Some(name) => DeliverableKind::parse(name.as_str()),
                    None => None,
                };
                state.workspace_dir = take_workspace(&t.raw);
                state.task_fact_id = Some(t.task_fact_id);
                state.external_task_id = t.external_task_id;
                self.task_text = t.fact;
                RunAction::Recall(
                    RecallParams {
                        key: state.context_key.clone(),
                        agent_id: state.agent_id.clone(),
                        swarm_id: state.swarm_id.clone(),
                        query: self.task_text.clone(),
                        token_budget: 4000,
                    },
                )
            },
            Err(CallError::Failed(e)) => {
                let message = with_prefix("RESOLVE_FAILED: ", e.as_str());
                self.refuse(state, message, now)
            },
            Err(CallError::TimedOut) => {
                state.phase = "bootstrap_resolve".to_owned();
                state.task_fact_id = Some(self.task_id.clone());
                let message = self.timeout_message("BOOTSTRAP_RESOLVE_TIMEOUT: task resolution");
                self.refuse(state, message, now)
            },
        }
    }

    fn ask_plan(&self, state: &TaskState) -> (r: RunAction)
        ensures
            r@ == RunActionV::PlanInference(recall_call(self@, state@)),
    {
        RunAction::PlanInference(
            PlanInferenceParams {
                key: state.context_key.clone(),
                agent_id: state.agent_id.clone(),
                swarm_id: state.swarm_id.clone(),
                query: self.task_text.clone(),
                token_budget: 4000,
            },
        )
    }

    /// The recall came to its end.
    pub fn on_recalled(
        &mut self,
        state: &mut TaskState,
        outcome: Result<Json, CallError>,
        now: &str,
    ) -> (r: RunAction)
        ensures
            recalled(old(self)@, old(state)@, persist::found_view(outcome), now@) == (NextV {
                run: final(self)@,
                state: final(state)@,
                action: r@,
            }),
    {
        match outcome {
            Ok(v) => {
                match v.get_str("context") {
                    Some(extra) => {
                        if extra.unicode_len() > 0 {
                            self.context = extra.to_owned();
                        }
                    },
                    None => {},
                }
                self.recall = Some(v);
                self.ask_plan(state)
            },
            Err(CallError::Failed(_)) => self.ask_plan(state),
            Err(CallError::TimedOut) => {
                state.phase = "bootstrap_recall".to_owned();
                let message = self.timeout_message("BOOTSTRAP_RECALL_TIMEOUT: memory_recall");
                self.refuse(state, message, now)
            },
        }
    }

    fn choose_plan(&self, answer: &Option<Json>) -> (r: Option<RecallExecutionPlan>)
        ensures
            plan::plan_view(r) == chosen_plan(self@, json::opt_owned_json(*answer)),
    {
        let planned = match answer {
            Some(v) => execution_plan_from_recall(v),
            None => None,
        };
        match planned {
            Some(p) => Some(p),
            None => match &self.recall {
                Some(v) => execution_plan_from_recall(v),
                None => None,
            },
        }
    }

    /// The planning came to its end.
    pub fn on_planned(
        &mut self,
        state: &mut TaskState,
        outcome: Result<Json, CallError>,
        now: &str,
    ) -> (r: RunAction)
        ensures
            planned(old(self)@, old(state)@, persist::found_view(outcome), now@) == (NextV {
                run: final(self)@,
                state: final(state)@,
                action: r@,
            }),
    {
        let answer = match outcome {
            Ok(v) => Some(v),
            Err(CallError::Failed(_)) => None,
            Err(CallError::TimedOut) => {
                state.phase = "bootstrap_plan".to_owned();
                let message = self.timeout_message("BOOTSTRAP_PLAN_TIMEOUT: memory_plan_inference");
                return self.refuse(state, message, now);
            },
        };
        match self.choose_plan(&answer) {
            None => self.refuse(state, NO_MODEL.to_owned(), now),
            Some(p) => {
                state.model_current = p.model_id.clone();
                let local_cli = p.local_cli.is_some();
                state.backend_current = if local_cli {
                    "local_cli".to_owned()
                } else {
                    secret_name_for_model(p.model_id.as_str(), self.brand.as_str()).to_owned()
                };
                let pricing = match &p.pricing {
                    Some(v) => Some(v.copy()),
                    None => None,
                };
                let action = RunAction::Price { model_id: p.model_id.clone(), pricing, local_cli };
                self.plan = Some(p);
                action
            },
        }
    }

    /// The search for the model's prices came to its end.
    pub fn on_priced(
        &mut self,
        state: &mut TaskState,
        outcome: Result<(), String>,
        too_complex: bool,
        now: &str,
    ) -> (r: RunAction)
        ensures
            priced(old(self)@, old(state)@, unit_view(outcome), too_complex, now@) == (NextV {
                run: final(self)@,
                state: final(state)@,
                action: r@,
            }),
    {
        match outcome {
            Err(e) => {
                let message = with_prefix("PRICING_CONFIG_ERROR: ", e.as_str());
                return self.refuse(state, message, now);
            },
            Ok(_) => {},
        }
        if too_complex && self.plan.is_some() {
            state.status = TaskStatus::TooComplex;
            state.error = Some(TOO_COMPLEX.to_owned());
            return self.stop(state, now);
        }
        let refusal = match &self.plan {
            None => NO_MODEL,
            Some(p) => match &p.local_cli {
                Some(c) => {
                    let mut config = c.copy();
                    if config.workspace_dir.is_none() {
                        config.workspace_dir = copy_opt(&state.workspace_dir);
                    }
                    return RunAction::UseLocalCli(config);
                },
                None => match &p.secret_ref {
                    Some(secret_ref) => {
                        return RunAction::ResolveSecret {
                            key: state.context_key.clone(),
                            model_id: p.model_id.clone(),
                            secret_ref: secret_ref.copy(),
                        };
                    },
                    None => NO_SECRET_REF,
                },
            },
        };
        self.refuse(state, refusal.to_owned(), now)
    }

    fn attempt_again(&mut self, state: &mut TaskState) -> (r: RunAction)
        requires
            old(self).attempt < u32::MAX,
        ensures
            attempting(old(self)@, old(state)@) == (NextV {
                run: final(self)@,
                state: final(state)@,
                action: r@,
            }),
    {
        self.attempt = self.attempt + 1;
        self.pending = Pending::Nothing;
        state.phase = "execution".to_owned();
        RunAction::Execute
    }

    /// Whether another attempt can be counted.
    pub open spec fn countable(&self) -> bool {
        self.attempt < u32::MAX && self.retries < u32::MAX
    }

    /// Whether another attempt can be counted.
    pub fn can_count(&self) -> (r: bool)
        ensures
            r == self.countable(),
    {
        self.attempt < u32::MAX && self.retries < u32::MAX
    }

    /// The model can be reached, or can not.
    pub fn on_provider(
        &mut self,
        state: &mut TaskState,
        outcome: Result<(), String>,
        now: &str,
    ) -> (r: RunAction)
        requires
            old(self).countable(),
        ensures
            provided(old(self)@, old(state)@, unit_view(outcome), now@) == (NextV {
                run: final(self)@,
                state: final(state)@,
                action: r@,
            }),
    {
        match outcome {
            Err(e) => {
                let message = with_prefix("LLM_RESOLVE_FAILED: ", e.as_str());
                self.refuse(state, message, now)
            },
            Ok(_) => if is_blank(self.task_text.as_str()) {
                self.refuse(state, NO_TASK_CONTEXT.to_owned(), now)
            } else {
                self.attempt_again(state)
            },
        }
    }

    fn copy_context(&self) -> (r: Option<String>)
        ensures
            text::opt_text(r) == context_of(self@),
    {
        if is_blank(self.context.as_str()) {
            None
        } else {
            Some(self.context.clone())
        }
    }

    /// The attempt that is to be made.
    pub fn execution(&self) -> (r: Execution)
        ensures
            r@ == execution_of(self@),
    {
        let by = if self.retry_reason.is_some() {
            None
        } else {
            match &self.plan {
                Some(p) => Some(p),
                None => None,
            }
        };
        Execution::new(
            self.task_text.clone(),
            self.copy_context(),
            copy_opt(&self.retry_reason),
            by,
            self.repair_prompt.clone(),
        )
    }

    /// The review that is to be made.
    pub fn review(&self, result: String) -> (r: Review)
        ensures
            r@ == review_of(self@, result@),
    {
        Review {
            task_text: self.task_text.clone(),
            retrieved_context: self.copy_context(),
            result,
            repair_prompt: self.repair_prompt.clone(),
        }
    }

    fn record(
        &mut self,
        state: &TaskState,
        shown: &Preview,
        status: &str,
        error: Option<&str>,
        pending: Pending,
    ) -> (r: RunAction)
        ensures
            recording(
                old(self)@,
                state@,
                shown@,
                status@,
                text::opt_slice(error),
                pending@,
            ) == (NextV { run: final(self)@, state: state@, action: r@ }),
    {
        let fact = canonical_attempt_fact(
            state,
            self.attempt,
            status,
            self.started_at.as_str(),
            self.ended_at.as_str(),
            shown,
            error,
        );
        self.pending = pending;
        RunAction::PersistAttempt(ingest_fact(state, fact))
    }

    fn record_done(&mut self, state: &TaskState, result: String) -> (r: RunAction)
        ensures
            recording_done(old(self)@, state@, result@) == (NextV {
                run: final(self)@,
                state: state@,
                action: r@,
            }),
    {
        let shown = preview_of(result.as_str());
        let status = task_attempt_status(state);
        self.record(state, &shown, status, None, Pending::AttemptDone { result })
    }

    /// An attempt came to its end.
    pub fn on_executed(
        &mut self,
        state: &mut TaskState,
        outcome: Result<String, String>,
        started_at: String,
        ended_at: String,
    ) -> (r: RunAction)
        ensures
            executed(
                old(self)@,
                old(state)@,
                text_view(outcome),
                started_at@,
                ended_at@,
            ) == (NextV { run: final(self)@, state: final(state)@, action: r@ }),
    {
        self.started_at = started_at;
        self.ended_at = ended_at;
        match outcome {
            Err(e) => {
                let shown = Preview::empty();
                let pending = Pending::AttemptFailed { error: e.clone() };
                self.record(state, &shown, "execution_error", Some(e.as_str()), pending)
            },
            Ok(said) => match sanitize_task_result(said.as_str()) {
                SanitizedTaskResult::Rejected(reason) => {
                    let shown = Preview::empty();
                    let error = with_prefix("EXECUTION_RESULT_INVALID: ", reason.as_str());
                    let pending = Pending::AttemptRetry { reason: reason.clone(), error };
                    self.record(state, &shown, "invalid_result", Some(reason.as_str()), pending)
                },
                SanitizedTaskResult::Accepted(result) => match begin_validation(state) {
                    Some(kind) => {
                        let query = terminal_deliverable_query(state, kind);
                        self.pending = Pending::Deliverable { result, kind };
                        RunAction::FindDeliverable(query)
                    },
                    None => self.record_done(state, result),
                },
            },
        }
    }

    fn abort(&mut self, e: String) -> (r: RunAction)
        ensures
            final(self)@ == (RunV { pending: PendingV::Nothing, ..old(self)@ }),
            r@ == RunActionV::Aborted(e@),
    {
        self.pending = Pending::Nothing;
        RunAction::Aborted(e)
    }

    fn take_pending(&mut self) -> (r: Pending)
        ensures
            r@ == old(self)@.pending,
            final(self)@ == (RunV { pending: PendingV::Nothing, ..old(self)@ }),
    {
        let mut pending = Pending::Nothing;
        std::mem::swap(&mut pending, &mut self.pending);
        pending
    }

    /// The search for an attempt's deliverable came to its end.
    pub fn on_deliverable(&mut self, state: &mut TaskState, outcome: Result<Json, String>) -> (r:
        RunAction)
        ensures
            deliverable_found(old(self)@, old(state)@, json_view(outcome)) == (NextV {
                run: final(self)@,
                state: final(state)@,
                action: r@,
            }),
    {
        let response = match outcome {
            Ok(response) => response,
            Err(e) => {
                return self.abort(e);
            },
        };
        match self.take_pending() {
            Pending::Deliverable { result, kind } => {
                let found = query_terminal_deliverable(&response, state, kind);
                match validate_terminal_deliverable(state, found, kind) {
                    Some(why) => {
                        let shown = preview_of(result.as_str());
                        let error = with_prefix("MISSING_TERMINAL_DELIVERABLE: ", why.as_str());
                        let pending = Pending::AttemptRetry { reason: why.clone(), error };
                        self.record(
                            state,
                            &shown,
                            "missing_terminal_deliverable",
                            Some(why.as_str()),
                            pending,
                        )
                    },
                    None => self.record_done(state, result),
                }
            },
            _ => self.abort(String::new()),
        }
    }

    fn finish(&mut self, state: &mut TaskState, readings: Readings) -> (r: RunAction)
        ensures
            finishing(old(self)@, old(state)@, readings@) == (NextV {
                run: final(self)@,
                state: final(state)@,
                action: r@,
            }),
    {
        state.shell_spent = readings.spent;
        mark_finished(state, readings.now.as_str());
        self.pending = Pending::Results { done: state.status == TaskStatus::Done };
        RunAction::PersistResults
    }

    fn retry(
        &mut self,
        state: &mut TaskState,
        reason: String,
        error: String,
        readings: Readings,
    ) -> (r: RunAction)
        requires
            old(self).countable(),
        ensures
            retrying(old(self)@, old(state)@, reason@, error@, readings@) == (NextV {
                run: final(self)@,
                state: final(state)@,
                action: r@,
            }),
    {
        self.retries = self.retries + 1;
        match review_retry_action(self.retries, self.max_retries, readings.budget_left, reason) {
            ReviewRetryAction::Fail(_) => {
                state.fail(error);
                self.finish(state, readings)
            },
            ReviewRetryAction::PartialBudgetOverdraw => {
                state.status = TaskStatus::PartialBudgetOverdraw;
                self.finish(state, readings)
            },
            ReviewRetryAction::Retry(reason) => {
                self.retry_reason = Some(reason);
                self.attempt_again(state)
            },
        }
    }

    fn note(&mut self, state: &TaskState, kind: &str)
        ensures
            final(self)@ == noted(old(self)@, state@, kind@),
    {
        let artifact = numbered(kind, state.external_or_task_id(), ":", self.attempt);
        let ghost it = artifact@;
        self.artifacts.push(artifact);
        assert(text::texts(self.artifacts@) =~= text::texts(old(self).artifacts@).push(it));
    }

    /// The record of an attempt was written, or was not.
    pub fn on_attempt_persisted(
        &mut self,
        state: &mut TaskState,
        outcome: Result<(), String>,
        readings: Readings,
    ) -> (r: RunAction)
        requires
            old(self).countable(),
        ensures
            attempt_recorded(old(self)@, old(state)@, unit_view(outcome), readings@) == (NextV {
                run: final(self)@,
                state: final(state)@,
                action: r@,
            }),
    {
        match outcome {
            Err(e) => {
                return self.abort(e);
            },
            Ok(_) => {},
        }
        self.note(state, "attempt:");
        match self.take_pending() {
            Pending::AttemptDone { result } => {
                state.result = Some(result.clone());
                state.phase = "review".to_owned();
                RunAction::Review { result }
            },
            Pending::AttemptRetry { reason, error } => {
                state.result = None;
                self.retry(state, reason, error, readings)
            },
            Pending::AttemptFailed { error } => {
                state.fail(error);
                self.finish(state, readings)
            },
            _ => self.abort(String::new()),
        }
    }

    /// A review came to its end.
    pub fn on_reviewed(
        &mut self,
        state: &TaskState,
        outcome: Result<ReviewVerdict, String>,
        reviewed_at: &str,
    ) -> (r: RunAction)
        ensures
            reviewed(
                old(self)@,
                state@,
                crate::agent::verdict::verdict_view(outcome),
                reviewed_at@,
            ) == (NextV { run: final(self)@, state: state@, action: r@ }),
    {
        let fact = match &outcome {
            Ok(ReviewVerdict::Passed) => canonical_review_fact(
                state,
                self.attempt,
                "ok",
                None,
                reviewed_at,
            ),
            Ok(ReviewVerdict::Retry(reason)) => canonical_review_fact(
                state,
                self.attempt,
                "retry",
                Some(reason.as_str()),
                reviewed_at,
            ),
            Err(e) => canonical_review_fact(
                state,
                self.attempt,
                "error",
                Some(e.as_str()),
                reviewed_at,
            ),
        };
        self.pending = match outcome {
            Ok(ReviewVerdict::Passed) => Pending::ReviewPassed,
            Ok(ReviewVerdict::Retry(reason)) => Pending::ReviewRetry { reason },
            Err(e) => Pending::ReviewFailed { error: e },
        };
        RunAction::PersistReview(ingest_fact(state, fact))
    }

    /// The budget left nothing for the review.
    pub fn on_unreviewed(&mut self, state: &mut TaskState, readings: Readings) -> (r: RunAction)
        ensures
            unreviewed(old(self)@, old(state)@, readings@) == (NextV {
                run: final(self)@,
                state: final(state)@,
                action: r@,
            }),
    {
        state.status = TaskStatus::PartialBudgetOverdraw;
        state.error = Some(NOT_REVIEWED.to_owned());
        self.finish(state, readings)
    }

    /// The record of a review was written, or was not.
    pub fn on_review_persisted(
        &mut self,
        state: &mut TaskState,
        outcome: Result<(), String>,
        readings: Readings,
    ) -> (r: RunAction)
        requires
            old(self).countable(),
        ensures
            review_recorded(old(self)@, old(state)@, unit_view(outcome), readings@) == (NextV {
                run: final(self)@,
                state: final(state)@,
                action: r@,
            }),
    {
        match outcome {
            Err(e) => {
                return self.abort(e);
            },
            Ok(_) => {},
        }
        self.note(state, "review:");
        match self.take_pending() {
            Pending::ReviewPassed => {
                state.status = TaskStatus::Done;
                self.finish(state, readings)
            },
            Pending::ReviewRetry { reason } => {
                let error = with_prefix("REVIEW_REJECTED: ", reason.as_str());
                self.retry(state, reason, error, readings)
            },
            Pending::ReviewFailed { error } => {
                state.fail(with_prefix("REVIEW_ERROR: ", error.as_str()));
                self.finish(state, readings)
            },
            _ => self.abort(String::new()),
        }
    }

    fn conclude(&mut self, state: &TaskState) -> (r: RunAction)
        ensures
            over(old(self)@, state@) == (NextV {
                run: final(self)@,
                state: state@,
                action: r@,
            }),
    {
        self.pending = Pending::Nothing;
        RunAction::Finished(
            TaskResult {
                task_id: self.task_id.clone(),
                status: state.status,
                shell_spent: state.shell_spent.copy(),
                artifacts_written: copy_strings(self.artifacts.as_slice()),
                result: copy_opt(&state.result),
                error: copy_opt(&state.error),
                deliverable_kind: state.deliverable_kind,
                deliverable_fact_id: copy_opt(&state.deliverable_fact_id),
            },
        )
    }

    fn close_with(&mut self, state: &mut TaskState, more: Vec<String>, error: Option<String>) -> (r:
        RunAction)
        ensures
            closing(
                old(self)@,
                old(state)@,
                text::texts(more@),
                text::opt_text(error),
            ) == (NextV { run: final(self)@, state: final(state)@, action: r@ }),
    {
        match error {
            Some(e) => {
                let said = amend(&state.error, e.as_str());
                state.error = Some(said);
            },
            None => {},
        }
        append_all(&mut self.artifacts, more);
        self.conclude(state)
    }

    fn take_early(&mut self, state: &TaskState) -> (r: TaskResult)
        ensures
            r@ == (match old(self)@.early {
                Some(e) => e,
                None => early_result(old(self)@, state@),
            }),
            final(self)@ == (RunV { early: None, ..old(self)@ }),
    {
        let mut early: Option<TaskResult> = None;
        std::mem::swap(&mut early, &mut self.early);
        match early {
            Some(e) => e,
            None => {
                let written: Vec<String> = Vec::new();
                assert(text::texts(written@) =~= seq![]);
                TaskResult {
                    task_id: self.task_id.clone(),
                    status: state.status,
                    shell_spent: self.nothing_spent.copy(),
                    artifacts_written: written,
                    result: None,
                    error: copy_opt(&state.error),
                    deliverable_kind: state.deliverable_kind,
                    deliverable_fact_id: copy_opt(&state.deliverable_fact_id),
                }
            },
        }
    }

    fn close_early(&mut self, state: &TaskState, more: Vec<String>, error: Option<String>) -> (r:
        RunAction)
        ensures
            early_closing(
                old(self)@,
                state@,
                text::texts(more@),
                text::opt_text(error),
            ) == (NextV { run: final(self)@, state: state@, action: r@ }),
    {
        let result = self.take_early(state);
        self.pending = Pending::Nothing;
        RunAction::Finished(close(result, more, error))
    }

    /// The results were written, or were not.
    pub fn on_results(&mut self, state: &mut TaskState, outcome: Result<Vec<String>, String>) -> (r:
        RunAction)
        ensures
            results_written(old(self)@, old(state)@, list_view(outcome)) == (NextV {
                run: final(self)@,
                state: final(state)@,
                action: r@,
            }),
    {
        let written = outcome.is_ok();
        let pending = self.take_pending();
        match pending {
            Pending::Results { done } => match outcome {
                Ok(more) => self.close_with(state, more, None),
                Err(e) => {
                    if done {
                        state.status = TaskStatus::Failed;
                        state.phase = "persistence".to_owned();
                        state.error = Some(with_prefix("PERSISTENCE_ERROR: ", e.as_str()));
                    } else if state.error.is_none() {
                        state.error = Some(with_prefix("PERSISTENCE_ERROR: ", e.as_str()));
                    }
                    self.pending = Pending::LocalFailure { done };
                    RunAction::WriteLocalFailure { persistence_error: Some(e) }
                },
            },
            Pending::Remediation { local } => {
                let (more, error) = split_outcome(outcome);
                match local {
                    Some(path) => {
                        let shown = copy_opt(&error);
                        self.pending = Pending::Closing { more, failure: error };
                        RunAction::UpdateLocalFailure {
                            path,
                            memory_persisted: written,
                            persistence_error: shown,
                        }
                    },
                    None => self.close_with(state, more, error),
                }
            },
            Pending::EarlyResults { local } => {
                let (more, error) = split_outcome(outcome);
                match local {
                    Some(path) => {
                        let shown = copy_opt(&error);
                        self.pending = Pending::EarlyClosing { more, failure: error };
                        RunAction::UpdateLocalFailure {
                            path,
                            memory_persisted: written,
                            persistence_error: shown,
                        }
                    },
                    None => self.close_early(state, more, error),
                }
            },
            _ => self.abort(String::new()),
        }
    }

    /// The local record was written to a path, or was not.
    pub fn on_local_written(&mut self, state: &TaskState, path: Option<String>) -> (r: RunAction)
        ensures
            local_written(old(self)@, state@, text::opt_text(path)) == (NextV {
                run: final(self)@,
                state: state@,
                action: r@,
            }),
    {
        let note = one_or_none("local_failure:", &path);
        match self.take_pending() {
            Pending::LocalFailure { done } => {
                append_all(&mut self.artifacts, note);
                if done {
                    self.pending = Pending::Remediation { local: path };
                    RunAction::PersistResults
                } else {
                    self.conclude(state)
                }
            },
            Pending::EarlyLocal => {
                let early = self.take_early(state);
                self.early = Some(close(early, note, None));
                self.pending = Pending::EarlyResults { local: path };
                RunAction::PersistResults
            },
            _ => self.abort(String::new()),
        }
    }

    /// The local record was changed for the last time.
    pub fn on_local_updated(&mut self, state: &mut TaskState) -> (r: RunAction)
        ensures
            local_updated(old(self)@, old(state)@) == (NextV {
                run: final(self)@,
                state: final(state)@,
                action: r@,
            }),
    {
        match self.take_pending() {
            Pending::Closing { more, failure: error } => self.close_with(state, more, error),
            Pending::EarlyClosing { more, failure: error } => self.close_early(state, more, error),
            _ => self.abort(String::new()),
        }
    }
}

fn split_outcome(outcome: Result<Vec<String>, String>) -> (r: (Vec<String>, Option<String>))
    ensures
        (text::texts(r.0@), text::opt_text(r.1)) == (match list_view(outcome) {
            Ok(more) => (more, None::<Seq<char>>),
            Err(e) => (seq![], Some(e)),
        }),
{
    match outcome {
        Ok(more) => (more, None),
        Err(e) => {
            let none: Vec<String> = Vec::new();
            assert(text::texts(none@) =~= seq![]);
            (none, Some(e))
        },
    }
}

/// The state of a task whose search took too long before a run began.
pub open spec fn unresolved(
    task_id: Seq<char>,
    agent_id: Seq<char>,
    swarm_id: Seq<char>,
    work_key: Seq<char>,
    context_key: Seq<char>,
    timeout_secs: nat,
    nothing_spent: AmountV,
    now: Seq<char>,
) -> StateV {
    StateV {
        context_key,
        status: TaskStatus::Failed,
        phase: "bootstrap_resolve"@,
        task_fact_id: Some(task_id),
        external_task_id: Some(task_id),
        error: Some(
            "BOOTSTRAP_RESOLVE_TIMEOUT: task resolution did not complete within "@
                + text::decimal(timeout_secs) + "s"@,
        ),
        ..task::fresh_state(
            task_id,
            agent_id,
            swarm_id,
            work_key,
            work_key,
            nothing_spent,
            now,
        )
    }
}

/// The state of a task whose search took too long before a run began.
pub fn unresolved_state(
    task_id: &str,
    agent_id: &str,
    swarm_id: &str,
    work_key: &str,
    context_key: &str,
    timeout_secs: u64,
    nothing_spent: Amount,
    now: &str,
) -> (r: TaskState)
    ensures
        r@ == unresolved(
            task_id@,
            agent_id@,
            swarm_id@,
            work_key@,
            context_key@,
            timeout_secs as nat,
            nothing_spent@,
            now@,
        ),
{
    let mut state = TaskState::new(task_id, agent_id, swarm_id, work_key, nothing_spent, now);
    state.context_key = context_key.to_owned();
    state.phase = "bootstrap_resolve".to_owned();
    state.task_fact_id = Some(task_id.to_owned());
    state.external_task_id = Some(task_id.to_owned());
    let mut message =
        "BOOTSTRAP_RESOLVE_TIMEOUT: task resolution did not complete within ".to_owned();
    message.append(decimal_of(timeout_secs).as_str());
    message.append("s");
    state.fail(message);
    state
}

/// A run starts with what it was given, and with nothing done.
pub proof fn law_new_run_keeps_what_it_was_given(
    task_id: Seq<char>,
    work_key: Seq<char>,
    context_key: Seq<char>,
    max_retries: int,
    timeout_secs: int,
    brand: Seq<char>,
    repair_prompt: Seq<char>,
    nothing_spent: AmountV,
    s: StateV,
    e: Seq<char>,
    now: Seq<char>,
)
    ensures
        ({
            let r = begun(
                task_id,
                work_key,
                context_key,
                max_retries,
                timeout_secs,
                brand,
                repair_prompt,
                nothing_spent,
            );
            &&& r.task_id == task_id
            &&& r.work_key == work_key
            &&& r.default_context_key == context_key
            &&& r.max_retries == max_retries
            &&& r.timeout_secs == timeout_secs
            &&& r.brand == brand
            &&& r.repair_prompt == repair_prompt
            &&& r.attempt == 0 && r.retries == 0 && r.artifacts.len() == 0
            &&& context_of(r) is None && r.retry_reason is None && r.plan is None && r.recall is None
            &&& refused(r, s, e, now).run.early matches Some(report) && report.task_id == task_id
                && report.shell_spent == nothing_spent
        }),
{
    assert(text::trimmed(Seq::<char>::empty()).len() == 0);
}

/// What a task's fact says of its scope, its deliverable and its directory holds for the whole run;
/// what it does not speak of stays as it was.
pub proof fn law_task_goes_by_its_fact(r: RunV, s: StateV, t: ResolvedV, now: Seq<char>)
    ensures
        ({
            let next = resolved(r, s, Ok(t), now);
            let said = |key: Seq<char>| facts::metadata_text(t.raw, key);
            &&& json::jget_str(t.raw, "scope"@) matches Some(scope) ==> next.state.scope == scope
            &&& json::jget_str(t.raw, "scope"@) is None ==> next.state.scope == "agent-private"@
            &&& said("deliverable_kind"@) matches Some(name) ==> next.state.deliverable_kind
                == task::kind_named(name)
            &&& said("deliverable_kind"@) is None ==> next.state.deliverable_kind is None
            &&& said("workspace_dir"@) is Some ==> next.state.workspace_dir == said("workspace_dir"@)
            &&& said("workspace_dir"@) is None && said("local_cli_workspace"@) is Some
                ==> next.state.workspace_dir == said("local_cli_workspace"@)
            &&& next.state.workspace_dir is None <==> said("workspace_dir"@) is None && said(
                "local_cli_workspace"@,
            ) is None && said("working_directory"@) is None && said("repo_worktree"@) is None
                && said("cwd"@) is None
            &&& next.state.workspace_dir matches Some(d) ==> said("workspace_dir"@) == Some(d)
                || said("local_cli_workspace"@) == Some(d) || said("working_directory"@) == Some(d)
                || said("repo_worktree"@) == Some(d) || said("cwd"@) == Some(d)
            &&& next.state.agent_id == s.agent_id && next.state.swarm_id == s.swarm_id
                && next.state.status == s.status && next.state.iteration == s.iteration
                && next.state.shell_spent == s.shell_spent
            &&& next.run == (RunV { task_text: t.fact, ..r })
            &&& next.action matches RunActionV::Recall(p) && p.token_budget == 4000
        }),
{
}

/// Of two places that are both named, the one nearer to the task wins.
pub proof fn law_nearer_directory_wins(raw: JValue, d: Seq<char>)
    requires
        facts::metadata_text(raw, "workspace_dir"@) is None,
        facts::metadata_text(raw, "local_cli_workspace"@) is None,
    ensures
        facts::metadata_text(raw, "working_directory"@) == Some(d) ==> task_workspace(raw) == Some(d),
        facts::metadata_text(raw, "working_directory"@) is None && facts::metadata_text(
            raw,
            "repo_worktree"@,
        ) == Some(d) ==> task_workspace(raw) == Some(d),
{
}

/// A step that takes too long stops the task, and its result says how long was waited.
pub proof fn law_waiting_ends(r: RunV, s: StateV, now: Seq<char>)
    ensures
        ({
            let waited = text::decimal(r.timeout_secs as nat) + "s"@;
            let a = resolved(r, s, Err(CallErrorV::TimedOut), now);
            let b = recalled(r, s, Err(CallErrorV::TimedOut), now);
            let c = planned(r, s, Err(CallErrorV::TimedOut), now);
            &&& a.run.early matches Some(report) && report.status == TaskStatus::Failed && (
            report.error matches Some(said) && text::has_suffix(said, waited))
            &&& b.run.early matches Some(report) && report.status == TaskStatus::Failed && (
            report.error matches Some(said) && text::has_suffix(said, waited))
            &&& c.run.early matches Some(report) && report.status == TaskStatus::Failed && (
            report.error matches Some(said) && text::has_suffix(said, waited))
            &&& a.state.task_fact_id == Some(r.task_id) && a.state.phase == "bootstrap_resolve"@
            &&& b.state.phase == "bootstrap_recall"@ && c.state.phase == "bootstrap_plan"@
        }),
{
    lemma_timeout_ends_with_its_time("BOOTSTRAP_RESOLVE_TIMEOUT: task resolution"@, r);
    lemma_timeout_ends_with_its_time("BOOTSTRAP_RECALL_TIMEOUT: memory_recall"@, r);
    lemma_timeout_ends_with_its_time("BOOTSTRAP_PLAN_TIMEOUT: memory_plan_inference"@, r);
}

proof fn lemma_timeout_ends_with_its_time(what: Seq<char>, r: RunV)
    ensures
        text::has_suffix(bootstrap_timeout(what, r), text::decimal(r.timeout_secs as nat) + "s"@),
{
    let t = text::decimal(r.timeout_secs as nat) + "s"@;
    let said = bootstrap_timeout(what, r);
    assert(said.subrange(said.len() - t.len(), said.len() as int) =~= t);
}

/// What memory recalled is kept for the plan: without a plan of its own, or where planning failed,
/// the one in the recall is followed.  Where there is none at all, the task is refused.
pub proof fn law_recall_may_hold_the_plan(
    r: RunV,
    s: StateV,
    answer: JValue,
    plan: Result<JValue, CallErrorV>,
    now: Seq<char>,
)
    requires
        plan matches Ok(v) ==> plan::plan_in(v) is None,
        plan matches Err(e) ==> e is Failed,
    ensures
        ({
            let a = recalled(r, s, Ok(answer), now);
            let b = planned(a.run, a.state, plan, now);
            &&& json::jget_str(answer, "context"@) is None || json::jget_str(answer, "context"@)
                == Some(Seq::<char>::empty()) ==> a.run.context == r.context
            &&& a.state == s
            &&& a.action matches RunActionV::PlanInference(p) && p.query == r.task_text && p.key
                == s.context_key && p.agent_id == s.agent_id && p.swarm_id == s.swarm_id
                && p.token_budget == 4000
            &&& plan::plan_in(answer) matches Some(p) ==> b.run.plan == Some(p) && b.action is Price
                && b.state.model_current == p.model_id
            &&& plan::plan_in(answer) is None ==> b.action is WriteLocalFailure && (
            b.run.early matches Some(report) && report.status == TaskStatus::Failed
                && report.error is Some && report.result is None)
        }),
        plan is Err && r.recall is None ==> planned(r, s, plan, now).action is WriteLocalFailure,
{
    assert(Seq::<char>::empty().len() == 0);
}

/// A CLI works in the directory that its plan names, else in the task's; the rest of its settings
/// is the plan's.  A model without a secret is not called.
pub proof fn law_cli_works_in_its_directory(
    r: RunV,
    s: StateV,
    p: PlanV,
    c: ConfigV,
    now: Seq<char>,
)
    requires
        r.plan == Some(p),
    ensures
        ({
            let next = priced(r, s, Ok(()), false, now);
            &&& p.local_cli == Some(c) ==> (next.action matches RunActionV::UseLocalCli(used) && used
                == (ConfigV { workspace_dir: used.workspace_dir, ..c }) && (c.workspace_dir is Some
                ==> used.workspace_dir == c.workspace_dir) && (c.workspace_dir is None
                ==> used.workspace_dir == s.workspace_dir))
            &&& p.local_cli is None && p.secret_ref is None ==> next.action is WriteLocalFailure
                && next.state.status == TaskStatus::Failed && next.state.error is Some
            &&& p.local_cli is Some || p.secret_ref is Some ==> next.run == r && next.state == s
        }),
        priced(RunV { plan: None, ..r }, s, Ok(()), false, now).state.status == TaskStatus::Failed,
{
}

/// A task without words is refused; any other is attempted.
pub proof fn law_task_with_words_is_attempted(r: RunV, s: StateV, now: Seq<char>)
    ensures
        ({
            let next = provided(r, s, Ok(()), now);
            &&& text::trimmed(r.task_text).len() > 0 ==> next.action is Execute && next.run.attempt
                == r.attempt + 1 && next.state == (StateV { phase: "execution"@, ..s })
            &&& text::trimmed(r.task_text).len() == 0 ==> next.action is WriteLocalFailure
                && next.state.status == TaskStatus::Failed && next.run.attempt == r.attempt
        }),
{
}

/// An attempt starts afresh: without tools used and without a trace.  The first one keeps to the
/// limits of its plan, one that repairs another does not.
pub proof fn law_attempt_starts_afresh(r: RunV)
    ensures
        ({
            let m = execution_of(r);
            &&& m.trace.len() == 0 && !m.used_tools && !m.recovered && m.pending.len() == 0
            &&& m.task_text == r.task_text && m.repair_prompt == r.repair_prompt && m.retry_reason
                == r.retry_reason
            &&& r.retry_reason is None ==> m.limits == execution::limits_of(r.plan)
            &&& r.retry_reason is Some ==> m.limits == execution::limits_of(None)
        }),
{
}

/// Each attempt is recorded as it went, with its number and its times: a failed one with its
/// error, an invalid one with the reason, a good one with the beginning of its result.
pub proof fn law_attempt_is_recorded_as_it_went(
    r: RunV,
    s: StateV,
    e: Seq<char>,
    said: Seq<char>,
    text: Seq<char>,
    started_at: Seq<char>,
    ended_at: Seq<char>,
)
    requires
        s.status == TaskStatus::Running,
    ensures
        executed(r, s, Err(e), started_at, ended_at).action == RunActionV::PersistAttempt(
            persist::ingest_of(
                s,
                facts::attempt_fact(
                    s,
                    r.attempt,
                    "execution_error"@,
                    started_at,
                    ended_at,
                    PreviewV { preview: Seq::empty(), truncated: false },
                    Some(e),
                ),
            ),
        ),
        sanitize::sanitized(said) == SanitizedV::Rejected(text) ==> executed(
            r,
            s,
            Ok(said),
            started_at,
            ended_at,
        ).action == RunActionV::PersistAttempt(
            persist::ingest_of(
                s,
                facts::attempt_fact(
                    s,
                    r.attempt,
                    "invalid_result"@,
                    started_at,
                    ended_at,
                    PreviewV { preview: Seq::empty(), truncated: false },
                    Some(text),
                ),
            ),
        ),
        sanitize::sanitized(said) == SanitizedV::Accepted(text) && results::needs_deliverable(s)
            is None ==> ({
            let next = executed(r, s, Ok(said), started_at, ended_at);
            &&& next.state.deliverable_fact_id is None
            &&& next.action == RunActionV::PersistAttempt(
                persist::ingest_of(
                    next.state,
                    facts::attempt_fact(
                        next.state,
                        r.attempt,
                        "completed"@,
                        started_at,
                        ended_at,
                        facts::preview_view(text),
                        None,
                    ),
                ),
            )
        }),
        sanitize::sanitized(said) == SanitizedV::Accepted(text) ==> (results::needs_deliverable(s)
            matches Some(kind) ==> executed(r, s, Ok(said), started_at, ended_at).action
            == RunActionV::FindDeliverable(
            results::deliverable_search(StateV { deliverable_fact_id: None, ..s }, kind),
        )),
{
}

/// The record of an attempt that overdrew its budget says so.
pub proof fn law_overdrawn_attempt_is_recorded_so(r: RunV, s: StateV, result: Seq<char>)
    requires
        s.status == TaskStatus::PartialBudgetOverdraw,
    ensures
        recording_done(r, s, result).action == RunActionV::PersistAttempt(
            persist::ingest_of(
                s,
                facts::attempt_fact(
                    s,
                    r.attempt,
                    "partial_budget_overdraw"@,
                    r.started_at,
                    r.ended_at,
                    facts::preview_view(result),
                    None,
                ),
            ),
        ),
{
}

/// A search that finds no valid deliverable is recorded with its reason, one that does with the
/// result; both with the times of the attempt.
pub proof fn law_delivery_is_recorded_as_it_went(
    r: RunV,
    s: StateV,
    response: JValue,
    result: Seq<char>,
    kind: DeliverableKind,
)
    requires
        r.pending == (PendingV::Deliverable { result, kind }),
        s.status == TaskStatus::Running,
    ensures
        ({
            let next = deliverable_found(r, s, Ok(response));
            let (found, reason) = results::validated(
                s,
                results::deliverable_in(response, s, kind),
                kind,
            );
            let status = if reason is None {
                completed_status(found)
            } else {
                "missing_terminal_deliverable"@
            };
            &&& next.state == found
            &&& next.action == RunActionV::PersistAttempt(
                persist::ingest_of(
                    found,
                    facts::attempt_fact(
                        found,
                        r.attempt,
                        status,
                        r.started_at,
                        r.ended_at,
                        facts::preview_view(result),
                        reason,
                    ),
                ),
            )
        }),
{
}

/// Each review is recorded with its verdict, its reason and its time, and the record is noted.
pub proof fn law_review_is_recorded_as_it_went(
    r: RunV,
    s: StateV,
    said: Seq<char>,
    at: Seq<char>,
    w: ReadingsV,
)
    ensures
        reviewed(r, s, Ok(VerdictV::Passed), at).action == RunActionV::PersistReview(
            persist::ingest_of(s, facts::review_fact(s, r.attempt, "ok"@, None, at)),
        ),
        reviewed(r, s, Ok(VerdictV::Retry(said)), at).action == RunActionV::PersistReview(
            persist::ingest_of(s, facts::review_fact(s, r.attempt, "retry"@, Some(said), at)),
        ),
        reviewed(r, s, Err(said), at).action == RunActionV::PersistReview(
            persist::ingest_of(s, facts::review_fact(s, r.attempt, "error"@, Some(said), at)),
        ),
        reviewed(r, s, Err(said), at).state == s,
        r.pending is ReviewPassed || r.pending is ReviewRetry || r.pending is ReviewFailed
            ==> review_recorded(r, s, Ok(()), w).run.artifacts == r.artifacts.push(
            "review:"@ + task::external_id(s) + ":"@ + text::decimal(r.attempt as nat),
        ),
{
}

/// A record that can not be written ends the run with what went wrong.
pub proof fn law_lost_record_ends_the_run(r: RunV, s: StateV, e: Seq<char>, w: ReadingsV)
    ensures
        attempt_recorded(r, s, Err(e), w).action == RunActionV::Aborted(e),
        review_recorded(r, s, Err(e), w).action == RunActionV::Aborted(e),
        deliverable_found(r, s, Err(e)).action == RunActionV::Aborted(e),
        attempt_recorded(r, s, Err(e), w).state == s,
        review_recorded(r, s, Err(e), w).state == s,
        deliverable_found(r, s, Err(e)).state == s,
{
}

/// A run that ends counts what it spent and notes when it ended; a budget that ran out before a
/// retry or a review makes it a partial one, with its result as it is.
pub proof fn law_ending_is_accounted_for(
    r: RunV,
    s: StateV,
    reason: Seq<char>,
    error: Seq<char>,
    w: ReadingsV,
)
    requires
        s.finished_at is None,
    ensures
        ({
            let a = retrying(r, s, reason, error, w);
            let b = unreviewed(r, s, w);
            &&& a.action is PersistResults ==> a.state.shell_spent == w.spent && a.state.finished_at
                == Some(w.now) && a.state.result == s.result
            &&& r.retries >= r.max_retries ==> a.action is PersistResults && a.state.error == Some(error)
            &&& r.retries < r.max_retries && !w.budget_left ==> a.action is PersistResults
                && a.state.status == TaskStatus::PartialBudgetOverdraw && a.state.error == s.error
            &&& b.action is PersistResults && b.state.status == TaskStatus::PartialBudgetOverdraw
                && b.state.error is Some && b.state.result == s.result && b.state.shell_spent == w.spent
                && b.state.finished_at == Some(w.now)
        }),
        ({
            let c = review_recorded(RunV { pending: PendingV::ReviewPassed, ..r }, s, Ok(()), w);
            c.action is PersistResults && c.state.shell_spent == w.spent && c.state.finished_at
                == Some(w.now)
        }),
        ({
            let d = attempt_recorded(RunV { pending: PendingV::AttemptFailed { error }, ..r }, s, Ok(()), w);
            d.action is PersistResults && d.state.shell_spent == w.spent && d.state.finished_at
                == Some(w.now) && d.state.error == Some(error)
        }),
{
}

/// An attempt that was sent back has no result.
pub proof fn law_rejected_attempt_has_no_result(
    r: RunV,
    s: StateV,
    reason: Seq<char>,
    error: Seq<char>,
    w: ReadingsV,
)
    requires
        r.pending == (PendingV::AttemptRetry { reason, error }),
    ensures
        attempt_recorded(r, s, Ok(()), w).state.result is None,
{
}

/// A task that was refused still ends with a report: the failure is written where it can be, and
/// the report names the cause, the file and the records, and what could not be written.
pub proof fn law_refused_task_is_reported(
    r: RunV,
    s: StateV,
    e: Seq<char>,
    now: Seq<char>,
    path: Option<Seq<char>>,
    outcome: Result<Seq<Seq<char>>, Seq<char>>,
)
    ensures
        ({
            let a = refused(r, s, e, now);
            let b = local_written(a.run, a.state, path);
            let c = results_written(b.run, b.state, outcome);
            let d = if path is Some {
                local_updated(c.run, c.state)
            } else {
                c
            };
            &&& a.action == RunActionV::WriteLocalFailure { persistence_error: None }
            &&& b.action is PersistResults
            &&& path matches Some(p) ==> c.action == RunActionV::UpdateLocalFailure {
                path: p,
                memory_persisted: outcome is Ok,
                persistence_error: (match outcome {
                    Ok(_) => None,
                    Err(x) => Some(x),
                }),
            }
            &&& d.action matches RunActionV::Finished(report) && {
                &&& report.task_id == r.task_id
                &&& report.status == TaskStatus::Failed
                &&& report.result is None
                &&& report.shell_spent == r.nothing_spent
                &&& report.deliverable_kind == s.deliverable_kind
                &&& outcome is Ok ==> report.error == Some(e)
                &&& outcome matches Err(x) ==> (report.error matches Some(said) && text::has_prefix(
                    said,
                    e,
                ) && text::has_suffix(said, x))
                &&& path matches Some(p) ==> report.artifacts_written.contains(
                    "local_failure:"@ + p,
                )
                &&& outcome matches Ok(more) ==> text::is_suffix_of_list(
                    report.artifacts_written,
                    more,
                )
            }
        }),
{
    let a = refused(r, s, e, now);
    let b = local_written(a.run, a.state, path);
    let c = results_written(b.run, b.state, outcome);
    let d = if path is Some {
        local_updated(c.run, c.state)
    } else {
        c
    };
    let all = d.action->Finished_0.artifacts_written;
    if let Some(p) = path {
        assert(all[0] == "local_failure:"@ + p);
    }
    match outcome {
        Ok(more) => {
            assert(all.subrange(all.len() - more.len(), all.len() as int) =~= more);
        },
        Err(x) => {
            let said = e + "; PERSISTENCE_ERROR: "@ + x;
            assert(said.subrange(0, e.len() as int) =~= e);
            assert(said.subrange(said.len() - x.len(), said.len() as int) =~= x);
        },
    }
}

/// A finished task whose records can not be written fails, with what went wrong; it is written to a
/// file and its records are tried once more, and the report says how that went.
pub proof fn law_unwritten_result_is_reported(
    r: RunV,
    s: StateV,
    e: Seq<char>,
    path: Option<Seq<char>>,
    again: Result<Seq<Seq<char>>, Seq<char>>,
)
    requires
        r.pending == (PendingV::Results { done: true }),
    ensures
        ({
            let a = results_written(r, s, Err(e));
            let b = local_written(a.run, a.state, path);
            let c = results_written(b.run, b.state, again);
            let d = if path is Some {
                local_updated(c.run, c.state)
            } else {
                c
            };
            &&& a.action == RunActionV::WriteLocalFailure { persistence_error: Some(e) }
            &&& a.state.phase == "persistence"@
            &&& b.action is PersistResults
            &&& path matches Some(p) ==> c.action == RunActionV::UpdateLocalFailure {
                path: p,
                memory_persisted: again is Ok,
                persistence_error: (match again {
                    Ok(_) => None,
                    Err(x) => Some(x),
                }),
            }
            &&& d.action matches RunActionV::Finished(report) && {
                &&& report.task_id == r.task_id
                &&& report.status == TaskStatus::Failed
                &&& report.result == s.result
                &&& report.shell_spent == s.shell_spent
                &&& again is Ok ==> (report.error matches Some(said) && text::has_suffix(said, e))
                &&& again matches Err(x) ==> (report.error matches Some(said) && text::has_suffix(
                    said,
                    x,
                ) && text::has_infix(said, e))
                &&& path matches Some(p) ==> report.artifacts_written.contains(
                    "local_failure:"@ + p,
                )
                &&& again matches Ok(more) ==> text::is_suffix_of_list(
                    report.artifacts_written,
                    more,
                )
            }
        }),
{
    let a = results_written(r, s, Err(e));
    let b = local_written(a.run, a.state, path);
    let c = results_written(b.run, b.state, again);
    let d = if path is Some {
        local_updated(c.run, c.state)
    } else {
        c
    };
    let all = d.action->Finished_0.artifacts_written;
    if let Some(p) = path {
        assert(all[r.artifacts.len() as int] == "local_failure:"@ + p);
    }
    let first = "PERSISTENCE_ERROR: "@ + e;
    assert(first.subrange(first.len() - e.len(), first.len() as int) =~= e);
    match again {
        Ok(more) => {
            assert(all.subrange(all.len() - more.len(), all.len() as int) =~= more);
        },
        Err(x) => {
            let said = first + "; PERSISTENCE_ERROR: "@ + x;
            assert(said.subrange(said.len() - x.len(), said.len() as int) =~= x);
            assert(said =~= "PERSISTENCE_ERROR: "@ + e + ("; PERSISTENCE_ERROR: "@ + x));
            text::lemma_infix("PERSISTENCE_ERROR: "@, e, "; PERSISTENCE_ERROR: "@ + x);
        },
    }
}

/// A task that failed anyway keeps its own error when its records can not be written either, and
/// ends once the failure is in a file.
pub proof fn law_first_error_stays(r: RunV, s: StateV, e: Seq<char>, path: Option<Seq<char>>)
    requires
        r.pending == (PendingV::Results { done: false }),
    ensures
        ({
            let a = results_written(r, s, Err(e));
            let b = local_written(a.run, a.state, path);
            &&& a.action == RunActionV::WriteLocalFailure { persistence_error: Some(e) }
            &&& a.state.status == s.status
            &&& b.action matches RunActionV::Finished(report) && {
                &&& report.task_id == r.task_id
                &&& report.status == s.status
                &&& report.result == s.result
                &&& s.error is Some ==> report.error == s.error
                &&& s.error is None ==> (report.error matches Some(said) && text::has_suffix(said, e))
                &&& path matches Some(p) ==> report.artifacts_written == r.artifacts.push(
                    "local_failure:"@ + p,
                )
                &&& path is None ==> report.artifacts_written == r.artifacts
            }
        }),
{
    let said = "PERSISTENCE_ERROR: "@ + e;
    assert(said.subrange(said.len() - e.len(), said.len() as int) =~= e);
    assert(path matches Some(p) ==> r.artifacts + seq!["local_failure:"@ + p] =~= r.artifacts.push(
        "local_failure:"@ + p,
    ));
    assert(r.artifacts + Seq::<Seq<char>>::empty() =~= r.artifacts);
}

/// A task that could not even be looked up failed, under its own name and keys, and says how long
/// was waited for it.
pub proof fn law_unresolved_task_is_named(
    task_id: Seq<char>,
    agent_id: Seq<char>,
    swarm_id: Seq<char>,
    work_key: Seq<char>,
    context_key: Seq<char>,
    secs: nat,
    nothing_spent: AmountV,
    now: Seq<char>,
)
    ensures
        ({
            let s = unresolved(
                task_id,
                agent_id,
                swarm_id,
                work_key,
                context_key,
                secs,
                nothing_spent,
                now,
            );
            &&& s.status == TaskStatus::Failed && s.result is None
            &&& task::external_id(s) == task_id && task::fact_id(s) == task_id
            &&& s.agent_id == agent_id && s.swarm_id == swarm_id
            &&& s.work_key == work_key && s.context_key == context_key
            &&& s.shell_spent == nothing_spent && s.started_at == now
            &&& s.error matches Some(why) && text::has_suffix(why, text::decimal(secs) + "s"@)
        }),
{
    let t = text::decimal(secs) + "s"@;
    let why = "BOOTSTRAP_RESOLVE_TIMEOUT: task resolution did not complete within "@ + text::decimal(
        secs,
    ) + "s"@;
    assert(why.subrange(why.len() - t.len(), why.len() as int) =~= t);
}

/// A model that is called by its API is noted by its provider, and the plan changes nothing else of
/// the task.
pub proof fn law_provider_of_the_plan_is_noted(
    r: RunV,
    s: StateV,
    answer: JValue,
    p: PlanV,
    now: Seq<char>,
)
    requires
        plan::plan_in(answer) == Some(p),
    ensures
        ({
            let next = planned(r, s, Ok(answer), now);
            &&& p.local_cli is None ==> next.state.backend_current == multi::secret_name(
                multi::route_of(p.model_id, r.brand),
            )
            &&& next.state == (StateV {
                model_current: p.model_id,
                backend_current: next.state.backend_current,
                ..s
            })
            &&& next.run == (RunV { plan: Some(p), ..r })
        }),
{
}

} // verus!
