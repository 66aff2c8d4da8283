//! What an agent runs with.

use vstd::prelude::*;
use vstd::string::*;

use crate::json;
use crate::json::JValue;
use crate::json::Json;
use crate::strmap::StrMap;
use crate::text;
use crate::text::copy_opt;

verus! {

/// How a profile may be run.
#[derive(Debug, Clone, Copy, PartialEq, Eq, Structural)]
pub struct ProfileRuntime {
    pub cooldown_secs: Option<u64>,
    pub max_concurrency: Option<usize>,
}

/// What an agent runs with.
#[derive(Debug)]
pub struct AgentConfig {
    /// Whether this agent is enabled.
    pub enabled: bool,
    /// The share of the budget that is kept for reviews: a number, or a text that spells one. The
    /// program's own share holds where there is none.
    pub review_budget_reserve: Option<Json>,
    /// The share of the budget beyond which a task is too complex, in the same form.
    pub too_complex_threshold: Option<Json>,
    /// How often a task is tried again after a review that it did not pass.
    pub max_retries: u32,
    /// How many tasks may run at the same time.
    pub max_parallel_tasks: usize,
    /// How many milliseconds memory may take before a task starts.
    pub bootstrap_memory_timeout_ms: u64,
    /// Where records of failures go, where not among the agent's own files.
    pub local_failure_artifact_dir: Option<String>,
    /// How many records of failures are kept. None is ever taken away where this is 0.
    pub local_failure_artifact_retention: usize,
    pub extraction_profile: String,
    pub fast_profile: String,
    pub balanced_profile: String,
    pub strong_profile: String,
    pub review_profile: String,
    /// The time between two runs of any command line.
    pub global_cli_cooldown_secs: Option<u64>,
    /// How each profile may be run.
    pub profile_runtime: StrMap<ProfileRuntime>,
}

pub ghost struct AgentConfigV {
    pub enabled: bool,
    pub review_budget_reserve: Option<JValue>,
    pub too_complex_threshold: Option<JValue>,
    pub max_retries: u32,
    pub max_parallel_tasks: usize,
    pub bootstrap_memory_timeout_ms: u64,
    pub local_failure_artifact_dir: Option<Seq<char>>,
    pub local_failure_artifact_retention: usize,
    pub extraction_profile: Seq<char>,
    pub fast_profile: Seq<char>,
    pub balanced_profile: Seq<char>,
    pub strong_profile: Seq<char>,
    pub review_profile: Seq<char>,
    pub global_cli_cooldown_secs: Option<u64>,
    pub profile_runtime: Map<Seq<char>, ProfileRuntime>,
}

/// What an agent runs with that nobody configured.
pub open spec fn default_config() -> AgentConfigV {
    AgentConfigV {
        enabled: true,
        review_budget_reserve: None,
        too_complex_threshold: None,
        max_retries: 2,
        max_parallel_tasks: 4,
        bootstrap_memory_timeout_ms: 60_000,
        local_failure_artifact_dir: None,
        local_failure_artifact_retention: 512,
        extraction_profile: ""@,
        fast_profile: ""@,
        balanced_profile: ""@,
        strong_profile: ""@,
        review_profile: ""@,
        global_cli_cooldown_secs: None,
        profile_runtime: Map::empty(),
    }
}

/// What is said of an agent that could run nothing.
pub open spec fn no_parallel_tasks() -> Seq<char> {
    "max_parallel_tasks must be >= 1"@
}

fn copy_value(o: &Option<Json>) -> (r: Option<Json>)
    ensures
        json::opt_owned_json(r) == json::opt_owned_json(*o),
{
    match o {
        Some(v) => Some(v.copy()),
        None => None,
    }
}

impl AgentConfig {
    pub open spec fn view(&self) -> AgentConfigV {
        AgentConfigV {
            enabled: self.enabled,
            review_budget_reserve: json::opt_owned_json(self.review_budget_reserve),
            too_complex_threshold: json::opt_owned_json(self.too_complex_threshold),
            max_retries: self.max_retries,
            max_parallel_tasks: self.max_parallel_tasks,
            bootstrap_memory_timeout_ms: self.bootstrap_memory_timeout_ms,
            local_failure_artifact_dir: text::opt_text(self.local_failure_artifact_dir),
            local_failure_artifact_retention: self.local_failure_artifact_retention,
            extraction_profile: self.extraction_profile@,
            fast_profile: self.fast_profile@,
            balanced_profile: self.balanced_profile@,
            strong_profile: self.strong_profile@,
            review_profile: self.review_profile@,
            global_cli_cooldown_secs: self.global_cli_cooldown_secs,
            profile_runtime: self.profile_runtime@,
        }
    }

    /// Whether an agent can run with this, as far as whole numbers decide it.
    pub fn validate(&self) -> (r: Result<(), String>)
        ensures
            match r {
                Ok(_) => self.max_parallel_tasks >= 1,
                Err(message) => self.max_parallel_tasks == 0 && message@ == no_parallel_tasks(),
            },
    {
        if self.max_parallel_tasks == 0 {
            return Err("max_parallel_tasks must be >= 1".to_owned());
        }
        Ok(())
    }

    /// The same once more.
    pub fn copy(&self) -> (r: AgentConfig)
        ensures
            r@ == self@,
    {
        AgentConfig {
            enabled: self.enabled,
            review_budget_reserve: copy_value(&self.review_budget_reserve),
            too_complex_threshold: copy_value(&self.too_complex_threshold),
            max_retries: self.max_retries,
            max_parallel_tasks: self.max_parallel_tasks,
            bootstrap_memory_timeout_ms: self.bootstrap_memory_timeout_ms,
            local_failure_artifact_dir: copy_opt(&self.local_failure_artifact_dir),
            local_failure_artifact_retention: self.local_failure_artifact_retention,
            extraction_profile: self.extraction_profile.clone(),
            fast_profile: self.fast_profile.clone(),
            balanced_profile: self.balanced_profile.clone(),
            strong_profile: self.strong_profile.clone(),
            review_profile: self.review_profile.clone(),
            global_cli_cooldown_secs: self.global_cli_cooldown_secs,
            profile_runtime: self.profile_runtime.copy(),
        }
    }
}

impl Default for AgentConfig {
    fn default() -> (r: Self)
        ensures
            r@ == default_config(),
    {
        AgentConfig {
            enabled: true,
            review_budget_reserve: None,
            too_complex_threshold: None,
            max_retries: 2,
            max_parallel_tasks: 4,
            bootstrap_memory_timeout_ms: 60_000,
            local_failure_artifact_dir: None,
            local_failure_artifact_retention: 512,
            extraction_profile: "".to_owned(),
            fast_profile: "".to_owned(),
            balanced_profile: "".to_owned(),
            strong_profile: "".to_owned(),
            review_profile: "".to_owned(),
            global_cli_cooldown_secs: None,
            profile_runtime: StrMap::new(),
        }
    }
}

/// An agent that is not configured works: it retries twice, runs four tasks at a time, waits a
/// minute for memory and keeps its latest failures.
pub proof fn law_unconfigured_agent_works()
    ensures
        default_config().enabled,
        default_config().max_retries == 2,
        default_config().max_parallel_tasks == 4,
        default_config().bootstrap_memory_timeout_ms == 60_000,
        default_config().local_failure_artifact_retention == 512,
        default_config().review_budget_reserve is None,
        default_config().too_complex_threshold is None,
        default_config().global_cli_cooldown_secs is None,
        default_config().profile_runtime.dom() == Set::<Seq<char>>::empty(),
{
}

} // verus!
