//! The running state of a task.

use vstd::prelude::*;
use vstd::string::*;

use crate::json::JValue;
use crate::json::Json;
use crate::text::copy_opt;
use crate::text::same;
use crate::text::trim;

verus! {

/// Task status throughout its lifecycle.
#[derive(Debug, Clone, Copy, PartialEq, Eq, Structural)]
pub enum TaskStatus {
    Pending,
    Running,
    Done,
    Failed,
    PartialBudgetOverdraw,
    TooComplex,
}

/// The name of a status.
pub open spec fn status_name(status: TaskStatus) -> Seq<char> {
    match status {
        TaskStatus::Pending => "pending"@,
        TaskStatus::Running => "running"@,
        TaskStatus::Done => "done"@,
        TaskStatus::Failed => "failed"@,
        TaskStatus::PartialBudgetOverdraw => "partial_budget_overdraw"@,
        TaskStatus::TooComplex => "too_complex"@,
    }
}

impl TaskStatus {
    /// The name of the status.
    pub fn to_text(&self) -> (r: String)
        ensures
            r@ == status_name(*self),
    {
        match self {
            TaskStatus::Pending => "pending".to_owned(),
            TaskStatus::Running => "running".to_owned(),
            TaskStatus::Done => "done".to_owned(),
            TaskStatus::Failed => "failed".to_owned(),
            TaskStatus::PartialBudgetOverdraw => "partial_budget_overdraw".to_owned(),
            TaskStatus::TooComplex => "too_complex".to_owned(),
        }
    }
}

/// What a task must leave behind in memory.
#[derive(Debug, Clone, Copy, PartialEq, Eq, Structural)]
pub enum DeliverableKind {
    Document,
    Code,
}

/// The name of a kind of deliverable.
pub open spec fn kind_name(kind: DeliverableKind) -> Seq<char> {
    match kind {
        DeliverableKind::Document => "document"@,
        DeliverableKind::Code => "code"@,
    }
}

/// The kind that a name stands for, white space around it aside.
pub open spec fn kind_named(raw: Seq<char>) -> Option<DeliverableKind> {
    let name = crate::text::trimmed(raw);
    if name == "document"@ {
        Some(DeliverableKind::Document)
    } else if name == "code"@ {
        Some(DeliverableKind::Code)
    } else {
        None
    }
}

impl DeliverableKind {
    pub fn as_str(&self) -> (r: &'static str)
        ensures
            r@ == kind_name(*self),
    {
        match self {
            DeliverableKind::Document => "document",
            DeliverableKind::Code => "code",
        }
    }

    pub fn parse(raw: &str) -> (r: Option<Self>)
        ensures
            r == kind_named(raw@),
    {
        let name = trim(raw);
        if same(name, "document") {
            Some(DeliverableKind::Document)
        } else if same(name, "code") {
            Some(DeliverableKind::Code)
        } else {
            None
        }
    }
}

/// A kind is what its own name stands for.
pub proof fn law_kind_name_parses_back(kind: DeliverableKind)
    ensures
        kind_named(kind_name(kind)) == Some(kind),
{
    reveal_strlit("document");
    reveal_strlit("code");
    let name = kind_name(kind);
    assert(crate::text::trimmed_start(name) == name);
    assert(crate::text::trimmed_end(name) == name);
    assert("document"@.len() != "code"@.len());
}

/// One tool call of a task, and whether it succeeded.
#[derive(Debug)]
pub struct ToolTraceEntry {
    pub tool: String,
    pub success: bool,
}

/// One tool call: the tool's name, and whether the call succeeded.
pub ghost struct TraceV {
    pub tool: Seq<char>,
    pub success: bool,
}

impl ToolTraceEntry {
    pub open spec fn view(&self) -> TraceV {
        TraceV { tool: self.tool@, success: self.success }
    }

    pub fn copy(&self) -> (r: ToolTraceEntry)
        ensures
            r@ == self@,
    {
        ToolTraceEntry { tool: self.tool.clone(), success: self.success }
    }
}

/// The tool calls of a list.
pub open spec fn trace_view(entries: Seq<ToolTraceEntry>) -> Seq<TraceV> {
    entries.map_values(|e: ToolTraceEntry| e@)
}

pub fn copy_trace(entries: &Vec<ToolTraceEntry>) -> (r: Vec<ToolTraceEntry>)
    ensures
        trace_view(r@) == trace_view(entries@),
{
    let mut out: Vec<ToolTraceEntry> = Vec::new();
    let mut i: usize = 0;
    while i < entries.len()
        invariant
            i <= entries.len(),
            out.len() == i,
            forall|k: int| 0 <= k < i ==> (#[trigger] out@[k])@ == entries@[k]@,
        decreases entries.len() - i,
    {
        out.push(entries[i].copy());
        i = i + 1;
    }
    assert(trace_view(out@) =~= trace_view(entries@));
    out
}

/// An amount of SHELL: as a JSON number, and rounded to two places.
#[derive(Debug)]
pub struct Amount {
    pub number: Json,
    pub rounded: String,
}

pub ghost struct AmountV {
    pub number: JValue,
    pub rounded: Seq<char>,
}

impl Amount {
    pub open spec fn view(&self) -> AmountV {
        AmountV { number: self.number@, rounded: self.rounded@ }
    }

    pub fn copy(&self) -> (r: Amount)
        ensures
            r@ == self@,
    {
        Amount { number: self.number.copy(), rounded: self.rounded.clone() }
    }
}

/// Running state of a task, updated each iteration.
#[derive(Debug)]
pub struct TaskState {
    pub task_id: String,
    pub agent_id: String,
    pub swarm_id: String,
    pub scope: String,
    /// Memory key (namespace) used for task/review/result persistence.
    pub work_key: String,
    /// Memory key (namespace) used for retrieval/source-of-truth context.
    pub context_key: String,
    pub status: TaskStatus,
    pub phase: String,
    pub iteration: u32,
    pub shell_spent: Amount,
    pub model_current: String,
    pub backend_current: String,
    pub started_at: String,
    pub finished_at: Option<String>,
    pub result: Option<String>,
    pub error: Option<String>,
    pub tool_trace: Vec<ToolTraceEntry>,
    /// Persisted fact id — authoritative for execution/result linkage.
    pub task_fact_id: Option<String>,
    /// Stable external user-facing task id.
    pub external_task_id: Option<String>,
    pub deliverable_kind: Option<DeliverableKind>,
    pub deliverable_fact_id: Option<String>,
    pub workspace_dir: Option<String>,
}

/// The running state of a task, in texts.
pub ghost struct StateV {
    pub task_id: Seq<char>,
    pub agent_id: Seq<char>,
    pub swarm_id: Seq<char>,
    pub scope: Seq<char>,
    pub work_key: Seq<char>,
    pub context_key: Seq<char>,
    pub status: TaskStatus,
    pub phase: Seq<char>,
    pub iteration: int,
    pub shell_spent: AmountV,
    pub model_current: Seq<char>,
    pub backend_current: Seq<char>,
    pub started_at: Seq<char>,
    pub finished_at: Option<Seq<char>>,
    pub result: Option<Seq<char>>,
    pub error: Option<Seq<char>>,
    pub tool_trace: Seq<TraceV>,
    pub task_fact_id: Option<Seq<char>>,
    pub external_task_id: Option<Seq<char>>,
    pub deliverable_kind: Option<DeliverableKind>,
    pub deliverable_fact_id: Option<Seq<char>>,
    pub workspace_dir: Option<Seq<char>>,
}

/// The state that a task starts in.
pub open spec fn fresh_state(
    task_id: Seq<char>,
    agent_id: Seq<char>,
    swarm_id: Seq<char>,
    work_key: Seq<char>,
    context_key: Seq<char>,
    nothing_spent: AmountV,
    now: Seq<char>,
) -> StateV {
    StateV {
        task_id,
        agent_id,
        swarm_id,
        scope: "agent-private"@,
        work_key,
        context_key,
        status: TaskStatus::Running,
        phase: "bootstrap"@,
        iteration: 0,
        shell_spent: nothing_spent,
        model_current: seq![],
        backend_current: seq![],
        started_at: now,
        finished_at: None,
        result: None,
        error: None,
        tool_trace: seq![],
        task_fact_id: None,
        external_task_id: None,
        deliverable_kind: None,
        deliverable_fact_id: None,
        workspace_dir: None,
    }
}

/// The id that users know a task by.
pub open spec fn external_id(s: StateV) -> Seq<char> {
    match s.external_task_id {
        Some(id) => id,
        None => s.task_id,
    }
}

/// The id of the fact that a task is.
pub open spec fn fact_id(s: StateV) -> Seq<char> {
    match s.task_fact_id {
        Some(id) => id,
        None => s.task_id,
    }
}

/// The state with a finish time: the first one given stays.
pub open spec fn finished(s: StateV, now: Seq<char>) -> StateV {
    match s.finished_at {
        Some(_) => s,
        None => StateV { finished_at: Some(now), ..s },
    }
}

/// The state of a task that failed for a reason.
pub open spec fn failed(s: StateV, error: Seq<char>) -> StateV {
    StateV { status: TaskStatus::Failed, error: Some(error), ..s }
}

pub open spec fn is_terminal_status(status: TaskStatus) -> bool {
    match status {
        TaskStatus::Done | TaskStatus::Failed | TaskStatus::PartialBudgetOverdraw | TaskStatus::TooComplex => true,
        TaskStatus::Pending | TaskStatus::Running => false,
    }
}

impl TaskState {
    pub open spec fn view(&self) -> StateV {
        StateV {
            task_id: self.task_id@,
            agent_id: self.agent_id@,
            swarm_id: self.swarm_id@,
            scope: self.scope@,
            work_key: self.work_key@,
            context_key: self.context_key@,
            status: self.status,
            phase: self.phase@,
            iteration: self.iteration as int,
            shell_spent: self.shell_spent@,
            model_current: self.model_current@,
            backend_current: self.backend_current@,
            started_at: self.started_at@,
            finished_at: crate::text::opt_text(self.finished_at),
            result: crate::text::opt_text(self.result),
            error: crate::text::opt_text(self.error),
            tool_trace: trace_view(self.tool_trace@),
            task_fact_id: crate::text::opt_text(self.task_fact_id),
            external_task_id: crate::text::opt_text(self.external_task_id),
            deliverable_kind: self.deliverable_kind,
            deliverable_fact_id: crate::text::opt_text(self.deliverable_fact_id),
            workspace_dir: crate::text::opt_text(self.workspace_dir),
        }
    }

    /// A task whose work and context live under one key.
    pub fn new(
        task_id: &str,
        agent_id: &str,
        swarm_id: &str,
        key: &str,
        nothing_spent: Amount,
        now: &str,
    ) -> (r: Self)
        ensures
            r@ == fresh_state(task_id@, agent_id@, swarm_id@, key@, key@, nothing_spent@, now@),
    {
        Self::with_keys(task_id, agent_id, swarm_id, key, key, nothing_spent, now)
    }

    pub fn with_keys(
        task_id: &str,
        agent_id: &str,
        swarm_id: &str,
        work_key: &str,
        context_key: &str,
        nothing_spent: Amount,
        now: &str,
    ) -> (r: Self)
        ensures
            r@ == fresh_state(
                task_id@,
                agent_id@,
                swarm_id@,
                work_key@,
                context_key@,
                nothing_spent@,
                now@,
            ),
    {
        let r = TaskState {
            task_id: task_id.to_owned(),
            agent_id: agent_id.to_owned(),
            swarm_id: swarm_id.to_owned(),
            scope: "agent-private".to_owned(),
            work_key: work_key.to_owned(),
            context_key: context_key.to_owned(),
            status: TaskStatus::Running,
            phase: "bootstrap".to_owned(),
            iteration: 0,
            shell_spent: nothing_spent,
            model_current: String::new(),
            backend_current: String::new(),
            started_at: now.to_owned(),
            finished_at: None,
            result: None,
            error: None,
            tool_trace: Vec::new(),
            task_fact_id: None,
            external_task_id: None,
            deliverable_kind: None,
            deliverable_fact_id: None,
            workspace_dir: None,
        };
        assert(trace_view(r.tool_trace@) =~= seq![]);
        r
    }

    pub fn is_terminal(&self) -> (r: bool)
        ensures
            r == is_terminal_status(self@.status),
    {
        match self.status {
            TaskStatus::Done
            | TaskStatus::Failed
            | TaskStatus::PartialBudgetOverdraw
            | TaskStatus::TooComplex => true,
            TaskStatus::Pending | TaskStatus::Running => false,
        }
    }

    pub fn external_or_task_id(&self) -> (r: &str)
        ensures
            r@ == external_id(self@),
    {
        match &self.external_task_id {
            Some(id) => id.as_str(),
            None => self.task_id.as_str(),
        }
    }

    pub fn task_fact_or_task_id(&self) -> (r: &str)
        ensures
            r@ == fact_id(self@),
    {
        match &self.task_fact_id {
            Some(id) => id.as_str(),
            None => self.task_id.as_str(),
        }
    }

    /// A copy of a state.
    pub fn copy(&self) -> (r: TaskState)
        ensures
            r@ == self@,
    {
        TaskState {
            task_id: self.task_id.clone(),
            agent_id: self.agent_id.clone(),
            swarm_id: self.swarm_id.clone(),
            scope: self.scope.clone(),
            work_key: self.work_key.clone(),
            context_key: self.context_key.clone(),
            status: self.status,
            phase: self.phase.clone(),
            iteration: self.iteration,
            shell_spent: self.shell_spent.copy(),
            model_current: self.model_current.clone(),
            backend_current: self.backend_current.clone(),
            started_at: self.started_at.clone(),
            finished_at: copy_opt(&self.finished_at),
            result: copy_opt(&self.result),
            error: copy_opt(&self.error),
            tool_trace: copy_trace(&self.tool_trace),
            task_fact_id: copy_opt(&self.task_fact_id),
            external_task_id: copy_opt(&self.external_task_id),
            deliverable_kind: self.deliverable_kind,
            deliverable_fact_id: copy_opt(&self.deliverable_fact_id),
            workspace_dir: copy_opt(&self.workspace_dir),
        }
    }

    /// Fails the task for a reason.
    pub fn fail(&mut self, error: String)
        ensures
            final(self)@ == failed(old(self)@, error@),
    {
        self.status = TaskStatus::Failed;
        self.error = Some(error);
    }

    /// Appends one tool call to the trace.
    pub fn note_tool(&mut self, tool: &str, success: bool)
        ensures
            final(self)@ == (StateV {
                tool_trace: old(self)@.tool_trace.push(TraceV { tool: tool@, success }),
                ..old(self)@
            }),
    {
        self.tool_trace.push(ToolTraceEntry { tool: tool.to_owned(), success });
        assert(trace_view(self.tool_trace@) =~= trace_view(old(self).tool_trace@).push(
            TraceV { tool: tool@, success },
        ));
    }
}

/// Gives a task its finish time, unless it has one.
pub fn mark_finished(state: &mut TaskState, now: &str)
    ensures
        final(state)@ == finished(old(state)@, now@),
{
    if state.finished_at.is_none() {
        state.finished_at = Some(now.to_owned());
    }
}

/// A finish time stays: marking a task finished a second time changes nothing.
pub proof fn law_first_finish_time_stays(s: StateV, first: Seq<char>, second: Seq<char>)
    ensures
        finished(finished(s, first), second) == finished(s, first),
{
}

/// Result returned for a task.
#[derive(Debug)]
pub struct TaskResult {
    pub task_id: String,
    pub status: TaskStatus,
    pub shell_spent: Amount,
    pub artifacts_written: Vec<String>,
    pub result: Option<String>,
    pub error: Option<String>,
    pub deliverable_kind: Option<DeliverableKind>,
    pub deliverable_fact_id: Option<String>,
}

pub ghost struct ResultV {
    pub task_id: Seq<char>,
    pub status: TaskStatus,
    pub shell_spent: AmountV,
    pub artifacts_written: Seq<Seq<char>>,
    pub result: Option<Seq<char>>,
    pub error: Option<Seq<char>>,
    pub deliverable_kind: Option<DeliverableKind>,
    pub deliverable_fact_id: Option<Seq<char>>,
}

impl TaskResult {
    pub open spec fn view(&self) -> ResultV {
        ResultV {
            task_id: self.task_id@,
            status: self.status,
            shell_spent: self.shell_spent@,
            artifacts_written: crate::text::texts(self.artifacts_written@),
            result: crate::text::opt_text(self.result),
            error: crate::text::opt_text(self.error),
            deliverable_kind: self.deliverable_kind,
            deliverable_fact_id: crate::text::opt_text(self.deliverable_fact_id),
        }
    }
}

/// A task starts as its own: with its names and keys, running, with nothing done and nothing spent.
pub proof fn law_new_task_keeps_its_names(
    task_id: Seq<char>,
    agent_id: Seq<char>,
    swarm_id: Seq<char>,
    work_key: Seq<char>,
    context_key: Seq<char>,
    nothing_spent: AmountV,
    now: Seq<char>,
)
    ensures
        ({
            let s = fresh_state(
                task_id,
                agent_id,
                swarm_id,
                work_key,
                context_key,
                nothing_spent,
                now,
            );
            &&& s.task_id == task_id && s.agent_id == agent_id && s.swarm_id == swarm_id
            &&& s.work_key == work_key && s.context_key == context_key && s.scope == "agent-private"@
            &&& s.shell_spent == nothing_spent && s.iteration == 0
            &&& s.started_at == now && s.finished_at is None
            &&& !is_terminal_status(s.status) && s.status == TaskStatus::Running
            &&& s.result is None && s.error is None && s.tool_trace.len() == 0
            &&& s.deliverable_kind is None && s.deliverable_fact_id is None
            &&& external_id(s) == task_id
        }),
{
}

/// A failure changes a task's status and error and nothing else; a task that ends keeps all but the
/// time at which it did.
pub proof fn law_failure_changes_nothing_else(s: StateV, error: Seq<char>, now: Seq<char>)
    ensures
        failed(s, error).status == TaskStatus::Failed && failed(s, error).error == Some(error),
        failed(s, error) == (StateV { status: failed(s, error).status, error: failed(s, error).error, ..s }),
        is_terminal_status(failed(s, error).status),
        finished(s, now).finished_at is Some,
        finished(s, now) == (StateV { finished_at: finished(s, now).finished_at, ..s }),
{
}

/// Users know a task by the id that they gave it, else by its own.
pub proof fn law_users_id_wins(s: StateV)
    ensures
        s.external_task_id matches Some(id) ==> external_id(s) == id,
        s.external_task_id is None ==> external_id(s) == s.task_id,
{
}

/// A task goes by its fact's id, else by its own; only the two kinds of deliverables have a name.
pub proof fn law_facts_id_wins(s: StateV, raw: Seq<char>)
    ensures
        s.task_fact_id matches Some(id) ==> fact_id(s) == id,
        s.task_fact_id is None ==> fact_id(s) == s.task_id,
        kind_named(raw) matches Some(kind) ==> crate::text::trimmed(raw) == kind_name(kind),
        kind_named(raw) is None ==> crate::text::trimmed(raw) != "document"@ && crate::text::trimmed(
            raw,
        ) != "code"@,
{
}

} // verus!
