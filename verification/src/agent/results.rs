//! What a task leaves behind: its session, its deliverable and its result.

use vstd::prelude::*;
use vstd::string::*;

use crate::agent::facts;
use crate::agent::facts::canonical_deliverable_fact;
use crate::agent::facts::canonical_result_fact;
use crate::agent::facts::canonical_session_fact;
use crate::agent::facts::legacy_result_fact;
use crate::agent::facts::legacy_session_fact;
use crate::agent::facts::prefixed;
use crate::agent::persist;
use crate::agent::persist::ingest_fact;
use crate::agent::persist::CallError;
use crate::agent::persist::CallErrorV;
use crate::agent::persist::MemoryAction;
use crate::agent::persist::MemoryActionV;
use crate::agent::persist::VerifiedWrite;
use crate::agent::persist::WriteV;
use crate::agent::prompts;
use crate::agent::prompts::invalid_deliverable_source_retry_reason;
use crate::agent::prompts::is_external_cli_terminal_source;
use crate::agent::prompts::missing_deliverable_retry_reason;
use crate::agent::sanitize;
use crate::agent::sanitize::sanitize_task_result;
use crate::agent::sanitize::SanitizedTaskResult;
use crate::agent::sanitize::SanitizedV;
use crate::agent::task;
use crate::agent::task::DeliverableKind;
use crate::agent::task::StateV;
use crate::agent::task::TaskState;
use crate::agent::task::TaskStatus;
use crate::client::memory;
use crate::client::memory::MemoryQueryParams;
use crate::client::memory::QueryV;
use crate::json;
use crate::json::put_text;
use crate::json::JValue;
use crate::json::Json;
use crate::text;
use crate::text::decimal_of;
use crate::text::same;

verus! {

// ── Terminal deliverables ───────────────────────────────────────────────

/// A deliverable that memory holds.
#[derive(Debug)]
pub struct TerminalDeliverableRef {
    pub fact_id: String,
    pub deliverable_kind: DeliverableKind,
    pub source: String,
}

pub ghost struct DeliverableV {
    pub fact_id: Seq<char>,
    pub deliverable_kind: DeliverableKind,
    pub source: Seq<char>,
}

pub open spec fn deliverable_view(o: Option<TerminalDeliverableRef>) -> Option<DeliverableV> {
    match o {
        Some(d) => Some(
            DeliverableV {
                fact_id: d.fact_id@,
                deliverable_kind: d.deliverable_kind,
                source: d.source@,
            },
        ),
        None => None,
    }
}

/// The search for a task's deliverable.
pub open spec fn deliverable_search(s: StateV, kind: DeliverableKind) -> QueryV {
    memory::newest(
        s.work_key,
        s.agent_id,
        s.swarm_id,
        JValue::Obj(
            Map::<Seq<char>, JValue>::empty().insert(
                "kind"@,
                JValue::Str("task_deliverable"@),
            ).insert("metadata.task_fact_id"@, JValue::Str(task::fact_id(s))).insert(
                "metadata.artifact_role"@,
                JValue::Str("terminal"@),
            ).insert("metadata.deliverable_kind"@, JValue::Str(task::kind_name(kind))),
        ),
        1,
    )
}

/// The search for a task's deliverable.
pub fn terminal_deliverable_query(state: &TaskState, kind: DeliverableKind) -> (r:
    MemoryQueryParams)
    ensures
        r@ == deliverable_search(state@, kind),
{
    let mut filter: Vec<(String, Json)> = Vec::new();
    put_text(&mut filter, "kind", "task_deliverable");
    put_text(&mut filter, "metadata.task_fact_id", state.task_fact_or_task_id());
    put_text(&mut filter, "metadata.artifact_role", "terminal");
    put_text(&mut filter, "metadata.deliverable_kind", kind.as_str());
    MemoryQueryParams::newest(
        state.work_key.as_str(),
        state.agent_id.as_str(),
        state.swarm_id.as_str(),
        Json::Obj(filter),
        1,
    )
}

/// The deliverable that an answer of memory starts with.
pub open spec fn deliverable_in(response: JValue, s: StateV, kind: DeliverableKind) -> Option<
    DeliverableV,
> {
    let found = persist::facts_in(response);
    if found.len() == 0 {
        None
    } else {
        Some(
            DeliverableV {
                fact_id: match json::jget_str(found[0], "id"@) {
                    Some(id) => id,
                    None => "task_deliverable_"@ + task::external_id(s),
                },
                deliverable_kind: match facts::metadata_text(found[0], "deliverable_kind"@) {
                    Some(name) => match task::kind_named(name) {
                        Some(k) => k,
                        None => kind,
                    },
                    None => kind,
                },
                source: match facts::metadata_text(found[0], "source"@) {
                    Some(source) => source,
                    None => "external_cli"@,
                },
            },
        )
    }
}

fn text_in_metadata<'a>(fact: &'a Json, field: &str) -> (r: Option<&'a str>)
    ensures
        text::opt_slice(r) == facts::metadata_text(fact@, field@),
{
    match fact.get("metadata") {
        Some(m) => m.get_str(field),
        None => None,
    }
}

/// The deliverable that an answer of memory starts with.
pub fn query_terminal_deliverable(response: &Json, state: &TaskState, kind: DeliverableKind) -> (r:
    Option<TerminalDeliverableRef>)
    ensures
        deliverable_view(r) == deliverable_in(response@, state@, kind),
{
    let fact = match response.get_array("facts") {
        Some(items) => if items.len() == 0 {
            return None;
        } else {
            &items[0]
        },
        None => {
            return None;
        },
    };
    assert(fact@ == persist::facts_in(response@)[0]);
    let deliverable_kind = match text_in_metadata(fact, "deliverable_kind") {
        Some(name) => match DeliverableKind::parse(name) {
            Some(k) => k,
            None => kind,
        },
        None => kind,
    };
    let fact_id = match fact.get_str("id") {
        Some(id) => id.to_owned(),
        None => prefixed("task_deliverable_", state.external_or_task_id()),
    };
    let source = match text_in_metadata(fact, "source") {
        Some(source) => source.to_owned(),
        None => "external_cli".to_owned(),
    };
    Some(TerminalDeliverableRef { fact_id, deliverable_kind, source })
}

/// Whether a finished attempt has to be held against its deliverable: where a coding CLI must have
/// left one.
pub open spec fn needs_deliverable(s: StateV) -> Option<DeliverableKind> {
    match s.deliverable_kind {
        Some(kind) if s.backend_current == "local_cli"@ => Some(kind),
        _ => None,
    }
}

/// What holding an attempt against its deliverable gives: the state, and why to try again.
pub open spec fn validated(s: StateV, found: Option<DeliverableV>, kind: DeliverableKind) -> (
    StateV,
    Option<Seq<char>>,
) {
    let cleared = StateV { deliverable_fact_id: None, ..s };
    match found {
        Some(d) => if prompts::is_external_source(d.source) {
            (StateV { deliverable_fact_id: Some(d.fact_id), ..s }, None)
        } else {
            (
                cleared,
                prompts::invalid_source_reason(cleared, kind, text::debug_text(d.source)),
            )
        },
        None => (cleared, prompts::missing_reason(cleared, kind)),
    }
}

/// Forgets an earlier deliverable, and tells whether there must be one.
pub fn begin_validation(state: &mut TaskState) -> (r: Option<DeliverableKind>)
    ensures
        final(state)@ == (StateV { deliverable_fact_id: None, ..old(state)@ }),
        r == needs_deliverable(old(state)@),
{
    state.deliverable_fact_id = None;
    match state.deliverable_kind {
        Some(kind) => if same(state.backend_current.as_str(), "local_cli") {
            Some(kind)
        } else {
            None
        },
        None => None,
    }
}

/// Holds an attempt against the deliverable that was found.
pub fn validate_terminal_deliverable(
    state: &mut TaskState,
    found: Option<TerminalDeliverableRef>,
    kind: DeliverableKind,
) -> (r: Option<String>)
    ensures
        (final(state)@, text::opt_text(r)) == validated(
            old(state)@,
            deliverable_view(found),
            kind,
        ),
{
    state.deliverable_fact_id = None;
    match found {
        Some(d) => {
            if is_external_cli_terminal_source(d.source.as_str()) {
                state.deliverable_fact_id = Some(d.fact_id);
                None
            } else {
                invalid_deliverable_source_retry_reason(state, kind, d.source.as_str())
            }
        },
        None => missing_deliverable_retry_reason(state, kind),
    }
}

/// An attempt of a coding CLI passes only with a deliverable that the CLI wrote itself.
pub proof fn law_cli_attempt_needs_its_deliverable(
    s: StateV,
    found: Option<DeliverableV>,
    kind: DeliverableKind,
)
    requires
        needs_deliverable(s) == Some(kind),
    ensures
        validated(s, found, kind).1 is None <==> (found matches Some(d)
            && prompts::is_external_source(d.source)),
        validated(s, found, kind).1 is None <==> validated(
            s,
            found,
            kind,
        ).0.deliverable_fact_id is Some,
{
}

// ── The machine ─────────────────────────────────────────────────────────

/// How far the results of a task have come.
#[derive(Debug)]
pub enum Stage {
    /// The session is announced.
    Anchor(VerifiedWrite),
    /// The deliverable is looked for.
    FindDeliverable(DeliverableKind),
    WriteDeliverable(VerifiedWrite),
    WriteResult(VerifiedWrite),
    LegacyResult,
    WriteSession(VerifiedWrite),
    LegacySession,
    Ended,
}

pub ghost enum StageV {
    Anchor(WriteV),
    FindDeliverable(DeliverableKind),
    WriteDeliverable(WriteV),
    WriteResult(WriteV),
    LegacyResult,
    WriteSession(WriteV),
    LegacySession,
    Ended,
}

impl Stage {
    pub open spec fn view(&self) -> StageV {
        match self {
            Stage::Anchor(w) => StageV::Anchor(w@),
            Stage::FindDeliverable(k) => StageV::FindDeliverable(*k),
            Stage::WriteDeliverable(w) => StageV::WriteDeliverable(w@),
            Stage::WriteResult(w) => StageV::WriteResult(w@),
            Stage::LegacyResult => StageV::LegacyResult,
            Stage::WriteSession(w) => StageV::WriteSession(w@),
            Stage::LegacySession => StageV::LegacySession,
            Stage::Ended => StageV::Ended,
        }
    }
}

/// The results of a task on their way into memory.
#[derive(Debug)]
pub struct Persistence {
    /// The result, where the task has one.
    pub result: Option<String>,
    /// What has been written.
    pub artifacts: Vec<String>,
    /// How many seconds a call may take.
    pub timeout_secs: u64,
    pub stage: Stage,
}

pub ghost struct PersistenceV {
    pub result: Option<Seq<char>>,
    pub artifacts: Seq<Seq<char>>,
    pub timeout_secs: int,
    pub stage: StageV,
}

impl Persistence {
    pub open spec fn view(&self) -> PersistenceV {
        PersistenceV {
            result: text::opt_text(self.result),
            artifacts: text::texts(self.artifacts@),
            timeout_secs: self.timeout_secs as int,
            stage: self.stage@,
        }
    }
}

/// What follows: the machine, the task and what to do.
pub ghost struct NextV {
    pub machine: PersistenceV,
    pub state: StateV,
    pub action: MemoryActionV,
}

/// The text that announces a session.
pub open spec fn anchor_text(s: StateV) -> Seq<char> {
    "Agent "@ + s.agent_id + " is finalizing task "@ + task::external_id(s)
        + " persistence. Iterations: "@ + text::decimal_int(s.iteration) + ", shell spent: "@
        + s.shell_spent.rounded + ", model: "@ + s.model_current
}

/// The text of a session.
pub open spec fn session_text(s: StateV) -> Seq<char> {
    "Agent "@ + s.agent_id + " completed task "@ + task::external_id(s) + " with status "@
        + task::status_name(s.status) + ". Iterations: "@ + text::decimal_int(s.iteration)
        + ", shell spent: "@ + s.shell_spent.rounded + ", model: "@ + s.model_current
}

/// The text that stands for the result of a task that gave none.
pub open spec fn failure_text(s: StateV) -> Seq<char> {
    "Task "@ + task::external_id(s) + " finished with status "@ + task::status_name(s.status)
        + ": "@ + (match s.error {
        Some(e) => e,
        None => task::status_name(s.status),
    })
}

/// A task while its results are written: still running.
pub open spec fn anchor_state(s: StateV) -> StateV {
    StateV {
        status: TaskStatus::Running,
        phase: "persistence_pending_result"@,
        finished_at: None,
        ..s
    }
}

/// Begins a verified write.
pub open spec fn writing(p: PersistenceV, s: StateV, w: WriteV, stage: StageV) -> NextV {
    NextV {
        machine: PersistenceV { stage, ..p },
        state: s,
        action: MemoryActionV::Ingest(persist::write_call(w)),
    }
}

/// On to the session.
pub open spec fn to_session(p: PersistenceV, s: StateV) -> NextV {
    let w = persist::fresh_write(
        s,
        facts::session_fact(s, session_text(s)),
        "task_session"@,
        Some(task::status_name(s.status)),
        p.timeout_secs,
    );
    writing(p, s, w, StageV::WriteSession(w))
}

/// On to the result.
pub open spec fn to_result(p: PersistenceV, s: StateV, result: Seq<char>) -> NextV {
    let w = persist::fresh_write(
        s,
        facts::result_fact(s, result),
        "task_result"@,
        Some(task::status_name(s.status)),
        p.timeout_secs,
    );
    writing(p, s, w, StageV::WriteResult(w))
}

/// On to the deliverable.
pub open spec fn to_deliverable(p: PersistenceV, s: StateV, result: Seq<char>) -> NextV {
    match s.deliverable_kind {
        None => to_result(p, StateV { deliverable_fact_id: None, ..s }, result),
        Some(kind) => NextV {
            machine: PersistenceV { stage: StageV::FindDeliverable(kind), ..p },
            state: s,
            action: MemoryActionV::Query(deliverable_search(s, kind)),
        },
    }
}

/// A machine that has come to its end.
pub open spec fn ended(p: PersistenceV, s: StateV, action: MemoryActionV) -> NextV {
    NextV { machine: PersistenceV { stage: StageV::Ended, ..p }, state: s, action }
}

/// Whether a task that gave no result is recorded as a failure.
pub open spec fn records_failure(status: TaskStatus) -> bool {
    status == TaskStatus::Failed || status == TaskStatus::PartialBudgetOverdraw || status
        == TaskStatus::TooComplex
}

/// The beginning: a result that is none is refused.
pub open spec fn started(s: StateV, timeout_secs: int) -> NextV {
    let p = PersistenceV {
        result: None,
        artifacts: seq![],
        timeout_secs,
        stage: StageV::Ended,
    };
    match s.result {
        Some(result) => match sanitize::sanitized(result) {
            SanitizedV::Rejected(reason) => ended(
                p,
                s,
                MemoryActionV::Failed(
                    "refusing to persist invalid task result for "@ + task::external_id(s) + ": "@
                        + reason,
                ),
            ),
            SanitizedV::Accepted(sanitized) => {
                let a = anchor_state(s);
                let w = persist::fresh_write(
                    a,
                    facts::session_fact(a, anchor_text(s)),
                    "task_session"@,
                    Some("running"@),
                    timeout_secs,
                );
                writing(
                    PersistenceV { result: Some(sanitized), ..p },
                    s,
                    w,
                    StageV::Anchor(w),
                )
            },
        },
        None => if records_failure(s.status) {
            to_result(p, s, failure_text(s))
        } else {
            to_session(p, s)
        },
    }
}

/// The artifacts with one more.
pub open spec fn noted(p: PersistenceV, s: StateV, kind: Seq<char>) -> PersistenceV {
    PersistenceV { artifacts: p.artifacts.push(kind + task::external_id(s)), ..p }
}

/// The result of a machine that has one.
pub open spec fn result_of(p: PersistenceV) -> Seq<char> {
    match p.result {
        Some(r) => r,
        None => seq![],
    }
}

/// What follows where the fact of a stage was found.
pub open spec fn written(p: PersistenceV, s: StateV) -> NextV {
    match p.stage {
        StageV::Anchor(_) => to_deliverable(p, s, result_of(p)),
        StageV::WriteDeliverable(_) => {
            let s2 = StateV {
                deliverable_fact_id: Some("task_deliverable_"@ + task::external_id(s)),
                ..s
            };
            to_result(noted(p, s2, "deliverable:"@), s2, result_of(p))
        },
        StageV::WriteResult(_) => {
            let p2 = noted(p, s, "result:"@);
            match p.result {
                Some(result) => NextV {
                    machine: PersistenceV { stage: StageV::LegacyResult, ..p2 },
                    state: s,
                    action: MemoryActionV::Ingest(
                        persist::ingest_of(
                            s,
                            facts::legacy_result(task::external_id(s), result),
                        ),
                    ),
                },
                None => to_session(p2, s),
            }
        },
        StageV::WriteSession(_) => {
            let p2 = noted(p, s, "session:"@);
            NextV {
                machine: PersistenceV { stage: StageV::LegacySession, ..p2 },
                state: s,
                action: MemoryActionV::Ingest(
                    persist::ingest_of(
                        s,
                        facts::legacy_session(s.agent_id, task::external_id(s), session_text(s)),
                    ),
                ),
            }
        },
        _ => ended(p, s, MemoryActionV::Done),
    }
}

/// The write of a stage.
pub open spec fn write_of(stage: StageV) -> Option<WriteV> {
    match stage {
        StageV::Anchor(w) => Some(w),
        StageV::WriteDeliverable(w) => Some(w),
        StageV::WriteResult(w) => Some(w),
        StageV::WriteSession(w) => Some(w),
        _ => None,
    }
}

/// A stage whose write has gone on.
pub open spec fn with_write(stage: StageV, w: WriteV) -> StageV {
    match stage {
        StageV::Anchor(_) => StageV::Anchor(w),
        StageV::WriteDeliverable(_) => StageV::WriteDeliverable(w),
        StageV::WriteResult(_) => StageV::WriteResult(w),
        StageV::WriteSession(_) => StageV::WriteSession(w),
        _ => stage,
    }
}

/// What follows a step of a stage's write.
pub open spec fn stepped(p: PersistenceV, s: StateV, w: WriteV, action: MemoryActionV) -> NextV {
    let p2 = PersistenceV { stage: with_write(p.stage, w), ..p };
    match action {
        MemoryActionV::Done => written(p2, s),
        MemoryActionV::Failed(e) => ended(p2, s, MemoryActionV::Failed(e)),
        _ => NextV { machine: p2, state: s, action },
    }
}

/// What follows the write of a fact.  Of the writes for older readers nothing is asked.
pub open spec fn ingested(p: PersistenceV, s: StateV, outcome: Result<(), CallErrorV>) -> NextV {
    match write_of(p.stage) {
        Some(w) => stepped(p, s, w, persist::ingested(w, outcome)),
        None => match p.stage {
            StageV::LegacyResult => to_session(p, s),
            _ => ended(p, s, MemoryActionV::Done),
        },
    }
}

/// What follows a search: for the fact of a stage, or for the deliverable.
pub open spec fn searched(p: PersistenceV, s: StateV, outcome: Result<JValue, CallErrorV>) -> NextV {
    match p.stage {
        StageV::FindDeliverable(kind) => match outcome {
            Err(e) => ended(
                p,
                s,
                MemoryActionV::Failed(persist::error_text(e, "memory_query"@, p.timeout_secs)),
            ),
            Ok(response) => match deliverable_in(response, s, kind) {
                Some(d) => {
                    let s2 = StateV { deliverable_fact_id: Some(d.fact_id), ..s };
                    to_result(noted(p, s2, "deliverable:"@), s2, result_of(p))
                },
                None => if s.backend_current == "local_cli"@ {
                    ended(
                        p,
                        s,
                        MemoryActionV::Failed(
                            "missing terminal "@ + task::kind_name(kind)
                                + " deliverable artifact for task "@ + task::external_id(s),
                        ),
                    )
                } else {
                    let w = persist::fresh_write(
                        s,
                        facts::deliverable_fact(s, result_of(p), kind, "agent_result"@),
                        "task_deliverable"@,
                        None,
                        p.timeout_secs,
                    );
                    writing(p, s, w, StageV::WriteDeliverable(w))
                },
            },
        },
        _ => match write_of(p.stage) {
            Some(w) => {
                let (w2, action) = persist::searched(w, outcome);
                stepped(p, s, w2, action)
            },
            None => ended(p, s, MemoryActionV::Done),
        },
    }
}

/// What follows a wait: the fact of the stage is written again.
pub open spec fn waited(p: PersistenceV, s: StateV) -> NextV {
    match write_of(p.stage) {
        Some(w) => NextV {
            machine: p,
            state: s,
            action: MemoryActionV::Ingest(persist::write_call(w)),
        },
        None => ended(p, s, MemoryActionV::Done),
    }
}

// ── Laws ────────────────────────────────────────────────────────────────

/// What comes of an action of the writing.
pub ghost enum MemoryEventV {
    Ingested(Result<(), CallErrorV>),
    Searched(Result<JValue, CallErrorV>),
    Waited,
}

/// Whether an event is what can come of an action.
pub open spec fn answers(action: MemoryActionV, e: MemoryEventV) -> bool {
    match e {
        MemoryEventV::Ingested(_) => action is Ingest,
        MemoryEventV::Searched(_) => action is Query,
        MemoryEventV::Waited => action is Wait,
    }
}

/// What follows an event.
pub open spec fn advanced(n: NextV, e: MemoryEventV) -> NextV {
    match e {
        MemoryEventV::Ingested(outcome) => ingested(n.machine, n.state, outcome),
        MemoryEventV::Searched(outcome) => searched(n.machine, n.state, outcome),
        MemoryEventV::Waited => waited(n.machine, n.state),
    }
}

/// The writing of a task's results after so many events.
pub open spec fn persisted(s: StateV, timeout_secs: int, events: Seq<MemoryEventV>) -> NextV
    decreases events.len(),
{
    if events.len() == 0 {
        started(s, timeout_secs)
    } else {
        advanced(persisted(s, timeout_secs, events.drop_last()), events.last())
    }
}

/// Whether each event is what can come of the action before it.
pub open spec fn orderly(s: StateV, timeout_secs: int, events: Seq<MemoryEventV>) -> bool
    decreases events.len(),
{
    events.len() == 0 || (orderly(s, timeout_secs, events.drop_last()) && answers(
        persisted(s, timeout_secs, events.drop_last()).action,
        events.last(),
    ))
}

/// Whether a task leaves a result, be it the report of a failure.
pub open spec fn leaves_result(s: StateV) -> bool {
    s.result is Some || records_failure(s.status)
}

/// Whether the artifacts name the session of a task, and its result where it leaves one.
pub open spec fn complete(s: StateV, artifacts: Seq<Seq<char>>) -> bool {
    &&& artifacts.contains("session:"@ + task::external_id(s))
    &&& leaves_result(s) ==> artifacts.contains("result:"@ + task::external_id(s))
}

/// What holds of the writing at every stage.
spec fn on_its_way(n: NextV, s: StateV) -> bool {
    let artifacts = n.machine.artifacts;
    let has_result = artifacts.contains("result:"@ + task::external_id(s));
    &&& n.state == (StateV { deliverable_fact_id: n.state.deliverable_fact_id, ..s })
    &&& match n.machine.stage {
        StageV::FindDeliverable(_) => n.action is Query,
        StageV::LegacyResult => n.action is Ingest && has_result,
        StageV::WriteSession(_) => !(n.action is Done) && (leaves_result(s) ==> has_result),
        StageV::LegacySession => n.action is Ingest && complete(s, artifacts),
        StageV::Ended => n.action is Done ==> complete(s, artifacts),
        _ => !(n.action is Done),
    }
}

proof fn lemma_push_keeps(a: Seq<Seq<char>>, x: Seq<char>)
    ensures
        a.push(x).contains(x),
        forall|y: Seq<char>| a.contains(y) ==> #[trigger] a.push(x).contains(y),
{
    assert(a.push(x)[a.len() as int] == x);
    assert forall|y: Seq<char>| a.contains(y) implies #[trigger] a.push(x).contains(y) by {
        let i = choose|i: int| 0 <= i < a.len() && a[i] == y;
        assert(a.push(x)[i] == y);
    }
}

/// Results are written completely or not at all: where the writing ends well, the session is among
/// the artifacts, and the result of a task that leaves one.
pub proof fn law_written_results_are_complete(
    s: StateV,
    timeout_secs: int,
    events: Seq<MemoryEventV>,
)
    requires
        orderly(s, timeout_secs, events),
    ensures
        ({
            let n = persisted(s, timeout_secs, events);
            &&& n.state == (StateV { deliverable_fact_id: n.state.deliverable_fact_id, ..s })
            &&& n.action is Done ==> complete(s, n.machine.artifacts)
        }),
{
    lemma_on_its_way(s, timeout_secs, events);
}

proof fn lemma_on_its_way(s: StateV, timeout_secs: int, events: Seq<MemoryEventV>)
    requires
        orderly(s, timeout_secs, events),
    ensures
        on_its_way(persisted(s, timeout_secs, events), s),
    decreases events.len(),
{
    if events.len() > 0 {
        lemma_on_its_way(s, timeout_secs, events.drop_last());
        let n = persisted(s, timeout_secs, events.drop_last());
        let id = task::external_id(s);
        lemma_push_keeps(n.machine.artifacts, "result:"@ + id);
        lemma_push_keeps(n.machine.artifacts, "session:"@ + id);
    }
}

/// A result that is blank or only reasoning is never written.
pub proof fn law_invalid_result_is_not_written(s: StateV, timeout_secs: int)
    requires
        s.result matches Some(r) && sanitize::sanitized(r) is Rejected,
    ensures
        started(s, timeout_secs).action is Failed,
{
}

/// A result is noted among the artifacts only after a query found it, and its session follows it.
pub proof fn law_result_is_noted_once_found(p: PersistenceV, s: StateV)
    requires
        p.stage is WriteResult,
    ensures
        written(p, s).machine.artifacts == p.artifacts.push("result:"@ + task::external_id(s)),
        p.result is None ==> written(p, s).machine.stage is WriteSession,
{
}

/// Writing results never changes what a task came to: only its deliverable may become known.
pub proof fn law_persistence_keeps_the_task(
    p: PersistenceV,
    s: StateV,
    done: Result<(), CallErrorV>,
    found: Result<JValue, CallErrorV>,
)
    ensures
        ingested(p, s, done).state == (StateV {
            deliverable_fact_id: ingested(p, s, done).state.deliverable_fact_id,
            ..s
        }),
        searched(p, s, found).state == (StateV {
            deliverable_fact_id: searched(p, s, found).state.deliverable_fact_id,
            ..s
        }),
        waited(p, s).state == s,
{
}

// ── Execution ───────────────────────────────────────────────────────────

fn status_text(state: &TaskState) -> (r: Option<String>)
    ensures
        text::opt_text(r) == Some(task::status_name(state@.status)),
{
    Some(state.status.to_text())
}

fn announce(state: &TaskState) -> (r: String)
    ensures
        r@ == anchor_text(state@),
{
    let mut out = "Agent ".to_owned();
    out.append(state.agent_id.as_str());
    out.append(" is finalizing task ");
    out.append(state.external_or_task_id());
    out.append(" persistence. Iterations: ");
    out.append(decimal_of(state.iteration as u64).as_str());
    out.append(", shell spent: ");
    out.append(state.shell_spent.rounded.as_str());
    out.append(", model: ");
    out.append(state.model_current.as_str());
    out
}

fn summarize_session(state: &TaskState) -> (r: String)
    ensures
        r@ == session_text(state@),
{
    let mut out = "Agent ".to_owned();
    out.append(state.agent_id.as_str());
    out.append(" completed task ");
    out.append(state.external_or_task_id());
    out.append(" with status ");
    out.append(state.status.to_text().as_str());
    out.append(". Iterations: ");
    out.append(decimal_of(state.iteration as u64).as_str());
    out.append(", shell spent: ");
    out.append(state.shell_spent.rounded.as_str());
    out.append(", model: ");
    out.append(state.model_current.as_str());
    out
}

fn describe_failure(state: &TaskState) -> (r: String)
    ensures
        r@ == failure_text(state@),
{
    let mut out = "Task ".to_owned();
    out.append(state.external_or_task_id());
    out.append(" finished with status ");
    let status = state.status.to_text();
    out.append(status.as_str());
    out.append(": ");
    match &state.error {
        Some(e) => {
            out.append(e.as_str());
        },
        None => {
            out.append(status.as_str());
        },
    }
    out
}

impl Persistence {
    fn fail(&mut self, message: String) -> (r: MemoryAction)
        ensures
            final(self)@ == (PersistenceV { stage: StageV::Ended, ..old(self)@ }),
            r@ == MemoryActionV::Failed(message@),
    {
        self.stage = Stage::Ended;
        MemoryAction::Failed(message)
    }

    fn note(&mut self, state: &TaskState, kind: &str)
        ensures
            final(self)@ == noted(old(self)@, state@, kind@),
    {
        self.artifacts.push(prefixed(kind, state.external_or_task_id()));
        assert(text::texts(self.artifacts@) =~= text::texts(old(self).artifacts@).push(
            kind@ + task::external_id(state@),
        ));
    }

    fn go_to_session(&mut self, state: &TaskState) -> (r: MemoryAction)
        ensures
            to_session(old(self)@, state@) == (NextV {
                machine: final(self)@,
                state: state@,
                action: r@,
            }),
    {
        let said = summarize_session(state);
        let fact = canonical_session_fact(said.as_str(), state);
        let w = VerifiedWrite::new(
            state,
            fact,
            "task_session",
            status_text(state),
            self.timeout_secs,
        );
        let action = w.begin();
        self.stage = Stage::WriteSession(w);
        action
    }

    fn go_to_result(&mut self, state: &TaskState, result: &str) -> (r: MemoryAction)
        ensures
            to_result(old(self)@, state@, result@) == (NextV {
                machine: final(self)@,
                state: state@,
                action: r@,
            }),
    {
        let fact = canonical_result_fact(result, state);
        let w = VerifiedWrite::new(
            state,
            fact,
            "task_result",
            status_text(state),
            self.timeout_secs,
        );
        let action = w.begin();
        self.stage = Stage::WriteResult(w);
        action
    }

    fn copy_result(&self) -> (r: String)
        ensures
            r@ == result_of(self@),
    {
        match &self.result {
            Some(r) => r.clone(),
            None => String::new(),
        }
    }

    fn go_to_deliverable(&mut self, state: &mut TaskState) -> (r: MemoryAction)
        ensures
            to_deliverable(old(self)@, old(state)@, result_of(old(self)@)) == (NextV {
                machine: final(self)@,
                state: final(state)@,
                action: r@,
            }),
    {
        let result = self.copy_result();
        match state.deliverable_kind {
            None => {
                state.deliverable_fact_id = None;
                self.go_to_result(state, result.as_str())
            },
            Some(kind) => {
                self.stage = Stage::FindDeliverable(kind);
                MemoryAction::Query(terminal_deliverable_query(state, kind))
            },
        }
    }

    /// Begins to write the results of a task.
    pub fn begin(state: &TaskState, timeout_secs: u64) -> (r: (Persistence, MemoryAction))
        ensures
            started(state@, timeout_secs as int) == (NextV {
                machine: r.0@,
                state: state@,
                action: r.1@,
            }),
    {
        let mut p = Persistence {
            result: None,
            artifacts: Vec::new(),
            timeout_secs,
            stage: Stage::Ended,
        };
        assert(text::texts(p.artifacts@) =~= seq![]);
        match &state.result {
            Some(result) => match sanitize_task_result(result.as_str()) {
                SanitizedTaskResult::Rejected(reason) => {
                    let mut message = "refusing to persist invalid task result for ".to_owned();
                    message.append(state.external_or_task_id());
                    message.append(": ");
                    message.append(reason.as_str());
                    let action = p.fail(message);
                    (p, action)
                },
                SanitizedTaskResult::Accepted(sanitized) => {
                    p.result = Some(sanitized);
                    let mut anchor = state.copy();
                    anchor.status = TaskStatus::Running;
                    anchor.phase = "persistence_pending_result".to_owned();
                    anchor.finished_at = None;
                    let said = announce(state);
                    let fact = canonical_session_fact(said.as_str(), &anchor);
                    let w = VerifiedWrite::new(
                        &anchor,
                        fact,
                        "task_session",
                        Some("running".to_owned()),
                        timeout_secs,
                    );
                    let action = w.begin();
                    p.stage = Stage::Anchor(w);
                    (p, action)
                },
            },
            None => {
                let failed = match state.status {
                    TaskStatus::Failed
                    | TaskStatus::PartialBudgetOverdraw
                    | TaskStatus::TooComplex => true,
                    _ => false,
                };
                if failed {
                    let said = describe_failure(state);
                    let action = p.go_to_result(state, said.as_str());
                    (p, action)
                } else {
                    let action = p.go_to_session(state);
                    (p, action)
                }
            },
        }
    }

    fn on_written(&mut self, state: &mut TaskState) -> (r: MemoryAction)
        ensures
            written(old(self)@, old(state)@) == (NextV {
                machine: final(self)@,
                state: final(state)@,
                action: r@,
            }),
    {
        match &self.stage {
            Stage::Anchor(_) => self.go_to_deliverable(state),
            Stage::WriteDeliverable(_) => {
                let id = prefixed("task_deliverable_", state.external_or_task_id());
                state.deliverable_fact_id = Some(id);
                let result = self.copy_result();
                self.note(state, "deliverable:");
                self.go_to_result(state, result.as_str())
            },
            Stage::WriteResult(_) => {
                self.note(state, "result:");
                match &self.result {
                    Some(result) => {
                        let fact = legacy_result_fact(
                            state.external_or_task_id(),
                            result.as_str(),
                        );
                        self.stage = Stage::LegacyResult;
                        MemoryAction::Ingest(ingest_fact(state, fact))
                    },
                    None => self.go_to_session(state),
                }
            },
            Stage::WriteSession(_) => {
                self.note(state, "session:");
                let said = summarize_session(state);
                let fact = legacy_session_fact(
                    state.agent_id.as_str(),
                    state.external_or_task_id(),
                    said.as_str(),
                );
                self.stage = Stage::LegacySession;
                MemoryAction::Ingest(ingest_fact(state, fact))
            },
            _ => {
                self.stage = Stage::Ended;
                MemoryAction::Done
            },
        }
    }

    fn on_step(&mut self, state: &mut TaskState, action: MemoryAction) -> (r: MemoryAction)
        ensures
            (match action@ {
                MemoryActionV::Done => written(old(self)@, old(state)@),
                MemoryActionV::Failed(e) => ended(
                    old(self)@,
                    old(state)@,
                    MemoryActionV::Failed(e),
                ),
                _ => NextV { machine: old(self)@, state: old(state)@, action: action@ },
            }) == (NextV { machine: final(self)@, state: final(state)@, action: r@ }),
    {
        match action {
            MemoryAction::Done => self.on_written(state),
            MemoryAction::Failed(e) => self.fail(e),
            other => other,
        }
    }

    /// The write of a fact came to its end.
    pub fn on_ingested(&mut self, state: &mut TaskState, outcome: Result<(), CallError>) -> (r:
        MemoryAction)
        ensures
            ingested(old(self)@, old(state)@, persist::done_view(outcome)) == (NextV {
                machine: final(self)@,
                state: final(state)@,
                action: r@,
            }),
    {
        let action = match &self.stage {
            Stage::Anchor(w) => w.on_ingested(outcome),
            Stage::WriteDeliverable(w) => w.on_ingested(outcome),
            Stage::WriteResult(w) => w.on_ingested(outcome),
            Stage::WriteSession(w) => w.on_ingested(outcome),
            Stage::LegacyResult => {
                return self.go_to_session(state);
            },
            _ => {
                self.stage = Stage::Ended;
                return MemoryAction::Done;
            },
        };
        self.on_step(state, action)
    }

    fn on_deliverable(
        &mut self,
        state: &mut TaskState,
        kind: DeliverableKind,
        outcome: Result<Json, CallError>,
    ) -> (r: MemoryAction)
        requires
            old(self)@.stage == StageV::FindDeliverable(kind),
        ensures
            searched(old(self)@, old(state)@, persist::found_view(outcome)) == (NextV {
                machine: final(self)@,
                state: final(state)@,
                action: r@,
            }),
    {
        match outcome {
            Err(e) => {
                let message = crate::agent::persist::describe(
                    e,
                    "memory_query",
                    self.timeout_secs,
                );
                self.fail(message)
            },
            Ok(response) => match query_terminal_deliverable(&response, state, kind) {
                Some(d) => {
                    state.deliverable_fact_id = Some(d.fact_id);
                    let result = self.copy_result();
                    self.note(state, "deliverable:");
                    self.go_to_result(state, result.as_str())
                },
                None => {
                    if same(state.backend_current.as_str(), "local_cli") {
                        let mut message = "missing terminal ".to_owned();
                        message.append(kind.as_str());
                        message.append(" deliverable artifact for task ");
                        message.append(state.external_or_task_id());
                        self.fail(message)
                    } else {
                        let result = self.copy_result();
                        let fact = canonical_deliverable_fact(
                            result.as_str(),
                            state,
                            kind,
                            "agent_result",
                        );
                        let w = VerifiedWrite::new(
                            state,
                            fact,
                            "task_deliverable",
                            None,
                            self.timeout_secs,
                        );
                        let action = w.begin();
                        self.stage = Stage::WriteDeliverable(w);
                        action
                    }
                },
            },
        }
    }

    /// A search came to its end.
    pub fn on_searched(&mut self, state: &mut TaskState, outcome: Result<Json, CallError>) -> (r:
        MemoryAction)
        ensures
            searched(old(self)@, old(state)@, persist::found_view(outcome)) == (NextV {
                machine: final(self)@,
                state: final(state)@,
                action: r@,
            }),
    {
        let mut stage = Stage::Ended;
        match &self.stage {
            Stage::FindDeliverable(kind) => {
                let kind = *kind;
                return self.on_deliverable(state, kind, outcome);
            },
            _ => {},
        }
        std::mem::swap(&mut stage, &mut self.stage);
        let action = match stage {
            Stage::Anchor(w) => {
                let mut w = w;
                let action = w.on_searched(outcome);
                self.stage = Stage::Anchor(w);
                action
            },
            Stage::WriteDeliverable(w) => {
                let mut w = w;
                let action = w.on_searched(outcome);
                self.stage = Stage::WriteDeliverable(w);
                action
            },
            Stage::WriteResult(w) => {
                let mut w = w;
                let action = w.on_searched(outcome);
                self.stage = Stage::WriteResult(w);
                action
            },
            Stage::WriteSession(w) => {
                let mut w = w;
                let action = w.on_searched(outcome);
                self.stage = Stage::WriteSession(w);
                action
            },
            _ => {
                return MemoryAction::Done;
            },
        };
        self.on_step(state, action)
    }

    /// A wait came to its end.
    pub fn on_waited(&mut self, state: &TaskState) -> (r: MemoryAction)
        ensures
            waited(old(self)@, state@) == (NextV {
                machine: final(self)@,
                state: state@,
                action: r@,
            }),
    {
        match &self.stage {
            Stage::Anchor(w) => w.begin(),
            Stage::WriteDeliverable(w) => w.begin(),
            Stage::WriteResult(w) => w.begin(),
            Stage::WriteSession(w) => w.begin(),
            _ => {
                self.stage = Stage::Ended;
                MemoryAction::Done
            },
        }
    }
}

// ── What is written ─────────────────────────────────────────────────────

proof fn lemma_filter_keys()
    ensures
        "kind"@.len() == 4,
        "metadata.task_fact_id"@.len() == 21,
        "metadata.artifact_role"@.len() == 22,
        "metadata.deliverable_kind"@.len() == 25,
{
    reveal_strlit("kind");
    reveal_strlit("metadata.task_fact_id");
    reveal_strlit("metadata.artifact_role");
    reveal_strlit("metadata.deliverable_kind");
}

/// Whether the write of a stage is what the stage is for: the result, the deliverable or the
/// account of the work, about its task and with its status.
spec fn writes_what_it_should(stage: StageV, s: StateV, shown: Seq<char>, whole: Option<Seq<char>>) -> bool {
    match stage {
        StageV::WriteResult(w) => {
            &&& w.kind == "task_result"@
            &&& w.expected_status == Some(task::status_name(s.status))
            &&& w.scope == persist::scope_of(s)
            &&& facts::names_its_task(w.fact, s)
            &&& json::jget_str(w.fact, "kind"@) == Some("task_result"@)
            &&& json::jget_str(w.fact, "fact"@) == Some(facts::preview_view(shown).preview)
            &&& facts::metadata_text(w.fact, "status"@) == Some(task::status_name(s.status))
        },
        StageV::WriteDeliverable(w) => {
            &&& w.kind == "task_deliverable"@
            &&& w.scope == persist::scope_of(s)
            &&& facts::names_its_task(w.fact, s)
            &&& json::jget_str(w.fact, "kind"@) == Some("task_deliverable"@)
            &&& json::jget_str(w.fact, "fact"@) == whole
        },
        StageV::WriteSession(w) => {
            &&& w.kind == "task_session"@
            &&& w.expected_status == Some(task::status_name(s.status))
            &&& w.scope == persist::scope_of(s)
            &&& facts::names_its_task(w.fact, s)
            &&& json::jget_str(w.fact, "kind"@) == Some("task_session"@)
            &&& json::jget_str(w.fact, "fact"@) == Some(session_text(s))
            &&& facts::metadata_text(w.fact, "status"@) == Some(task::status_name(s.status))
        },
        _ => true,
    }
}

proof fn lemma_writes(p: PersistenceV, s: StateV, result: Seq<char>, kind: DeliverableKind)
    ensures
        writes_what_it_should(to_result(p, s, result).machine.stage, s, result, Some(result)),
        to_session(p, s).machine.stage is WriteSession,
        writes_what_it_should(to_session(p, s).machine.stage, s, result, Some(result)),
        writes_what_it_should(
            StageV::WriteDeliverable(
                persist::fresh_write(
                    s,
                    facts::deliverable_fact(s, result, kind, "agent_result"@),
                    "task_deliverable"@,
                    None,
                    p.timeout_secs,
                ),
            ),
            s,
            result,
            Some(result),
        ),
{
    facts::law_result_fact_holds_the_result(s, result);
    facts::law_session_fact_holds_the_account(s, session_text(s));
    facts::law_deliverable_fact_holds_the_whole_result(s, result, kind, "agent_result"@);
}

proof fn lemma_same_but_deliverable(stage: StageV, a: StateV, b: StateV, shown: Seq<char>, whole: Option<
    Seq<char>,
>)
    requires
        b == (StateV { deliverable_fact_id: b.deliverable_fact_id, ..a }),
    ensures
        writes_what_it_should(stage, a, shown, whole) == writes_what_it_should(
            stage,
            b,
            shown,
            whole,
        ),
{
}

/// What is written is what the task gave.  From the first step to the last, for a task whose
/// result is sound, the fact of its result holds that result and the fact of its deliverable all
/// of it; both, and the account of the work, are about their task and carry its status.
pub proof fn law_result_of_the_task_is_written(
    s: StateV,
    timeout_secs: int,
    events: Seq<MemoryEventV>,
    raw: Seq<char>,
    result: Seq<char>,
)
    requires
        orderly(s, timeout_secs, events),
        s.result == Some(raw),
        sanitize::sanitized(raw) == SanitizedV::Accepted(result),
    ensures
        ({
            let n = persisted(s, timeout_secs, events);
            &&& n.machine.result == Some(result)
            &&& n.machine.stage matches StageV::WriteResult(w) ==> json::jget_str(
                w.fact,
                "fact"@,
            ) == Some(facts::preview_view(result).preview) && facts::names_its_task(w.fact, s)
                && facts::metadata_text(w.fact, "status"@) == Some(task::status_name(s.status))
            &&& n.machine.stage matches StageV::WriteDeliverable(w) ==> json::jget_str(
                w.fact,
                "fact"@,
            ) == Some(result) && facts::names_its_task(w.fact, s)
            &&& n.machine.stage matches StageV::WriteSession(w) ==> facts::names_its_task(w.fact, s)
                && facts::metadata_text(w.fact, "status"@) == Some(task::status_name(s.status))
            &&& write_of(n.machine.stage) matches Some(w) ==> (n.action matches MemoryActionV::Ingest(
                call,
            ) ==> json::jarr(call.facts) == Some(seq![w.fact]) && call.key == s.work_key)
        }),
{
    lemma_what_is_written(s, timeout_secs, events, Some(result), result);
}

/// The failure of a task that gave no result is written in place of a result, with the task's own
/// error.
pub proof fn law_failure_of_the_task_is_written(
    s: StateV,
    timeout_secs: int,
    events: Seq<MemoryEventV>,
    error: Seq<char>,
)
    requires
        orderly(s, timeout_secs, events),
        s.result is None,
        s.error == Some(error),
        records_failure(s.status),
    ensures
        text::has_suffix(failure_text(s), error),
        started(s, timeout_secs).machine.stage is WriteResult,
        persisted(s, timeout_secs, events).machine.stage matches StageV::WriteResult(w)
            ==> json::jget_str(w.fact, "fact"@) == Some(
            facts::preview_view(failure_text(s)).preview,
        ) && facts::names_its_task(w.fact, s) && facts::metadata_text(w.fact, "status"@) == Some(
            task::status_name(s.status),
        ),
{
    lemma_what_is_written(s, timeout_secs, events, None, failure_text(s));
    let said = failure_text(s);
    assert(said.subrange(said.len() - error.len(), said.len() as int) =~= error);
}

proof fn lemma_what_is_written(
    s: StateV,
    timeout_secs: int,
    events: Seq<MemoryEventV>,
    whole: Option<Seq<char>>,
    shown: Seq<char>,
)
    requires
        orderly(s, timeout_secs, events),
        whole is Some ==> whole == Some(shown) && (s.result matches Some(raw) && sanitize::sanitized(
            raw,
        ) == SanitizedV::Accepted(shown)),
        whole is None ==> s.result is None && records_failure(s.status) && shown == failure_text(s),
    ensures
        ({
            let n = persisted(s, timeout_secs, events);
            &&& n.machine.result == whole
            &&& n.state == (StateV { deliverable_fact_id: n.state.deliverable_fact_id, ..s })
            &&& writes_what_it_should(n.machine.stage, s, shown, whole)
            &&& whole is None ==> !(n.machine.stage is Anchor) && !(n.machine.stage is FindDeliverable)
                && !(n.machine.stage is WriteDeliverable)
            &&& write_of(n.machine.stage) matches Some(w) ==> w.scope.work_key == s.work_key && (
            n.action matches MemoryActionV::Ingest(call) ==> json::jarr(call.facts) == Some(
                seq![w.fact],
            ) && call.key == s.work_key)
        }),
    decreases events.len(),
{
    if events.len() == 0 {
        let p = PersistenceV {
            result: None,
            artifacts: seq![],
            timeout_secs,
            stage: StageV::Ended,
        };
        lemma_writes(p, s, shown, DeliverableKind::Document);
    } else {
        lemma_what_is_written(s, timeout_secs, events.drop_last(), whole, shown);
        let n = persisted(s, timeout_secs, events.drop_last());
        lemma_advance_writes(n, events.last(), s, whole, shown);
    }
}

proof fn lemma_advance_writes(
    n: NextV,
    e: MemoryEventV,
    s: StateV,
    whole: Option<Seq<char>>,
    shown: Seq<char>,
)
    requires
        n.machine.result == whole,
        whole is Some ==> whole == Some(shown),
        n.state == (StateV { deliverable_fact_id: n.state.deliverable_fact_id, ..s }),
        writes_what_it_should(n.machine.stage, s, shown, whole),
        whole is None ==> !(n.machine.stage is Anchor) && !(n.machine.stage is FindDeliverable)
            && !(n.machine.stage is WriteDeliverable),
        write_of(n.machine.stage) matches Some(w) ==> w.scope.work_key == s.work_key,
        answers(n.action, e),
    ensures
        ({
            let m = advanced(n, e);
            &&& m.machine.result == whole
            &&& m.state == (StateV { deliverable_fact_id: m.state.deliverable_fact_id, ..s })
            &&& writes_what_it_should(m.machine.stage, s, shown, whole)
            &&& whole is None ==> !(m.machine.stage is Anchor) && !(m.machine.stage is FindDeliverable)
                && !(m.machine.stage is WriteDeliverable)
            &&& write_of(m.machine.stage) matches Some(w) ==> w.scope.work_key == s.work_key && (
            m.action matches MemoryActionV::Ingest(call) ==> json::jarr(call.facts) == Some(
                seq![w.fact],
            ) && call.key == s.work_key)
        }),
{
    let m = advanced(n, e);
    let kind = match s.deliverable_kind {
        Some(k) => k,
        None => DeliverableKind::Document,
    };
    let found = match n.machine.stage {
        StageV::FindDeliverable(k) => k,
        _ => kind,
    };
    let result = result_of(n.machine);
    lemma_writes(n.machine, n.state, result, found);
    lemma_writes(noted(n.machine, m.state, "deliverable:"@), m.state, result, found);
    lemma_writes(noted(n.machine, n.state, "result:"@), n.state, result, found);
    lemma_writes(n.machine, m.state, result, found);
    match write_of(n.machine.stage) {
        Some(w) => {
            let (w2, _) = persist::searched(w, match e {
                MemoryEventV::Searched(outcome) => outcome,
                _ => Err(CallErrorV::TimedOut),
            });
            assert(w2.fact == w.fact && w2.scope == w.scope && w2.kind == w.kind
                && w2.expected_status == w.expected_status);
            let kept = PersistenceV { stage: with_write(n.machine.stage, w), ..n.machine };
            let kept2 = PersistenceV { stage: with_write(n.machine.stage, w2), ..n.machine };
            lemma_writes(kept, m.state, result, found);
            lemma_writes(kept2, m.state, result, found);
            lemma_writes(noted(kept, m.state, "deliverable:"@), m.state, result, found);
            lemma_writes(noted(kept2, m.state, "deliverable:"@), m.state, result, found);
            lemma_writes(noted(kept, m.state, "result:"@), m.state, result, found);
            lemma_writes(noted(kept2, m.state, "result:"@), m.state, result, found);
        },
        None => {},
    }
    lemma_same_but_deliverable(m.machine.stage, s, m.state, shown, whole);
    lemma_same_but_deliverable(m.machine.stage, s, n.state, shown, whole);
}

/// The search for a deliverable asks for the final one of a task and of a kind.
pub proof fn law_deliverable_search_asks_for_the_task(s: StateV, kind: DeliverableKind)
    ensures
        ({
            let q = deliverable_search(s, kind);
            &&& q.key == s.work_key && q.agent_id == s.agent_id && q.swarm_id == s.swarm_id
            &&& json::jget_str(q.filter, "kind"@) == Some("task_deliverable"@)
            &&& json::jget_str(q.filter, "metadata.task_fact_id"@) == Some(task::fact_id(s))
            &&& json::jget_str(q.filter, "metadata.artifact_role"@) == Some("terminal"@)
            &&& json::jget_str(q.filter, "metadata.deliverable_kind"@) matches Some(name)
                && task::kind_named(name) == Some(kind)
        }),
{
    lemma_filter_keys();
    task::law_kind_name_parses_back(kind);
}

/// The deliverable that is noted is the one that memory found: its own id, and its source where it
/// names one.
pub proof fn law_found_deliverable_is_noted(
    response: JValue,
    s: StateV,
    kind: DeliverableKind,
    id: Seq<char>,
)
    requires
        persist::facts_in(response).len() > 0,
        json::jget_str(persist::facts_in(response)[0], "id"@) == Some(id),
    ensures
        deliverable_in(response, s, kind) matches Some(d) && d.fact_id == id && (
        facts::metadata_text(persist::facts_in(response)[0], "source"@) matches Some(source)
            ==> d.source == source),
        facts::metadata_text(persist::facts_in(response)[0], "source"@) == Some("external_cli"@)
            ==> validated(s, deliverable_in(response, s, kind), kind).0.deliverable_fact_id == Some(
            id,
        ) && validated(s, deliverable_in(response, s, kind), kind).1 is None,
{
    reveal_strlit("external_cli");
    let name = "external_cli"@;
    assert(text::trimmed_start(name) == name);
    assert(text::trimmed_end(name) == name);
}

/// The account of a task tells who did it, how it went, and what it took.
pub proof fn law_account_tells_how_it_went(s: StateV)
    ensures
        ({
            let said = session_text(s);
            let name = task::external_id(s);
            &&& text::has_infix(said, s.agent_id)
            &&& text::has_infix(said, name + " with status "@ + task::status_name(s.status))
            &&& text::has_infix(said, "Iterations: "@ + text::decimal_int(s.iteration))
            &&& text::has_infix(said, "shell spent: "@ + s.shell_spent.rounded)
            &&& text::has_suffix(said, "model: "@ + s.model_current)
        }),
        text::has_infix(anchor_text(s), s.agent_id),
        text::has_infix(anchor_text(s), task::external_id(s)),
        text::has_suffix(anchor_text(s), s.model_current),
{
    let said = session_text(s);
    let name = task::external_id(s);
    let how = name + " with status "@ + task::status_name(s.status);
    let turns = ". Iterations: "@ + text::decimal_int(s.iteration);
    let spent = ", shell spent: "@ + s.shell_spent.rounded;
    let model = ", model: "@ + s.model_current;
    assert(said =~= "Agent "@ + s.agent_id + (" completed task "@ + how + turns + spent + model));
    text::lemma_infix("Agent "@, s.agent_id, " completed task "@ + how + turns + spent + model);
    let a = "Agent "@ + s.agent_id + " completed task "@;
    assert(said =~= a + how + (turns + spent + model));
    text::lemma_infix(a, how, turns + spent + model);
    reveal_strlit(". Iterations: ");
    reveal_strlit("Iterations: ");
    reveal_strlit(", shell spent: ");
    reveal_strlit("shell spent: ");
    reveal_strlit(", model: ");
    reveal_strlit("model: ");
    assert(". Iterations: "@ =~= seq!['.', ' '] + "Iterations: "@);
    assert(", shell spent: "@ =~= seq![',', ' '] + "shell spent: "@);
    assert(", model: "@ =~= seq![',', ' '] + "model: "@);
    let t = "Iterations: "@ + text::decimal_int(s.iteration);
    assert(said =~= (a + how + seq!['.', ' ']) + t + (spent + model));
    text::lemma_infix(a + how + seq!['.', ' '], t, spent + model);
    let p = "shell spent: "@ + s.shell_spent.rounded;
    assert(said =~= (a + how + turns + seq![',', ' ']) + p + model);
    text::lemma_infix(a + how + turns + seq![',', ' '], p, model);
    let m = "model: "@ + s.model_current;
    assert(said.subrange(said.len() - m.len(), said.len() as int) =~= m);
    let anchor = anchor_text(s);
    let rest = " persistence. Iterations: "@ + text::decimal_int(s.iteration) + spent + model;
    assert(anchor =~= "Agent "@ + s.agent_id + (" is finalizing task "@ + name + rest));
    text::lemma_infix("Agent "@, s.agent_id, " is finalizing task "@ + name + rest);
    let b = "Agent "@ + s.agent_id + " is finalizing task "@;
    assert(anchor =~= b + name + rest);
    text::lemma_infix(b, name, rest);
    assert(anchor.subrange(anchor.len() - s.model_current.len(), anchor.len() as int)
        =~= s.model_current);
}

/// The records of a task follow each other: first an anchor while it is still running, then the
/// deliverable where it has one, then the result and the account, each with its older form behind
/// it.
pub proof fn law_records_follow_each_other(
    p: PersistenceV,
    s: StateV,
    secs: int,
    raw: Seq<char>,
    result: Seq<char>,
    done: Result<(), CallErrorV>,
)
    requires
        p.result == Some(result),
    ensures
        s.result == Some(raw) && sanitize::sanitized(raw) is Accepted ==> (started(
            s,
            secs,
        ).machine.stage matches StageV::Anchor(w) && w.kind == "task_session"@ && w.expected_status
            == Some("running"@) && started(s, secs).machine.timeout_secs == secs),
        p.stage is Anchor && s.deliverable_kind is None ==> written(p, s).machine.stage is WriteResult
            && written(p, s).state.deliverable_fact_id is None,
        p.stage is Anchor ==> (s.deliverable_kind matches Some(kind) ==> written(p, s).machine.stage
            == StageV::FindDeliverable(kind) && written(p, s).action == MemoryActionV::Query(
            deliverable_search(s, kind),
        )),
        p.stage is WriteDeliverable ==> ({
            let n = written(p, s);
            &&& n.machine.stage is WriteResult
            &&& n.state.deliverable_fact_id == Some("task_deliverable_"@ + task::external_id(s))
            &&& n.machine.artifacts == p.artifacts.push("deliverable:"@ + task::external_id(s))
        }),
        p.stage is WriteResult ==> written(p, s).machine.stage is LegacyResult && written(p, s).action
            == MemoryActionV::Ingest(
            persist::ingest_of(s, facts::legacy_result(task::external_id(s), result)),
        ),
        p.stage is LegacyResult ==> (ingested(p, s, done).machine.stage matches StageV::WriteSession(w)
            && w.kind == "task_session"@ && w.fact == facts::session_fact(s, session_text(s))),
        p.stage is WriteSession ==> ({
            let n = written(p, s);
            &&& n.machine.stage is LegacySession
            &&& n.machine.artifacts == p.artifacts.push("session:"@ + task::external_id(s))
            &&& n.action == MemoryActionV::Ingest(
                persist::ingest_of(
                    s,
                    facts::legacy_session(s.agent_id, task::external_id(s), session_text(s)),
                ),
            )
        }),
        p.stage is LegacySession ==> ingested(p, s, done).action is Done,
{
}

/// A task without a result leaves an account; one that failed leaves its failure first.
pub proof fn law_task_without_result_leaves_an_account(s: StateV, secs: int)
    requires
        s.result is None,
    ensures
        s.status == TaskStatus::Failed || s.status == TaskStatus::PartialBudgetOverdraw || s.status
            == TaskStatus::TooComplex ==> started(s, secs).machine.stage is WriteResult,
        s.status == TaskStatus::Done || s.status == TaskStatus::Running ==> started(
            s,
            secs,
        ).machine.stage is WriteSession,
{
}

/// A deliverable that is found is noted; one that is missing is written from the result, unless a
/// CLI should have left it.
pub proof fn law_missing_deliverable_is_written(
    p: PersistenceV,
    s: StateV,
    kind: DeliverableKind,
    response: JValue,
    why: Seq<char>,
)
    requires
        p.stage == StageV::FindDeliverable(kind),
    ensures
        ({
            let n = searched(p, s, Ok(response));
            &&& deliverable_in(response, s, kind) matches Some(d) ==> n.state.deliverable_fact_id
                == Some(d.fact_id) && n.machine.stage is WriteResult && n.machine.artifacts
                == p.artifacts.push("deliverable:"@ + task::external_id(s))
            &&& deliverable_in(response, s, kind) is None && s.backend_current == "local_cli"@ ==> (
            n.action matches MemoryActionV::Failed(e) && text::has_suffix(e, task::external_id(s)))
            &&& deliverable_in(response, s, kind) is None && s.backend_current != "local_cli"@ ==> (
            n.machine.stage matches StageV::WriteDeliverable(w) && w.fact == facts::deliverable_fact(
                s,
                result_of(p),
                kind,
                "agent_result"@,
            ) && w.kind == "task_deliverable"@)
        }),
        searched(p, s, Err(CallErrorV::Failed(why))).action == MemoryActionV::Failed(why),
{
    let e = "missing terminal "@ + task::kind_name(kind) + " deliverable artifact for task "@
        + task::external_id(s);
    let id = task::external_id(s);
    assert(e.subrange(e.len() - id.len(), e.len() as int) =~= id);
}

/// Only a CLI has to leave its deliverable itself, and only where the task has one.
pub proof fn law_only_a_cli_must_deliver(s: StateV, kind: DeliverableKind)
    ensures
        needs_deliverable(s) == Some(kind) <==> s.deliverable_kind == Some(kind) && s.backend_current
            == "local_cli"@,
{
}

/// What a found deliverable does not say of itself is taken as asked for.
pub proof fn law_silent_deliverable_is_as_asked(response: JValue, s: StateV, kind: DeliverableKind)
    requires
        persist::facts_in(response).len() > 0,
    ensures
        ({
            let fact = persist::facts_in(response)[0];
            deliverable_in(response, s, kind) matches Some(d) && {
                &&& json::jget_str(fact, "id"@) is None ==> d.fact_id == "task_deliverable_"@
                    + task::external_id(s)
                &&& facts::metadata_text(fact, "deliverable_kind"@) is None ==> d.deliverable_kind
                    == kind
                &&& facts::metadata_text(fact, "deliverable_kind"@) matches Some(name)
                    ==> task::kind_named(name) matches Some(k) ==> d.deliverable_kind == k
                &&& facts::metadata_text(fact, "source"@) is None ==> d.source == "external_cli"@
            }
        }),
{
}

/// A write that is waited for is made again as it was.
pub proof fn law_write_is_made_again(p: PersistenceV, s: StateV, w: WriteV)
    requires
        write_of(p.stage) == Some(w),
    ensures
        waited(p, s).action == MemoryActionV::Ingest(persist::write_call(w)),
        waited(p, s).machine == p,
{
}

/// The anchor of a task's records tells that it is still being written: it is running, at the step
/// of writing, and has no end yet.  All else is the task's.
pub proof fn law_anchor_is_not_the_end(s: StateV, secs: int, raw: Seq<char>)
    requires
        s.result == Some(raw),
        sanitize::sanitized(raw) is Accepted,
    ensures
        started(s, secs).machine.stage matches StageV::Anchor(w) && w.fact == facts::session_fact(
            anchor_state(s),
            anchor_text(s),
        ),
        started(s, secs).state == s,
        anchor_state(s).status == TaskStatus::Running,
        anchor_state(s).phase == "persistence_pending_result"@,
        anchor_state(s).finished_at is None,
        anchor_state(s) == (StateV {
            status: TaskStatus::Running,
            phase: "persistence_pending_result"@,
            finished_at: None,
            ..s
        }),
{
}

/// A result that is no result is refused by its task's name and with the reason.
pub proof fn law_refused_result_says_why(s: StateV, secs: int, raw: Seq<char>, why: Seq<char>)
    requires
        s.result == Some(raw),
        sanitize::sanitized(raw) == SanitizedV::Rejected(why),
    ensures
        started(s, secs).action matches MemoryActionV::Failed(e) && text::has_suffix(
            e,
            task::external_id(s) + ": "@ + why,
        ),
{
    let end = task::external_id(s) + ": "@ + why;
    let e = "refusing to persist invalid task result for "@ + task::external_id(s) + ": "@ + why;
    assert(e.subrange(e.len() - end.len(), e.len() as int) =~= end);
}

} // verus!
