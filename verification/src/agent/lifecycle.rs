//! A task from its beginning to its end: what a whole run comes to, whatever memory, the models and
//! the disk answer.

use vstd::prelude::*;

use crate::agent::execution;
use crate::agent::execution::ActionV;
use crate::agent::execution::ExecutionEventV;
use crate::agent::persist::CallErrorV;
use crate::agent::persist::MemoryActionV;
use crate::agent::resolve::ResolvedV;
use crate::agent::results;
use crate::agent::results::MemoryEventV;
use crate::agent::run;
use crate::agent::run::NextV;
use crate::agent::run::PendingV;
use crate::agent::run::ReadingsV;
use crate::agent::run::RunActionV;
use crate::agent::run::RunV;
use crate::agent::sanitize;
use crate::agent::task;
use crate::agent::task::ResultV;
use crate::agent::task::StateV;
use crate::agent::task::TaskStatus;
use crate::agent::verdict::VerdictV;
use crate::json::JValue;
use crate::text;

verus! {

/// What comes of an action of a run.
#[allow(inconsistent_fields)]
pub ghost enum EventV {
    Resolved { outcome: Result<ResolvedV, CallErrorV>, now: Seq<char> },
    Recalled { outcome: Result<JValue, CallErrorV>, now: Seq<char> },
    Planned { outcome: Result<JValue, CallErrorV>, now: Seq<char> },
    Priced { outcome: Result<(), Seq<char>>, too_complex: bool, now: Seq<char> },
    Provided { outcome: Result<(), Seq<char>>, now: Seq<char> },
    /// An attempt, with all that its own actions came to.
    Executed { turns: Seq<ExecutionEventV>, started_at: Seq<char>, ended_at: Seq<char> },
    DeliverableFound { outcome: Result<JValue, Seq<char>> },
    AttemptRecorded { outcome: Result<(), Seq<char>>, readings: ReadingsV },
    Reviewed { outcome: Result<VerdictV, Seq<char>>, at: Seq<char> },
    Unreviewed { readings: ReadingsV },
    ReviewRecorded { outcome: Result<(), Seq<char>>, readings: ReadingsV },
    /// The writing of the results, with all that its own actions came to.
    Persisted { calls: Seq<MemoryEventV> },
    LocalWritten { path: Option<Seq<char>> },
    LocalUpdated,
}

/// What an attempt gave: what it said, or why it failed.
pub open spec fn attempt_outcome(action: ActionV) -> Result<Seq<char>, Seq<char>> {
    match action {
        ActionV::Finished(said) => Ok(said),
        ActionV::Failed(e) => Err(e),
        _ => Err(seq![]),
    }
}

/// What the writing of the results gave: the artifacts, or why it failed.
pub open spec fn written_outcome(n: results::NextV) -> Result<Seq<Seq<char>>, Seq<char>> {
    match n.action {
        MemoryActionV::Done => Ok(n.machine.artifacts),
        MemoryActionV::Failed(e) => Err(e),
        _ => Err(seq![]),
    }
}

/// Whether an event is what can come of the action that a run waits for.
#[verifier::opaque]
pub open spec fn answers(n: NextV, e: EventV) -> bool {
    match e {
        EventV::Resolved { .. } => n.action is Resolve,
        EventV::Recalled { .. } => n.action is Recall,
        EventV::Planned { .. } => n.action is PlanInference,
        EventV::Priced { .. } => n.action is Price,
        EventV::Provided { .. } => n.action is UseLocalCli || n.action is ResolveSecret,
        EventV::Executed { turns, .. } => {
            let m = run::execution_of(n.run);
            let end = execution::attempted(m, n.state, turns).action;
            &&& n.action is Execute
            &&& execution::orderly(m, n.state, turns)
            &&& end is Finished || end is Failed
        },
        EventV::DeliverableFound { .. } => n.action is FindDeliverable,
        EventV::AttemptRecorded { .. } => n.action is PersistAttempt,
        EventV::Reviewed { .. } | EventV::Unreviewed { .. } => n.action is Review,
        EventV::ReviewRecorded { .. } => n.action is PersistReview,
        EventV::Persisted { calls } => {
            let end = results::persisted(n.state, n.run.timeout_secs, calls).action;
            &&& n.action is PersistResults
            &&& results::orderly(n.state, n.run.timeout_secs, calls)
            &&& end is Done || end is Failed
        },
        EventV::LocalWritten { .. } => n.action is WriteLocalFailure,
        EventV::LocalUpdated => n.action is UpdateLocalFailure,
    }
}

/// What follows an event.
#[verifier::opaque]
pub open spec fn advanced(n: NextV, e: EventV) -> NextV {
    match e {
        EventV::Resolved { outcome, now } => run::resolved(n.run, n.state, outcome, now),
        EventV::Recalled { outcome, now } => run::recalled(n.run, n.state, outcome, now),
        EventV::Planned { outcome, now } => run::planned(n.run, n.state, outcome, now),
        EventV::Priced { outcome, too_complex, now } => run::priced(
            n.run,
            n.state,
            outcome,
            too_complex,
            now,
        ),
        EventV::Provided { outcome, now } => run::provided(n.run, n.state, outcome, now),
        EventV::Executed { turns, started_at, ended_at } => {
            let end = execution::attempted(run::execution_of(n.run), n.state, turns);
            run::executed(n.run, end.state, attempt_outcome(end.action), started_at, ended_at)
        },
        EventV::DeliverableFound { outcome } => run::deliverable_found(n.run, n.state, outcome),
        EventV::AttemptRecorded { outcome, readings } => run::attempt_recorded(
            n.run,
            n.state,
            outcome,
            readings,
        ),
        EventV::Reviewed { outcome, at } => run::reviewed(n.run, n.state, outcome, at),
        EventV::Unreviewed { readings } => run::unreviewed(n.run, n.state, readings),
        EventV::ReviewRecorded { outcome, readings } => run::review_recorded(
            n.run,
            n.state,
            outcome,
            readings,
        ),
        EventV::Persisted { calls } => {
            let end = results::persisted(n.state, n.run.timeout_secs, calls);
            run::results_written(n.run, end.state, written_outcome(end))
        },
        EventV::LocalWritten { path } => run::local_written(n.run, n.state, path),
        EventV::LocalUpdated => run::local_updated(n.run, n.state),
    }
}

/// A run after so many events.
pub open spec fn after(first: NextV, events: Seq<EventV>) -> NextV
    decreases events.len(),
{
    if events.len() == 0 {
        first
    } else {
        advanced(after(first, events.drop_last()), events.last())
    }
}

/// Whether each event is what can come of the action before it.
pub open spec fn orderly(first: NextV, events: Seq<EventV>) -> bool
    decreases events.len(),
{
    events.len() == 0 || (orderly(first, events.drop_last()) && answers(
        after(first, events.drop_last()),
        events.last(),
    ))
}

/// The first step of a run: its task is to be found.
pub open spec fn first_step(r: RunV, s: StateV) -> NextV {
    NextV { run: r, state: s, action: RunActionV::Resolve }
}

/// A run that has just begun, with a task that nothing has happened to.
pub open spec fn is_new(r: RunV, s: StateV) -> bool {
    &&& r == run::begun(
        r.task_id,
        r.work_key,
        r.default_context_key,
        r.max_retries,
        r.timeout_secs,
        r.brand,
        r.repair_prompt,
        r.nothing_spent,
    )
    &&& s == task::fresh_state(
        r.task_id,
        s.agent_id,
        s.swarm_id,
        s.work_key,
        s.context_key,
        s.shell_spent,
        s.started_at,
    )
}

/// The result of a task that is over: it has a terminal status; one that failed names an error;
/// one that is done has a result and no error, and its result and session are among what was
/// written.
pub open spec fn settled(task_id: Seq<char>, s: StateV, result: ResultV) -> bool {
    &&& result.task_id == task_id
    &&& task::is_terminal_status(result.status)
    &&& result.status == TaskStatus::Failed ==> result.error is Some
    &&& result.status == TaskStatus::Done ==> {
        &&& result.result matches Some(r) && text::trimmed(r).len() > 0
        &&& result.error is None
        &&& result.artifacts_written.contains("result:"@ + task::external_id(s))
        &&& result.artifacts_written.contains("session:"@ + task::external_id(s))
    }
}

/// A task that is still open: nothing has failed, and it is not done.
spec fn is_open(s: StateV) -> bool {
    s.error is None && s.status != TaskStatus::Done
}

/// A task that is over and not done.
spec fn fell_short(s: StateV) -> bool {
    task::is_terminal_status(s.status) && s.status != TaskStatus::Done && s.error is Some
}

spec fn has_text(o: Option<Seq<char>>) -> bool {
    o matches Some(r) && text::trimmed(r).len() > 0
}

/// A result of a task that never started.
spec fn early_end(r: RunV) -> bool {
    r.early matches Some(e) && e.task_id == r.task_id && task::is_terminal_status(e.status)
        && e.status != TaskStatus::Done && e.error is Some
}

/// What holds of every run, whatever it waits for.
#[verifier::opaque]
spec fn sound(n: NextV, task_id: Seq<char>) -> bool {
    &&& n.run.task_id == task_id
    &&& match n.action {
        RunActionV::FindDeliverable(_) => {
            &&& is_open(n.state)
            &&& n.run.pending matches PendingV::Deliverable { result, .. } && text::trimmed(
                result,
            ).len() > 0
        },
        RunActionV::PersistAttempt(_) => {
            &&& is_open(n.state)
            &&& match n.run.pending {
                PendingV::AttemptDone { result } => text::trimmed(result).len() > 0,
                PendingV::AttemptRetry { .. } => true,
                PendingV::AttemptFailed { .. } => true,
                _ => false,
            }
        },
        RunActionV::Review { .. } => is_open(n.state) && has_text(n.state.result),
        RunActionV::PersistReview(_) => is_open(n.state) && has_text(n.state.result),
        RunActionV::PersistResults => match n.run.pending {
            PendingV::Results { done } => {
                &&& done == (n.state.status == TaskStatus::Done)
                &&& task::is_terminal_status(n.state.status)
                &&& n.state.status == TaskStatus::Failed ==> n.state.error is Some
                &&& done ==> has_text(n.state.result) && n.state.error is None
            },
            PendingV::Remediation { .. } => fell_short(n.state),
            PendingV::EarlyResults { .. } => early_end(n.run),
            _ => false,
        },
        RunActionV::WriteLocalFailure { .. } => match n.run.pending {
            PendingV::LocalFailure { .. } => fell_short(n.state),
            PendingV::EarlyLocal => early_end(n.run),
            _ => false,
        },
        RunActionV::UpdateLocalFailure { .. } => match n.run.pending {
            PendingV::Closing { .. } => fell_short(n.state),
            PendingV::EarlyClosing { .. } => early_end(n.run),
            _ => false,
        },
        RunActionV::Finished(result) => settled(task_id, n.state, result),
        RunActionV::Aborted(_) => true,
        _ => is_open(n.state),
    }
}

proof fn lemma_contains_behind(a: Seq<Seq<char>>, b: Seq<Seq<char>>, x: Seq<char>)
    requires
        b.contains(x),
    ensures
        (a + b).contains(x),
{
    let i = choose|i: int| 0 <= i < b.len() && b[i] == x;
    assert((a + b)[a.len() + i] == x);
}

proof fn lemma_resolved(
    n: NextV,
    task_id: Seq<char>,
    outcome: Result<ResolvedV, CallErrorV>,
    now: Seq<char>,
)
    requires
        sound(n, task_id),
        n.action is Resolve,
    ensures
        sound(run::resolved(n.run, n.state, outcome, now), task_id),
{
    reveal(sound);
}

proof fn lemma_recalled(
    n: NextV,
    task_id: Seq<char>,
    outcome: Result<JValue, CallErrorV>,
    now: Seq<char>,
)
    requires
        sound(n, task_id),
        n.action is Recall,
    ensures
        sound(run::recalled(n.run, n.state, outcome, now), task_id),
{
    reveal(sound);
}

proof fn lemma_planned(
    n: NextV,
    task_id: Seq<char>,
    outcome: Result<JValue, CallErrorV>,
    now: Seq<char>,
)
    requires
        sound(n, task_id),
        n.action is PlanInference,
    ensures
        sound(run::planned(n.run, n.state, outcome, now), task_id),
{
    reveal(sound);
}

proof fn lemma_priced(
    n: NextV,
    task_id: Seq<char>,
    outcome: Result<(), Seq<char>>,
    too_complex: bool,
    now: Seq<char>,
)
    requires
        sound(n, task_id),
        n.action is Price,
    ensures
        sound(run::priced(n.run, n.state, outcome, too_complex, now), task_id),
{
    reveal(sound);
}

proof fn lemma_provided(
    n: NextV,
    task_id: Seq<char>,
    outcome: Result<(), Seq<char>>,
    now: Seq<char>,
)
    requires
        sound(n, task_id),
        n.action is UseLocalCli || n.action is ResolveSecret,
    ensures
        sound(run::provided(n.run, n.state, outcome, now), task_id),
{
    reveal(sound);
}

proof fn lemma_executed(
    n: NextV,
    task_id: Seq<char>,
    s: StateV,
    outcome: Result<Seq<char>, Seq<char>>,
    started_at: Seq<char>,
    ended_at: Seq<char>,
)
    requires
        sound(n, task_id),
        n.action is Execute,
        s.error == n.state.error,
        s.status == n.state.status || s.status == TaskStatus::PartialBudgetOverdraw,
    ensures
        sound(run::executed(n.run, s, outcome, started_at, ended_at), task_id),
{
    reveal(sound);
    match outcome {
        Ok(said) => {
            sanitize::law_accepted_result_is_not_blank(said);
        },
        Err(_) => {},
    }
}

proof fn lemma_deliverable_found(n: NextV, task_id: Seq<char>, outcome: Result<JValue, Seq<char>>)
    requires
        sound(n, task_id),
        n.action is FindDeliverable,
    ensures
        sound(run::deliverable_found(n.run, n.state, outcome), task_id),
{
    reveal(sound);
}

proof fn lemma_attempt_recorded(
    n: NextV,
    task_id: Seq<char>,
    outcome: Result<(), Seq<char>>,
    readings: ReadingsV,
)
    requires
        sound(n, task_id),
        n.action is PersistAttempt,
    ensures
        sound(run::attempt_recorded(n.run, n.state, outcome, readings), task_id),
{
    reveal(sound);
}

proof fn lemma_reviewed(
    n: NextV,
    task_id: Seq<char>,
    outcome: Result<VerdictV, Seq<char>>,
    at: Seq<char>,
)
    requires
        sound(n, task_id),
        n.action is Review,
    ensures
        sound(run::reviewed(n.run, n.state, outcome, at), task_id),
{
    reveal(sound);
}

proof fn lemma_unreviewed(n: NextV, task_id: Seq<char>, readings: ReadingsV)
    requires
        sound(n, task_id),
        n.action is Review,
    ensures
        sound(run::unreviewed(n.run, n.state, readings), task_id),
{
    reveal(sound);
}

proof fn lemma_review_recorded(
    n: NextV,
    task_id: Seq<char>,
    outcome: Result<(), Seq<char>>,
    readings: ReadingsV,
)
    requires
        sound(n, task_id),
        n.action is PersistReview,
    ensures
        sound(run::review_recorded(n.run, n.state, outcome, readings), task_id),
{
    reveal(sound);
}

proof fn lemma_results_written(
    n: NextV,
    task_id: Seq<char>,
    s: StateV,
    outcome: Result<Seq<Seq<char>>, Seq<char>>,
)
    requires
        sound(n, task_id),
        n.action is PersistResults,
        s == (StateV { deliverable_fact_id: s.deliverable_fact_id, ..n.state }),
        outcome matches Ok(more) ==> results::complete(n.state, more),
    ensures
        sound(run::results_written(n.run, s, outcome), task_id),
{
    reveal(sound);
    match outcome {
        Ok(more) => {
            let id = task::external_id(n.state);
            if n.state.result is Some {
                lemma_contains_behind(n.run.artifacts, more, "result:"@ + id);
            }
            lemma_contains_behind(n.run.artifacts, more, "session:"@ + id);
        },
        Err(_) => {},
    }
}

proof fn lemma_local_written(n: NextV, task_id: Seq<char>, path: Option<Seq<char>>)
    requires
        sound(n, task_id),
        n.action is WriteLocalFailure,
    ensures
        sound(run::local_written(n.run, n.state, path), task_id),
{
    reveal(sound);
}

proof fn lemma_local_updated(n: NextV, task_id: Seq<char>)
    requires
        sound(n, task_id),
        n.action is UpdateLocalFailure,
    ensures
        sound(run::local_updated(n.run, n.state), task_id),
{
    reveal(sound);
}

proof fn lemma_step_is_sound(n: NextV, e: EventV, task_id: Seq<char>)
    requires
        sound(n, task_id),
        answers(n, e),
    ensures
        sound(advanced(n, e), task_id),
{
    reveal(answers);
    reveal(advanced);
    match e {
        EventV::Resolved { outcome, now } => lemma_resolved(n, task_id, outcome, now),
        EventV::Recalled { outcome, now } => lemma_recalled(n, task_id, outcome, now),
        EventV::Planned { outcome, now } => lemma_planned(n, task_id, outcome, now),
        EventV::Priced { outcome, too_complex, now } => lemma_priced(
            n,
            task_id,
            outcome,
            too_complex,
            now,
        ),
        EventV::Provided { outcome, now } => lemma_provided(n, task_id, outcome, now),
        EventV::Executed { turns, started_at, ended_at } => {
            let m = run::execution_of(n.run);
            execution::law_attempt_keeps_the_task(m, n.state, turns);
            let end = execution::attempted(m, n.state, turns);
            lemma_executed(
                n,
                task_id,
                end.state,
                attempt_outcome(end.action),
                started_at,
                ended_at,
            );
        },
        EventV::DeliverableFound { outcome } => lemma_deliverable_found(n, task_id, outcome),
        EventV::AttemptRecorded { outcome, readings } => lemma_attempt_recorded(
            n,
            task_id,
            outcome,
            readings,
        ),
        EventV::Reviewed { outcome, at } => lemma_reviewed(n, task_id, outcome, at),
        EventV::Unreviewed { readings } => lemma_unreviewed(n, task_id, readings),
        EventV::ReviewRecorded { outcome, readings } => lemma_review_recorded(
            n,
            task_id,
            outcome,
            readings,
        ),
        EventV::Persisted { calls } => {
            results::law_written_results_are_complete(n.state, n.run.timeout_secs, calls);
            let end = results::persisted(n.state, n.run.timeout_secs, calls);
            lemma_results_written(n, task_id, end.state, written_outcome(end));
        },
        EventV::LocalWritten { path } => lemma_local_written(n, task_id, path),
        EventV::LocalUpdated => lemma_local_updated(n, task_id),
    }
}

proof fn lemma_run_is_sound(first: NextV, events: Seq<EventV>, task_id: Seq<char>)
    requires
        sound(first, task_id),
        orderly(first, events),
    ensures
        sound(after(first, events), task_id),
    decreases events.len(),
{
    if events.len() > 0 {
        lemma_run_is_sound(first, events.drop_last(), task_id);
        lemma_step_is_sound(after(first, events.drop_last()), events.last(), task_id);
    }
}

/// A run that finishes is settled, whatever came of its actions: its result is that of the task
/// that it was started with and has a terminal status; a failed one names an error; one that is
/// done has a result and no error, and its result and session were written.
pub proof fn law_finished_run_is_settled(r: RunV, s: StateV, events: Seq<EventV>)
    requires
        is_new(r, s),
        orderly(first_step(r, s), events),
    ensures
        ({
            let last = after(first_step(r, s), events);
            last.action matches RunActionV::Finished(result) ==> settled(
                r.task_id,
                last.state,
                result,
            )
        }),
{
    assert(sound(first_step(r, s), r.task_id)) by {
        reveal(sound);
    }
    lemma_run_is_sound(first_step(r, s), events, r.task_id);
    reveal(sound);
}

/// The same holds of a run that is stopped before its task is found.
pub proof fn law_stopped_run_is_settled(r: RunV, s: StateV, now: Seq<char>, events: Seq<EventV>)
    requires
        s.status == TaskStatus::Failed,
        s.error is Some,
        orderly(run::stopped(r, s, now), events),
    ensures
        ({
            let last = after(run::stopped(r, s, now), events);
            last.action matches RunActionV::Finished(result) ==> settled(
                r.task_id,
                last.state,
                result,
            ) && result.status == TaskStatus::Failed
        }),
{
    let first = run::stopped(r, s, now);
    assert(sound(first, r.task_id) && failed_early(first)) by {
        reveal(sound);
        reveal(failed_early);
    }
    lemma_run_is_sound(first, events, r.task_id);
    lemma_stopped_run_failed(first, events);
    reveal(sound);
    reveal(failed_early);
}

/// What holds of every run that was stopped before its task was found.
#[verifier::opaque]
spec fn failed_early(n: NextV) -> bool {
    match n.action {
        RunActionV::Finished(result) => result.status == TaskStatus::Failed,
        RunActionV::Aborted(_) => true,
        _ => (n.run.pending is EarlyLocal || n.run.pending is EarlyResults || n.run.pending
            is EarlyClosing) && (n.run.early matches Some(e) && e.status == TaskStatus::Failed) && (
        n.action is WriteLocalFailure || n.action is PersistResults || n.action
            is UpdateLocalFailure),
    }
}

proof fn lemma_failed_early_step(n: NextV, e: EventV)
    requires
        failed_early(n),
        answers(n, e),
    ensures
        failed_early(advanced(n, e)),
{
    reveal(failed_early);
    reveal(answers);
    reveal(advanced);
    match e {
        EventV::Persisted { .. } => {},
        EventV::LocalWritten { .. } => {},
        EventV::LocalUpdated => {},
        _ => {
            assert(false);
        },
    }
}

proof fn lemma_stopped_run_failed(first: NextV, events: Seq<EventV>)
    requires
        failed_early(first),
        orderly(first, events),
    ensures
        failed_early(after(first, events)),
    decreases events.len(),
{
    if events.len() > 0 {
        lemma_stopped_run_failed(first, events.drop_last());
        lemma_failed_early_step(after(first, events.drop_last()), events.last());
    }
}

} // verus!
