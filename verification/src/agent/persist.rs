//! Writing the facts of a task into memory.
//!
//! A canonical fact is written and then looked for, until a query finds it.

use vstd::prelude::*;
use vstd::string::*;

use crate::agent::facts;
use crate::agent::task;
use crate::agent::task::StateV;
use crate::agent::task::TaskState;
use crate::client::memory;
use crate::client::memory::IngestFactsParams;
use crate::client::memory::IngestV;
use crate::client::memory::MemoryQueryParams;
use crate::client::memory::QueryV;
use crate::json;
use crate::json::put_text;
use crate::json::JValue;
use crate::json::Json;
use crate::text;
use crate::text::contains;
use crate::text::decimal_of;
use crate::text::same;

verus! {

/// How often a canonical fact is written at most.
pub const PERSIST_VISIBILITY_ATTEMPTS: u32 = 3;

/// How many milliseconds lie between two writes.
pub const PERSIST_VISIBILITY_DELAY_MS: u64 = 50;

// ── Calls ───────────────────────────────────────────────────────────────

/// Why a call of memory gave nothing.
#[derive(Debug)]
pub enum CallError {
    Failed(String),
    TimedOut,
}

pub ghost enum CallErrorV {
    Failed(Seq<char>),
    TimedOut,
}

impl CallError {
    pub open spec fn view(&self) -> CallErrorV {
        match self {
            CallError::Failed(e) => CallErrorV::Failed(e@),
            CallError::TimedOut => CallErrorV::TimedOut,
        }
    }
}

pub open spec fn done_view(r: Result<(), CallError>) -> Result<(), CallErrorV> {
    match r {
        Ok(_) => Ok(()),
        Err(e) => Err(e@),
    }
}

pub open spec fn found_view(r: Result<Json, CallError>) -> Result<JValue, CallErrorV> {
    match r {
        Ok(v) => Ok(v@),
        Err(e) => Err(e@),
    }
}

/// What is said of an operation that took too long.
pub open spec fn timeout_text(operation: Seq<char>, secs: int) -> Seq<char> {
    (if text::has_infix(operation, "task_result"@) {
        "TASK_RESULT_PERSIST_TIMEOUT: "@
    } else {
        "MEMORY_CONTROL_TIMEOUT: "@
    }) + operation + " did not complete within "@ + text::decimal(secs as nat) + "s"@
}

/// What is said of an operation that failed.
pub open spec fn error_text(e: CallErrorV, operation: Seq<char>, secs: int) -> Seq<char> {
    match e {
        CallErrorV::Failed(why) => why,
        CallErrorV::TimedOut => timeout_text(operation, secs),
    }
}

pub fn describe(e: CallError, operation: &str, secs: u64) -> (r: String)
    ensures
        r@ == error_text(e@, operation@, secs as int),
{
    match e {
        CallError::Failed(why) => why,
        CallError::TimedOut => {
            let mut out = if contains(operation, "task_result") {
                "TASK_RESULT_PERSIST_TIMEOUT: ".to_owned()
            } else {
                "MEMORY_CONTROL_TIMEOUT: ".to_owned()
            };
            out.append(operation);
            out.append(" did not complete within ");
            out.append(decimal_of(secs).as_str());
            out.append("s");
            out
        },
    }
}

/// The write of one fact, in a task's own scope.
pub open spec fn ingest_of(s: StateV, fact: JValue) -> IngestV {
    IngestV {
        key: s.work_key,
        agent_id: s.agent_id,
        swarm_id: s.swarm_id,
        scope: s.scope,
        facts: JValue::Arr(seq![fact]),
        enrich_l0: Some(false),
    }
}

/// The write of one fact, in a task's own scope.
pub fn ingest_fact(state: &TaskState, fact: Json) -> (r: IngestFactsParams)
    ensures
        r@ == ingest_of(state@, fact@),
{
    let ghost v = fact@;
    let mut facts: Vec<Json> = Vec::new();
    facts.push(fact);
    assert(json::items_view(facts@) =~= seq![v]);
    IngestFactsParams {
        key: state.work_key.clone(),
        agent_id: state.agent_id.clone(),
        swarm_id: state.swarm_id.clone(),
        scope: state.scope.clone(),
        facts: Json::Arr(facts),
        enrich_l0: Some(false),
    }
}

/// Whether a fact is the one that was written.
pub open spec fn is_written(
    fact: JValue,
    kind: Seq<char>,
    task_fact_id: Seq<char>,
    status: Option<Seq<char>>,
) -> bool {
    &&& json::jget_str(fact, "kind"@) == Some(kind)
    &&& facts::metadata_text(fact, "task_fact_id"@) == Some(task_fact_id)
    &&& status matches Some(st) ==> facts::metadata_text(fact, "status"@) == Some(st)
}

/// The facts in an answer of memory.
pub open spec fn facts_in(response: JValue) -> Seq<JValue> {
    match json::jget(response, "facts"@) {
        Some(v) => match json::jarr(v) {
            Some(items) => items,
            None => seq![],
        },
        None => seq![],
    }
}

/// Whether an answer of memory holds the fact that was written.
pub open spec fn visible(
    response: JValue,
    kind: Seq<char>,
    task_fact_id: Seq<char>,
    status: Option<Seq<char>>,
) -> bool {
    exists|i: int|
        0 <= i < facts_in(response).len() && is_written(
            #[trigger] facts_in(response)[i],
            kind,
            task_fact_id,
            status,
        )
}

fn metadata_is(fact: &Json, field: &str, value: &str) -> (r: bool)
    ensures
        r == (facts::metadata_text(fact@, field@) == Some(value@)),
{
    match fact.get("metadata") {
        Some(m) => match m.get_str(field) {
            Some(s) => same(s, value),
            None => false,
        },
        None => false,
    }
}

fn fact_matches(fact: &Json, kind: &str, task_fact_id: &str, status: &Option<String>) -> (r: bool)
    ensures
        r == is_written(fact@, kind@, task_fact_id@, text::opt_text(*status)),
{
    let kind_fits = match fact.get_str("kind") {
        Some(k) => same(k, kind),
        None => false,
    };
    let status_fits = match status {
        Some(st) => metadata_is(fact, "status", st.as_str()),
        None => true,
    };
    kind_fits && metadata_is(fact, "task_fact_id", task_fact_id) && status_fits
}

/// Whether an answer of memory holds the fact that was written.
pub fn canonical_fact_visible(
    response: &Json,
    kind: &str,
    task_fact_id: &str,
    expected_status: &Option<String>,
) -> (r: bool)
    ensures
        r == visible(response@, kind@, task_fact_id@, text::opt_text(*expected_status)),
{
    let ghost all = facts_in(response@);
    match response.get_array("facts") {
        Some(items) => {
            let mut i: usize = 0;
            while i < items.len()
                invariant
                    i <= items.len(),
                    all == facts_in(response@),
                    all == json::items_view(items@),
                    forall|k: int|
                        0 <= k < i ==> !is_written(
                            #[trigger] all[k],
                            kind@,
                            task_fact_id@,
                            text::opt_text(*expected_status),
                        ),
                decreases items.len() - i,
            {
                assert(all[i as int] == items@[i as int]@);
                if fact_matches(&items[i], kind, task_fact_id, expected_status) {
                    return true;
                }
                i = i + 1;
            }
            false
        },
        None => false,
    }
}

// ── A fact that is looked for after it was written ──────────────────────

/// A canonical fact on its way into memory.
#[derive(Debug)]
pub struct VerifiedWrite {
    /// The task, as it stood when the write began.
    pub scope: WriteScope,
    pub fact: Json,
    pub kind: String,
    pub expected_status: Option<String>,
    /// Which write this is, from one on.
    pub attempt: u32,
    /// How many seconds a call may take.
    pub timeout_secs: u64,
}

/// Where a task's facts go.
#[derive(Debug)]
pub struct WriteScope {
    pub work_key: String,
    pub agent_id: String,
    pub swarm_id: String,
    pub scope: String,
    pub task_fact_id: String,
}

pub ghost struct ScopeV {
    pub work_key: Seq<char>,
    pub agent_id: Seq<char>,
    pub swarm_id: Seq<char>,
    pub scope: Seq<char>,
    pub task_fact_id: Seq<char>,
}

pub ghost struct WriteV {
    pub scope: ScopeV,
    pub fact: JValue,
    pub kind: Seq<char>,
    pub expected_status: Option<Seq<char>>,
    pub attempt: int,
    pub timeout_secs: int,
}

impl WriteScope {
    pub open spec fn view(&self) -> ScopeV {
        ScopeV {
            work_key: self.work_key@,
            agent_id: self.agent_id@,
            swarm_id: self.swarm_id@,
            scope: self.scope@,
            task_fact_id: self.task_fact_id@,
        }
    }
}

/// Where a task's facts go.
pub open spec fn scope_of(s: StateV) -> ScopeV {
    ScopeV {
        work_key: s.work_key,
        agent_id: s.agent_id,
        swarm_id: s.swarm_id,
        scope: s.scope,
        task_fact_id: task::fact_id(s),
    }
}

/// What to do next.
#[derive(Debug)]
pub enum MemoryAction {
    Ingest(IngestFactsParams),
    Query(MemoryQueryParams),
    /// Wait so many milliseconds.
    Wait(u64),
    Done,
    Failed(String),
}

pub ghost enum MemoryActionV {
    Ingest(IngestV),
    Query(QueryV),
    Wait(u64),
    Done,
    Failed(Seq<char>),
}

impl MemoryAction {
    pub open spec fn view(&self) -> MemoryActionV {
        match self {
            MemoryAction::Ingest(p) => MemoryActionV::Ingest(p@),
            MemoryAction::Query(p) => MemoryActionV::Query(p@),
            MemoryAction::Wait(ms) => MemoryActionV::Wait(*ms),
            MemoryAction::Done => MemoryActionV::Done,
            MemoryAction::Failed(e) => MemoryActionV::Failed(e@),
        }
    }
}

/// The write of a canonical fact.
pub open spec fn write_call(w: WriteV) -> IngestV {
    IngestV {
        key: w.scope.work_key,
        agent_id: w.scope.agent_id,
        swarm_id: w.scope.swarm_id,
        scope: w.scope.scope,
        facts: JValue::Arr(seq![w.fact]),
        enrich_l0: Some(false),
    }
}

/// The search for a canonical fact.
pub open spec fn search_call(w: WriteV) -> QueryV {
    memory::newest(
        w.scope.work_key,
        w.scope.agent_id,
        w.scope.swarm_id,
        JValue::Obj(
            Map::<Seq<char>, JValue>::empty().insert("kind"@, JValue::Str(w.kind)).insert(
                "metadata.task_fact_id"@,
                JValue::Str(w.scope.task_fact_id),
            ),
        ),
        5,
    )
}

/// What follows a write: the search for it.
pub open spec fn ingested(w: WriteV, outcome: Result<(), CallErrorV>) -> MemoryActionV {
    match outcome {
        Ok(_) => MemoryActionV::Query(search_call(w)),
        Err(e) => MemoryActionV::Failed(
            "persisting canonical "@ + w.kind + " fact: "@ + error_text(
                e,
                "persist canonical "@ + w.kind + " fact"@,
                w.timeout_secs,
            ),
        ),
    }
}

/// What is said of a write that was not found.
pub open spec fn not_found_text(w: WriteV) -> Seq<char> {
    "canonical "@ + w.kind + " fact for task_fact_id="@ + w.scope.task_fact_id + (
    match w.expected_status {
        Some(st) => " status="@ + st,
        None => ""@,
    }) + " not queryable after attempt "@ + text::decimal(w.attempt as nat)
}

/// What is said of a search that failed.
pub open spec fn search_error_text(w: WriteV, e: CallErrorV) -> Seq<char> {
    "verifying canonical "@ + w.kind + " fact for task_fact_id="@ + w.scope.task_fact_id
        + " after attempt "@ + text::decimal(w.attempt as nat) + ": "@ + error_text(
        e,
        "verify canonical "@ + w.kind + " fact visibility"@,
        w.timeout_secs,
    )
}

/// What follows a search: the end where the fact was found, else another write after a while, and
/// the end after the last one.
pub open spec fn searched(w: WriteV, outcome: Result<JValue, CallErrorV>) -> (
    WriteV,
    MemoryActionV,
) {
    let found = outcome matches Ok(response) && visible(
        response,
        w.kind,
        w.scope.task_fact_id,
        w.expected_status,
    );
    if found {
        (w, MemoryActionV::Done)
    } else if w.attempt < PERSIST_VISIBILITY_ATTEMPTS {
        (WriteV { attempt: w.attempt + 1, ..w }, MemoryActionV::Wait(PERSIST_VISIBILITY_DELAY_MS))
    } else {
        (
            w,
            MemoryActionV::Failed(
                match outcome {
                    Ok(_) => not_found_text(w),
                    Err(e) => search_error_text(w, e),
                },
            ),
        )
    }
}

/// A canonical fact counts as written only where a query found it.
pub proof fn law_done_means_found(w: WriteV, outcome: Result<JValue, CallErrorV>)
    ensures
        searched(w, outcome).1 is Done <==> (outcome matches Ok(response) && visible(
            response,
            w.kind,
            w.scope.task_fact_id,
            w.expected_status,
        )),
{
}

/// A canonical fact is written three times at most: another write only follows an earlier one.
pub proof fn law_writes_are_limited(w: WriteV, outcome: Result<JValue, CallErrorV>)
    requires
        1 <= w.attempt <= PERSIST_VISIBILITY_ATTEMPTS,
    ensures
        searched(w, outcome).1 is Wait ==> searched(w, outcome).0.attempt == w.attempt + 1
            && searched(w, outcome).0.attempt <= PERSIST_VISIBILITY_ATTEMPTS,
{
}

impl VerifiedWrite {
    pub open spec fn view(&self) -> WriteV {
        WriteV {
            scope: self.scope@,
            fact: self.fact@,
            kind: self.kind@,
            expected_status: text::opt_text(self.expected_status),
            attempt: self.attempt as int,
            timeout_secs: self.timeout_secs as int,
        }
    }

    /// A fact of a task that has not been written yet.
    pub fn new(
        state: &TaskState,
        fact: Json,
        kind: &str,
        expected_status: Option<String>,
        timeout_secs: u64,
    ) -> (r: VerifiedWrite)
        ensures
            r@ == fresh_write(
                state@,
                fact@,
                kind@,
                text::opt_text(expected_status),
                timeout_secs as int,
            ),
    {
        VerifiedWrite {
            scope: WriteScope {
                work_key: state.work_key.clone(),
                agent_id: state.agent_id.clone(),
                swarm_id: state.swarm_id.clone(),
                scope: state.scope.clone(),
                task_fact_id: state.task_fact_or_task_id().to_owned(),
            },
            fact,
            kind: kind.to_owned(),
            expected_status,
            attempt: 1,
            timeout_secs,
        }
    }

    /// Writes the fact, for the first time or again.
    pub fn begin(&self) -> (r: MemoryAction)
        ensures
            r@ == MemoryActionV::Ingest(write_call(self@)),
    {
        let mut facts: Vec<Json> = Vec::new();
        facts.push(self.fact.copy());
        assert(json::items_view(facts@) =~= seq![self.fact@]);
        MemoryAction::Ingest(
            IngestFactsParams {
                key: self.scope.work_key.clone(),
                agent_id: self.scope.agent_id.clone(),
                swarm_id: self.scope.swarm_id.clone(),
                scope: self.scope.scope.clone(),
                facts: Json::Arr(facts),
                enrich_l0: Some(false),
            },
        )
    }

    /// The write came to its end.
    pub fn on_ingested(&self, outcome: Result<(), CallError>) -> (r: MemoryAction)
        ensures
            r@ == ingested(self@, done_view(outcome)),
    {
        match outcome {
            Ok(_) => {
                let mut filter: Vec<(String, Json)> = Vec::new();
                put_text(&mut filter, "kind", self.kind.as_str());
                put_text(&mut filter, "metadata.task_fact_id", self.scope.task_fact_id.as_str());
                MemoryAction::Query(
                    MemoryQueryParams::newest(
                        self.scope.work_key.as_str(),
                        self.scope.agent_id.as_str(),
                        self.scope.swarm_id.as_str(),
                        Json::Obj(filter),
                        5,
                    ),
                )
            },
            Err(e) => {
                let mut operation = "persist canonical ".to_owned();
                operation.append(self.kind.as_str());
                operation.append(" fact");
                let why = describe(e, operation.as_str(), self.timeout_secs);
                let mut out = "persisting canonical ".to_owned();
                out.append(self.kind.as_str());
                out.append(" fact: ");
                out.append(why.as_str());
                MemoryAction::Failed(out)
            },
        }
    }

    fn search_failure(&self, e: CallError) -> (r: String)
        ensures
            r@ == search_error_text(self@, e@),
    {
        let mut operation = "verify canonical ".to_owned();
        operation.append(self.kind.as_str());
        operation.append(" fact visibility");
        let why = describe(e, operation.as_str(), self.timeout_secs);
        let mut out = "verifying canonical ".to_owned();
        out.append(self.kind.as_str());
        out.append(" fact for task_fact_id=");
        out.append(self.scope.task_fact_id.as_str());
        out.append(" after attempt ");
        out.append(decimal_of(self.attempt as u64).as_str());
        out.append(": ");
        out.append(why.as_str());
        out
    }

    fn not_found(&self) -> (r: String)
        ensures
            r@ == not_found_text(self@),
    {
        let mut out = "canonical ".to_owned();
        out.append(self.kind.as_str());
        out.append(" fact for task_fact_id=");
        out.append(self.scope.task_fact_id.as_str());
        let mut suffix = "".to_owned();
        match &self.expected_status {
            Some(st) => {
                suffix = " status=".to_owned();
                suffix.append(st.as_str());
            },
            None => {},
        }
        out.append(suffix.as_str());
        out.append(" not queryable after attempt ");
        out.append(decimal_of(self.attempt as u64).as_str());
        out
    }

    /// The search came to its end.
    pub fn on_searched(&mut self, outcome: Result<Json, CallError>) -> (r: MemoryAction)
        ensures
            (final(self)@, r@) == searched(old(self)@, found_view(outcome)),
    {
        let failure = match outcome {
            Ok(response) => {
                if canonical_fact_visible(
                    &response,
                    self.kind.as_str(),
                    self.scope.task_fact_id.as_str(),
                    &self.expected_status,
                ) {
                    return MemoryAction::Done;
                }
                self.not_found()
            },
            Err(e) => self.search_failure(e),
        };
        if self.attempt < PERSIST_VISIBILITY_ATTEMPTS {
            self.attempt = self.attempt + 1;
            MemoryAction::Wait(PERSIST_VISIBILITY_DELAY_MS)
        } else {
            MemoryAction::Failed(failure)
        }
    }
}

/// A fact of a task that has not been written yet.
pub open spec fn fresh_write(
    s: StateV,
    fact: JValue,
    kind: Seq<char>,
    expected_status: Option<Seq<char>>,
    timeout_secs: int,
) -> WriteV {
    WriteV { scope: scope_of(s), fact, kind, expected_status, attempt: 1, timeout_secs }
}

// ── What is written can be found ────────────────────────────────────────

/// A write carries its fact and nothing else, into the task's own scope.
pub proof fn law_write_carries_its_fact(s: StateV, fact: JValue, w: WriteV)
    ensures
        json::jarr(ingest_of(s, fact).facts) == Some(seq![fact]),
        ingest_of(s, fact).key == s.work_key,
        ingest_of(s, fact).agent_id == s.agent_id,
        ingest_of(s, fact).swarm_id == s.swarm_id,
        ingest_of(s, fact).scope == s.scope,
        json::jarr(write_call(w).facts) == Some(seq![w.fact]),
        write_call(w).key == w.scope.work_key,
        write_call(w).scope == w.scope.scope,
        ingested(w, Ok(())) matches MemoryActionV::Query(q) && q.key == write_call(w).key
            && q.agent_id == write_call(w).agent_id && q.swarm_id == write_call(w).swarm_id,
{
}

/// The search for a fact asks for what the fact says of itself: its kind and its task.
pub proof fn law_search_asks_for_what_was_written(s: StateV, fact: JValue, kind: Seq<char>, secs: int)
    ensures
        ({
            let w = fresh_write(s, fact, kind, None, secs);
            let filter = search_call(w).filter;
            &&& w.fact == fact
            &&& json::jget_str(filter, "kind"@) == Some(kind)
            &&& json::jget_str(filter, "metadata.task_fact_id"@) == Some(task::fact_id(s))
            &&& search_call(w).limit matches Some(n) && n > 0
        }),
{
    reveal_strlit("kind");
    reveal_strlit("metadata.task_fact_id");
    assert("kind"@.len() == 4);
    assert("metadata.task_fact_id"@.len() == 21);
}

/// A canonical fact that memory gives back is known again: the write of a result, a deliverable,
/// or the account of the work ends as soon as an answer holds it, wherever in the answer.
pub proof fn law_written_fact_is_known_again(
    s: StateV,
    result: Seq<char>,
    account: Seq<char>,
    kind: crate::agent::task::DeliverableKind,
    source: Seq<char>,
    before: Seq<JValue>,
    behind: Seq<JValue>,
    response: JValue,
    fact: JValue,
    name: Seq<char>,
    secs: int,
)
    requires
        (fact == facts::result_fact(s, result) && name == "task_result"@) || (fact
            == facts::deliverable_fact(s, result, kind, source) && name == "task_deliverable"@) || (
        fact == facts::session_fact(s, account) && name == "task_session"@),
        json::jget(response, "facts"@) == Some(JValue::Arr(before + seq![fact] + behind)),
    ensures
        searched(
            fresh_write(s, fact, name, Some(task::status_name(s.status)), secs),
            Ok(response),
        ).1 is Done,
{
    facts::law_result_fact_holds_the_result(s, result);
    facts::law_deliverable_fact_holds_the_whole_result(s, result, kind, source);
    facts::law_session_fact_holds_the_account(s, account);
    let all = before + seq![fact] + behind;
    assert(facts_in(response) == all);
    assert(all[before.len() as int] == fact);
    assert(is_written(
        facts_in(response)[before.len() as int],
        name,
        task::fact_id(s),
        Some(task::status_name(s.status)),
    ));
}

/// A failed write says why, and so does one that was never found.
pub proof fn law_failed_write_says_why(w: WriteV, why: Seq<char>, response: JValue)
    requires
        w.attempt >= PERSIST_VISIBILITY_ATTEMPTS,
    ensures
        ingested(w, Err(CallErrorV::Failed(why))) matches MemoryActionV::Failed(e)
            && text::has_suffix(e, why),
        searched(w, Err(CallErrorV::Failed(why))).1 matches MemoryActionV::Failed(e)
            && text::has_suffix(e, why),
        !visible(response, w.kind, w.scope.task_fact_id, w.expected_status) ==> (searched(
            w,
            Ok(response),
        ).1 matches MemoryActionV::Failed(e) && text::has_infix(e, w.scope.task_fact_id)),
{
    let a = "persisting canonical "@ + w.kind + " fact: "@ + why;
    assert(a.subrange(a.len() - why.len(), a.len() as int) =~= why);
    let b = search_error_text(w, CallErrorV::Failed(why));
    assert(b.subrange(b.len() - why.len(), b.len() as int) =~= why);
    let front = "canonical "@ + w.kind + " fact for task_fact_id="@;
    let status = match w.expected_status {
        Some(st) => " status="@ + st,
        None => ""@,
    };
    let back = status + " not queryable after attempt "@ + text::decimal(w.attempt as nat);
    assert(not_found_text(w) =~= front + w.scope.task_fact_id + back);
    text::lemma_infix(front, w.scope.task_fact_id, back);
}

/// A write that is not found yet is waited for and tried again, as long as there are tries left;
/// only their number changes.
pub proof fn law_unfound_write_is_tried_again(w: WriteV, outcome: Result<JValue, CallErrorV>)
    requires
        outcome matches Ok(response) ==> !visible(
            response,
            w.kind,
            w.scope.task_fact_id,
            w.expected_status,
        ),
    ensures
        w.attempt < PERSIST_VISIBILITY_ATTEMPTS ==> searched(w, outcome) == (
            WriteV { attempt: w.attempt + 1, ..w },
            MemoryActionV::Wait(PERSIST_VISIBILITY_DELAY_MS),
        ),
        w.attempt >= PERSIST_VISIBILITY_ATTEMPTS ==> searched(w, outcome).1 is Failed,
        PERSIST_VISIBILITY_ATTEMPTS == 3,
{
}

/// A new write is of its task and its fact, in the first of its tries.
pub proof fn law_new_write_is_its_tasks(
    s: StateV,
    fact: JValue,
    kind: Seq<char>,
    status: Option<Seq<char>>,
    secs: int,
)
    ensures
        ({
            let w = fresh_write(s, fact, kind, status, secs);
            &&& write_call(w) == ingest_of(s, fact)
            &&& w.attempt == 1 && w.kind == kind && w.expected_status == status && w.timeout_secs
                == secs
            &&& w.scope.task_fact_id == task::fact_id(s)
            &&& write_call(w).enrich_l0 == Some(false)
        }),
{
}

/// Facts of another kind, task or status are not taken for the one that was written.
pub proof fn law_other_facts_are_not_taken(
    fact: JValue,
    kind: Seq<char>,
    task_fact_id: Seq<char>,
    status: Seq<char>,
)
    ensures
        is_written(fact, kind, task_fact_id, Some(status)) ==> json::jget_str(fact, "kind"@) == Some(
            kind,
        ) && facts::metadata_text(fact, "task_fact_id"@) == Some(task_fact_id)
            && facts::metadata_text(fact, "status"@) == Some(status),
        is_written(fact, kind, task_fact_id, None) ==> json::jget_str(fact, "kind"@) == Some(kind)
            && facts::metadata_text(fact, "task_fact_id"@) == Some(task_fact_id),
        is_written(fact, kind, task_fact_id, Some(status)) ==> is_written(
            fact,
            kind,
            task_fact_id,
            None,
        ),
{
}

/// The facts of an answer are those that it lists.
pub proof fn law_listed_facts_are_read(response: JValue, items: Seq<JValue>)
    ensures
        json::jget(response, "facts"@) == Some(JValue::Arr(items)) ==> facts_in(response) == items,
        json::jget(response, "facts"@) is None ==> facts_in(response).len() == 0,
{
}

/// A call that took too long is named, with how long was waited.
pub proof fn law_timeout_is_named(operation: Seq<char>, secs: int, why: Seq<char>)
    ensures
        ({
            let said = error_text(CallErrorV::TimedOut, operation, secs);
            &&& text::has_infix(said, operation)
            &&& text::has_suffix(said, text::decimal(secs as nat) + "s"@)
            &&& text::has_infix(operation, "task_result"@) ==> text::has_prefix(
                said,
                "TASK_RESULT_PERSIST_TIMEOUT: "@,
            )
            &&& !text::has_infix(operation, "task_result"@) ==> text::has_prefix(
                said,
                "MEMORY_CONTROL_TIMEOUT: "@,
            )
        }),
        error_text(CallErrorV::Failed(why), operation, secs) == why,
{
    let said = error_text(CallErrorV::TimedOut, operation, secs);
    let head = if text::has_infix(operation, "task_result"@) {
        "TASK_RESULT_PERSIST_TIMEOUT: "@
    } else {
        "MEMORY_CONTROL_TIMEOUT: "@
    };
    let tail = " did not complete within "@ + text::decimal(secs as nat) + "s"@;
    let t = text::decimal(secs as nat) + "s"@;
    assert(said =~= head + operation + tail);
    text::lemma_infix(head, operation, tail);
    assert(said.subrange(0, head.len() as int) =~= head);
    assert(said.subrange(said.len() - t.len(), said.len() as int) =~= t);
}

/// A write that was never found names its kind, its task and how often it was looked for.
pub proof fn law_lost_write_is_named(w: WriteV, e: CallErrorV)
    ensures
        text::has_infix(not_found_text(w), "canonical "@ + w.kind + " fact for task_fact_id="@
            + w.scope.task_fact_id),
        text::has_suffix(not_found_text(w), " after attempt "@ + text::decimal(w.attempt as nat)),
        text::has_infix(search_error_text(w, e), "canonical "@ + w.kind + " fact for task_fact_id="@
            + w.scope.task_fact_id + " after attempt "@ + text::decimal(w.attempt as nat)),
        w.expected_status matches Some(st) ==> text::has_infix(not_found_text(w), " status="@ + st),
{
    let core = "canonical "@ + w.kind + " fact for task_fact_id="@ + w.scope.task_fact_id;
    let status = match w.expected_status {
        Some(st) => " status="@ + st,
        None => ""@,
    };
    let times = text::decimal(w.attempt as nat);
    let end = " not queryable after attempt "@ + times;
    let lost = not_found_text(w);
    assert(lost =~= core + (status + end));
    assert(lost =~= Seq::<char>::empty() + core + (status + end));
    text::lemma_infix(seq![], core, status + end);
    assert(lost =~= core + status + end);
    text::lemma_infix(core, status, end);
    reveal_strlit(" not queryable after attempt ");
    reveal_strlit(" after attempt ");
    let tail = " after attempt "@ + times;
    assert(" not queryable after attempt "@ =~= " not queryable after attempt "@.take(14)
        + " after attempt "@);
    assert(lost.subrange(lost.len() - tail.len(), lost.len() as int) =~= tail);
    reveal_strlit("verifying canonical ");
    reveal_strlit("canonical ");
    let start = "verifying canonical "@.take(10);
    assert("verifying canonical "@ =~= start + "canonical "@);
    let why = ": "@ + error_text(
        e,
        "verify canonical "@ + w.kind + " fact visibility"@,
        w.timeout_secs,
    );
    let said = search_error_text(w, e);
    let told = core + " after attempt "@ + times;
    assert(said =~= start + told + why);
    text::lemma_infix(start, told, why);
}

} // verus!
