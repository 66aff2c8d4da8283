//! The facts that a task leaves in memory.

use vstd::prelude::*;
use vstd::string::*;

use crate::agent::task;
use crate::agent::task::DeliverableKind;
use crate::agent::task::StateV;
use crate::agent::task::TaskState;
use crate::agent::task::ToolTraceEntry;
use crate::agent::task::TraceV;
use crate::json;
use crate::json::put;
use crate::json::put_text;
use crate::json::JValue;
use crate::json::Json;
use crate::text;
use crate::text::decimal_of;
use crate::text::same;
use crate::text::take_before;
use crate::text::take_chars;

verus! {

// ── Parts ───────────────────────────────────────────────────────────────

/// A text, or null.
pub open spec fn nullable(o: Option<Seq<char>>) -> JValue {
    match o {
        Some(s) => JValue::Str(s),
        None => JValue::Null,
    }
}

fn put_opt(entries: &mut Vec<(String, Json)>, key: &str, value: Option<&str>)
    ensures
        json::entries_view(final(entries)@) == json::entries_view(old(entries)@).insert(
            key@,
            nullable(text::opt_slice(value)),
        ),
{
    match value {
        Some(s) => {
            put_text(entries, key, s);
        },
        None => {
            put(entries, key, Json::Null);
        },
    }
}

fn as_slice(o: &Option<String>) -> (r: Option<&str>)
    ensures
        text::opt_slice(r) == text::opt_text(*o),
{
    match o {
        Some(s) => Some(s.as_str()),
        None => None,
    }
}

fn put_number(entries: &mut Vec<(String, Json)>, key: &str, value: u32)
    ensures
        json::entries_view(final(entries)@) == json::entries_view(old(entries)@).insert(
            key@,
            JValue::Int(value as int),
        ),
{
    put(entries, key, Json::UInt(value as u64));
}

fn two_texts(a: &str, b: &str) -> (r: Json)
    ensures
        r@ == json::jtexts(seq![a@, b@]),
{
    let mut v: Vec<String> = Vec::new();
    v.push(a.to_owned());
    v.push(b.to_owned());
    assert(text::texts(v@) =~= seq![a@, b@]);
    Json::texts(&v)
}

fn three_texts(a: &str, b: &str, c: &str) -> (r: Json)
    ensures
        r@ == json::jtexts(seq![a@, b@, c@]),
{
    let mut v: Vec<String> = Vec::new();
    v.push(a.to_owned());
    v.push(b.to_owned());
    v.push(c.to_owned());
    assert(text::texts(v@) =~= seq![a@, b@, c@]);
    Json::texts(&v)
}

fn no_texts() -> (r: Json)
    ensures
        r@ == json::jtexts(seq![]),
{
    let v: Vec<String> = Vec::new();
    assert(text::texts(v@) =~= seq![]);
    Json::texts(&v)
}

/// `prefix` and the text behind it.
pub fn prefixed(prefix: &str, s: &str) -> (r: String)
    ensures
        r@ == prefix@ + s@,
{
    let mut out = prefix.to_owned();
    out.append(s);
    out
}

/// `<prefix><id>_<number>`, or with another separator.
pub fn numbered(prefix: &str, id: &str, sep: &str, n: u32) -> (r: String)
    ensures
        r@ == prefix@ + id@ + sep@ + text::decimal(n as nat),
{
    let mut out = prefix.to_owned();
    out.append(id);
    out.append(sep);
    out.append(decimal_of(n as u64).as_str());
    out
}

/// A text of at most 160 characters, with dots where it was longer.
pub open spec fn summary(s: Seq<char>) -> Seq<char> {
    if s.len() > 160 {
        s.take(160) + "..."@
    } else {
        s
    }
}

/// A text of at most 160 characters, with dots where it was longer.
pub fn summarize_text(s: &str) -> (r: String)
    ensures
        r@ == summary(s@),
{
    let mut out = take_chars(s, 160);
    if s.unicode_len() > 160 {
        out.append("...");
    }
    out
}

/// A text of at most 4000 characters, with a note where it was longer.
pub open spec fn preview(s: Seq<char>) -> Seq<char> {
    if s.len() > 4000 {
        s.take(4000) + "\n...[truncated]"@
    } else {
        s
    }
}

/// A text of at most 4000 characters, with a note where it was longer.
pub fn persist_result_preview(s: &str) -> (r: String)
    ensures
        r@ == preview(s@),
{
    let mut out = take_chars(s, 4000);
    if s.unicode_len() > 4000 {
        out.append("\n...[truncated]");
    }
    out
}

/// What is kept of a result, and whether that is less than all of it.
#[derive(Debug)]
pub struct Preview {
    pub preview: String,
    pub truncated: bool,
}

pub ghost struct PreviewV {
    pub preview: Seq<char>,
    pub truncated: bool,
}

/// What is kept of a text.
pub open spec fn preview_view(s: Seq<char>) -> PreviewV {
    PreviewV { preview: preview(s), truncated: preview(s) != s }
}

impl Preview {
    pub open spec fn view(&self) -> PreviewV {
        PreviewV { preview: self.preview@, truncated: self.truncated }
    }

    pub fn empty() -> (r: Preview)
        ensures
            r@ == (PreviewV { preview: seq![], truncated: false }),
    {
        Preview { preview: String::new(), truncated: false }
    }
}

pub fn preview_of(s: &str) -> (r: Preview)
    ensures
        r@ == preview_view(s@),
{
    let preview = persist_result_preview(s);
    let truncated = !same(preview.as_str(), s);
    Preview { preview, truncated }
}

/// The provider part of a model's name.
pub open spec fn profile(model: Seq<char>) -> Option<Seq<char>> {
    let prefix = text::before_first(model, "/"@);
    if prefix.len() == 0 {
        None
    } else {
        Some(prefix)
    }
}

/// The provider part of a model's name.
pub fn model_profile(model: &str) -> (r: Option<String>)
    ensures
        text::opt_text(r) == profile(model@),
{
    let prefix = take_before(model, "/");
    if prefix.as_str().unicode_len() == 0 {
        None
    } else {
        Some(prefix)
    }
}

/// A text that is not empty.
pub open spec fn not_blank(s: Seq<char>) -> Option<Seq<char>> {
    if s.len() == 0 {
        None
    } else {
        Some(s)
    }
}

pub fn blankable(s: &str) -> (r: Option<&str>)
    ensures
        text::opt_slice(r) == not_blank(s@),
{
    if s.unicode_len() == 0 {
        None
    } else {
        Some(s)
    }
}

/// A tool call as facts show it.
pub open spec fn trace_mark(e: TraceV) -> Seq<char> {
    e.tool + ":"@ + (if e.success {
        "ok"@
    } else {
        "error"@
    })
}

pub open spec fn trace_marks(trace: Seq<TraceV>) -> Seq<Seq<char>> {
    trace.map_values(|e: TraceV| trace_mark(e))
}

pub fn tool_trace_metadata(entries: &[ToolTraceEntry]) -> (r: Vec<String>)
    ensures
        text::texts(r@) == trace_marks(task::trace_view(entries@)),
{
    let mut out: Vec<String> = Vec::new();
    let mut i: usize = 0;
    while i < entries.len()
        invariant
            i <= entries.len(),
            out.len() == i,
            forall|k: int| 0 <= k < i ==> (#[trigger] out@[k])@ == trace_mark(entries@[k]@),
        decreases entries.len() - i,
    {
        let mut mark = entries[i].tool.clone();
        mark.append(":");
        if entries[i].success {
            mark.append("ok");
        } else {
            mark.append("error");
        }
        out.push(mark);
        i = i + 1;
    }
    assert(text::texts(out@) =~= trace_marks(task::trace_view(entries@)));
    out
}

/// A field of a fact's metadata, where it is a text.
pub open spec fn metadata_text(raw: JValue, field: Seq<char>) -> Option<Seq<char>> {
    match json::jget(raw, "metadata"@) {
        Some(m) => json::jget_str(m, field),
        None => None,
    }
}

/// A field of a fact's metadata, where it is a text.
pub fn task_metadata_string(raw: &Json, field: &str) -> (r: Option<String>)
    ensures
        text::opt_text(r) == metadata_text(raw@, field@),
{
    match raw.get("metadata") {
        Some(m) => match m.get_str(field) {
            Some(s) => Some(s.to_owned()),
            None => None,
        },
        None => None,
    }
}

// ── Facts ───────────────────────────────────────────────────────────────

type Entries = Vec<(String, Json)>;

/// The metadata that every fact of a task starts with.
pub open spec fn task_entries(s: StateV) -> Map<Seq<char>, JValue> {
    Map::<Seq<char>, JValue>::empty().insert(
        "task_fact_id"@,
        JValue::Str(task::fact_id(s)),
    ).insert("task_id"@, JValue::Str(task::external_id(s))).insert(
        "work_key"@,
        JValue::Str(s.work_key),
    ).insert("context_key"@, JValue::Str(s.context_key))
}

fn start_metadata(state: &TaskState) -> (r: Entries)
    ensures
        json::entries_view(r@) == task_entries(state@),
{
    let mut m: Entries = Vec::new();
    put_text(&mut m, "task_fact_id", state.task_fact_or_task_id());
    put_text(&mut m, "task_id", state.external_or_task_id());
    put_text(&mut m, "work_key", state.work_key.as_str());
    put_text(&mut m, "context_key", state.context_key.as_str());
    m
}

/// Metadata with the model that did the work.
pub open spec fn with_model(m: Map<Seq<char>, JValue>, s: StateV) -> Map<Seq<char>, JValue> {
    m.insert("model_used"@, JValue::Str(s.model_current)).insert(
        "profile_used"@,
        nullable(profile(s.model_current)),
    ).insert("backend_used"@, nullable(not_blank(s.backend_current)))
}

fn put_model(m: &mut Entries, state: &TaskState)
    ensures
        json::entries_view(final(m)@) == with_model(json::entries_view(old(m)@), state@),
{
    put_text(m, "model_used", state.model_current.as_str());
    let profile = model_profile(state.model_current.as_str());
    put_opt(m, "profile_used", as_slice(&profile));
    put_opt(m, "backend_used", blankable(state.backend_current.as_str()));
}

/// Metadata with the agent and its swarm.
pub open spec fn with_agent(m: Map<Seq<char>, JValue>, s: StateV) -> Map<Seq<char>, JValue> {
    m.insert("agent_id"@, JValue::Str(s.agent_id)).insert("swarm_id"@, JValue::Str(s.swarm_id))
}

fn put_agent(m: &mut Entries, state: &TaskState)
    ensures
        json::entries_view(final(m)@) == with_agent(json::entries_view(old(m)@), state@),
{
    put_text(m, "agent_id", state.agent_id.as_str());
    put_text(m, "swarm_id", state.swarm_id.as_str());
}

/// Metadata with what a task came to.
pub open spec fn with_outcome(m: Map<Seq<char>, JValue>, s: StateV) -> Map<Seq<char>, JValue> {
    with_model(
        m.insert("phase"@, JValue::Str(s.phase)).insert("iteration"@, JValue::Int(s.iteration)),
        s,
    ).insert("shell_spent"@, s.shell_spent.number).insert(
        "started_at"@,
        JValue::Str(s.started_at),
    ).insert("finished_at"@, nullable(s.finished_at)).insert("error"@, nullable(s.error)).insert(
        "tool_trace"@,
        json::jtexts(trace_marks(s.tool_trace)),
    )
}

fn put_outcome(m: &mut Entries, state: &TaskState)
    ensures
        json::entries_view(final(m)@) == with_outcome(json::entries_view(old(m)@), state@),
{
    put_text(m, "phase", state.phase.as_str());
    put_number(m, "iteration", state.iteration);
    put_model(m, state);
    put(m, "shell_spent", state.shell_spent.number.copy());
    put_text(m, "started_at", state.started_at.as_str());
    put_opt(m, "finished_at", as_slice(&state.finished_at));
    put_opt(m, "error", as_slice(&state.error));
    let marks = tool_trace_metadata(state.tool_trace.as_slice());
    put(m, "tool_trace", Json::texts(&marks));
}

/// A fact: its id, text and kind, what it is about, its tags and metadata.
pub open spec fn fact_json(
    id: Seq<char>,
    fact: Seq<char>,
    kind: Seq<char>,
    entities: JValue,
    tags: JValue,
    metadata: Map<Seq<char>, JValue>,
) -> JValue {
    JValue::Obj(
        Map::<Seq<char>, JValue>::empty().insert("id"@, JValue::Str(id)).insert(
            "fact"@,
            JValue::Str(fact),
        ).insert("kind"@, JValue::Str(kind)).insert("session"@, JValue::Int(1)).insert(
            "entities"@,
            entities,
        ).insert("tags"@, tags).insert("metadata"@, JValue::Obj(metadata)),
    )
}

fn fact_value(
    id: &str,
    fact: &str,
    kind: &str,
    entities: Json,
    tags: Json,
    metadata: Entries,
) -> (r: Json)
    ensures
        r@ == fact_json(
            id@,
            fact@,
            kind@,
            entities@,
            tags@,
            json::entries_view(metadata@),
        ),
{
    let mut e: Entries = Vec::new();
    put_text(&mut e, "id", id);
    put_text(&mut e, "fact", fact);
    put_text(&mut e, "kind", kind);
    put_number(&mut e, "session", 1);
    put(&mut e, "entities", entities);
    put(&mut e, "tags", tags);
    put(&mut e, "metadata", Json::Obj(metadata));
    Json::Obj(e)
}

/// The text of an attempt.
pub open spec fn attempt_text(attempt: int, status: Seq<char>, shown: Seq<char>) -> Seq<char> {
    let head = "Attempt "@ + text::decimal(attempt as nat) + " status="@ + status;
    if shown.len() == 0 {
        head
    } else {
        head + "\n"@ + shown
    }
}

/// The fact about one attempt at a task.
pub open spec fn attempt_fact(
    s: StateV,
    attempt: int,
    status: Seq<char>,
    started_at: Seq<char>,
    finished_at: Seq<char>,
    shown: PreviewV,
    error: Option<Seq<char>>,
) -> JValue {
    let external = task::external_id(s);
    fact_json(
        "task_attempt_"@ + external + "_"@ + text::decimal(attempt as nat),
        attempt_text(attempt, status, shown.preview),
        "task_attempt"@,
        json::jtexts(seq![s.agent_id, external]),
        json::jtexts(seq!["agent_attempt"@, "task:"@ + external]),
        with_model(
            with_agent(
                task_entries(s).insert("attempt"@, JValue::Int(attempt)).insert(
                    "status"@,
                    JValue::Str(status),
                ),
                s,
            ),
            s,
        ).insert("started_at"@, JValue::Str(started_at)).insert(
            "finished_at"@,
            JValue::Str(finished_at),
        ).insert("tool_trace"@, json::jtexts(trace_marks(s.tool_trace))).insert(
            "result_preview"@,
            JValue::Str(shown.preview),
        ).insert("result_truncated"@, JValue::Bool(shown.truncated)).insert(
            "error"@,
            nullable(error),
        ),
    )
}

/// The fact about one attempt at a task.
pub fn canonical_attempt_fact(
    state: &TaskState,
    attempt: u32,
    status: &str,
    started_at: &str,
    finished_at: &str,
    shown: &Preview,
    error: Option<&str>,
) -> (r: Json)
    ensures
        r@ == attempt_fact(
            state@,
            attempt as int,
            status@,
            started_at@,
            finished_at@,
            shown@,
            text::opt_slice(error),
        ),
{
    let external = state.external_or_task_id();
    let mut fact = "Attempt ".to_owned();
    fact.append(decimal_of(attempt as u64).as_str());
    fact.append(" status=");
    fact.append(status);
    if shown.preview.as_str().unicode_len() != 0 {
        fact.append("\n");
        fact.append(shown.preview.as_str());
    }
    let mut m = start_metadata(state);
    put_number(&mut m, "attempt", attempt);
    put_text(&mut m, "status", status);
    put_agent(&mut m, state);
    put_model(&mut m, state);
    put_text(&mut m, "started_at", started_at);
    put_text(&mut m, "finished_at", finished_at);
    let marks = tool_trace_metadata(state.tool_trace.as_slice());
    put(&mut m, "tool_trace", Json::texts(&marks));
    put_text(&mut m, "result_preview", shown.preview.as_str());
    put(&mut m, "result_truncated", Json::Bool(shown.truncated));
    put_opt(&mut m, "error", error);
    let id = numbered("task_attempt_", external, "_", attempt);
    let tag = prefixed("task:", external);
    fact_value(
        id.as_str(),
        fact.as_str(),
        "task_attempt",
        two_texts(state.agent_id.as_str(), external),
        two_texts("agent_attempt", tag.as_str()),
        m,
    )
}

/// The text of a review.
pub open spec fn review_text(attempt: int, verdict: Seq<char>, reason: Option<Seq<char>>) -> Seq<
    char,
> {
    let head = "Review attempt "@ + text::decimal(attempt as nat) + ": "@ + verdict;
    match reason {
        Some(why) if why.len() > 0 => head + " ("@ + why + ")"@,
        _ => head,
    }
}

/// The fact about one review of a task.
pub open spec fn review_fact(
    s: StateV,
    attempt: int,
    verdict: Seq<char>,
    reason: Option<Seq<char>>,
    reviewed_at: Seq<char>,
) -> JValue {
    let external = task::external_id(s);
    fact_json(
        "task_review_"@ + external + "_"@ + text::decimal(attempt as nat),
        review_text(attempt, verdict, reason),
        "task_review"@,
        json::jtexts(seq![s.agent_id, external]),
        json::jtexts(seq!["agent_review"@, "task:"@ + external]),
        with_model(
            with_agent(
                task_entries(s).insert("attempt"@, JValue::Int(attempt)).insert(
                    "verdict"@,
                    JValue::Str(verdict),
                ).insert("reason"@, nullable(reason)),
                s,
            ),
            s,
        ).insert("reviewed_at"@, JValue::Str(reviewed_at)),
    )
}

/// The fact about one review of a task.
pub fn canonical_review_fact(
    state: &TaskState,
    attempt: u32,
    verdict: &str,
    reason: Option<&str>,
    reviewed_at: &str,
) -> (r: Json)
    ensures
        r@ == review_fact(
            state@,
            attempt as int,
            verdict@,
            text::opt_slice(reason),
            reviewed_at@,
        ),
{
    let external = state.external_or_task_id();
    let mut fact = "Review attempt ".to_owned();
    fact.append(decimal_of(attempt as u64).as_str());
    fact.append(": ");
    fact.append(verdict);
    match reason {
        Some(why) => {
            if why.unicode_len() != 0 {
                fact.append(" (");
                fact.append(why);
                fact.append(")");
            }
        },
        None => {},
    }
    let mut m = start_metadata(state);
    put_number(&mut m, "attempt", attempt);
    put_text(&mut m, "verdict", verdict);
    put_opt(&mut m, "reason", reason);
    put_agent(&mut m, state);
    put_model(&mut m, state);
    put_text(&mut m, "reviewed_at", reviewed_at);
    let id = numbered("task_review_", external, "_", attempt);
    let tag = prefixed("task:", external);
    fact_value(
        id.as_str(),
        fact.as_str(),
        "task_review",
        two_texts(state.agent_id.as_str(), external),
        two_texts("agent_review", tag.as_str()),
        m,
    )
}

/// The name of a kind of deliverable, where there is one.
pub open spec fn kind_text(kind: Option<DeliverableKind>) -> Option<Seq<char>> {
    match kind {
        Some(k) => Some(task::kind_name(k)),
        None => None,
    }
}

/// The fact about a task's result.
pub open spec fn result_fact(s: StateV, result: Seq<char>) -> JValue {
    let external = task::external_id(s);
    fact_json(
        "task_result_"@ + external,
        preview(result),
        "task_result"@,
        json::jtexts(seq![]),
        json::jtexts(seq!["agent_result"@, "task:"@ + external]),
        with_outcome(
            task_entries(s).insert("status"@, JValue::Str(task::status_name(s.status))).insert(
                "complete"@,
                JValue::Bool(true),
            ).insert("summary"@, JValue::Str(summary(result))).insert(
                "result_truncated"@,
                JValue::Bool(preview(result) != result),
            ).insert("deliverable_fact_id"@, nullable(s.deliverable_fact_id)).insert(
                "deliverable_kind"@,
                nullable(kind_text(s.deliverable_kind)),
            ).insert("deliverable_complete"@, JValue::Bool(s.deliverable_fact_id is Some)),
            s,
        ),
    )
}

/// The fact about a task's result.
pub fn canonical_result_fact(result: &str, state: &TaskState) -> (r: Json)
    ensures
        r@ == result_fact(state@, result@),
{
    let external = state.external_or_task_id();
    let shown = preview_of(result);
    let summary = summarize_text(result);
    let status = state.status.to_text();
    let kind = match state.deliverable_kind {
        Some(k) => Some(k.as_str()),
        None => None,
    };
    let mut m = start_metadata(state);
    put_text(&mut m, "status", status.as_str());
    put(&mut m, "complete", Json::Bool(true));
    put_text(&mut m, "summary", summary.as_str());
    put(&mut m, "result_truncated", Json::Bool(shown.truncated));
    put_opt(&mut m, "deliverable_fact_id", as_slice(&state.deliverable_fact_id));
    put_opt(&mut m, "deliverable_kind", kind);
    put(&mut m, "deliverable_complete", Json::Bool(state.deliverable_fact_id.is_some()));
    put_outcome(&mut m, state);
    let id = prefixed("task_result_", external);
    let tag = prefixed("task:", external);
    fact_value(
        id.as_str(),
        shown.preview.as_str(),
        "task_result",
        no_texts(),
        two_texts("agent_result", tag.as_str()),
        m,
    )
}

/// The fact that a task's deliverable is.
pub open spec fn deliverable_fact(
    s: StateV,
    result: Seq<char>,
    kind: DeliverableKind,
    source: Seq<char>,
) -> JValue {
    let external = task::external_id(s);
    let k = task::kind_name(kind);
    fact_json(
        "task_deliverable_"@ + external,
        result,
        "task_deliverable"@,
        json::jtexts(seq![]),
        json::jtexts(seq!["agent_result"@, "task:"@ + external, "deliverable:"@ + k]),
        with_outcome(
            task_entries(s).insert("deliverable_kind"@, JValue::Str(k)).insert(
                "artifact_role"@,
                JValue::Str("terminal"@),
            ).insert("complete"@, JValue::Bool(true)).insert("source"@, JValue::Str(source)).insert(
                "content_family"@,
                JValue::Str(k),
            ).insert("status"@, JValue::Str(task::status_name(s.status))),
            s,
        ),
    )
}

/// The fact that a task's deliverable is.
pub fn canonical_deliverable_fact(
    result: &str,
    state: &TaskState,
    kind: DeliverableKind,
    source: &str,
) -> (r: Json)
    ensures
        r@ == deliverable_fact(state@, result@, kind, source@),
{
    let external = state.external_or_task_id();
    let k = kind.as_str();
    let status = state.status.to_text();
    let mut m = start_metadata(state);
    put_text(&mut m, "deliverable_kind", k);
    put_text(&mut m, "artifact_role", "terminal");
    put(&mut m, "complete", Json::Bool(true));
    put_text(&mut m, "source", source);
    put_text(&mut m, "content_family", k);
    put_text(&mut m, "status", status.as_str());
    put_outcome(&mut m, state);
    let id = prefixed("task_deliverable_", external);
    let tag = prefixed("task:", external);
    let kind_tag = prefixed("deliverable:", k);
    fact_value(
        id.as_str(),
        result,
        "task_deliverable",
        no_texts(),
        three_texts("agent_result", tag.as_str(), kind_tag.as_str()),
        m,
    )
}

/// The fact about the work on a task.
pub open spec fn session_fact(s: StateV, session_text: Seq<char>) -> JValue {
    let external = task::external_id(s);
    fact_json(
        "task_session_"@ + external,
        session_text,
        "task_session"@,
        json::jtexts(seq![s.agent_id, external]),
        json::jtexts(seq!["agent_session"@, "task:"@ + external]),
        with_outcome(
            task_entries(s).insert("status"@, JValue::Str(task::status_name(s.status))),
            s,
        ),
    )
}

/// The fact about the work on a task.
pub fn canonical_session_fact(session_text: &str, state: &TaskState) -> (r: Json)
    ensures
        r@ == session_fact(state@, session_text@),
{
    let external = state.external_or_task_id();
    let status = state.status.to_text();
    let mut m = start_metadata(state);
    put_text(&mut m, "status", status.as_str());
    put_outcome(&mut m, state);
    let id = prefixed("task_session_", external);
    let tag = prefixed("task:", external);
    fact_value(
        id.as_str(),
        session_text,
        "task_session",
        two_texts(state.agent_id.as_str(), external),
        two_texts("agent_session", tag.as_str()),
        m,
    )
}

/// A fact without metadata.
pub open spec fn plain_fact(
    fact: Seq<char>,
    kind: Seq<char>,
    id: Seq<char>,
    entities: JValue,
    tags: JValue,
) -> JValue {
    JValue::Obj(
        Map::<Seq<char>, JValue>::empty().insert("fact"@, JValue::Str(fact)).insert(
            "kind"@,
            JValue::Str(kind),
        ).insert("id"@, JValue::Str(id)).insert("session"@, JValue::Int(1)).insert(
            "entities"@,
            entities,
        ).insert("tags"@, tags),
    )
}

fn plain_value(fact: &str, kind: &str, id: &str, entities: Json, tags: Json) -> (r: Json)
    ensures
        r@ == plain_fact(fact@, kind@, id@, entities@, tags@),
{
    let mut e: Entries = Vec::new();
    put_text(&mut e, "fact", fact);
    put_text(&mut e, "kind", kind);
    put_text(&mut e, "id", id);
    put_number(&mut e, "session", 1);
    put(&mut e, "entities", entities);
    put(&mut e, "tags", tags);
    Json::Obj(e)
}

/// A result as older readers of memory look for it.
pub open spec fn legacy_result(external: Seq<char>, result: Seq<char>) -> JValue {
    plain_fact(
        preview(result),
        "fact"@,
        "result_"@ + external,
        json::jtexts(seq![]),
        json::jtexts(seq!["agent_result"@, "task:"@ + external]),
    )
}

pub fn legacy_result_fact(external: &str, result: &str) -> (r: Json)
    ensures
        r@ == legacy_result(external@, result@),
{
    let stored = persist_result_preview(result);
    let id = prefixed("result_", external);
    let tag = prefixed("task:", external);
    plain_value(
        stored.as_str(),
        "fact",
        id.as_str(),
        no_texts(),
        two_texts("agent_result", tag.as_str()),
    )
}

/// The work on a task as older readers of memory look for it.
pub open spec fn legacy_session(agent_id: Seq<char>, external: Seq<char>, session_text: Seq<char>) -> JValue {
    plain_fact(
        session_text,
        "action"@,
        "session_"@ + external,
        json::jtexts(seq![agent_id, external]),
        json::jtexts(seq!["agent_session"@, "task:"@ + external]),
    )
}

pub fn legacy_session_fact(agent_id: &str, external: &str, session_text: &str) -> (r: Json)
    ensures
        r@ == legacy_session(agent_id@, external@, session_text@),
{
    let id = prefixed("session_", external);
    let tag = prefixed("task:", external);
    plain_value(
        session_text,
        "action",
        id.as_str(),
        two_texts(agent_id, external),
        two_texts("agent_session", tag.as_str()),
    )
}

// ── Local records of failures ───────────────────────────────────────────

pub const FAILURE_RECORD_VERSION: u32 = 2;

pub const FAILURE_RECORD_SOURCE: &'static str = "local_task_failure_fallback";

/// A boolean, or null.
pub open spec fn nullable_bool(o: Option<bool>) -> JValue {
    match o {
        Some(b) => JValue::Bool(b),
        None => JValue::Null,
    }
}

/// What is written on disk of a task that failed.
pub open spec fn failure_record(
    s: StateV,
    written_at: Seq<char>,
    memory_persisted: bool,
    persistence_error: Option<Seq<char>>,
) -> JValue {
    let shown = match s.result {
        Some(result) => Some(preview(result)),
        None => None,
    };
    let truncated = match s.result {
        Some(result) => Some(preview(result) != result),
        None => None,
    };
    JValue::Obj(
        Map::<Seq<char>, JValue>::empty().insert(
            "schema_version"@,
            JValue::Int(FAILURE_RECORD_VERSION as int),
        ).insert("source"@, JValue::Str(FAILURE_RECORD_SOURCE@)).insert(
            "task_id"@,
            JValue::Str(task::external_id(s)),
        ).insert("task_fact_id"@, JValue::Str(task::fact_id(s))).insert(
            "agent_id"@,
            JValue::Str(s.agent_id),
        ).insert("work_key"@, JValue::Str(s.work_key)).insert(
            "context_key"@,
            JValue::Str(s.context_key),
        ).insert("swarm_id"@, JValue::Str(s.swarm_id)).insert("scope"@, JValue::Str(s.scope)).insert(
            "status"@,
            JValue::Str(task::status_name(s.status)),
        ).insert("phase"@, JValue::Str(s.phase)).insert("error"@, nullable(s.error)).insert(
            "started_at"@,
            JValue::Str(s.started_at),
        ).insert("finished_at"@, nullable(s.finished_at)).insert(
            "written_at"@,
            JValue::Str(written_at),
        ).insert("memory_persisted"@, JValue::Bool(memory_persisted)).insert(
            "persistence_error"@,
            nullable(persistence_error),
        ).insert("result_preview"@, nullable(shown)).insert(
            "result_truncated"@,
            nullable_bool(truncated),
        ),
    )
}

/// What is written on disk of a task that failed.
pub fn local_failure_record(
    state: &TaskState,
    written_at: &str,
    memory_persisted: bool,
    persistence_error: Option<&str>,
) -> (r: Json)
    ensures
        r@ == failure_record(
            state@,
            written_at@,
            memory_persisted,
            text::opt_slice(persistence_error),
        ),
{
    let status = state.status.to_text();
    let mut e: Entries = Vec::new();
    put_number(&mut e, "schema_version", FAILURE_RECORD_VERSION);
    put_text(&mut e, "source", FAILURE_RECORD_SOURCE);
    put_text(&mut e, "task_id", state.external_or_task_id());
    put_text(&mut e, "task_fact_id", state.task_fact_or_task_id());
    put_text(&mut e, "agent_id", state.agent_id.as_str());
    put_text(&mut e, "work_key", state.work_key.as_str());
    put_text(&mut e, "context_key", state.context_key.as_str());
    put_text(&mut e, "swarm_id", state.swarm_id.as_str());
    put_text(&mut e, "scope", state.scope.as_str());
    put_text(&mut e, "status", status.as_str());
    put_text(&mut e, "phase", state.phase.as_str());
    put_opt(&mut e, "error", as_slice(&state.error));
    put_text(&mut e, "started_at", state.started_at.as_str());
    put_opt(&mut e, "finished_at", as_slice(&state.finished_at));
    put_text(&mut e, "written_at", written_at);
    put(&mut e, "memory_persisted", Json::Bool(memory_persisted));
    put_opt(&mut e, "persistence_error", persistence_error);
    match &state.result {
        Some(result) => {
            let shown = preview_of(result.as_str());
            put_text(&mut e, "result_preview", shown.preview.as_str());
            put(&mut e, "result_truncated", Json::Bool(shown.truncated));
        },
        None => {
            put(&mut e, "result_preview", Json::Null);
            put(&mut e, "result_truncated", Json::Null);
        },
    }
    Json::Obj(e)
}

/// A character that a file name can have.
pub open spec fn is_name_char(c: char) -> bool {
    'a' <= c <= 'z' || 'A' <= c <= 'Z' || '0' <= c <= '9' || c == '-' || c == '_'
}

/// An id as a file name.
pub open spec fn safe_name(id: Seq<char>) -> Seq<char> {
    if id.len() == 0 {
        "unknown"@
    } else {
        id.map_values(
            |c: char|
                if is_name_char(c) {
                    c
                } else {
                    '_'
                },
        )
    }
}

/// An id as a file name.
pub fn safe_failure_artifact_name(id: &str) -> (r: String)
    ensures
        r@ == safe_name(id@),
{
    let chars = crate::text::chars_of(id);
    let mut out = String::new();
    let mut i: usize = 0;
    while i < chars.len()
        invariant
            i <= chars.len(),
            chars@ == id@,
            out@.len() == i,
            forall|k: int|
                0 <= k < i ==> #[trigger] out@[k] == (if is_name_char(id@[k]) {
                    id@[k]
                } else {
                    '_'
                }),
        decreases chars.len() - i,
    {
        let c = chars[i];
        if ('a' <= c && c <= 'z') || ('A' <= c && c <= 'Z') || ('0' <= c && c <= '9') || c == '-'
            || c == '_' {
            out.push(c);
        } else {
            out.push('_');
        }
        i = i + 1;
    }
    if chars.len() == 0 {
        return "unknown".to_owned();
    }
    assert(out@ =~= safe_name(id@));
    out
}

/// A file name never leads out of its directory: it has no separator and no dot in it.
pub proof fn law_safe_name_stays_in_its_directory(id: Seq<char>)
    ensures
        safe_name(id).len() > 0,
        forall|i: int| 0 <= i < safe_name(id).len() ==> is_name_char(#[trigger] safe_name(id)[i]),
{
    reveal_strlit("unknown");
}

/// The name of the file that records a task's failure.
pub fn failure_file_name(state: &TaskState) -> (r: String)
    ensures
        r@ == "task_failure_"@ + safe_name(task::external_id(state@)) + ".json"@,
{
    let safe = safe_failure_artifact_name(state.external_or_task_id());
    let mut out = "task_failure_".to_owned();
    out.append(safe.as_str());
    out.append(".json");
    out
}

// ── Laws ────────────────────────────────────────────────────────────────

proof fn lemma_fact_keys()
    ensures
        "id"@.len() == 2,
        "fact"@.len() == 4 && "fact"@[0] == 'f',
        "kind"@.len() == 4 && "kind"@[0] == 'k',
        "session"@.len() == 7,
        "entities"@.len() == 8 && "entities"@[0] == 'e',
        "tags"@.len() == 4 && "tags"@[0] == 't',
        "metadata"@.len() == 8 && "metadata"@[0] == 'm',
{
    reveal_strlit("id");
    reveal_strlit("fact");
    reveal_strlit("kind");
    reveal_strlit("session");
    reveal_strlit("entities");
    reveal_strlit("tags");
    reveal_strlit("metadata");
}

proof fn lemma_metadata_keys()
    ensures
        "task_fact_id"@.len() == 12 && "task_fact_id"@[0] == 't',
        "task_id"@.len() == 7 && "task_id"@[0] == 't',
        "work_key"@.len() == 8 && "work_key"@[0] == 'w',
        "context_key"@.len() == 11 && "context_key"@[0] == 'c',
        "model_used"@.len() == 10 && "model_used"@[0] == 'm',
        "profile_used"@.len() == 12 && "profile_used"@[0] == 'p',
        "backend_used"@.len() == 12 && "backend_used"@[0] == 'b',
        "agent_id"@.len() == 8 && "agent_id"@[0] == 'a',
        "swarm_id"@.len() == 8 && "swarm_id"@[0] == 's',
        "phase"@.len() == 5 && "phase"@[0] == 'p',
        "iteration"@.len() == 9,
        "shell_spent"@.len() == 11 && "shell_spent"@[0] == 's',
        "started_at"@.len() == 10 && "started_at"@[0] == 's',
        "finished_at"@.len() == 11 && "finished_at"@[0] == 'f',
        "error"@.len() == 5 && "error"@[0] == 'e',
        "tool_trace"@.len() == 10 && "tool_trace"@[0] == 't',
        "attempt"@.len() == 7 && "attempt"@[0] == 'a',
        "status"@.len() == 6 && "status"@[0] == 's' && "status"@[1] == 't',
        "result_preview"@.len() == 14 && "result_preview"@[0] == 'r',
        "result_truncated"@.len() == 16 && "result_truncated"@[0] == 'r',
        "verdict"@.len() == 7 && "verdict"@[0] == 'v',
        "reason"@.len() == 6 && "reason"@[0] == 'r',
        "reviewed_at"@.len() == 11 && "reviewed_at"@[0] == 'r',
        "complete"@.len() == 8 && "complete"@[0] == 'c',
        "summary"@.len() == 7 && "summary"@[0] == 's',
        "deliverable_fact_id"@.len() == 19,
        "deliverable_kind"@.len() == 16 && "deliverable_kind"@[0] == 'd',
        "deliverable_complete"@.len() == 20,
        "artifact_role"@.len() == 13,
        "source"@.len() == 6 && "source"@[0] == 's' && "source"@[1] == 'o',
        "content_family"@.len() == 14 && "content_family"@[0] == 'c',
{
    reveal_strlit("task_fact_id");
    reveal_strlit("task_id");
    reveal_strlit("work_key");
    reveal_strlit("context_key");
    reveal_strlit("model_used");
    reveal_strlit("profile_used");
    reveal_strlit("backend_used");
    reveal_strlit("agent_id");
    reveal_strlit("swarm_id");
    reveal_strlit("phase");
    reveal_strlit("iteration");
    reveal_strlit("shell_spent");
    reveal_strlit("started_at");
    reveal_strlit("finished_at");
    reveal_strlit("error");
    reveal_strlit("tool_trace");
    reveal_strlit("attempt");
    reveal_strlit("status");
    reveal_strlit("result_preview");
    reveal_strlit("result_truncated");
    reveal_strlit("verdict");
    reveal_strlit("reason");
    reveal_strlit("reviewed_at");
    reveal_strlit("complete");
    reveal_strlit("summary");
    reveal_strlit("deliverable_fact_id");
    reveal_strlit("deliverable_kind");
    reveal_strlit("deliverable_complete");
    reveal_strlit("artifact_role");
    reveal_strlit("source");
    reveal_strlit("content_family");
}

proof fn lemma_record_keys()
    ensures
        "schema_version"@.len() == 14 && "schema_version"@[0] == 's',
        "source"@.len() == 6 && "source"@[1] == 'o',
        "task_id"@.len() == 7,
        "task_fact_id"@.len() == 12,
        "agent_id"@.len() == 8 && "agent_id"@[0] == 'a',
        "work_key"@.len() == 8 && "work_key"@[0] == 'w',
        "context_key"@.len() == 11 && "context_key"@[0] == 'c',
        "swarm_id"@.len() == 8 && "swarm_id"@[0] == 's',
        "scope"@.len() == 5 && "scope"@[0] == 's',
        "status"@.len() == 6 && "status"@[1] == 't',
        "phase"@.len() == 5 && "phase"@[0] == 'p',
        "error"@.len() == 5 && "error"@[0] == 'e',
        "started_at"@.len() == 10 && "started_at"@[0] == 's',
        "finished_at"@.len() == 11 && "finished_at"@[0] == 'f',
        "written_at"@.len() == 10 && "written_at"@[0] == 'w',
        "memory_persisted"@.len() == 16 && "memory_persisted"@[0] == 'm',
        "persistence_error"@.len() == 17,
        "result_preview"@.len() == 14 && "result_preview"@[0] == 'r',
        "result_truncated"@.len() == 16 && "result_truncated"@[0] == 'r',
{
    reveal_strlit("schema_version");
    reveal_strlit("source");
    reveal_strlit("task_id");
    reveal_strlit("task_fact_id");
    reveal_strlit("agent_id");
    reveal_strlit("work_key");
    reveal_strlit("context_key");
    reveal_strlit("swarm_id");
    reveal_strlit("scope");
    reveal_strlit("status");
    reveal_strlit("phase");
    reveal_strlit("error");
    reveal_strlit("started_at");
    reveal_strlit("finished_at");
    reveal_strlit("written_at");
    reveal_strlit("memory_persisted");
    reveal_strlit("persistence_error");
    reveal_strlit("result_preview");
    reveal_strlit("result_truncated");
}

/// What is kept of a result begins as the result does: all of it up to 4000 characters, the first
/// 4000 of a longer one, and what is not said to be cut is whole.
pub proof fn law_preview_begins_as_the_result(s: Seq<char>)
    ensures
        s.len() <= 4000 ==> preview_view(s).preview == s && !preview_view(s).truncated,
        s.len() > 4000 ==> text::has_prefix(preview_view(s).preview, s.take(4000)),
        !preview_view(s).truncated ==> preview_view(s).preview == s,
        s.len() > 4015 ==> preview_view(s).truncated,
        s.len() <= 160 ==> summary(s) == s,
        s.len() > 160 ==> text::has_prefix(summary(s), s.take(160)),
{
    if s.len() > 4000 {
        let p = preview(s);
        let head = s.take(4000);
        reveal_strlit("\n...[truncated]");
        assert(p.subrange(0, head.len() as int) =~= head);
        assert(p.len() == 4015);
    }
    if s.len() > 160 {
        let head = s.take(160);
        assert(summary(s).subrange(0, head.len() as int) =~= head);
    }
}

/// A fact is what it was made of: its id, text and kind, and its metadata.
pub proof fn law_fact_holds_its_parts(
    id: Seq<char>,
    fact: Seq<char>,
    kind: Seq<char>,
    entities: JValue,
    tags: JValue,
    metadata: Map<Seq<char>, JValue>,
    field: Seq<char>,
)
    ensures
        ({
            let v = fact_json(id, fact, kind, entities, tags, metadata);
            &&& json::jget_str(v, "id"@) == Some(id)
            &&& json::jget_str(v, "fact"@) == Some(fact)
            &&& json::jget_str(v, "kind"@) == Some(kind)
            &&& json::jget(v, "entities"@) == Some(entities)
            &&& json::jget(v, "tags"@) == Some(tags)
            &&& metadata_text(v, field) == json::jget_str(JValue::Obj(metadata), field)
        }),
{
    lemma_fact_keys();
}

/// Whether a fact says which task it is about: the task's fact and id, where it works and with
/// what.
pub open spec fn names_its_task(v: JValue, s: StateV) -> bool {
    &&& metadata_text(v, "task_fact_id"@) == Some(task::fact_id(s))
    &&& metadata_text(v, "task_id"@) == Some(task::external_id(s))
    &&& metadata_text(v, "work_key"@) == Some(s.work_key)
    &&& metadata_text(v, "context_key"@) == Some(s.context_key)
    &&& metadata_text(v, "model_used"@) == Some(s.model_current)
}

/// The fact of an attempt tells of that attempt: its task, its status, its error, and what it gave.
pub proof fn law_attempt_fact_tells_of_its_attempt(
    s: StateV,
    attempt: int,
    status: Seq<char>,
    started_at: Seq<char>,
    finished_at: Seq<char>,
    shown: PreviewV,
    error: Option<Seq<char>>,
)
    ensures
        ({
            let v = attempt_fact(s, attempt, status, started_at, finished_at, shown, error);
            &&& names_its_task(v, s)
            &&& json::jget_str(v, "kind"@) == Some("task_attempt"@)
            &&& json::jget_str(v, "id"@) matches Some(id) && text::has_prefix(
                id,
                "task_attempt_"@ + task::external_id(s),
            )
            &&& json::jget_str(v, "fact"@) matches Some(said) && text::has_suffix(
                said,
                shown.preview,
            ) && text::has_infix(said, status)
            &&& metadata_text(v, "status"@) == Some(status)
            &&& metadata_text(v, "error"@) == error
            &&& metadata_text(v, "result_preview"@) == Some(shown.preview)
            &&& metadata_text(v, "agent_id"@) == Some(s.agent_id)
            &&& metadata_text(v, "swarm_id"@) == Some(s.swarm_id)
            &&& metadata_text(v, "started_at"@) == Some(started_at)
            &&& metadata_text(v, "finished_at"@) == Some(finished_at)
            &&& json::jat(json::jat(v, "metadata"@), "attempt"@) == JValue::Int(attempt)
            &&& json::jat(json::jat(v, "metadata"@), "result_truncated"@) == JValue::Bool(
                shown.truncated,
            )
        }),
{
    lemma_fact_keys();
    lemma_metadata_keys();
    let id = "task_attempt_"@ + task::external_id(s) + "_"@ + text::decimal(attempt as nat);
    let p = "task_attempt_"@ + task::external_id(s);
    assert(id.subrange(0, p.len() as int) =~= p);
    let first = "Attempt "@ + text::decimal(attempt as nat) + " status="@;
    let head = first + status;
    let said = attempt_text(attempt, status, shown.preview);
    if shown.preview.len() == 0 {
        text::lemma_infix(first, status, seq![]);
        assert(said.subrange(said.len() - shown.preview.len(), said.len() as int)
            =~= shown.preview);
    } else {
        assert(said =~= first + status + ("\n"@ + shown.preview));
        text::lemma_infix(first, status, "\n"@ + shown.preview);
        assert(said.subrange(said.len() - shown.preview.len(), said.len() as int)
            =~= shown.preview);
    }
}

/// The fact of a review tells of that review: its task, its verdict and its reason.
pub proof fn law_review_fact_tells_of_its_review(
    s: StateV,
    attempt: int,
    verdict: Seq<char>,
    reason: Option<Seq<char>>,
    reviewed_at: Seq<char>,
)
    ensures
        ({
            let v = review_fact(s, attempt, verdict, reason, reviewed_at);
            &&& names_its_task(v, s)
            &&& json::jget_str(v, "kind"@) == Some("task_review"@)
            &&& json::jget_str(v, "id"@) matches Some(id) && text::has_prefix(
                id,
                "task_review_"@ + task::external_id(s),
            )
            &&& json::jget_str(v, "fact"@) matches Some(said) && text::has_infix(said, verdict) && (
            reason matches Some(why) ==> text::has_infix(said, why))
            &&& metadata_text(v, "verdict"@) == Some(verdict)
            &&& metadata_text(v, "reason"@) == reason
            &&& metadata_text(v, "reviewed_at"@) == Some(reviewed_at)
            &&& json::jat(json::jat(v, "metadata"@), "attempt"@) == JValue::Int(attempt)
        }),
{
    lemma_fact_keys();
    lemma_metadata_keys();
    let id = "task_review_"@ + task::external_id(s) + "_"@ + text::decimal(attempt as nat);
    let p = "task_review_"@ + task::external_id(s);
    assert(id.subrange(0, p.len() as int) =~= p);
    let first = "Review attempt "@ + text::decimal(attempt as nat) + ": "@;
    let head = first + verdict;
    text::lemma_infix(first, verdict, seq![]);
    match reason {
        Some(why) => {
            if why.len() > 0 {
                let said = head + " ("@ + why + ")"@;
                assert(said =~= first + verdict + (" ("@ + why + ")"@));
                text::lemma_infix(first, verdict, " ("@ + why + ")"@);
                text::lemma_infix(head + " ("@, why, ")"@);
            } else {
                text::lemma_infix(head, why, seq![]);
                assert(head + why =~= head);
            }
        },
        None => {},
    }
}

/// The fact of a result holds the result: as much of it as a preview does, with the status of the
/// task, its error and its deliverable.
pub proof fn law_result_fact_holds_the_result(s: StateV, result: Seq<char>)
    ensures
        ({
            let v = result_fact(s, result);
            &&& names_its_task(v, s)
            &&& json::jget_str(v, "kind"@) == Some("task_result"@)
            &&& json::jget_str(v, "id"@) == Some("task_result_"@ + task::external_id(s))
            &&& result.len() <= 4000 ==> json::jget_str(v, "fact"@) == Some(result)
            &&& json::jget_str(v, "fact"@) == Some(preview_view(result).preview)
            &&& metadata_text(v, "status"@) == Some(task::status_name(s.status))
            &&& metadata_text(v, "error"@) == s.error
            &&& metadata_text(v, "finished_at"@) == s.finished_at
            &&& metadata_text(v, "started_at"@) == Some(s.started_at)
            &&& metadata_text(v, "deliverable_fact_id"@) == s.deliverable_fact_id
            &&& result.len() <= 160 ==> metadata_text(v, "summary"@) == Some(result)
            &&& json::jat(json::jat(v, "metadata"@), "shell_spent"@) == s.shell_spent.number
            &&& json::jat(json::jat(v, "metadata"@), "result_truncated"@) == JValue::Bool(
                preview_view(result).truncated,
            )
        }),
{
    lemma_fact_keys();
    lemma_metadata_keys();
}

/// The fact of a deliverable holds the whole result, however long, and says that it is final and
/// where it came from.
pub proof fn law_deliverable_fact_holds_the_whole_result(
    s: StateV,
    result: Seq<char>,
    kind: DeliverableKind,
    source: Seq<char>,
)
    ensures
        ({
            let v = deliverable_fact(s, result, kind, source);
            &&& names_its_task(v, s)
            &&& json::jget_str(v, "fact"@) == Some(result)
            &&& json::jget_str(v, "kind"@) == Some("task_deliverable"@)
            &&& json::jget_str(v, "id"@) == Some("task_deliverable_"@ + task::external_id(s))
            &&& metadata_text(v, "source"@) == Some(source)
            &&& metadata_text(v, "artifact_role"@) == Some("terminal"@)
            &&& metadata_text(v, "deliverable_kind"@) matches Some(name) && task::kind_named(name)
                == Some(kind)
            &&& metadata_text(v, "status"@) == Some(task::status_name(s.status))
            &&& json::jat(json::jat(v, "metadata"@), "complete"@) == JValue::Bool(true)
        }),
{
    lemma_fact_keys();
    lemma_metadata_keys();
    task::law_kind_name_parses_back(kind);
}

/// The fact of the work on a task holds the account of it, with the status of the task.
pub proof fn law_session_fact_holds_the_account(s: StateV, account: Seq<char>)
    ensures
        ({
            let v = session_fact(s, account);
            &&& names_its_task(v, s)
            &&& json::jget_str(v, "fact"@) == Some(account)
            &&& json::jget_str(v, "kind"@) == Some("task_session"@)
            &&& json::jget_str(v, "id"@) == Some("task_session_"@ + task::external_id(s))
            &&& metadata_text(v, "status"@) == Some(task::status_name(s.status))
            &&& metadata_text(v, "error"@) == s.error
        }),
{
    lemma_fact_keys();
    lemma_metadata_keys();
}

/// Older readers find the same result and the same account.
pub proof fn law_legacy_facts_hold_the_same(
    agent_id: Seq<char>,
    external: Seq<char>,
    result: Seq<char>,
    account: Seq<char>,
)
    ensures
        json::jget_str(legacy_result(external, result), "fact"@) == Some(
            preview_view(result).preview,
        ),
        json::jget_str(legacy_result(external, result), "id"@) == Some("result_"@ + external),
        json::jget_str(legacy_session(agent_id, external, account), "fact"@) == Some(account),
        json::jget_str(legacy_session(agent_id, external, account), "id"@) == Some(
            "session_"@ + external,
        ),
{
    lemma_fact_keys();
}

/// The local record of a failure tells all that is known of it: the task, its status and error,
/// what its result was, and whether memory has it too.
pub proof fn law_failure_record_tells_what_failed(
    s: StateV,
    written_at: Seq<char>,
    memory_persisted: bool,
    persistence_error: Option<Seq<char>>,
)
    ensures
        ({
            let v = failure_record(s, written_at, memory_persisted, persistence_error);
            &&& json::jget_str(v, "task_id"@) == Some(task::external_id(s))
            &&& json::jget_str(v, "task_fact_id"@) == Some(task::fact_id(s))
            &&& json::jget_str(v, "agent_id"@) == Some(s.agent_id)
            &&& json::jget_str(v, "work_key"@) == Some(s.work_key)
            &&& json::jget_str(v, "context_key"@) == Some(s.context_key)
            &&& json::jget_str(v, "swarm_id"@) == Some(s.swarm_id)
            &&& json::jget_str(v, "scope"@) == Some(s.scope)
            &&& json::jget_str(v, "status"@) == Some(task::status_name(s.status))
            &&& json::jget_str(v, "phase"@) == Some(s.phase)
            &&& json::jget_str(v, "error"@) == s.error
            &&& json::jget_str(v, "started_at"@) == Some(s.started_at)
            &&& json::jget_str(v, "finished_at"@) == s.finished_at
            &&& json::jget_str(v, "written_at"@) == Some(written_at)
            &&& json::jat(v, "memory_persisted"@) == JValue::Bool(memory_persisted)
            &&& json::jget_str(v, "persistence_error"@) == persistence_error
            &&& s.result matches Some(r) ==> json::jget_str(v, "result_preview"@) == Some(
                preview_view(r).preview,
            )
            &&& s.result is None ==> json::jat(v, "result_preview"@) == JValue::Null
        }),
{
    lemma_record_keys();
}

/// Statuses are told apart by their names.
pub proof fn law_status_names_differ(a: task::TaskStatus, b: task::TaskStatus)
    requires
        task::status_name(a) == task::status_name(b),
    ensures
        a == b,
{
    reveal_strlit("pending");
    reveal_strlit("running");
    reveal_strlit("done");
    reveal_strlit("failed");
    reveal_strlit("partial_budget_overdraw");
    reveal_strlit("too_complex");
    assert("pending"@.len() == 7);
    assert("running"@.len() == 7);
    assert("done"@.len() == 4);
    assert("failed"@.len() == 6);
    assert("partial_budget_overdraw"@.len() == 23);
    assert("too_complex"@.len() == 11);
    assert("pending"@[0] == 'p');
    assert("running"@[0] == 'r');
}

/// A record of a task's outcome tells where it stood, what it took, with which model, and what its
/// tools did; what was said of it before stays.
pub proof fn law_outcome_is_told(m: Map<Seq<char>, JValue>, s: StateV)
    ensures
        ({
            let v = JValue::Obj(with_outcome(m, s));
            &&& json::jget_str(v, "phase"@) == Some(s.phase)
            &&& json::jget(v, "iteration"@) == Some(JValue::Int(s.iteration))
            &&& json::jget(v, "shell_spent"@) == Some(s.shell_spent.number)
            &&& json::jget_str(v, "started_at"@) == Some(s.started_at)
            &&& json::jget_str(v, "finished_at"@) == s.finished_at
            &&& json::jget_str(v, "error"@) == s.error
            &&& json::jget(v, "tool_trace"@) == Some(json::jtexts(trace_marks(s.tool_trace)))
            &&& json::jget_str(v, "model_used"@) == Some(s.model_current)
            &&& s.backend_current.len() > 0 ==> json::jget_str(v, "backend_used"@) == Some(
                s.backend_current,
            )
            &&& s.backend_current.len() == 0 ==> json::jget(v, "backend_used"@) == Some(JValue::Null)
            &&& json::jget_str(v, "profile_used"@) == profile(s.model_current)
            &&& json::jget(v, "status"@) == json::jget(JValue::Obj(m), "status"@)
            &&& json::jget(v, "task_id"@) == json::jget(JValue::Obj(m), "task_id"@)
        }),
{
    lemma_metadata_keys();
}

/// A model's profile is what stands before the first slash of its name; each use of a tool is
/// marked with how it went.
pub proof fn law_profile_stands_before_the_slash(p: Seq<char>, rest: Seq<char>, e: TraceV)
    requires
        p.len() > 0,
        !p.contains('/'),
    ensures
        profile(p + "/"@ + rest) == Some(p),
        e.success ==> trace_mark(e) == e.tool + ":ok"@,
        !e.success ==> trace_mark(e) == e.tool + ":error"@,
{
    reveal_strlit("/");
    let s = p + "/"@ + rest;
    let n = p.len() as int;
    assert(s.subrange(n, n + 1) =~= "/"@);
    assert(text::occurs_at(s, "/"@, n));
    text::lemma_find_from(s, "/"@, 0);
    let i = text::find(s, "/"@)->0;
    if i < n {
        assert(s.subrange(i, i + 1)[0] == "/"@[0]);
        assert(p[i] == '/');
    }
    assert(s.take(n) =~= p);
    reveal_strlit(":");
    reveal_strlit("ok");
    reveal_strlit("error");
    reveal_strlit(":ok");
    reveal_strlit(":error");
    assert(":"@ + "ok"@ =~= ":ok"@);
    assert(":"@ + "error"@ =~= ":error"@);
    assert(e.tool + ":"@ + "ok"@ =~= e.tool + ":ok"@);
    assert(e.tool + ":"@ + "error"@ =~= e.tool + ":error"@);
}

/// Records are tagged with their task, and attempts and reviews are numbered.
pub proof fn law_records_are_tagged_with_their_task(
    s: StateV,
    attempt: int,
    said: Seq<char>,
    at: Seq<char>,
    shown: PreviewV,
    error: Option<Seq<char>>,
    kind: DeliverableKind,
)
    ensures
        ({
            let external = task::external_id(s);
            let a = attempt_fact(s, attempt, said, at, at, shown, error);
            let r = review_fact(s, attempt, said, error, at);
            let number = "_"@ + text::decimal(attempt as nat);
            &&& json::jget_str(a, "id"@) == Some("task_attempt_"@ + external + number)
            &&& json::jget_str(r, "id"@) == Some("task_review_"@ + external + number)
            &&& json::jget(a, "tags"@) == Some(
                json::jtexts(seq!["agent_attempt"@, "task:"@ + external]),
            )
            &&& json::jget(r, "tags"@) == Some(
                json::jtexts(seq!["agent_review"@, "task:"@ + external]),
            )
            &&& json::jget(a, "entities"@) == Some(json::jtexts(seq![s.agent_id, external]))
            &&& json::jget(r, "entities"@) == Some(json::jtexts(seq![s.agent_id, external]))
            &&& json::jget(result_fact(s, said), "tags"@) == Some(
                json::jtexts(seq!["agent_result"@, "task:"@ + external]),
            )
            &&& json::jget(session_fact(s, said), "tags"@) == Some(
                json::jtexts(seq!["agent_session"@, "task:"@ + external]),
            )
            &&& json::jget(deliverable_fact(s, said, kind, at), "tags"@) == Some(
                json::jtexts(
                    seq!["agent_result"@, "task:"@ + external, "deliverable:"@ + task::kind_name(kind)],
                ),
            )
            &&& json::jget(legacy_result(external, said), "tags"@) == Some(
                json::jtexts(seq!["agent_result"@, "task:"@ + external]),
            )
            &&& json::jget_str(legacy_result(external, said), "kind"@) == Some("fact"@)
            &&& json::jget_str(legacy_session(s.agent_id, external, said), "kind"@) == Some("action"@)
        }),
{
    lemma_fact_keys();
    let external = task::external_id(s);
    let number = "_"@ + text::decimal(attempt as nat);
    assert("task_attempt_"@ + external + "_"@ + text::decimal(attempt as nat) =~= "task_attempt_"@
        + external + number);
    assert("task_review_"@ + external + "_"@ + text::decimal(attempt as nat) =~= "task_review_"@
        + external + number);
}

/// What is cut off is said to be, and a name of plain characters is kept as it is.
pub proof fn law_cut_text_says_so(s: Seq<char>)
    ensures
        s.len() > 4000 ==> text::has_suffix(preview(s), "\n...[truncated]"@),
        s.len() > 160 ==> text::has_suffix(summary(s), "..."@),
        s.len() > 0 && (forall|i: int| 0 <= i < s.len() ==> is_name_char(#[trigger] s[i]))
            ==> safe_name(s) == s,
        s.len() == 0 ==> safe_name(s) == "unknown"@,
{
    if s.len() > 4000 {
        let p = preview(s);
        let e = "\n...[truncated]"@;
        assert(p.subrange(p.len() - e.len(), p.len() as int) =~= e);
    }
    if s.len() > 160 {
        let p = summary(s);
        let e = "..."@;
        assert(p.subrange(p.len() - e.len(), p.len() as int) =~= e);
    }
    if s.len() > 0 && (forall|i: int| 0 <= i < s.len() ==> is_name_char(#[trigger] s[i])) {
        assert(safe_name(s) =~= s);
    }
}

} // verus!
