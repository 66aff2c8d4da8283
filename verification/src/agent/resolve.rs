//! Finding the fact that a reference to a task means.

use vstd::prelude::*;
use vstd::string::*;

use crate::agent::facts;
use crate::agent::facts::task_metadata_string;
use crate::agent::persist;
use crate::client::memory;
use crate::client::memory::GetV;
use crate::client::memory::MemoryGetParams;
use crate::client::memory::MemoryQueryParams;
use crate::client::memory::QueryV;
use crate::json;
use crate::json::put_text;
use crate::json::JValue;
use crate::json::Json;
use crate::text;
use crate::text::same;

verus! {

/// A task that was found.
#[derive(Debug)]
pub struct ResolvedTask {
    /// The id of the fact that the task is.
    pub task_fact_id: String,
    /// The id that users know the task by, where it has one.
    pub external_task_id: Option<String>,
    /// What is to be done.
    pub fact: String,
    /// The whole fact.
    pub raw: Json,
}

pub ghost struct ResolvedV {
    pub task_fact_id: Seq<char>,
    pub external_task_id: Option<Seq<char>>,
    pub fact: Seq<char>,
    pub raw: JValue,
}

impl ResolvedTask {
    pub open spec fn view(&self) -> ResolvedV {
        ResolvedV {
            task_fact_id: self.task_fact_id@,
            external_task_id: text::opt_text(self.external_task_id),
            fact: self.fact@,
            raw: self.raw@,
        }
    }
}

/// A reference to a task, and who looks for it where.
#[derive(Debug)]
pub struct TaskReference {
    pub task_ref: String,
    pub agent_id: String,
    pub key: String,
    pub swarm_id: String,
}

pub ghost struct ReferenceV {
    pub task_ref: Seq<char>,
    pub agent_id: Seq<char>,
    pub key: Seq<char>,
    pub swarm_id: Seq<char>,
}

/// What to do next.
#[derive(Debug)]
pub enum ResolveAction {
    /// Look for the task by the id that users know.
    Query(MemoryQueryParams),
    Resolved(ResolvedTask),
    Failed(String),
}

pub ghost enum ResolveActionV {
    Query(QueryV),
    Resolved(ResolvedV),
    Failed(Seq<char>),
}

impl ResolveAction {
    pub open spec fn view(&self) -> ResolveActionV {
        match self {
            ResolveAction::Query(q) => ResolveActionV::Query(q@),
            ResolveAction::Resolved(t) => ResolveActionV::Resolved(t@),
            ResolveAction::Failed(e) => ResolveActionV::Failed(e@),
        }
    }
}

/// Who a task for an agent is aimed at.
pub open spec fn target_of(agent_id: Seq<char>) -> Seq<char> {
    "agent:"@ + agent_id
}

/// Whether a fact is aimed at a target: its own, or one of its list.
pub open spec fn aimed_at(fact: JValue, target: Seq<char>) -> bool {
    match json::jget(fact, "target"@) {
        Some(JValue::Str(s)) => s == target,
        Some(JValue::Arr(items)) => exists|i: int|
            0 <= i < items.len() && #[trigger] items[i] == JValue::Str(target),
        _ => false,
    }
}

/// Whether a fact is aimed at a target.
pub fn target_contains(fact: &Json, target: &str) -> (r: bool)
    ensures
        r == aimed_at(fact@, target@),
{
    match fact.get("target") {
        Some(Json::Str(s)) => same(s.as_str(), target),
        Some(Json::Arr(items)) => {
            let ghost all = json::items_view(items@);
            let mut i: usize = 0;
            while i < items.len()
                invariant
                    i <= items.len(),
                    all == json::items_view(items@),
                    json::jget(fact@, "target"@) == Some(JValue::Arr(all)),
                    forall|k: int| 0 <= k < i ==> #[trigger] all[k] != JValue::Str(target@),
                decreases items.len() - i,
            {
                assert(all[i as int] == items@[i as int]@);
                match &items[i] {
                    Json::Str(s) => {
                        if same(s.as_str(), target) {
                            assert(all[i as int] == JValue::Str(target@));
                            return true;
                        }
                    },
                    _ => {},
                }
                i = i + 1;
            }
            false
        },
        _ => false,
    }
}

/// The task that a fact is.
pub open spec fn task_in(fact: JValue, task_ref: Seq<char>) -> ResolvedV {
    ResolvedV {
        task_fact_id: match json::jget_str(fact, "id"@) {
            Some(id) => id,
            None => task_ref,
        },
        external_task_id: facts::metadata_text(fact, "task_id"@),
        fact: match json::jget_str(fact, "fact"@) {
            Some(s) => s,
            None => ""@,
        },
        raw: fact,
    }
}

fn read_task(fact: &Json, task_ref: &str) -> (r: ResolvedTask)
    ensures
        r@ == task_in(fact@, task_ref@),
{
    let task_fact_id = match fact.get_str("id") {
        Some(id) => id.to_owned(),
        None => task_ref.to_owned(),
    };
    let said = match fact.get_str("fact") {
        Some(s) => s.to_owned(),
        None => "".to_owned(),
    };
    ResolvedTask {
        task_fact_id,
        external_task_id: task_metadata_string(fact, "task_id"),
        fact: said,
        raw: fact.copy(),
    }
}

/// The fact in what memory gave for an id.
pub open spec fn unwrapped(value: JValue) -> JValue {
    match json::jget(value, "fact"@) {
        Some(f) => f,
        None => value,
    }
}

/// The search by the id that users know.
pub open spec fn external_search(t: ReferenceV) -> QueryV {
    memory::newest(
        t.key,
        t.agent_id,
        t.swarm_id,
        JValue::Obj(
            Map::<Seq<char>, JValue>::empty().insert("kind"@, JValue::Str("task"@)).insert(
                "target"@,
                JValue::Str(target_of(t.agent_id)),
            ).insert("metadata.task_id"@, JValue::Str(t.task_ref)),
        ),
        2,
    )
}

/// What follows the look-up of the reference as a fact's id.
pub open spec fn looked_up(t: ReferenceV, got: Option<JValue>) -> ResolveActionV {
    match got {
        Some(value) => {
            let fact = unwrapped(value);
            if json::jget_str(fact, "kind"@) == Some("task"@) {
                if aimed_at(fact, target_of(t.agent_id)) {
                    ResolveActionV::Resolved(task_in(fact, t.task_ref))
                } else {
                    ResolveActionV::Failed(
                        "TARGET_MISMATCH: task "@ + t.task_ref
                            + " exists but is not targeted at "@ + target_of(t.agent_id),
                    )
                }
            } else {
                ResolveActionV::Query(external_search(t))
            }
        },
        None => ResolveActionV::Query(external_search(t)),
    }
}

/// What follows the search: exactly one task must have been found.
pub open spec fn searched(t: ReferenceV, outcome: Result<JValue, Seq<char>>) -> ResolveActionV {
    match outcome {
        Err(e) => ResolveActionV::Failed(e),
        Ok(response) => {
            let found = persist::facts_in(response);
            if found.len() == 0 {
                ResolveActionV::Failed(
                    "NOT_FOUND: no task found for reference '"@ + t.task_ref + "'"@,
                )
            } else if found.len() == 1 {
                ResolveActionV::Resolved(task_in(found[0], t.task_ref))
            } else {
                ResolveActionV::Failed(
                    "AMBIGUOUS: multiple tasks found for reference '"@ + t.task_ref
                        + "' targeted at "@ + target_of(t.agent_id),
                )
            }
        },
    }
}

/// A task that is found by its fact's id is only ever taken by the agent that it is aimed at.
pub proof fn law_task_of_another_agent_is_refused(t: ReferenceV, value: JValue)
    requires
        json::jget_str(unwrapped(value), "kind"@) == Some("task"@),
        !aimed_at(unwrapped(value), target_of(t.agent_id)),
    ensures
        looked_up(t, Some(value)) is Failed,
{
}

impl TaskReference {
    pub open spec fn view(&self) -> ReferenceV {
        ReferenceV {
            task_ref: self.task_ref@,
            agent_id: self.agent_id@,
            key: self.key@,
            swarm_id: self.swarm_id@,
        }
    }

    /// The look-up of the reference as a fact's id.
    pub fn begin(&self) -> (r: MemoryGetParams)
        ensures
            r@ == (GetV {
                key: self@.key,
                agent_id: self@.agent_id,
                swarm_id: self@.swarm_id,
                fact_id: self@.task_ref,
            }),
    {
        MemoryGetParams {
            key: self.key.clone(),
            agent_id: self.agent_id.clone(),
            swarm_id: self.swarm_id.clone(),
            fact_id: self.task_ref.clone(),
        }
    }

    fn target(&self) -> (r: String)
        ensures
            r@ == target_of(self@.agent_id),
    {
        let mut out = "agent:".to_owned();
        out.append(self.agent_id.as_str());
        out
    }

    fn search(&self) -> (r: ResolveAction)
        ensures
            r@ == ResolveActionV::Query(external_search(self@)),
    {
        let target = self.target();
        let mut filter: Vec<(String, Json)> = Vec::new();
        put_text(&mut filter, "kind", "task");
        put_text(&mut filter, "target", target.as_str());
        put_text(&mut filter, "metadata.task_id", self.task_ref.as_str());
        ResolveAction::Query(
            MemoryQueryParams::newest(
                self.key.as_str(),
                self.agent_id.as_str(),
                self.swarm_id.as_str(),
                Json::Obj(filter),
                2,
            ),
        )
    }

    /// The look-up came to its end: with nothing, where it failed.
    pub fn on_got(&self, got: Option<Json>) -> (r: ResolveAction)
        ensures
            r@ == looked_up(self@, json::opt_owned_json(got)),
    {
        let value = match got {
            Some(value) => value,
            None => {
                return self.search();
            },
        };
        let fact = match value.get("fact") {
            Some(f) => f,
            None => &value,
        };
        let is_task = match fact.get_str("kind") {
            Some(kind) => same(kind, "task"),
            None => false,
        };
        if !is_task {
            return self.search();
        }
        let target = self.target();
        if target_contains(fact, target.as_str()) {
            ResolveAction::Resolved(read_task(fact, self.task_ref.as_str()))
        } else {
            let mut message = "TARGET_MISMATCH: task ".to_owned();
            message.append(self.task_ref.as_str());
            message.append(" exists but is not targeted at ");
            message.append(target.as_str());
            ResolveAction::Failed(message)
        }
    }

    /// The search came to its end.
    pub fn on_searched(&self, outcome: Result<Json, String>) -> (r: ResolveAction)
        ensures
            r@ == searched(
                self@,
                match outcome {
                    Ok(v) => Ok(v@),
                    Err(e) => Err(e@),
                },
            ),
    {
        let response = match outcome {
            Ok(response) => response,
            Err(e) => {
                return ResolveAction::Failed(e);
            },
        };
        let n: usize = match response.get_array("facts") {
            Some(items) => items.len(),
            None => 0,
        };
        if n == 0 {
            let mut message = "NOT_FOUND: no task found for reference '".to_owned();
            message.append(self.task_ref.as_str());
            message.append("'");
            return ResolveAction::Failed(message);
        }
        if n > 1 {
            let mut message = "AMBIGUOUS: multiple tasks found for reference '".to_owned();
            message.append(self.task_ref.as_str());
            message.append("' targeted at ");
            message.append(self.target().as_str());
            return ResolveAction::Failed(message);
        }
        match response.get_array("facts") {
            Some(items) => {
                assert(items@[0]@ == persist::facts_in(response@)[0]);
                ResolveAction::Resolved(read_task(&items[0], self.task_ref.as_str()))
            },
            None => ResolveAction::Failed("".to_owned()),
        }
    }
}

proof fn lemma_filter_keys()
    ensures
        "kind"@.len() == 4,
        "target"@.len() == 6,
        "metadata.task_id"@.len() == 16,
{
    reveal_strlit("kind");
    reveal_strlit("target");
    reveal_strlit("metadata.task_id");
}

/// A task that is aimed at the agent is found by its fact's id, and is what that fact says.
pub proof fn law_own_task_is_found(t: ReferenceV, value: JValue)
    requires
        json::jget_str(unwrapped(value), "kind"@) == Some("task"@),
        aimed_at(unwrapped(value), target_of(t.agent_id)),
    ensures
        looked_up(t, Some(value)) matches ResolveActionV::Resolved(found) && {
            let fact = unwrapped(value);
            &&& json::jget_str(fact, "fact"@) matches Some(said) ==> found.fact == said
            &&& json::jget_str(fact, "id"@) matches Some(id) ==> found.task_fact_id == id
            &&& found.external_task_id == facts::metadata_text(fact, "task_id"@)
            &&& found.raw == fact
        },
{
}

/// A reference that is no fact's id is looked for as the id that users know, among the tasks of
/// the agent; exactly one must be found, and it is what its fact says.
pub proof fn law_task_is_found_by_its_users_id(t: ReferenceV, response: JValue, e: Seq<char>)
    ensures
        looked_up(t, None) matches ResolveActionV::Query(q) && {
            &&& q.key == t.key && q.agent_id == t.agent_id && q.swarm_id == t.swarm_id
            &&& json::jget_str(q.filter, "metadata.task_id"@) == Some(t.task_ref)
            &&& json::jget_str(q.filter, "kind"@) == Some("task"@)
            &&& json::jget_str(q.filter, "target"@) matches Some(target) && text::has_suffix(
                target,
                t.agent_id,
            )
            &&& q.limit matches Some(n) && n >= 2
        },
        persist::facts_in(response).len() == 1 ==> (searched(t, Ok(response)) matches ResolveActionV::Resolved(
            found,
        ) && found.raw == persist::facts_in(response)[0] && (json::jget_str(
            found.raw,
            "fact"@,
        ) matches Some(said) ==> found.fact == said)),
        persist::facts_in(response).len() != 1 ==> (searched(t, Ok(response)) matches ResolveActionV::Failed(
            why,
        ) && text::has_infix(why, t.task_ref)),
        searched(t, Err(e)) == ResolveActionV::Failed(e),
{
    lemma_filter_keys();
    let target = target_of(t.agent_id);
    assert(target.subrange(target.len() - t.agent_id.len(), target.len() as int) =~= t.agent_id);
    text::lemma_infix("NOT_FOUND: no task found for reference '"@, t.task_ref, "'"@);
    let head = "AMBIGUOUS: multiple tasks found for reference '"@;
    let tail = "' targeted at "@ + target;
    assert(head + t.task_ref + "' targeted at "@ + target =~= head + t.task_ref + tail);
    text::lemma_infix(head, t.task_ref, tail);
}

/// A task is aimed at an agent that it names, alone or among others.
pub proof fn law_target_may_be_one_of_many(fact: JValue, items: Seq<JValue>, target: Seq<char>, k: int)
    ensures
        json::jget(fact, "target"@) == Some(JValue::Str(target)) ==> aimed_at(fact, target),
        json::jget(fact, "target"@) == Some(JValue::Arr(items)) && 0 <= k < items.len() && items[k]
            == JValue::Str(target) ==> aimed_at(fact, target),
        json::jget(fact, "target"@) is None ==> !aimed_at(fact, target),
{
}

/// A task goes by the id that it was asked by where its fact has none, and an answer may wrap the
/// fact; an answer that is no task is searched for by the user's id.
pub proof fn law_answer_may_wrap_the_task(t: ReferenceV, value: JValue, fact: JValue)
    ensures
        json::jget(value, "fact"@) == Some(fact) ==> unwrapped(value) == fact,
        json::jget(value, "fact"@) is None ==> unwrapped(value) == value,
        json::jget_str(fact, "id"@) is None ==> task_in(fact, t.task_ref).task_fact_id == t.task_ref,
        json::jget_str(fact, "fact"@) is None ==> task_in(fact, t.task_ref).fact == ""@,
        json::jget_str(unwrapped(value), "kind"@) != Some("task"@) ==> looked_up(t, Some(value))
            == looked_up(t, None) && looked_up(t, None) is Query,
        target_of(t.agent_id) == "agent:"@ + t.agent_id,
{
}

/// A task of another agent is refused by its name and by the agent's.
pub proof fn law_mismatch_names_task_and_agent(t: ReferenceV, value: JValue)
    requires
        json::jget_str(unwrapped(value), "kind"@) == Some("task"@),
        !aimed_at(unwrapped(value), target_of(t.agent_id)),
    ensures
        looked_up(t, Some(value)) matches ResolveActionV::Failed(why) && text::has_infix(
            why,
            t.task_ref,
        ) && text::has_suffix(why, target_of(t.agent_id)),
{
    let tail = " exists but is not targeted at "@ + target_of(t.agent_id);
    let why = "TARGET_MISMATCH: task "@ + t.task_ref + " exists but is not targeted at "@
        + target_of(t.agent_id);
    assert(why =~= "TARGET_MISMATCH: task "@ + t.task_ref + tail);
    text::lemma_infix("TARGET_MISMATCH: task "@, t.task_ref, tail);
    let target = target_of(t.agent_id);
    assert(why.subrange(why.len() - target.len(), why.len() as int) =~= target);
}

} // verus!
