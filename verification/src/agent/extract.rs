//! Facts that a model takes out of a task's description.

use vstd::prelude::*;
use vstd::string::*;

use crate::agent::execution;
use crate::agent::execution::ask_user;
use crate::agent::execution::ChatRequest;
use crate::json;
use crate::json::put;
use crate::json::put_text;
use crate::json::JValue;
use crate::json::Json;
use crate::llm::chat;
use crate::llm::chat::ToolDef;
use crate::text;
use crate::text::copy_strings;
use crate::text::same;

verus! {

/// The system prompt of an extraction.
pub const EXTRACT_SYSTEM: &'static str =
    "You are a fact extractor. Given a task description, extract atomic, self-contained facts.\n\nOutput a JSON object:\n{\n  \"facts\": [\n    {\n      \"id\": \"f_01\",\n      \"fact\": \"Self-contained fact text with exact values (names, numbers, dates)\",\n      \"kind\": \"fact|constraint|rule|decision|action_item|preference\",\n      \"entities\": [\"Entity1\", \"Entity2\"],\n      \"tags\": [\"tag1\"]\n    }\n  ]\n}\n\nRules:\n- ONE fact per item. Two pieces of info = two facts.\n- Preserve exact values: names, numbers, URLs, dates. Never paraphrase.\n- Use the most specific \"kind\": constraint > rule > decision > action_item > preference > fact.\n- \"entities\" = named things mentioned (people, services, APIs, databases, etc).\n- \"tags\" should capture domain topics.\n- Aim for thorough coverage — do not skip details.\n- Output ONLY valid JSON, no markdown fences.";

/// A fact as the model gave it.
#[derive(Debug)]
pub struct ExtractedFact {
    pub id: String,
    pub fact: String,
    pub kind: Option<String>,
    pub entities: Option<Vec<String>>,
    pub tags: Option<Vec<String>>,
}

/// A fact ready for memory.
#[derive(Debug)]
pub struct TaskFact {
    pub id: String,
    pub fact: String,
    pub kind: String,
    pub session: i32,
    pub entities: Vec<String>,
    pub tags: Vec<String>,
}

pub ghost struct TaskFactV {
    pub id: Seq<char>,
    pub fact: Seq<char>,
    pub kind: Seq<char>,
    pub session: int,
    pub entities: Seq<Seq<char>>,
    pub tags: Seq<Seq<char>>,
}

impl TaskFact {
    pub open spec fn view(&self) -> TaskFactV {
        TaskFactV {
            id: self.id@,
            fact: self.fact@,
            kind: self.kind@,
            session: self.session as int,
            entities: text::texts(self.entities@),
            tags: text::texts(self.tags@),
        }
    }
}

pub open spec fn task_facts_view(facts: Seq<TaskFact>) -> Seq<TaskFactV> {
    facts.map_values(|f: TaskFact| f@)
}

/// A list of texts that may be missing.
pub open spec fn list_of(o: Option<Vec<String>>) -> Seq<Seq<char>> {
    match o {
        Some(v) => text::texts(v@),
        None => seq![],
    }
}

/// A list with a text in it, at the end where it was not there.
pub open spec fn with_text(list: Seq<Seq<char>>, s: Seq<char>) -> Seq<Seq<char>> {
    if list.contains(s) {
        list
    } else {
        list.push(s)
    }
}

/// A fact of a task: tagged with it, and about it.
pub open spec fn task_fact(task_id: Seq<char>, f: ExtractedFact) -> TaskFactV {
    TaskFactV {
        id: f.id@,
        fact: f.fact@,
        kind: match f.kind {
            Some(k) => k@,
            None => "fact"@,
        },
        session: 1,
        entities: with_text(list_of(f.entities), task_id),
        tags: with_text(list_of(f.tags), "task"@).push("task:"@ + task_id),
    }
}

/// What a model is asked about a task.
pub open spec fn extract_text(task_id: Seq<char>, description: Seq<char>) -> Seq<char> {
    "Task ID: "@ + task_id + "\n\nTask description:\n"@ + description
}

/// The request for the facts of a task.
pub open spec fn extract_chat(task_id: Seq<char>, description: Seq<char>) -> execution::ChatV {
    execution::user_request(EXTRACT_SYSTEM@, extract_text(task_id, description), seq![], 4096u32)
}

/// What a model is asked about a task.
pub fn build_extract_user_content(task_id: &str, description: &str) -> (r: String)
    ensures
        r@ == extract_text(task_id@, description@),
{
    let mut out = "Task ID: ".to_owned();
    out.append(task_id);
    out.append("\n\nTask description:\n");
    out.append(description);
    out
}

/// The request for the facts of a task.
pub fn extract_request(task_id: &str, description: &str) -> (r: ChatRequest)
    ensures
        r@ == extract_chat(task_id@, description@),
{
    let content = build_extract_user_content(task_id, description);
    let none: Vec<ToolDef> = Vec::new();
    assert(chat::tools_view(none@) =~= seq![]);
    ask_user(EXTRACT_SYSTEM, content, none, 4096)
}

fn add_text(list: &mut Vec<String>, s: &str)
    ensures
        text::texts(final(list)@) == with_text(text::texts(old(list)@), s@),
{
    let mut i: usize = 0;
    while i < list.len()
        invariant
            i <= list.len(),
            list@ == old(list)@,
            forall|k: int| 0 <= k < i ==> (#[trigger] list@[k])@ != s@,
        decreases list.len() - i,
    {
        if same(list[i].as_str(), s) {
            assert(text::texts(list@)[i as int] == s@);
            return ;
        }
        i = i + 1;
    }
    assert(!text::texts(list@).contains(s@)) by {
        if text::texts(list@).contains(s@) {
            let k = choose|k: int|
                0 <= k < text::texts(list@).len() && text::texts(list@)[k] == s@;
            assert(list@[k]@ == s@);
        }
    }
    list.push(s.to_owned());
    assert(text::texts(list@) =~= text::texts(old(list)@).push(s@));
}

fn copy_list(o: &Option<Vec<String>>) -> (r: Vec<String>)
    ensures
        text::texts(r@) == list_of(*o),
{
    match o {
        Some(v) => copy_strings(v.as_slice()),
        None => {
            let none: Vec<String> = Vec::new();
            assert(text::texts(none@) =~= seq![]);
            none
        },
    }
}

fn tag_fact(task_id: &str, f: &ExtractedFact) -> (r: TaskFact)
    ensures
        r@ == task_fact(task_id@, *f),
{
    let mut entities = copy_list(&f.entities);
    add_text(&mut entities, task_id);
    let mut tags = copy_list(&f.tags);
    add_text(&mut tags, "task");
    let ghost before = text::texts(tags@);
    let mut tag = "task:".to_owned();
    tag.append(task_id);
    let ghost it = tag@;
    tags.push(tag);
    assert(text::texts(tags@) =~= before.push(it));
    let kind = match &f.kind {
        Some(k) => k.clone(),
        None => "fact".to_owned(),
    };
    TaskFact { id: f.id.clone(), fact: f.fact.clone(), kind, session: 1, entities, tags }
}

/// The facts of a task, from what the model gave: at least one.
pub fn parse_task_facts(task_id: &str, extracted: &[ExtractedFact]) -> (r: Result<
    Vec<TaskFact>,
    String,
>)
    ensures
        match r {
            Ok(facts) => extracted@.len() > 0 && task_facts_view(facts@)
                == extracted@.map_values(|f: ExtractedFact| task_fact(task_id@, f)),
            Err(message) => extracted@.len() == 0 && message@ == "extraction produced no facts"@,
        },
{
    if extracted.len() == 0 {
        return Err("extraction produced no facts".to_owned());
    }
    let mut out: Vec<TaskFact> = Vec::new();
    let mut i: usize = 0;
    while i < extracted.len()
        invariant
            i <= extracted.len(),
            out.len() == i,
            forall|k: int|
                0 <= k < i ==> (#[trigger] out@[k])@ == task_fact(task_id@, extracted@[k]),
        decreases extracted.len() - i,
    {
        out.push(tag_fact(task_id, &extracted[i]));
        i = i + 1;
    }
    assert(task_facts_view(out@) =~= extracted@.map_values(
        |f: ExtractedFact| task_fact(task_id@, f),
    ));
    Ok(out)
}

/// Every fact of a task names the task among its entities and its tags.
pub proof fn law_facts_name_their_task(task_id: Seq<char>, f: ExtractedFact)
    ensures
        task_fact(task_id, f).entities.contains(task_id),
        task_fact(task_id, f).tags.contains("task:"@ + task_id),
        task_fact(task_id, f).tags.contains("task"@),
{
    let entities = list_of(f.entities);
    let tags = list_of(f.tags);
    let all = task_fact(task_id, f);
    if !entities.contains(task_id) {
        assert(all.entities[entities.len() as int] == task_id);
    }
    let mid = with_text(tags, "task"@);
    assert(all.tags[mid.len() as int] == "task:"@ + task_id);
    assert(mid.contains("task"@)) by {
        if !tags.contains("task"@) {
            assert(mid[tags.len() as int] == "task"@);
        }
    }
    let k = choose|k: int| 0 <= k < mid.len() && mid[k] == "task"@;
    assert(all.tags[k] == "task"@);
}

/// A fact as memory takes it.
pub open spec fn task_fact_json(f: TaskFactV) -> JValue {
    JValue::Obj(
        Map::<Seq<char>, JValue>::empty().insert("id"@, JValue::Str(f.id)).insert(
            "fact"@,
            JValue::Str(f.fact),
        ).insert("kind"@, JValue::Str(f.kind)).insert("session"@, JValue::Int(f.session)).insert(
            "entities"@,
            json::jtexts(f.entities),
        ).insert("tags"@, json::jtexts(f.tags)),
    )
}

/// Facts as memory takes them.
pub fn facts_to_value(facts: &[TaskFact]) -> (r: Json)
    ensures
        r@ == JValue::Arr(
            task_facts_view(facts@).map_values(|f: TaskFactV| task_fact_json(f)),
        ),
{
    let ghost all = task_facts_view(facts@).map_values(|f: TaskFactV| task_fact_json(f));
    let mut items: Vec<Json> = Vec::new();
    let mut i: usize = 0;
    assert(json::items_view(items@) =~= all.take(0));
    while i < facts.len()
        invariant
            i <= facts.len(),
            all == task_facts_view(facts@).map_values(|f: TaskFactV| task_fact_json(f)),
            json::items_view(items@) == all.take(i as int),
        decreases facts.len() - i,
    {
        let f = &facts[i];
        let mut e: Vec<(String, Json)> = Vec::new();
        put_text(&mut e, "id", f.id.as_str());
        put_text(&mut e, "fact", f.fact.as_str());
        put_text(&mut e, "kind", f.kind.as_str());
        put(&mut e, "session", Json::Int(f.session as i64));
        put(&mut e, "entities", Json::texts(&f.entities));
        put(&mut e, "tags", Json::texts(&f.tags));
        let v = Json::Obj(e);
        let ghost before = items@;
        items.push(v);
        assert(json::items_view(items@) =~= json::items_view(before).push(v@));
        assert(all.take(i + 1) =~= all.take(i as int).push(v@));
        i = i + 1;
    }
    assert(all.take(i as int) =~= all);
    Json::Arr(items)
}

/// A fact of a task keeps all that it said, and gains the names of its task.
pub proof fn law_fact_keeps_what_it_said(task_id: Seq<char>, f: ExtractedFact, t: Seq<char>)
    ensures
        ({
            let made = task_fact(task_id, f);
            &&& made.id == f.id@ && made.fact == f.fact@
            &&& f.kind matches Some(k) ==> made.kind == k@
            &&& f.kind is None ==> made.kind == "fact"@
            &&& list_of(f.entities).contains(t) ==> made.entities.contains(t)
            &&& list_of(f.tags).contains(t) ==> made.tags.contains(t)
            &&& made.entities.contains(t) ==> list_of(f.entities).contains(t) || t == task_id
        }),
{
    let e = list_of(f.entities);
    let g = list_of(f.tags);
    let made = task_fact(task_id, f);
    if e.contains(t) {
        let i = choose|i: int| 0 <= i < e.len() && e[i] == t;
        assert(made.entities[i] == t);
    }
    if g.contains(t) {
        let i = choose|i: int| 0 <= i < g.len() && g[i] == t;
        assert(made.tags[i] == t);
    }
    if made.entities.contains(t) && t != task_id {
        let i = choose|i: int| 0 <= i < made.entities.len() && made.entities[i] == t;
        assert(e[i] == t);
    }
}

proof fn lemma_fact_keys()
    ensures
        "id"@.len() == 2,
        "fact"@.len() == 4 && "fact"@[0] == 'f',
        "kind"@.len() == 4 && "kind"@[0] == 'k',
        "session"@.len() == 7,
        "entities"@.len() == 8,
        "tags"@.len() == 4 && "tags"@[0] == 't',
{
    reveal_strlit("id");
    reveal_strlit("fact");
    reveal_strlit("kind");
    reveal_strlit("session");
    reveal_strlit("entities");
    reveal_strlit("tags");
}

/// A fact is written with all its parts.
pub proof fn law_fact_is_written_whole(f: TaskFactV)
    ensures
        ({
            let v = task_fact_json(f);
            &&& json::jget_str(v, "id"@) == Some(f.id)
            &&& json::jget_str(v, "fact"@) == Some(f.fact)
            &&& json::jget_str(v, "kind"@) == Some(f.kind)
            &&& json::jget(v, "session"@) == Some(JValue::Int(f.session))
            &&& json::jget(v, "entities"@) == Some(json::jtexts(f.entities))
            &&& json::jget(v, "tags"@) == Some(json::jtexts(f.tags))
        }),
{
    lemma_fact_keys();
}

/// A model that is asked for the facts of a task is told the task, and offered no tools.
pub proof fn law_task_is_told_for_its_facts(task_id: Seq<char>, description: Seq<char>)
    ensures
        ({
            let c = extract_chat(task_id, description);
            &&& c.system == EXTRACT_SYSTEM@
            &&& c.tools.len() == 0
            &&& c.max_tokens == 4096
            &&& c.messages.len() == 1 && c.messages[0].role == "user"@
            &&& text::has_suffix(c.messages[0].content, description)
            &&& text::has_prefix(c.messages[0].content, "Task ID: "@ + task_id)
        }),
{
    let said = extract_text(task_id, description);
    let head = "Task ID: "@ + task_id;
    assert(said.subrange(said.len() - description.len(), said.len() as int) =~= description);
    assert(said.subrange(0, head.len() as int) =~= head);
}

} // verus!
