//! New tasks that memory announces.

use vstd::prelude::*;
use vstd::string::*;

use crate::agent::resolve;
use crate::agent::resolve::target_contains;
use crate::client::memory::CourierSubscribeParams;
use crate::client::transport;
use crate::client::transport::canonical_mcp_url;
use crate::json;
use crate::json::put;
use crate::json::put_text;
use crate::json::JValue;
use crate::json::Json;
use crate::text;
use crate::text::same;
use crate::text::strip_prefix;
use crate::text::trim_end;

verus! {

/// How long to wait before a lost stream is opened again.
pub const RECONNECT_DELAY_SECS: u64 = 5;

/// What an announcement asks for.
#[derive(Debug)]
pub enum DispatchDecision {
    Ignore,
    /// The stream is open; it goes by this id.
    Connected(String),
    /// A task of this id is to be started.
    StartTask(String),
}

pub ghost enum DecisionV {
    Ignore,
    Connected(Seq<char>),
    StartTask(Seq<char>),
}

impl DispatchDecision {
    pub open spec fn view(&self) -> DecisionV {
        match self {
            DispatchDecision::Ignore => DecisionV::Ignore,
            DispatchDecision::Connected(id) => DecisionV::Connected(id@),
            DispatchDecision::StartTask(id) => DecisionV::StartTask(id@),
        }
    }
}

/// What an event asks an agent for.
pub open spec fn decided(event: JValue, agent_id: Seq<char>) -> DecisionV {
    let payload = json::jat(event, "payload"@);
    if json::jget_str(event, "type"@) == Some("connected"@) {
        match json::jget_str(event, "connection_id"@) {
            Some(id) => DecisionV::Connected(id),
            None => DecisionV::Ignore,
        }
    } else if json::jget_str(event, "type"@) == Some("artifact"@) && json::jget_str(
        payload,
        "kind"@,
    ) == Some("task"@) && resolve::aimed_at(payload, resolve::target_of(agent_id)) {
        match json::jget_str(payload, "id"@) {
            Some(id) => DecisionV::StartTask(id),
            None => DecisionV::Ignore,
        }
    } else {
        DecisionV::Ignore
    }
}

/// What an announcement asks an agent for: nothing, where it is not JSON.
pub open spec fn classified(data: Seq<char>, agent_id: Seq<char>) -> DecisionV {
    match json::json_parsed(data) {
        Some(event) => decided(event, agent_id),
        None => DecisionV::Ignore,
    }
}

fn has_value(v: Option<&str>, wanted: &str) -> (r: bool)
    ensures
        r == (text::opt_slice(v) == Some(wanted@)),
{
    match v {
        Some(s) => same(s, wanted),
        None => false,
    }
}

/// What an event asks an agent for.
pub fn decide(event: &Json, agent_id: &str) -> (r: DispatchDecision)
    ensures
        r@ == decided(event@, agent_id@),
{
    if has_value(event.get_str("type"), "connected") {
        return match event.get_str("connection_id") {
            Some(id) => DispatchDecision::Connected(id.to_owned()),
            None => DispatchDecision::Ignore,
        };
    }
    if !has_value(event.get_str("type"), "artifact") {
        return DispatchDecision::Ignore;
    }
    let payload = match event.get("payload") {
        Some(p) => p,
        None => {
            return DispatchDecision::Ignore;
        },
    };
    if !has_value(payload.get_str("kind"), "task") {
        return DispatchDecision::Ignore;
    }
    let mut target = "agent:".to_owned();
    target.append(agent_id);
    if !target_contains(payload, target.as_str()) {
        return DispatchDecision::Ignore;
    }
    match payload.get_str("id") {
        Some(id) => DispatchDecision::StartTask(id.to_owned()),
        None => DispatchDecision::Ignore,
    }
}

/// What an announcement asks an agent for.
pub fn classify_sse_event(data: &str, agent_id: &str) -> (r: DispatchDecision)
    ensures
        r@ == classified(data@, agent_id@),
{
    match Json::parse(data) {
        Some(event) => decide(&event, agent_id),
        None => DispatchDecision::Ignore,
    }
}

/// A task is started only where it is aimed at the agent.
pub proof fn law_only_own_tasks_are_started(event: JValue, agent_id: Seq<char>)
    ensures
        decided(event, agent_id) is StartTask ==> resolve::aimed_at(
            json::jat(event, "payload"@),
            resolve::target_of(agent_id),
        ),
{
}

/// What the complete lines of a stream announce, in order.
pub open spec fn announced(stream: Seq<char>) -> Seq<Seq<char>>
    decreases stream.len(),
{
    match text::next_feed(stream, 0) {
        None => seq![],
        Some(i) => {
            proof {
                text::lemma_next_feed(stream, 0);
            }
            (match text::without_prefix(text::trimmed_end(stream.take(i)), "data: "@) {
                Some(data) => seq![data],
                None => seq![],
            }) + announced(stream.skip(i + 1))
        },
    }
}

/// What follows the last complete line of a stream.
pub open spec fn unfinished(stream: Seq<char>) -> Seq<char>
    decreases stream.len(),
{
    match text::next_feed(stream, 0) {
        None => stream,
        Some(i) => {
            proof {
                text::lemma_next_feed(stream, 0);
            }
            unfinished(stream.skip(i + 1))
        },
    }
}

proof fn lemma_feed_stays(a: Seq<char>, b: Seq<char>, from: int)
    requires
        0 <= from <= a.len(),
        text::next_feed(a, from) is Some,
    ensures
        text::next_feed(a + b, from) == text::next_feed(a, from),
    decreases a.len() - from,
{
    assert(from < a.len());
    assert((a + b)[from] == a[from]);
    if a[from] != '\n' {
        lemma_feed_stays(a, b, from + 1);
    }
}

/// How a stream is cut into pieces does not matter: what a piece announces and what its unfinished
/// line announces with the next piece is what both announce together.
pub proof fn law_pieces_announce_the_same(a: Seq<char>, b: Seq<char>)
    ensures
        announced(a + b) == announced(a) + announced(unfinished(a) + b),
        unfinished(a + b) == unfinished(unfinished(a) + b),
    decreases a.len(),
{
    match text::next_feed(a, 0) {
        None => {
            assert(announced(a) + announced(a + b) =~= announced(a + b));
        },
        Some(i) => {
            text::lemma_next_feed(a, 0);
            lemma_feed_stays(a, b, 0);
            let rest = a.skip(i + 1);
            assert((a + b).take(i) =~= a.take(i));
            assert((a + b).skip(i + 1) =~= rest + b);
            law_pieces_announce_the_same(rest, b);
            let first = match text::without_prefix(text::trimmed_end(a.take(i)), "data: "@) {
                Some(data) => seq![data],
                None => Seq::<Seq<char>>::empty(),
            };
            assert(first + (announced(rest) + announced(unfinished(rest) + b)) =~= (first
                + announced(rest)) + announced(unfinished(rest) + b));
        },
    }
}

/// Takes the complete lines out of a stream, and hands back what they announce.
pub fn process_lines(stream: &mut String) -> (r: Vec<String>)
    ensures
        text::texts(r@) == announced(old(stream)@),
        final(stream)@ == unfinished(old(stream)@),
{
    let ghost all = stream@;
    let mut out: Vec<String> = Vec::new();
    let chars = text::chars_of(stream.as_str());
    let mut start: usize = 0;
    let mut i: usize = 0;
    assert(all.skip(0) =~= all);
    assert(text::texts(out@) + announced(all) =~= announced(all));
    while i < chars.len()
        invariant
            start <= i <= chars.len(),
            chars@ == all,
            text::texts(out@) + announced(all.skip(start as int)) == announced(all),
            unfinished(all.skip(start as int)) == unfinished(all),
            forall|k: int| start <= k < i ==> chars@[k] != '\n',
        decreases chars.len() - i,
    {
        if chars[i] == '\n' {
            let ghost rest = all.skip(start as int);
            proof {
                text::lemma_next_feed(rest, 0);
                assert(rest[i - start] == '\n');
                match text::next_feed(rest, 0) {
                    Some(j) => {
                        assert(rest[j] == chars@[start + j]);
                        if j > i - start {
                            assert(rest[i - start] != '\n');
                        }
                        assert(j == i - start);
                    },
                    None => {
                        assert(rest[i - start] != '\n');
                    },
                }
                assert(rest.take(i - start) =~= all.subrange(start as int, i as int));
                assert(rest.skip(i - start + 1) =~= all.skip(i + 1));
            }
            let line = text::string_of(&chars, start, i);
            let ghost before = text::texts(out@);
            match strip_prefix(trim_end(line.as_str()), "data: ") {
                Some(data) => {
                    let owned = data.to_owned();
                    out.push(owned);
                    assert(text::texts(out@) =~= before + seq![owned@]);
                    assert(before + (seq![owned@] + announced(all.skip(i + 1))) =~= (before + seq![
                        owned@,
                    ]) + announced(all.skip(i + 1)));
                },
                None => {
                    assert(Seq::<Seq<char>>::empty() + announced(all.skip(i + 1)) =~= announced(
                        all.skip(i + 1),
                    ));
                },
            }
            start = i + 1;
        }
        i = i + 1;
    }
    proof {
        let rest = all.skip(start as int);
        text::lemma_next_feed(rest, 0);
        if text::next_feed(rest, 0) is Some {
            let j = text::next_feed(rest, 0)->0;
            assert(rest[j] == chars@[start + j]);
        }
        assert(text::texts(out@) + announced(rest) =~= text::texts(out@));
        assert(all.subrange(start as int, all.len() as int) =~= rest);
    }
    let left = text::string_of(&chars, start, chars.len());
    *stream = left;
    out
}

/// The filter of a subscription to an agent's tasks.
pub open spec fn task_filter(agent_id: Seq<char>) -> JValue {
    JValue::Obj(
        Map::<Seq<char>, JValue>::empty().insert("kind"@, JValue::Str("task"@)).insert(
            "target"@,
            JValue::Str(resolve::target_of(agent_id)),
        ),
    )
}

/// Whether an agent is subscribed to its tasks, and by which id.
#[derive(Debug)]
pub struct CourierListener {
    memory_url: String,
    sub_id: Option<String>,
}

impl CourierListener {
    pub closed spec fn url(&self) -> Seq<char> {
        self.memory_url@
    }

    pub closed spec fn id(&self) -> Option<Seq<char>> {
        text::opt_text(self.sub_id)
    }

    pub fn new(memory_url: &str) -> (r: CourierListener)
        ensures
            r.url() == memory_url@,
            r.id() is None,
    {
        CourierListener { memory_url: memory_url.to_owned(), sub_id: None }
    }

    /// Where announcements come from, unless there is a subscription already.
    pub fn begin(&self) -> (r: Result<String, String>)
        ensures
            match r {
                Ok(stream) => self.id() is None && stream@ == transport::canonical(self.url())
                    + "/sse"@,
                Err(e) => self.id() is Some && e@ == "already subscribed"@,
            },
    {
        if self.sub_id.is_some() {
            return Err("already subscribed".to_owned());
        }
        let mut stream = canonical_mcp_url(self.memory_url.as_str());
        stream.append("/sse");
        Ok(stream)
    }

    /// What memory is asked for, once the stream has an id.
    pub fn subscription(key: &str, agent_id: &str, swarm_id: &str, connection_id: String) -> (r:
        CourierSubscribeParams)
        ensures
            r.key@ == key@,
            r.agent_id@ == agent_id@,
            r.swarm_id@ == swarm_id@,
            r.connection_id == connection_id,
            json::opt_owned_json(r.filter) == Some(task_filter(agent_id@)),
    {
        let mut target = "agent:".to_owned();
        target.append(agent_id);
        let mut e: Vec<(String, Json)> = Vec::new();
        put_text(&mut e, "kind", "task");
        put_text(&mut e, "target", target.as_str());
        CourierSubscribeParams {
            key: key.to_owned(),
            agent_id: agent_id.to_owned(),
            swarm_id: swarm_id.to_owned(),
            connection_id,
            filter: Some(Json::Obj(e)),
        }
    }

    /// Takes what memory answered.
    pub fn on_subscribed(&mut self, answer: &Json) -> (r: Result<String, String>)
        ensures
            final(self).url() == old(self).url(),
            match json::jget_str(answer@, "sub_id"@) {
                Some(id) => if id.len() > 0 {
                    r matches Ok(s) && s@ == id && final(self).id() == Some(id)
                } else {
                    r matches Err(e) && e@ == "courier_subscribe returned no sub_id"@ && final(self).id() == old(self).id()
                },
                None => r matches Err(e) && e@ == "courier_subscribe returned no sub_id"@ && final(self).id() == old(self).id(),
            },
    {
        match answer.get_str("sub_id") {
            Some(id) => {
                if id.unicode_len() == 0 {
                    return Err("courier_subscribe returned no sub_id".to_owned());
                }
                self.sub_id = Some(id.to_owned());
                Ok(id.to_owned())
            },
            None => Err("courier_subscribe returned no sub_id".to_owned()),
        }
    }

    /// Ends the subscription; memory is to be told of the id that comes back.
    pub fn unsubscribe(&mut self) -> (r: Option<String>)
        ensures
            text::opt_text(r) == old(self).id(),
            final(self).id() is None,
            final(self).url() == old(self).url(),
    {
        self.sub_id.take()
    }

    pub fn is_subscribed(&self) -> (r: bool)
        ensures
            r == (self.id() is Some),
    {
        self.sub_id.is_some()
    }
}

/// What starts a task that was announced.
pub open spec fn start_json(
    agent_id: Seq<char>,
    swarm_id: Seq<char>,
    key: Seq<char>,
    task_id: Seq<char>,
    budget: JValue,
) -> JValue {
    JValue::Obj(
        Map::<Seq<char>, JValue>::empty().insert("agent_id"@, JValue::Str(agent_id)).insert(
            "swarm_id"@,
            JValue::Str(swarm_id),
        ).insert("key"@, JValue::Str(key)).insert("task_id"@, JValue::Str(task_id)).insert(
            "budget_shell"@,
            budget,
        ),
    )
}

/// What starts a task that was announced.
pub fn start_args(agent_id: &str, swarm_id: &str, key: &str, task_id: &str, budget: Json) -> (r: Json)
    ensures
        r@ == start_json(agent_id@, swarm_id@, key@, task_id@, budget@),
{
    let mut e: Vec<(String, Json)> = Vec::new();
    put_text(&mut e, "agent_id", agent_id);
    put_text(&mut e, "swarm_id", swarm_id);
    put_text(&mut e, "key", key);
    put_text(&mut e, "task_id", task_id);
    put(&mut e, "budget_shell", budget);
    Json::Obj(e)
}

proof fn lemma_keys()
    ensures
        "agent_id"@.len() == 8 && "agent_id"@[0] == 'a',
        "swarm_id"@.len() == 8 && "swarm_id"@[0] == 's',
        "key"@.len() == 3,
        "task_id"@.len() == 7,
        "budget_shell"@.len() == 12,
        "kind"@.len() == 4,
        "target"@.len() == 6,
{
    reveal_strlit("agent_id");
    reveal_strlit("swarm_id");
    reveal_strlit("key");
    reveal_strlit("task_id");
    reveal_strlit("budget_shell");
    reveal_strlit("kind");
    reveal_strlit("target");
}

/// What starts a task names that task, the agent and its swarm, the memory and the budget.
pub proof fn law_start_names_the_task(
    agent_id: Seq<char>,
    swarm_id: Seq<char>,
    key: Seq<char>,
    task_id: Seq<char>,
    budget: JValue,
)
    ensures
        ({
            let v = start_json(agent_id, swarm_id, key, task_id, budget);
            &&& json::jget_str(v, "task_id"@) == Some(task_id)
            &&& json::jget_str(v, "agent_id"@) == Some(agent_id)
            &&& json::jget_str(v, "swarm_id"@) == Some(swarm_id)
            &&& json::jget_str(v, "key"@) == Some(key)
            &&& json::jget(v, "budget_shell"@) == Some(budget)
        }),
{
    lemma_keys();
}

/// A task of its own that is announced to an agent is started, by its id; an open stream is known
/// by the id that it announces.
pub proof fn law_own_tasks_are_started(event: JValue, agent_id: Seq<char>, id: Seq<char>)
    ensures
        ({
            let payload = json::jat(event, "payload"@);
            json::jget_str(event, "type"@) == Some("artifact"@) && json::jget_str(payload, "kind"@)
                == Some("task"@) && resolve::aimed_at(payload, resolve::target_of(agent_id))
                && json::jget_str(payload, "id"@) == Some(id)
        }) ==> decided(event, agent_id) == DecisionV::StartTask(id),
        json::jget_str(event, "type"@) == Some("connected"@) && json::jget_str(
            event,
            "connection_id"@,
        ) == Some(id) ==> decided(event, agent_id) == DecisionV::Connected(id),
        decided(event, agent_id) == DecisionV::StartTask(id) ==> json::jget_str(
            json::jat(event, "payload"@),
            "id"@,
        ) == Some(id) && json::jget_str(json::jat(event, "payload"@), "kind"@) == Some("task"@),
{
    reveal_strlit("artifact");
    reveal_strlit("connected");
    assert("artifact"@.len() != "connected"@.len());
}

/// A subscription asks for the tasks that are aimed at the agent.
pub proof fn law_subscription_asks_for_own_tasks(agent_id: Seq<char>)
    ensures
        json::jget_str(task_filter(agent_id), "kind"@) == Some("task"@),
        json::jget_str(task_filter(agent_id), "target"@) matches Some(target) && text::has_suffix(
            target,
            agent_id,
        ),
{
    lemma_keys();
    let target = resolve::target_of(agent_id);
    assert(target.subrange(target.len() - agent_id.len(), target.len() as int) =~= agent_id);
}

/// What a line announces is what stands behind its mark, and nothing is announced without one.
pub proof fn law_line_announces_its_data(data: Seq<char>, rest: Seq<char>)
    requires
        data.len() > 0,
        !data.contains('\n'),
        !text::is_space(data.last()),
    ensures
        announced("data: "@ + data + seq!['\n'] + rest) == seq![data] + announced(rest),
        unfinished("data: "@ + data + seq!['\n'] + rest) == unfinished(rest),
        announced(data).len() == 0,
{
    reveal_strlit("data: ");
    let line = "data: "@ + data;
    let s = line + seq!['\n'] + rest;
    text::lemma_next_feed(s, 0);
    let n = line.len() as int;
    assert(s[n] == '\n');
    assert forall|k: int| 0 <= k < n implies s[k] != '\n' by {
        assert(s[k] == line[k]);
        if k >= 6 {
            assert(line[k] == data[k - 6]);
        }
    }
    match text::next_feed(s, 0) {
        Some(i) => {
            if i < n {
                assert(s[i] != '\n');
            }
            if i > n {
                assert(s[n] != '\n');
            }
        },
        None => {
            assert(s[n] != '\n');
        },
    }
    assert(s.take(n) =~= line);
    assert(s.skip(n + 1) =~= rest);
    assert(line.last() == data.last());
    assert(text::trimmed_end(line) == line);
    assert(line.subrange(0, 6) =~= "data: "@);
    assert(line.skip(6) =~= data);
    text::lemma_next_feed(data, 0);
    if text::next_feed(data, 0) is Some {
        assert(data.contains(data[text::next_feed(data, 0).unwrap()]));
    }
}

/// What can not be read starts nothing, and neither does an event of another kind.
pub proof fn law_other_events_start_nothing(data: Seq<char>, event: JValue, agent_id: Seq<char>)
    ensures
        json::json_parsed(data) is None ==> classified(data, agent_id) is Ignore,
        json::json_parsed(data) == Some(event) ==> classified(data, agent_id) == decided(event, agent_id),
        json::jget_str(event, "type"@) != Some("connected"@) && json::jget_str(event, "type"@) != Some(
            "artifact"@,
        ) ==> decided(event, agent_id) is Ignore,
{
}

} // verus!
