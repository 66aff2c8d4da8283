//! The arguments of the memory tools.

use vstd::prelude::*;
use vstd::string::*;

use crate::text;
use crate::json;
use crate::json::put;
use crate::json::put_text;
use crate::json::JValue;
use crate::json::Json;

verus! {

/// The key, agent and swarm that every call names.
pub open spec fn caller_json(key: Seq<char>, agent_id: Seq<char>, swarm_id: Seq<char>) -> Map<
    Seq<char>,
    JValue,
> {
    Map::<Seq<char>, JValue>::empty().insert("key"@, JValue::Str(key)).insert(
        "agent_id"@,
        JValue::Str(agent_id),
    ).insert("swarm_id"@, JValue::Str(swarm_id))
}

fn caller_entries(key: &str, agent_id: &str, swarm_id: &str) -> (r: Vec<(String, Json)>)
    ensures
        crate::json::entries_view(r@) == caller_json(key@, agent_id@, swarm_id@),
{
    let mut entries: Vec<(String, Json)> = Vec::new();
    put_text(&mut entries, "key", key);
    put_text(&mut entries, "agent_id", agent_id);
    put_text(&mut entries, "swarm_id", swarm_id);
    entries
}

/// A map with one more entry, where there is a value for it.
pub open spec fn with_opt(m: Map<Seq<char>, JValue>, key: Seq<char>, value: Option<JValue>) -> Map<
    Seq<char>,
    JValue,
> {
    match value {
        Some(v) => m.insert(key, v),
        None => m,
    }
}

/// The JSON form of an optional text.
pub open spec fn opt_str_json(o: Option<Seq<char>>) -> Option<JValue> {
    match o {
        Some(s) => Some(JValue::Str(s)),
        None => None,
    }
}

pub open spec fn opt_int_json(o: Option<i64>) -> Option<JValue> {
    match o {
        Some(n) => Some(JValue::Int(n as int)),
        None => None,
    }
}

fn put_opt_text(entries: &mut Vec<(String, Json)>, key: &str, value: &Option<String>)
    ensures
        crate::json::entries_view(final(entries)@) == with_opt(
            crate::json::entries_view(old(entries)@),
            key@,
            opt_str_json(text::opt_text(*value)),
        ),
{
    match value {
        Some(s) => {
            put_text(entries, key, s.as_str());
        },
        None => {},
    }
}

fn put_opt_int(entries: &mut Vec<(String, Json)>, key: &str, value: Option<i64>)
    ensures
        crate::json::entries_view(final(entries)@) == with_opt(
            crate::json::entries_view(old(entries)@),
            key@,
            opt_int_json(value),
        ),
{
    match value {
        Some(n) => {
            put(entries, key, Json::Int(n));
        },
        None => {},
    }
}

/// The arguments of a retrieval.
#[derive(Debug)]
pub struct RecallParams {
    pub key: String,
    pub agent_id: String,
    pub swarm_id: String,
    pub query: String,
    pub token_budget: i64,
}

pub ghost struct RecallV {
    pub key: Seq<char>,
    pub agent_id: Seq<char>,
    pub swarm_id: Seq<char>,
    pub query: Seq<char>,
    pub token_budget: int,
}

/// The arguments of a retrieval, as JSON.
pub open spec fn recall_json(p: RecallV) -> JValue {
    JValue::Obj(
        caller_json(p.key, p.agent_id, p.swarm_id).insert("query"@, JValue::Str(p.query)).insert(
            "token_budget"@,
            JValue::Int(p.token_budget),
        ),
    )
}

impl RecallParams {
    pub open spec fn view(&self) -> RecallV {
        RecallV {
            key: self.key@,
            agent_id: self.agent_id@,
            swarm_id: self.swarm_id@,
            query: self.query@,
            token_budget: self.token_budget as int,
        }
    }

    /// The arguments, as JSON.
    pub fn to_json(&self) -> (r: Json)
        ensures
            r@ == recall_json(self@),
    {
        let mut entries = caller_entries(
            self.key.as_str(),
            self.agent_id.as_str(),
            self.swarm_id.as_str(),
        );
        put_text(&mut entries, "query", self.query.as_str());
        put(&mut entries, "token_budget", Json::Int(self.token_budget));
        Json::Obj(entries)
    }
}

/// The arguments of a request for an execution plan.
#[derive(Debug)]
pub struct PlanInferenceParams {
    pub key: String,
    pub agent_id: String,
    pub swarm_id: String,
    pub query: String,
    pub token_budget: i64,
}

impl PlanInferenceParams {
    pub open spec fn view(&self) -> RecallV {
        RecallV {
            key: self.key@,
            agent_id: self.agent_id@,
            swarm_id: self.swarm_id@,
            query: self.query@,
            token_budget: self.token_budget as int,
        }
    }

    /// The arguments, as JSON.
    pub fn to_json(&self) -> (r: Json)
        ensures
            r@ == recall_json(self@),
    {
        let mut entries = caller_entries(
            self.key.as_str(),
            self.agent_id.as_str(),
            self.swarm_id.as_str(),
        );
        put_text(&mut entries, "query", self.query.as_str());
        put(&mut entries, "token_budget", Json::Int(self.token_budget));
        Json::Obj(entries)
    }
}

/// The arguments of an ingestion of facts.
#[derive(Debug)]
pub struct IngestFactsParams {
    pub key: String,
    pub agent_id: String,
    pub swarm_id: String,
    pub scope: String,
    pub facts: Json,
    pub enrich_l0: Option<bool>,
}

pub ghost struct IngestV {
    pub key: Seq<char>,
    pub agent_id: Seq<char>,
    pub swarm_id: Seq<char>,
    pub scope: Seq<char>,
    pub facts: JValue,
    pub enrich_l0: Option<bool>,
}

/// The arguments of an ingestion of facts, as JSON.
pub open spec fn ingest_json(p: IngestV) -> JValue {
    JValue::Obj(
        with_opt(
            caller_json(p.key, p.agent_id, p.swarm_id).insert(
                "scope"@,
                JValue::Str(p.scope),
            ).insert("facts"@, p.facts),
            "enrich_l0"@,
            match p.enrich_l0 {
                Some(b) => Some(JValue::Bool(b)),
                None => None,
            },
        ),
    )
}

impl IngestFactsParams {
    pub open spec fn view(&self) -> IngestV {
        IngestV {
            key: self.key@,
            agent_id: self.agent_id@,
            swarm_id: self.swarm_id@,
            scope: self.scope@,
            facts: self.facts@,
            enrich_l0: self.enrich_l0,
        }
    }

    /// The arguments, as JSON.
    pub fn to_json(&self) -> (r: Json)
        ensures
            r@ == ingest_json(self@),
    {
        let mut entries = caller_entries(
            self.key.as_str(),
            self.agent_id.as_str(),
            self.swarm_id.as_str(),
        );
        put_text(&mut entries, "scope", self.scope.as_str());
        put(&mut entries, "facts", self.facts.copy());
        match self.enrich_l0 {
            Some(b) => {
                put(&mut entries, "enrich_l0", Json::Bool(b));
            },
            None => {},
        }
        Json::Obj(entries)
    }
}

/// The arguments of a listing of facts.
#[derive(Debug)]
pub struct ListFactsParams {
    pub key: String,
    pub agent_id: String,
    pub swarm_id: String,
    pub kind: Option<String>,
    pub limit: Option<i64>,
}

pub ghost struct ListV {
    pub key: Seq<char>,
    pub agent_id: Seq<char>,
    pub swarm_id: Seq<char>,
    pub kind: Option<Seq<char>>,
    pub limit: Option<i64>,
}

/// The arguments of a listing of facts, as JSON.
pub open spec fn list_json(p: ListV) -> JValue {
    JValue::Obj(
        with_opt(
            with_opt(
                caller_json(p.key, p.agent_id, p.swarm_id),
                "kind"@,
                opt_str_json(p.kind),
            ),
            "limit"@,
            opt_int_json(p.limit),
        ),
    )
}

impl ListFactsParams {
    pub open spec fn view(&self) -> ListV {
        ListV {
            key: self.key@,
            agent_id: self.agent_id@,
            swarm_id: self.swarm_id@,
            kind: text::opt_text(self.kind),
            limit: self.limit,
        }
    }

    /// The arguments, as JSON.
    pub fn to_json(&self) -> (r: Json)
        ensures
            r@ == list_json(self@),
    {
        let mut entries = caller_entries(
            self.key.as_str(),
            self.agent_id.as_str(),
            self.swarm_id.as_str(),
        );
        put_opt_text(&mut entries, "kind", &self.kind);
        put_opt_int(&mut entries, "limit", self.limit);
        Json::Obj(entries)
    }
}

/// The arguments of a query for facts.
#[derive(Debug)]
pub struct MemoryQueryParams {
    pub key: String,
    pub agent_id: String,
    pub swarm_id: String,
    pub filter: Json,
    pub sort_by: Option<String>,
    pub sort_order: Option<String>,
    pub limit: Option<i64>,
}

pub ghost struct QueryV {
    pub key: Seq<char>,
    pub agent_id: Seq<char>,
    pub swarm_id: Seq<char>,
    pub filter: JValue,
    pub sort_by: Option<Seq<char>>,
    pub sort_order: Option<Seq<char>>,
    pub limit: Option<i64>,
}

/// The arguments of a query for facts, as JSON.
pub open spec fn query_json(p: QueryV) -> JValue {
    JValue::Obj(
        with_opt(
            with_opt(
                with_opt(
                    caller_json(p.key, p.agent_id, p.swarm_id).insert("filter"@, p.filter),
                    "sort_by"@,
                    opt_str_json(p.sort_by),
                ),
                "sort_order"@,
                opt_str_json(p.sort_order),
            ),
            "limit"@,
            opt_int_json(p.limit),
        ),
    )
}

/// A query for the newest facts that match a filter.
pub open spec fn newest(
    key: Seq<char>,
    agent_id: Seq<char>,
    swarm_id: Seq<char>,
    filter: JValue,
    limit: i64,
) -> QueryV {
    QueryV {
        key,
        agent_id,
        swarm_id,
        filter,
        sort_by: Some("created_at"@),
        sort_order: Some("desc"@),
        limit: Some(limit),
    }
}

impl MemoryQueryParams {
    pub open spec fn view(&self) -> QueryV {
        QueryV {
            key: self.key@,
            agent_id: self.agent_id@,
            swarm_id: self.swarm_id@,
            filter: self.filter@,
            sort_by: text::opt_text(self.sort_by),
            sort_order: text::opt_text(self.sort_order),
            limit: self.limit,
        }
    }

    /// A query for the newest facts that match a filter.
    pub fn newest(key: &str, agent_id: &str, swarm_id: &str, filter: Json, limit: i64) -> (r: Self)
        ensures
            r@ == newest(key@, agent_id@, swarm_id@, filter@, limit),
    {
        MemoryQueryParams {
            key: key.to_owned(),
            agent_id: agent_id.to_owned(),
            swarm_id: swarm_id.to_owned(),
            filter,
            sort_by: Some("created_at".to_owned()),
            sort_order: Some("desc".to_owned()),
            limit: Some(limit),
        }
    }

    /// The arguments, as JSON.
    pub fn to_json(&self) -> (r: Json)
        ensures
            r@ == query_json(self@),
    {
        let mut entries = caller_entries(
            self.key.as_str(),
            self.agent_id.as_str(),
            self.swarm_id.as_str(),
        );
        put(&mut entries, "filter", self.filter.copy());
        put_opt_text(&mut entries, "sort_by", &self.sort_by);
        put_opt_text(&mut entries, "sort_order", &self.sort_order);
        put_opt_int(&mut entries, "limit", self.limit);
        Json::Obj(entries)
    }
}

/// The arguments of a lookup of one fact.
#[derive(Debug)]
pub struct MemoryGetParams {
    pub key: String,
    pub agent_id: String,
    pub swarm_id: String,
    pub fact_id: String,
}

pub ghost struct GetV {
    pub key: Seq<char>,
    pub agent_id: Seq<char>,
    pub swarm_id: Seq<char>,
    pub fact_id: Seq<char>,
}

/// The arguments of a lookup of one fact, as JSON.
pub open spec fn get_json(p: GetV) -> JValue {
    JValue::Obj(
        caller_json(p.key, p.agent_id, p.swarm_id).insert("fact_id"@, JValue::Str(p.fact_id)),
    )
}

impl MemoryGetParams {
    pub open spec fn view(&self) -> GetV {
        GetV {
            key: self.key@,
            agent_id: self.agent_id@,
            swarm_id: self.swarm_id@,
            fact_id: self.fact_id@,
        }
    }

    /// The arguments, as JSON.
    pub fn to_json(&self) -> (r: Json)
        ensures
            r@ == get_json(self@),
    {
        let mut entries = caller_entries(
            self.key.as_str(),
            self.agent_id.as_str(),
            self.swarm_id.as_str(),
        );
        put_text(&mut entries, "fact_id", self.fact_id.as_str());
        Json::Obj(entries)
    }
}

/// The arguments of a lookup of the configuration.
#[derive(Debug)]
pub struct MemoryGetConfigParams {
    pub key: String,
    pub agent_id: String,
    pub swarm_id: String,
}

impl MemoryGetConfigParams {
    /// The arguments, as JSON.
    pub fn to_json(&self) -> (r: Json)
        ensures
            r@ == JValue::Obj(caller_json(self.key@, self.agent_id@, self.swarm_id@)),
    {
        Json::Obj(
            caller_entries(self.key.as_str(), self.agent_id.as_str(), self.swarm_id.as_str()),
        )
    }
}

/// The arguments of a subscription to the courier.
#[derive(Debug)]
pub struct CourierSubscribeParams {
    pub key: String,
    pub agent_id: String,
    pub swarm_id: String,
    pub connection_id: String,
    pub filter: Option<Json>,
}

/// The arguments of a subscription to the courier, as JSON.
pub open spec fn subscribe_json(p: CourierSubscribeParams) -> JValue {
    JValue::Obj(
        with_opt(
            caller_json(p.key@, p.agent_id@, p.swarm_id@).insert(
                "connection_id"@,
                JValue::Str(p.connection_id@),
            ),
            "filter"@,
            json::opt_owned_json(p.filter),
        ),
    )
}

impl CourierSubscribeParams {
    /// The arguments, as JSON.
    pub fn to_json(&self) -> (r: Json)
        ensures
            r@ == subscribe_json(*self),
    {
        let mut entries = caller_entries(
            self.key.as_str(),
            self.agent_id.as_str(),
            self.swarm_id.as_str(),
        );
        put_text(&mut entries, "connection_id", self.connection_id.as_str());
        match &self.filter {
            Some(f) => {
                put(&mut entries, "filter", f.copy());
            },
            None => {},
        }
        Json::Obj(entries)
    }
}

/// A list of texts that may be missing, as JSON.
pub open spec fn opt_texts_json(o: Option<Vec<String>>) -> Option<JValue> {
    match o {
        Some(v) => Some(json::jtexts(text::texts(v@))),
        None => None,
    }
}

/// Content for memory to take facts out of.
#[derive(Debug)]
pub struct StoreParams {
    pub key: String,
    pub agent_id: String,
    pub swarm_id: String,
    pub content: String,
    pub scope: String,
    pub content_type: String,
    pub session_num: i32,
    pub session_date: String,
    pub speakers: String,
    pub metadata: Option<Json>,
    pub target: Option<Vec<String>>,
}

/// Content for memory, as JSON.
pub open spec fn store_json(p: StoreParams) -> JValue {
    JValue::Obj(
        with_opt(
            with_opt(
                caller_json(p.key@, p.agent_id@, p.swarm_id@).insert(
                    "content"@,
                    JValue::Str(p.content@),
                ).insert("scope"@, JValue::Str(p.scope@)).insert(
                    "content_type"@,
                    JValue::Str(p.content_type@),
                ).insert("session_num"@, JValue::Int(p.session_num as int)).insert(
                    "session_date"@,
                    JValue::Str(p.session_date@),
                ).insert("speakers"@, JValue::Str(p.speakers@)),
                "metadata"@,
                json::opt_owned_json(p.metadata),
            ),
            "target"@,
            opt_texts_json(p.target),
        ),
    )
}

impl StoreParams {
    pub fn to_json(&self) -> (r: Json)
        ensures
            r@ == store_json(*self),
    {
        let mut e = caller_entries(
            self.key.as_str(),
            self.agent_id.as_str(),
            self.swarm_id.as_str(),
        );
        put_text(&mut e, "content", self.content.as_str());
        put_text(&mut e, "scope", self.scope.as_str());
        put_text(&mut e, "content_type", self.content_type.as_str());
        put(&mut e, "session_num", Json::Int(self.session_num as i64));
        put_text(&mut e, "session_date", self.session_date.as_str());
        put_text(&mut e, "speakers", self.speakers.as_str());
        if let Some(m) = &self.metadata {
            put(&mut e, "metadata", m.copy());
        }
        if let Some(t) = &self.target {
            put(&mut e, "target", Json::texts(t));
        }
        Json::Obj(e)
    }
}

/// A fact for memory.
#[derive(Debug)]
pub struct MemoryStoreParams {
    pub key: String,
    pub agent_id: String,
    pub swarm_id: String,
    pub fact: String,
    pub kind: String,
    pub target: Option<Vec<String>>,
    pub metadata: Option<Json>,
}

/// A fact for memory, as JSON.
pub open spec fn memory_store_json(p: MemoryStoreParams) -> JValue {
    JValue::Obj(
        with_opt(
            with_opt(
                caller_json(p.key@, p.agent_id@, p.swarm_id@).insert(
                    "fact"@,
                    JValue::Str(p.fact@),
                ).insert("kind"@, JValue::Str(p.kind@)),
                "target"@,
                opt_texts_json(p.target),
            ),
            "metadata"@,
            json::opt_owned_json(p.metadata),
        ),
    )
}

impl MemoryStoreParams {
    pub fn to_json(&self) -> (r: Json)
        ensures
            r@ == memory_store_json(*self),
    {
        let mut e = caller_entries(
            self.key.as_str(),
            self.agent_id.as_str(),
            self.swarm_id.as_str(),
        );
        put_text(&mut e, "fact", self.fact.as_str());
        put_text(&mut e, "kind", self.kind.as_str());
        if let Some(t) = &self.target {
            put(&mut e, "target", Json::texts(t));
        }
        if let Some(m) = &self.metadata {
            put(&mut e, "metadata", m.copy());
        }
        Json::Obj(e)
    }
}

/// The arguments of the end of a subscription.
pub fn unsubscribe_json(sub_id: &str) -> (r: Json)
    ensures
        r@ == JValue::Obj(
            Map::<Seq<char>, JValue>::empty().insert("sub_id"@, JValue::Str(sub_id@)),
        ),
{
    let mut entries: Vec<(String, Json)> = Vec::new();
    put_text(&mut entries, "sub_id", sub_id);
    Json::Obj(entries)
}

proof fn lemma_keys()
    ensures
        "key"@.len() == 3,
        "agent_id"@.len() == 8 && "agent_id"@[0] == 'a',
        "swarm_id"@.len() == 8 && "swarm_id"@[0] == 's',
        "query"@.len() == 5 && "query"@[0] == 'q',
        "token_budget"@.len() == 12,
        "scope"@.len() == 5 && "scope"@[0] == 's',
        "facts"@.len() == 5 && "facts"@[0] == 'f',
        "enrich_l0"@.len() == 9,
        "kind"@.len() == 4,
        "limit"@.len() == 5 && "limit"@[0] == 'l',
        "filter"@.len() == 6,
        "sort_by"@.len() == 7 && "sort_by"@[0] == 's',
        "sort_order"@.len() == 10,
        "fact_id"@.len() == 7 && "fact_id"@[0] == 'f',
{
    reveal_strlit("key");
    reveal_strlit("agent_id");
    reveal_strlit("swarm_id");
    reveal_strlit("query");
    reveal_strlit("token_budget");
    reveal_strlit("scope");
    reveal_strlit("facts");
    reveal_strlit("enrich_l0");
    reveal_strlit("kind");
    reveal_strlit("limit");
    reveal_strlit("filter");
    reveal_strlit("sort_by");
    reveal_strlit("sort_order");
    reveal_strlit("fact_id");
}

/// Whether arguments say who calls, and for which memory.
pub open spec fn names_its_caller(v: JValue, key: Seq<char>, agent_id: Seq<char>, swarm_id: Seq<char>) -> bool {
    &&& json::jget_str(v, "key"@) == Some(key)
    &&& json::jget_str(v, "agent_id"@) == Some(agent_id)
    &&& json::jget_str(v, "swarm_id"@) == Some(swarm_id)
}

/// A call of memory asks for what it was made to ask: each argument stands under its name, and one
/// that is not there is left out.
pub proof fn law_calls_carry_their_arguments(
    recall: RecallV,
    ingest: IngestV,
    list: ListV,
    query: QueryV,
    get: GetV,
)
    ensures
        names_its_caller(recall_json(recall), recall.key, recall.agent_id, recall.swarm_id),
        json::jget_str(recall_json(recall), "query"@) == Some(recall.query),
        json::jget(recall_json(recall), "token_budget"@) == Some(JValue::Int(recall.token_budget)),
        names_its_caller(ingest_json(ingest), ingest.key, ingest.agent_id, ingest.swarm_id),
        json::jget(ingest_json(ingest), "facts"@) == Some(ingest.facts),
        json::jget_str(ingest_json(ingest), "scope"@) == Some(ingest.scope),
        json::jbool(json::jat(ingest_json(ingest), "enrich_l0"@)) == ingest.enrich_l0,
        names_its_caller(list_json(list), list.key, list.agent_id, list.swarm_id),
        json::jget_str(list_json(list), "kind"@) == list.kind,
        list.limit matches Some(n) ==> json::jget(list_json(list), "limit"@) == Some(
            JValue::Int(n as int),
        ),
        list.limit is None ==> json::jget(list_json(list), "limit"@) is None,
        names_its_caller(query_json(query), query.key, query.agent_id, query.swarm_id),
        json::jget(query_json(query), "filter"@) == Some(query.filter),
        json::jget_str(query_json(query), "sort_by"@) == query.sort_by,
        json::jget_str(query_json(query), "sort_order"@) == query.sort_order,
        query.limit matches Some(n) ==> json::jget(query_json(query), "limit"@) == Some(
            JValue::Int(n as int),
        ),
        names_its_caller(get_json(get), get.key, get.agent_id, get.swarm_id),
        json::jget_str(get_json(get), "fact_id"@) == Some(get.fact_id),
{
    lemma_keys();
}

/// The newest facts are asked for, newest first.
pub proof fn law_newest_come_first(
    key: Seq<char>,
    agent_id: Seq<char>,
    swarm_id: Seq<char>,
    filter: JValue,
    limit: i64,
)
    ensures
        ({
            let v = query_json(newest(key, agent_id, swarm_id, filter, limit));
            &&& json::jget_str(v, "sort_by"@) == Some("created_at"@)
            &&& json::jget_str(v, "sort_order"@) == Some("desc"@)
            &&& json::jget(v, "limit"@) == Some(JValue::Int(limit as int))
            &&& json::jget(v, "filter"@) == Some(filter)
        }),
{
    lemma_keys();
}

proof fn lemma_store_keys()
    ensures
        "key"@.len() == 3,
        "agent_id"@.len() == 8 && "agent_id"@[0] == 'a',
        "swarm_id"@.len() == 8 && "swarm_id"@[0] == 's' && "swarm_id"@[1] == 'w',
        "connection_id"@.len() == 13,
        "filter"@.len() == 6 && "filter"@[0] == 'f',
        "content"@.len() == 7,
        "scope"@.len() == 5,
        "content_type"@.len() == 12 && "content_type"@[0] == 'c',
        "session_num"@.len() == 11,
        "session_date"@.len() == 12 && "session_date"@[0] == 's',
        "speakers"@.len() == 8 && "speakers"@[0] == 's' && "speakers"@[1] == 'p',
        "metadata"@.len() == 8 && "metadata"@[0] == 'm',
        "target"@.len() == 6 && "target"@[0] == 't',
        "fact"@.len() == 4 && "fact"@[0] == 'f',
        "kind"@.len() == 4 && "kind"@[0] == 'k',
{
    reveal_strlit("key");
    reveal_strlit("agent_id");
    reveal_strlit("swarm_id");
    reveal_strlit("connection_id");
    reveal_strlit("filter");
    reveal_strlit("content");
    reveal_strlit("scope");
    reveal_strlit("content_type");
    reveal_strlit("session_num");
    reveal_strlit("session_date");
    reveal_strlit("speakers");
    reveal_strlit("metadata");
    reveal_strlit("target");
    reveal_strlit("fact");
    reveal_strlit("kind");
}

/// Content goes to memory whole, with all that is said of it, and so do a fact and a subscription.
pub proof fn law_content_goes_to_memory_whole(
    p: StoreParams,
    f: MemoryStoreParams,
    c: CourierSubscribeParams,
)
    ensures
        ({
            let v = store_json(p);
            &&& names_its_caller(v, p.key@, p.agent_id@, p.swarm_id@)
            &&& json::jget_str(v, "content"@) == Some(p.content@)
            &&& json::jget_str(v, "scope"@) == Some(p.scope@)
            &&& json::jget_str(v, "content_type"@) == Some(p.content_type@)
            &&& json::jget(v, "session_num"@) == Some(JValue::Int(p.session_num as int))
            &&& json::jget_str(v, "session_date"@) == Some(p.session_date@)
            &&& json::jget_str(v, "speakers"@) == Some(p.speakers@)
            &&& p.metadata matches Some(m) ==> json::jget(v, "metadata"@) == Some(m@)
            &&& p.metadata is None ==> json::jget(v, "metadata"@) is None
            &&& p.target matches Some(t) ==> json::jget(v, "target"@) == Some(
                json::jtexts(text::texts(t@)),
            )
            &&& p.target is None ==> json::jget(v, "target"@) is None
        }),
        ({
            let v = memory_store_json(f);
            &&& names_its_caller(v, f.key@, f.agent_id@, f.swarm_id@)
            &&& json::jget_str(v, "fact"@) == Some(f.fact@)
            &&& json::jget_str(v, "kind"@) == Some(f.kind@)
            &&& f.metadata matches Some(m) ==> json::jget(v, "metadata"@) == Some(m@)
            &&& f.metadata is None ==> json::jget(v, "metadata"@) is None
            &&& f.target matches Some(t) ==> json::jget(v, "target"@) == Some(
                json::jtexts(text::texts(t@)),
            )
            &&& f.target is None ==> json::jget(v, "target"@) is None
        }),
        ({
            let v = subscribe_json(c);
            &&& names_its_caller(v, c.key@, c.agent_id@, c.swarm_id@)
            &&& json::jget_str(v, "connection_id"@) == Some(c.connection_id@)
            &&& c.filter matches Some(m) ==> json::jget(v, "filter"@) == Some(m@)
            &&& c.filter is None ==> json::jget(v, "filter"@) is None
        }),
{
    lemma_store_keys();
}

} // verus!
