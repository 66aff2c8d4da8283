//! The plan that memory makes for a task: the model, its limits and how to reach it.

use vstd::prelude::*;
use vstd::string::*;

use crate::agent::pricing;
use crate::agent::pricing::model_pricing_from_value;
use crate::agent::pricing::ModelPricing;
use crate::agent::pricing::PricingV;
use crate::client::secrets::SecretRef;
use crate::client::secrets::SecretRefV;
use crate::json;
use crate::json::JValue;
use crate::json::Json;
use crate::llm::local_cli::CommandV;
use crate::llm::local_cli::ConfigV;
use crate::llm::local_cli::LocalCliConfig;
use crate::text;
use crate::text::same;
use crate::text::trim;

verus! {

/// How a task is to be executed.
#[derive(Debug)]
pub struct RecallExecutionPlan {
    pub model_id: String,
    pub max_tokens: u32,
    pub use_tool: bool,
    /// The coding CLI that does the work, where memory chose one.
    pub local_cli: Option<LocalCliConfig>,
    /// The secret that holds the API key.
    pub secret_ref: Option<SecretRef>,
    /// The prices that memory gave for the model.
    pub pricing: Option<ModelPricing>,
}

pub ghost struct PlanV {
    pub model_id: Seq<char>,
    pub max_tokens: u32,
    pub use_tool: bool,
    pub local_cli: Option<ConfigV>,
    pub secret_ref: Option<SecretRefV>,
    pub pricing: Option<PricingV>,
}

pub open spec fn cli_view(o: Option<LocalCliConfig>) -> Option<ConfigV> {
    match o {
        Some(c) => Some(c@),
        None => None,
    }
}

pub open spec fn secret_view(o: Option<SecretRef>) -> Option<SecretRefV> {
    match o {
        Some(s) => Some(s@),
        None => None,
    }
}

pub open spec fn plan_view(o: Option<RecallExecutionPlan>) -> Option<PlanV> {
    match o {
        Some(p) => Some(p@),
        None => None,
    }
}

impl RecallExecutionPlan {
    pub open spec fn view(&self) -> PlanV {
        PlanV {
            model_id: self.model_id@,
            max_tokens: self.max_tokens,
            use_tool: self.use_tool,
            local_cli: cli_view(self.local_cli),
            secret_ref: secret_view(self.secret_ref),
            pricing: pricing::pricing_view(self.pricing),
        }
    }
}

/// The fields that can name a workspace, the first one that is there first.
pub open spec fn workspace_field(v: JValue) -> Option<Seq<char>> {
    match json::jget_str(v, "workspace_dir"@) {
        Some(s) => Some(s),
        None => match json::jget_str(v, "local_cli_workspace"@) {
            Some(s) => Some(s),
            None => match json::jget_str(v, "working_directory"@) {
                Some(s) => Some(s),
                None => match json::jget_str(v, "repo_worktree"@) {
                    Some(s) => Some(s),
                    None => json::jget_str(v, "cwd"@),
                },
            },
        },
    }
}

/// The workspace that a value names: the first field that is there counts, even a blank one.
pub open spec fn workspace_in(v: JValue) -> Option<Seq<char>> {
    match workspace_field(v) {
        Some(s) => if text::trimmed(s).len() > 0 {
            Some(text::trimmed(s))
        } else {
            None
        },
        None => None,
    }
}

fn find_workspace_field(value: &Json) -> (r: Option<&str>)
    ensures
        text::opt_slice(r) == workspace_field(value@),
{
    match value.get_str("workspace_dir") {
        Some(s) => Some(s),
        None => match value.get_str("local_cli_workspace") {
            Some(s) => Some(s),
            None => match value.get_str("working_directory") {
                Some(s) => Some(s),
                None => match value.get_str("repo_worktree") {
                    Some(s) => Some(s),
                    None => value.get_str("cwd"),
                },
            },
        },
    }
}

pub fn workspace_dir_from_value(value: &Json) -> (r: Option<String>)
    ensures
        text::opt_text(r) == workspace_in(value@),
{
    match find_workspace_field(value) {
        Some(s) => {
            let t = trim(s);
            if t.unicode_len() > 0 {
                Some(t.to_owned())
            } else {
                None
            }
        },
        None => None,
    }
}

/// The limit on a model's answer: the lower 32 bits of what the payload says.
pub open spec fn max_tokens_in(payload: JValue) -> u32 {
    match json::jget(payload, "max_tokens"@) {
        Some(v) => match json::ju64(v) {
            Some(n) => (n % 0x1_0000_0000) as u32,
            None => 4096u32,
        },
        None => 4096u32,
    }
}

fn payload_max_tokens(payload: &Json) -> (r: u32)
    ensures
        r == max_tokens_in(payload@),
{
    match payload.get("max_tokens") {
        Some(v) => match v.as_u64() {
            Some(n) => (n % 0x1_0000_0000) as u32,
            None => 4096,
        },
        None => 4096,
    }
}

/// A value's field, where there is a value.
pub open spec fn opt_get(v: Option<JValue>, key: Seq<char>) -> Option<JValue> {
    match v {
        Some(x) => json::jget(x, key),
        None => None,
    }
}

fn get_in<'a>(v: Option<&'a Json>, key: &str) -> (r: Option<&'a Json>)
    ensures
        json::opt_json(r) == opt_get(json::opt_json(v), key@),
{
    match v {
        Some(x) => x.get(key),
        None => None,
    }
}

/// The secret that an object refers to, unless it has no name.
pub open spec fn secret_in(v: JValue) -> Option<SecretRefV> {
    if v is Obj {
        let name = match json::jget_str(v, "name"@) {
            Some(s) => s,
            None => seq![],
        };
        if name.len() == 0 {
            None
        } else {
            Some(
                SecretRefV {
                    name,
                    scope: match json::jget_str(v, "scope"@) {
                        Some(s) => s,
                        None => "system-wide"@,
                    },
                    swarm_id: json::jget_str(v, "swarm_id"@),
                },
            )
        }
    } else {
        None
    }
}

fn secret_from(v: &Json) -> (r: Option<SecretRef>)
    ensures
        secret_view(r) == secret_in(v@),
{
    if !v.is_object() {
        return None;
    }
    match v.get_str("name") {
        Some(name) => {
            if name.unicode_len() == 0 {
                return None;
            }
            let scope = match v.get_str("scope") {
                Some(s) => s.to_owned(),
                None => "system-wide".to_owned(),
            };
            let swarm_id = match v.get_str("swarm_id") {
                Some(s) => Some(s.to_owned()),
                None => None,
            };
            Some(SecretRef { name: name.to_owned(), scope, swarm_id })
        },
        None => None,
    }
}

/// The texts among the items of an array.
pub open spec fn texts_among(items: Seq<JValue>) -> Seq<Seq<char>>
    decreases items.len(),
{
    if items.len() == 0 {
        seq![]
    } else {
        let init = texts_among(items.drop_last());
        match json::jstr(items.last()) {
            Some(s) => init.push(s),
            None => init,
        }
    }
}

fn collect_texts(items: &Vec<Json>) -> (r: Vec<String>)
    ensures
        text::texts(r@) == texts_among(json::items_view(items@)),
{
    let ghost all = json::items_view(items@);
    let mut out: Vec<String> = Vec::new();
    let mut i: usize = 0;
    assert(text::texts(out@) =~= texts_among(all.take(0)));
    while i < items.len()
        invariant
            i <= items.len(),
            all == json::items_view(items@),
            text::texts(out@) == texts_among(all.take(i as int)),
        decreases items.len() - i,
    {
        assert(all.take(i + 1).drop_last() =~= all.take(i as int));
        assert(all.take(i + 1).last() == items@[i as int]@);
        match items[i].as_str() {
            Some(s) => {
                let ghost before = text::texts(out@);
                out.push(s.to_owned());
                assert(text::texts(out@) =~= before.push(s@));
            },
            None => {},
        }
        i = i + 1;
    }
    assert(all.take(i as int) =~= all);
    out
}

/// Which backend a payload, or the data about it, asks for.
pub open spec fn backend_in(payload: JValue, meta: Option<JValue>) -> Seq<char> {
    match json::jget_str(payload, "backend"@) {
        Some(b) => b,
        None => match meta {
            Some(m) => match json::jget_str(m, "backend"@) {
                Some(b) => b,
                None => "api"@,
            },
            None => "api"@,
        },
    }
}

/// The coding CLI that a payload asks for: `None` where it asks for one and does not say which.
pub open spec fn local_cli_in(payload: JValue, meta: Option<JValue>) -> Option<Option<ConfigV>> {
    if backend_in(payload, meta) != "local_cli"@ {
        Some(None)
    } else {
        match json::jget_str(payload, "cli_bin"@) {
            None => None,
            Some(raw) => if text::trimmed(raw).len() == 0 {
                None
            } else {
                Some(
                    Some(
                        ConfigV {
                            command: CommandV::Stdin {
                                cli_bin: text::trimmed(raw),
                                cli_args_prefix: match json::jget(payload, "cli_args_prefix"@) {
                                    Some(v) => match json::jarr(v) {
                                        Some(items) => texts_among(items),
                                        None => seq![],
                                    },
                                    None => seq![],
                                },
                            },
                            workspace_dir: match workspace_in(payload) {
                                Some(d) => Some(d),
                                None => match meta {
                                    Some(m) => workspace_in(m),
                                    None => None,
                                },
                            },
                        },
                    ),
                )
            },
        }
    }
}

fn backend_of(payload: &Json, meta: Option<&Json>) -> (r: String)
    ensures
        r@ == backend_in(payload@, json::opt_json(meta)),
{
    match payload.get_str("backend") {
        Some(b) => b.to_owned(),
        None => match meta {
            Some(m) => match m.get_str("backend") {
                Some(b) => b.to_owned(),
                None => "api".to_owned(),
            },
            None => "api".to_owned(),
        },
    }
}

pub fn local_cli_config_from_recall(payload: &Json, payload_meta: Option<&Json>) -> (r: Option<
    Option<LocalCliConfig>,
>)
    ensures
        match r {
            Some(c) => local_cli_in(payload@, json::opt_json(payload_meta)) == Some(cli_view(c)),
            None => local_cli_in(payload@, json::opt_json(payload_meta)) is None,
        },
{
    let backend = backend_of(payload, payload_meta);
    if !same(backend.as_str(), "local_cli") {
        return Some(None);
    }
    let cli_bin = match payload.get_str("cli_bin") {
        Some(raw) => trim(raw),
        None => {
            return None;
        },
    };
    if cli_bin.unicode_len() == 0 {
        return None;
    }
    let cli_args_prefix = match payload.get_array("cli_args_prefix") {
        Some(items) => collect_texts(items),
        None => {
            let none: Vec<String> = Vec::new();
            assert(text::texts(none@) =~= seq![]);
            none
        },
    };
    let workspace_dir = match workspace_dir_from_value(payload) {
        Some(d) => Some(d),
        None => match payload_meta {
            Some(m) => workspace_dir_from_value(m),
            None => None,
        },
    };
    Some(Some(LocalCliConfig::legacy_stdin(cli_bin.to_owned(), cli_args_prefix, workspace_dir)))
}

/// The plan in what memory answered, where it names a model.
pub open spec fn plan_in(recall: JValue) -> Option<PlanV> {
    match json::jget(recall, "payload"@) {
        None => None,
        Some(payload) => {
            let meta = json::jget(recall, "payload_meta"@);
            let requested = match opt_get(meta, "use_tool"@) {
                Some(v) => match json::jbool(v) {
                    Some(b) => b,
                    None => false,
                },
                None => false,
            };
            let secret = match json::jget(recall, "secret_ref"@) {
                Some(v) => Some(v),
                None => opt_get(meta, "secret_ref"@),
            };
            match (json::jget_str(payload, "model"@), local_cli_in(payload, meta)) {
                (Some(model_id), Some(local_cli)) => Some(
                    PlanV {
                        model_id,
                        max_tokens: max_tokens_in(payload),
                        use_tool: requested && local_cli is None,
                        local_cli,
                        secret_ref: match secret {
                            Some(v) => secret_in(v),
                            None => None,
                        },
                        pricing: match opt_get(meta, "pricing"@) {
                            Some(v) => pricing::pricing_in(v),
                            None => None,
                        },
                    },
                ),
                _ => None,
            }
        },
    }
}

/// A coding CLI is never given tools, whatever memory asked for.
pub proof fn law_local_cli_has_no_tools(recall: JValue)
    ensures
        plan_in(recall) matches Some(p) ==> (p.local_cli is Some ==> !p.use_tool),
{
}

pub fn execution_plan_from_recall(recall_result: &Json) -> (r: Option<RecallExecutionPlan>)
    ensures
        plan_view(r) == plan_in(recall_result@),
{
    let payload = match recall_result.get("payload") {
        Some(p) => p,
        None => {
            return None;
        },
    };
    let meta = recall_result.get("payload_meta");
    let max_tokens: u32 = payload_max_tokens(payload);
    let requested = match get_in(meta, "use_tool") {
        Some(v) => match v.as_bool() {
            Some(b) => b,
            None => false,
        },
        None => false,
    };
    let secret = match recall_result.get("secret_ref") {
        Some(v) => Some(v),
        None => get_in(meta, "secret_ref"),
    };
    let secret_ref = match secret {
        Some(v) => secret_from(v),
        None => None,
    };
    let pricing = match get_in(meta, "pricing") {
        Some(v) => model_pricing_from_value(v),
        None => None,
    };
    let model_id = match payload.get_str("model") {
        Some(m) => m.to_owned(),
        None => {
            return None;
        },
    };
    let local_cli = match local_cli_config_from_recall(payload, meta) {
        Some(c) => c,
        None => {
            return None;
        },
    };
    let use_tool = requested && local_cli.is_none();
    Some(
        RecallExecutionPlan { model_id, max_tokens, use_tool, local_cli, secret_ref, pricing },
    )
}

/// How many seconds a call of a model may take: a coding CLI may take any time.
pub fn llm_call_timeout(plan: Option<&RecallExecutionPlan>) -> (r: Option<u64>)
    ensures
        r == (match plan {
            Some(p) => if p@.local_cli is Some {
                None::<u64>
            } else {
                Some(300u64)
            },
            None => Some(300u64),
        }),
{
    match plan {
        Some(p) => if p.local_cli.is_some() {
            None
        } else {
            Some(300)
        },
        None => Some(300),
    }
}

/// A plan is what memory said: the model, the limit of an answer, the key to use and the prices; a
/// plan without a model is none.
pub proof fn law_plan_is_what_memory_said(recall: JValue, payload: JValue, meta: JValue)
    requires
        json::jget(recall, "payload"@) == Some(payload),
        json::jget(recall, "payload_meta"@) == Some(meta),
        json::jget_str(payload, "backend"@) == Some("api"@),
    ensures
        json::jget_str(payload, "model"@) is None ==> plan_in(recall) is None,
        json::jget_str(payload, "model"@) matches Some(model) ==> (plan_in(recall) matches Some(p) && {
            &&& p.model_id == model
            &&& p.local_cli is None
            &&& json::jget(payload, "max_tokens"@) is None ==> p.max_tokens == 4096
            &&& json::ju64(json::jat(payload, "max_tokens"@)) matches Some(n) ==> n <= u32::MAX
                ==> p.max_tokens == n
            &&& p.use_tool == (json::jbool(json::jat(meta, "use_tool"@)) == Some(true))
            &&& json::jget(recall, "secret_ref"@) matches Some(v) ==> p.secret_ref == secret_in(v)
            &&& json::jget(recall, "secret_ref"@) is None ==> (json::jget(
                meta,
                "secret_ref"@,
            ) matches Some(v) ==> p.secret_ref == secret_in(v))
            &&& json::jget(meta, "pricing"@) matches Some(v) ==> p.pricing == pricing::pricing_in(v)
        }),
{
    reveal_strlit("api");
    reveal_strlit("local_cli");
    assert("api"@.len() != "local_cli"@.len());
}

/// A coding CLI is run by the command and with the arguments that memory gave, in the directory
/// that it gave; without a command there is no plan.
pub proof fn law_planned_cli_is_what_memory_said(recall: JValue, payload: JValue)
    requires
        json::jget(recall, "payload"@) == Some(payload),
        json::jget_str(payload, "backend"@) == Some("local_cli"@),
    ensures
        json::jget_str(payload, "cli_bin"@) is None ==> plan_in(recall) is None,
        plan_in(recall) matches Some(p) ==> (p.local_cli matches Some(c) && (c.command matches CommandV::Stdin {
            cli_bin,
            cli_args_prefix,
        } && (json::jget_str(payload, "cli_bin"@) matches Some(raw) && cli_bin == text::trimmed(raw))
            && (json::jarr(json::jat(payload, "cli_args_prefix"@)) matches Some(items)
            ==> cli_args_prefix == texts_among(items))) && (json::jget_str(
            payload,
            "workspace_dir"@,
        ) matches Some(dir) ==> text::trimmed(dir).len() > 0 ==> c.workspace_dir == Some(
            text::trimmed(dir),
        ))),
{
}

/// A list of texts is read whole and in order.
pub proof fn law_texts_are_read_in_order(texts: Seq<Seq<char>>)
    ensures
        texts_among(texts.map_values(|s: Seq<char>| JValue::Str(s))) == texts,
    decreases texts.len(),
{
    let items = texts.map_values(|s: Seq<char>| JValue::Str(s));
    if texts.len() > 0 {
        let front = texts.drop_last();
        law_texts_are_read_in_order(front);
        assert(items.drop_last() =~= front.map_values(|s: Seq<char>| JValue::Str(s)));
        assert(front.push(texts.last()) =~= texts);
    } else {
        assert(texts_among(items) =~= texts);
    }
}

/// The secret of a plan is the one that memory named, system-wide unless it says otherwise.
pub proof fn law_secret_is_the_one_named(v: JValue, name: Seq<char>)
    requires
        json::jget_str(v, "name"@) == Some(name),
        name.len() > 0,
    ensures
        secret_in(v) matches Some(secret) && secret.name == name && secret.swarm_id
            == json::jget_str(v, "swarm_id"@) && (json::jget_str(v, "scope"@) matches Some(scope)
            ==> secret.scope == scope) && (json::jget_str(v, "scope"@) is None ==> secret.scope
            == "system-wide"@),
{
}

/// A plan's directory is the one that is named nearest to the work, in the call before what is said
/// of it; one that is blank counts for none.
pub proof fn law_planned_directory_is_the_nearest(payload: JValue, meta: JValue, d: Seq<char>)
    ensures
        workspace_in(payload) matches Some(dir) ==> dir.len() > 0,
        json::jget_str(payload, "workspace_dir"@) is None && json::jget_str(
            payload,
            "local_cli_workspace"@,
        ) == Some(d) && text::trimmed(d).len() > 0 ==> workspace_in(payload) == Some(
            text::trimmed(d),
        ),
        workspace_field(payload) is None <==> json::jget_str(payload, "workspace_dir"@) is None
            && json::jget_str(payload, "local_cli_workspace"@) is None && json::jget_str(
            payload,
            "working_directory"@,
        ) is None && json::jget_str(payload, "repo_worktree"@) is None && json::jget_str(
            payload,
            "cwd"@,
        ) is None,
        workspace_field(payload) matches Some(dir) ==> json::jget_str(payload, "workspace_dir"@)
            == Some(dir) || json::jget_str(payload, "local_cli_workspace"@) == Some(dir)
            || json::jget_str(payload, "working_directory"@) == Some(dir) || json::jget_str(
            payload,
            "repo_worktree"@,
        ) == Some(dir) || json::jget_str(payload, "cwd"@) == Some(dir),
        local_cli_in(payload, Some(meta)) matches Some(Some(c)) ==> (workspace_in(payload) is Some
            ==> c.workspace_dir == workspace_in(payload)) && (workspace_in(payload) is None
            ==> c.workspace_dir == workspace_in(meta)),
{
}

/// Where the call does not say how it is made, what is said of it does; otherwise it is made by an
/// API.
pub proof fn law_backend_is_named(payload: JValue, meta: JValue, b: Seq<char>)
    ensures
        json::jget_str(payload, "backend"@) == Some(b) ==> backend_in(payload, Some(meta)) == b,
        json::jget_str(payload, "backend"@) is None && json::jget_str(meta, "backend"@) == Some(b)
            ==> backend_in(payload, Some(meta)) == b,
        json::jget_str(payload, "backend"@) is None && json::jget_str(meta, "backend"@) is None
            ==> backend_in(payload, Some(meta)) == "api"@,
        json::jget_str(payload, "backend"@) is None ==> backend_in(payload, None) == "api"@,
        backend_in(payload, Some(meta)) != "local_cli"@ ==> local_cli_in(payload, Some(meta)) == Some(
            None::<ConfigV>,
        ),
        json::jget(payload, "cli_args_prefix"@) is None ==> (local_cli_in(
            payload,
            Some(meta),
        ) matches Some(Some(c)) ==> c.command->cli_args_prefix.len() == 0),
{
}

/// Of the directories that are named, the nearer one is taken.
pub proof fn law_nearer_name_wins(v: JValue, d: Seq<char>)
    requires
        json::jget_str(v, "workspace_dir"@) is None,
        json::jget_str(v, "local_cli_workspace"@) is None,
    ensures
        json::jget_str(v, "working_directory"@) == Some(d) ==> workspace_field(v) == Some(d),
        json::jget_str(v, "working_directory"@) is None && json::jget_str(v, "repo_worktree"@) == Some(d)
            ==> workspace_field(v) == Some(d),
{
}

} // verus!
