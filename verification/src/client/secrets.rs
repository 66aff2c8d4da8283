//! Secrets that memory keeps for an agent.

use vstd::prelude::*;
use vstd::string::*;

use crate::client::memory;
use crate::text;
use crate::json;
use crate::json::put;
use crate::json::put_text;
use crate::json::JValue;
use crate::json::Json;
use crate::text::trim_trailing;

verus! {

/// A secret by its name and scope.
#[derive(Debug)]
pub struct SecretRef {
    pub name: String,
    pub scope: String,
    pub swarm_id: Option<String>,
}

pub ghost struct SecretRefV {
    pub name: Seq<char>,
    pub scope: Seq<char>,
    pub swarm_id: Option<Seq<char>>,
}

/// A secret's name and scope, as JSON.
pub open spec fn secret_ref_json(s: SecretRefV) -> JValue {
    JValue::Obj(
        memory::with_opt(
            Map::<Seq<char>, JValue>::empty().insert("name"@, JValue::Str(s.name)).insert(
                "scope"@,
                JValue::Str(s.scope),
            ),
            "swarm_id"@,
            memory::opt_str_json(s.swarm_id),
        ),
    )
}

impl SecretRef {
    pub open spec fn view(&self) -> SecretRefV {
        SecretRefV { name: self.name@, scope: self.scope@, swarm_id: text::opt_text(self.swarm_id) }
    }

    /// The name and scope, as JSON.
    pub fn to_json(&self) -> (r: Json)
        ensures
            r@ == secret_ref_json(self@),
    {
        let mut entries: Vec<(String, Json)> = Vec::new();
        put_text(&mut entries, "name", self.name.as_str());
        put_text(&mut entries, "scope", self.scope.as_str());
        match &self.swarm_id {
            Some(id) => {
                put_text(&mut entries, "swarm_id", id.as_str());
            },
            None => {},
        }
        Json::Obj(entries)
    }

    pub fn copy(&self) -> (r: SecretRef)
        ensures
            r@ == self@,
    {
        SecretRef {
            name: self.name.clone(),
            scope: self.scope.clone(),
            swarm_id: crate::text::copy_opt(&self.swarm_id),
        }
    }
}

/// A secret sealed for the agent's key.
#[derive(Debug)]
pub struct EncryptedSecret {
    pub name: String,
    pub scope: String,
    pub algorithm: String,
    pub key_id: String,
    pub ciphertext: String,
}

/// Where secrets are asked for.
pub fn resolve_url(memory_url: &str) -> (r: String)
    ensures
        r@ == text::without_trailing(memory_url@, '/') + "/api/v1/agent/secrets/resolve"@,
{
    let mut out: String = trim_trailing(memory_url, '/').to_owned();
    out.append("/api/v1/agent/secrets/resolve");
    out
}

/// The secrets that are asked for.
pub open spec fn refs_view(refs: Seq<SecretRef>) -> Seq<SecretRefV> {
    refs.map_values(|r: SecretRef| r@)
}

/// What is asked for.
pub open spec fn resolve_json(key: Seq<char>, refs: Seq<SecretRefV>) -> JValue {
    JValue::Obj(
        Map::<Seq<char>, JValue>::empty().insert("key"@, JValue::Str(key)).insert(
            "refs"@,
            JValue::Arr(refs.map_values(|r: SecretRefV| secret_ref_json(r))),
        ),
    )
}

/// What is asked for.
pub fn resolve_body(key: &str, refs: &[SecretRef]) -> (r: Json)
    ensures
        r@ == resolve_json(key@, refs_view(refs@)),
{
    let mut items: Vec<Json> = Vec::new();
    let mut i: usize = 0;
    while i < refs.len()
        invariant
            i <= refs.len(),
            items.len() == i,
            forall|k: int| 0 <= k < i ==> (#[trigger] items@[k])@ == secret_ref_json(refs@[k]@),
        decreases refs.len() - i,
    {
        items.push(refs[i].to_json());
        i = i + 1;
    }
    assert(json::items_view(items@) =~= refs_view(refs@).map_values(
        |r: SecretRefV| secret_ref_json(r),
    ));
    let mut entries: Vec<(String, Json)> = Vec::new();
    put_text(&mut entries, "key", key);
    put(&mut entries, "refs", Json::Arr(items));
    Json::Obj(entries)
}

/// What a refused request is reported as.
pub fn resolve_error(status: &str, body: &str) -> (r: String)
    ensures
        r@ == "secret resolve failed (HTTP "@ + status@ + "): "@ + body@,
{
    let mut out: String = "secret resolve failed (HTTP ".to_owned();
    out.append(status);
    out.append("): ");
    out.append(body);
    out
}

/// Where the way to a secret ended.
#[derive(Debug, Clone, Copy, PartialEq, Eq, Structural)]
pub enum SecretStep {
    /// The agent was not given what secrets are opened with.
    NoContext,
    /// Memory did not hand it out.
    Resolving,
    /// Memory handed nothing out.
    Empty,
    /// It could not be opened.
    Decrypting,
}

/// What is said of a secret that could not be had.
pub open spec fn secret_failure(name: Seq<char>, scope: Seq<char>, step: SecretStep) -> Seq<char> {
    match step {
        SecretStep::NoContext => "no secret context — bootstrap file was not provided"@,
        SecretStep::Resolving => "resolving secret '"@ + name + "' (scope="@ + scope + ")"@,
        SecretStep::Empty => "secret '"@ + name + "' (scope="@ + scope
            + ") resolved but returned no data"@,
        SecretStep::Decrypting => "decrypting secret '"@ + name + "'"@,
    }
}

/// What is said of a secret that could not be had.
pub fn describe_failure(secret: &SecretRef, step: SecretStep) -> (r: String)
    ensures
        r@ == secret_failure(secret.name@, secret.scope@, step),
{
    match step {
        SecretStep::NoContext => "no secret context — bootstrap file was not provided".to_owned(),
        SecretStep::Resolving => {
            let mut out = "resolving secret '".to_owned();
            out.append(secret.name.as_str());
            out.append("' (scope=");
            out.append(secret.scope.as_str());
            out.append(")");
            out
        },
        SecretStep::Empty => {
            let mut out = "secret '".to_owned();
            out.append(secret.name.as_str());
            out.append("' (scope=");
            out.append(secret.scope.as_str());
            out.append(") resolved but returned no data");
            out
        },
        SecretStep::Decrypting => {
            let mut out = "decrypting secret '".to_owned();
            out.append(secret.name.as_str());
            out.append("'");
            out
        },
    }
}

proof fn lemma_keys()
    ensures
        "name"@.len() == 4 && "name"@[0] == 'n',
        "scope"@.len() == 5,
        "swarm_id"@.len() == 8,
        "key"@.len() == 3,
        "refs"@.len() == 4 && "refs"@[0] == 'r',
{
    reveal_strlit("name");
    reveal_strlit("scope");
    reveal_strlit("swarm_id");
    reveal_strlit("key");
    reveal_strlit("refs");
}

/// Each secret is asked for by its name and scope, and its swarm where it has one; all of them, in
/// order, in the memory that the key names.
pub proof fn law_secrets_are_asked_for_by_name(key: Seq<char>, refs: Seq<SecretRefV>)
    ensures
        json::jget_str(resolve_json(key, refs), "key"@) == Some(key),
        json::jarr(json::jat(resolve_json(key, refs), "refs"@)) matches Some(items) && items.len()
            == refs.len() && forall|k: int|
            #![trigger items[k]]
            0 <= k < refs.len() ==> json::jget_str(items[k], "name"@) == Some(refs[k].name)
                && json::jget_str(items[k], "scope"@) == Some(refs[k].scope) && json::jget_str(
                items[k],
                "swarm_id"@,
            ) == refs[k].swarm_id,
{
    lemma_keys();
}

/// A secret that can not be had is named in the error, and never shown.
pub proof fn law_missing_secret_is_named(name: Seq<char>, scope: Seq<char>, step: SecretStep)
    requires
        !(step is NoContext),
    ensures
        text::has_infix(secret_failure(name, scope, step), "'"@ + name + "'"@),
        !(step is Decrypting) ==> text::has_infix(
            secret_failure(name, scope, step),
            "(scope="@ + scope + ")"@,
        ),
{
    reveal_strlit("'");
    reveal_strlit("resolving secret '");
    reveal_strlit("secret '");
    reveal_strlit("decrypting secret '");
    reveal_strlit("' (scope=");
    reveal_strlit("(scope=");
    let quoted = "'"@ + name + "'"@;
    let scoped = "(scope="@ + scope + ")"@;
    let said = secret_failure(name, scope, step);
    assert("' (scope="@ =~= "'"@ + seq![' '] + "(scope="@);
    match step {
        SecretStep::Resolving => {
            let head = "resolving secret '"@.take(17);
            assert("resolving secret '"@ =~= head + "'"@);
            assert(said =~= head + quoted + (seq![' '] + scoped));
            text::lemma_infix(head, quoted, seq![' '] + scoped);
            assert(said =~= (head + quoted + seq![' ']) + scoped + Seq::<char>::empty());
            text::lemma_infix(head + quoted + seq![' '], scoped, seq![]);
        },
        SecretStep::Empty => {
            let head = "secret '"@.take(7);
            reveal_strlit(") resolved but returned no data");
            let tail = ") resolved but returned no data"@.skip(1);
            reveal_strlit(")");
            assert(") resolved but returned no data"@ =~= ")"@ + tail);
            assert("secret '"@ =~= head + "'"@);
            assert(said =~= head + quoted + (seq![' '] + scoped + tail));
            text::lemma_infix(head, quoted, seq![' '] + scoped + tail);
            assert(said =~= (head + quoted + seq![' ']) + scoped + tail);
            text::lemma_infix(head + quoted + seq![' '], scoped, tail);
        },
        SecretStep::Decrypting => {
            let head = "decrypting secret '"@.take(18);
            assert("decrypting secret '"@ =~= head + "'"@);
            assert(said =~= head + quoted + Seq::<char>::empty());
            text::lemma_infix(head, quoted, seq![]);
        },
        _ => {},
    }
}

} // verus!
