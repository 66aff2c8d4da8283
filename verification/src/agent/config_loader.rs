//! Finding an agent's configuration in memory.

use vstd::prelude::*;
use vstd::string::*;

use crate::agent::config;
use crate::agent::config::AgentConfig;
use crate::agent::config::AgentConfigV;
use crate::agent::config::ProfileRuntime;
use crate::agent::persist;
use crate::agent::resolve;
use crate::agent::resolve::target_contains;
use crate::client::memory;
use crate::client::memory::MemoryQueryParams;
use crate::client::memory::QueryV;
use crate::json;
use crate::json::put_text;
use crate::json::JValue;
use crate::json::Json;
use crate::strmap::StrMap;
use crate::text;
use crate::text::decimal_of_signed;
use crate::text::is_number;
use crate::text::parse_i64;
use crate::text::parse_u64;
use crate::text::same;
use crate::text::strip_prefix;
use crate::text::strip_suffix;

verus! {

/// The form of configuration that is understood.
pub const AGENT_CONFIG_SCHEMA_VERSION: i64 = 1;

/// A whole number, or a text that spells one.
pub open spec fn signed(v: JValue) -> Option<int> {
    match v {
        JValue::Str(s) => text::parsed_i64(s),
        _ => json::ji64(v),
    }
}

/// A whole number that is not negative, or a text that spells one.
pub open spec fn unsigned(v: JValue) -> Option<int> {
    match v {
        JValue::Str(s) => text::parsed_u64(s),
        _ => json::ju64(v),
    }
}

/// Such a number, where it is at most `max`.
pub open spec fn unsigned_within(v: JValue, max: int) -> Option<int> {
    match unsigned(v) {
        Some(n) => if n <= max {
            Some(n)
        } else {
            None
        },
        None => None,
    }
}

/// Whether a value can be read as a number: it is one, or a text that spells one.
pub open spec fn spells(v: JValue) -> bool {
    match v {
        JValue::Int(_) | JValue::Float(_) => true,
        JValue::Str(s) => text::spells_number(s),
        _ => false,
    }
}

fn as_i64(v: &Json) -> (r: Option<i64>)
    ensures
        match r {
            Some(n) => signed(v@) == Some(n as int),
            None => signed(v@) is None,
        },
{
    match v {
        Json::Str(s) => parse_i64(s.as_str()),
        _ => v.as_i64(),
    }
}

fn as_u64(v: &Json) -> (r: Option<u64>)
    ensures
        match r {
            Some(n) => unsigned(v@) == Some(n as int),
            None => unsigned(v@) is None,
        },
{
    match v {
        Json::Str(s) => parse_u64(s.as_str()),
        _ => v.as_u64(),
    }
}

fn as_usize(v: &Json) -> (r: Option<usize>)
    ensures
        match r {
            Some(n) => unsigned_within(v@, usize::MAX as int) == Some(n as int),
            None => unsigned_within(v@, usize::MAX as int) is None,
        },
{
    match as_u64(v) {
        Some(n) => if n <= usize::MAX as u64 {
            Some(n as usize)
        } else {
            None
        },
        None => None,
    }
}

fn as_u32(v: &Json) -> (r: Option<u32>)
    ensures
        match r {
            Some(n) => unsigned_within(v@, u32::MAX as int) == Some(n as int),
            None => unsigned_within(v@, u32::MAX as int) is None,
        },
{
    match as_u64(v) {
        Some(n) => if n <= u32::MAX as u64 {
            Some(n as u32)
        } else {
            None
        },
        None => None,
    }
}

/// The field that sets a profile's cooldown.
pub open spec fn cooldown_key(profile: Seq<char>) -> Seq<char> {
    "profile."@ + profile + ".cooldown_secs"@
}

/// The field that sets how often a profile may run at once.
pub open spec fn concurrency_key(profile: Seq<char>) -> Seq<char> {
    "profile."@ + profile + ".max_concurrency"@
}

/// The profile whose cooldown a field sets.
pub open spec fn cooldown_profile(key: Seq<char>) -> Option<Seq<char>> {
    match text::without_prefix(key, "profile."@) {
        Some(rest) => text::without_suffix(rest, ".cooldown_secs"@),
        None => None,
    }
}

/// The profile whose concurrency a field sets.
pub open spec fn concurrency_profile(key: Seq<char>) -> Option<Seq<char>> {
    match text::without_prefix(key, "profile."@) {
        Some(rest) => text::without_suffix(rest, ".max_concurrency"@),
        None => None,
    }
}

/// What is wrong with a field that sets something of a profile.
pub open spec fn override_error(key: Seq<char>, value: JValue) -> Option<Seq<char>> {
    if cooldown_profile(key) is Some && unsigned(value) is None {
        Some("profile cooldown override must be integer"@)
    } else if concurrency_profile(key) is Some && unsigned_within(value, usize::MAX as int) is None {
        Some("profile max_concurrency override must be integer"@)
    } else {
        None
    }
}

/// Whether a field is the first, in the order of texts, of those that are wrong.
pub open spec fn first_wrong(metadata: Map<Seq<char>, JValue>, key: Seq<char>) -> bool {
    &&& metadata.dom().contains(key)
    &&& override_error(key, metadata[key]) is Some
    &&& forall|other: Seq<char>| #[trigger]
        metadata.dom().contains(other) && override_error(other, metadata[other]) is Some
            ==> text::lex_le(key, other)
}

/// What is wrong with the fields that set something of a profile: what is wrong with the first.
pub open spec fn overrides_error(metadata: Map<Seq<char>, JValue>) -> Option<Seq<char>> {
    if exists|key: Seq<char>| first_wrong(metadata, key) {
        let key = choose|key: Seq<char>| first_wrong(metadata, key);
        override_error(key, metadata[key])
    } else {
        None
    }
}

/// How profiles may be run, with what some fields set.
pub open spec fn with_overrides(
    base: Map<Seq<char>, ProfileRuntime>,
    metadata: Map<Seq<char>, JValue>,
    fields: Set<Seq<char>>,
) -> Map<Seq<char>, ProfileRuntime> {
    Map::new(
        |p: Seq<char>|
            base.dom().contains(p) || fields.contains(cooldown_key(p)) || fields.contains(
                concurrency_key(p),
            ),
        |p: Seq<char>|
            ProfileRuntime {
                cooldown_secs: if fields.contains(cooldown_key(p)) {
                    Some(unsigned(metadata[cooldown_key(p)])->0 as u64)
                } else if base.dom().contains(p) {
                    base[p].cooldown_secs
                } else {
                    None
                },
                max_concurrency: if fields.contains(concurrency_key(p)) {
                    Some(
                        unsigned_within(
                            metadata[concurrency_key(p)],
                            usize::MAX as int,
                        )->0 as usize,
                    )
                } else if base.dom().contains(p) {
                    base[p].max_concurrency
                } else {
                    None
                },
            },
    )
}

/// A text field, or what held before.
pub open spec fn text_or(m: JValue, field: Seq<char>, before: Seq<char>) -> Seq<char> {
    match json::jget_str(m, field) {
        Some(s) => s,
        None => before,
    }
}

/// A field that is or spells a number, or what held before.
pub open spec fn number_or(m: JValue, field: Seq<char>, before: Option<JValue>) -> Option<JValue> {
    match json::jget(m, field) {
        Some(v) => if spells(v) {
            Some(v)
        } else {
            before
        },
        None => before,
    }
}

/// A whole number that is at most `max`, or what held before.
pub open spec fn count_or(m: JValue, field: Seq<char>, max: int, before: int) -> int {
    match unsigned_within(json::jat(m, field), max) {
        Some(n) => n,
        None => before,
    }
}

/// A configuration with what the fields of a fact set.
pub open spec fn configured(base: AgentConfigV, m: JValue) -> AgentConfigV {
    AgentConfigV {
        enabled: match json::jbool(json::jat(m, "enabled"@)) {
            Some(b) => b,
            None => true,
        },
        review_budget_reserve: number_or(m, "review_budget_reserve"@, base.review_budget_reserve),
        too_complex_threshold: number_or(m, "too_complex_threshold"@, base.too_complex_threshold),
        max_retries: count_or(
            m,
            "max_retries"@,
            u32::MAX as int,
            base.max_retries as int,
        ) as u32,
        extraction_profile: text_or(m, "extraction_profile"@, base.extraction_profile),
        fast_profile: text_or(m, "fast_profile"@, base.fast_profile),
        balanced_profile: text_or(m, "balanced_profile"@, base.balanced_profile),
        strong_profile: text_or(m, "strong_profile"@, base.strong_profile),
        review_profile: text_or(m, "review_profile"@, base.review_profile),
        max_parallel_tasks: count_or(
            m,
            "max_parallel_tasks"@,
            usize::MAX as int,
            base.max_parallel_tasks as int,
        ) as usize,
        global_cli_cooldown_secs: match unsigned(json::jat(m, "global_cli_cooldown_secs"@)) {
            Some(n) => Some(n as u64),
            None => base.global_cli_cooldown_secs,
        },
        profile_runtime: with_overrides(base.profile_runtime, m->Obj_0, m->Obj_0.dom()),
        ..base
    }
}

/// Why a fact is not the configuration of an agent.
pub open spec fn refusal(fact: JValue, agent_id: Seq<char>) -> Option<Seq<char>> {
    let metadata = json::jat(fact, "metadata"@);
    if !resolve::aimed_at(fact, resolve::target_of(agent_id)) {
        Some("AGENT_CONFIG_TARGET_MISMATCH"@)
    } else if !(metadata is Obj) {
        Some("agent_config fact missing metadata object"@)
    } else {
        match json::jget(metadata, "schema_version"@) {
            None => Some("AGENT_CONFIG_SCHEMA_VERSION_REQUIRED"@),
            Some(v) => match signed(v) {
                None => Some("INVALID_AGENT_CONFIG_SCHEMA_VERSION"@),
                Some(n) => if n != AGENT_CONFIG_SCHEMA_VERSION {
                    Some("UNSUPPORTED_AGENT_CONFIG_SCHEMA_VERSION:"@ + text::decimal_int(n))
                } else {
                    match json::jget_str(metadata, "agent_id"@) {
                        Some(id) => if id != agent_id {
                            Some("AGENT_CONFIG_AGENT_ID_MISMATCH"@)
                        } else {
                            None
                        },
                        None => None,
                    }
                },
            },
        }
    }
}

/// The configuration that a fact makes of another.
pub open spec fn config_in(base: AgentConfigV, fact: JValue, agent_id: Seq<char>) -> Result<
    AgentConfigV,
    Seq<char>,
> {
    match refusal(fact, agent_id) {
        Some(e) => Err(e),
        None => {
            let metadata = json::jat(fact, "metadata"@);
            match overrides_error(metadata->Obj_0) {
                Some(e) => Err(e),
                None => if configured(base, metadata).max_parallel_tasks == 0 {
                    Err(config::no_parallel_tasks())
                } else {
                    Ok(configured(base, metadata))
                },
            }
        },
    }
}

pub open spec fn config_view(r: Result<AgentConfig, String>) -> Result<AgentConfigV, Seq<char>> {
    match r {
        Ok(c) => Ok(c@),
        Err(e) => Err(e@),
    }
}

proof fn lemma_keys(key: Seq<char>, p: Seq<char>)
    ensures
        (cooldown_profile(key) == Some(p)) == (key == cooldown_key(p)),
        (concurrency_profile(key) == Some(p)) == (key == concurrency_key(p)),
        cooldown_profile(key) is Some ==> concurrency_profile(key) is None,
        cooldown_key(p) != concurrency_key(p),
{
    reveal_strlit("profile.");
    reveal_strlit(".cooldown_secs");
    reveal_strlit(".max_concurrency");
    let head = "profile."@;
    let cool = ".cooldown_secs"@;
    let many = ".max_concurrency"@;
    assert(cooldown_key(p).last() == 's');
    assert(concurrency_key(p).last() == 'y');
    if cooldown_profile(key) is Some {
        let rest = key.skip(head.len() as int);
        let found = cooldown_profile(key)->0;
        assert(key =~= head + rest);
        assert(rest =~= found + rest.subrange(rest.len() - cool.len(), rest.len() as int));
        assert(key =~= cooldown_key(found));
        assert(key.last() == 's');
        assert(rest.last() == 's');
        if text::has_suffix(rest, many) {
            assert(rest.subrange(rest.len() - many.len(), rest.len() as int).last() == 'y');
        }
    }
    if concurrency_profile(key) is Some {
        let rest = key.skip(head.len() as int);
        let found = concurrency_profile(key)->0;
        assert(key =~= head + rest);
        assert(rest =~= found + rest.subrange(rest.len() - many.len(), rest.len() as int));
        assert(key =~= concurrency_key(found));
    }
    if key == cooldown_key(p) {
        assert(key.subrange(0, head.len() as int) =~= head);
        let rest = key.skip(head.len() as int);
        assert(rest =~= p + cool);
        assert(rest.subrange(rest.len() - cool.len(), rest.len() as int) =~= cool);
        assert(rest.take(rest.len() - cool.len()) =~= p);
    }
    if key == concurrency_key(p) {
        assert(key.subrange(0, head.len() as int) =~= head);
        let rest = key.skip(head.len() as int);
        assert(rest =~= p + many);
        assert(rest.subrange(rest.len() - many.len(), rest.len() as int) =~= many);
        assert(rest.take(rest.len() - many.len()) =~= p);
    }
}

proof fn lemma_one_more(
    base: Map<Seq<char>, ProfileRuntime>,
    metadata: Map<Seq<char>, JValue>,
    fields: Set<Seq<char>>,
    key: Seq<char>,
)
    requires
        !fields.contains(key),
        override_error(key, metadata[key]) is None,
    ensures
        ({
            let before = with_overrides(base, metadata, fields);
            let after = with_overrides(base, metadata, fields.insert(key));
            match (cooldown_profile(key), concurrency_profile(key)) {
                (Some(p), _) => after == before.insert(
                    p,
                    ProfileRuntime {
                        cooldown_secs: Some(unsigned(metadata[key])->0 as u64),
                        max_concurrency: if before.dom().contains(p) {
                            before[p].max_concurrency
                        } else {
                            None
                        },
                    },
                ),
                (None, Some(p)) => after == before.insert(
                    p,
                    ProfileRuntime {
                        cooldown_secs: if before.dom().contains(p) {
                            before[p].cooldown_secs
                        } else {
                            None
                        },
                        max_concurrency: Some(
                            unsigned_within(metadata[key], usize::MAX as int)->0 as usize,
                        ),
                    },
                ),
                (None, None) => after == before,
            }
        }),
{
    let before = with_overrides(base, metadata, fields);
    let after = with_overrides(base, metadata, fields.insert(key));
    assert forall|p: Seq<char>|
        (cooldown_profile(key) == Some(p)) == (key == #[trigger] cooldown_key(p)) by {
        lemma_keys(key, p);
    }
    assert forall|p: Seq<char>|
        (concurrency_profile(key) == Some(p)) == (key == #[trigger] concurrency_key(p)) by {
        lemma_keys(key, p);
    }
    lemma_keys(key, seq![]);
    match (cooldown_profile(key), concurrency_profile(key)) {
        (Some(p), _) => {
            let value = ProfileRuntime {
                cooldown_secs: Some(unsigned(metadata[key])->0 as u64),
                max_concurrency: if before.dom().contains(p) {
                    before[p].max_concurrency
                } else {
                    None
                },
            };
            assert(after =~= before.insert(p, value));
        },
        (None, Some(p)) => {
            let value = ProfileRuntime {
                cooldown_secs: if before.dom().contains(p) {
                    before[p].cooldown_secs
                } else {
                    None
                },
                max_concurrency: Some(
                    unsigned_within(metadata[key], usize::MAX as int)->0 as usize,
                ),
            };
            assert(after =~= before.insert(p, value));
        },
        (None, None) => {
            assert(after =~= before);
        },
    }
}

proof fn lemma_first_wrong(metadata: Map<Seq<char>, JValue>, key: Seq<char>)
    requires
        first_wrong(metadata, key),
    ensures
        overrides_error(metadata) == override_error(key, metadata[key]),
{
    let chosen = choose|k: Seq<char>| first_wrong(metadata, k);
    assert(metadata.dom().contains(chosen) && metadata.dom().contains(key));
    text::lemma_lex_antisymmetric(key, chosen);
}

fn current(runtime: &StrMap<ProfileRuntime>, profile: &str) -> (r: ProfileRuntime)
    ensures
        r == (if runtime@.dom().contains(profile@) {
            runtime@[profile@]
        } else {
            (ProfileRuntime { cooldown_secs: None, max_concurrency: None })
        }),
{
    match runtime.get(profile) {
        Some(p) => *p,
        None => ProfileRuntime { cooldown_secs: None, max_concurrency: None },
    }
}

/// Sets what one field sets.
fn apply_override(runtime: &mut StrMap<ProfileRuntime>, key: &str, value: &Json) -> (r: Result<
    (),
    String,
>)
    ensures
        match r {
            Err(e) => override_error(key@, value@) == Some(e@),
            Ok(_) => override_error(key@, value@) is None && (match (
                cooldown_profile(key@),
                concurrency_profile(key@),
            ) {
                (Some(p), _) => final(runtime)@ == old(runtime)@.insert(
                    p,
                    ProfileRuntime {
                        cooldown_secs: Some(unsigned(value@)->0 as u64),
                        max_concurrency: if old(runtime)@.dom().contains(p) {
                            old(runtime)@[p].max_concurrency
                        } else {
                            None
                        },
                    },
                ),
                (None, Some(p)) => final(runtime)@ == old(runtime)@.insert(
                    p,
                    ProfileRuntime {
                        cooldown_secs: if old(runtime)@.dom().contains(p) {
                            old(runtime)@[p].cooldown_secs
                        } else {
                            None
                        },
                        max_concurrency: Some(
                            unsigned_within(value@, usize::MAX as int)->0 as usize,
                        ),
                    },
                ),
                (None, None) => final(runtime)@ == old(runtime)@,
            }),
        },
{
    proof {
        lemma_keys(key@, seq![]);
    }
    let rest = match strip_prefix(key, "profile.") {
        Some(rest) => rest,
        None => {
            return Ok(());
        },
    };
    if let Some(profile) = strip_suffix(rest, ".cooldown_secs") {
        match as_u64(value) {
            Some(n) => {
                let mut p = current(runtime, profile);
                p.cooldown_secs = Some(n);
                runtime.insert(profile, p);
                Ok(())
            },
            None => Err("profile cooldown override must be integer".to_owned()),
        }
    } else if let Some(profile) = strip_suffix(rest, ".max_concurrency") {
        match as_usize(value) {
            Some(n) => {
                let mut p = current(runtime, profile);
                p.max_concurrency = Some(n);
                runtime.insert(profile, p);
                Ok(())
            },
            None => Err("profile max_concurrency override must be integer".to_owned()),
        }
    } else {
        Ok(())
    }
}

/// Sets what the fields of a fact set.
fn apply_overrides(runtime: &mut StrMap<ProfileRuntime>, metadata: &Json) -> (r: Result<(), String>)
    requires
        metadata@ is Obj,
    ensures
        match r {
            Err(e) => overrides_error(metadata@->Obj_0) == Some(e@),
            Ok(_) => overrides_error(metadata@->Obj_0) is None && final(runtime)@
                == with_overrides(old(runtime)@, metadata@->Obj_0, metadata@->Obj_0.dom()),
        },
{
    let keys = metadata.sorted_keys();
    let ghost m = metadata@->Obj_0;
    let ghost names = text::texts(keys@);
    let ghost base = runtime@;
    let mut i: usize = 0;
    assert(names.take(0).to_set() =~= Set::empty());
    assert(with_overrides(base, m, names.take(0).to_set()) =~= base);
    while i < keys.len()
        invariant
            i <= keys.len(),
            metadata@ == JValue::Obj(m),
            names == text::texts(keys@),
            text::in_order(names),
            names.no_duplicates(),
            names.to_set() == m.dom(),
            runtime@ == with_overrides(base, m, names.take(i as int).to_set()),
            forall|k: int|
                0 <= k < i ==> override_error(#[trigger] names[k], m[names[k]]) is None,
        decreases keys.len() - i,
    {
        let ghost done = names.take(i as int).to_set();
        assert(names[i as int] == keys@[i as int]@);
        assert(names.to_set().contains(names[i as int]));
        assert(!done.contains(names[i as int])) by {
            if done.contains(names[i as int]) {
                let j = choose|j: int|
                    0 <= j < i && names.take(i as int)[j] == names[i as int];
                assert(names[j] == names[i as int]);
            }
        }
        proof {
            lemma_take_one_more(names, i as int);
        }
        if let Some(value) = metadata.get(keys[i].as_str()) {
            match apply_override(runtime, keys[i].as_str(), value) {
                Ok(_) => {
                    proof {
                        lemma_one_more(base, m, done, names[i as int]);
                    }
                },
                Err(e) => {
                    proof {
                        let key = names[i as int];
                        assert forall|other: Seq<char>| #[trigger]
                            m.dom().contains(other) && override_error(
                                other,
                                m[other],
                            ) is Some implies text::lex_le(key, other) by {
                            assert(names.to_set().contains(other));
                            let j = choose|j: int| 0 <= j < names.len() && names[j] == other;
                            assert(j >= i);
                            if j == i {
                                lemma_lex_reflexive(key);
                            } else {
                                assert(text::lex_le(names[i as int], names[j]));
                            }
                        }
                        assert(first_wrong(m, key));
                        lemma_first_wrong(m, key);
                    }
                    return Err(e);
                },
            }
        }
        i = i + 1;
    }
    proof {
        assert(names.take(i as int) =~= names);
        assert forall|key: Seq<char>| !first_wrong(m, key) by {
            if first_wrong(m, key) {
                assert(names.to_set().contains(key));
                let j = choose|j: int| 0 <= j < names.len() && names[j] == key;
                assert(override_error(names[j], m[names[j]]) is None);
            }
        }
    }
    Ok(())
}

proof fn lemma_take_one_more(names: Seq<Seq<char>>, i: int)
    requires
        0 <= i < names.len(),
    ensures
        names.take(i + 1).to_set() == names.take(i).to_set().insert(names[i]),
{
    let before = names.take(i);
    let after = names.take(i + 1);
    assert(after =~= before.push(names[i]));
    assert forall|x: Seq<char>| before.to_set().insert(names[i]).contains(x) implies #[trigger] after.to_set().contains(
    x) by {
        if x == names[i] {
            assert(after[i] == x);
        } else {
            let j = choose|j: int| 0 <= j < before.len() && before[j] == x;
            assert(after[j] == x);
        }
    }
    assert forall|x: Seq<char>| #[trigger] after.to_set().contains(x) implies before.to_set().insert(
        names[i],
    ).contains(x) by {
        let j = choose|j: int| 0 <= j < after.len() && after[j] == x;
        if j < i {
            assert(before[j] == x);
        }
    }
    assert(after.to_set() =~= before.to_set().insert(names[i]));
}

proof fn lemma_lex_reflexive(a: Seq<char>)
    ensures
        text::lex_le(a, a),
{
    text::lemma_lex_total(a, a);
}

fn read_text(m: &Json, field: &str, target: &mut String)
    ensures
        final(target)@ == text_or(m@, field@, old(target)@),
{
    if let Some(s) = m.get_str(field) {
        *target = s.to_owned();
    }
}

fn read_number(m: &Json, field: &str, target: &mut Option<Json>)
    ensures
        json::opt_owned_json(*final(target)) == number_or(
            m@,
            field@,
            json::opt_owned_json(*old(target)),
        ),
{
    if let Some(v) = m.get(field) {
        let spells = match v {
            Json::UInt(_) | Json::Int(_) | Json::Float(_) => true,
            Json::Str(s) => is_number(s.as_str()),
            _ => false,
        };
        if spells {
            *target = Some(v.copy());
        }
    }
}

fn check_fact(fact: &Json, agent_id: &str) -> (r: Option<String>)
    ensures
        text::opt_text(r) == refusal(fact@, agent_id@),
{
    let mut target = "agent:".to_owned();
    target.append(agent_id);
    if !target_contains(fact, target.as_str()) {
        return Some("AGENT_CONFIG_TARGET_MISMATCH".to_owned());
    }
    let metadata = match fact.get("metadata") {
        Some(m) => m,
        None => {
            return Some("agent_config fact missing metadata object".to_owned());
        },
    };
    if !metadata.is_object() {
        return Some("agent_config fact missing metadata object".to_owned());
    }
    match metadata.get("schema_version") {
        None => Some("AGENT_CONFIG_SCHEMA_VERSION_REQUIRED".to_owned()),
        Some(v) => match as_i64(v) {
            None => Some("INVALID_AGENT_CONFIG_SCHEMA_VERSION".to_owned()),
            Some(n) => {
                if n != AGENT_CONFIG_SCHEMA_VERSION {
                    let mut e = "UNSUPPORTED_AGENT_CONFIG_SCHEMA_VERSION:".to_owned();
                    e.append(decimal_of_signed(n).as_str());
                    return Some(e);
                }
                match metadata.get_str("agent_id") {
                    Some(id) => if !same(id, agent_id) {
                        Some("AGENT_CONFIG_AGENT_ID_MISMATCH".to_owned())
                    } else {
                        None
                    },
                    None => None,
                }
            },
        },
    }
}

/// The configuration that a fact makes of another.
pub fn parse_agent_config(bootstrap: &AgentConfig, fact: &Json, agent_id: &str) -> (r: Result<
    AgentConfig,
    String,
>)
    ensures
        config_view(r) == config_in(bootstrap@, fact@, agent_id@),
{
    if let Some(e) = check_fact(fact, agent_id) {
        return Err(e);
    }
    let mut cfg = bootstrap.copy();
    let metadata = match fact.get("metadata") {
        Some(m) => m,
        None => {
            return Ok(cfg);
        },
    };
    cfg.enabled = match metadata.get("enabled") {
        Some(v) => match v.as_bool() {
            Some(b) => b,
            None => true,
        },
        None => true,
    };
    read_number(metadata, "review_budget_reserve", &mut cfg.review_budget_reserve);
    read_number(metadata, "too_complex_threshold", &mut cfg.too_complex_threshold);
    if let Some(v) = metadata.get("max_retries") {
        if let Some(n) = as_u32(v) {
            cfg.max_retries = n;
        }
    }
    read_text(metadata, "extraction_profile", &mut cfg.extraction_profile);
    read_text(metadata, "fast_profile", &mut cfg.fast_profile);
    read_text(metadata, "balanced_profile", &mut cfg.balanced_profile);
    read_text(metadata, "strong_profile", &mut cfg.strong_profile);
    read_text(metadata, "review_profile", &mut cfg.review_profile);
    if let Some(v) = metadata.get("max_parallel_tasks") {
        if let Some(n) = as_usize(v) {
            cfg.max_parallel_tasks = n;
        }
    }
    if let Some(v) = metadata.get("global_cli_cooldown_secs") {
        if let Some(n) = as_u64(v) {
            cfg.global_cli_cooldown_secs = Some(n);
        }
    }
    let applied = apply_overrides(&mut cfg.profile_runtime, metadata);
    if let Err(e) = applied {
        return Err(e);
    }
    assert(cfg@ =~= configured(bootstrap@, metadata@));
    match cfg.validate() {
        Ok(_) => Ok(cfg),
        Err(e) => Err(e),
    }
}

/// Whose configuration is looked for, and from where.
#[derive(Debug)]
pub struct ConfigSearch {
    pub key: String,
    pub agent_id: String,
    pub swarm_id: String,
}

/// What to do next.
#[derive(Debug)]
pub enum ConfigAction {
    /// Ask memory.
    Query(MemoryQueryParams),
    Loaded(AgentConfig),
    Failed(String),
}

pub ghost enum ConfigActionV {
    Query(QueryV),
    Loaded(AgentConfigV),
    Failed(Seq<char>),
}

impl ConfigAction {
    pub open spec fn view(&self) -> ConfigActionV {
        match self {
            ConfigAction::Query(q) => ConfigActionV::Query(q@),
            ConfigAction::Loaded(c) => ConfigActionV::Loaded(c@),
            ConfigAction::Failed(e) => ConfigActionV::Failed(e@),
        }
    }
}

/// What a configuration is looked for by: for one key, or for all of them.
pub open spec fn config_filter(
    agent_id: Seq<char>,
    swarm_id: Seq<char>,
    key: Option<Seq<char>>,
) -> JValue {
    let shared = Map::<Seq<char>, JValue>::empty().insert("kind"@, JValue::Str("agent_config"@)).insert(
        "target"@,
        JValue::Str(resolve::target_of(agent_id)),
    ).insert("metadata.agent_id"@, JValue::Str(agent_id)).insert(
        "metadata.swarm_id"@,
        JValue::Str(swarm_id),
    );
    match key {
        Some(k) => JValue::Obj(shared.insert("metadata.key"@, JValue::Str(k))),
        None => JValue::Obj(shared),
    }
}

/// What follows from the first answer.
pub open spec fn found(
    base: AgentConfigV,
    agent_id: Seq<char>,
    outcome: Result<JValue, Seq<char>>,
    otherwise: ConfigActionV,
) -> ConfigActionV {
    match outcome {
        Err(e) => ConfigActionV::Failed(e),
        Ok(response) => if persist::facts_in(response).len() == 0 {
            otherwise
        } else {
            match config_in(base, persist::facts_in(response)[0], agent_id) {
                Ok(c) => ConfigActionV::Loaded(c),
                Err(e) => ConfigActionV::Failed(e),
            }
        },
    }
}

pub open spec fn outcome_view(r: Result<Json, String>) -> Result<JValue, Seq<char>> {
    match r {
        Ok(v) => Ok(v@),
        Err(e) => Err(e@),
    }
}

impl ConfigSearch {
    fn query(&self, keyed: bool) -> (r: MemoryQueryParams)
        ensures
            r@ == memory::newest(
                self.key@,
                self.agent_id@,
                self.swarm_id@,
                config_filter(
                    self.agent_id@,
                    self.swarm_id@,
                    if keyed {
                        Some(self.key@)
                    } else {
                        None
                    },
                ),
                2,
            ),
    {
        let mut target = "agent:".to_owned();
        target.append(self.agent_id.as_str());
        let mut e: Vec<(String, Json)> = Vec::new();
        put_text(&mut e, "kind", "agent_config");
        put_text(&mut e, "target", target.as_str());
        put_text(&mut e, "metadata.agent_id", self.agent_id.as_str());
        put_text(&mut e, "metadata.swarm_id", self.swarm_id.as_str());
        if keyed {
            put_text(&mut e, "metadata.key", self.key.as_str());
        }
        MemoryQueryParams::newest(
            self.key.as_str(),
            self.agent_id.as_str(),
            self.swarm_id.as_str(),
            Json::Obj(e),
            2,
        )
    }

    /// Where the search starts: with what is configured for the key.
    pub fn begin(&self) -> (r: MemoryQueryParams)
        ensures
            r@ == memory::newest(
                self.key@,
                self.agent_id@,
                self.swarm_id@,
                config_filter(self.agent_id@, self.swarm_id@, Some(self.key@)),
                2,
            ),
    {
        self.query(true)
    }

    fn take_newest(&self, bootstrap: &AgentConfig, outcome: &Result<Json, String>) -> (r: Option<
        ConfigAction,
    >)
        ensures
            match r {
                Some(action) => forall|otherwise: ConfigActionV|
                    action@ == #[trigger] found(
                        bootstrap@,
                        self.agent_id@,
                        outcome_view(*outcome),
                        otherwise,
                    ),
                None => forall|otherwise: ConfigActionV|
                    otherwise == #[trigger] found(
                        bootstrap@,
                        self.agent_id@,
                        outcome_view(*outcome),
                        otherwise,
                    ),
            },
    {
        match outcome {
            Err(e) => Some(ConfigAction::Failed(e.clone())),
            Ok(response) => match response.get_array("facts") {
                Some(items) => {
                    if items.len() == 0 {
                        return None;
                    }
                    assert(persist::facts_in(response@)[0] == items@[0]@);
                    match parse_agent_config(bootstrap, &items[0], self.agent_id.as_str()) {
                        Ok(c) => Some(ConfigAction::Loaded(c)),
                        Err(e) => Some(ConfigAction::Failed(e)),
                    }
                },
                None => None,
            },
        }
    }

    /// Takes what is configured for the key: the newest of it, else what is configured for all
    /// keys is looked for.
    pub fn on_keyed(&self, bootstrap: &AgentConfig, outcome: Result<Json, String>) -> (r:
        ConfigAction)
        ensures
            r@ == found(
                bootstrap@,
                self.agent_id@,
                outcome_view(outcome),
                ConfigActionV::Query(
                    memory::newest(
                        self.key@,
                        self.agent_id@,
                        self.swarm_id@,
                        config_filter(self.agent_id@, self.swarm_id@, None),
                        2,
                    ),
                ),
            ),
    {
        match self.take_newest(bootstrap, &outcome) {
            Some(action) => action,
            None => ConfigAction::Query(self.query(false)),
        }
    }

    /// Takes what is configured for all keys: the newest of it, else what the program starts with.
    pub fn on_shared(&self, bootstrap: &AgentConfig, outcome: Result<Json, String>) -> (r:
        ConfigAction)
        ensures
            r@ == found(
                bootstrap@,
                self.agent_id@,
                outcome_view(outcome),
                ConfigActionV::Loaded(bootstrap@),
            ),
    {
        match self.take_newest(bootstrap, &outcome) {
            Some(action) => action,
            None => ConfigAction::Loaded(bootstrap.copy()),
        }
    }
}

/// A configuration for another agent is never taken.
pub proof fn law_config_of_another_agent_is_refused(
    base: AgentConfigV,
    fact: JValue,
    agent_id: Seq<char>,
)
    requires
        !resolve::aimed_at(fact, resolve::target_of(agent_id)) || (json::jget_str(
            json::jat(fact, "metadata"@),
            "agent_id"@,
        ) is Some && json::jget_str(json::jat(fact, "metadata"@), "agent_id"@) != Some(agent_id)),
    ensures
        config_in(base, fact, agent_id) is Err,
{
}

/// An agent that is configured can run at least one task at a time.
pub proof fn law_loaded_config_runs_something(
    base: AgentConfigV,
    fact: JValue,
    agent_id: Seq<char>,
)
    ensures
        config_in(base, fact, agent_id) matches Ok(c) ==> c.max_parallel_tasks >= 1,
{
}

/// A configuration is what its fact says: each setting that the fact gives holds, and each that it
/// does not give stays as it was.
pub proof fn law_config_is_what_the_fact_says(base: AgentConfigV, fact: JValue, agent_id: Seq<char>)
    ensures
        config_in(base, fact, agent_id) matches Ok(c) ==> {
            let m = json::jat(fact, "metadata"@);
            &&& json::jbool(json::jat(m, "enabled"@)) matches Some(b) ==> c.enabled == b
            &&& json::jbool(json::jat(m, "enabled"@)) is None ==> c.enabled
            &&& json::jat(m, "max_retries"@) matches JValue::Int(n) ==> 0 <= n <= u32::MAX
                ==> c.max_retries == n
            &&& json::jget(m, "max_retries"@) is None ==> c.max_retries == base.max_retries
            &&& json::jat(m, "max_parallel_tasks"@) matches JValue::Int(n) ==> 0 <= n <= usize::MAX
                ==> c.max_parallel_tasks == n
            &&& json::jget(m, "max_parallel_tasks"@) is None ==> c.max_parallel_tasks
                == base.max_parallel_tasks
            &&& json::jat(m, "global_cli_cooldown_secs"@) matches JValue::Int(n) ==> 0 <= n
                <= u64::MAX ==> c.global_cli_cooldown_secs == Some(n as u64)
            &&& json::jget(m, "global_cli_cooldown_secs"@) is None ==> c.global_cli_cooldown_secs
                == base.global_cli_cooldown_secs
            &&& json::jget_str(m, "extraction_profile"@) matches Some(p) ==> c.extraction_profile
                == p
            &&& json::jget_str(m, "extraction_profile"@) is None ==> c.extraction_profile
                == base.extraction_profile
            &&& json::jget_str(m, "fast_profile"@) matches Some(p) ==> c.fast_profile == p
            &&& json::jget_str(m, "fast_profile"@) is None ==> c.fast_profile == base.fast_profile
            &&& json::jget_str(m, "balanced_profile"@) matches Some(p) ==> c.balanced_profile == p
            &&& json::jget_str(m, "balanced_profile"@) is None ==> c.balanced_profile
                == base.balanced_profile
            &&& json::jget_str(m, "strong_profile"@) matches Some(p) ==> c.strong_profile == p
            &&& json::jget_str(m, "strong_profile"@) is None ==> c.strong_profile
                == base.strong_profile
            &&& json::jget_str(m, "review_profile"@) matches Some(p) ==> c.review_profile == p
            &&& json::jget_str(m, "review_profile"@) is None ==> c.review_profile
                == base.review_profile
            &&& json::jat(m, "review_budget_reserve"@) matches JValue::Int(n)
                ==> c.review_budget_reserve == Some(JValue::Int(n))
            &&& json::jget(m, "review_budget_reserve"@) is None ==> c.review_budget_reserve
                == base.review_budget_reserve
            &&& json::jat(m, "too_complex_threshold"@) matches JValue::Int(n)
                ==> c.too_complex_threshold == Some(JValue::Int(n))
            &&& json::jget(m, "too_complex_threshold"@) is None ==> c.too_complex_threshold
                == base.too_complex_threshold
            &&& c.bootstrap_memory_timeout_ms == base.bootstrap_memory_timeout_ms
            &&& c.local_failure_artifact_retention == base.local_failure_artifact_retention
            &&& c.local_failure_artifact_dir == base.local_failure_artifact_dir
        },
{
}

/// How a profile may be run is what the fact says of that profile, and of no other.
pub proof fn law_profile_is_run_as_the_fact_says(
    base: Map<Seq<char>, ProfileRuntime>,
    metadata: Map<Seq<char>, JValue>,
    profile: Seq<char>,
    n: u64,
)
    ensures
        ({
            let key = "profile."@ + profile + ".cooldown_secs"@;
            let after = with_overrides(base, metadata, metadata.dom());
            &&& metadata.dom().contains(key) && metadata[key] == JValue::Int(n as int)
                ==> after.dom().contains(profile) && after[profile].cooldown_secs == Some(n)
            &&& !metadata.dom().contains(key) && base.dom().contains(profile)
                ==> after.dom().contains(profile) && after[profile].cooldown_secs
                == base[profile].cooldown_secs
        }),
        ({
            let key = "profile."@ + profile + ".max_concurrency"@;
            let after = with_overrides(base, metadata, metadata.dom());
            &&& metadata.dom().contains(key) && metadata[key] == JValue::Int(n as int) && n
                <= usize::MAX ==> after.dom().contains(profile) && after[profile].max_concurrency
                == Some(n as usize)
            &&& !metadata.dom().contains(key) && base.dom().contains(profile)
                ==> after.dom().contains(profile) && after[profile].max_concurrency
                == base[profile].max_concurrency
        }),
{
}

/// A fact without a schema version, or with another one, is no configuration.
pub proof fn law_schema_version_is_required(base: AgentConfigV, fact: JValue, agent_id: Seq<char>, n: int)
    ensures
        json::jget(json::jat(fact, "metadata"@), "schema_version"@) is None ==> config_in(
            base,
            fact,
            agent_id,
        ) is Err,
        json::jget(json::jat(fact, "metadata"@), "schema_version"@) == Some(JValue::Int(n)) && n != 1
            ==> config_in(base, fact, agent_id) is Err,
        config_in(base, fact, agent_id) matches Ok(c) ==> c.max_parallel_tasks > 0,
{
}

proof fn lemma_filter_names()
    ensures
        "kind"@.len() == 4,
        "target"@.len() == 6,
        "metadata.agent_id"@.len() == 17 && "metadata.agent_id"@[9] == 'a',
        "metadata.swarm_id"@.len() == 17 && "metadata.swarm_id"@[9] == 's',
        "metadata.key"@.len() == 12,
{
    reveal_strlit("kind");
    reveal_strlit("target");
    reveal_strlit("metadata.agent_id");
    reveal_strlit("metadata.swarm_id");
    reveal_strlit("metadata.key");
}

/// The search for a configuration asks for the agent's own, in its swarm, first under its key.
pub proof fn law_config_search_asks_for_the_agent(
    agent_id: Seq<char>,
    swarm_id: Seq<char>,
    key: Option<Seq<char>>,
)
    ensures
        ({
            let filter = config_filter(agent_id, swarm_id, key);
            &&& json::jget_str(filter, "kind"@) == Some("agent_config"@)
            &&& json::jget_str(filter, "target"@) == Some(resolve::target_of(agent_id))
            &&& json::jget_str(filter, "metadata.agent_id"@) == Some(agent_id)
            &&& json::jget_str(filter, "metadata.swarm_id"@) == Some(swarm_id)
            &&& json::jget_str(filter, "metadata.key"@) == key
        }),
{
    lemma_filter_names();
}

/// The newest configuration that is found is loaded; one that can not be read is an error, and so
/// is a search that failed.
pub proof fn law_found_config_is_loaded(
    base: AgentConfigV,
    agent_id: Seq<char>,
    response: JValue,
    e: Seq<char>,
    otherwise: ConfigActionV,
)
    ensures
        persist::facts_in(response).len() == 0 ==> found(base, agent_id, Ok(response), otherwise)
            == otherwise,
        persist::facts_in(response).len() > 0 ==> (config_in(
            base,
            persist::facts_in(response)[0],
            agent_id,
        ) matches Ok(c) ==> found(base, agent_id, Ok(response), otherwise)
            == ConfigActionV::Loaded(c)),
        persist::facts_in(response).len() > 0 ==> (config_in(
            base,
            persist::facts_in(response)[0],
            agent_id,
        ) matches Err(why) ==> found(base, agent_id, Ok(response), otherwise)
            == ConfigActionV::Failed(why)),
        found(base, agent_id, Err(e), otherwise) == ConfigActionV::Failed(e),
{
}

/// Numbers may be written as texts; what is no number leaves what was there before.
pub proof fn law_numbers_may_be_texts(m: JValue, field: Seq<char>, s: Seq<char>, before: int, max: int)
    requires
        json::jget(m, field) == Some(JValue::Str(s)),
    ensures
        text::parsed_u64(s) matches Some(n) ==> n <= max ==> count_or(m, field, max, before) == n,
        text::parsed_u64(s) is None ==> count_or(m, field, max, before) == before,
        text::parsed_u64(s) matches Some(n) ==> n > max ==> count_or(m, field, max, before) == before,
        text::spells_number(s) ==> number_or(m, field, None) == Some(JValue::Str(s)),
        !text::spells_number(s) ==> number_or(m, field, None) is None,
{
}

/// A configuration that is refused says what is wrong with it.
pub proof fn law_refused_config_says_why(fact: JValue, agent_id: Seq<char>, n: int)
    ensures
        ({
            let m = json::jat(fact, "metadata"@);
            let why = refusal(fact, agent_id);
            let aimed = resolve::aimed_at(fact, resolve::target_of(agent_id));
            &&& !aimed ==> why == Some("AGENT_CONFIG_TARGET_MISMATCH"@)
            &&& aimed && m is Obj && json::jget(m, "schema_version"@) is None ==> why == Some(
                "AGENT_CONFIG_SCHEMA_VERSION_REQUIRED"@,
            )
            &&& aimed && json::jget(m, "schema_version"@) == Some(JValue::Bool(true)) ==> why == Some(
                "INVALID_AGENT_CONFIG_SCHEMA_VERSION"@,
            )
            &&& aimed && json::jget(m, "schema_version"@) == Some(JValue::Int(n)) && n != 1
                && i64::MIN <= n <= i64::MAX ==> (why matches Some(e) && text::has_suffix(
                e,
                text::decimal_int(n),
            ))
            &&& aimed && json::jget(m, "schema_version"@) == Some(JValue::Int(1)) && json::jget_str(
                m,
                "agent_id"@,
            ) == Some(agent_id) ==> why is None
            &&& aimed && json::jget(m, "schema_version"@) == Some(JValue::Int(1)) && json::jget_str(
                m,
                "agent_id"@,
            ) is None ==> why is None
        }),
{
    let e = "UNSUPPORTED_AGENT_CONFIG_SCHEMA_VERSION:"@ + text::decimal_int(n);
    let d = text::decimal_int(n);
    assert(e.subrange(e.len() - d.len(), e.len() as int) =~= d);
}

} // verus!
