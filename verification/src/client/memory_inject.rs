//! Default scopes for calls of the memory tools.

use vstd::prelude::*;

use crate::text;
use crate::json;
use crate::json::JValue;
use crate::json::Json;
use crate::text::starts_with;

verus! {

/// Whether a tool belongs to memory's data plane: its name starts with `memory_`.
pub fn is_memory_tool_name(name: &str) -> (r: bool)
    ensures
        r == text::has_prefix(name@, "memory_"@),
{
    starts_with(name, "memory_")
}

/// Arguments with a default for a key: what the caller gave stays.
pub open spec fn with_default(args: JValue, key: Seq<char>, value: Seq<char>) -> JValue {
    if args is Obj && json::jget(args, key) is None {
        json::jset(args, key, JValue::Str(value))
    } else {
        args
    }
}

/// What a caller gave is never replaced, whatever the default.
pub proof fn law_caller_value_wins(args: JValue, key: Seq<char>, value: Seq<char>)
    requires
        json::jget(args, key) is Some,
    ensures
        with_default(args, key, value) == args,
{
}

/// A default fills its key and leaves the other keys alone.
pub proof fn law_default_fills_only_its_key(
    args: JValue,
    key: Seq<char>,
    value: Seq<char>,
    other: Seq<char>,
)
    requires
        other != key,
    ensures
        args is Obj ==> json::jget(with_default(args, key, value), key) is Some,
        json::jget(with_default(args, key, value), other) == json::jget(args, other),
{
}

fn set_default(args: &mut Json, key: &str, value: &str)
    ensures
        final(args)@ == with_default(old(args)@, key@, value@),
{
    if args.is_object() && args.get(key).is_none() {
        args.set(key, Json::text(value));
    }
}

/// Sets `key` to a default where the caller gave none.
pub fn set_default_key_if_absent(args: &mut Json, default_key: &str)
    ensures
        final(args)@ == with_default(old(args)@, "key"@, default_key@),
{
    set_default(args, "key", default_key);
}

/// Sets `swarm_id` to a default where the caller gave none.
pub fn set_default_swarm_id_if_absent(args: &mut Json, default_swarm: &str)
    ensures
        final(args)@ == with_default(old(args)@, "swarm_id"@, default_swarm@),
{
    set_default(args, "swarm_id", default_swarm);
}

/// A default is what a call gets where it names no value of its own.
pub proof fn law_default_is_used(args: JValue, key: Seq<char>, value: Seq<char>)
    requires
        args is Obj,
        json::jget(args, key) is None,
    ensures
        json::jget_str(with_default(args, key, value), key) == Some(value),
{
}

} // verus!
