//! What a task may spend, as far as it is counted in tokens.

use vstd::prelude::*;

use crate::llm::chat::Usage;

verus! {

/// What an amount is spent on.
#[derive(Debug, Clone, Copy, PartialEq, Eq, Structural)]
pub enum Phase {
    Execution,
    Review,
}

/// The input tokens that no cache served.
pub open spec fn uncached(usage: Usage) -> int {
    let rest = usage.input_tokens - usage.cached_input_read_tokens
        - usage.cached_input_write_tokens;
    if rest < 0 {
        0
    } else {
        rest
    }
}

/// The input tokens that no cache served: these, and no others, are billed as plain input.
pub fn uncached_input_tokens(usage: &Usage) -> (r: u32)
    ensures
        r == uncached(*usage),
{
    let read: u32 = usage.cached_input_read_tokens;
    let write: u32 = usage.cached_input_write_tokens;
    if usage.input_tokens < read {
        return 0;
    }
    let rest: u32 = usage.input_tokens - read;
    if rest < write {
        0
    } else {
        rest - write
    }
}

/// No token is billed twice: those served by a cache and the others are at most all of them,
/// unless the caches claim more than there were.
pub proof fn law_cached_tokens_are_not_billed_twice(usage: Usage)
    requires
        usage.cached_input_read_tokens + usage.cached_input_write_tokens <= usage.input_tokens,
    ensures
        uncached(usage) + usage.cached_input_read_tokens + usage.cached_input_write_tokens
            == usage.input_tokens,
{
}

} // verus!
