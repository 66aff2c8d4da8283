//! Hooks that tell a prompt, and where a response can be read.

use vstd::prelude::*;

use crate::json::JValue;
use crate::json::Json;
use crate::plugin::platform;
use crate::plugin::platform::extract_prompt;
use crate::plugin::platform::extract_response;
use crate::plugin::platform::refuse_event;
use crate::plugin::platform::ExtractStep;
use crate::plugin::platform::ExtractStepV;
use crate::plugin::platform::Form;
use crate::text::same;

verus! {

/// What a hook told.
pub open spec fn told(event: Seq<char>, input: JValue) -> ExtractStepV {
    if event == "prompt"@ {
        platform::prompt_in(input)
    } else if event == "response"@ {
        platform::response_in(input, Form::Codex)
    } else {
        ExtractStepV::Failed(platform::unknown_event("codex"@, event))
    }
}

/// What a hook told.
pub fn extract(event: &str, input: &Json) -> (r: ExtractStep)
    ensures
        r@ == told(event@, input@),
{
    if same(event, "prompt") {
        extract_prompt(input)
    } else if same(event, "response") {
        extract_response(input, Form::Codex)
    } else {
        refuse_event("codex", event)
    }
}

} // verus!
