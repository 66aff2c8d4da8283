//! The review of a result: one question to a model, and one more where its verdict can not be
//! read.

use vstd::prelude::*;
use vstd::string::*;

use crate::agent::execution;
use crate::agent::execution::ask_user;
use crate::agent::execution::estimate_chat_input_tokens;
use crate::agent::execution::ChatRequest;
use crate::agent::execution::ChatV;
use crate::agent::prompts;
use crate::agent::prompts::review_prompt;
use crate::agent::prompts::render_review_repair_user_message;
use crate::agent::prompts::render_review_user_message;
use crate::agent::prompts::render_trace;
use crate::agent::sanitize;
use crate::agent::sanitize::sanitize_task_result;
use crate::agent::sanitize::SanitizedTaskResult;
use crate::agent::sanitize::SanitizedV;
use crate::agent::task::StateV;
use crate::agent::task::TaskState;
use crate::agent::verdict;
use crate::agent::verdict::parse_review_verdict;
use crate::agent::verdict::ReviewVerdict;
use crate::agent::verdict::VerdictV;
use crate::json;
use crate::llm::chat;
use crate::llm::chat::ToolDef;
use crate::text;
use crate::text::opt_str;

verus! {

/// A result that is to be reviewed.
#[derive(Debug)]
pub struct Review {
    pub task_text: String,
    pub retrieved_context: Option<String>,
    pub result: String,
    /// The system prompt of the second question.
    pub repair_prompt: String,
}

pub ghost struct ReviewV {
    pub task_text: Seq<char>,
    pub retrieved_context: Option<Seq<char>>,
    pub result: Seq<char>,
    pub repair_prompt: Seq<char>,
}

/// What to do next.
#[derive(Debug)]
pub enum ReviewAction {
    /// Tell whether a request of this size can be afforded.
    CheckBudget { input_tokens: u32, max_tokens: u32 },
    /// Ask the model.
    Ask(ChatRequest),
    /// Ask the model again, for a verdict that can be read.
    AskRepair(ChatRequest),
    Verdict(ReviewVerdict),
    /// The budget leaves nothing for a review: there is no verdict.
    Unaffordable,
    Failed(String),
    /// The second answer held no verdict either; why it could not be read.
    Malformed { message: String, cause: String },
}

pub ghost enum ReviewActionV {
    CheckBudget { input_tokens: int, max_tokens: u32 },
    Ask(ChatV),
    AskRepair(ChatV),
    Verdict(VerdictV),
    Unaffordable,
    Failed(Seq<char>),
    Malformed { message: Seq<char>, cause: Seq<char> },
}

impl ReviewAction {
    pub open spec fn view(&self) -> ReviewActionV {
        match self {
            ReviewAction::CheckBudget { input_tokens, max_tokens } => ReviewActionV::CheckBudget {
                input_tokens: *input_tokens as int,
                max_tokens: *max_tokens,
            },
            ReviewAction::Ask(request) => ReviewActionV::Ask(request@),
            ReviewAction::AskRepair(request) => ReviewActionV::AskRepair(request@),
            ReviewAction::Verdict(v) => ReviewActionV::Verdict(v@),
            ReviewAction::Unaffordable => ReviewActionV::Unaffordable,
            ReviewAction::Failed(s) => ReviewActionV::Failed(s@),
            ReviewAction::Malformed { message, cause } => ReviewActionV::Malformed {
                message: message@,
                cause: cause@,
            },
        }
    }
}

/// The question about a result.
pub open spec fn review_request(v: ReviewV, s: StateV) -> ChatV {
    execution::user_request(
        prompts::review_text(),
        prompts::review_message(v.task_text, v.retrieved_context, v.result, s.tool_trace),
        seq![],
        1024u32,
    )
}

/// The question about a verdict that could not be read.
pub open spec fn repair_request(v: ReviewV, s: StateV, said: Seq<char>) -> ChatV {
    execution::user_request(
        v.repair_prompt,
        prompts::repair_message(
            v.task_text,
            v.retrieved_context,
            said,
            prompts::trace_lines(s.tool_trace),
        ),
        seq![],
        256u32,
    )
}

/// What follows where the review can be afforded: a result that is none is sent back unasked.
pub open spec fn affordable(v: ReviewV, s: StateV) -> ReviewActionV {
    match sanitize::sanitized(v.result) {
        SanitizedV::Rejected(reason) => ReviewActionV::Verdict(VerdictV::Retry(reason)),
        SanitizedV::Accepted(_) => ReviewActionV::Ask(review_request(v, s)),
    }
}

/// What follows the model's answer.
pub open spec fn reviewed(v: ReviewV, s: StateV, said: Seq<char>) -> ReviewActionV {
    match verdict::verdict_in(said, json::json_reader()) {
        Ok(found) => ReviewActionV::Verdict(found),
        Err(_) => ReviewActionV::AskRepair(repair_request(v, s, said)),
    }
}

/// What follows the answer to the second question.
pub open spec fn repaired(said: Seq<char>) -> ReviewActionV {
    match verdict::verdict_in(said, json::json_reader()) {
        Ok(found) => ReviewActionV::Verdict(found),
        Err(cause) => ReviewActionV::Malformed {
            message: "review output malformed after repair"@,
            cause,
        },
    }
}

/// A review asks one question, by the prompt for reviews and without tools, which shows the task,
/// the whole result and the context where there is any.
pub proof fn law_review_shows_task_and_result(v: ReviewV, s: StateV)
    ensures
        ({
            let request = review_request(v, s);
            let message = execution::told(request);
            &&& request.system == prompts::review_text()
            &&& request.messages.len() == 1
            &&& request.messages[0].role == "user"@
            &&& request.tools.len() == 0
            &&& prompts::shows(message, "task"@, v.task_text)
            &&& prompts::shows(message, "execution_result"@, v.result)
            &&& v.retrieved_context matches Some(c) ==> text::trimmed(c).len() > 0
                ==> prompts::shows(message, "retrieved_context"@, c)
        }),
        sanitize::sanitized(v.result) is Accepted ==> affordable(v, s) == ReviewActionV::Ask(
            review_request(v, s),
        ),
{
    prompts::law_review_message_shows_what_it_is_given(
        v.task_text,
        v.retrieved_context,
        v.result,
        s.tool_trace,
    );
}

/// An answer that holds no verdict is asked about by the prompt for repairs, with the task, the
/// context and what was answered.
pub proof fn law_unreadable_verdict_is_shown(v: ReviewV, s: StateV, said: Seq<char>)
    requires
        verdict::verdict_in(said, json::json_reader()) is Err,
    ensures
        reviewed(v, s, said) matches ReviewActionV::AskRepair(request) && {
            let message = execution::told(request);
            &&& request.system == v.repair_prompt
            &&& request.messages.len() == 1
            &&& prompts::shows(message, "task"@, v.task_text)
            &&& prompts::shows(message, "reviewer_output"@, said)
            &&& v.retrieved_context matches Some(c) ==> text::trimmed(c).len() > 0
                ==> prompts::shows(message, "retrieved_context"@, c)
        },
{
    prompts::law_repair_message_shows_what_it_is_given(
        v.task_text,
        v.retrieved_context,
        said,
        prompts::trace_lines(s.tool_trace),
    );
}

/// A verdict that can be read is the outcome of the review, whichever question it answers.
pub proof fn law_readable_verdict_counts(v: ReviewV, s: StateV, said: Seq<char>, found: VerdictV)
    requires
        verdict::verdict_in(said, json::json_reader()) == Ok::<VerdictV, Seq<char>>(found),
    ensures
        reviewed(v, s, said) == ReviewActionV::Verdict(found),
        repaired(said) == ReviewActionV::Verdict(found),
{
}

/// No result passes unseen: a verdict that passes it is what the model was asked for and answered.
pub proof fn law_pass_needs_an_answer(v: ReviewV, s: StateV, said: Seq<char>)
    ensures
        affordable(v, s) != ReviewActionV::Verdict(VerdictV::Passed),
        reviewed(v, s, said) == ReviewActionV::Verdict(VerdictV::Passed) ==> verdict::verdict_in(
            said,
            json::json_reader(),
        ) == Ok::<VerdictV, Seq<char>>(VerdictV::Passed),
        repaired(said) == ReviewActionV::Verdict(VerdictV::Passed) ==> verdict::verdict_in(
            said,
            json::json_reader(),
        ) == Ok::<VerdictV, Seq<char>>(VerdictV::Passed),
{
}

/// A review asks a model at most twice: what follows the second answer is a verdict or a failure.
pub proof fn law_review_asks_at_most_twice(said: Seq<char>)
    ensures
        repaired(said) is Verdict || repaired(said) is Malformed,
{
}

/// A result that is blank or only reasoning never passes.
pub proof fn law_invalid_result_is_sent_back(v: ReviewV, s: StateV)
    requires
        sanitize::sanitized(v.result) is Rejected,
    ensures
        affordable(v, s) matches ReviewActionV::Verdict(VerdictV::Retry(_)),
{
}

fn no_tools() -> (r: Vec<ToolDef>)
    ensures
        chat::tools_view(r@) == Seq::<chat::ToolDefV>::empty(),
{
    let none: Vec<ToolDef> = Vec::new();
    assert(chat::tools_view(none@) =~= seq![]);
    none
}

impl Review {
    pub open spec fn view(&self) -> ReviewV {
        ReviewV {
            task_text: self.task_text@,
            retrieved_context: text::opt_text(self.retrieved_context),
            result: self.result@,
            repair_prompt: self.repair_prompt@,
        }
    }

    /// The question about the result.
    pub fn request(&self, state: &TaskState) -> (r: ChatRequest)
        ensures
            r@ == review_request(self@, state@),
    {
        let content = render_review_user_message(
            self.task_text.as_str(),
            opt_str(&self.retrieved_context),
            self.result.as_str(),
            state.tool_trace.as_slice(),
        );
        ask_user(review_prompt().as_str(), content, no_tools(), 1024)
    }

    /// Begins the review with a look at the budget.
    pub fn begin(&self, state: &TaskState) -> (r: ReviewAction)
        ensures
            r@ == (ReviewActionV::CheckBudget {
                input_tokens: execution::input_tokens(review_request(self@, state@)),
                max_tokens: 1024u32,
            }),
    {
        let request = self.request(state);
        let input_tokens: u32 = estimate_chat_input_tokens(&request);
        ReviewAction::CheckBudget { input_tokens, max_tokens: 1024 }
    }

    /// The review can not be afforded: it ends without a verdict.
    pub fn on_unaffordable(&self) -> (r: ReviewAction)
        ensures
            r@ == ReviewActionV::Unaffordable,
    {
        ReviewAction::Unaffordable
    }

    /// The review can be afforded.
    pub fn on_affordable(&self, state: &TaskState) -> (r: ReviewAction)
        ensures
            r@ == affordable(self@, state@),
    {
        match sanitize_task_result(self.result.as_str()) {
            SanitizedTaskResult::Rejected(reason) => ReviewAction::Verdict(
                ReviewVerdict::Retry(reason),
            ),
            SanitizedTaskResult::Accepted(_) => ReviewAction::Ask(self.request(state)),
        }
    }

    /// The model answered.
    pub fn on_answer(&self, state: &TaskState, said: Option<String>) -> (r: ReviewAction)
        ensures
            r@ == reviewed(self@, state@, said_text(text::opt_text(said))),
    {
        let said = match said {
            Some(s) => s,
            None => String::new(),
        };
        match parse_review_verdict(said.as_str()) {
            Ok(found) => ReviewAction::Verdict(found),
            Err(_) => {
                let trace = render_trace(state.tool_trace.as_slice());
                let content = render_review_repair_user_message(
                    self.task_text.as_str(),
                    opt_str(&self.retrieved_context),
                    said.as_str(),
                    trace.as_slice(),
                );
                ReviewAction::AskRepair(
                    ask_user(self.repair_prompt.as_str(), content, no_tools(), 256),
                )
            },
        }
    }

    /// The model answered the second question.
    pub fn on_repair(&self, said: Option<String>) -> (r: ReviewAction)
        ensures
            r@ == repaired(said_text(text::opt_text(said))),
    {
        let said = match said {
            Some(s) => s,
            None => String::new(),
        };
        match parse_review_verdict(said.as_str()) {
            Ok(found) => ReviewAction::Verdict(found),
            Err(cause) => ReviewAction::Malformed {
                message: "review output malformed after repair".to_owned(),
                cause,
            },
        }
    }

    /// The model could not be asked.
    pub fn on_failure(&self, message: String) -> (r: ReviewAction)
        ensures
            r@ == ReviewActionV::Failed(message@),
    {
        ReviewAction::Failed(message)
    }

    /// The model did not answer in time: the first question, or the second.
    pub fn on_timeout(&self, repairing: bool) -> (r: ReviewAction)
        ensures
            r@ == ReviewActionV::Failed(
                if repairing {
                    "LLM repair call timed out"@
                } else {
                    "LLM review call timed out"@
                },
            ),
    {
        if repairing {
            ReviewAction::Failed("LLM repair call timed out".to_owned())
        } else {
            ReviewAction::Failed("LLM review call timed out".to_owned())
        }
    }
}

/// What a model said: nothing where it gave no text.
pub open spec fn said_text(said: Option<Seq<char>>) -> Seq<char> {
    match said {
        Some(s) => s,
        None => seq![],
    }
}

/// A result that is no result is sent back with the reason, without asking a model; a verdict that
/// stays unreadable is reported with its cause.
pub proof fn law_review_says_what_is_wrong(v: ReviewV, s: StateV, said: Seq<char>, why: Seq<char>)
    ensures
        sanitize::sanitized(v.result) == SanitizedV::Rejected(why) ==> affordable(v, s)
            == ReviewActionV::Verdict(VerdictV::Retry(why)),
        verdict::verdict_in(said, json::json_reader()) == Err::<VerdictV, Seq<char>>(why)
            ==> (repaired(said) matches ReviewActionV::Malformed { cause, .. } && cause == why),
        review_request(v, s).max_tokens == 1024,
        repair_request(v, s, said).max_tokens == 256,
{
}

} // verus!
