//! What the hooks of coding CLIs tell.

pub mod claude;
pub mod codex;
pub mod gemini;
pub mod transcript;

use vstd::prelude::*;
use vstd::string::*;

use crate::json;
use crate::json::JValue;
use crate::json::Json;
use crate::text;
use crate::text::same;

verus! {

/// How long to wait before a transcript without news is read once more: a hook can come before
/// the last entry is on disk.
pub const TRANSCRIPT_FLUSH_RETRY_MS: u64 = 500;

/// What a hook told.
#[derive(Debug)]
pub struct CapturedContent {
    pub session_id: String,
    pub content: String,
    pub transcript_path: Option<String>,
}

pub ghost struct CapturedV {
    pub session_id: Seq<char>,
    pub content: Seq<char>,
    pub transcript_path: Option<Seq<char>>,
}

impl CapturedContent {
    pub open spec fn view(&self) -> CapturedV {
        CapturedV {
            session_id: self.session_id@,
            content: self.content@,
            transcript_path: text::opt_text(self.transcript_path),
        }
    }
}

/// How a transcript is written.
#[derive(Debug, Clone, Copy, PartialEq, Eq, Structural)]
pub enum Form {
    Claude,
    Codex,
}

/// What follows a hook.
#[derive(Debug)]
pub enum ExtractStep {
    /// The hook told everything.
    Ready(CapturedContent),
    /// The session's transcript has the rest.
    Read { session_id: String, transcript_path: String, form: Form },
    Failed(String),
}

pub ghost enum ExtractStepV {
    Ready(CapturedV),
    Read { session_id: Seq<char>, transcript_path: Seq<char>, form: Form },
    Failed(Seq<char>),
}

impl ExtractStep {
    pub open spec fn view(&self) -> ExtractStepV {
        match self {
            ExtractStep::Ready(c) => ExtractStepV::Ready(c@),
            ExtractStep::Read { session_id, transcript_path, form } => ExtractStepV::Read {
                session_id: session_id@,
                transcript_path: transcript_path@,
                form: *form,
            },
            ExtractStep::Failed(e) => ExtractStepV::Failed(e@),
        }
    }
}

/// What the hook before a prompt told.
pub open spec fn prompt_in(input: JValue) -> ExtractStepV {
    match (json::jget_str(input, "session_id"@), json::jget_str(input, "prompt"@)) {
        (None, _) => ExtractStepV::Failed("missing session_id"@),
        (_, None) => ExtractStepV::Failed("missing prompt"@),
        (Some(session_id), Some(content)) => ExtractStepV::Ready(
            CapturedV {
                session_id,
                content,
                transcript_path: json::jget_str(input, "transcript_path"@),
            },
        ),
    }
}

/// What the hook after a response told: where the response can be read.
pub open spec fn response_in(input: JValue, form: Form) -> ExtractStepV {
    match (json::jget_str(input, "session_id"@), json::jget_str(input, "transcript_path"@)) {
        (None, _) => ExtractStepV::Failed("missing session_id"@),
        (_, None) => ExtractStepV::Failed("missing transcript_path"@),
        (Some(session_id), Some(transcript_path)) => ExtractStepV::Read {
            session_id,
            transcript_path,
            form,
        },
    }
}

pub(crate) fn extract_prompt(input: &Json) -> (r: ExtractStep)
    ensures
        r@ == prompt_in(input@),
{
    let session_id = match input.get_str("session_id") {
        Some(s) => s.to_owned(),
        None => {
            return ExtractStep::Failed("missing session_id".to_owned());
        },
    };
    let content = match input.get_str("prompt") {
        Some(s) => s.to_owned(),
        None => {
            return ExtractStep::Failed("missing prompt".to_owned());
        },
    };
    let transcript_path = match input.get_str("transcript_path") {
        Some(s) => Some(s.to_owned()),
        None => None,
    };
    ExtractStep::Ready(CapturedContent { session_id, content, transcript_path })
}

pub(crate) fn extract_response(input: &Json, form: Form) -> (r: ExtractStep)
    ensures
        r@ == response_in(input@, form),
{
    let session_id = match input.get_str("session_id") {
        Some(s) => s.to_owned(),
        None => {
            return ExtractStep::Failed("missing session_id".to_owned());
        },
    };
    match input.get_str("transcript_path") {
        Some(s) => ExtractStep::Read { session_id, transcript_path: s.to_owned(), form },
        None => ExtractStep::Failed("missing transcript_path".to_owned()),
    }
}

/// What is said of an event that a platform does not know.
pub open spec fn unknown_event(platform: Seq<char>, event: Seq<char>) -> Seq<char> {
    "unknown event for "@ + platform + ": "@ + event
}

pub(crate) fn refuse_event(platform: &str, event: &str) -> (r: ExtractStep)
    ensures
        r@ == ExtractStepV::Failed(unknown_event(platform@, event@)),
{
    let mut e = "unknown event for ".to_owned();
    e.append(platform);
    e.append(": ");
    e.append(event);
    ExtractStep::Failed(e)
}

/// What a hook of a platform told; `brand` is what Anthropic's coding CLI goes by.
pub open spec fn hook_told(
    brand: Seq<char>,
    platform: Seq<char>,
    event: Seq<char>,
    input: JValue,
) -> ExtractStepV {
    if platform == brand {
        claude::told(brand, event, input)
    } else if platform == "codex"@ {
        codex::told(event, input)
    } else if platform == "gemini"@ {
        gemini::told(event, input)
    } else {
        ExtractStepV::Failed("unknown platform: "@ + platform)
    }
}

/// What a hook of a platform told.
pub fn extract(brand: &str, platform: &str, event: &str, input: &Json) -> (r: ExtractStep)
    ensures
        r@ == hook_told(brand@, platform@, event@, input@),
{
    if same(platform, brand) {
        claude::extract(brand, event, input)
    } else if same(platform, "codex") {
        codex::extract(event, input)
    } else if same(platform, "gemini") {
        gemini::extract(event, input)
    } else {
        let mut e = "unknown platform: ".to_owned();
        e.append(platform);
        ExtractStep::Failed(e)
    }
}

/// What was captured, once the transcript has been read.
pub fn with_transcript(session_id: String, transcript_path: String, content: String) -> (r:
    CapturedContent)
    ensures
        r@ == (CapturedV {
            session_id: session_id@,
            content: content@,
            transcript_path: Some(transcript_path@),
        }),
{
    CapturedContent { session_id, content, transcript_path: Some(transcript_path) }
}

/// Whether a transcript is to be read once more: where the first reading had no news.
pub fn reads_again(first: &str) -> (r: bool)
    ensures
        r == (first@.len() == 0),
{
    first.unicode_len() == 0
}

/// What a hook told is captured as it was told: the prompt of its session, to the letter, for each
/// of the platforms.
pub proof fn law_prompt_is_captured(brand: Seq<char>, platform: Seq<char>, input: JValue, prompt: Seq<char>, session: Seq<char>)
    requires
        platform == brand || platform == "codex"@ || platform == "gemini"@,
        json::jget_str(input, "prompt"@) == Some(prompt),
        json::jget_str(input, "session_id"@) == Some(session),
    ensures
        hook_told(brand, platform, "prompt"@, input) matches ExtractStepV::Ready(c) && c.content
            == prompt && c.session_id == session,
{
}

/// A response is read from the transcript that the hook names, in the form of its platform.
pub proof fn law_response_is_read_from_its_transcript(
    brand: Seq<char>,
    input: JValue,
    path: Seq<char>,
    session: Seq<char>,
)
    requires
        json::jget_str(input, "transcript_path"@) == Some(path),
        json::jget_str(input, "session_id"@) == Some(session),
        brand != "codex"@,
    ensures
        hook_told(brand, brand, "response"@, input) == (ExtractStepV::Read {
            session_id: session,
            transcript_path: path,
            form: Form::Claude,
        }),
        hook_told(brand, "codex"@, "response"@, input) == (ExtractStepV::Read {
            session_id: session,
            transcript_path: path,
            form: Form::Codex,
        }),
{
    reveal_strlit("prompt");
    reveal_strlit("response");
    assert("prompt"@.len() != "response"@.len());
}

/// A hook that tells no session or no prompt is refused, and so is an unknown platform.
pub proof fn law_incomplete_hooks_are_refused(brand: Seq<char>, platform: Seq<char>, event: Seq<char>, input: JValue)
    ensures
        json::jget_str(input, "session_id"@) is None ==> prompt_in(input) is Failed && response_in(
            input,
            Form::Claude,
        ) is Failed,
        json::jget_str(input, "prompt"@) is None ==> prompt_in(input) is Failed,
        !(platform == brand || platform == "codex"@ || platform == "gemini"@) ==> hook_told(
            brand,
            platform,
            event,
            input,
        ) is Failed,
{
}

/// A prompt keeps the transcript that it belongs to, and an event that is not known is named.
pub proof fn law_prompt_keeps_its_transcript(input: JValue, platform: Seq<char>, event: Seq<char>)
    ensures
        prompt_in(input) matches ExtractStepV::Ready(c) ==> c.transcript_path == json::jget_str(
            input,
            "transcript_path"@,
        ),
        text::has_suffix(unknown_event(platform, event), event),
        event != "prompt"@ && event != "response"@ ==> codex::told(event, input) is Failed
            && gemini::told(event, input) is Failed && claude::told(platform, event, input) is Failed,
{
    let said = unknown_event(platform, event);
    assert(said.subrange(said.len() - event.len(), said.len() as int) =~= event);
}

} // verus!
