//! Hooks that tell a prompt and a response themselves.

use vstd::prelude::*;
use vstd::string::*;

use crate::json;
use crate::json::JValue;
use crate::json::Json;
use crate::plugin::platform;
use crate::plugin::platform::refuse_event;
use crate::plugin::platform::CapturedContent;
use crate::plugin::platform::CapturedV;
use crate::plugin::platform::ExtractStep;
use crate::plugin::platform::ExtractStepV;
use crate::text;
use crate::text::join;
use crate::text::same;

verus! {

/// The texts of a message's parts.
pub open spec fn part_texts(parts: Seq<JValue>) -> Seq<Seq<char>>
    decreases parts.len(),
{
    if parts.len() == 0 {
        seq![]
    } else {
        match json::jget_str(parts.last(), "text"@) {
            Some(s) => part_texts(parts.drop_last()).push(s),
            None => part_texts(parts.drop_last()),
        }
    }
}

/// The text of a message: that of its parts, or the message itself.
pub open spec fn parts_text(content: JValue) -> Seq<char> {
    match json::jarr(json::jat(content, "parts"@)) {
        Some(parts) => text::joined(part_texts(parts), "\n"@),
        None => match content {
            JValue::Str(s) => s,
            _ => ""@,
        },
    }
}

/// What the user said last.
pub open spec fn last_user_text(contents: Seq<JValue>) -> Seq<char>
    decreases contents.len(),
{
    if contents.len() == 0 {
        ""@
    } else {
        match user_text(contents.last()) {
            Some(s) => s,
            None => last_user_text(contents.drop_last()),
        }
    }
}

/// What the user said in a message, where it is the user's and has text.
pub open spec fn user_text(item: JValue) -> Option<Seq<char>> {
    if json::jget_str(item, "role"@) == Some("user"@) {
        match json::jarr(json::jat(item, "parts"@)) {
            Some(parts) => if part_texts(parts).len() > 0 {
                Some(text::joined(part_texts(parts), "\n"@))
            } else {
                None
            },
            None => None,
        }
    } else {
        None
    }
}

/// The texts of the candidates that have any.
pub open spec fn candidate_texts(candidates: Seq<JValue>) -> Seq<Seq<char>>
    decreases candidates.len(),
{
    if candidates.len() == 0 {
        seq![]
    } else {
        let before = candidate_texts(candidates.drop_last());
        match json::jget(candidates.last(), "content"@) {
            Some(content) => if parts_text(content).len() > 0 {
                before.push(parts_text(content))
            } else {
                before
            },
            None => before,
        }
    }
}

/// The session that a hook belongs to.
pub open spec fn session_of(input: JValue) -> Seq<char> {
    match json::jget_str(input, "session_id"@) {
        Some(s) => s,
        None => "gemini-default"@,
    }
}

/// The prompt that a hook told: as such, or in the conversation, or else all that it told.
pub open spec fn prompt_of(input: JValue) -> Seq<char> {
    match json::jget_str(input, "prompt"@) {
        Some(s) => s,
        None => match json::jarr(json::jat(input, "contents"@)) {
            Some(contents) => last_user_text(contents),
            None => json::json_text(input),
        },
    }
}

/// The response that a hook told: as such, or in candidates, or as a message, or else all that it
/// told.
pub open spec fn response_of(input: JValue) -> Seq<char> {
    match json::jget_str(input, "text"@) {
        Some(s) => s,
        None => match json::jarr(json::jat(input, "candidates"@)) {
            Some(candidates) => text::joined(candidate_texts(candidates), "\n"@),
            None => match json::jget(input, "content"@) {
                Some(content) => parts_text(content),
                None => json::json_text(input),
            },
        },
    }
}

/// What a hook told.
pub open spec fn told(event: Seq<char>, input: JValue) -> ExtractStepV {
    if event == "prompt"@ {
        ExtractStepV::Ready(
            CapturedV {
                session_id: session_of(input),
                content: prompt_of(input),
                transcript_path: None,
            },
        )
    } else if event == "response"@ {
        ExtractStepV::Ready(
            CapturedV {
                session_id: session_of(input),
                content: response_of(input),
                transcript_path: None,
            },
        )
    } else {
        ExtractStepV::Failed(platform::unknown_event("gemini"@, event))
    }
}

fn read_parts(parts: &Vec<Json>) -> (r: Vec<String>)
    ensures
        text::texts(r@) == part_texts(json::items_view(parts@)),
{
    let ghost all = json::items_view(parts@);
    let mut out: Vec<String> = Vec::new();
    let mut i: usize = 0;
    assert(text::texts(out@) =~= part_texts(all.take(0)));
    while i < parts.len()
        invariant
            i <= parts.len(),
            all == json::items_view(parts@),
            text::texts(out@) == part_texts(all.take(i as int)),
        decreases parts.len() - i,
    {
        assert(all.take(i + 1).drop_last() =~= all.take(i as int));
        assert(all.take(i + 1).last() == parts@[i as int]@);
        let ghost before = text::texts(out@);
        if let Some(s) = parts[i].get_str("text") {
            let owned = s.to_owned();
            let ghost it = owned@;
            out.push(owned);
            assert(text::texts(out@) =~= before.push(it));
        }
        i = i + 1;
    }
    assert(all.take(i as int) =~= all);
    out
}

fn extract_parts_text(content: &Json) -> (r: String)
    ensures
        r@ == parts_text(content@),
{
    match content.get_array("parts") {
        Some(parts) => join(read_parts(parts).as_slice(), "\n"),
        None => match content.as_str() {
            Some(s) => s.to_owned(),
            None => "".to_owned(),
        },
    }
}

fn extract_user_text(item: &Json) -> (r: Option<String>)
    ensures
        text::opt_text(r) == user_text(item@),
{
    let is_user = match item.get_str("role") {
        Some(s) => same(s, "user"),
        None => false,
    };
    if !is_user {
        return None;
    }
    match item.get_array("parts") {
        Some(parts) => {
            let texts = read_parts(parts);
            assert(text::texts(texts@).len() == texts@.len());
            if texts.len() > 0 {
                Some(join(texts.as_slice(), "\n"))
            } else {
                None
            }
        },
        None => None,
    }
}

fn extract_last_user_text(contents: &Vec<Json>) -> (r: String)
    ensures
        r@ == last_user_text(json::items_view(contents@)),
{
    let ghost all = json::items_view(contents@);
    let mut i: usize = contents.len();
    assert(all.take(i as int) =~= all);
    while i > 0
        invariant
            i <= contents.len(),
            all == json::items_view(contents@),
            last_user_text(all) == last_user_text(all.take(i as int)),
        decreases i,
    {
        assert(all.take(i as int).drop_last() =~= all.take(i - 1));
        assert(all.take(i as int).last() == contents@[i - 1]@);
        if let Some(s) = extract_user_text(&contents[i - 1]) {
            return s;
        }
        i = i - 1;
    }
    "".to_owned()
}

fn extract_candidate_text(candidates: &Vec<Json>) -> (r: String)
    ensures
        r@ == text::joined(candidate_texts(json::items_view(candidates@)), "\n"@),
{
    let ghost all = json::items_view(candidates@);
    let mut out: Vec<String> = Vec::new();
    let mut i: usize = 0;
    assert(text::texts(out@) =~= candidate_texts(all.take(0)));
    while i < candidates.len()
        invariant
            i <= candidates.len(),
            all == json::items_view(candidates@),
            text::texts(out@) == candidate_texts(all.take(i as int)),
        decreases candidates.len() - i,
    {
        assert(all.take(i + 1).drop_last() =~= all.take(i as int));
        assert(all.take(i + 1).last() == candidates@[i as int]@);
        let ghost before = text::texts(out@);
        if let Some(content) = candidates[i].get("content") {
            let s = extract_parts_text(content);
            let ghost it = s@;
            if s.as_str().unicode_len() > 0 {
                out.push(s);
                assert(text::texts(out@) =~= before.push(it));
            }
        }
        i = i + 1;
    }
    assert(all.take(i as int) =~= all);
    join(out.as_slice(), "\n")
}

fn read_session(input: &Json) -> (r: String)
    ensures
        r@ == session_of(input@),
{
    match input.get_str("session_id") {
        Some(s) => s.to_owned(),
        None => "gemini-default".to_owned(),
    }
}

fn read_prompt(input: &Json) -> (r: String)
    ensures
        r@ == prompt_of(input@),
{
    match input.get_str("prompt") {
        Some(s) => s.to_owned(),
        None => match input.get_array("contents") {
            Some(contents) => extract_last_user_text(contents),
            None => input.to_text(),
        },
    }
}

fn read_response(input: &Json) -> (r: String)
    ensures
        r@ == response_of(input@),
{
    match input.get_str("text") {
        Some(s) => s.to_owned(),
        None => match input.get_array("candidates") {
            Some(candidates) => extract_candidate_text(candidates),
            None => match input.get("content") {
                Some(content) => extract_parts_text(content),
                None => input.to_text(),
            },
        },
    }
}

/// What a hook told.
pub fn extract(event: &str, input: &Json) -> (r: ExtractStep)
    ensures
        r@ == told(event@, input@),
{
    if same(event, "prompt") {
        ExtractStep::Ready(
            CapturedContent {
                session_id: read_session(input),
                content: read_prompt(input),
                transcript_path: None,
            },
        )
    } else if same(event, "response") {
        ExtractStep::Ready(
            CapturedContent {
                session_id: read_session(input),
                content: read_response(input),
                transcript_path: None,
            },
        )
    } else {
        refuse_event("gemini", event)
    }
}

/// A prompt or a response that the hook tells as a text is captured to the letter, in its session.
pub proof fn law_told_text_is_captured(input: JValue, t: Seq<char>, session: Seq<char>)
    requires
        json::jget_str(input, "session_id"@) == Some(session),
    ensures
        json::jget_str(input, "prompt"@) == Some(t) ==> (told("prompt"@, input) matches ExtractStepV::Ready(
            c,
        ) && c.content == t && c.session_id == session),
        json::jget_str(input, "text"@) == Some(t) ==> (told("response"@, input) matches ExtractStepV::Ready(
            c,
        ) && c.content == t && c.session_id == session),
{
    reveal_strlit("prompt");
    reveal_strlit("response");
    assert("prompt"@.len() != "response"@.len());
}

proof fn lemma_part_texts(a: Seq<JValue>, b: Seq<JValue>)
    ensures
        part_texts(a + b) == part_texts(a) + part_texts(b),
    decreases b.len(),
{
    if b.len() == 0 {
        assert(a + b =~= a);
        assert(part_texts(a) + part_texts(b) =~= part_texts(a));
    } else {
        lemma_part_texts(a, b.drop_last());
        assert((a + b).drop_last() =~= a + b.drop_last());
        assert((a + b).last() == b.last());
        assert(part_texts(a + b) =~= part_texts(a) + part_texts(b));
    }
}

/// A message in parts is captured whole: the text of each part stands in it.
pub proof fn law_parts_are_captured_whole(content: JValue, parts: Seq<JValue>, k: int, t: Seq<char>)
    requires
        json::jarr(json::jat(content, "parts"@)) == Some(parts),
        0 <= k < parts.len(),
        json::jget_str(parts[k], "text"@) == Some(t),
    ensures
        text::has_infix(parts_text(content), t),
        json::jget_str(content, "role"@) == Some("user"@) ==> (user_text(content) matches Some(said)
            && text::has_infix(said, t)),
{
    reveal_with_fuel(part_texts, 2);
    let a = parts.take(k);
    let b = parts.skip(k + 1);
    assert(parts =~= a + seq![parts[k]] + b);
    lemma_part_texts(a + seq![parts[k]], b);
    lemma_part_texts(a, seq![parts[k]]);
    assert(seq![parts[k]].drop_last() =~= seq![]);
    assert(part_texts(seq![parts[k]]) =~= seq![t]);
    let i = part_texts(a).len() as int;
    assert(part_texts(parts)[i] == t);
    text::law_joined_text_holds_each_part(part_texts(parts), "\n"@, i);
}

/// The prompt of a conversation is what the user said last.
pub proof fn law_last_prompt_is_captured(before: Seq<JValue>, last: JValue, said: Seq<char>, behind: Seq<
    JValue,
>)
    requires
        user_text(last) == Some(said),
        forall|i: int| 0 <= i < behind.len() ==> user_text(#[trigger] behind[i]) is None,
    ensures
        last_user_text(before + seq![last] + behind) == said,
    decreases behind.len(),
{
    let all = before + seq![last] + behind;
    if behind.len() == 0 {
        assert(all.last() == last);
    } else {
        assert(all.last() == behind.last());
        assert(behind[behind.len() - 1] == behind.last());
        assert(all.drop_last() =~= before + seq![last] + behind.drop_last());
        assert forall|i: int| 0 <= i < behind.drop_last().len() implies user_text(
            #[trigger] behind.drop_last()[i],
        ) is None by {
            assert(behind.drop_last()[i] == behind[i]);
        }
        law_last_prompt_is_captured(before, last, said, behind.drop_last());
    }
}

/// Without a text of its own, a prompt is what the user said last, and a response what the
/// candidates said; a session without a name has the default one.
pub proof fn law_told_parts_are_captured(input: JValue, items: Seq<JValue>, content: JValue)
    ensures
        json::jget_str(input, "prompt"@) is None && json::jget(input, "contents"@) == Some(
            JValue::Arr(items),
        ) ==> (told("prompt"@, input) matches ExtractStepV::Ready(c) && c.content == last_user_text(
            items,
        )),
        json::jget_str(input, "text"@) is None && json::jget(input, "candidates"@) == Some(
            JValue::Arr(items),
        ) ==> (told("response"@, input) matches ExtractStepV::Ready(c) && c.content == text::joined(
            candidate_texts(items),
            "\n"@,
        )),
        json::jget_str(input, "text"@) is None && json::jget(input, "candidates"@) is None && json::jget(
            input,
            "content"@,
        ) == Some(content) ==> (told("response"@, input) matches ExtractStepV::Ready(c) && c.content
            == parts_text(content)),
        json::jget_str(input, "session_id"@) is None ==> (told("prompt"@, input) matches ExtractStepV::Ready(
            c,
        ) && c.session_id == "gemini-default"@),
        json::jget_str(content, "role"@) != Some("user"@) ==> user_text(content) is None,
{
    reveal_strlit("prompt");
    reveal_strlit("response");
    assert("prompt"@.len() != "response"@.len());
}

/// Each candidate that says something is captured, in order; one that says nothing is passed over.
pub proof fn law_candidates_are_captured_in_order(before: Seq<JValue>, candidate: JValue, content: JValue)
    requires
        json::jget(candidate, "content"@) == Some(content),
    ensures
        parts_text(content).len() > 0 ==> candidate_texts(before.push(candidate)) == candidate_texts(
            before,
        ).push(parts_text(content)),
        parts_text(content).len() == 0 ==> candidate_texts(before.push(candidate)) == candidate_texts(
            before,
        ),
{
    assert(before.push(candidate).drop_last() =~= before);
}

} // verus!
