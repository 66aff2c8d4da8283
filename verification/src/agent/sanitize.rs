//! What of a model's answer is the result: reasoning traces are cut off, and an answer that is
//! nothing but reasoning is refused.

use vstd::prelude::*;
use vstd::string::*;

use crate::text;
use crate::text::chars_of;
use crate::text::find_chars;
use crate::text::lower_ascii;
use crate::text::starts_with;
use crate::text::trim;
use crate::text::trim_start;

verus! {

/// A result, or the reason why there is none.
#[derive(Debug)]
pub enum SanitizedTaskResult {
    Accepted(String),
    Rejected(String),
}

pub ghost enum SanitizedV {
    Accepted(Seq<char>),
    Rejected(Seq<char>),
}

impl SanitizedTaskResult {
    pub open spec fn view(&self) -> SanitizedV {
        match self {
            SanitizedTaskResult::Accepted(s) => SanitizedV::Accepted(s@),
            SanitizedTaskResult::Rejected(s) => SanitizedV::Rejected(s@),
        }
    }
}

/// `lower` starts with the opening tag, with or without attributes.
pub open spec fn opens_with(lower: Seq<char>, tag: Seq<char>) -> bool {
    text::has_prefix(lower, "<"@ + tag + ">"@) || text::has_prefix(lower, "<"@ + tag + " "@)
}

/// The tag of the reasoning block that a text starts with, letter case and leading space aside.
pub open spec fn reasoning_tag(text: Seq<char>) -> Option<Seq<char>> {
    let lower = text::ascii_lower(text::trimmed_start(text));
    if opens_with(lower, "think"@) {
        Some("think"@)
    } else if opens_with(lower, "analysis"@) {
        Some("analysis"@)
    } else if opens_with(lower, "reasoning"@) {
        Some("reasoning"@)
    } else if opens_with(lower, "scratchpad"@) {
        Some("scratchpad"@)
    } else {
        None
    }
}


/// What follows the first `mark` of a text.
pub open spec fn after_mark(text: Seq<char>, mark: Seq<char>) -> Option<Seq<char>> {
    match text::find(text, mark) {
        Some(i) => Some(text.skip(i + mark.len())),
        None => None,
    }
}

/// A text without the reasoning block that it starts with, or nothing where the block does not
/// end or nothing follows it.
pub open spec fn without_block(text: Seq<char>, tag: Seq<char>) -> Option<Seq<char>> {
    match after_mark(text, ">"@) {
        None => None,
        Some(inner) => match after_mark(inner, "</"@ + tag + ">"@) {
            None => None,
            Some(rest) => if text::trimmed(rest).len() == 0 {
                None
            } else {
                Some(text::trimmed(rest))
            },
        },
    }
}

/// A text without the reasoning blocks at its start, or nothing where only reasoning is there.
pub open spec fn without_blocks(text: Seq<char>) -> Option<Seq<char>>
    decreases text.len(),
{
    match reasoning_tag(text) {
        None => Some(text),
        Some(tag) => match without_block(text, tag) {
            None => None,
            Some(rest) => {
                proof {
                    lemma_block_shortens(text, tag);
                }
                without_blocks(rest)
            },
        },
    }
}

pub proof fn lemma_trimmed_start_len(s: Seq<char>)
    ensures
        text::trimmed_start(s).len() <= s.len(),
    decreases s.len(),
{
    if s.len() > 0 && text::is_space(s[0]) {
        lemma_trimmed_start_len(s.skip(1));
    }
}

pub proof fn lemma_trimmed_end_len(s: Seq<char>)
    ensures
        text::trimmed_end(s).len() <= s.len(),
    decreases s.len(),
{
    if s.len() > 0 && text::is_space(s.last()) {
        lemma_trimmed_end_len(s.drop_last());
    }
}

/// Cutting a reasoning block off makes a text shorter.
pub proof fn lemma_block_shortens(text: Seq<char>, tag: Seq<char>)
    ensures
        without_block(text, tag) matches Some(rest) ==> rest.len() < text.len(),
{
    reveal_strlit(">");
    if without_block(text, tag) is Some {
        crate::text::lemma_find_from(text, ">"@, 0);
        let inner = after_mark(text, ">"@).unwrap();
        let close = "</"@ + tag + ">"@;
        crate::text::lemma_find_from(inner, close, 0);
        let rest = after_mark(inner, close).unwrap();
        lemma_trimmed_start_len(rest);
        lemma_trimmed_end_len(text::trimmed_start(rest));
    }
}

/// What follows a marker that stands at the start of `text` or at the start of a line of it.
pub open spec fn after_marker(text: Seq<char>, lower: Seq<char>, marker: Seq<char>) -> Option<Seq<char>> {
    if text::has_prefix(lower, marker) {
        Some(text::trimmed_start(text.skip(marker.len() as int)))
    } else {
        match text::find(lower, "\n"@ + marker) {
            Some(i) => Some(text::trimmed_start(text.skip(i + ("\n"@ + marker).len()))),
            None => None,
        }
    }
}

/// The answer that a text marks as final.
pub open spec fn marked_answer(text: Seq<char>) -> Option<Seq<char>> {
    let t = text::trimmed_start(text);
    let lower = text::ascii_lower(t);
    if after_marker(t, lower, "final answer:"@) is Some {
        after_marker(t, lower, "final answer:"@)
    } else if after_marker(t, lower, "answer:"@) is Some {
        after_marker(t, lower, "answer:"@)
    } else {
        after_marker(t, lower, "final:"@)
    }
}

/// Whether a text reads like planning notes and not like a result.
pub open spec fn is_reasoning_only(text: Seq<char>) -> bool {
    let lower = text::ascii_lower(text::trimmed(text));
    ||| text::trimmed(text).len() == 0
    ||| text::has_prefix(lower, "<think"@)
    ||| text::has_prefix(lower, "reasoning:"@)
    ||| text::has_prefix(lower, "analysis:"@)
    ||| text::has_prefix(lower, "scratchpad:"@)
    ||| text::has_prefix(lower, "okay, let's"@)
    ||| text::has_prefix(lower, "let's tackle"@)
    ||| text::has_prefix(lower, "first, i need"@)
    ||| text::has_prefix(lower, "first, let me"@)
    ||| text::has_prefix(lower, "the user wants"@)
    ||| text::has_prefix(lower, "looking at the retrieved facts"@)
    ||| text::has_prefix(lower, "check raw context"@)
}

pub open spec fn or_else(o: Option<Seq<char>>, other: Seq<char>) -> Seq<char> {
    match o {
        Some(s) => s,
        None => other,
    }
}

/// The result that a model's answer holds.
pub open spec fn sanitized(text: Seq<char>) -> SanitizedV {
    let t = text::trimmed(text);
    if t.len() == 0 {
        SanitizedV::Rejected("execution returned an empty result"@)
    } else {
        match without_blocks(t) {
            None => SanitizedV::Rejected("execution returned reasoning-only output"@),
            Some(body) => {
                let answer = or_else(marked_answer(body), body);
                if answer.len() == 0 {
                    SanitizedV::Rejected("execution returned an empty result"@)
                } else if is_reasoning_only(answer) {
                    SanitizedV::Rejected("execution returned reasoning-only output"@)
                } else {
                    SanitizedV::Accepted(answer)
                }
            },
        }
    }
}

/// An accepted result is never blank.
pub proof fn law_accepted_result_is_not_blank(text: Seq<char>)
    ensures
        sanitized(text) matches SanitizedV::Accepted(answer) ==> text::trimmed(answer).len() > 0,
{
}

/// A rejection always says why.
pub proof fn law_rejection_names_its_reason(text: Seq<char>)
    ensures
        sanitized(text) matches SanitizedV::Rejected(reason) ==> reason
            == "execution returned an empty result"@ || reason
            == "execution returned reasoning-only output"@,
{
}

fn opens_with_tag(lower: &str, tag: &str) -> (r: bool)
    ensures
        r == opens_with(lower@, tag@),
{
    let mut plain: String = "<".to_owned();
    plain.append(tag);
    let mut attributed: String = plain.clone();
    plain.append(">");
    attributed.append(" ");
    starts_with(lower, plain.as_str()) || starts_with(lower, attributed.as_str())
}

pub fn leading_reasoning_tag(text: &str) -> (r: Option<&'static str>)
    ensures
        crate::text::opt_slice(r) == reasoning_tag(text@),
{
    let lower = lower_ascii(trim_start(text));
    if opens_with_tag(lower.as_str(), "think") {
        Some("think")
    } else if opens_with_tag(lower.as_str(), "analysis") {
        Some("analysis")
    } else if opens_with_tag(lower.as_str(), "reasoning") {
        Some("reasoning")
    } else if opens_with_tag(lower.as_str(), "scratchpad") {
        Some("scratchpad")
    } else {
        None
    }
}

/// What follows the first `mark` of a text.
fn cut_after<'a>(text: &'a str, mark: &str) -> (r: Option<&'a str>)
    ensures
        crate::text::opt_slice(r) == after_mark(text@, mark@),
{
    let cs = chars_of(text);
    let ms = chars_of(mark);
    match find_chars(&cs, &ms, 0) {
        Some(i) => {
            let rest = text.substring_char(i + ms.len(), cs.len());
            assert(rest@ =~= text@.skip(i + mark@.len()));
            Some(rest)
        },
        None => None,
    }
}

fn marker_tail<'a>(text: &'a str, lower: &str, marker: &str) -> (r: Option<&'a str>)
    requires
        lower@ == text::ascii_lower(text@),
    ensures
        crate::text::opt_slice(r) == after_marker(text@, lower@, marker@),
{
    let n: usize = text.unicode_len();
    if starts_with(lower, marker) {
        let tail = text.substring_char(marker.unicode_len(), n);
        assert(tail@ =~= text@.skip(marker@.len() as int));
        return Some(trim_start(tail));
    }
    let mut needle: String = "\n".to_owned();
    needle.append(marker);
    let lc = chars_of(lower);
    let nc = chars_of(needle.as_str());
    match find_chars(&lc, &nc, 0) {
        Some(i) => {
            let tail = text.substring_char(i + nc.len(), n);
            assert(tail@ =~= text@.skip(i + needle@.len()));
            Some(trim_start(tail))
        },
        None => None,
    }
}

pub fn extract_marked_final_answer(text: &str) -> (r: Option<&str>)
    ensures
        crate::text::opt_slice(r) == marked_answer(text@),
{
    let t = trim_start(text);
    let lower = lower_ascii(t);
    match marker_tail(t, lower.as_str(), "final answer:") {
        Some(answer) => Some(answer),
        None => match marker_tail(t, lower.as_str(), "answer:") {
            Some(answer) => Some(answer),
            None => marker_tail(t, lower.as_str(), "final:"),
        },
    }
}

pub fn looks_like_reasoning_only(text: &str) -> (r: bool)
    ensures
        r == is_reasoning_only(text@),
{
    let t = trim(text);
    if t.is_empty() {
        return true;
    }
    let lower = lower_ascii(t);
    let s = lower.as_str();
    starts_with(s, "<think") || starts_with(s, "reasoning:") || starts_with(s, "analysis:")
        || starts_with(s, "scratchpad:") || starts_with(s, "okay, let's") || starts_with(
        s,
        "let's tackle",
    ) || starts_with(s, "first, i need") || starts_with(s, "first, let me") || starts_with(
        s,
        "the user wants",
    ) || starts_with(s, "looking at the retrieved facts") || starts_with(s, "check raw context")
}

/// The result that a model's answer holds: without the reasoning blocks at its start, and from
/// the marker of the final answer on where there is one.
pub fn sanitize_task_result(text: &str) -> (r: SanitizedTaskResult)
    ensures
        r@ == sanitized(text@),
{
    let mut current: &str = trim(text);
    if current.is_empty() {
        return SanitizedTaskResult::Rejected("execution returned an empty result".to_owned());
    }
    let ghost start = current@;
    loop
        invariant
            without_blocks(start) == without_blocks(current@),
            start == text::trimmed(text@),
            start.len() > 0,
        ensures
            without_blocks(start) == Some(current@),
        decreases current@.len(),
    {
        match leading_reasoning_tag(current) {
            None => {
                break;
            },
            Some(tag) => {
                let ghost before = current@;
                let mut close: String = "</".to_owned();
                close.append(tag);
                close.append(">");
                let rest = match cut_after(current, ">") {
                    None => {
                        return SanitizedTaskResult::Rejected(
                            "execution returned reasoning-only output".to_owned(),
                        );
                    },
                    Some(inner) => match cut_after(inner, close.as_str()) {
                        None => {
                            return SanitizedTaskResult::Rejected(
                                "execution returned reasoning-only output".to_owned(),
                            );
                        },
                        Some(rest) => trim(rest),
                    },
                };
                if rest.is_empty() {
                    return SanitizedTaskResult::Rejected(
                        "execution returned reasoning-only output".to_owned(),
                    );
                }
                proof {
                    lemma_block_shortens(before, tag@);
                }
                current = rest;
            },
        }
    }
    let ghost body = current@;
    match extract_marked_final_answer(current) {
        Some(answer) => {
            current = answer;
        },
        None => {},
    }
    if current.is_empty() {
        return SanitizedTaskResult::Rejected("execution returned an empty result".to_owned());
    }
    if looks_like_reasoning_only(current) {
        return SanitizedTaskResult::Rejected(
            "execution returned reasoning-only output".to_owned(),
        );
    }
    SanitizedTaskResult::Accepted(current.to_owned())
}

proof fn lemma_skip_is_suffix(s: Seq<char>, n: int)
    requires
        0 <= n <= s.len(),
    ensures
        text::has_suffix(s, s.skip(n)),
{
    assert(s.subrange(n, s.len() as int) =~= s.skip(n));
}

proof fn lemma_suffix_of_suffix(s: Seq<char>, m: Seq<char>, p: Seq<char>)
    requires
        text::has_suffix(s, m),
        text::has_suffix(m, p),
    ensures
        text::has_suffix(s, p),
{
    let k = m.len() - p.len();
    assert(s.subrange(s.len() - p.len(), s.len() as int) =~= m.subrange(k, m.len() as int));
}

proof fn lemma_trimmed_start_is_suffix(s: Seq<char>)
    ensures
        text::has_suffix(s, text::trimmed_start(s)),
    decreases s.len(),
{
    if s.len() > 0 && text::is_space(s[0]) {
        lemma_trimmed_start_is_suffix(s.skip(1));
        lemma_skip_is_suffix(s, 1);
        lemma_suffix_of_suffix(s, s.skip(1), text::trimmed_start(s));
    } else {
        lemma_skip_is_suffix(s, 0);
        assert(s.skip(0) =~= s);
    }
}

proof fn lemma_trimmed_is_suffix(s: Seq<char>)
    requires
        s.len() > 0 ==> !text::is_space(s.last()),
    ensures
        text::has_suffix(s, text::trimmed(s)),
{
    lemma_trimmed_start_is_suffix(s);
    let t = text::trimmed_start(s);
    if t.len() > 0 {
        assert(s.subrange(s.len() - t.len(), s.len() as int).last() == s.last());
        assert(t.last() == s.last());
    }
    assert(text::trimmed_end(t) == t);
}

proof fn lemma_without_block_is_suffix(text: Seq<char>, tag: Seq<char>)
    requires
        text.len() > 0 ==> !text::is_space(text.last()),
    ensures
        without_block(text, tag) matches Some(rest) ==> crate::text::has_suffix(text, rest),
{
    if without_block(text, tag) is Some {
        crate::text::lemma_find_from(text, ">"@, 0);
        let i = crate::text::find(text, ">"@).unwrap();
        let inner = after_mark(text, ">"@).unwrap();
        lemma_skip_is_suffix(text, i + ">"@.len());
        let close = "</"@ + tag + ">"@;
        crate::text::lemma_find_from(inner, close, 0);
        let k = crate::text::find(inner, close).unwrap();
        let rest = after_mark(inner, close).unwrap();
        lemma_skip_is_suffix(inner, k + close.len());
        lemma_suffix_of_suffix(text, inner, rest);
        if rest.len() > 0 {
            assert(text.subrange(text.len() - rest.len(), text.len() as int).last() == text.last());
            assert(rest.last() == text.last());
        }
        lemma_trimmed_is_suffix(rest);
        lemma_suffix_of_suffix(text, rest, crate::text::trimmed(rest));
    }
}

proof fn lemma_without_blocks_is_suffix(text: Seq<char>)
    requires
        text.len() > 0 ==> !text::is_space(text.last()),
    ensures
        without_blocks(text) matches Some(rest) ==> crate::text::has_suffix(text, rest),
    decreases text.len(),
{
    match reasoning_tag(text) {
        None => {
            lemma_skip_is_suffix(text, 0);
            assert(text.skip(0) =~= text);
        },
        Some(tag) => {
            match without_block(text, tag) {
                None => {},
                Some(rest) => {
                    lemma_block_shortens(text, tag);
                    lemma_without_block_is_suffix(text, tag);
                    if rest.len() > 0 {
                        assert(text.subrange(text.len() - rest.len(), text.len() as int).last()
                            == text.last());
                        assert(rest.last() == text.last());
                    }
                    lemma_without_blocks_is_suffix(rest);
                    if without_blocks(rest) is Some {
                        lemma_suffix_of_suffix(text, rest, without_blocks(rest).unwrap());
                    }
                },
            }
        },
    }
}

proof fn lemma_after_marker_is_suffix(t: Seq<char>, marker: Seq<char>)
    ensures
        after_marker(t, text::ascii_lower(t), marker) matches Some(rest) ==> text::has_suffix(
            t,
            rest,
        ),
{
    let lower = text::ascii_lower(t);
    if text::has_prefix(lower, marker) {
        let n = marker.len() as int;
        lemma_skip_is_suffix(t, n);
        lemma_trimmed_start_is_suffix(t.skip(n));
        lemma_suffix_of_suffix(t, t.skip(n), text::trimmed_start(t.skip(n)));
    } else {
        let mark = "\n"@ + marker;
        text::lemma_find_from(lower, mark, 0);
        match text::find(lower, mark) {
            Some(i) => {
                let n = i + mark.len();
                lemma_skip_is_suffix(t, n);
                lemma_trimmed_start_is_suffix(t.skip(n));
                lemma_suffix_of_suffix(t, t.skip(n), text::trimmed_start(t.skip(n)));
            },
            None => {},
        }
    }
}

/// A result is what the model wrote, to the end of its answer: reasoning and a marker are cut off
/// its start, and nothing is put in.
pub proof fn law_result_is_the_end_of_the_answer(text: Seq<char>)
    ensures
        sanitized(text) matches SanitizedV::Accepted(answer) ==> text::has_suffix(
            text::trimmed(text),
            answer,
        ),
{
    let t = text::trimmed(text);
    let _ = text::law_trimming_takes_only_space(text);
    lemma_without_blocks_is_suffix(t);
    match without_blocks(t) {
        None => {},
        Some(body) => {
            let b = text::trimmed_start(body);
            lemma_trimmed_start_is_suffix(body);
            lemma_after_marker_is_suffix(b, "final answer:"@);
            lemma_after_marker_is_suffix(b, "answer:"@);
            lemma_after_marker_is_suffix(b, "final:"@);
            match marked_answer(body) {
                Some(answer) => {
                    lemma_suffix_of_suffix(body, b, answer);
                    lemma_suffix_of_suffix(t, body, answer);
                },
                None => {},
            }
        },
    }
}

/// An answer without reasoning and without a marker is its own result, white space around it
/// aside.
pub proof fn law_plain_answer_is_its_own_result(text: Seq<char>)
    requires
        text::trimmed(text).len() > 0,
        reasoning_tag(text::trimmed(text)) is None,
        marked_answer(text::trimmed(text)) is None,
        !is_reasoning_only(text::trimmed(text)),
    ensures
        sanitized(text) == SanitizedV::Accepted(text::trimmed(text)),
{
}

/// No result begins as planning notes do.
pub proof fn law_planning_notes_are_no_result(text: Seq<char>)
    ensures
        sanitized(text) matches SanitizedV::Accepted(answer) ==> {
            let lower = text::ascii_lower(text::trimmed(answer));
            &&& !text::has_prefix(lower, "<think"@)
            &&& !text::has_prefix(lower, "reasoning:"@)
            &&& !text::has_prefix(lower, "analysis:"@)
            &&& !text::has_prefix(lower, "scratchpad:"@)
            &&& !text::has_prefix(lower, "okay, let's"@)
            &&& !text::has_prefix(lower, "first, i need"@)
            &&& !text::has_prefix(lower, "the user wants"@)
        },
{
}

/// What a model thought aloud in a block of its own is left out: what stands behind the block is
/// taken in its place.  A block that does not end, or with nothing behind it, leaves no answer.
pub proof fn law_thinking_is_left_out(
    before: Seq<char>,
    inner: Seq<char>,
    tag: Seq<char>,
    behind: Seq<char>,
)
    requires
        !before.contains('>'),
        !text::has_infix(inner + "</"@ + tag, "</"@ + tag + ">"@),
        tag.len() > 0,
    ensures
        ({
            let whole = before + ">"@ + inner + "</"@ + tag + ">"@ + behind;
            reasoning_tag(whole) == Some(tag) ==> {
                &&& text::trimmed(behind).len() > 0 ==> without_blocks(whole) == without_blocks(
                    text::trimmed(behind),
                )
                &&& text::trimmed(behind).len() == 0 ==> without_blocks(whole) is None
            }
        }),
        reasoning_tag(before + ">"@ + inner) == Some(tag) && !text::has_infix(
            inner,
            "</"@ + tag + ">"@,
        ) ==> without_blocks(before + ">"@ + inner) is None,
{
    reveal_strlit(">");
    reveal_strlit("</");
    let close = "</"@ + tag + ">"@;
    let rest = inner + close + behind;
    let whole = before + ">"@ + inner + "</"@ + tag + ">"@ + behind;
    assert(whole =~= before + ">"@ + rest);
    lemma_first_mark(before, rest);
    lemma_first_close(inner, tag, behind);
    if reasoning_tag(whole) == Some(tag) {
        lemma_block_shortens(whole, tag);
    }
    lemma_first_mark(before, inner);
    if !text::has_infix(inner, close) {
        text::lemma_find_from(inner, close, 0);
        if let Some(i) = text::find(inner, close) {
            assert(text::occurs_at(inner, close, i));
        }
    }
}

proof fn lemma_first_mark(before: Seq<char>, rest: Seq<char>)
    requires
        !before.contains('>'),
    ensures
        after_mark(before + ">"@ + rest, ">"@) == Some(rest),
{
    reveal_strlit(">");
    let s = before + ">"@ + rest;
    let n = before.len() as int;
    assert(s.subrange(n, n + 1) =~= ">"@);
    assert(text::occurs_at(s, ">"@, n));
    text::lemma_find_from(s, ">"@, 0);
    let i = text::find(s, ">"@)->0;
    if i < n {
        assert(s.subrange(i, i + 1)[0] == ">"@[0]);
        assert(before[i] == '>');
    }
    assert(s.skip(n + 1) =~= rest);
}

proof fn lemma_first_close(inner: Seq<char>, tag: Seq<char>, behind: Seq<char>)
    requires
        !text::has_infix(inner + "</"@ + tag, "</"@ + tag + ">"@),
    ensures
        after_mark(inner + ("</"@ + tag + ">"@) + behind, "</"@ + tag + ">"@) == Some(behind),
{
    reveal_strlit(">");
    reveal_strlit("</");
    let close = "</"@ + tag + ">"@;
    let s = inner + close + behind;
    let n = inner.len() as int;
    assert(s.subrange(n, n + close.len()) =~= close);
    assert(text::occurs_at(s, close, n));
    text::lemma_find_from(s, close, 0);
    let i = text::find(s, close)->0;
    if i < n {
        let short = inner + "</"@ + tag;
        assert(short.subrange(i, i + close.len()) =~= s.subrange(i, i + close.len()));
        assert(text::occurs_at(short, close, i));
    }
    assert(s.skip(n + close.len()) =~= behind);
}

/// A block is known by its tag at the start of the answer, in any case of letters.
pub proof fn law_block_is_known_by_its_tag(text: Seq<char>)
    ensures
        ({
            let lower = text::ascii_lower(text::trimmed_start(text));
            let opens = |tag: Seq<char>|
                text::has_prefix(lower, "<"@ + tag + ">"@) || text::has_prefix(
                    lower,
                    "<"@ + tag + " "@,
                );
            &&& reasoning_tag(text) is Some <==> opens("think"@) || opens("analysis"@) || opens(
                "reasoning"@,
            ) || opens("scratchpad"@)
            &&& reasoning_tag(text) matches Some(tag) ==> opens(tag) && (tag == "think"@ || tag
                == "analysis"@ || tag == "reasoning"@ || tag == "scratchpad"@)
        }),
{
}

/// An answer that is marked as final is what stands behind its mark.
pub proof fn law_marked_answer_is_taken(text: Seq<char>, marker: Seq<char>)
    requires
        marker == "final answer:"@ || (marker == "answer:"@ && after_marker(
            text::trimmed_start(text),
            text::ascii_lower(text::trimmed_start(text)),
            "final answer:"@,
        ) is None),
        text::has_prefix(text::ascii_lower(text::trimmed_start(text)), marker),
    ensures
        marked_answer(text) == Some(
            text::trimmed_start(text::trimmed_start(text).skip(marker.len() as int)),
        ),
{
}

/// A mark may stand on a later line.
pub proof fn law_mark_may_stand_on_a_later_line(text: Seq<char>, marker: Seq<char>, at: int)
    requires
        text::find(text::ascii_lower(text), "\n"@ + marker) == Some(at),
        !text::has_prefix(text::ascii_lower(text), marker),
    ensures
        after_marker(text, text::ascii_lower(text), marker) == Some(
            text::trimmed_start(text.skip(at + 1 + marker.len())),
        ),
{
    reveal_strlit("\n");
    assert(("\n"@ + marker).len() == 1 + marker.len());
}

} // verus!
