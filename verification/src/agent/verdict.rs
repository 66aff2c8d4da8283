//! The verdict of a review, read from the text that the review wrote.

use vstd::prelude::*;
use vstd::string::*;

use crate::text;
use crate::json;
use crate::json::JValue;
use crate::json::Json;
use crate::text::chars_of;
use crate::text::same;
use crate::text::trim;

verus! {

/// What a review found.
#[derive(Debug)]
pub enum ReviewVerdict {
    Passed,
    Retry(String),
}

pub ghost enum VerdictV {
    Passed,
    Retry(Seq<char>),
}

impl ReviewVerdict {
    pub open spec fn view(&self) -> VerdictV {
        match self {
            ReviewVerdict::Passed => VerdictV::Passed,
            ReviewVerdict::Retry(reason) => VerdictV::Retry(reason@),
        }
    }
}

/// A verdict, or what is wrong with the text that should have held one.
pub open spec fn verdict_view(r: Result<ReviewVerdict, String>) -> Result<VerdictV, Seq<char>> {
    match r {
        Ok(v) => Ok(v@),
        Err(e) => Err(e@),
    }
}

/// Where a JSON object ends, read from position `i` on with `depth` objects open, inside a text
/// or not, and behind a backslash of that text or not.  Braces in texts do not count.
pub open spec fn object_end(s: Seq<char>, i: int, depth: nat, in_text: bool, escaped: bool) -> Option<int>
    decreases s.len() - i,
{
    if i < 0 || i >= s.len() {
        None
    } else if in_text {
        if escaped {
            object_end(s, i + 1, depth, true, false)
        } else if s[i] == '\\' {
            object_end(s, i + 1, depth, true, true)
        } else if s[i] == '"' {
            object_end(s, i + 1, depth, false, false)
        } else {
            object_end(s, i + 1, depth, true, false)
        }
    } else if s[i] == '"' {
        object_end(s, i + 1, depth, true, false)
    } else if s[i] == '{' {
        object_end(s, i + 1, depth + 1, false, false)
    } else if s[i] == '}' {
        if depth <= 1 {
            Some(i + 1)
        } else {
            object_end(s, i + 1, (depth - 1) as nat, false, false)
        }
    } else {
        object_end(s, i + 1, depth, false, false)
    }
}

/// The first object that starts at or after `start`: from an opening brace to the brace that
/// closes it.
pub open spec fn embedded_from(s: Seq<char>, start: int) -> Option<Seq<char>>
    decreases s.len() - start,
{
    if start < 0 || start >= s.len() {
        None
    } else if s[start] == '{' && object_end(s, start, 0, false, false) is Some {
        Some(s.subrange(start, object_end(s, start, 0, false, false).unwrap()))
    } else {
        embedded_from(s, start + 1)
    }
}

/// An object ends behind where it was read from, at a closing brace.
pub proof fn lemma_object_end(s: Seq<char>, i: int, depth: nat, in_text: bool, escaped: bool)
    requires
        0 <= i,
    ensures
        object_end(s, i, depth, in_text, escaped) matches Some(end) ==> i < end <= s.len() && s[end - 1]
            == '}',
    decreases s.len() - i,
{
    if i < s.len() {
        lemma_object_end(s, i + 1, depth, true, false);
        lemma_object_end(s, i + 1, depth, true, true);
        lemma_object_end(s, i + 1, depth, false, false);
        lemma_object_end(s, i + 1, depth + 1, false, false);
        if depth > 1 {
            lemma_object_end(s, i + 1, (depth - 1) as nat, false, false);
        }
    }
}

/// What is taken out of a text as an object stands in the text, starts with an opening brace and
/// ends with a closing one.
pub proof fn law_embedded_object_is_braced(s: Seq<char>, start: int)
    requires
        0 <= start,
    ensures
        embedded_from(s, start) matches Some(object) ==> object.len() >= 2 && object[0] == '{'
            && object.last() == '}' && crate::text::has_infix(s, object),
    decreases s.len() - start,
{
    if start < s.len() {
        lemma_object_end(s, start, 0, false, false);
        if s[start] == '{' && object_end(s, start, 0, false, false) is Some {
            let end = object_end(s, start, 0, false, false).unwrap();
            let object = s.subrange(start, end);
            assert(object.last() == s[end - 1]);
            assert(object.len() >= 2) by {
                lemma_object_end(s, start + 1, 1, false, false);
            }
            assert(crate::text::occurs_at(s, object, start));
        } else {
            law_embedded_object_is_braced(s, start + 1);
        }
    }
}

/// The position behind the object that starts at `start`.
fn end_of_object(cs: &Vec<char>, start: usize) -> (r: Option<usize>)
    requires
        start <= cs.len(),
    ensures
        match r {
            Some(end) => object_end(cs@, start as int, 0, false, false) == Some(end as int) && start <= end
                <= cs.len(),
            None => object_end(cs@, start as int, 0, false, false) is None,
        },
{
    let mut i: usize = start;
    let mut depth: usize = 0;
    let mut in_text: bool = false;
    let mut escaped: bool = false;
    while i < cs.len()
        invariant
            start <= i <= cs.len(),
            depth <= i - start,
            object_end(cs@, start as int, 0, false, false) == object_end(
                cs@,
                i as int,
                depth as nat,
                in_text,
                escaped,
            ),
            !in_text ==> !escaped,
        decreases cs.len() - i,
    {
        let c: char = cs[i];
        if in_text {
            if escaped {
                escaped = false;
            } else if c == '\\' {
                escaped = true;
            } else if c == '"' {
                in_text = false;
            }
        } else if c == '"' {
            in_text = true;
        } else if c == '{' {
            depth = depth + 1;
        } else if c == '}' {
            if depth <= 1 {
                return Some(i + 1);
            }
            depth = depth - 1;
        }
        i = i + 1;
    }
    None
}

/// The first JSON object in a text, told by its braces alone.
pub fn extract_embedded_json_object(text: &str) -> (r: Option<&str>)
    ensures
        crate::text::opt_slice(r) == embedded_from(text@, 0),
{
    let cs = chars_of(text);
    let mut start: usize = 0;
    while start < cs.len()
        invariant
            start <= cs.len(),
            cs@ == text@,
            embedded_from(text@, 0) == embedded_from(text@, start as int),
        decreases cs.len() - start,
    {
        if cs[start] == '{' {
            match end_of_object(&cs, start) {
                Some(end) => {
                    return Some(text.substring_char(start, end));
                },
                None => {},
            }
        }
        start = start + 1;
    }
    None
}

/// The verdict that a JSON value holds.
pub open spec fn verdict_of(v: JValue) -> Result<VerdictV, Seq<char>> {
    if !(v is Obj) {
        Err("review output malformed: verdict payload must be a JSON object"@)
    } else {
        match json::jget_str(v, "verdict"@) {
            None => Err("review output malformed: verdict field missing"@),
            Some(name) => if name == "ok"@ {
                Ok(VerdictV::Passed)
            } else if name == "retry"@ {
                match json::jget_str(v, "reason"@) {
                    Some(reason) if text::trimmed(reason).len() > 0 => Ok(VerdictV::Retry(text::trimmed(reason))),
                    _ => Err("review output malformed: retry verdict requires non-empty reason"@),
                }
            } else {
                Err("review output malformed: unsupported verdict '"@ + name + "'"@)
            },
        }
    }
}

/// The verdict that a text holds, where `read` is what a text reads as JSON.
pub open spec fn verdict_in(text: Seq<char>, read: spec_fn(Seq<char>) -> Option<JValue>) -> Result<
    VerdictV,
    Seq<char>,
> {
    let t = text::trimmed(text);
    if t.len() == 0 {
        Err("review output malformed: empty response"@)
    } else {
        match read(t) {
            Some(v) => verdict_of(v),
            None => match embedded_from(t, 0) {
                None => Err("review output malformed: no valid JSON object found"@),
                Some(object) => match read(object) {
                    Some(v) => verdict_of(v),
                    None => Err("review output malformed: extracted JSON object did not parse"@),
                },
            },
        }
    }
}

pub fn review_verdict_from_value(value: &Json) -> (r: Result<ReviewVerdict, String>)
    ensures
        verdict_view(r) == verdict_of(value@),
{
    if !value.is_object() {
        return Err("review output malformed: verdict payload must be a JSON object".to_owned());
    }
    match value.get_str("verdict") {
        None => Err("review output malformed: verdict field missing".to_owned()),
        Some(name) => {
            if same(name, "ok") {
                return Ok(ReviewVerdict::Passed);
            }
            if same(name, "retry") {
                match value.get_str("reason") {
                    Some(reason) => {
                        let reason = trim(reason);
                        if !reason.is_empty() {
                            return Ok(ReviewVerdict::Retry(reason.to_owned()));
                        }
                    },
                    None => {},
                }
                return Err(
                    "review output malformed: retry verdict requires non-empty reason".to_owned(),
                );
            }
            let mut message: String = "review output malformed: unsupported verdict '".to_owned();
            message.append(name);
            message.append("'");
            Err(message)
        },
    }
}

/// The verdict that the text of a review holds: the text is one JSON object, or has one in it.
pub fn parse_review_verdict(text: &str) -> (r: Result<ReviewVerdict, String>)
    ensures
        verdict_view(r) == verdict_in(text@, json::json_reader()),
{
    let t = trim(text);
    if t.is_empty() {
        return Err("review output malformed: empty response".to_owned());
    }
    match Json::parse(t) {
        Some(value) => {
            return review_verdict_from_value(&value);
        },
        None => {},
    }
    match extract_embedded_json_object(t) {
        None => Err("review output malformed: no valid JSON object found".to_owned()),
        Some(object) => match Json::parse(object) {
            Some(value) => review_verdict_from_value(&value),
            None => Err(
                "review output malformed: extracted JSON object did not parse".to_owned(),
            ),
        },
    }
}

/// A retry verdict always carries a reason that is not blank.
pub proof fn law_retry_verdict_has_reason(v: JValue)
    ensures
        verdict_of(v) matches Ok(VerdictV::Retry(reason)) ==> reason.len() > 0,
{
}

/// A verdict says what the review wrote: "ok" passes, "retry" with a reason that is not blank sends
/// back for that reason, and anything else is no verdict.
pub proof fn law_verdict_is_what_was_written(v: JValue)
    requires
        v is Obj,
    ensures
        verdict_of(v) == Ok::<VerdictV, Seq<char>>(VerdictV::Passed) <==> json::jget_str(
            v,
            "verdict"@,
        ) == Some("ok"@),
        verdict_of(v) matches Ok(VerdictV::Retry(why)) ==> json::jget_str(v, "verdict"@) == Some(
            "retry"@,
        ) && (json::jget_str(v, "reason"@) matches Some(reason) && text::trimmed(reason) == why),
        json::jget_str(v, "verdict"@) == Some("retry"@) ==> (json::jget_str(
            v,
            "reason"@,
        ) matches Some(reason) ==> text::trimmed(reason).len() > 0 ==> verdict_of(v)
            == Ok::<VerdictV, Seq<char>>(VerdictV::Retry(text::trimmed(reason)))),
        json::jget_str(v, "verdict"@) is None ==> verdict_of(v) is Err,
{
    reveal_strlit("ok");
    reveal_strlit("retry");
    assert("ok"@.len() != "retry"@.len());
}

/// A text that is one JSON object has that object's verdict; nothing else in a text passes a
/// result.
pub proof fn law_pass_stands_in_the_text(text: Seq<char>, read: spec_fn(Seq<char>) -> Option<JValue>)
    ensures
        read(crate::text::trimmed(text)) matches Some(v) ==> crate::text::trimmed(text).len() > 0
            ==> verdict_in(text, read) == verdict_of(v),
        verdict_in(text, read) == Ok::<VerdictV, Seq<char>>(VerdictV::Passed) ==> exists|object: Seq<
            char,
        >|
            #![trigger read(object)]
            crate::text::has_infix(text, object) && (read(object) matches Some(v)
                && json::jget_str(v, "verdict"@) == Some("ok"@)),
{
    let t = crate::text::trimmed(text);
    let at = crate::text::law_trimming_takes_only_space(text);
    assert(crate::text::occurs_at(text, t, at));
    if verdict_in(text, read) == Ok::<VerdictV, Seq<char>>(VerdictV::Passed) {
        match read(t) {
            Some(v) => {
                law_verdict_is_what_was_written(v);
                assert(crate::text::has_infix(text, t));
            },
            None => {
                law_embedded_object_is_braced(t, 0);
                let object = embedded_from(t, 0).unwrap();
                law_verdict_is_what_was_written(read(object).unwrap());
                crate::text::lemma_infix_of_infix(text, t, object);
            },
        }
    }
}

proof fn lemma_flat_end(s: Seq<char>, i: int, end: int)
    requires
        0 <= i <= end < s.len(),
        s[end] == '}',
        forall|k: int| i <= k < end ==> s[k] != '{' && s[k] != '}' && s[k] != '"',
    ensures
        object_end(s, i, 1, false, false) == Some(end + 1),
    decreases end - i,
{
    if i < end {
        lemma_flat_end(s, i + 1, end);
    }
}

proof fn lemma_found_later(s: Seq<char>, from: int, start: int)
    requires
        0 <= from <= start < s.len(),
        forall|k: int| from <= k < start ==> s[k] != '{',
    ensures
        embedded_from(s, from) == embedded_from(s, start),
    decreases start - from,
{
    if from < start {
        lemma_found_later(s, from + 1, start);
    }
}

/// An object is found behind any words that stand before it, and what stands behind it is left
/// out.
pub proof fn law_object_is_found_in_a_text(before: Seq<char>, inner: Seq<char>, behind: Seq<char>)
    requires
        !before.contains('{'),
        !inner.contains('{') && !inner.contains('}') && !inner.contains('"'),
    ensures
        embedded_from(before + seq!['{'] + inner + seq!['}'] + behind, 0) == Some(
            seq!['{'] + inner + seq!['}'],
        ),
{
    let s = before + seq!['{'] + inner + seq!['}'] + behind;
    let start = before.len() as int;
    let end = start + 1 + inner.len();
    assert forall|k: int| 0 <= k < start implies s[k] != '{' by {
        assert(s[k] == before[k]);
    }
    assert forall|k: int| start + 1 <= k < end implies s[k] != '{' && s[k] != '}' && s[k] != '"' by {
        assert(s[k] == inner[k - start - 1]);
    }
    lemma_found_later(s, 0, start);
    lemma_flat_end(s, start + 1, end);
    assert(s[start] == '{');
    assert(object_end(s, start, 0, false, false) == Some(end + 1));
    assert(s.subrange(start, end + 1) =~= seq!['{'] + inner + seq!['}']);
}

proof fn lemma_inside_text(s: Seq<char>, i: int, close: int, depth: nat)
    requires
        0 <= i <= close < s.len(),
        s[close] == '"',
        forall|k: int| i <= k < close ==> s[k] != '"' && s[k] != '\\',
    ensures
        object_end(s, i, depth, true, false) == object_end(s, close + 1, depth, false, false),
    decreases close - i,
{
    if i < close {
        lemma_inside_text(s, i + 1, close, depth);
    }
}

/// Braces inside a quoted text neither open nor close an object: the object ends where it would
/// without that text.
pub proof fn law_quoted_braces_do_not_count(s: Seq<char>, open: int, close: int, depth: nat)
    requires
        0 <= open < close < s.len(),
        s[open] == '"' && s[close] == '"',
        forall|k: int| open < k < close ==> s[k] != '"' && s[k] != '\\',
    ensures
        object_end(s, open, depth, false, false) == object_end(s, close + 1, depth, false, false),
{
    lemma_inside_text(s, open + 1, close, depth);
}

/// An inner object is part of the outer one: where it begins one more is open, and where it ends
/// one less.
pub proof fn law_inner_objects_are_counted(s: Seq<char>, i: int, depth: nat)
    requires
        0 <= i < s.len(),
    ensures
        s[i] == '{' ==> object_end(s, i, depth, false, false) == object_end(
            s,
            i + 1,
            depth + 1,
            false,
            false,
        ),
        s[i] == '}' && depth > 1 ==> object_end(s, i, depth, false, false) == object_end(
            s,
            i + 1,
            (depth - 1) as nat,
            false,
            false,
        ),
        s[i] == '}' && depth == 1 ==> object_end(s, i, depth, false, false) == Some(i + 1),
{
}

/// A verdict that is not known is named; a retry needs its reason.
pub proof fn law_unknown_verdict_is_named(v: JValue, name: Seq<char>)
    requires
        v is Obj,
        json::jget_str(v, "verdict"@) == Some(name),
    ensures
        name != "ok"@ && name != "retry"@ ==> (verdict_of(v) matches Err(e) && text::has_infix(
            e,
            "'"@ + name + "'"@,
        )),
        name == "retry"@ && json::jget_str(v, "reason"@) is None ==> verdict_of(v) is Err,
{
    reveal_strlit("review output malformed: unsupported verdict '");
    reveal_strlit("'");
    reveal_strlit("ok");
    reveal_strlit("retry");
    assert("ok"@.len() != "retry"@.len());
    let head = "review output malformed: unsupported verdict '"@;
    let n = head.len() as int;
    assert(head =~= head.take(n - 1) + "'"@);
    let core = "'"@ + name + "'"@;
    assert(head + name + "'"@ =~= head.take(n - 1) + core + Seq::<char>::empty());
    text::lemma_infix(head.take(n - 1), core, seq![]);
}

} // verus!
