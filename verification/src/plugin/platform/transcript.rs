//! What the assistant said, from a session's transcript.

use vstd::prelude::*;
use vstd::string::*;

use crate::codec;
use crate::codec::lossy_text;
use crate::json;
use crate::json::JValue;
use crate::json::Json;
use crate::plugin::platform::Form;
use crate::text;
use crate::text::is_blank;
use crate::text::join;
use crate::text::lines_of;
use crate::text::same;

verus! {

/// The part of a transcript that has not been read.
pub open spec fn unread(data: Seq<u8>, byte_offset: u64) -> Seq<char> {
    if byte_offset >= data.len() {
        seq![]
    } else {
        codec::lossy(data.skip(byte_offset as int))
    }
}

/// The entries of a transcript: its lines that are JSON.
pub open spec fn entries(lines: Seq<Seq<char>>) -> Seq<JValue>
    decreases lines.len(),
{
    if lines.len() == 0 {
        seq![]
    } else {
        let before = entries(lines.drop_last());
        if text::trimmed(lines.last()).len() == 0 {
            before
        } else {
            match json::json_parsed(lines.last()) {
                Some(v) => before.push(v),
                None => before,
            }
        }
    }
}

/// The text of one item of a message, where it is one of text.
pub open spec fn item_text(item: JValue) -> Option<Seq<char>> {
    if json::jget_str(item, "type"@) == Some("text"@) {
        json::jget_str(item, "text"@)
    } else {
        None
    }
}

/// The texts of a message's items.
pub open spec fn item_texts(items: Seq<JValue>) -> Seq<Seq<char>>
    decreases items.len(),
{
    if items.len() == 0 {
        seq![]
    } else {
        match item_text(items.last()) {
            Some(s) => item_texts(items.drop_last()).push(s),
            None => item_texts(items.drop_last()),
        }
    }
}

/// The text of a message, where it has any.
pub open spec fn content_text(content: JValue) -> Option<Seq<char>> {
    match content {
        JValue::Str(s) => Some(s),
        JValue::Arr(items) => if item_texts(items).len() == 0 {
            None
        } else {
            Some(text::joined(item_texts(items), "\n"@))
        },
        _ => None,
    }
}

/// Whether an entry is the assistant's, by any of the marks that are in use.
pub open spec fn is_assistant(entry: JValue) -> bool {
    json::jget_str(entry, "role"@) == Some("assistant"@) || json::jget_str(
        json::jat(entry, "message"@),
        "role"@,
    ) == Some("assistant"@) || json::jget_str(entry, "type"@) == Some("assistant"@)
}

/// What an entry says.
pub open spec fn said(form: Form, entry: JValue) -> Seq<Seq<char>> {
    match form {
        Form::Claude => if is_assistant(entry) {
            let inner = json::jget(json::jat(entry, "message"@), "content"@);
            let content = match inner {
                Some(c) => Some(c),
                None => json::jget(entry, "content"@),
            };
            match content {
                Some(c) => match content_text(c) {
                    Some(s) => seq![s],
                    None => seq![],
                },
                None => seq![],
            }
        } else {
            seq![]
        },
        Form::Codex => if json::jget_str(entry, "role"@) == Some("assistant"@) {
            match json::jat(entry, "content"@) {
                JValue::Str(s) => seq![s],
                JValue::Arr(items) => item_texts(items),
                _ => seq![],
            }
        } else {
            seq![]
        },
    }
}

/// What all entries say, in order.
pub open spec fn all_said(form: Form, entries: Seq<JValue>) -> Seq<Seq<char>>
    decreases entries.len(),
{
    if entries.len() == 0 {
        seq![]
    } else {
        all_said(form, entries.drop_last()) + said(form, entries.last())
    }
}

/// What the assistant said, as one text.
pub open spec fn spoken(form: Form, entries: Seq<JValue>) -> Seq<char> {
    text::joined(all_said(form, entries), "\n"@)
}

fn is_text(v: Option<&str>, wanted: &str) -> (r: bool)
    ensures
        r == (text::opt_slice(v) == Some(wanted@)),
{
    match v {
        Some(s) => same(s, wanted),
        None => false,
    }
}

fn read_items(items: &Vec<Json>) -> (r: Vec<String>)
    ensures
        text::texts(r@) == item_texts(json::items_view(items@)),
{
    let ghost all = json::items_view(items@);
    let mut out: Vec<String> = Vec::new();
    let mut i: usize = 0;
    assert(text::texts(out@) =~= item_texts(all.take(0)));
    while i < items.len()
        invariant
            i <= items.len(),
            all == json::items_view(items@),
            text::texts(out@) == item_texts(all.take(i as int)),
        decreases items.len() - i,
    {
        assert(all.take(i + 1).drop_last() =~= all.take(i as int));
        assert(all.take(i + 1).last() == items@[i as int]@);
        let ghost before = text::texts(out@);
        if is_text(items[i].get_str("type"), "text") {
            if let Some(s) = items[i].get_str("text") {
                let owned = s.to_owned();
                let ghost it = owned@;
                out.push(owned);
                assert(text::texts(out@) =~= before.push(it));
            }
        }
        i = i + 1;
    }
    assert(all.take(i as int) =~= all);
    out
}

fn read_content(content: &Json) -> (r: Option<String>)
    ensures
        text::opt_text(r) == content_text(content@),
{
    match content {
        Json::Str(s) => Some(s.clone()),
        Json::Arr(items) => {
            let texts = read_items(items);
            assert(text::texts(texts@).len() == texts@.len());
            if texts.len() == 0 {
                None
            } else {
                Some(join(texts.as_slice(), "\n"))
            }
        },
        _ => None,
    }
}

fn has_assistant_mark(entry: &Json) -> (r: bool)
    ensures
        r == is_assistant(entry@),
{
    if is_text(entry.get_str("role"), "assistant") {
        return true;
    }
    if let Some(m) = entry.get("message") {
        if is_text(m.get_str("role"), "assistant") {
            return true;
        }
    }
    is_text(entry.get_str("type"), "assistant")
}

fn one(s: Option<String>) -> (r: Vec<String>)
    ensures
        text::texts(r@) == (match s {
            Some(t) => seq![t@],
            None => seq![],
        }),
{
    let mut out: Vec<String> = Vec::new();
    if let Some(t) = s {
        out.push(t);
        assert(text::texts(out@) =~= seq![t@]);
    } else {
        assert(text::texts(out@) =~= seq![]);
    }
    out
}

fn read_entry(form: Form, entry: &Json) -> (r: Vec<String>)
    ensures
        text::texts(r@) == said(form, entry@),
{
    match form {
        Form::Claude => {
            if !has_assistant_mark(entry) {
                return one(None);
            }
            let inner = match entry.get("message") {
                Some(m) => m.get("content"),
                None => None,
            };
            let content = match inner {
                Some(c) => Some(c),
                None => entry.get("content"),
            };
            match content {
                Some(c) => one(read_content(c)),
                None => one(None),
            }
        },
        Form::Codex => {
            if !is_text(entry.get_str("role"), "assistant") {
                return one(None);
            }
            match entry.get("content") {
                Some(Json::Str(s)) => one(Some(s.clone())),
                Some(Json::Arr(items)) => read_items(items),
                _ => one(None),
            }
        },
    }
}

/// What the assistant said, as one text.
pub fn assistant_text(form: Form, entries: &[Json]) -> (r: String)
    ensures
        r@ == spoken(form, json::items_view(entries@)),
{
    let ghost all = json::items_view(entries@);
    let mut parts: Vec<String> = Vec::new();
    let mut i: usize = 0;
    assert(text::texts(parts@) =~= all_said(form, all.take(0)));
    while i < entries.len()
        invariant
            i <= entries.len(),
            all == json::items_view(entries@),
            text::texts(parts@) == all_said(form, all.take(i as int)),
        decreases entries.len() - i,
    {
        assert(all.take(i + 1).drop_last() =~= all.take(i as int));
        assert(all.take(i + 1).last() == entries@[i as int]@);
        let ghost before = text::texts(parts@);
        let mut more = read_entry(form, &entries[i]);
        let ghost added = text::texts(more@);
        parts.append(&mut more);
        assert(text::texts(parts@) =~= before + added);
        i = i + 1;
    }
    assert(all.take(i as int) =~= all);
    join(parts.as_slice(), "\n")
}

/// The entries of a transcript.
pub fn read_entries(content: &str) -> (r: Vec<Json>)
    ensures
        json::items_view(r@) == entries(text::lines(content@)),
{
    let lines = lines_of(content);
    let ghost all = text::lines(content@);
    let mut out: Vec<Json> = Vec::new();
    let mut i: usize = 0;
    assert(json::items_view(out@) =~= entries(all.take(0)));
    while i < lines.len()
        invariant
            i <= lines.len(),
            all == text::texts(lines@),
            json::items_view(out@) == entries(all.take(i as int)),
        decreases lines.len() - i,
    {
        assert(all.take(i + 1).drop_last() =~= all.take(i as int));
        assert(all.take(i + 1).last() == lines@[i as int]@);
        let ghost before = json::items_view(out@);
        if !is_blank(lines[i].as_str()) {
            if let Some(v) = Json::parse(lines[i].as_str()) {
                let ghost it = v@;
                out.push(v);
                assert(json::items_view(out@) =~= before.push(it));
            }
        }
        i = i + 1;
    }
    assert(all.take(i as int) =~= all);
    out
}

/// What the assistant said since a transcript was last read.
pub fn diff_transcript(form: Form, data: &[u8], byte_offset: u64) -> (r: String)
    ensures
        r@ == spoken(form, entries(text::lines(unread(data@, byte_offset)))),
{
    if byte_offset >= data.len() as u64 {
        proof {
            assert(unread(data@, byte_offset) =~= Seq::<char>::empty());
            assert(text::lines(Seq::<char>::empty()) =~= seq![]);
            assert(entries(text::lines(Seq::<char>::empty())) =~= seq![]);
            assert(all_said(form, Seq::<JValue>::empty()) =~= seq![]);
            reveal_strlit("");
            assert(""@ =~= Seq::<char>::empty());
        }
        return "".to_owned();
    }
    let start: usize = byte_offset as usize;
    let rest = vstd::slice::slice_subrange(data, start, data.len());
    assert(rest@ =~= data@.skip(byte_offset as int));
    let content = lossy_text(rest);
    let found = read_entries(content.as_str());
    assistant_text(form, found.as_slice())
}

/// A transcript that has been read to its end has no news.
pub proof fn law_nothing_is_captured_twice(form: Form, data: Seq<u8>, byte_offset: u64)
    requires
        byte_offset >= data.len(),
    ensures
        spoken(form, entries(text::lines(unread(data, byte_offset)))) == Seq::<char>::empty(),
{
    assert(text::lines(Seq::<char>::empty()) =~= seq![]);
    assert(entries(text::lines(Seq::<char>::empty())) =~= seq![]);
    assert(all_said(form, Seq::<JValue>::empty()) =~= seq![]);
}

proof fn lemma_all_said(form: Form, a: Seq<JValue>, b: Seq<JValue>)
    ensures
        all_said(form, a + b) == all_said(form, a) + all_said(form, b),
    decreases b.len(),
{
    if b.len() == 0 {
        assert(a + b =~= a);
        assert(all_said(form, a) + all_said(form, b) =~= all_said(form, a));
    } else {
        lemma_all_said(form, a, b.drop_last());
        assert((a + b).drop_last() =~= a + b.drop_last());
        assert((a + b).last() == b.last());
        assert(all_said(form, a + b) =~= all_said(form, a) + all_said(form, b));
    }
}

proof fn lemma_item_texts(a: Seq<JValue>, b: Seq<JValue>)
    ensures
        item_texts(a + b) == item_texts(a) + item_texts(b),
    decreases b.len(),
{
    if b.len() == 0 {
        assert(a + b =~= a);
        assert(item_texts(a) + item_texts(b) =~= item_texts(a));
    } else {
        lemma_item_texts(a, b.drop_last());
        assert((a + b).drop_last() =~= a + b.drop_last());
        assert((a + b).last() == b.last());
        assert(item_texts(a + b) =~= item_texts(a) + item_texts(b));
    }
}

proof fn lemma_item_is_among_texts(items: Seq<JValue>, k: int, t: Seq<char>) -> (i: int)
    requires
        0 <= k < items.len(),
        json::jget_str(items[k], "type"@) == Some("text"@),
        json::jget_str(items[k], "text"@) == Some(t),
    ensures
        0 <= i < item_texts(items).len(),
        item_texts(items)[i] == t,
{
    reveal_with_fuel(item_texts, 2);
    let a = items.take(k);
    let b = items.skip(k + 1);
    assert(items =~= a + seq![items[k]] + b);
    lemma_item_texts(a + seq![items[k]], b);
    lemma_item_texts(a, seq![items[k]]);
    assert(seq![items[k]].drop_last() =~= seq![]);
    assert(item_texts(seq![items[k]]) =~= seq![t]);
    let i = item_texts(a).len() as int;
    assert(item_texts(items)[i] == t);
    i
}

proof fn lemma_spoken_holds(form: Form, all: Seq<JValue>, k: int, j: int)
    requires
        0 <= k < all.len(),
        0 <= j < said(form, all[k]).len(),
    ensures
        text::has_infix(spoken(form, all), said(form, all[k])[j]),
{
    reveal_with_fuel(all_said, 2);
    let a = all.take(k);
    let b = all.skip(k + 1);
    assert(all =~= a + seq![all[k]] + b);
    lemma_all_said(form, a + seq![all[k]], b);
    lemma_all_said(form, a, seq![all[k]]);
    assert(seq![all[k]].drop_last() =~= seq![]);
    assert(all_said(form, seq![all[k]]) =~= said(form, all[k]));
    let i = all_said(form, a).len() + j;
    assert(all_said(form, all)[i] == said(form, all[k])[j]);
    text::law_joined_text_holds_each_part(all_said(form, all), "\n"@, i);
}

/// Everything that the assistant said is captured: the text of each of its entries, be it in one
/// piece or in several.
pub proof fn law_what_was_said_is_captured(all: Seq<JValue>, k: int, content: JValue, t: Seq<char>, n: int)
    requires
        0 <= k < all.len(),
        content == JValue::Str(t) || (json::jarr(content) matches Some(items) && 0 <= n < items.len()
            && json::jget_str(items[n], "type"@) == Some("text"@) && json::jget_str(
            items[n],
            "text"@,
        ) == Some(t)),
    ensures
        json::jget_str(all[k], "type"@) == Some("assistant"@) && json::jget(
            json::jat(all[k], "message"@),
            "content"@,
        ) == Some(content) ==> text::has_infix(spoken(Form::Claude, all), t),
        json::jget_str(all[k], "role"@) == Some("assistant"@) && json::jget(all[k], "content"@)
            == Some(content) ==> text::has_infix(spoken(Form::Codex, all), t),
{
    let entry = all[k];
    match content {
        JValue::Arr(items) => {
            let i = lemma_item_is_among_texts(items, n, t);
            if json::jget_str(entry, "type"@) == Some("assistant"@) && json::jget(
                json::jat(entry, "message"@),
                "content"@,
            ) == Some(content) {
                let whole = text::joined(item_texts(items), "\n"@);
                assert(said(Form::Claude, entry) =~= seq![whole]);
                lemma_spoken_holds(Form::Claude, all, k, 0);
                text::law_joined_text_holds_each_part(item_texts(items), "\n"@, i);
                text::lemma_infix_of_infix(spoken(Form::Claude, all), whole, t);
            }
            if json::jget_str(entry, "role"@) == Some("assistant"@) && json::jget(
                entry,
                "content"@,
            ) == Some(content) {
                lemma_spoken_holds(Form::Codex, all, k, i);
            }
        },
        _ => {
            if json::jget_str(entry, "type"@) == Some("assistant"@) && json::jget(
                json::jat(entry, "message"@),
                "content"@,
            ) == Some(content) {
                assert(said(Form::Claude, entry) =~= seq![t]);
                lemma_spoken_holds(Form::Claude, all, k, 0);
            }
            if json::jget_str(entry, "role"@) == Some("assistant"@) && json::jget(
                entry,
                "content"@,
            ) == Some(content) {
                assert(said(Form::Codex, entry) =~= seq![t]);
                lemma_spoken_holds(Form::Codex, all, k, 0);
            }
        },
    }
}

/// What the user said is not taken for the assistant's: an entry that is not the assistant's adds
/// nothing.
pub proof fn law_users_words_are_not_the_assistants(
    form: Form,
    before: Seq<JValue>,
    entry: JValue,
    behind: Seq<JValue>,
)
    requires
        json::jget_str(entry, "role"@) != Some("assistant"@),
        json::jget_str(json::jat(entry, "message"@), "role"@) != Some("assistant"@),
        json::jget_str(entry, "type"@) != Some("assistant"@),
    ensures
        spoken(form, before + seq![entry] + behind) == spoken(form, before + behind),
{
    reveal_with_fuel(all_said, 2);
    lemma_all_said(form, before + seq![entry], behind);
    lemma_all_said(form, before, seq![entry]);
    lemma_all_said(form, before, behind);
    assert(seq![entry].drop_last() =~= seq![]);
    assert(all_said(form, seq![entry]) =~= seq![]);
    assert(all_said(form, before) + Seq::<Seq<char>>::empty() =~= all_said(form, before));
}

proof fn lemma_entries(a: Seq<Seq<char>>, b: Seq<Seq<char>>)
    ensures
        entries(a + b) == entries(a) + entries(b),
    decreases b.len(),
{
    if b.len() == 0 {
        assert(a + b =~= a);
        assert(entries(a) + entries(b) =~= entries(a));
    } else {
        lemma_entries(a, b.drop_last());
        assert((a + b).drop_last() =~= a + b.drop_last());
        assert((a + b).last() == b.last());
        assert(entries(a + b) =~= entries(a) + entries(b));
    }
}

/// Each line of a transcript that holds an entry is read, in its place; one that holds none is
/// passed over.
pub proof fn law_lines_are_read_in_order(before: Seq<Seq<char>>, line: Seq<char>, behind: Seq<Seq<char>>)
    ensures
        text::trimmed(line).len() > 0 ==> (json::json_parsed(line) matches Some(v) ==> entries(
            before + seq![line] + behind,
        ) == entries(before) + seq![v] + entries(behind)),
        text::trimmed(line).len() == 0 || json::json_parsed(line) is None ==> entries(
            before + seq![line] + behind,
        ) == entries(before) + entries(behind),
{
    reveal_with_fuel(entries, 2);
    lemma_entries(before + seq![line], behind);
    lemma_entries(before, seq![line]);
    assert(seq![line].drop_last() =~= seq![]);
    if text::trimmed(line).len() > 0 && json::json_parsed(line) is Some {
        assert(entries(seq![line]) =~= seq![json::json_parsed(line)->0]);
    } else {
        assert(entries(seq![line]) =~= seq![]);
        assert(entries(before) + Seq::<JValue>::empty() =~= entries(before));
    }
}

/// Only what is new is read: what stood in a transcript before makes no difference.
pub proof fn law_only_new_text_is_read(before: Seq<u8>, added: Seq<u8>)
    requires
        before.len() <= u64::MAX,
        added.len() > 0,
    ensures
        unread(before + added, before.len() as u64) == unread(added, 0),
        unread(before + added, before.len() as u64) == codec::lossy(added),
{
    assert((before + added).skip(before.len() as int) =~= added);
    assert(added.skip(0) =~= added);
}

} // verus!
