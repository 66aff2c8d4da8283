//! JSON values as the agent reads and builds them.
//!
//! A [`Json`] is a tree of plain values; its view is a [`JValue`], in which an object is a map.
//! The text form is left to `serde_json`: what it reads of a text and what it writes for a value
//! have the names [`json_parsed`] and [`json_text`].

use vstd::prelude::*;

use crate::text::insert_in_order;

verus! {

/// What a JSON document says, as a mathematical value.
#[verifier::ext_equal]
pub ghost enum JValue {
    Null,
    Bool(bool),
    Int(int),
    /// A number with a fraction or an exponent, by its digits.
    Float(Seq<char>),
    Str(Seq<char>),
    Arr(Seq<JValue>),
    Obj(Map<Seq<char>, JValue>),
}

/// A number that is not an integer, by the digits that `serde_json` gives it.
#[derive(Debug)]
pub struct Fraction {
    text: String,
}

impl Fraction {
    pub closed spec fn view(&self) -> Seq<char> {
        self.text@
    }

    /// The digits of the number.
    pub fn digits(&self) -> (r: &str)
        ensures
            r@ == self@,
    {
        self.text.as_str()
    }

    pub fn copy(&self) -> (r: Fraction)
        ensures
            r@ == self@,
    {
        Fraction { text: self.text.clone() }
    }
}

/// A JSON value.  Where an object lists a key twice, the last entry counts.
#[derive(Debug)]
pub enum Json {
    Null,
    Bool(bool),
    UInt(u64),
    Int(i64),
    Float(Fraction),
    Str(String),
    Arr(Vec<Json>),
    Obj(Vec<(String, Json)>),
}

/// What a list of entries says: the last entry of a key counts.
pub open spec fn entries_view(entries: Seq<(String, Json)>) -> Map<Seq<char>, JValue>
    decreases entries,
{
    if entries.len() == 0 {
        Map::empty()
    } else {
        entries_view(entries.drop_last()).insert(entries.last().0@, entries.last().1.view())
    }
}

/// What a list of items says, item by item.
pub open spec fn items_view(items: Seq<Json>) -> Seq<JValue>
    decreases items,
{
    Seq::new(
        items.len(),
        |i: int|
            if 0 <= i < items.len() {
                items[i].view()
            } else {
                JValue::Null
            },
    )
}

impl Json {
    pub open spec fn view(&self) -> JValue
        decreases self,
    {
        match self {
            Json::Null => JValue::Null,
            Json::Bool(b) => JValue::Bool(*b),
            Json::UInt(n) => JValue::Int(*n as int),
            Json::Int(n) => JValue::Int(*n as int),
            Json::Float(f) => JValue::Float(f@),
            Json::Str(s) => JValue::Str(s@),
            Json::Arr(items) => JValue::Arr(items_view(items@)),
            Json::Obj(entries) => JValue::Obj(entries_view(entries@)),
        }
    }
}

// ── Reading a value ─────────────────────────────────────────────────────

/// The value of a key, where `v` is an object that has it.
pub open spec fn jget(v: JValue, key: Seq<char>) -> Option<JValue> {
    match v {
        JValue::Obj(m) => if m.dom().contains(key) {
            Some(m[key])
        } else {
            None
        },
        _ => None,
    }
}

/// The value of a key, or null where there is none.
pub open spec fn jat(v: JValue, key: Seq<char>) -> JValue {
    match jget(v, key) {
        Some(w) => w,
        None => JValue::Null,
    }
}

pub open spec fn jstr(v: JValue) -> Option<Seq<char>> {
    match v {
        JValue::Str(s) => Some(s),
        _ => None,
    }
}

/// The text of a key, where it holds a text.
pub open spec fn jget_str(v: JValue, key: Seq<char>) -> Option<Seq<char>> {
    jstr(jat(v, key))
}

pub open spec fn jarr(v: JValue) -> Option<Seq<JValue>> {
    match v {
        JValue::Arr(items) => Some(items),
        _ => None,
    }
}

pub open spec fn jbool(v: JValue) -> Option<bool> {
    match v {
        JValue::Bool(b) => Some(b),
        _ => None,
    }
}

/// The integer that `v` holds, where it is one that a `u64` can hold.
pub open spec fn ju64(v: JValue) -> Option<int> {
    match v {
        JValue::Int(n) => if 0 <= n <= u64::MAX {
            Some(n)
        } else {
            None
        },
        _ => None,
    }
}

/// The integer that `v` holds, where it is one that an `i64` can hold.
pub open spec fn ji64(v: JValue) -> Option<int> {
    match v {
        JValue::Int(n) => if i64::MIN <= n <= i64::MAX {
            Some(n)
        } else {
            None
        },
        _ => None,
    }
}

/// What an optional reference to a value says.
pub open spec fn opt_json(o: Option<&Json>) -> Option<JValue> {
    match o {
        Some(j) => Some(j@),
        None => None,
    }
}

/// What an optional value says.
pub open spec fn opt_owned_json(o: Option<Json>) -> Option<JValue> {
    match o {
        Some(j) => Some(j@),
        None => None,
    }
}

/// An entry of a list of entries is what the list says of its key, unless a later entry has the
/// same key.
proof fn lemma_entries_view(entries: Seq<(String, Json)>, i: int)
    requires
        0 <= i < entries.len(),
        forall|k: int| i < k < entries.len() ==> (#[trigger] entries[k]).0@ != entries[i].0@,
    ensures
        entries_view(entries).dom().contains(entries[i].0@),
        entries_view(entries)[entries[i].0@] == entries[i].1@,
    decreases entries.len(),
{
    if i < entries.len() - 1 {
        let shorter = entries.drop_last();
        assert(shorter[i] == entries[i]);
        assert forall|k: int| i < k < shorter.len() implies (#[trigger] shorter[k]).0@
            != shorter[i].0@ by {
            assert(shorter[k] == entries[k]);
        }
        lemma_entries_view(shorter, i);
        assert(entries[entries.len() - 1].0@ != entries[i].0@);
    }
}

/// A key that no entry has is a key that the list does not say anything of.
proof fn lemma_entries_view_absent(entries: Seq<(String, Json)>, key: Seq<char>)
    requires
        forall|k: int| 0 <= k < entries.len() ==> (#[trigger] entries[k]).0@ != key,
    ensures
        !entries_view(entries).dom().contains(key),
    decreases entries.len(),
{
    if entries.len() > 0 {
        let shorter = entries.drop_last();
        assert forall|k: int| 0 <= k < shorter.len() implies (#[trigger] shorter[k]).0@ != key by {
            assert(shorter[k] == entries[k]);
        }
        lemma_entries_view_absent(shorter, key);
        assert(entries[entries.len() - 1].0@ != key);
    }
}

impl Json {
    /// The value of a key, where this is an object that has it.
    pub fn get(&self, key: &str) -> (r: Option<&Json>)
        ensures
            opt_json(r) == jget(self@, key@),
            r matches Some(j) ==> decreases_to!(*self => *j),
    {
        match self {
            Json::Obj(entries) => {
                let wanted: String = key.to_owned();
                let mut i: usize = entries.len();
                while i > 0
                    invariant
                        i <= entries.len(),
                        wanted@ == key@,
                        *self == Json::Obj(*entries),
                        forall|k: int|
                            i <= k < entries.len() ==> (#[trigger] entries@[k]).0@ != key@,
                    decreases i,
                {
                    i = i - 1;
                    if entries[i].0 == wanted {
                        proof {
                            lemma_entries_view(entries@, i as int);
                            assert(decreases_to!(*self => entries@[i as int]));
                        }
                        return Some(&entries[i].1);
                    }
                }
                proof {
                    lemma_entries_view_absent(entries@, key@);
                }
                None
            },
            _ => None,
        }
    }

    pub fn as_str(&self) -> (r: Option<&str>)
        ensures
            crate::text::opt_slice(r) == jstr(self@),
    {
        match self {
            Json::Str(s) => Some(s.as_str()),
            _ => None,
        }
    }

    /// The text of a key, where it holds a text.
    pub fn get_str(&self, key: &str) -> (r: Option<&str>)
        ensures
            crate::text::opt_slice(r) == jget_str(self@, key@),
    {
        match self.get(key) {
            Some(v) => v.as_str(),
            None => None,
        }
    }

    pub fn as_array(&self) -> (r: Option<&Vec<Json>>)
        ensures
            match r {
                Some(items) => jarr(self@) == Some(items_view(items@)) && *self == Json::Arr(*items),
                None => jarr(self@) is None,
            },
    {
        match self {
            Json::Arr(items) => Some(items),
            _ => None,
        }
    }

    /// The items of a key, where it holds an array.
    pub fn get_array(&self, key: &str) -> (r: Option<&Vec<Json>>)
        ensures
            match r {
                Some(items) => jarr(jat(self@, key@)) == Some(items_view(items@)),
                None => jarr(jat(self@, key@)) is None,
            },
    {
        match self.get(key) {
            Some(v) => v.as_array(),
            None => None,
        }
    }

    pub fn as_bool(&self) -> (r: Option<bool>)
        ensures
            r == jbool(self@),
    {
        match self {
            Json::Bool(b) => Some(*b),
            _ => None,
        }
    }

    pub fn as_u64(&self) -> (r: Option<u64>)
        ensures
            match r {
                Some(n) => ju64(self@) == Some(n as int),
                None => ju64(self@) is None,
            },
    {
        match self {
            Json::UInt(n) => Some(*n),
            Json::Int(n) => if *n >= 0 {
                Some(*n as u64)
            } else {
                None
            },
            _ => None,
        }
    }

    pub fn as_i64(&self) -> (r: Option<i64>)
        ensures
            match r {
                Some(n) => ji64(self@) == Some(n as int),
                None => ji64(self@) is None,
            },
    {
        match self {
            Json::UInt(n) => if *n <= i64::MAX as u64 {
                Some(*n as i64)
            } else {
                None
            },
            Json::Int(n) => Some(*n),
            _ => None,
        }
    }

    pub fn is_object(&self) -> (r: bool)
        ensures
            r == (self@ is Obj),
    {
        match self {
            Json::Obj(_) => true,
            _ => false,
        }
    }

    // ── Building a value ────────────────────────────────────────────────

    /// The JSON text value of `s`.
    pub fn text(s: &str) -> (r: Json)
        ensures
            r@ == JValue::Str(s@),
    {
        Json::Str(s.to_owned())
    }

    /// The JSON array of texts.
    pub fn texts(v: &Vec<String>) -> (r: Json)
        ensures
            r@ == jtexts(crate::text::texts(v@)),
    {
        let mut items: Vec<Json> = Vec::new();
        let mut i: usize = 0;
        while i < v.len()
            invariant
                i <= v.len(),
                items.len() == i,
                forall|k: int| 0 <= k < i ==> (#[trigger] items@[k])@ == JValue::Str(v@[k]@),
            decreases v.len() - i,
        {
            items.push(Json::Str(v[i].clone()));
            i = i + 1;
        }
        let r = Json::Arr(items);
        assert(r@ == jtexts(crate::text::texts(v@))) by {
            assert(items_view(items@) =~= jtexts(crate::text::texts(v@))->Arr_0);
        }
        r
    }

    /// A copy of a value.
    pub fn copy(&self) -> (r: Json)
        ensures
            r@ == self@,
        decreases self,
    {
        match self {
            Json::Null => Json::Null,
            Json::Bool(b) => Json::Bool(*b),
            Json::UInt(n) => Json::UInt(*n),
            Json::Int(n) => Json::Int(*n),
            Json::Float(f) => Json::Float(f.copy()),
            Json::Str(s) => Json::Str(s.clone()),
            Json::Arr(items) => {
                let mut out: Vec<Json> = Vec::new();
                let mut i: usize = 0;
                while i < items.len()
                    invariant
                        i <= items.len(),
                        *self == Json::Arr(*items),
                        out.len() == i,
                        forall|k: int| 0 <= k < i ==> (#[trigger] out@[k])@ == items@[k]@,
                    decreases items.len() - i,
                {
                    assert(decreases_to!(*self => self->Arr_0@[i as int]));
                    out.push(items[i].copy());
                    i = i + 1;
                }
                assert(items_view(out@) =~= items_view(items@));
                Json::Arr(out)
            },
            Json::Obj(entries) => {
                let mut out: Vec<(String, Json)> = Vec::new();
                let mut i: usize = 0;
                while i < entries.len()
                    invariant
                        i <= entries.len(),
                        *self == Json::Obj(*entries),
                        entries_view(out@) == entries_view(entries@.take(i as int)),
                    decreases entries.len() - i,
                {
                    assert(decreases_to!(*self => self->Obj_0@[i as int].1));
                    let ghost before = out@;
                    out.push((entries[i].0.clone(), entries[i].1.copy()));
                    proof {
                        assert(out@.drop_last() =~= before);
                        assert(entries@.take(i + 1).drop_last() =~= entries@.take(i as int));
                    }
                    i = i + 1;
                }
                assert(entries@.take(i as int) =~= entries@);
                Json::Obj(out)
            },
        }
    }

    /// Gives a key of an object a value; anything but an object stays as it is.
    pub fn set(&mut self, key: &str, value: Json)
        ensures
            final(self)@ == jset(old(self)@, key@, value@),
    {
        match self {
            Json::Obj(entries) => {
                put(entries, key, value);
            },
            _ => {},
        }
    }

    /// Takes a key out of an object, and tells whether it was there.
    pub fn remove(&mut self, key: &str) -> (r: bool)
        ensures
            final(self)@ == jwithout(old(self)@, key@),
            r == (jget(old(self)@, key@) is Some),
    {
        match self {
            Json::Obj(entries) => drop_key(entries, key),
            _ => false,
        }
    }
}

/// The array of texts.
impl Json {
    /// The keys of an object, in order; none where it is no object.
    pub fn sorted_keys(&self) -> (r: Vec<String>)
        ensures
            crate::text::in_order(crate::text::texts(r@)),
            crate::text::texts(r@).no_duplicates(),
            crate::text::texts(r@).to_set() == (match self@ {
                JValue::Obj(m) => m.dom(),
                _ => Set::<Seq<char>>::empty(),
            }),
    {
        let mut out: Vec<String> = Vec::new();
        assert(crate::text::texts(out@) =~= seq![]);
        assert(crate::text::texts(out@).to_set() =~= Set::<Seq<char>>::empty());
        match self {
            Json::Obj(entries) => {
                let mut i: usize = 0;
                assert(entries_view(entries@.take(0)).dom() =~= Set::<Seq<char>>::empty());
                while i < entries.len()
                    invariant
                        i <= entries.len(),
                        crate::text::in_order(crate::text::texts(out@)),
                        crate::text::texts(out@).no_duplicates(),
                        crate::text::texts(out@).to_set() == entries_view(
                            entries@.take(i as int),
                        ).dom(),
                    decreases entries.len() - i,
                {
                    let ghost before = crate::text::texts(out@);
                    let ghost key = entries@[i as int].0@;
                    proof {
                        assert(entries@.take(i + 1).drop_last() =~= entries@.take(i as int));
                        assert(entries_view(entries@.take(i + 1)).dom() =~= entries_view(
                            entries@.take(i as int),
                        ).dom().insert(key));
                    }
                    if !has_text(&out, entries[i].0.as_str()) {
                        insert_in_order(&mut out, entries[i].0.clone());
                    } else {
                        assert(before.to_set().contains(key));
                        assert(before.to_set().insert(key) =~= before.to_set());
                    }
                    i = i + 1;
                }
                assert(entries@.take(i as int) =~= entries@);
                out
            },
            _ => out,
        }
    }
}

fn has_text(list: &Vec<String>, s: &str) -> (r: bool)
    ensures
        r == crate::text::texts(list@).contains(s@),
{
    let mut i: usize = 0;
    while i < list.len()
        invariant
            i <= list.len(),
            forall|k: int| 0 <= k < i ==> (#[trigger] list@[k])@ != s@,
        decreases list.len() - i,
    {
        if crate::text::same(list[i].as_str(), s) {
            assert(crate::text::texts(list@)[i as int] == s@);
            return true;
        }
        i = i + 1;
    }
    assert(!crate::text::texts(list@).contains(s@)) by {
        if crate::text::texts(list@).contains(s@) {
            let k = choose|k: int|
                0 <= k < crate::text::texts(list@).len() && crate::text::texts(list@)[k] == s@;
            assert(list@[k]@ == s@);
        }
    }
    false
}

pub open spec fn jtexts(v: Seq<Seq<char>>) -> JValue {
    JValue::Arr(v.map_values(|s: Seq<char>| JValue::Str(s)))
}

/// An object with one more entry; anything but an object stays as it is.
pub open spec fn jset(v: JValue, key: Seq<char>, value: JValue) -> JValue {
    match v {
        JValue::Obj(m) => JValue::Obj(m.insert(key, value)),
        _ => v,
    }
}

/// An object without a key; anything but an object stays as it is.
pub open spec fn jwithout(v: JValue, key: Seq<char>) -> JValue {
    match v {
        JValue::Obj(m) => JValue::Obj(m.remove(key)),
        _ => v,
    }
}

/// Adds an entry to a list of entries.
pub fn put(entries: &mut Vec<(String, Json)>, key: &str, value: Json)
    ensures
        entries_view(final(entries)@) == entries_view(old(entries)@).insert(key@, value@),
{
    entries.push((key.to_owned(), value));
    proof {
        assert(entries@.drop_last() =~= old(entries)@);
    }
}

/// Adds an entry with a text.
pub fn put_text(entries: &mut Vec<(String, Json)>, key: &str, value: &str)
    ensures
        entries_view(final(entries)@) == entries_view(old(entries)@).insert(
            key@,
            JValue::Str(value@),
        ),
{
    put(entries, key, Json::text(value));
}

/// Takes every entry with a key out of a list of entries.
fn drop_key(entries: &mut Vec<(String, Json)>, key: &str) -> (r: bool)
    ensures
        entries_view(final(entries)@) == entries_view(old(entries)@).remove(key@),
        r == entries_view(old(entries)@).dom().contains(key@),
{
    let wanted: String = key.to_owned();
    let mut all: Vec<(String, Json)> = Vec::new();
    std::mem::swap(&mut all, entries);
    let ghost before = all@;
    let mut kept: Vec<(String, Json)> = Vec::new();
    let mut found = false;
    let ghost mut done: int = 0;
    assert(before.skip(0) =~= before);
    assert(entries_view(before.take(0)).remove(key@) =~= Map::empty());
    for entry in it: all
        invariant
            it.seq() == before,
            done == it.index(),
            wanted@ == key@,
            entries_view(kept@) == entries_view(before.take(done)).remove(key@),
            found == entries_view(before.take(done)).dom().contains(key@),
    {
        proof {
            assert(before.take(done + 1).drop_last() =~= before.take(done));
            assert(before.take(done + 1).last() == entry);
        }
        if entry.0 == wanted {
            found = true;
            assert(entries_view(before.take(done + 1)).remove(key@) =~= entries_view(
                before.take(done),
            ).remove(key@));
        } else {
            let ghost k = kept@;
            kept.push(entry);
            assert(kept@.drop_last() =~= k);
            assert(entries_view(before.take(done + 1)).remove(key@) =~= entries_view(
                before.take(done),
            ).remove(key@).insert(entry.0@, entry.1@));
        }
        proof {
            done = done + 1;
        }
    }
    assert(before.take(done) =~= before);
    *entries = kept;
    found
}

// ── The text form ───────────────────────────────────────────────────────

/// `serde_json::Value`.
#[verifier::external_type_specification]
#[verifier::external_body]
pub struct ExJsonValue(serde_json::Value);

/// What a `serde_json::Value` holds.
pub uninterp spec fn value_content(v: serde_json::Value) -> JValue;

/// What `serde_json::from_str` reads of a text, where it is JSON.
pub uninterp spec fn json_parsed(text: Seq<char>) -> Option<JValue>;

/// What `serde_json` says of a text that is not JSON.
pub uninterp spec fn json_error(text: Seq<char>) -> Seq<char>;

/// What `serde_json::to_string` writes for a value.
pub uninterp spec fn json_text(v: JValue) -> Seq<char>;

/// What `serde_json::to_string_pretty` writes for a value.
pub uninterp spec fn json_pretty(v: JValue) -> Seq<char>;

/// How texts read as JSON.
pub open spec fn json_reader() -> spec_fn(Seq<char>) -> Option<JValue> {
    |text: Seq<char>| json_parsed(text)
}

/// How values are written as JSON.
pub open spec fn json_writer() -> spec_fn(JValue) -> Seq<char> {
    |v: JValue| json_text(v)
}

/// Neither an array, nor an object, nor a number with a fraction.
pub open spec fn is_scalar_value(v: JValue) -> bool {
    !(v is Arr || v is Obj || v is Float)
}

/// An object of scalars, none of them under a name that starts with a dollar sign.
pub open spec fn is_record(v: JValue) -> bool {
    v matches JValue::Obj(m) && forall|k: Seq<char>| #[trigger]
        m.dom().contains(k) ==> is_scalar_value(m[k]) && !(k.len() > 0 && k[0] == '$')
}

/// `serde_json::from_str::<Value>`: the value that a text spells, or the text of the error where it
/// is not JSON.
#[verifier::external_body]
fn read_value(text: &str) -> (r: Result<serde_json::Value, String>)
    ensures
        match r {
            Ok(v) => json_parsed(text@) == Some(value_content(v)),
            Err(e) => json_parsed(text@) is None && e@ == json_error(text@),
        },
{
    serde_json::from_str::<serde_json::Value>(text).map_err(|e| e.to_string())
}

/// `serde_json::to_string` on a `Value`, which does not fail: the text of the value.  A scalar, and
/// a record of scalars, reads back from its text.  Of other values this is not said: a fraction
/// may lose its last digit, a deep value is not read, and an object under one of the crate's own
/// keys, which start with a dollar sign, is read as something else.
#[verifier::external_body]
fn write_value(v: &serde_json::Value) -> (r: String)
    ensures
        r@ == json_text(value_content(*v)),
        is_scalar_value(value_content(*v)) || is_record(value_content(*v)) ==> json_parsed(r@)
            == Some(value_content(*v)),
{
    serde_json::to_string(v).unwrap_or_default()
}

/// `serde_json::to_string_pretty` on a `Value`, which does not fail: the text of the value, over
/// several lines.
#[verifier::external_body]
fn write_pretty(v: &serde_json::Value) -> (r: String)
    ensures
        r@ == json_pretty(value_content(*v)),
{
    serde_json::to_string_pretty(v).unwrap_or_default()
}

/// The variants of `serde_json::Value`, one for one: the tree holds what the value holds.
#[verifier::external_body]
fn from_value(v: serde_json::Value) -> (r: Json)
    ensures
        r@ == value_content(v),
{
    match v {
        serde_json::Value::Null => Json::Null,
        serde_json::Value::Bool(b) => Json::Bool(b),
        serde_json::Value::Number(n) => match (n.as_u64(), n.as_i64()) {
            (Some(u), _) => Json::UInt(u),
            (None, Some(i)) => Json::Int(i),
            (None, None) => Json::Float(Fraction { text: n.to_string() }),
        },
        serde_json::Value::String(s) => Json::Str(s),
        serde_json::Value::Array(a) => Json::Arr(a.into_iter().map(from_value).collect()),
        serde_json::Value::Object(m) => Json::Obj(m.into_iter().map(|(k, v)| (k, from_value(v))).collect()),
    }
}

/// The variants of `serde_json::Value`, one for one: the value holds what the tree holds.  The
/// digits of a fraction came from `serde_json` and are read back by `str::parse`.
#[verifier::external_body]
fn to_value(v: &Json) -> (r: serde_json::Value)
    ensures
        value_content(r) == v@,
{
    match v {
        Json::Null => serde_json::Value::Null,
        Json::Bool(b) => serde_json::Value::Bool(*b),
        Json::UInt(n) => serde_json::Value::from(*n),
        Json::Int(n) => serde_json::Value::from(*n),
        Json::Float(f) => serde_json::Number::from_f64(f.text.parse().unwrap_or_default()).into(),
        Json::Str(s) => serde_json::Value::String(s.clone()),
        Json::Arr(a) => serde_json::Value::Array(a.iter().map(to_value).collect()),
        Json::Obj(m) => serde_json::Value::Object(m.iter().map(|(k, v)| (k.clone(), to_value(v))).collect()),
    }
}

impl Json {
    /// The value that a text spells, where the text is JSON.
    pub fn parse(text: &str) -> (r: Option<Json>)
        ensures
            opt_owned_json(r) == json_parsed(text@),
    {
        match read_value(text) {
            Ok(v) => Some(from_value(v)),
            Err(_) => None,
        }
    }

    /// The value that a text spells, or what is wrong with the text.
    pub fn read(text: &str) -> (r: Result<Json, String>)
        ensures
            match r {
                Ok(v) => json_parsed(text@) == Some(v@),
                Err(e) => json_parsed(text@) is None && e@ == json_error(text@),
            },
    {
        match read_value(text) {
            Ok(v) => Ok(from_value(v)),
            Err(e) => Err(e),
        }
    }

    /// The text of a value, over several lines.
    pub fn to_pretty_text(&self) -> (r: String)
        ensures
            r@ == json_pretty(self@),
    {
        write_pretty(&to_value(self))
    }

    /// The text of a value.
    pub fn to_text(&self) -> (r: String)
        ensures
            r@ == json_text(self@),
            is_scalar_value(self@) || is_record(self@) ==> json_parsed(r@) == Some(self@),
    {
        write_value(&to_value(self))
    }
}

/// What is taken out of a record is gone, and what is put in is there; nothing else changes.
pub proof fn law_one_entry_changes(v: JValue, key: Seq<char>, value: JValue, other: Seq<char>)
    requires
        v is Obj,
        other != key,
    ensures
        jget(jset(v, key, value), key) == Some(value),
        jget(jset(v, key, value), other) == jget(v, other),
        jget(jwithout(v, key), key) is None,
        jget(jwithout(v, key), other) == jget(v, other),
{
}

/// Texts are listed one for one.
pub proof fn law_texts_are_listed_in_order(list: Seq<Seq<char>>, i: int)
    requires
        0 <= i < list.len(),
    ensures
        jarr(jtexts(list)) matches Some(items) && items.len() == list.len() && jstr(items[i]) == Some(
            list[i],
        ),
{
}

/// A value is read only as what it is.
pub proof fn law_value_is_read_as_what_it_is(v: JValue)
    ensures
        jstr(v) matches Some(s) ==> v == JValue::Str(s),
        jbool(v) matches Some(b) ==> v == JValue::Bool(b),
        jarr(v) matches Some(items) ==> v == JValue::Arr(items),
        ju64(v) matches Some(n) ==> v == JValue::Int(n) && 0 <= n <= u64::MAX,
        ji64(v) matches Some(n) ==> v == JValue::Int(n) && i64::MIN <= n <= i64::MAX,
        v matches JValue::Int(n) ==> (0 <= n <= u64::MAX ==> ju64(v) == Some(n)) && (i64::MIN <= n
            <= i64::MAX ==> ji64(v) == Some(n)),
{
}

} // verus!
