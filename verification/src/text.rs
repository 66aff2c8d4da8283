//! Text as sequences of characters.

use vstd::prelude::*;
use vstd::string::*;

verus! {

/// `String::push`: appends one character.
pub assume_specification[ String::push ](s: &mut String, c: char)
    ensures
        final(s)@ == old(s)@.push(c),
;

/// What `str::to_uppercase` makes of a text.
pub uninterp spec fn uppercase(s: Seq<char>) -> Seq<char>;

/// The upper case of a text of ASCII characters.
pub open spec fn ascii_upper(s: Seq<char>) -> Seq<char> {
    s.map_values(
        |c: char|
            if 'a' <= c <= 'z' {
                (c as u32 - 32) as char
            } else {
                c
            },
    )
}

/// `str::to_uppercase`: the upper case of a text, by the Unicode tables.  Of ASCII text these are
/// the capital letters.
#[verifier::external_body]
pub(crate) fn upper(s: &str) -> (r: String)
    ensures
        r@ == uppercase(s@),
        (forall|i: int| 0 <= i < s@.len() ==> #[trigger] s@[i] < '\u{80}') ==> r@ == ascii_upper(s@),
{
    s.to_uppercase()
}

/// What `{:?}` writes for a text.
pub uninterp spec fn debug_text(s: Seq<char>) -> Seq<char>;

/// `format!` with `{:?}` on a text: the text in quotes, with what does not print escaped.
#[verifier::external_body]
pub(crate) fn debug_of(s: &str) -> (r: String)
    ensures
        r@ == debug_text(s@),
{
    format!("{s:?}")
}

/// What `char::is_alphanumeric` says of a character.
pub uninterp spec fn alphanumeric(c: char) -> bool;

/// `char::is_alphanumeric`: whether a character is a letter or a number, by the Unicode tables. Of
/// ASCII these are the letters and the digits.
#[verifier::external_body]
pub(crate) fn is_alphanumeric(c: char) -> (r: bool)
    ensures
        r == alphanumeric(c),
        c < '\u{80}' ==> r == ('0' <= c <= '9' || 'A' <= c <= 'Z' || 'a' <= c <= 'z'),
{
    c.is_alphanumeric()
}

// ── What the functions below compute ────────────────────────────────────

/// `p` stands in `s` at position `i`.
pub open spec fn occurs_at(s: Seq<char>, p: Seq<char>, i: int) -> bool {
    0 <= i && i + p.len() <= s.len() && s.subrange(i, i + p.len()) == p
}

pub open spec fn has_prefix(s: Seq<char>, p: Seq<char>) -> bool {
    occurs_at(s, p, 0)
}

pub open spec fn has_suffix(s: Seq<char>, p: Seq<char>) -> bool {
    occurs_at(s, p, s.len() - p.len())
}

pub open spec fn has_infix(s: Seq<char>, p: Seq<char>) -> bool {
    exists|i: int| occurs_at(s, p, i)
}

/// The first position at or after `from` where `p` stands in `s`.
pub open spec fn find_from(s: Seq<char>, p: Seq<char>, from: int) -> Option<int>
    decreases s.len() + 1 - from,
{
    if from < 0 || from + p.len() > s.len() {
        None
    } else if occurs_at(s, p, from) {
        Some(from)
    } else {
        find_from(s, p, from + 1)
    }
}

/// The first position where `p` stands in `s`.
pub open spec fn find(s: Seq<char>, p: Seq<char>) -> Option<int> {
    find_from(s, p, 0)
}

/// `s` without a leading `p`, or nothing where `s` does not start with `p`.
pub open spec fn without_prefix(s: Seq<char>, p: Seq<char>) -> Option<Seq<char>> {
    if has_prefix(s, p) {
        Some(s.skip(p.len() as int))
    } else {
        None
    }
}

/// `s` without a trailing `p`, or nothing where `s` does not end with `p`.
pub open spec fn without_suffix(s: Seq<char>, p: Seq<char>) -> Option<Seq<char>> {
    if has_suffix(s, p) {
        Some(s.take(s.len() - p.len()))
    } else {
        None
    }
}

/// The characters with the Unicode property `White_Space`.
pub open spec fn is_space(c: char) -> bool {
    let n = c as u32;
    ||| 0x9 <= n <= 0xd
    ||| n == 0x20
    ||| n == 0x85
    ||| n == 0xa0
    ||| n == 0x1680
    ||| 0x2000 <= n <= 0x200a
    ||| n == 0x2028
    ||| n == 0x2029
    ||| n == 0x202f
    ||| n == 0x205f
    ||| n == 0x3000
}

pub open spec fn trimmed_start(s: Seq<char>) -> Seq<char>
    decreases s.len(),
{
    if s.len() > 0 && is_space(s[0]) {
        trimmed_start(s.skip(1))
    } else {
        s
    }
}

pub open spec fn trimmed_end(s: Seq<char>) -> Seq<char>
    decreases s.len(),
{
    if s.len() > 0 && is_space(s.last()) {
        trimmed_end(s.drop_last())
    } else {
        s
    }
}

/// `s` without leading and trailing white space.
pub open spec fn trimmed(s: Seq<char>) -> Seq<char> {
    trimmed_end(trimmed_start(s))
}

/// `s` without the run of `c` at its end.
pub open spec fn without_trailing(s: Seq<char>, c: char) -> Seq<char>
    decreases s.len(),
{
    if s.len() > 0 && s.last() == c {
        without_trailing(s.drop_last(), c)
    } else {
        s
    }
}

/// `s` without every copy of the non-empty `p` that stands at its end.
pub open spec fn without_suffixes(s: Seq<char>, p: Seq<char>) -> Seq<char>
    decreases s.len(),
{
    if p.len() > 0 && has_suffix(s, p) {
        without_suffixes(s.take(s.len() - p.len()), p)
    } else {
        s
    }
}

pub open spec fn lower_char(c: char) -> char {
    if 'A' <= c && c <= 'Z' {
        (c as u32 + 32) as char
    } else {
        c
    }
}

/// `s` with the letters A to Z in lower case.
pub open spec fn ascii_lower(s: Seq<char>) -> Seq<char> {
    s.map_values(|c: char| lower_char(c))
}

/// `parts` with `sep` between each two.
pub open spec fn joined(parts: Seq<Seq<char>>, sep: Seq<char>) -> Seq<char>
    decreases parts.len(),
{
    if parts.len() == 0 {
        seq![]
    } else if parts.len() == 1 {
        parts[0]
    } else {
        joined(parts.drop_last(), sep) + sep + parts.last()
    }
}

/// `s` with each `c` replaced by `by`.
pub open spec fn replaced(s: Seq<char>, c: char, by: Seq<char>) -> Seq<char>
    decreases s.len(),
{
    if s.len() == 0 {
        seq![]
    } else if s.last() == c {
        replaced(s.drop_last(), c, by) + by
    } else {
        replaced(s.drop_last(), c, by).push(s.last())
    }
}

/// A line without the carriage return that ended it.
pub open spec fn without_cr(s: Seq<char>) -> Seq<char> {
    if s.len() > 0 && s.last() == '\r' {
        s.drop_last()
    } else {
        s
    }
}

/// The lines of `s`: each ends at a line feed, or a carriage return and a line feed, or at the
/// end of the text.
pub open spec fn lines(s: Seq<char>) -> Seq<Seq<char>>
    decreases s.len(),
{
    if s.len() == 0 {
        seq![]
    } else {
        match next_feed(s, 0) {
            None => seq![s],
            Some(i) => {
                proof {
                    lemma_next_feed(s, 0);
                }
                seq![without_cr(s.take(i))] + lines(s.skip(i + 1))
            },
        }
    }
}

/// The first position at or after `from` of a line feed.
pub open spec fn next_feed(s: Seq<char>, from: int) -> Option<int>
    decreases s.len() - from,
{
    if from < 0 || from >= s.len() {
        None
    } else if s[from] == '\n' {
        Some(from)
    } else {
        next_feed(s, from + 1)
    }
}

/// Where a line feed is found, one stands there and none stands before it.
pub proof fn lemma_next_feed(s: Seq<char>, from: int)
    requires
        0 <= from,
    ensures
        next_feed(s, from) matches Some(i) ==> from <= i < s.len() && s[i] == '\n' && (forall|k: int|
            from <= k < i ==> s[k] != '\n'),
        next_feed(s, from) is None ==> forall|k: int| from <= k < s.len() ==> s[k] != '\n',
    decreases s.len() - from,
{
    if from < s.len() && s[from] != '\n' {
        lemma_next_feed(s, from + 1);
    }
}

pub open spec fn digit_char(d: nat) -> char {
    (48 + d % 10) as char
}

/// `n` in decimal digits.
pub open spec fn decimal(n: nat) -> Seq<char>
    decreases n,
{
    if n < 10 {
        seq![digit_char(n)]
    } else {
        decimal(n / 10).push(digit_char(n))
    }
}

pub open spec fn decimal_int(n: int) -> Seq<char> {
    if n < 0 {
        seq!['-'] + decimal((-n) as nat)
    } else {
        decimal(n as nat)
    }
}

/// The texts of a list of strings.
pub open spec fn texts(v: Seq<String>) -> Seq<Seq<char>> {
    v.map_values(|s: String| s@)
}

/// The text of an optional string.
pub open spec fn opt_text(o: Option<String>) -> Option<Seq<char>> {
    match o {
        Some(s) => Some(s@),
        None => None,
    }
}

/// The text of an optional string slice.
pub open spec fn opt_slice(o: Option<&str>) -> Option<Seq<char>> {
    match o {
        Some(s) => Some(s@),
        None => None,
    }
}

// ── Functions ───────────────────────────────────────────────────────────

/// The characters of `s`.
pub fn chars_of(s: &str) -> (r: Vec<char>)
    ensures
        r@ == s@,
{
    let mut out: Vec<char> = Vec::new();
    for c in it: s.chars()
        invariant
            out@ == it.seq().take(it.index() as int),
            it.seq() == s@,
    {
        out.push(c);
    }
    out
}

/// The text that `chars` from `from` up to `to` spell.
pub fn string_of(chars: &Vec<char>, from: usize, to: usize) -> (r: String)
    requires
        from <= to <= chars.len(),
    ensures
        r@ == chars@.subrange(from as int, to as int),
{
    let mut out = String::new();
    let mut i: usize = from;
    while i < to
        invariant
            from <= i <= to <= chars.len(),
            out@ == chars@.subrange(from as int, i as int),
        decreases to - i,
    {
        out.push(chars[i]);
        i = i + 1;
    }
    out
}

/// Whether two texts are the same.
pub fn same(a: &str, b: &str) -> (r: bool)
    ensures
        r == (a@ == b@),
{
    a.to_owned() == b.to_owned()
}

fn chars_at(s: &Vec<char>, p: &Vec<char>, i: usize) -> (r: bool)
    requires
        i <= s.len(),
    ensures
        r == occurs_at(s@, p@, i as int),
{
    if p.len() > s.len() - i {
        return false;
    }
    let mut k: usize = 0;
    while k < p.len()
        invariant
            k <= p.len(),
            i + p.len() <= s.len(),
            forall|j: int| 0 <= j < k ==> s[i + j] == p[j],
        decreases p.len() - k,
    {
        if s[i + k] != p[k] {
            assert(s@.subrange(i as int, i + p.len())[k as int] != p@[k as int]);
            return false;
        }
        k = k + 1;
    }
    assert(s@.subrange(i as int, i + p.len()) =~= p@);
    true
}

pub fn starts_with(s: &str, p: &str) -> (r: bool)
    ensures
        r == has_prefix(s@, p@),
{
    chars_at(&chars_of(s), &chars_of(p), 0)
}

pub fn ends_with(s: &str, p: &str) -> (r: bool)
    ensures
        r == has_suffix(s@, p@),
{
    let sc = chars_of(s);
    let pc = chars_of(p);
    pc.len() <= sc.len() && chars_at(&sc, &pc, sc.len() - pc.len())
}

/// The position of the first `p` in `s` at or after `from`.
pub fn find_chars(s: &Vec<char>, p: &Vec<char>, from: usize) -> (r: Option<usize>)
    requires
        from <= s.len(),
    ensures
        match r {
            Some(i) => find_from(s@, p@, from as int) == Some(i as int) && from <= i <= s.len()
                && occurs_at(s@, p@, i as int),
            None => find_from(s@, p@, from as int) is None,
        },
{
    let mut i: usize = from;
    while i < s.len()
        invariant
            from <= i <= s.len(),
            find_from(s@, p@, i as int) == find_from(s@, p@, from as int),
        decreases s.len() - i,
    {
        if chars_at(s, p, i) {
            return Some(i);
        }
        i = i + 1;
    }
    if chars_at(s, p, i) {
        assert(find_from(s@, p@, i as int) == Some(i as int));
        Some(i)
    } else {
        assert(find_from(s@, p@, i as int) is None) by {
            assert(p@.len() == 0 ==> s@.subrange(i as int, i as int) =~= p@);
        }
        None
    }
}

/// Whether `p` stands somewhere in a text is what a search for it tells.
pub proof fn lemma_find_from(s: Seq<char>, p: Seq<char>, from: int)
    requires
        0 <= from,
    ensures
        find_from(s, p, from) matches Some(i) ==> from <= i && occurs_at(s, p, i) && forall|k: int|
            from <= k < i ==> !occurs_at(s, p, k),
        find_from(s, p, from) is None ==> forall|k: int| from <= k ==> !occurs_at(s, p, k),
    decreases s.len() + 1 - from,
{
    if from + p.len() <= s.len() && !occurs_at(s, p, from) {
        lemma_find_from(s, p, from + 1);
    }
}

pub fn contains(s: &str, p: &str) -> (r: bool)
    ensures
        r == has_infix(s@, p@),
{
    let found = find_chars(&chars_of(s), &chars_of(p), 0);
    proof {
        lemma_find_from(s@, p@, 0);
    }
    found.is_some()
}

pub fn strip_prefix<'a>(s: &'a str, p: &str) -> (r: Option<&'a str>)
    ensures
        opt_slice(r) == without_prefix(s@, p@),
{
    if starts_with(s, p) {
        let r = s.substring_char(p.unicode_len(), s.unicode_len());
        assert(s@.subrange(p@.len() as int, s@.len() as int) =~= s@.skip(p@.len() as int));
        Some(r)
    } else {
        None
    }
}

pub fn strip_suffix<'a>(s: &'a str, p: &str) -> (r: Option<&'a str>)
    ensures
        opt_slice(r) == without_suffix(s@, p@),
{
    if ends_with(s, p) {
        let r = s.substring_char(0, s.unicode_len() - p.unicode_len());
        assert(s@.subrange(0, s@.len() - p@.len()) =~= s@.take(s@.len() - p@.len()));
        Some(r)
    } else {
        None
    }
}

pub fn is_space_char(c: char) -> (r: bool)
    ensures
        r == is_space(c),
{
    let n: u32 = c as u32;
    (0x9 <= n && n <= 0xd) || n == 0x20 || n == 0x85 || n == 0xa0 || n == 0x1680 || (0x2000 <= n && n
        <= 0x200a) || n == 0x2028 || n == 0x2029 || n == 0x202f || n == 0x205f || n == 0x3000
}

pub fn trim_end<'a>(s: &'a str) -> (r: &'a str)
    ensures
        r@ == trimmed_end(s@),
{
    let cs = chars_of(s);
    let mut n: usize = cs.len();
    assert(s@.take(n as int) =~= s@);
    while n > 0 && is_space_char(cs[n - 1])
        invariant
            n <= cs.len(),
            cs@ == s@,
            trimmed_end(s@) == trimmed_end(s@.take(n as int)),
        decreases n,
    {
        assert(s@.take(n as int).drop_last() =~= s@.take(n - 1));
        n = n - 1;
    }
    s.substring_char(0, n)
}

pub fn trim_start<'a>(s: &'a str) -> (r: &'a str)
    ensures
        r@ == trimmed_start(s@),
{
    let cs = chars_of(s);
    let mut n: usize = 0;
    assert(s@.skip(0) =~= s@);
    while n < cs.len() && is_space_char(cs[n])
        invariant
            n <= cs.len(),
            cs@ == s@,
            trimmed_start(s@) == trimmed_start(s@.skip(n as int)),
        decreases cs.len() - n,
    {
        assert(s@.skip(n as int).skip(1) =~= s@.skip(n + 1));
        n = n + 1;
    }
    let r = s.substring_char(n, cs.len());
    assert(r@ =~= s@.skip(n as int));
    r
}

pub fn trim<'a>(s: &'a str) -> (r: &'a str)
    ensures
        r@ == trimmed(s@),
{
    trim_end(trim_start(s))
}

/// Whether a text holds nothing but white space.
pub fn is_blank(s: &str) -> (r: bool)
    ensures
        r == (trimmed(s@).len() == 0),
{
    trim(s).is_empty()
}

pub fn trim_trailing<'a>(s: &'a str, c: char) -> (r: &'a str)
    ensures
        r@ == without_trailing(s@, c),
{
    let cs = chars_of(s);
    let mut n: usize = cs.len();
    assert(s@.take(n as int) =~= s@);
    while n > 0 && cs[n - 1] == c
        invariant
            n <= cs.len(),
            cs@ == s@,
            without_trailing(s@, c) == without_trailing(s@.take(n as int), c),
        decreases n,
    {
        assert(s@.take(n as int).drop_last() =~= s@.take(n - 1));
        n = n - 1;
    }
    s.substring_char(0, n)
}

pub fn trim_suffixes(s: &str, p: &str) -> (r: String)
    requires
        p@.len() > 0,
    ensures
        r@ == without_suffixes(s@, p@),
{
    let mut rest: String = s.to_owned();
    while ends_with(rest.as_str(), p)
        invariant
            p@.len() > 0,
            without_suffixes(s@, p@) == without_suffixes(rest@, p@),
        decreases rest@.len(),
    {
        let n: usize = rest.as_str().unicode_len() - p.unicode_len();
        let shorter: String = rest.as_str().substring_char(0, n).to_owned();
        assert(rest@.subrange(0, n as int) =~= rest@.take(n as int));
        rest = shorter;
    }
    rest
}

/// A text that may be there, borrowed.
pub fn opt_str(o: &Option<String>) -> (r: Option<&str>)
    ensures
        opt_slice(r) == opt_text(*o),
{
    match o {
        Some(s) => Some(s.as_str()),
        None => None,
    }
}

/// `s` with its first letter, where it is one of a to z, in upper case.
pub open spec fn capitalized(s: Seq<char>) -> Seq<char> {
    if s.len() > 0 && 'a' <= s[0] && s[0] <= 'z' {
        seq![(s[0] as u32 - 32) as char] + s.skip(1)
    } else {
        s
    }
}

/// `s` with its first letter in upper case.
pub fn capitalize(s: &str) -> (r: String)
    ensures
        r@ == capitalized(s@),
{
    let cs = chars_of(s);
    if cs.len() > 0 && 'a' <= cs[0] && cs[0] <= 'z' {
        let mut out = String::new();
        out.push(((cs[0] as u8) - 32) as char);
        let rest = string_of(&cs, 1, cs.len());
        out.append(rest.as_str());
        assert(out@ =~= capitalized(s@));
        out
    } else {
        s.to_owned()
    }
}

pub fn lower_ascii(s: &str) -> (r: String)
    ensures
        r@ == ascii_lower(s@),
{
    let cs = chars_of(s);
    let mut out = String::new();
    let mut i: usize = 0;
    while i < cs.len()
        invariant
            i <= cs.len(),
            cs@ == s@,
            out@ == ascii_lower(s@.take(i as int)),
        decreases cs.len() - i,
    {
        let c: char = cs[i];
        let lowered: char = if 'A' <= c && c <= 'Z' {
            ((c as u8) + 32) as char
        } else {
            c
        };
        out.push(lowered);
        i = i + 1;
        assert(out@ =~= ascii_lower(s@.take(i as int)));
    }
    assert(s@.take(i as int) =~= s@);
    out
}

pub fn join(parts: &[String], sep: &str) -> (r: String)
    ensures
        r@ == joined(texts(parts@), sep@),
{
    let mut out = String::new();
    let mut i: usize = 0;
    while i < parts.len()
        invariant
            i <= parts.len(),
            out@ == joined(texts(parts@).take(i as int), sep@),
        decreases parts.len() - i,
    {
        let ghost before = texts(parts@).take(i as int);
        let ghost after = texts(parts@).take(i + 1);
        if i > 0 {
            out.append(sep);
        }
        out.append(parts[i].as_str());
        proof {
            assert(after.drop_last() =~= before);
            assert(after.last() == parts@[i as int]@);
            if i == 0 {
                assert(out@ =~= after[0]);
            }
        }
        i = i + 1;
    }
    assert(texts(parts@).take(i as int) =~= texts(parts@));
    out
}

pub fn replace(s: &str, c: char, by: &str) -> (r: String)
    ensures
        r@ == replaced(s@, c, by@),
{
    let cs = chars_of(s);
    let mut out = String::new();
    let mut i: usize = 0;
    while i < cs.len()
        invariant
            i <= cs.len(),
            cs@ == s@,
            out@ == replaced(s@.take(i as int), c, by@),
        decreases cs.len() - i,
    {
        assert(s@.take(i + 1).drop_last() =~= s@.take(i as int));
        if cs[i] == c {
            out.append(by);
        } else {
            out.push(cs[i]);
        }
        i = i + 1;
    }
    assert(s@.take(i as int) =~= s@);
    out
}

/// The lines of a text.
pub fn lines_of(s: &str) -> (r: Vec<String>)
    ensures
        texts(r@) == lines(s@),
{
    let cs = chars_of(s);
    let mut out: Vec<String> = Vec::new();
    let mut start: usize = 0;
    assert(s@.skip(0) =~= s@);
    assert(texts(out@) + lines(s@.skip(0)) =~= lines(s@));
    while start < cs.len()
        invariant
            start <= cs.len(),
            cs@ == s@,
            texts(out@) + lines(s@.skip(start as int)) == lines(s@),
        decreases cs.len() - start,
    {
        let ghost rest = s@.skip(start as int);
        let ghost done = texts(out@);
        let mut end: usize = start;
        while end < cs.len() && cs[end] != '\n'
            invariant
                start <= end <= cs.len(),
                cs@ == s@,
                rest == s@.skip(start as int),
                next_feed(rest, 0) == next_feed(rest, end - start),
            decreases cs.len() - end,
        {
            end = end + 1;
        }
        if end == cs.len() {
            out.push(string_of(&cs, start, end));
            proof {
                assert(texts(out@) =~= done.push(s@.subrange(start as int, end as int)));
                assert(s@.subrange(start as int, end as int) =~= rest);
                assert(lines(rest) =~= seq![rest]);
                assert(s@.skip(end as int) =~= seq![]);
                assert(texts(out@) + lines(s@.skip(end as int)) =~= done + lines(rest));
            }
            start = end;
        } else {
            let stop: usize = if end > start && cs[end - 1] == '\r' {
                end - 1
            } else {
                end
            };
            out.push(string_of(&cs, start, stop));
            proof {
                let line = without_cr(rest.take(end - start));
                assert(line =~= s@.subrange(start as int, stop as int));
                assert(texts(out@) =~= done.push(line));
                assert(rest.skip(end - start + 1) =~= s@.skip(end + 1));
                assert(lines(rest) =~= seq![line] + lines(s@.skip(end + 1)));
                assert(texts(out@) + lines(s@.skip(end + 1)) =~= done + lines(rest));
            }
            start = end + 1;
        }
    }
    assert(s@.skip(start as int) =~= seq![]);
    assert(texts(out@) =~= texts(out@) + lines(s@.skip(start as int)));
    out
}

/// A number in decimal digits.
pub fn decimal_of(n: u64) -> (r: String)
    ensures
        r@ == decimal(n as nat),
    decreases n,
{
    let d: u8 = (n % 10) as u8;
    let c: char = (48 + d) as char;
    if n < 10 {
        let mut out = String::new();
        out.push(c);
        assert(out@ =~= decimal(n as nat));
        out
    } else {
        let mut out = decimal_of(n / 10);
        out.push(c);
        out
    }
}

pub fn decimal_of_signed(n: i64) -> (r: String)
    ensures
        r@ == decimal_int(n as int),
{
    if n < 0 {
        let magnitude: u64 = if n == i64::MIN {
            0x8000_0000_0000_0000
        } else {
            (0 - n) as u64
        };
        let mut out: String = "-".to_owned();
        let digits = decimal_of(magnitude);
        out.append(digits.as_str());
        proof {
            reveal_strlit("-");
            assert("-"@ =~= seq!['-']);
        }
        out
    } else {
        decimal_of(n as u64)
    }
}

/// A copy of an optional string.
pub fn copy_opt(o: &Option<String>) -> (r: Option<String>)
    ensures
        r == *o,
{
    match o {
        Some(s) => Some(s.clone()),
        None => None,
    }
}

/// A copy of a list of strings.
pub fn copy_strings(v: &[String]) -> (r: Vec<String>)
    ensures
        r@ == v@,
{
    let mut out: Vec<String> = Vec::new();
    let mut i: usize = 0;
    while i < v.len()
        invariant
            i <= v.len(),
            out@ == v@.take(i as int),
        decreases v.len() - i,
    {
        out.push(v[i].clone());
        i = i + 1;
        assert(out@ =~= v@.take(i as int));
    }
    assert(v@.take(i as int) =~= v@);
    out
}

// ── Reading numbers ─────────────────────────────────────────────────────

pub open spec fn is_digit(c: char) -> bool {
    '0' <= c <= '9'
}

/// The number that digits spell.
pub open spec fn digits_value(s: Seq<char>) -> nat
    decreases s.len(),
{
    if s.len() == 0 {
        0
    } else {
        digits_value(s.drop_last()) * 10 + (s.last() as int - '0' as int) as nat
    }
}

/// The number that a text spells, where it is digits and nothing else.
pub open spec fn spelled(s: Seq<char>) -> Option<nat> {
    if s.len() > 0 && forall|i: int| 0 <= i < s.len() ==> is_digit(#[trigger] s[i]) {
        Some(digits_value(s))
    } else {
        None
    }
}

/// A text without a sign in front of it.
pub open spec fn unsigned_part(s: Seq<char>, sign: char) -> Option<Seq<char>> {
    if s.len() > 0 && s[0] == sign {
        Some(s.drop_first())
    } else {
        None
    }
}

/// The number without a sign, or with a plus, that a text spells, where 64 bits hold it.
pub open spec fn parsed_u64(s: Seq<char>) -> Option<int> {
    let body = match unsigned_part(s, '+') {
        Some(b) => b,
        None => s,
    };
    match spelled(body) {
        Some(n) => if n <= u64::MAX {
            Some(n as int)
        } else {
            None
        },
        None => None,
    }
}

/// The number that a text spells, where 64 bits hold it with its sign.
pub open spec fn parsed_i64(s: Seq<char>) -> Option<int> {
    match unsigned_part(s, '-') {
        Some(b) => match spelled(b) {
            Some(n) => if n <= 0x8000_0000_0000_0000 {
                Some(-(n as int))
            } else {
                None
            },
            None => None,
        },
        None => match parsed_u64(s) {
            Some(n) => if n <= i64::MAX {
                Some(n)
            } else {
                None
            },
            None => None,
        },
    }
}

/// The number that the characters from a position on spell, where 64 bits hold it.
fn read_digits(chars: &Vec<char>, from: usize) -> (r: Option<u64>)
    requires
        from <= chars.len(),
    ensures
        match r {
            Some(n) => spelled(chars@.skip(from as int)) == Some(n as nat),
            None => match spelled(chars@.skip(from as int)) {
                Some(n) => n > u64::MAX,
                None => true,
            },
        },
{
    let ghost body = chars@.skip(from as int);
    if from == chars.len() {
        return None;
    }
    let mut acc: u64 = 0;
    let mut over = false;
    let mut i: usize = from;
    assert(body.take(0) =~= seq![]);
    while i < chars.len()
        invariant
            from <= i <= chars.len(),
            body == chars@.skip(from as int),
            forall|k: int| 0 <= k < i - from ==> is_digit(#[trigger] body[k]),
            !over ==> acc == digits_value(body.take(i - from)),
            over ==> digits_value(body.take(i - from)) > u64::MAX,
        decreases chars.len() - i,
    {
        let c = chars[i];
        proof {
            assert(body[i - from] == c);
            assert(body.take(i - from + 1).drop_last() =~= body.take(i - from));
            assert(body.take(i - from + 1).last() == c);
        }
        if !('0' <= c && c <= '9') {
            assert(!is_digit(body[i - from]));
            return None;
        }
        let d: u64 = (c as u32 - 48) as u64;
        if !over {
            if acc > (0xffff_ffff_ffff_ffff - d) / 10 {
                over = true;
            } else {
                acc = acc * 10 + d;
            }
        }
        i = i + 1;
    }
    assert(body.take(i - from) =~= body);
    if over {
        None
    } else {
        Some(acc)
    }
}

/// The number without a sign, or with a plus, that a text spells.
pub fn parse_u64(s: &str) -> (r: Option<u64>)
    ensures
        match r {
            Some(n) => parsed_u64(s@) == Some(n as int),
            None => parsed_u64(s@) is None,
        },
{
    let chars = chars_of(s);
    assert(s@.skip(0) =~= s@);
    if chars.len() > 0 && chars[0] == '+' {
        assert(s@.skip(1) =~= s@.drop_first());
        read_digits(&chars, 1)
    } else {
        read_digits(&chars, 0)
    }
}

/// The number that a text spells.
pub fn parse_i64(s: &str) -> (r: Option<i64>)
    ensures
        match r {
            Some(n) => parsed_i64(s@) == Some(n as int),
            None => parsed_i64(s@) is None,
        },
{
    let chars = chars_of(s);
    if chars.len() > 0 && chars[0] == '-' {
        assert(s@.skip(1) =~= s@.drop_first());
        match read_digits(&chars, 1) {
            Some(n) => if n < 0x8000_0000_0000_0000 {
                Some(-(n as i64))
            } else if n == 0x8000_0000_0000_0000 {
                Some(i64::MIN)
            } else {
                None
            },
            None => None,
        }
    } else {
        match parse_u64(s) {
            Some(n) => if n <= 0x7fff_ffff_ffff_ffff {
                Some(n as i64)
            } else {
                None
            },
            None => None,
        }
    }
}

pub proof fn lemma_decimal_digits(n: nat)
    ensures
        decimal(n).len() > 0,
        forall|i: int| 0 <= i < decimal(n).len() ==> is_digit(#[trigger] decimal(n)[i]),
        digits_value(decimal(n)) == n,
    decreases n,
{
    let last = digit_char(n);
    assert(is_digit(last) && last as int - '0' as int == n % 10);
    if n < 10 {
        assert(decimal(n).drop_last() =~= Seq::<char>::empty());
        assert(digits_value(decimal(n).drop_last()) == 0);
    } else {
        lemma_decimal_digits(n / 10);
        assert(decimal(n).drop_last() =~= decimal(n / 10));
    }
}

/// A number is read back from its decimal form.
pub proof fn law_decimal_is_read_back(n: u64)
    ensures
        parsed_u64(decimal(n as nat)) == Some(n as int),
{
    lemma_decimal_digits(n as nat);
    let s = decimal(n as nat);
    assert(is_digit(s[0]));
    assert(unsigned_part(s, '+') is None);
}

/// The part of a text before the first occurrence of another, or all of it.
pub open spec fn before_first(s: Seq<char>, p: Seq<char>) -> Seq<char> {
    match find(s, p) {
        Some(i) => s.take(i),
        None => s,
    }
}

/// The part of a text before the first occurrence of another, or all of it.
pub fn take_before(s: &str, p: &str) -> (r: String)
    ensures
        r@ == before_first(s@, p@),
{
    let chars = chars_of(s);
    let pattern = chars_of(p);
    match find_chars(&chars, &pattern, 0) {
        Some(i) => {
            let r = string_of(&chars, 0, i);
            assert(s@.subrange(0, i as int) =~= s@.take(i as int));
            r
        },
        None => s.to_owned(),
    }
}

/// The first characters of a text, at most so many.
pub open spec fn beginning(s: Seq<char>, n: nat) -> Seq<char> {
    if s.len() > n {
        s.take(n as int)
    } else {
        s
    }
}

/// The first characters of a text, at most so many.
pub fn take_chars(s: &str, n: usize) -> (r: String)
    ensures
        r@ == beginning(s@, n as nat),
{
    let chars = chars_of(s);
    if chars.len() > n {
        let r = string_of(&chars, 0, n);
        assert(s@.subrange(0, n as int) =~= s@.take(n as int));
        r
    } else {
        s.to_owned()
    }
}

// ── Order ───────────────────────────────────────────────────────────────

/// The order of texts: by their first characters that differ, a text after its own beginnings.
pub open spec fn lex_le(a: Seq<char>, b: Seq<char>) -> bool
    decreases a.len(),
{
    if a.len() == 0 {
        true
    } else if b.len() == 0 {
        false
    } else if a[0] != b[0] {
        a[0] < b[0]
    } else {
        lex_le(a.drop_first(), b.drop_first())
    }
}

/// Any two texts stand in order one way or the other.
pub proof fn lemma_lex_total(a: Seq<char>, b: Seq<char>)
    ensures
        lex_le(a, b) || lex_le(b, a),
    decreases a.len(),
{
    if a.len() > 0 && b.len() > 0 && a[0] == b[0] {
        lemma_lex_total(a.drop_first(), b.drop_first());
    }
}

/// Two texts that do not stand behind each other are the same.
pub proof fn lemma_lex_antisymmetric(a: Seq<char>, b: Seq<char>)
    requires
        lex_le(a, b),
        lex_le(b, a),
    ensures
        a == b,
    decreases a.len(),
{
    if a.len() > 0 && b.len() > 0 {
        lemma_lex_antisymmetric(a.drop_first(), b.drop_first());
        assert(a =~= seq![a[0]] + a.drop_first());
        assert(b =~= seq![b[0]] + b.drop_first());
    } else {
        assert(a =~= b);
    }
}

/// The order of texts carries over.
pub proof fn lemma_lex_transitive(a: Seq<char>, b: Seq<char>, c: Seq<char>)
    requires
        lex_le(a, b),
        lex_le(b, c),
    ensures
        lex_le(a, c),
    decreases a.len(),
{
    if a.len() > 0 && b.len() > 0 && c.len() > 0 && a[0] == b[0] && b[0] == c[0] {
        lemma_lex_transitive(a.drop_first(), b.drop_first(), c.drop_first());
    }
}

/// Whether a text does not stand behind another.
pub fn not_after(a: &str, b: &str) -> (r: bool)
    ensures
        r == lex_le(a@, b@),
{
    let x = chars_of(a);
    let y = chars_of(b);
    let mut i: usize = 0;
    assert(a@.skip(0) =~= a@ && b@.skip(0) =~= b@);
    while i < x.len() && i < y.len()
        invariant
            i <= x.len(),
            i <= y.len(),
            x@ == a@,
            y@ == b@,
            lex_le(a@, b@) == lex_le(a@.skip(i as int), b@.skip(i as int)),
        decreases x.len() - i,
    {
        proof {
            assert(a@.skip(i as int)[0] == a@[i as int]);
            assert(b@.skip(i as int)[0] == b@[i as int]);
            assert(a@.skip(i as int).drop_first() =~= a@.skip(i + 1));
            assert(b@.skip(i as int).drop_first() =~= b@.skip(i + 1));
        }
        if x[i] != y[i] {
            return x[i] < y[i];
        }
        i = i + 1;
    }
    i == x.len()
}

/// No text of a list stands before an earlier one.
pub open spec fn in_order(s: Seq<Seq<char>>) -> bool {
    forall|i: int, j: int| 0 <= i < j < s.len() ==> lex_le(#[trigger] s[i], #[trigger] s[j])
}

/// Puts a text at its place in a list that is in order.
pub fn insert_in_order(list: &mut Vec<String>, s: String)
    requires
        in_order(texts(old(list)@)),
    ensures
        in_order(texts(final(list)@)),
        final(list)@.len() == old(list)@.len() + 1,
        texts(final(list)@).to_set() == texts(old(list)@).to_set().insert(s@),
        texts(old(list)@).no_duplicates() && !texts(old(list)@).contains(s@) ==> texts(
            final(list)@,
        ).no_duplicates(),
{
    let ghost before = texts(list@);
    let mut k: usize = 0;
    while k < list.len() && !not_after(s.as_str(), list[k].as_str())
        invariant
            k <= list.len(),
            before == texts(list@),
            forall|i: int| 0 <= i < k ==> !lex_le(s@, #[trigger] before[i]),
        decreases list.len() - k,
    {
        k = k + 1;
    }
    let ghost it = s@;
    list.insert(k, s);
    proof {
        let after = texts(list@);
        assert(after =~= before.insert(k as int, it));
        assert forall|i: int, j: int| 0 <= i < j < after.len() implies lex_le(
            #[trigger] after[i],
            #[trigger] after[j],
        ) by {
            let i0 = if i < k { i } else { i - 1 };
            let j0 = if j < k { j } else { j - 1 };
            if i == k {
                if j0 > k {
                    assert(lex_le(before[k as int], before[j0]));
                    lemma_lex_transitive(it, before[k as int], before[j0]);
                }
            } else if j == k {
                assert(!lex_le(it, before[i]));
                lemma_lex_total(it, before[i]);
            } else {
                assert(lex_le(before[i0], before[j0]));
            }
        }
        assert(after.to_set() =~= before.to_set().insert(it)) by {
            assert forall|x: Seq<char>| before.to_set().insert(it).contains(x) implies after.to_set().contains(
            x) by {
                if x == it {
                    assert(after[k as int] == it);
                } else {
                    let i = choose|i: int| 0 <= i < before.len() && before[i] == x;
                    assert(after[if i < k { i } else { i + 1 }] == x);
                }
            }
            assert forall|x: Seq<char>| after.to_set().contains(x) implies before.to_set().insert(it).contains(
            x) by {
                let i = choose|i: int| 0 <= i < after.len() && after[i] == x;
                if i != k {
                    assert(before[if i < k { i } else { i - 1 }] == x);
                }
            }
        }
        if before.no_duplicates() && !before.contains(it) {
            assert forall|i: int, j: int| 0 <= i < after.len() && 0 <= j < after.len() && i != j implies after[i]
                != after[j] by {
                let i0 = if i < k { i } else { i - 1 };
                let j0 = if j < k { j } else { j - 1 };
                if i == k {
                    assert(before.contains(before[j0]));
                } else if j == k {
                    assert(before.contains(before[i0]));
                } else {
                    assert(before[i0] != before[j0]);
                }
            }
        }
    }
}

// ── Numbers with a fraction ─────────────────────────────────────────────

/// Where the digits that start at `i` end.
pub open spec fn digits_end(s: Seq<char>, i: int) -> int
    decreases s.len() - i,
{
    if 0 <= i < s.len() && '0' <= s[i] <= '9' {
        digits_end(s, i + 1)
    } else {
        i
    }
}

/// Where a sign that may stand at `i` ends.
pub open spec fn sign_end(s: Seq<char>, i: int) -> int {
    if 0 <= i < s.len() && (s[i] == '+' || s[i] == '-') {
        i + 1
    } else {
        i
    }
}

/// Whether nothing, or an exponent, stands from `i` to the end.
pub open spec fn exponent_or_end(s: Seq<char>, i: int) -> bool {
    i == s.len() || {
        let digits = sign_end(s, i + 1);
        0 <= i < s.len() && (s[i] == 'e' || s[i] == 'E') && digits < s.len() && digits_end(
            s,
            digits,
        ) == s.len()
    }
}

/// Whether digits, with a point among or around them, and an exponent stand from `i` to the end.
pub open spec fn number_from(s: Seq<char>, i: int) -> bool {
    let whole = digits_end(s, i);
    if whole < s.len() && s[whole] == '.' {
        let end = digits_end(s, whole + 1);
        (whole > i || end > whole + 1) && exponent_or_end(s, end)
    } else {
        whole > i && exponent_or_end(s, whole)
    }
}

/// Whether a text spells a number: a sign or none, then `inf`, `infinity` or `nan` in any case, or
/// digits with a point or none and an exponent or none.
pub open spec fn spells_number(s: Seq<char>) -> bool {
    let i = sign_end(s, 0);
    let word = ascii_lower(s.skip(i));
    word == "inf"@ || word == "infinity"@ || word == "nan"@ || number_from(s, i)
}

fn skip_digits(chars: &Vec<char>, from: usize) -> (r: usize)
    requires
        from <= chars.len(),
    ensures
        r == digits_end(chars@, from as int),
        from <= r <= chars.len(),
{
    let mut i: usize = from;
    while i < chars.len() && '0' <= chars[i] && chars[i] <= '9'
        invariant
            from <= i <= chars.len(),
            digits_end(chars@, from as int) == digits_end(chars@, i as int),
        decreases chars.len() - i,
    {
        i = i + 1;
    }
    i
}

fn skip_sign(chars: &Vec<char>, from: usize) -> (r: usize)
    requires
        from <= chars.len(),
    ensures
        r == sign_end(chars@, from as int),
        from <= r <= chars.len(),
{
    if from < chars.len() && (chars[from] == '+' || chars[from] == '-') {
        from + 1
    } else {
        from
    }
}

fn ends_with_exponent(chars: &Vec<char>, from: usize) -> (r: bool)
    requires
        from <= chars.len(),
    ensures
        r == exponent_or_end(chars@, from as int),
{
    if from == chars.len() {
        return true;
    }
    if chars[from] != 'e' && chars[from] != 'E' {
        return false;
    }
    let digits: usize = skip_sign(chars, from + 1);
    digits < chars.len() && skip_digits(chars, digits) == chars.len()
}

/// Whether a text spells a number.
pub fn is_number(s: &str) -> (r: bool)
    ensures
        r == spells_number(s@),
{
    let chars = chars_of(s);
    let start: usize = skip_sign(&chars, 0);
    let rest = string_of(&chars, start, chars.len());
    assert(chars@.subrange(start as int, chars@.len() as int) =~= s@.skip(start as int));
    let word = lower_ascii(rest.as_str());
    if same(word.as_str(), "inf") || same(word.as_str(), "infinity") || same(
        word.as_str(),
        "nan",
    ) {
        return true;
    }
    let whole: usize = skip_digits(&chars, start);
    if whole < chars.len() && chars[whole] == '.' {
        let end: usize = skip_digits(&chars, whole + 1);
        (whole > start || end > whole + 1) && ends_with_exponent(&chars, end)
    } else {
        whole > start && ends_with_exponent(&chars, whole)
    }
}

// ── Laws ────────────────────────────────────────────────────────────────

/// What stands between two texts stands in the whole.
pub proof fn lemma_infix(a: Seq<char>, b: Seq<char>, c: Seq<char>)
    ensures
        has_infix(a + b + c, b),
        has_infix(a + b, b),
        has_infix(b + c, b),
{
    assert((a + b + c).subrange(a.len() as int, (a.len() + b.len()) as int) =~= b);
    assert(occurs_at(a + b + c, b, a.len() as int));
    assert((a + b).subrange(a.len() as int, (a.len() + b.len()) as int) =~= b);
    assert(occurs_at(a + b, b, a.len() as int));
    assert((b + c).subrange(0, b.len() as int) =~= b);
    assert(occurs_at(b + c, b, 0));
}

/// What stands in a part stands in the whole.
pub proof fn lemma_infix_of_infix(s: Seq<char>, m: Seq<char>, p: Seq<char>)
    requires
        has_infix(s, m),
        has_infix(m, p),
    ensures
        has_infix(s, p),
{
    let i = choose|i: int| occurs_at(s, m, i);
    let k = choose|k: int| occurs_at(m, p, k);
    assert(s.subrange(i + k, i + k + p.len()) =~= m.subrange(k, k + p.len()));
    assert(occurs_at(s, p, i + k));
}

/// Joining loses no text: each stands in what the texts are joined to.
pub proof fn law_joined_text_holds_each_part(parts: Seq<Seq<char>>, sep: Seq<char>, k: int)
    requires
        0 <= k < parts.len(),
    ensures
        has_infix(joined(parts, sep), parts[k]),
    decreases parts.len(),
{
    if parts.len() == 1 {
        lemma_infix(seq![], parts[0], seq![]);
        assert(Seq::<char>::empty() + parts[0] =~= parts[0]);
    } else {
        let front = joined(parts.drop_last(), sep);
        if k == parts.len() - 1 {
            lemma_infix(front + sep, parts[k], seq![]);
        } else {
            law_joined_text_holds_each_part(parts.drop_last(), sep, k);
            lemma_infix(seq![], front, sep + parts.last());
            assert(front + (sep + parts.last()) =~= joined(parts, sep));
            lemma_infix_of_infix(joined(parts, sep), front, parts[k]);
        }
    }
}

/// Joining puts the separator between each two texts, and adds nothing else.
pub proof fn law_separator_stands_between_each_two(
    parts: Seq<Seq<char>>,
    sep: Seq<char>,
    more: Seq<char>,
)
    ensures
        joined(Seq::<Seq<char>>::empty(), sep) == Seq::<char>::empty(),
        joined(seq![more], sep) == more,
        parts.len() > 0 ==> joined(parts.push(more), sep) == joined(parts, sep) + sep + more,
{
    assert(parts.push(more).drop_last() =~= parts);
}

proof fn lemma_trimmed_start(s: Seq<char>) -> (n: int)
    ensures
        0 <= n <= s.len(),
        trimmed_start(s) == s.skip(n),
        forall|i: int| 0 <= i < n ==> is_space(#[trigger] s[i]),
        n < s.len() ==> !is_space(s[n]),
    decreases s.len(),
{
    if s.len() > 0 && is_space(s[0]) {
        let m = lemma_trimmed_start(s.skip(1));
        assert(s.skip(1).skip(m) =~= s.skip(m + 1));
        assert forall|i: int| 0 <= i < m + 1 implies is_space(#[trigger] s[i]) by {
            if i > 0 {
                assert(s.skip(1)[i - 1] == s[i]);
            }
        }
        m + 1
    } else {
        assert(s.skip(0) =~= s);
        0
    }
}

proof fn lemma_trimmed_end(s: Seq<char>) -> (n: int)
    ensures
        0 <= n <= s.len(),
        trimmed_end(s) == s.take(n),
        forall|i: int| n <= i < s.len() ==> is_space(#[trigger] s[i]),
        n > 0 ==> !is_space(s[n - 1]),
    decreases s.len(),
{
    if s.len() > 0 && is_space(s.last()) {
        let m = lemma_trimmed_end(s.drop_last());
        assert(s.drop_last().take(m) =~= s.take(m));
        assert forall|i: int| m <= i < s.len() implies is_space(#[trigger] s[i]) by {
            if i < s.len() - 1 {
                assert(s.drop_last()[i] == s[i]);
            }
        }
        m
    } else {
        assert(s.take(s.len() as int) =~= s);
        s.len() as int
    }
}

/// Trimming takes white space off both ends and nothing else: what it leaves stands in the text,
/// has no white space at either end, and only white space stands around it.
pub proof fn law_trimming_takes_only_space(s: Seq<char>) -> (at: int)
    ensures
        0 <= at <= at + trimmed(s).len() <= s.len(),
        trimmed(s) == s.subrange(at, at + trimmed(s).len()),
        forall|i: int| 0 <= i < at ==> is_space(#[trigger] s[i]),
        forall|i: int| at + trimmed(s).len() <= i < s.len() ==> is_space(#[trigger] s[i]),
        trimmed(s).len() > 0 ==> !is_space(trimmed(s)[0]) && !is_space(trimmed(s).last()),
{
    let n = lemma_trimmed_start(s);
    let t = s.skip(n);
    let m = lemma_trimmed_end(t);
    assert(t.take(m) =~= s.subrange(n, n + m));
    assert forall|i: int| n + m <= i < s.len() implies is_space(#[trigger] s[i]) by {
        assert(t[i - n] == s[i]);
    }
    if m > 0 {
        assert(t[m - 1] == s[n + m - 1]);
    }
    n
}

/// A text is blank only where all of it is white space.
pub proof fn law_blank_text_is_all_space(s: Seq<char>, i: int)
    requires
        0 <= i < s.len(),
        !is_space(s[i]),
    ensures
        trimmed(s).len() > 0,
{
    let _ = law_trimming_takes_only_space(s);
}

/// Replacing treats a text character by character.
pub proof fn law_replacing_goes_by_characters(a: Seq<char>, b: Seq<char>, c: char, by: Seq<char>)
    ensures
        replaced(a + b, c, by) == replaced(a, c, by) + replaced(b, c, by),
        replaced(seq![c], c, by) == by,
        forall|d: char| d != c ==> #[trigger] replaced(seq![d], c, by) == seq![d],
    decreases b.len(),
{
    reveal_with_fuel(replaced, 2);
    assert(seq![c].drop_last() =~= seq![]);
    assert(replaced(seq![c], c, by) =~= by);
    assert forall|d: char| d != c implies #[trigger] replaced(seq![d], c, by) == seq![d] by {
        assert(seq![d].drop_last() =~= seq![]);
        assert(replaced(seq![d], c, by) =~= seq![d]);
    }
    if b.len() == 0 {
        assert(a + b =~= a);
        assert(replaced(a, c, by) + replaced(b, c, by) =~= replaced(a, c, by));
    } else {
        law_replacing_goes_by_characters(a, b.drop_last(), c, by);
        assert((a + b).drop_last() =~= a + b.drop_last());
        assert((a + b).last() == b.last());
        assert(replaced(a + b, c, by) =~= replaced(a, c, by) + replaced(b, c, by));
    }
}

/// Whether a list ends with another.
pub open spec fn is_suffix_of_list(all: Seq<Seq<char>>, end: Seq<Seq<char>>) -> bool {
    end.len() <= all.len() && all.subrange(all.len() - end.len(), all.len() as int) == end
}

/// A text falls into its lines: each line feed ends one, and a carriage return before it goes with
/// it.
pub proof fn law_line_feed_ends_a_line(line: Seq<char>, rest: Seq<char>)
    requires
        !line.contains('\n'),
    ensures
        lines(line + seq!['\n'] + rest) == seq![without_cr(line)] + lines(rest),
        line.len() > 0 ==> lines(line) == seq![line],
        line.len() > 0 && line.last() != '\r' ==> without_cr(line) == line,
        without_cr(line.push('\r')) == line,
{
    let s = line + seq!['\n'] + rest;
    let n = line.len() as int;
    lemma_next_feed(s, 0);
    assert(s[n] == '\n');
    let i = next_feed(s, 0)->0;
    if i < n {
        assert(line[i] == '\n');
    }
    if i > n {
        assert(s[n] != '\n');
    }
    assert(s.take(n) =~= line);
    assert(s.skip(n + 1) =~= rest);
    if line.len() > 0 {
        lemma_next_feed(line, 0);
        if let Some(k) = next_feed(line, 0) {
            assert(line[k] == '\n');
        }
    }
    assert(line.push('\r').drop_last() =~= line);
}

/// A number is written with its sign and read back as it was.
pub proof fn law_signed_number_is_read_back(n: i64)
    ensures
        parsed_i64(decimal_int(n as int)) == Some(n as int),
        n < 0 ==> decimal_int(n as int)[0] == '-',
{
    if n < 0 {
        let m = (-(n as int)) as nat;
        lemma_decimal_digits(m);
        let s = decimal_int(n as int);
        assert(s.drop_first() =~= decimal(m));
    } else {
        lemma_decimal_digits(n as nat);
        law_decimal_is_read_back(n as u64);
        let s = decimal(n as nat);
        assert(is_digit(s[0]));
    }
}

/// A beginning is all of a short text, and of a long one as much as was asked for.
pub proof fn law_beginning_is_as_long_as_asked(s: Seq<char>, n: nat)
    ensures
        s.len() <= n ==> beginning(s, n) == s,
        s.len() > n ==> beginning(s, n).len() == n && has_prefix(s, beginning(s, n)),
{
    if s.len() > n {
        assert(s.subrange(0, n as int) =~= s.take(n as int));
    }
}

/// Lower case is what the letters of the alphabet become, and nothing else changes.
pub proof fn law_lower_case_changes_capitals_only(s: Seq<char>, i: int)
    requires
        0 <= i < s.len(),
    ensures
        ascii_lower(s).len() == s.len(),
        !('A' <= s[i] <= 'Z') ==> ascii_lower(s)[i] == s[i],
        'A' <= s[i] <= 'Z' ==> ascii_lower(s)[i] as int == s[i] as int + 32,
        ascii_lower(ascii_lower(s)) == ascii_lower(s),
{
    assert(ascii_lower(ascii_lower(s)) =~= ascii_lower(s));
}

/// What stands before a mark is all up to its first place.
pub proof fn law_what_stands_before_a_mark(s: Seq<char>, p: Seq<char>)
    ensures
        has_prefix(s, before_first(s, p)),
        has_infix(s, p) ==> occurs_at(s, p, before_first(s, p).len() as int),
        !has_infix(s, p) ==> before_first(s, p) == s,
{
    lemma_find_from(s, p, 0);
    match find(s, p) {
        Some(i) => {
            assert(s.subrange(0, i) =~= s.take(i));
            assert(occurs_at(s, p, i));
        },
        None => {
            assert(s.subrange(0, s.len() as int) =~= s);
        },
    }
}

/// A suffix is taken off as often as it stands there.
pub proof fn law_suffixes_are_all_taken_off(s: Seq<char>, p: Seq<char>)
    requires
        p.len() > 0,
    ensures
        !has_suffix(without_suffixes(s, p), p),
        without_suffixes(s + p, p) == without_suffixes(s, p),
        has_prefix(s, without_suffixes(s, p)),
    decreases s.len(),
{
    let t = s + p;
    assert(t.subrange(t.len() - p.len(), t.len() as int) =~= p);
    assert(t.take(t.len() - p.len()) =~= s);
    if has_suffix(s, p) {
        let u = s.take(s.len() - p.len());
        law_suffixes_are_all_taken_off(u, p);
        let w = without_suffixes(u, p);
        assert(s.subrange(0, w.len() as int) =~= u.subrange(0, w.len() as int));
    } else {
        assert(s.subrange(0, s.len() as int) =~= s);
    }
}

/// Texts are ordered by their first difference, and a beginning comes before its whole.
pub proof fn law_order_goes_by_the_first_difference(a: Seq<char>, b: Seq<char>, rest: Seq<char>)
    ensures
        lex_le(a, a + rest),
        a.len() > 0 && b.len() > 0 && a[0] < b[0] ==> lex_le(a, b) && !lex_le(b, a),
        rest.len() > 0 ==> !lex_le(a + rest, a),
    decreases a.len(),
{
    if a.len() > 0 {
        law_order_goes_by_the_first_difference(a.drop_first(), b, rest);
        assert((a + rest).drop_first() =~= a.drop_first() + rest);
    }
}

/// A row of digits spells a number, with a sign or without; nothing at all does not.
pub proof fn law_digits_spell_a_number(s: Seq<char>)
    requires
        s.len() > 0,
        forall|k: int| 0 <= k < s.len() ==> is_digit(#[trigger] s[k]),
    ensures
        spells_number(s),
        spells_number(seq!['-'] + s),
        !spells_number(Seq::empty()),
{
    assert(is_digit(s[0]));
    lemma_digits_behind(s, 0);
    let t = seq!['-'] + s;
    lemma_digits_behind(t, 1);
    reveal_strlit("inf");
    reveal_strlit("infinity");
    reveal_strlit("nan");
    assert(Seq::<char>::empty().skip(0).len() == 0);
    assert("inf"@.len() == 3 && "infinity"@.len() == 8 && "nan"@.len() == 3);
}

proof fn lemma_digits_behind(s: Seq<char>, i: int)
    requires
        0 <= i <= s.len(),
        forall|k: int| i <= k < s.len() ==> is_digit(#[trigger] s[k]),
    ensures
        digits_end(s, i) == s.len(),
    decreases s.len() - i,
{
    if i < s.len() {
        assert(is_digit(s[i]));
        lemma_digits_behind(s, i + 1);
    }
}

} // verus!
