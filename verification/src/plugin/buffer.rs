//! Writes that are kept until memory can be reached.

use vstd::prelude::*;
use vstd::string::*;

use crate::paths;
use crate::paths::join_path;
use crate::plugin::config;
use crate::plugin::config::state_dir;
use crate::text;
use crate::text::join;
use crate::text::lines_of;

verus! {

/// How many writes a buffer is meant to hold.
pub const MAX_ENTRIES: usize = 1000;

/// How large a buffer may grow before its older half is dropped.
pub const MAX_BYTES: u64 = 104_857_600;

/// Where an agent instance keeps the writes that are pending.
pub open spec fn pending_path(home: Option<Seq<char>>, agent_name: Seq<char>) -> Seq<char> {
    paths::joined_path(
        paths::joined_path(config::state_path(home, agent_name), "buffer"@),
        "pending.jsonl"@,
    )
}

/// Where an agent instance keeps the writes that are pending.
pub fn buffer_file(home: Option<&str>, agent_name: &str) -> (r: String)
    ensures
        r@ == pending_path(text::opt_slice(home), agent_name@),
{
    let state = state_dir(home, agent_name);
    let dir = join_path(state.as_str(), "buffer");
    join_path(dir.as_str(), "pending.jsonl")
}

/// Whether a buffer of a size must shrink before it grows.
pub fn is_full(bytes: u64) -> (r: bool)
    ensures
        r == (bytes >= MAX_BYTES),
{
    bytes >= MAX_BYTES
}

/// Lines as a file holds them.
pub open spec fn file_of(lines: Seq<Seq<char>>) -> Seq<char> {
    text::joined(lines, "\n"@) + "\n"@
}

/// What is kept of a buffer that must shrink: the newer half of its lines. A buffer with few lines
/// stays as it is.
pub open spec fn shrunk(content: Seq<char>) -> Option<Seq<char>> {
    let lines = text::lines(content);
    if lines.len() <= MAX_ENTRIES / 2 {
        None
    } else {
        Some(file_of(lines.skip((lines.len() / 2) as int)))
    }
}

/// What is kept of a buffer that must shrink.
pub fn truncate_buffer(content: &str) -> (r: Option<String>)
    ensures
        text::opt_text(r) == shrunk(content@),
{
    let lines = lines_of(content);
    let ghost all = text::texts(lines@);
    if lines.len() <= MAX_ENTRIES / 2 {
        return None;
    }
    let mut kept: Vec<String> = Vec::new();
    let half: usize = lines.len() / 2;
    let mut i: usize = half;
    while i < lines.len()
        invariant
            half <= i <= lines.len(),
            kept@ == lines@.subrange(half as int, i as int),
        decreases lines.len() - i,
    {
        kept.push(lines[i].clone());
        assert(kept@ =~= lines@.subrange(half as int, i + 1));
        i = i + 1;
    }
    assert(text::texts(kept@) =~= all.skip(half as int));
    let mut out = join(kept.as_slice(), "\n");
    out.append("\n");
    Some(out)
}

/// The lines of a text that hold something.
pub open spec fn filled(lines: Seq<Seq<char>>) -> Seq<Seq<char>> {
    lines.filter(|line: Seq<char>| line.len() > 0)
}

/// The writes that a buffer holds.
pub fn pending(content: &str) -> (r: Vec<String>)
    ensures
        text::texts(r@) == filled(text::lines(content@)),
{
    let lines = lines_of(content);
    let ghost all = text::texts(lines@);
    let ghost keep = |line: Seq<char>| line.len() > 0;
    let mut out: Vec<String> = Vec::new();
    let mut i: usize = 0;
    assert(all.take(0).filter(keep) =~= seq![]) by {
        reveal(Seq::filter);
    }
    assert(text::texts(out@) =~= seq![]);
    while i < lines.len()
        invariant
            i <= lines.len(),
            all == text::texts(lines@),
            keep == (|line: Seq<char>| line.len() > 0),
            text::texts(out@) == all.take(i as int).filter(keep),
        decreases lines.len() - i,
    {
        let ghost before = text::texts(out@);
        assert(all.take(i + 1).drop_last() =~= all.take(i as int));
        assert(all.take(i + 1).last() == lines@[i as int]@);
        if lines[i].as_str().unicode_len() > 0 {
            out.push(lines[i].clone());
            assert(text::texts(out@) =~= before.push(lines@[i as int]@));
        }
        assert(text::texts(out@) == all.take(i + 1).filter(keep)) by {
            reveal(Seq::filter);
        }
        i = i + 1;
    }
    assert(all.take(i as int) =~= all);
    out
}

/// What became of the writes that were sent again.
#[derive(Debug)]
pub struct Replay {
    /// How many arrived.
    pub succeeded: usize,
    /// Those that did not, in order.
    pub failed: Vec<String>,
}

impl Replay {
    pub fn new() -> (r: Replay)
        ensures
            r.succeeded == 0,
            r.failed@ == Seq::<String>::empty(),
    {
        Replay { succeeded: 0, failed: Vec::new() }
    }

    /// Notes what became of a write.
    pub fn on_sent(&mut self, line: String, arrived: bool)
        requires
            old(self).succeeded < usize::MAX,
        ensures
            final(self).succeeded == old(self).succeeded + (if arrived {
                1int
            } else {
                0
            }),
            final(self).failed@ == (if arrived {
                old(self).failed@
            } else {
                old(self).failed@.push(line)
            }),
    {
        if arrived {
            self.succeeded = self.succeeded + 1;
        } else {
            self.failed.push(line);
        }
    }

    /// What the buffer holds afterwards: the writes that did not arrive. There is no buffer where
    /// there are none.
    pub fn finish(&self) -> (r: Option<String>)
        ensures
            text::opt_text(r) == (if self.failed@.len() == 0 {
                None
            } else {
                Some(file_of(text::texts(self.failed@)))
            }),
    {
        if self.failed.len() == 0 {
            return None;
        }
        let mut out = join(self.failed.as_slice(), "\n");
        out.append("\n");
        Some(out)
    }
}

/// A text that a file can hold as one line.
pub open spec fn is_line(s: Seq<char>) -> bool {
    s.len() > 0 && !s.contains('\n') && s.last() != '\r'
}

proof fn lemma_file_first(lines: Seq<Seq<char>>)
    requires
        lines.len() > 0,
    ensures
        file_of(lines) == lines[0] + "\n"@ + (if lines.len() == 1 {
            seq![]
        } else {
            file_of(lines.drop_first())
        }),
    decreases lines.len(),
{
    if lines.len() == 1 {
        assert(file_of(lines) =~= lines[0] + "\n"@ + Seq::<char>::empty());
    } else {
        lemma_file_first(lines.drop_last());
        let front = lines.drop_last();
        let rest = lines.drop_first();
        assert(rest.drop_last() =~= front.drop_first());
        assert(rest.last() == lines.last());
        if lines.len() == 2 {
            assert(rest =~= seq![lines[1]]);
            assert(file_of(lines) =~= lines[0] + "\n"@ + file_of(rest));
        } else {
            assert(file_of(front) == lines[0] + "\n"@ + file_of(front.drop_first()));
            assert(file_of(lines) =~= file_of(front) + lines.last() + "\n"@);
            assert(file_of(rest) =~= file_of(rest.drop_last()) + rest.last() + "\n"@);
            assert(file_of(lines) =~= lines[0] + "\n"@ + file_of(rest));
        }
    }
}

proof fn lemma_line_comes_first(line: Seq<char>, rest: Seq<char>)
    requires
        is_line(line),
    ensures
        text::lines(line + "\n"@ + rest) == seq![line] + text::lines(rest),
{
    reveal_strlit("\n");
    let s = line + "\n"@ + rest;
    text::lemma_next_feed(s, 0);
    assert(s[line.len() as int] == '\n');
    match text::next_feed(s, 0) {
        Some(i) => {
            if i < line.len() {
                assert(s[i] == line[i]);
                assert(line.contains('\n'));
            }
            if i > line.len() {
                assert(s[line.len() as int] != '\n');
            }
            assert(i == line.len());
            assert(s.take(i) =~= line);
            assert(s.skip(i + 1) =~= rest);
        },
        None => {
            assert(s[line.len() as int] != '\n');
        },
    }
}

proof fn lemma_lines_of_file(lines: Seq<Seq<char>>)
    requires
        lines.len() > 0,
        forall|i: int| 0 <= i < lines.len() ==> is_line(#[trigger] lines[i]),
    ensures
        text::lines(file_of(lines)) == lines,
    decreases lines.len(),
{
    lemma_file_first(lines);
    let rest = lines.drop_first();
    if lines.len() == 1 {
        lemma_line_comes_first(lines[0], seq![]);
        assert(text::lines(Seq::<char>::empty()) =~= seq![]);
        assert(seq![lines[0]] + Seq::<Seq<char>>::empty() =~= lines);
    } else {
        assert forall|i: int| 0 <= i < rest.len() implies is_line(#[trigger] rest[i]) by {
            assert(rest[i] == lines[i + 1]);
        }
        lemma_lines_of_file(rest);
        lemma_line_comes_first(lines[0], file_of(rest));
        assert(seq![lines[0]] + rest =~= lines);
    }
}

proof fn lemma_all_filled(lines: Seq<Seq<char>>)
    requires
        forall|i: int| 0 <= i < lines.len() ==> (#[trigger] lines[i]).len() > 0,
    ensures
        filled(lines) == lines,
    decreases lines.len(),
{
    reveal(Seq::filter);
    if lines.len() > 0 {
        lemma_all_filled(lines.drop_last());
        assert(lines.drop_last().push(lines.last()) =~= lines);
    }
}

/// A write that did not arrive is not lost: the buffer that a replay leaves holds the same writes,
/// in the same order, when it is read again.
pub proof fn law_failed_writes_are_kept(lines: Seq<Seq<char>>)
    requires
        lines.len() > 0,
        forall|i: int| 0 <= i < lines.len() ==> is_line(#[trigger] lines[i]),
    ensures
        filled(text::lines(file_of(lines))) == lines,
{
    lemma_lines_of_file(lines);
    assert forall|i: int| 0 <= i < lines.len() implies (#[trigger] lines[i]).len() > 0 by {
        assert(is_line(lines[i]));
    }
    lemma_all_filled(lines);
}

/// A buffer that must shrink keeps its newer half, in order: the last write is always kept.
pub proof fn law_newer_writes_are_kept(lines: Seq<Seq<char>>)
    requires
        lines.len() > 500,
        forall|i: int| 0 <= i < lines.len() ==> is_line(#[trigger] lines[i]),
    ensures
        shrunk(file_of(lines)) matches Some(kept) && {
            let left = filled(text::lines(kept));
            &&& left == lines.skip((lines.len() / 2) as int)
            &&& left.len() > 0 && left.last() == lines.last()
        },
{
    lemma_lines_of_file(lines);
    let half = lines.skip((lines.len() / 2) as int);
    assert forall|i: int| 0 <= i < half.len() implies is_line(#[trigger] half[i]) by {
        assert(half[i] == lines[i + lines.len() / 2]);
    }
    law_failed_writes_are_kept(half);
}

/// Few writes are all kept.
pub proof fn law_few_writes_are_all_kept(content: Seq<char>)
    ensures
        text::lines(content).len() <= 500 ==> shrunk(content) is None,
        text::lines(content).len() > 500 ==> shrunk(content) is Some,
{
}

} // verus!
