//! Files that an agent reads and keeps.

use vstd::prelude::*;
use vstd::set_lib::*;
use vstd::string::*;

use crate::agent::config::AgentConfig;
use crate::agent::prompts;
use crate::paths;
use crate::paths::join_path;
use crate::plugin::config;
use crate::plugin::config::state_dir;
use crate::text;
use crate::text::ends_with;
use crate::text::same;
use crate::text::starts_with;

verus! {

// ── Prompts ─────────────────────────────────────────────────────────────

/// How many directories above a place are searched for prompts.
pub const MAX_ANCESTORS: usize = 3;

/// Texts without those that came before.
pub open spec fn distinct(list: Seq<Seq<char>>) -> Seq<Seq<char>>
    decreases list.len(),
{
    if list.len() == 0 {
        seq![]
    } else {
        let before = distinct(list.drop_last());
        if before.contains(list.last()) {
            before
        } else {
            before.push(list.last())
        }
    }
}

/// The first few of a list.
pub open spec fn first_few(list: Seq<Seq<char>>) -> Seq<Seq<char>> {
    if list.len() > MAX_ANCESTORS {
        list.take(MAX_ANCESTORS as int)
    } else {
        list
    }
}

fn add_distinct(out: &mut Vec<String>, root: &str, Ghost(all): Ghost<Seq<Seq<char>>>)
    requires
        text::texts(old(out)@) == distinct(all),
    ensures
        text::texts(final(out)@) == distinct(all.push(root@)),
{
    assert(all.push(root@).drop_last() =~= all);
    let mut i: usize = 0;
    while i < out.len()
        invariant
            i <= out.len(),
            out@ == old(out)@,
            text::texts(out@) == distinct(all),
            all.push(root@).drop_last() == all,
            forall|k: int| 0 <= k < i ==> (#[trigger] out@[k])@ != root@,
        decreases out.len() - i,
    {
        if same(out[i].as_str(), root) {
            assert(text::texts(out@)[i as int] == root@);
            return ;
        }
        i = i + 1;
    }
    assert(!text::texts(out@).contains(root@)) by {
        if text::texts(out@).contains(root@) {
            let k = choose|k: int| 0 <= k < out@.len() && text::texts(out@)[k] == root@;
            assert(out@[k]@ == root@);
        }
    }
    out.push(root.to_owned());
    assert(text::texts(out@) =~= distinct(all).push(root@));
}

/// Where prompts are searched for: in the project, then around the program, then around the
/// working directory. `above_program` and `above_cwd` are the directories from there up.
pub fn prompt_search_roots(project: &str, above_program: &[String], above_cwd: &[String]) -> (r: Vec<
    String,
>)
    ensures
        text::texts(r@) == distinct(
            seq![project@] + first_few(text::texts(above_program@)) + first_few(
                text::texts(above_cwd@),
            ),
        ),
{
    let mut out: Vec<String> = Vec::new();
    let ghost mut all = Seq::<Seq<char>>::empty();
    assert(text::texts(out@) =~= distinct(all));
    add_distinct(&mut out, project, Ghost(all));
    proof {
        all = all.push(project@);
    }
    let ghost start = all;
    let mut i: usize = 0;
    let ghost few = first_few(text::texts(above_program@));
    assert(few.take(0) =~= seq![]);
    while i < above_program.len() && i < MAX_ANCESTORS
        invariant
            i <= above_program.len(),
            i <= MAX_ANCESTORS,
            few == first_few(text::texts(above_program@)),
            all == start + few.take(i as int),
            text::texts(out@) == distinct(all),
        decreases above_program.len() - i,
    {
        assert(few[i as int] == above_program@[i as int]@);
        add_distinct(&mut out, above_program[i].as_str(), Ghost(all));
        proof {
            all = all.push(above_program@[i as int]@);
            assert(all =~= start + few.take(i + 1));
        }
        i = i + 1;
    }
    assert(few.take(i as int) =~= few);
    let ghost middle = all;
    let ghost more = first_few(text::texts(above_cwd@));
    assert(more.take(0) =~= seq![]);
    let mut j: usize = 0;
    while j < above_cwd.len() && j < MAX_ANCESTORS
        invariant
            j <= above_cwd.len(),
            j <= MAX_ANCESTORS,
            more == first_few(text::texts(above_cwd@)),
            all == middle + more.take(j as int),
            text::texts(out@) == distinct(all),
        decreases above_cwd.len() - j,
    {
        assert(more[j as int] == above_cwd@[j as int]@);
        add_distinct(&mut out, above_cwd[j].as_str(), Ghost(all));
        proof {
            all = all.push(above_cwd@[j as int]@);
            assert(all =~= middle + more.take(j + 1));
        }
        j = j + 1;
    }
    assert(more.take(j as int) =~= more);
    assert(all =~= seq![project@] + few + more);
    out
}

/// Where a prompt stands under a root.
pub open spec fn prompt_under(root: Seq<char>, name: Seq<char>) -> Seq<char> {
    paths::joined_path(
        root,
        paths::joined_path(
            paths::joined_path(paths::joined_path("src"@, "agent"@), "prompts"@),
            name,
        ),
    )
}

/// Where a prompt stands under a root.
pub fn prompt_candidate(root: &str, name: &str) -> (r: String)
    ensures
        r@ == prompt_under(root@, name@),
{
    let agent = join_path("src", "agent");
    let dir = join_path(agent.as_str(), "prompts");
    let relative = join_path(dir.as_str(), name);
    join_path(root, relative.as_str())
}

/// Where a prompt stands: under the first root that has it. Each root comes with whether it does.
pub fn prompt_file_path(name: &str, roots: &[(String, bool)]) -> (r: Option<String>)
    ensures
        text::opt_text(r) == (match config::first_root(roots@) {
            Some(root) => Some(prompt_under(root, name@)),
            None => None,
        }),
{
    match config::find_git_root(roots) {
        Some(root) => Some(prompt_candidate(root.as_str(), name)),
        None => None,
    }
}

/// Where prompts are written that stand nowhere.
pub open spec fn runtime_dir(cache: Option<Seq<char>>, home: Option<Seq<char>>) -> Seq<char> {
    paths::joined_path(
        paths::joined_path(
            match (cache, home) {
                (Some(c), _) => c,
                (None, Some(h)) => paths::joined_path(h, ".cache"@),
                (None, None) => "/tmp"@,
            },
            "gosh-agent"@,
        ),
        "prompts"@,
    )
}

/// Where prompts are written that stand nowhere.
pub fn prompt_runtime_dir(cache: Option<&str>, home: Option<&str>) -> (r: String)
    ensures
        r@ == runtime_dir(text::opt_slice(cache), text::opt_slice(home)),
{
    let root = match cache {
        Some(c) => c.to_owned(),
        None => match home {
            Some(h) => join_path(h, ".cache"),
            None => "/tmp".to_owned(),
        },
    };
    let dir = join_path(root.as_str(), "gosh-agent");
    join_path(dir.as_str(), "prompts")
}

/// A text without the ends of lines at its end.
pub open spec fn without_line_ends(s: Seq<char>) -> Seq<char>
    decreases s.len(),
{
    if s.len() > 0 && (s.last() == '\r' || s.last() == '\n') {
        without_line_ends(s.drop_last())
    } else {
        s
    }
}

/// The prompt that a file holds.
pub fn prompt_text(content: &str) -> (r: String)
    ensures
        r@ == without_line_ends(content@),
{
    let chars = text::chars_of(content);
    let mut end: usize = chars.len();
    assert(content@.take(end as int) =~= content@);
    while end > 0 && (chars[end - 1] == '\r' || chars[end - 1] == '\n')
        invariant
            end <= chars.len(),
            chars@ == content@,
            without_line_ends(content@) == without_line_ends(content@.take(end as int)),
        decreases end,
    {
        assert(content@.take(end as int).drop_last() =~= content@.take(end - 1));
        end = end - 1;
    }
    assert(chars@.subrange(0, end as int) =~= content@.take(end as int));
    text::string_of(&chars, 0, end)
}

/// The prompt that comes with the program, by the name of its file.
pub open spec fn bundled(name: Seq<char>) -> Option<Seq<char>> {
    if name == "execution_system.txt"@ {
        Some(prompts::EXECUTION_PROMPT@)
    } else if name == "review.txt"@ {
        Some(prompts::review_text())
    } else {
        None
    }
}

/// The prompt that comes with the program, by the name of its file.
pub fn prompt_asset(name: &str) -> (r: Option<String>)
    ensures
        text::opt_text(r) == bundled(name@),
{
    if same(name, "execution_system.txt") {
        Some(prompts::EXECUTION_PROMPT.to_owned())
    } else if same(name, "review.txt") {
        Some(prompts::review_prompt())
    } else {
        None
    }
}

// ── Records of failures ─────────────────────────────────────────────────

/// Where an agent keeps the records of its failures.
pub fn local_failure_artifact_dir(cfg: &AgentConfig, home: Option<&str>, agent_id: &str) -> (r: String)
    ensures
        r@ == (match cfg.local_failure_artifact_dir {
            Some(dir) => dir@,
            None => paths::joined_path(
                config::state_path(text::opt_slice(home), agent_id@),
                "failures"@,
            ),
        }),
{
    match &cfg.local_failure_artifact_dir {
        Some(dir) => dir.clone(),
        None => join_path(state_dir(home, agent_id).as_str(), "failures"),
    }
}

/// Whether a file records a failure, by its name.
pub open spec fn is_record(name: Seq<char>) -> bool {
    text::has_prefix(name, "task_failure_"@) && text::has_suffix(name, ".json"@)
}

/// Whether a file records a failure, by its name.
pub fn is_failure_record(name: &str) -> (r: bool)
    ensures
        r == is_record(name@),
{
    starts_with(name, "task_failure_") && ends_with(name, ".json")
}

/// A file and when it was last written.
#[derive(Debug)]
pub struct Written {
    pub modified: u64,
    pub path: String,
}

/// Whether a file is kept rather than another: the newer one, or the one listed before.
pub open spec fn goes_before(files: Seq<Written>, a: int, b: int) -> bool {
    files[a].modified > files[b].modified || (files[a].modified == files[b].modified && a < b)
}

/// How many of the first `n` files are kept rather than another.
pub open spec fn rank_within(files: Seq<Written>, b: int, n: nat) -> nat
    decreases n,
{
    if n == 0 {
        0
    } else {
        rank_within(files, b, (n - 1) as nat) + (if goes_before(files, n - 1, b) {
            1nat
        } else {
            0
        })
    }
}

/// How many files are kept rather than another.
pub open spec fn rank(files: Seq<Written>, b: int) -> nat {
    rank_within(files, b, files.len())
}

/// Whether a file is taken away: there are enough that are kept rather than it.
pub open spec fn is_pruned(files: Seq<Written>, retention: usize, b: int) -> bool {
    retention > 0 && rank(files, b) >= retention
}

/// The paths of the first `n` files that are taken away.
pub open spec fn pruned_within(files: Seq<Written>, retention: usize, n: nat) -> Seq<Seq<char>>
    decreases n,
{
    if n == 0 {
        seq![]
    } else {
        let before = pruned_within(files, retention, (n - 1) as nat);
        if is_pruned(files, retention, n - 1) {
            before.push(files[n - 1].path@)
        } else {
            before
        }
    }
}

fn rank_of(files: &[Written], b: usize) -> (r: usize)
    requires
        b < files@.len(),
    ensures
        r == rank(files@, b as int),
{
    let mut count: usize = 0;
    let mut k: usize = 0;
    while k < files.len()
        invariant
            k <= files.len(),
            b < files@.len(),
            count <= k,
            count == rank_within(files@, b as int, k as nat),
        decreases files.len() - k,
    {
        if files[k].modified > files[b].modified || (files[k].modified == files[b].modified && k < b) {
            count = count + 1;
        }
        k = k + 1;
    }
    count
}

/// The records of failures that are taken away, so that only the newest stay.
pub fn prune_local_failure_artifacts(retention: usize, files: &[Written]) -> (r: Vec<String>)
    ensures
        text::texts(r@) == pruned_within(files@, retention, files@.len()),
{
    let mut out: Vec<String> = Vec::new();
    let mut i: usize = 0;
    assert(text::texts(out@) =~= seq![]);
    while i < files.len()
        invariant
            i <= files.len(),
            text::texts(out@) == pruned_within(files@, retention, i as nat),
        decreases files.len() - i,
    {
        let ghost before = text::texts(out@);
        if retention > 0 && rank_of(files, i) >= retention {
            out.push(files[i].path.clone());
            assert(text::texts(out@) =~= before.push(files@[i as int].path@));
        }
        i = i + 1;
    }
    out
}

proof fn lemma_rank_grows(files: Seq<Written>, a: int, b: int, n: nat)
    requires
        0 <= a < files.len(),
        0 <= b < files.len(),
        goes_before(files, a, b),
        n <= files.len(),
    ensures
        rank_within(files, a, n) + (if a < n {
            1nat
        } else {
            0
        }) <= rank_within(files, b, n),
    decreases n,
{
    if n > 0 {
        lemma_rank_grows(files, a, b, (n - 1) as nat);
    }
}

/// What is kept is the newest: a file that is kept rather than another that is kept is kept too.
pub proof fn law_newest_records_are_kept(files: Seq<Written>, retention: usize, a: int, b: int)
    requires
        0 <= a < files.len(),
        0 <= b < files.len(),
        goes_before(files, a, b),
        !is_pruned(files, retention, b),
    ensures
        !is_pruned(files, retention, a),
{
    lemma_rank_grows(files, a, b, files.len());
}

/// No more records are kept than the agent is configured to keep.
pub proof fn law_kept_records_are_limited(files: Seq<Written>, retention: usize)
    requires
        retention > 0,
    ensures
        Set::new(|i: int| 0 <= i < files.len() && !is_pruned(files, retention, i)).len()
            <= retention,
{
    let kept = Set::new(|i: int| 0 <= i < files.len() && !is_pruned(files, retention, i));
    let ranks = set_int_range(0, retention as int);
    lemma_int_range(0, retention as int);
    lemma_int_range(0, files.len() as int);
    assert(kept.subset_of(set_int_range(0, files.len() as int)));
    lemma_len_subset(kept, set_int_range(0, files.len() as int));
    let f = |i: int| rank(files, i) as int;
    assert forall|i: int, j: int|
        kept.contains(i) && kept.contains(j) && #[trigger] f(i) == #[trigger] f(j) implies i == j by {
        if i != j {
            if goes_before(files, i, j) {
                lemma_rank_grows(files, i, j, files.len());
            } else {
                lemma_rank_grows(files, j, i, files.len());
            }
        }
    }
    let image = kept.map(f);
    lemma_map_size(kept, image, f);
    assert(image.subset_of(ranks)) by {
        assert forall|r: int| image.contains(r) implies ranks.contains(r) by {
            let i = choose|i: int| kept.contains(i) && f(i) == r;
            assert(kept.contains(i));
        }
    }
    lemma_len_subset(image, ranks);
}

proof fn lemma_rank_within(files: Seq<Written>, b: int, n: nat)
    requires
        0 <= b < files.len(),
        n <= files.len(),
    ensures
        rank_within(files, b, n) + (if b < n {
            1nat
        } else {
            0
        }) <= n,
    decreases n,
{
    if n > 0 {
        lemma_rank_within(files, b, (n - 1) as nat);
    }
}

/// While there are no more records than are to be kept, or where all are to be kept, none goes; the
/// newest never does.
pub proof fn law_few_records_are_all_kept(files: Seq<Written>, retention: usize, b: int)
    requires
        0 <= b < files.len(),
    ensures
        files.len() <= retention || retention == 0 ==> !is_pruned(files, retention, b),
        (forall|i: int| 0 <= i < files.len() && i != b ==> files[i].modified < files[b].modified)
            ==> !is_pruned(files, retention, b),
{
    lemma_rank_within(files, b, files.len());
    if forall|i: int| 0 <= i < files.len() && i != b ==> files[i].modified < files[b].modified {
        lemma_newest_rank(files, b, files.len());
    }
}

proof fn lemma_newest_rank(files: Seq<Written>, b: int, n: nat)
    requires
        0 <= b < files.len(),
        n <= files.len(),
        forall|i: int| 0 <= i < files.len() && i != b ==> files[i].modified < files[b].modified,
    ensures
        rank_within(files, b, n) == 0,
    decreases n,
{
    if n > 0 {
        lemma_newest_rank(files, b, (n - 1) as nat);
        assert(files[n - 1].modified <= files[b].modified);
    }
}

/// What goes are the files that are not kept, and only those.
pub proof fn law_pruned_files_go(files: Seq<Written>, retention: usize, n: nat, path: Seq<char>)
    requires
        n <= files.len(),
    ensures
        pruned_within(files, retention, n).contains(path) <==> exists|i: int|
            0 <= i < n && is_pruned(files, retention, i) && #[trigger] files[i].path@ == path,
    decreases n,
{
    if n > 0 {
        let m = (n - 1) as nat;
        law_pruned_files_go(files, retention, m, path);
        let before = pruned_within(files, retention, m);
        let all = pruned_within(files, retention, n);
        if is_pruned(files, retention, n - 1) {
            assert(all =~= before.push(files[n - 1].path@));
            assert(all[before.len() as int] == files[n - 1].path@);
            if before.contains(path) {
                let k = choose|k: int| 0 <= k < before.len() && before[k] == path;
                assert(all[k] == path);
            }
            if all.contains(path) && path != files[n - 1].path@ {
                let k = choose|k: int| 0 <= k < all.len() && all[k] == path;
                assert(before[k] == path);
            }
        }
    }
}

/// Each place is tried once, and no place is left out.
pub proof fn law_each_place_is_tried_once(list: Seq<Seq<char>>, p: Seq<char>)
    ensures
        distinct(list).contains(p) <==> list.contains(p),
        distinct(list).no_duplicates(),
    decreases list.len(),
{
    if list.len() > 0 {
        let front = list.drop_last();
        law_each_place_is_tried_once(front, p);
        law_each_place_is_tried_once(front, list.last());
        let before = distinct(front);
        if list.contains(p) && p != list.last() {
            let i = choose|i: int| 0 <= i < list.len() && list[i] == p;
            assert(front[i] == p);
        }
        if front.contains(p) {
            let i = choose|i: int| 0 <= i < front.len() && front[i] == p;
            assert(list[i] == p);
        }
        assert(list[list.len() - 1] == list.last());
        if !before.contains(list.last()) {
            let all = before.push(list.last());
            assert(all[before.len() as int] == list.last());
            if before.contains(p) {
                let i = choose|i: int| 0 <= i < before.len() && before[i] == p;
                assert(all[i] == p);
            }
            if all.contains(p) && p != list.last() {
                let i = choose|i: int| 0 <= i < all.len() && all[i] == p;
                assert(before[i] == p);
            }
        }
    }
}

/// A prompt stands under its root, by its name; what is written at run time stands under the cache
/// directory, else under the home directory.
pub proof fn law_prompt_stands_under_its_root(
    root: Seq<char>,
    name: Seq<char>,
    cache: Seq<char>,
    home: Seq<char>,
)
    requires
        name.len() > 0,
        !text::has_prefix(name, "/"@),
    ensures
        text::has_suffix(prompt_under(root, name), name),
        text::has_prefix(prompt_under(root, name), root),
        text::has_prefix(runtime_dir(Some(cache), Some(home)), cache),
        text::has_prefix(runtime_dir(None, Some(home)), home),
{
    reveal_strlit("/");
    reveal_strlit("src");
    reveal_strlit("agent");
    reveal_strlit("prompts");
    reveal_strlit("gosh-agent");
    reveal_strlit(".cache");
    let a = paths::joined_path("src"@, "agent"@);
    let b = paths::joined_path(a, "prompts"@);
    let c = paths::joined_path(b, name);
    assert("agent"@.subrange(0, 1)[0] == 'a');
    assert("prompts"@.subrange(0, 1)[0] == 'p');
    assert("gosh-agent"@.subrange(0, 1)[0] == 'g');
    assert(".cache"@.subrange(0, 1)[0] == '.');
    paths::law_path_is_joined("src"@, "agent"@);
    paths::law_path_is_joined(a, "prompts"@);
    paths::law_path_is_joined(b, name);
    assert(a.subrange(0, 3)[0] == 's');
    assert(a[0] == 's');
    assert(b.subrange(0, a.len() as int)[0] == 's');
    assert(c.subrange(0, b.len() as int)[0] == 's');
    assert(c.subrange(0, 1)[0] == 's');
    paths::law_path_is_joined(root, c);
    let whole = paths::joined_path(root, c);
    lemma_end_of_end(whole, c, name);
    let d = paths::joined_path(cache, "gosh-agent"@);
    paths::law_path_is_joined(cache, "gosh-agent"@);
    paths::law_path_is_joined(d, "prompts"@);
    lemma_start_of_start(paths::joined_path(d, "prompts"@), d, cache);
    let h = paths::joined_path(home, ".cache"@);
    let e = paths::joined_path(h, "gosh-agent"@);
    paths::law_path_is_joined(home, ".cache"@);
    paths::law_path_is_joined(h, "gosh-agent"@);
    paths::law_path_is_joined(e, "prompts"@);
    lemma_start_of_start(e, h, home);
    lemma_start_of_start(paths::joined_path(e, "prompts"@), e, home);
}

proof fn lemma_end_of_end(s: Seq<char>, m: Seq<char>, p: Seq<char>)
    requires
        text::has_suffix(s, m),
        text::has_suffix(m, p),
    ensures
        text::has_suffix(s, p),
{
    assert(s.subrange(s.len() - p.len(), s.len() as int) =~= s.subrange(
        s.len() - m.len(),
        s.len() as int,
    ).subrange(m.len() - p.len(), m.len() as int));
}

proof fn lemma_start_of_start(s: Seq<char>, m: Seq<char>, p: Seq<char>)
    requires
        text::has_prefix(s, m),
        text::has_prefix(m, p),
    ensures
        text::has_prefix(s, p),
{
    assert(s.subrange(0, p.len() as int) =~= s.subrange(0, m.len() as int).subrange(
        0,
        p.len() as int,
    ));
}

/// Each prompt comes with the program under its own name, and no other does.
pub proof fn law_prompts_come_with_the_program(name: Seq<char>)
    ensures
        bundled("execution_system.txt"@) == Some(prompts::EXECUTION_PROMPT@),
        bundled("review.txt"@) == Some(prompts::review_text()),
        name != "execution_system.txt"@ && name != "review.txt"@ ==> bundled(name) is None,
{
    reveal_strlit("execution_system.txt");
    reveal_strlit("review.txt");
    assert("execution_system.txt"@.len() != "review.txt"@.len());
}

/// Only the nearest directories are tried, and a prompt is read without the ends of its last lines.
pub proof fn law_nearest_places_are_tried(list: Seq<Seq<char>>, s: Seq<char>)
    ensures
        list.len() <= 3 ==> first_few(list) == list,
        list.len() > 3 ==> first_few(list) == list.take(3),
        s.len() > 0 && s.last() != '\n' && s.last() != '\r' ==> without_line_ends(s) == s,
        without_line_ends(s.push('\n')) == without_line_ends(s),
        without_line_ends(s.push('\r')) == without_line_ends(s),
{
    assert(s.push('\n').drop_last() =~= s);
    assert(s.push('\r').drop_last() =~= s);
}

/// A record of a failure is known by both ends of its name.
pub proof fn law_records_are_known_by_their_names(id: Seq<char>)
    ensures
        is_record("task_failure_"@ + id + ".json"@),
{
    let name = "task_failure_"@ + id + ".json"@;
    let a = "task_failure_"@;
    let b = ".json"@;
    assert(name.subrange(0, a.len() as int) =~= a);
    assert(name.subrange(name.len() - b.len(), name.len() as int) =~= b);
}

} // verus!
