//! What an agent may touch of the file system.

use vstd::prelude::*;
use vstd::string::*;

use crate::paths;
use crate::paths::join_path;
use crate::text;

verus! {

/// What became of the sandbox.
#[derive(Debug)]
pub enum SandboxStatus {
    Active,
    NotAvailable,
    Failed(String),
}

pub ghost enum SandboxStatusV {
    Active,
    NotAvailable,
    Failed(Seq<char>),
}

impl SandboxStatus {
    pub open spec fn view(&self) -> SandboxStatusV {
        match self {
            SandboxStatus::Active => SandboxStatusV::Active,
            SandboxStatus::NotAvailable => SandboxStatusV::NotAvailable,
            SandboxStatus::Failed(e) => SandboxStatusV::Failed(e@),
        }
    }
}

/// What to do next.
#[derive(Debug)]
pub enum SandboxAction {
    /// Make a set of rules that allows nothing.
    Create,
    /// Allow what lies under a path.
    Allow { path: String, write: bool },
    /// Put the rules in force.
    Restrict,
    Finish(SandboxStatus),
}

pub ghost enum SandboxActionV {
    Create,
    Allow { path: Seq<char>, write: bool },
    Restrict,
    Finish(SandboxStatusV),
}

impl SandboxAction {
    pub open spec fn view(&self) -> SandboxActionV {
        match self {
            SandboxAction::Create => SandboxActionV::Create,
            SandboxAction::Allow { path, write } => SandboxActionV::Allow {
                path: path@,
                write: *write,
            },
            SandboxAction::Restrict => SandboxActionV::Restrict,
            SandboxAction::Finish(status) => SandboxActionV::Finish(status@),
        }
    }
}

/// How a step went.
#[derive(Debug)]
pub enum StepOutcome {
    /// It was done, or there was nothing at the path.
    Done,
    /// The path could not be opened.
    PathFailed(String),
    /// The kernel refused.
    Refused(String),
    /// The rules are in force, as far as the kernel knows them.
    Enforced,
    /// The kernel knows no such rules.
    NotEnforced,
}

/// The step of a number: the rules are made, then each path is allowed, those to write before
/// those to read, then the rules are put in force.
pub open spec fn step(rw_paths: Seq<Seq<char>>, ro_paths: Seq<Seq<char>>, n: int) -> SandboxActionV {
    if n == 0 {
        SandboxActionV::Create
    } else if n <= rw_paths.len() {
        SandboxActionV::Allow { path: rw_paths[n - 1], write: true }
    } else if n <= rw_paths.len() + ro_paths.len() {
        SandboxActionV::Allow { path: ro_paths[n - 1 - rw_paths.len()], write: false }
    } else {
        SandboxActionV::Restrict
    }
}

/// What is said of a step that failed.
pub open spec fn step_error(at: SandboxActionV, path_failed: bool, error: Seq<char>) -> Seq<char> {
    match at {
        SandboxActionV::Create => "create ruleset: "@ + error,
        SandboxActionV::Allow { path, write } => (if write {
            "rw "@
        } else {
            "ro "@
        }) + (if path_failed {
            "path "@
        } else {
            "rule "@
        }) + path + ": "@ + error,
        _ => "restrict_self: "@ + error,
    }
}

/// What follows a step.
pub open spec fn after_step(
    rw_paths: Seq<Seq<char>>,
    ro_paths: Seq<Seq<char>>,
    n: int,
    outcome: StepOutcome,
) -> SandboxActionV {
    match outcome {
        StepOutcome::PathFailed(e) => SandboxActionV::Finish(
            SandboxStatusV::Failed(step_error(step(rw_paths, ro_paths, n), true, e@)),
        ),
        StepOutcome::Refused(e) => SandboxActionV::Finish(
            SandboxStatusV::Failed(step_error(step(rw_paths, ro_paths, n), false, e@)),
        ),
        StepOutcome::Enforced => SandboxActionV::Finish(SandboxStatusV::Active),
        StepOutcome::NotEnforced => SandboxActionV::Finish(SandboxStatusV::NotAvailable),
        StepOutcome::Done => step(rw_paths, ro_paths, n + 1),
    }
}

fn take_step(rw_paths: &[String], ro_paths: &[String], n: usize) -> (r: SandboxAction)
    ensures
        r@ == step(text::texts(rw_paths@), text::texts(ro_paths@), n as int),
{
    if n == 0 {
        return SandboxAction::Create;
    }
    let i: usize = n - 1;
    if i < rw_paths.len() {
        assert(text::texts(rw_paths@)[i as int] == rw_paths@[i as int]@);
        return SandboxAction::Allow { path: rw_paths[i].clone(), write: true };
    }
    let j: usize = i - rw_paths.len();
    if j < ro_paths.len() {
        assert(text::texts(ro_paths@)[j as int] == ro_paths@[j as int]@);
        return SandboxAction::Allow { path: ro_paths[j].clone(), write: false };
    }
    SandboxAction::Restrict
}

/// Where a sandbox starts, on a machine that has one.
pub fn enable_sandbox(supported: bool, rw_paths: &[String], ro_paths: &[String]) -> (r: SandboxAction)
    ensures
        r@ == (if supported {
            step(text::texts(rw_paths@), text::texts(ro_paths@), 0)
        } else {
            SandboxActionV::Finish(SandboxStatusV::NotAvailable)
        }),
{
    if supported {
        take_step(rw_paths, ro_paths, 0)
    } else {
        SandboxAction::Finish(SandboxStatus::NotAvailable)
    }
}

fn describe(at: &SandboxAction, path_failed: bool, error: &str) -> (r: String)
    ensures
        r@ == step_error(at@, path_failed, error@),
{
    match at {
        SandboxAction::Create => {
            let mut e = "create ruleset: ".to_owned();
            e.append(error);
            e
        },
        SandboxAction::Allow { path, write } => {
            let mut e = if *write {
                "rw ".to_owned()
            } else {
                "ro ".to_owned()
            };
            if path_failed {
                e.append("path ");
            } else {
                e.append("rule ");
            }
            e.append(path.as_str());
            e.append(": ");
            e.append(error);
            e
        },
        _ => {
            let mut e = "restrict_self: ".to_owned();
            e.append(error);
            e
        },
    }
}

/// What follows the step of a number.
pub fn enable(rw_paths: &[String], ro_paths: &[String], n: usize, outcome: StepOutcome) -> (r:
    SandboxAction)
    requires
        n < usize::MAX,
    ensures
        r@ == after_step(text::texts(rw_paths@), text::texts(ro_paths@), n as int, outcome),
{
    match outcome {
        StepOutcome::PathFailed(e) => {
            let at = take_step(rw_paths, ro_paths, n);
            SandboxAction::Finish(SandboxStatus::Failed(describe(&at, true, e.as_str())))
        },
        StepOutcome::Refused(e) => {
            let at = take_step(rw_paths, ro_paths, n);
            SandboxAction::Finish(SandboxStatus::Failed(describe(&at, false, e.as_str())))
        },
        StepOutcome::Enforced => SandboxAction::Finish(SandboxStatus::Active),
        StepOutcome::NotEnforced => SandboxAction::Finish(SandboxStatus::NotAvailable),
        StepOutcome::Done => take_step(rw_paths, ro_paths, n + 1),
    }
}

/// The rules are put in force only once every path has had its turn.
pub proof fn law_rules_are_complete(rw_paths: Seq<Seq<char>>, ro_paths: Seq<Seq<char>>, n: int)
    requires
        0 <= n,
        step(rw_paths, ro_paths, n) is Restrict,
    ensures
        forall|i: int|
            0 <= i < rw_paths.len() ==> i + 1 < n && step(rw_paths, ro_paths, i + 1)
                == (SandboxActionV::Allow { path: #[trigger] rw_paths[i], write: true }),
        forall|i: int|
            0 <= i < ro_paths.len() ==> rw_paths.len() + i + 1 < n && step(
                rw_paths,
                ro_paths,
                rw_paths.len() + i + 1,
            ) == (SandboxActionV::Allow { path: #[trigger] ro_paths[i], write: false }),
{
}

/// Where an agent keeps its state.
pub open spec fn state_root(home: Seq<char>) -> Seq<char> {
    paths::joined_path(paths::joined_path(home, ".gosh"@), "agent/state"@)
}

/// Where an agent keeps what it can make again.
pub open spec fn cache_root(home: Seq<char>, cache: Option<Seq<char>>) -> Seq<char> {
    paths::joined_path(
        match cache {
            Some(c) => c,
            None => paths::joined_path(home, ".cache"@),
        },
        "gosh-agent"@,
    )
}

/// What an agent may write: its own state, its cache, what is temporary, and its workspaces.
pub fn writable_paths(home: &str, cache: Option<&str>, workspaces: &[String]) -> (r: Vec<String>)
    ensures
        text::texts(r@) == seq![
            state_root(home@),
            cache_root(home@, text::opt_slice(cache)),
            "/tmp"@,
        ] + text::texts(workspaces@),
{
    let gosh = join_path(home, ".gosh");
    let state = join_path(gosh.as_str(), "agent/state");
    let cache_home = match cache {
        Some(c) => c.to_owned(),
        None => join_path(home, ".cache"),
    };
    let mut out: Vec<String> = Vec::new();
    out.push(state);
    out.push(join_path(cache_home.as_str(), "gosh-agent"));
    out.push("/tmp".to_owned());
    let ghost head = text::texts(out@);
    assert(head =~= seq![
        state_root(home@),
        cache_root(home@, text::opt_slice(cache)),
        "/tmp"@,
    ]);
    let mut more = text::copy_strings(workspaces);
    let ghost added = text::texts(more@);
    let ghost before = out@;
    out.append(&mut more);
    assert(text::texts(out@) =~= head + added);
    out
}

/// What an agent may read: programs, their settings and libraries, and its own instances.
pub fn readable_paths(home: &str) -> (r: Vec<String>)
    ensures
        text::texts(r@) == seq![
            "/usr"@,
            "/etc"@,
            "/lib"@,
            "/lib64"@,
            paths::joined_path(paths::joined_path(home@, ".gosh"@), "agent/instances"@),
        ],
{
    let gosh = join_path(home, ".gosh");
    let mut out: Vec<String> = Vec::new();
    out.push("/usr".to_owned());
    out.push("/etc".to_owned());
    out.push("/lib".to_owned());
    out.push("/lib64".to_owned());
    out.push(join_path(gosh.as_str(), "agent/instances"));
    assert(text::texts(out@) =~= seq![
        "/usr"@,
        "/etc"@,
        "/lib"@,
        "/lib64"@,
        paths::joined_path(paths::joined_path(home@, ".gosh"@), "agent/instances"@),
    ]);
    out
}

/// What an entry of the list of workspaces is worth.
#[derive(Debug)]
pub enum WorkspaceCheck {
    /// It is empty.
    Skip,
    /// What lies under this path may be written.
    Allow(String),
    /// The agent must not start.
    Refuse(&'static str),
}

/// The exit code of an agent that must not start.
pub const REFUSED_EXIT_CODE: i32 = 78;

/// What an entry of the list of workspaces is worth: nothing where it is empty; else it must be a
/// directory that can be resolved.
pub fn check_workspace(path: &str, is_dir: bool, resolved: Option<String>) -> (r: WorkspaceCheck)
    ensures
        match r {
            WorkspaceCheck::Skip => path@.len() == 0,
            WorkspaceCheck::Allow(p) => path@.len() > 0 && is_dir && resolved == Some(p),
            WorkspaceCheck::Refuse(why) => path@.len() > 0 && if !is_dir {
                why@ == "workspace path is not an existing directory"@
            } else {
                resolved is None && why@ == "workspace path cannot be resolved"@
            },
        },
{
    if path.unicode_len() == 0 {
        return WorkspaceCheck::Skip;
    }
    if !is_dir {
        return WorkspaceCheck::Refuse("workspace path is not an existing directory");
    }
    match resolved {
        Some(p) => WorkspaceCheck::Allow(p),
        None => WorkspaceCheck::Refuse("workspace path cannot be resolved"),
    }
}

/// Nothing is allowed that was not asked for: to write only under the paths for writing, and to
/// read under the others.
pub proof fn law_only_listed_paths_are_allowed(rw_paths: Seq<Seq<char>>, ro_paths: Seq<Seq<char>>, n: int)
    requires
        0 <= n,
    ensures
        step(rw_paths, ro_paths, n) matches SandboxActionV::Allow { path, write } ==> if write {
            rw_paths.contains(path)
        } else {
            ro_paths.contains(path)
        },
        n == 0 ==> step(rw_paths, ro_paths, n) is Create,
{
    if 0 < n <= rw_paths.len() {
        assert(rw_paths.contains(rw_paths[n - 1]));
    } else if rw_paths.len() < n <= rw_paths.len() + ro_paths.len() {
        assert(ro_paths.contains(ro_paths[n - 1 - rw_paths.len()]));
    }
}

/// The sandbox counts as active only where its rules are in force; a step that fails ends it, and
/// it is said at which path and why.
pub proof fn law_failed_step_is_not_active(
    rw_paths: Seq<Seq<char>>,
    ro_paths: Seq<Seq<char>>,
    n: int,
    outcome: StepOutcome,
)
    requires
        0 <= n,
    ensures
        after_step(rw_paths, ro_paths, n, outcome) == SandboxActionV::Finish(SandboxStatusV::Active)
            <==> outcome is Enforced,
        outcome is Done ==> after_step(rw_paths, ro_paths, n, outcome) == step(
            rw_paths,
            ro_paths,
            n + 1,
        ),
        outcome matches StepOutcome::Refused(e) ==> (after_step(
            rw_paths,
            ro_paths,
            n,
            outcome,
        ) matches SandboxActionV::Finish(SandboxStatusV::Failed(why)) && text::has_suffix(why, e@)),
        outcome matches StepOutcome::PathFailed(e) ==> (after_step(
            rw_paths,
            ro_paths,
            n,
            outcome,
        ) matches SandboxActionV::Finish(SandboxStatusV::Failed(why)) && text::has_suffix(why, e@)
            && (step(rw_paths, ro_paths, n) matches SandboxActionV::Allow { path, .. }
            ==> text::has_infix(why, path))),
{
    let at = step(rw_paths, ro_paths, n);
    match outcome {
        StepOutcome::Refused(e) => {
            let why = step_error(at, false, e@);
            assert(why.subrange(why.len() - e@.len(), why.len() as int) =~= e@);
        },
        StepOutcome::PathFailed(e) => {
            let why = step_error(at, true, e@);
            assert(why.subrange(why.len() - e@.len(), why.len() as int) =~= e@);
            match at {
                SandboxActionV::Allow { path, write } => {
                    let head = (if write {
                        "rw "@
                    } else {
                        "ro "@
                    }) + "path "@;
                    let tail = ": "@ + e@;
                    assert(why =~= head + path + tail);
                    text::lemma_infix(head, path, tail);
                },
                _ => {},
            }
        },
        _ => {},
    }
}

/// What the sandbox lets an agent write stands under its home, or under the cache directory that
/// it was given.
pub proof fn law_agent_writes_under_its_home(home: Seq<char>, cache: Seq<char>)
    ensures
        text::has_prefix(state_root(home), home),
        text::has_prefix(cache_root(home, Some(cache)), cache),
        text::has_prefix(cache_root(home, None), home),
        text::has_suffix(cache_root(home, None), "gosh-agent"@),
        text::has_suffix(state_root(home), "agent/state"@),
{
    reveal_strlit("/");
    reveal_strlit(".gosh");
    reveal_strlit("agent/state");
    reveal_strlit("gosh-agent");
    reveal_strlit(".cache");
    assert(".gosh"@.subrange(0, 1)[0] == '.');
    assert("agent/state"@.subrange(0, 1)[0] == 'a');
    assert("gosh-agent"@.subrange(0, 1)[0] == 'g');
    assert(".cache"@.subrange(0, 1)[0] == '.');
    let g = paths::joined_path(home, ".gosh"@);
    paths::law_path_is_joined(home, ".gosh"@);
    paths::law_path_is_joined(g, "agent/state"@);
    lemma_start_of_start(state_root(home), g, home);
    let c = paths::joined_path(home, ".cache"@);
    paths::law_path_is_joined(home, ".cache"@);
    paths::law_path_is_joined(c, "gosh-agent"@);
    paths::law_path_is_joined(cache, "gosh-agent"@);
    lemma_start_of_start(cache_root(home, None), c, home);
}

proof fn lemma_start_of_start(s: Seq<char>, m: Seq<char>, p: Seq<char>)
    requires
        text::has_prefix(s, m),
        text::has_prefix(m, p),
    ensures
        text::has_prefix(s, p),
{
    assert(s.subrange(0, p.len() as int) =~= s.subrange(0, m.len() as int).subrange(
        0,
        p.len() as int,
    ));
}

} // verus!
