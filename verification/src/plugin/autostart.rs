//! Keeping an agent running.

use vstd::prelude::*;
use vstd::string::*;

use crate::paths;
use crate::paths::join_path;
use crate::text;
use crate::text::lines_of;
use crate::text::replace;
use crate::text::same;
use crate::text::trim;

verus! {

/// The name of an agent's launchd service.
pub open spec fn label_of(agent_name: Seq<char>) -> Seq<char> {
    "com.gosh.agent."@ + agent_name
}

/// The name of an agent's systemd service.
pub open spec fn unit_of(agent_name: Seq<char>) -> Seq<char> {
    "gosh-agent-"@ + agent_name + ".service"@
}

/// The name of an agent's launchd service.
pub fn launchd_label(agent_name: &str) -> (r: String)
    ensures
        r@ == label_of(agent_name@),
{
    let mut out = "com.gosh.agent.".to_owned();
    out.append(agent_name);
    out
}

/// The file of an agent's launchd service.
pub open spec fn plist_path(home: Option<Seq<char>>, agent_name: Seq<char>) -> Seq<char> {
    paths::joined_path(
        paths::joined_path(
            paths::joined_path(paths::home_or_tilde(home), "Library"@),
            "LaunchAgents"@,
        ),
        label_of(agent_name) + ".plist"@,
    )
}

fn home_text(home: Option<&str>) -> (r: String)
    ensures
        r@ == paths::home_or_tilde(text::opt_slice(home)),
{
    match home {
        Some(h) => h.to_owned(),
        None => "~".to_owned(),
    }
}

/// The file of an agent's launchd service.
pub fn launchd_plist_path(home: Option<&str>, agent_name: &str) -> (r: String)
    ensures
        r@ == plist_path(text::opt_slice(home), agent_name@),
{
    let library = join_path(home_text(home).as_str(), "Library");
    let agents = join_path(library.as_str(), "LaunchAgents");
    let mut name = launchd_label(agent_name);
    name.append(".plist");
    join_path(agents.as_str(), name.as_str())
}

/// A text as it stands in XML.
pub open spec fn escaped(s: Seq<char>) -> Seq<char> {
    text::replaced(text::replaced(s, '&', "&amp;"@), '<', "&lt;"@)
}

fn xml_escape(s: &str) -> (r: String)
    ensures
        r@ == escaped(s@),
{
    replace(replace(s, '&', "&amp;").as_str(), '<', "&lt;")
}

/// What stands before the name of a launchd service.
pub const PLIST_HEAD: &'static str =
    "<?xml version=\"1.0\" encoding=\"UTF-8\"?>\n<!DOCTYPE plist PUBLIC \"-//Apple//DTD PLIST 1.0//EN\" \"http://www.apple.com/DTDs/PropertyList-1.0.dtd\">\n<plist version=\"1.0\">\n<dict>\n    <key>Label</key>\n    <string>";

/// What stands before the program of a launchd service.
pub const PLIST_PROGRAM: &'static str =
    "</string>\n    <key>ProgramArguments</key>\n    <array>\n        <string>";

/// What stands before the agent of a launchd service.
pub const PLIST_NAME: &'static str =
    "</string>\n        <string>serve</string>\n        <string>--name</string>\n        <string>";

/// What stands before the output of a launchd service.
pub const PLIST_OUT: &'static str =
    "</string>\n    </array>\n    <key>RunAtLoad</key>\n    <true/>\n    <key>KeepAlive</key>\n    <true/>\n    <key>StandardOutPath</key>\n    <string>";

/// What stands before the error output of a launchd service.
pub const PLIST_ERR: &'static str =
    "</string>\n    <key>StandardErrorPath</key>\n    <string>";

/// What ends a launchd service.
pub const PLIST_TAIL: &'static str =
    "</string>\n    <key>ProcessType</key>\n    <string>Background</string>\n</dict>\n</plist>\n";

/// The description of a launchd service that serves an agent.
pub open spec fn plist_text(
    label: Seq<char>,
    binary: Seq<char>,
    agent_name: Seq<char>,
    stdout_path: Seq<char>,
    stderr_path: Seq<char>,
) -> Seq<char> {
    PLIST_HEAD@ + escaped(label) + PLIST_PROGRAM@ + escaped(binary) + PLIST_NAME@ + escaped(
        agent_name,
    ) + PLIST_OUT@ + escaped(stdout_path) + PLIST_ERR@ + escaped(stderr_path) + PLIST_TAIL@
}

/// The description of a launchd service that serves an agent.
pub fn render_launchd_plist(
    label: &str,
    binary: &str,
    agent_name: &str,
    stdout_path: &str,
    stderr_path: &str,
) -> (r: String)
    ensures
        r@ == plist_text(label@, binary@, agent_name@, stdout_path@, stderr_path@),
{
    let mut out = PLIST_HEAD.to_owned();
    out.append(xml_escape(label).as_str());
    out.append(PLIST_PROGRAM);
    out.append(xml_escape(binary).as_str());
    out.append(PLIST_NAME);
    out.append(xml_escape(agent_name).as_str());
    out.append(PLIST_OUT);
    out.append(xml_escape(stdout_path).as_str());
    out.append(PLIST_ERR);
    out.append(xml_escape(stderr_path).as_str());
    out.append(PLIST_TAIL);
    out
}

/// The launchd domain of a user, from what `id -u` printed.
pub fn launchd_user_domain(stdout: &str) -> (r: Result<String, String>)
    ensures
        match r {
            Ok(domain) => text::trimmed(stdout@).len() > 0 && domain@ == "gui/"@ + text::trimmed(
                stdout@,
            ),
            Err(e) => text::trimmed(stdout@).len() == 0 && e@ == "`id -u` returned empty output"@,
        },
{
    let uid = trim(stdout);
    if uid.unicode_len() == 0 {
        return Err("`id -u` returned empty output".to_owned());
    }
    let mut domain = "gui/".to_owned();
    domain.append(uid);
    Ok(domain)
}

/// The name of an agent's systemd service.
pub fn systemd_unit_name(agent_name: &str) -> (r: String)
    ensures
        r@ == unit_of(agent_name@),
{
    let mut out = "gosh-agent-".to_owned();
    out.append(agent_name);
    out.append(".service");
    out
}

/// The file of an agent's systemd service.
pub open spec fn unit_path(home: Option<Seq<char>>, agent_name: Seq<char>) -> Seq<char> {
    paths::joined_path(
        paths::joined_path(
            paths::joined_path(
                paths::joined_path(paths::home_or_tilde(home), ".config"@),
                "systemd"@,
            ),
            "user"@,
        ),
        unit_of(agent_name),
    )
}

/// The file of an agent's systemd service.
pub fn systemd_unit_path(home: Option<&str>, agent_name: &str) -> (r: String)
    ensures
        r@ == unit_path(text::opt_slice(home), agent_name@),
{
    let config = join_path(home_text(home).as_str(), ".config");
    let systemd = join_path(config.as_str(), "systemd");
    let user = join_path(systemd.as_str(), "user");
    join_path(user.as_str(), systemd_unit_name(agent_name).as_str())
}

/// The description of a systemd service that serves an agent.
pub open spec fn unit_text(binary: Seq<char>, agent_name: Seq<char>) -> Seq<char> {
    "[Unit]\nDescription=GOSH Agent (instance: "@ + agent_name
        + ")\nAfter=network.target\n\n[Service]\nType=simple\nExecStart="@ + binary
        + " serve --name "@ + agent_name
        + "\nRestart=on-failure\nRestartSec=5\n\n[Install]\nWantedBy=default.target\n"@
}

/// The description of a systemd service that serves an agent.
pub fn render_systemd_unit(binary: &str, agent_name: &str) -> (r: String)
    ensures
        r@ == unit_text(binary@, agent_name@),
{
    let mut out = "[Unit]\nDescription=GOSH Agent (instance: ".to_owned();
    out.append(agent_name);
    out.append(")\nAfter=network.target\n\n[Service]\nType=simple\nExecStart=");
    out.append(binary);
    out.append(" serve --name ");
    out.append(agent_name);
    out.append("\nRestart=on-failure\nRestartSec=5\n\n[Install]\nWantedBy=default.target\n");
    out
}

/// Whether `loginctl` printed that a user's services do not come up without a login.
pub open spec fn says_no(printed: Seq<char>) -> bool {
    exists|i: int|
        0 <= i < text::lines(printed).len() && text::trimmed(#[trigger] text::lines(printed)[i])
            == "Linger=no"@
}

/// Whether a user's services come up without a login: they do unless it is printed that they do
/// not.
pub open spec fn lingers(user: Seq<char>, printed: Option<Seq<char>>) -> bool {
    user.len() == 0 || match printed {
        None => true,
        Some(s) => !says_no(s),
    }
}

/// Whether a user's services come up without a login. `printed` is what `loginctl` printed, where
/// it could be asked.
pub fn linger_enabled(user: &str, printed: Option<&str>) -> (r: bool)
    ensures
        r == lingers(user@, text::opt_slice(printed)),
{
    if user.unicode_len() == 0 {
        return true;
    }
    let out = match printed {
        Some(s) => s,
        None => {
            return true;
        },
    };
    let lines = lines_of(out);
    let ghost all = text::lines(out@);
    let mut i: usize = 0;
    while i < lines.len()
        invariant
            i <= lines.len(),
            user@.len() > 0,
            text::opt_slice(printed) == Some(out@),
            all == text::lines(out@),
            all == text::texts(lines@),
            forall|k: int| 0 <= k < i ==> text::trimmed(#[trigger] all[k]) != "Linger=no"@,
        decreases lines.len() - i,
    {
        assert(all[i as int] == lines@[i as int]@);
        if same(trim(lines[i].as_str()), "Linger=no") {
            assert(says_no(out@));
            return false;
        }
        i = i + 1;
    }
    true
}

/// What supervises services on a machine.
#[derive(Debug, Clone, Copy, PartialEq, Eq, Structural)]
pub enum Supervisor {
    Launchd,
    Systemd,
    Unsupported,
}

/// What an uninstallation does, where anything is installed.
#[derive(Debug)]
pub struct Removal {
    /// The file to remove.
    pub path: String,
    /// The service to stop first, by its name; launchd goes by the file.
    pub unit: Option<String>,
}

/// What an uninstallation does: nothing where there is no file of the service.
pub fn uninstall(supervisor: Supervisor, path: String, exists: bool, agent_name: &str) -> (r: Option<
    Removal,
>)
    ensures
        r is Some == (exists && supervisor != Supervisor::Unsupported),
        r matches Some(removal) ==> removal.path == path && text::opt_text(removal.unit) == (if supervisor
            == Supervisor::Systemd {
            Some(unit_of(agent_name@))
        } else {
            None
        }),
{
    if !exists {
        return None;
    }
    match supervisor {
        Supervisor::Launchd => Some(Removal { path, unit: None }),
        Supervisor::Systemd => Some(Removal { path, unit: Some(systemd_unit_name(agent_name)) }),
        Supervisor::Unsupported => None,
    }
}

/// A service runs this program, to serve the agent that it is for.
pub proof fn law_service_serves_its_agent(
    label: Seq<char>,
    binary: Seq<char>,
    agent_name: Seq<char>,
    stdout_path: Seq<char>,
    stderr_path: Seq<char>,
)
    ensures
        text::has_infix(unit_text(binary, agent_name), binary + " serve --name "@ + agent_name),
        ({
            let plist = plist_text(label, binary, agent_name, stdout_path, stderr_path);
            &&& text::has_infix(plist, escaped(binary) + PLIST_NAME@ + escaped(agent_name))
            &&& text::has_infix(plist, escaped(label))
            &&& text::has_infix(plist, escaped(stdout_path))
            &&& text::has_infix(plist, escaped(stderr_path))
        }),
{
    let unit_head = "[Unit]\nDescription=GOSH Agent (instance: "@ + agent_name
        + ")\nAfter=network.target\n\n[Service]\nType=simple\nExecStart="@;
    let unit_tail =
        "\nRestart=on-failure\nRestartSec=5\n\n[Install]\nWantedBy=default.target\n"@;
    let run = binary + " serve --name "@ + agent_name;
    assert(unit_text(binary, agent_name) =~= unit_head + run + unit_tail);
    text::lemma_infix(unit_head, run, unit_tail);
    let plist = plist_text(label, binary, agent_name, stdout_path, stderr_path);
    let program = escaped(binary) + PLIST_NAME@ + escaped(agent_name);
    let logs = PLIST_OUT@ + escaped(stdout_path) + PLIST_ERR@ + escaped(stderr_path) + PLIST_TAIL@;
    let front = PLIST_HEAD@ + escaped(label) + PLIST_PROGRAM@;
    assert(plist =~= front + program + logs);
    text::lemma_infix(front, program, logs);
    assert(plist =~= PLIST_HEAD@ + escaped(label) + (PLIST_PROGRAM@ + program + logs));
    text::lemma_infix(PLIST_HEAD@, escaped(label), PLIST_PROGRAM@ + program + logs);
    assert(plist =~= (front + program + PLIST_OUT@) + escaped(stdout_path) + (PLIST_ERR@ + escaped(
        stderr_path,
    ) + PLIST_TAIL@));
    text::lemma_infix(
        front + program + PLIST_OUT@,
        escaped(stdout_path),
        PLIST_ERR@ + escaped(stderr_path) + PLIST_TAIL@,
    );
    assert(plist =~= (front + program + PLIST_OUT@ + escaped(stdout_path) + PLIST_ERR@) + escaped(
        stderr_path,
    ) + PLIST_TAIL@);
    text::lemma_infix(
        front + program + PLIST_OUT@ + escaped(stdout_path) + PLIST_ERR@,
        escaped(stderr_path),
        PLIST_TAIL@,
    );
}

/// Services of different agents go by different names.
pub proof fn law_services_are_told_apart(a: Seq<char>, b: Seq<char>)
    requires
        label_of(a) == label_of(b) || unit_of(a) == unit_of(b),
    ensures
        a == b,
{
    let p = "com.gosh.agent."@;
    let q = "gosh-agent-"@;
    let z = ".service"@;
    if label_of(a) == label_of(b) {
        assert(label_of(a).skip(p.len() as int) =~= a);
        assert(label_of(b).skip(p.len() as int) =~= b);
    } else {
        assert(unit_of(a).subrange(q.len() as int, unit_of(a).len() - z.len()) =~= a);
        assert(unit_of(b).subrange(q.len() as int, unit_of(b).len() - z.len()) =~= b);
    }
}

/// A description stands where its service manager looks for it, by the name of its agent.
pub proof fn law_description_goes_by_its_agent(home: Option<Seq<char>>, agent_name: Seq<char>)
    ensures
        text::has_suffix(plist_path(home, agent_name), label_of(agent_name) + ".plist"@),
        text::has_suffix(unit_path(home, agent_name), "gosh-agent-"@ + agent_name + ".service"@),
        text::has_infix(label_of(agent_name), agent_name),
{
    reveal_strlit("/");
    reveal_strlit("com.gosh.agent.");
    reveal_strlit("gosh-agent-");
    let a = label_of(agent_name) + ".plist"@;
    let b = unit_of(agent_name);
    assert(a.subrange(0, 1)[0] == 'c');
    assert(b.subrange(0, 1)[0] == 'g');
    let p = paths::joined_path(
        paths::joined_path(paths::home_or_tilde(home), "Library"@),
        "LaunchAgents"@,
    );
    let q = paths::joined_path(
        paths::joined_path(
            paths::joined_path(paths::home_or_tilde(home), ".config"@),
            "systemd"@,
        ),
        "user"@,
    );
    paths::law_path_is_joined(p, a);
    paths::law_path_is_joined(q, b);
    text::lemma_infix("com.gosh.agent."@, agent_name, seq![]);
}

/// A user's services go on without them unless their machine says that they do not.
pub proof fn law_only_a_clear_no_counts(user: Seq<char>, printed: Seq<char>, k: int)
    ensures
        lingers(user, None),
        user.len() > 0 && 0 <= k < text::lines(printed).len() && text::trimmed(
            text::lines(printed)[k],
        ) == "Linger=no"@ ==> !lingers(user, Some(printed)),
        text::lines(printed).len() == 0 ==> lingers(user, Some(printed)),
{
}

} // verus!
