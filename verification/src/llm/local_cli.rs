//! Coding CLIs as model providers: which one runs, with which arguments, on which prompt.

use vstd::prelude::*;
use vstd::string::*;

use crate::llm::chat;
use crate::llm::chat::LlmResponse;
use crate::llm::chat::Message;
use crate::llm::chat::MessageV;
use crate::llm::chat::ResponseV;
use crate::llm::chat::Usage;
use crate::text;
use crate::names;
use crate::text::copy_strings;
use crate::text::debug_of;
use crate::text::is_blank;
use crate::text::join;
use crate::text::lower_ascii;
use crate::text::same;
use crate::text::strip_prefix;
use crate::text::trim;
use crate::text::upper;

verus! {

pub const CLAUDE_STDIN_PROMPT: &'static str = "Read the complete task from stdin and complete it.";

/// A coding CLI and the directory that it works in.
#[derive(Debug)]
pub struct LocalCliConfig {
    pub command: LocalCliCommand,
    pub workspace_dir: Option<String>,
}

/// Which coding CLI runs.
#[derive(Debug)]
pub enum LocalCliCommand {
    /// Legacy/custom command shape: prompt is written to stdin.
    Stdin { cli_bin: String, cli_args_prefix: Vec<String> },
    Claude,
    Codex,
    Gemini,
}

pub ghost enum CommandV {
    Stdin { cli_bin: Seq<char>, cli_args_prefix: Seq<Seq<char>> },
    Claude,
    Codex,
    Gemini,
}

pub ghost struct ConfigV {
    pub command: CommandV,
    pub workspace_dir: Option<Seq<char>>,
}

impl LocalCliCommand {
    pub open spec fn view(&self) -> CommandV {
        match self {
            LocalCliCommand::Stdin { cli_bin, cli_args_prefix } => CommandV::Stdin {
                cli_bin: cli_bin@,
                cli_args_prefix: text::texts(cli_args_prefix@),
            },
            LocalCliCommand::Claude => CommandV::Claude,
            LocalCliCommand::Codex => CommandV::Codex,
            LocalCliCommand::Gemini => CommandV::Gemini,
        }
    }
}

/// The name of the CLI that a command runs; `brand` is what Anthropic's goes by.
pub open spec fn cli_bin_name(c: CommandV, brand: Seq<char>) -> Seq<char> {
    match c {
        CommandV::Stdin { cli_bin, .. } => cli_bin,
        CommandV::Claude => brand,
        CommandV::Codex => "codex"@,
        CommandV::Gemini => "gemini"@,
    }
}

impl LocalCliConfig {
    pub open spec fn view(&self) -> ConfigV {
        ConfigV { command: self.command@, workspace_dir: text::opt_text(self.workspace_dir) }
    }

    pub fn legacy_stdin(
        cli_bin: String,
        cli_args_prefix: Vec<String>,
        workspace_dir: Option<String>,
    ) -> (r: Self)
        ensures
            r@ == (ConfigV {
                command: CommandV::Stdin {
                    cli_bin: cli_bin@,
                    cli_args_prefix: text::texts(cli_args_prefix@),
                },
                workspace_dir: text::opt_text(workspace_dir),
            }),
    {
        LocalCliConfig {
            command: LocalCliCommand::Stdin { cli_bin, cli_args_prefix },
            workspace_dir,
        }
    }

    pub fn cli_label<'a>(&self, brand: &'a str) -> (r: &'a str)
        ensures
            r@ == (match self@.command {
                CommandV::Stdin { .. } => "custom"@,
                c => cli_bin_name(c, brand@),
            }),
    {
        match &self.command {
            LocalCliCommand::Stdin { .. } => "custom",
            LocalCliCommand::Claude => brand,
            LocalCliCommand::Codex => "codex",
            LocalCliCommand::Gemini => "gemini",
        }
    }

    pub fn cli_bin_display<'a>(&'a self, brand: &'a str) -> (r: &'a str)
        ensures
            r@ == cli_bin_name(self@.command, brand@),
    {
        match &self.command {
            LocalCliCommand::Stdin { cli_bin, .. } => cli_bin.as_str(),
            LocalCliCommand::Claude => brand,
            LocalCliCommand::Codex => "codex",
            LocalCliCommand::Gemini => "gemini",
        }
    }

    /// A copy of a configuration.
    pub fn copy(&self) -> (r: LocalCliConfig)
        ensures
            r@ == self@,
    {
        let command = match &self.command {
            LocalCliCommand::Stdin { cli_bin, cli_args_prefix } => LocalCliCommand::Stdin {
                cli_bin: cli_bin.clone(),
                cli_args_prefix: copy_strings(cli_args_prefix.as_slice()),
            },
            LocalCliCommand::Claude => LocalCliCommand::Claude,
            LocalCliCommand::Codex => LocalCliCommand::Codex,
            LocalCliCommand::Gemini => LocalCliCommand::Gemini,
        };
        LocalCliConfig { command, workspace_dir: crate::text::copy_opt(&self.workspace_dir) }
    }
}

/// A coding CLI as a model provider.
pub struct LocalCliProvider {
    pub config: LocalCliConfig,
}

/// The answer of a coding CLI, from what it printed.
pub open spec fn cli_response(stdout: Seq<char>) -> ResponseV {
    ResponseV {
        text: Some(stdout),
        tool_calls: seq![],
        usage: chat::no_usage(),
        stop_reason: "stop"@,
    }
}

impl LocalCliProvider {
    pub fn new(config: LocalCliConfig) -> (r: Self)
        ensures
            r.config == config,
    {
        LocalCliProvider { config }
    }

    /// The answer of the CLI, from what it printed.
    pub fn response(stdout: String) -> (r: LlmResponse)
        ensures
            r@ == cli_response(stdout@),
    {
        let r = LlmResponse {
            text: Some(stdout),
            tool_calls: Vec::new(),
            usage: Usage::default(),
            stop_reason: "stop".to_owned(),
        };
        assert(super::chat::calls_view(r.tool_calls@) =~= seq![]);
        r
    }
}

// ── Which CLI ───────────────────────────────────────────────────────────

/// The provider that a request names: lower case, without the `local-cli/` in front of it.  A
/// request for any CLI names none.
pub open spec fn requested_provider(requested: Option<Seq<char>>) -> Option<Seq<char>> {
    match requested {
        None => None,
        Some(raw) => {
            let lowered = text::ascii_lower(text::trimmed(raw));
            if lowered.len() == 0 || lowered == "local_cli"@ || lowered == "local-cli"@ {
                None
            } else if text::without_prefix(lowered, "local-cli/"@) is Some {
                text::without_prefix(lowered, "local-cli/"@)
            } else if text::without_prefix(lowered, "local_cli/"@) is Some {
                text::without_prefix(lowered, "local_cli/"@)
            } else {
                Some(lowered)
            }
        },
    }
}

/// The CLI that a provider's name stands for.
pub open spec fn provider_command(provider: Seq<char>, brand: Seq<char>) -> Option<CommandV> {
    if provider == brand || provider == names::dashed(brand) || provider == names::underscored(
        brand,
    ) {
        Some(CommandV::Claude)
    } else if provider == "codex"@ || provider == "codex-cli"@ || provider == "codex_cli"@ {
        Some(CommandV::Codex)
    } else if provider == "gemini"@ || provider == "gemini-cli"@ || provider == "gemini_cli"@ {
        Some(CommandV::Gemini)
    } else {
        None
    }
}

pub open spec fn unsupported_message(provider: Seq<char>, brand: Seq<char>) -> Seq<char> {
    "LOCAL_CLI_UNSUPPORTED: unsupported local_cli provider '"@ + provider
        + "'; expected one of "@ + names::cli_names(brand)
}

pub open spec fn command_result(r: Result<LocalCliCommand, String>) -> Result<CommandV, Seq<char>> {
    match r {
        Ok(c) => Ok(c@),
        Err(e) => Err(e@),
    }
}

pub open spec fn config_result(r: Result<LocalCliConfig, String>) -> Result<ConfigV, Seq<char>> {
    match r {
        Ok(c) => Ok(c@),
        Err(e) => Err(e@),
    }
}

/// The command of a provider, or why there is none.
pub open spec fn command_of(provider: Seq<char>, brand: Seq<char>) -> Result<CommandV, Seq<char>> {
    match provider_command(provider, brand) {
        Some(c) => Ok(c),
        None => Err(unsupported_message(provider, brand)),
    }
}

/// The command that is chosen: the requested one, else the one that the environment names, else
/// the first of the three that is installed.
pub open spec fn chosen_command(
    requested: Option<Seq<char>>,
    env_backend: Option<Seq<char>>,
    claude: bool,
    codex: bool,
    gemini: bool,
    brand: Seq<char>,
) -> Result<CommandV, Seq<char>> {
    match requested_provider(requested) {
        Some(provider) => command_of(provider, brand),
        None => match env_backend {
            Some(raw) if text::trimmed(raw).len() > 0 => command_of(
                text::ascii_lower(text::trimmed(raw)),
                brand,
            ),
            _ => if claude {
                Ok(CommandV::Claude)
            } else if codex {
                Ok(CommandV::Codex)
            } else if gemini {
                Ok(CommandV::Gemini)
            } else {
                Err(
                    "LOCAL_CLI_UNAVAILABLE: memory selected local_cli, but no supported coding CLI was found on PATH. Install/authenticate "@
                        + brand
                        + ", codex, or gemini on the agent host, or set GOSH_LOCAL_CLI_BACKEND to one of: "@
                        + names::cli_names(brand) + "."@,
                )
            },
        },
    }
}

pub fn normalize_requested_provider(requested: Option<&str>) -> (r: Option<String>)
    ensures
        text::opt_text(r) == requested_provider(text::opt_slice(requested)),
{
    match requested {
        None => None,
        Some(raw) => {
            let lowered = lower_ascii(trim(raw));
            if lowered.as_str().is_empty() || same(lowered.as_str(), "local_cli") || same(
                lowered.as_str(),
                "local-cli",
            ) {
                return None;
            }
            match strip_prefix(lowered.as_str(), "local-cli/") {
                Some(rest) => {
                    return Some(rest.to_owned());
                },
                None => {},
            }
            match strip_prefix(lowered.as_str(), "local_cli/") {
                Some(rest) => {
                    return Some(rest.to_owned());
                },
                None => {},
            }
            Some(lowered)
        },
    }
}

pub fn command_for_provider(provider: &str, brand: &str) -> (r: Result<LocalCliCommand, String>)
    ensures
        command_result(r) == command_of(provider@, brand@),
{
    if same(provider, brand) || same(provider, names::with_dash(brand).as_str()) || same(
        provider,
        names::with_underscore(brand).as_str(),
    ) {
        Ok(LocalCliCommand::Claude)
    } else if same(provider, "codex") || same(provider, "codex-cli") || same(
        provider,
        "codex_cli",
    ) {
        Ok(LocalCliCommand::Codex)
    } else if same(provider, "gemini") || same(provider, "gemini-cli") || same(
        provider,
        "gemini_cli",
    ) {
        Ok(LocalCliCommand::Gemini)
    } else {
        let mut message: String = "LOCAL_CLI_UNSUPPORTED: unsupported local_cli provider '".to_owned();
        message.append(provider);
        message.append("'; expected one of ");
        message.append(names::list_of_clis(brand).as_str());
        Err(message)
    }
}

fn choose_command(
    requested: Option<&str>,
    env_backend: Option<&str>,
    claude: bool,
    codex: bool,
    gemini: bool,
    brand: &str,
) -> (r: Result<LocalCliCommand, String>)
    ensures
        command_result(r) == chosen_command(
            text::opt_slice(requested),
            text::opt_slice(env_backend),
            claude,
            codex,
            gemini,
            brand@,
        ),
{
    match normalize_requested_provider(requested) {
        Some(provider) => {
            return command_for_provider(provider.as_str(), brand);
        },
        None => {},
    }
    match env_backend {
        Some(raw) => {
            let provider = lower_ascii(trim(raw));
            if !provider.as_str().is_empty() {
                return command_for_provider(provider.as_str(), brand);
            }
        },
        None => {},
    }
    if claude {
        Ok(LocalCliCommand::Claude)
    } else if codex {
        Ok(LocalCliCommand::Codex)
    } else if gemini {
        Ok(LocalCliCommand::Gemini)
    } else {
        let mut message: String =
            "LOCAL_CLI_UNAVAILABLE: memory selected local_cli, but no supported coding CLI was found on PATH. Install/authenticate ".to_owned();
        message.append(brand);
        message.append(
            ", codex, or gemini on the agent host, or set GOSH_LOCAL_CLI_BACKEND to one of: ",
        );
        message.append(names::list_of_clis(brand).as_str());
        message.append(".");
        Err(message)
    }
}

/// The CLI that runs: the requested one, else the one that the environment names in
/// `env_backend`, else the first that is installed.
pub fn resolve_local_cli_config(
    requested: Option<&str>,
    workspace_dir: Option<String>,
    env_backend: Option<&str>,
    claude: bool,
    codex: bool,
    gemini: bool,
    brand: &str,
) -> (r: Result<LocalCliConfig, String>)
    ensures
        config_result(r) == (match chosen_command(
            text::opt_slice(requested),
            text::opt_slice(env_backend),
            claude,
            codex,
            gemini,
            brand@,
        ) {
            Ok(command) => Ok(ConfigV { command, workspace_dir: text::opt_text(workspace_dir) }),
            Err(e) => Err(e),
        }),
{
    match choose_command(requested, env_backend, claude, codex, gemini, brand) {
        Ok(command) => Ok(LocalCliConfig { command, workspace_dir }),
        Err(e) => Err(e),
    }
}

/// An explicit request wins: what is installed and what the environment names do not matter.
pub proof fn law_explicit_request_wins(
    requested: Option<Seq<char>>,
    env1: Option<Seq<char>>,
    env2: Option<Seq<char>>,
    claude: bool,
    codex: bool,
    gemini: bool,
    brand: Seq<char>,
)
    requires
        requested_provider(requested) is Some,
    ensures
        chosen_command(requested, env1, claude, codex, gemini, brand) == chosen_command(
            requested,
            env2,
            false,
            false,
            false,
            brand,
        ),
{
}

// ── The prompt ──────────────────────────────────────────────────────────

/// A message as a coding CLI reads it.
pub open spec fn message_block(m: MessageV) -> Seq<char> {
    text::uppercase(m.role) + ":\n"@ + m.content
}

/// The prompt that a coding CLI reads.
pub open spec fn cli_prompt(system: Seq<char>, messages: Seq<MessageV>) -> Seq<char> {
    text::joined(
        seq!["SYSTEM:\n"@ + system] + messages.map_values(|m: MessageV| message_block(m)),
        "\n\n"@,
    )
}

pub fn render_local_cli_prompt(system: &str, messages: &[Message]) -> (r: String)
    ensures
        r@ == cli_prompt(system@, chat::messages_view(messages@)),
{
    let mut first: String = "SYSTEM:\n".to_owned();
    first.append(system);
    let mut blocks: Vec<String> = Vec::new();
    blocks.push(first);
    let ghost all = seq!["SYSTEM:\n"@ + system@] + chat::messages_view(messages@).map_values(
        |m: MessageV| message_block(m),
    );
    let mut i: usize = 0;
    while i < messages.len()
        invariant
            i <= messages.len(),
            blocks.len() == i + 1,
            all == seq!["SYSTEM:\n"@ + system@] + chat::messages_view(messages@).map_values(
                |m: MessageV| message_block(m),
            ),
            forall|k: int| 0 <= k <= i ==> (#[trigger] blocks@[k])@ == all[k],
        decreases messages.len() - i,
    {
        let mut block: String = upper(messages[i].role.as_str());
        block.append(":\n");
        block.append(messages[i].content.as_str());
        assert(block@ == all[i + 1]);
        blocks.push(block);
        i = i + 1;
    }
    assert(text::texts(blocks@) =~= all);
    join(blocks.as_slice(), "\n\n")
}

// ── The subprocess ──────────────────────────────────────────────────────

/// How a CLI is run.
#[derive(Debug)]
pub struct LocalCliInvocation {
    pub cli_bin: String,
    pub args: Vec<String>,
    pub writes_stdin: bool,
}

pub ghost struct InvocationV {
    pub cli_bin: Seq<char>,
    pub args: Seq<Seq<char>>,
    pub writes_stdin: bool,
}

impl LocalCliInvocation {
    pub open spec fn view(&self) -> InvocationV {
        InvocationV {
            cli_bin: self.cli_bin@,
            args: text::texts(self.args@),
            writes_stdin: self.writes_stdin,
        }
    }

    /// A CLI that reads the prompt from its standard input.
    pub fn stdin(cli_bin: &str, args: Vec<String>) -> (r: Self)
        ensures
            r@ == (InvocationV { cli_bin: cli_bin@, args: text::texts(args@), writes_stdin: true }),
    {
        LocalCliInvocation { cli_bin: cli_bin.to_owned(), args, writes_stdin: true }
    }
}

/// The arguments of a CLI.
pub open spec fn cli_args(c: CommandV) -> Seq<Seq<char>> {
    match c {
        CommandV::Stdin { cli_args_prefix, .. } => cli_args_prefix,
        CommandV::Claude => seq![
            "-p"@,
            "--dangerously-skip-permissions"@,
            CLAUDE_STDIN_PROMPT@,
        ],
        CommandV::Codex => seq![
            "exec"@,
            "--dangerously-bypass-approvals-and-sandbox"@,
            "--ephemeral"@,
            "-"@,
        ],
        CommandV::Gemini => seq!["--yolo"@],
    }
}

/// How a configured CLI is run: the prompt always goes to its standard input.
pub open spec fn invocation(c: CommandV, brand: Seq<char>) -> Result<InvocationV, Seq<char>> {
    match c {
        CommandV::Stdin { cli_bin, .. } if text::trimmed(cli_bin).len() == 0 => Err(
            "local_cli cli_bin is empty"@,
        ),
        _ => Ok(
            InvocationV {
                cli_bin: cli_bin_name(c, brand),
                args: cli_args(c),
                writes_stdin: true,
            },
        ),
    }
}

pub open spec fn invocation_result(r: Result<LocalCliInvocation, String>) -> Result<
    InvocationV,
    Seq<char>,
> {
    match r {
        Ok(i) => Ok(i@),
        Err(e) => Err(e@),
    }
}

/// No prompt ever stands among the arguments: they do not depend on it, and standard input is
/// where it goes.
pub proof fn law_prompt_goes_to_stdin(c: CommandV, brand: Seq<char>)
    ensures
        invocation(c, brand) matches Ok(i) ==> i.writes_stdin && i.args == cli_args(c),
{
}

pub fn configure_command(config: &LocalCliConfig, brand: &str) -> (r: Result<
    LocalCliInvocation,
    String,
>)
    ensures
        invocation_result(r) == invocation(config@.command, brand@),
{
    match &config.command {
        LocalCliCommand::Stdin { cli_bin, cli_args_prefix } => {
            if is_blank(cli_bin.as_str()) {
                return Err("local_cli cli_bin is empty".to_owned());
            }
            Ok(
                LocalCliInvocation::stdin(
                    cli_bin.as_str(),
                    copy_strings(cli_args_prefix.as_slice()),
                ),
            )
        },
        LocalCliCommand::Claude => {
            let mut args: Vec<String> = Vec::new();
            args.push("-p".to_owned());
            args.push("--dangerously-skip-permissions".to_owned());
            args.push(CLAUDE_STDIN_PROMPT.to_owned());
            assert(text::texts(args@) =~= cli_args(CommandV::Claude));
            Ok(LocalCliInvocation::stdin(brand, args))
        },
        LocalCliCommand::Codex => {
            let mut args: Vec<String> = Vec::new();
            args.push("exec".to_owned());
            args.push("--dangerously-bypass-approvals-and-sandbox".to_owned());
            args.push("--ephemeral".to_owned());
            args.push("-".to_owned());
            assert(text::texts(args@) =~= cli_args(CommandV::Codex));
            Ok(LocalCliInvocation::stdin("codex", args))
        },
        LocalCliCommand::Gemini => {
            let mut args: Vec<String> = Vec::new();
            args.push("--yolo".to_owned());
            assert(text::texts(args@) =~= cli_args(CommandV::Gemini));
            Ok(LocalCliInvocation::stdin("gemini", args))
        },
    }
}

/// The directory that a CLI works in, where one is configured.
pub open spec fn workspace_of(config: ConfigV) -> Result<Option<Seq<char>>, Seq<char>> {
    match config.workspace_dir {
        None => Ok(None),
        Some(raw) => if text::trimmed(raw).len() == 0 {
            Err("LOCAL_CLI_WORKSPACE_INVALID: workspace_dir is empty"@)
        } else {
            Ok(Some(text::trimmed(raw)))
        },
    }
}

pub open spec fn workspace_result(r: Result<Option<&str>, String>) -> Result<
    Option<Seq<char>>,
    Seq<char>,
> {
    match r {
        Ok(o) => Ok(text::opt_slice(o)),
        Err(e) => Err(e@),
    }
}

/// The directory that a CLI works in, where one is configured.
pub fn resolve_workspace_dir(config: &LocalCliConfig) -> (r: Result<Option<&str>, String>)
    ensures
        workspace_result(r) == workspace_of(config@),
{
    match &config.workspace_dir {
        None => Ok(None),
        Some(raw) => {
            let dir = trim(raw.as_str());
            if dir.is_empty() {
                Err("LOCAL_CLI_WORKSPACE_INVALID: workspace_dir is empty".to_owned())
            } else {
                Ok(Some(dir))
            }
        },
    }
}

/// What is wrong with a directory that a CLI should work in, from what is found at its path.
pub fn check_workspace_dir(path: &str, exists: bool, is_dir: bool) -> (r: Result<(), String>)
    ensures
        match r {
            Ok(_) => exists && is_dir,
            Err(e) => !(exists && is_dir) && e@ == (if !exists {
                "LOCAL_CLI_WORKSPACE_INVALID: workspace_dir does not exist: "@ + path@
            } else {
                "LOCAL_CLI_WORKSPACE_INVALID: workspace_dir is not a directory: "@ + path@
            }),
        },
{
    if !exists {
        let mut message: String =
            "LOCAL_CLI_WORKSPACE_INVALID: workspace_dir does not exist: ".to_owned();
        message.append(path);
        Err(message)
    } else if !is_dir {
        let mut message: String =
            "LOCAL_CLI_WORKSPACE_INVALID: workspace_dir is not a directory: ".to_owned();
        message.append(path);
        Err(message)
    } else {
        Ok(())
    }
}

/// What a finished CLI amounts to: what it printed, or a report of how it failed.
pub fn cli_outcome(success: bool, exit_status: &str, stdout: String, stderr: &str) -> (r: Result<
    String,
    String,
>)
    ensures
        match r {
            Ok(out) => success && out@ == stdout@,
            Err(e) => !success && e@ == "local_cli subprocess failed (exit_code="@ + exit_status@
                + ", stdout="@ + text::debug_text(text::trimmed(stdout@)) + ", stderr="@ + text::debug_text(
                text::trimmed(stderr@),
            ) + ")"@,
        },
{
    if success {
        return Ok(stdout);
    }
    let mut message: String = "local_cli subprocess failed (exit_code=".to_owned();
    message.append(exit_status);
    message.append(", stdout=");
    message.append(debug_of(trim(stdout.as_str())).as_str());
    message.append(", stderr=");
    message.append(debug_of(trim(stderr)).as_str());
    message.append(")");
    Err(message)
}

/// A coding CLI reads the whole conversation: its prompt begins with the system prompt and holds
/// the content of every message, behind its role in capitals.
pub proof fn law_prompt_holds_the_conversation(system: Seq<char>, messages: Seq<MessageV>, k: int)
    requires
        0 <= k < messages.len(),
    ensures
        text::has_infix(cli_prompt(system, messages), "SYSTEM:\n"@ + system),
        text::has_infix(
            cli_prompt(system, messages),
            text::uppercase(messages[k].role) + ":\n"@ + messages[k].content,
        ),
{
    let parts = seq!["SYSTEM:\n"@ + system] + messages.map_values(|m: MessageV| message_block(m));
    text::law_joined_text_holds_each_part(parts, "\n\n"@, 0);
    text::law_joined_text_holds_each_part(parts, "\n\n"@, k + 1);
    assert(parts[k + 1] == message_block(messages[k]));
}

/// What a coding CLI printed is its answer, to the letter, and it calls no tools.
pub proof fn law_output_is_the_answer(stdout: Seq<char>)
    ensures
        cli_response(stdout).text == Some(stdout),
        cli_response(stdout).tool_calls.len() == 0,
{
}

/// Each of the supported CLIs is found by its name, its command is run by its own name, and a
/// name that is none of theirs is refused.
pub proof fn law_cli_is_run_by_its_name(brand: Seq<char>, other: Seq<char>)
    requires
        brand != "codex"@ && brand != "gemini"@,
    ensures
        provider_command(brand, brand) == Some(CommandV::Claude),
        invocation(CommandV::Claude, brand) matches Ok(i) && i.cli_bin == brand,
        invocation(CommandV::Codex, brand) matches Ok(i) && i.cli_bin == "codex"@,
        invocation(CommandV::Gemini, brand) matches Ok(i) && i.cli_bin == "gemini"@,
        provider_command(other, brand) is None ==> command_of(other, brand) is Err,
{
}

/// A request goes by the provider that it names, with or without the prefix of local CLIs, in any
/// case of letters; one that names none leaves the choice open.
pub proof fn law_request_names_its_provider(raw: Seq<char>)
    ensures
        ({
            let name = text::ascii_lower(text::trimmed(raw));
            &&& name.len() == 0 ==> requested_provider(Some(raw)) is None
            &&& name == "local_cli"@ || name == "local-cli"@ ==> requested_provider(Some(raw)) is None
            &&& name.len() > 0 && name != "local_cli"@ && name != "local-cli"@ ==> {
                &&& text::without_prefix(name, "local-cli/"@) matches Some(rest)
                    ==> requested_provider(Some(raw)) == Some(rest)
                &&& !text::has_prefix(name, "local-cli/"@) ==> (text::without_prefix(
                    name,
                    "local_cli/"@,
                ) matches Some(rest) ==> requested_provider(Some(raw)) == Some(rest))
                &&& !text::has_prefix(name, "local-cli/"@) && !text::has_prefix(name, "local_cli/"@)
                    ==> requested_provider(Some(raw)) == Some(name)
            }
        }),
        requested_provider(None) is None,
{
}

/// Where nothing is asked for, the environment's word counts, else the first CLI that is there.
pub proof fn law_first_cli_there_is_used(
    raw: Seq<char>,
    claude_there: bool,
    codex: bool,
    gemini: bool,
    brand: Seq<char>,
)
    ensures
        text::trimmed(raw).len() > 0 ==> chosen_command(
            None,
            Some(raw),
            claude_there,
            codex,
            gemini,
            brand,
        ) == command_of(text::ascii_lower(text::trimmed(raw)), brand),
        text::trimmed(raw).len() == 0 ==> chosen_command(
            None,
            Some(raw),
            claude_there,
            codex,
            gemini,
            brand,
        ) == chosen_command(None, None, claude_there, codex, gemini, brand),
        chosen_command(None, None, true, codex, gemini, brand) == Ok::<CommandV, Seq<char>>(
            CommandV::Claude,
        ),
        chosen_command(None, None, false, true, gemini, brand) == Ok::<CommandV, Seq<char>>(
            CommandV::Codex,
        ),
        chosen_command(None, None, false, false, true, brand) == Ok::<CommandV, Seq<char>>(
            CommandV::Gemini,
        ),
        chosen_command(None, None, false, false, false, brand) is Err,
{
}

/// Each CLI goes by its name, with the word for a CLI behind it or without; any other name is
/// refused by its own.
pub proof fn law_providers_go_by_their_names(brand: Seq<char>, other: Seq<char>)
    requires
        brand != "codex"@ && brand != "gemini"@ && names::dashed(brand) != "codex"@
            && names::dashed(brand) != "gemini"@ && names::underscored(brand) != "codex"@
            && names::underscored(brand) != "gemini"@,
    ensures
        provider_command("codex"@, brand) == Some(CommandV::Codex),
        provider_command("gemini"@, brand) == Some(CommandV::Gemini),
        provider_command(names::dashed(brand), brand) == Some(CommandV::Claude),
        provider_command(names::underscored(brand), brand) == Some(CommandV::Claude),
        provider_command("codex-cli"@, brand) is Some,
        provider_command("gemini_cli"@, brand) is Some,
        provider_command(other, brand) is None ==> (command_of(other, brand) matches Err(e)
            && text::has_infix(e, other)),
        provider_command(other, brand) matches Some(c) ==> command_of(other, brand) == Ok::<
            CommandV,
            Seq<char>,
        >(c),
{
    reveal_strlit("codex");
    reveal_strlit("gemini");
    reveal_strlit("codex-cli");
    reveal_strlit("codex_cli");
    assert("codex"@.len() != "gemini"@.len());
    assert("codex-cli"@.len() != "gemini"@.len() && "codex_cli"@.len() != "gemini"@.len());
    let head = "LOCAL_CLI_UNSUPPORTED: unsupported local_cli provider '"@;
    let tail = "'; expected one of "@ + names::cli_names(brand);
    assert(unsupported_message(other, brand) =~= head + other + tail);
    text::lemma_infix(head, other, tail);
}

/// A CLI of one's own is run by its name with the arguments that it was given; without a name it is
/// not run.
pub proof fn law_own_cli_is_run_as_given(bin: Seq<char>, args: Seq<Seq<char>>, brand: Seq<char>)
    ensures
        ({
            let c = CommandV::Stdin { cli_bin: bin, cli_args_prefix: args };
            &&& text::trimmed(bin).len() > 0 ==> (invocation(c, brand) matches Ok(i) && i.cli_bin == bin
                && i.args == args && i.writes_stdin)
            &&& text::trimmed(bin).len() == 0 ==> invocation(c, brand) is Err
        }),
{
}

/// The CLIs that are known are run so that they do not stop to ask.
pub proof fn law_known_clis_do_not_stop_to_ask(brand: Seq<char>)
    ensures
        invocation(CommandV::Claude, brand) matches Ok(i) && i.args.len() == 3 && i.args[0] == "-p"@
            && i.args[1] == "--dangerously-skip-permissions"@,
        invocation(CommandV::Codex, brand) matches Ok(i) && i.args.len() == 4 && i.args[0] == "exec"@
            && i.args[1] == "--dangerously-bypass-approvals-and-sandbox"@ && i.args[2]
            == "--ephemeral"@ && i.args[3] == "-"@,
        invocation(CommandV::Gemini, brand) matches Ok(i) && i.args.len() == 1 && i.args[0]
            == "--yolo"@,
{
}

/// A CLI works in the directory that it was given, without the space around it.
pub proof fn law_given_directory_is_used(config: ConfigV, raw: Seq<char>)
    ensures
        config.workspace_dir is None ==> workspace_of(config) == Ok::<Option<Seq<char>>, Seq<char>>(
            None,
        ),
        config.workspace_dir == Some(raw) && text::trimmed(raw).len() > 0 ==> workspace_of(config)
            == Ok::<Option<Seq<char>>, Seq<char>>(Some(text::trimmed(raw))),
        config.workspace_dir == Some(raw) && text::trimmed(raw).len() == 0 ==> workspace_of(config)
            is Err,
{
}

} // verus!
