//! Running a model's command line.

use vstd::prelude::*;
use vstd::string::*;

use crate::llm::chat;
use crate::llm::chat::Message;
use crate::llm::chat::MessageV;
use crate::text;
use crate::text::decimal_of;
use crate::text::trim;
use crate::text::upper;

verus! {

/// How a model is reached.
#[derive(Debug, Clone, Copy, PartialEq, Eq, Structural)]
pub enum ModelBackend {
    ClaudeCli,
    CodexCli,
    GeminiCli,
    AnthropicApi,
    OpenAiApi,
    GroqApi,
    InceptionApi,
}

/// Whether a model is reached through a command line.
pub open spec fn is_cli(backend: ModelBackend) -> bool {
    match backend {
        ModelBackend::ClaudeCli | ModelBackend::CodexCli | ModelBackend::GeminiCli => true,
        _ => false,
    }
}

/// Whether a profile can be run: on a command line, one at a time.
pub fn check_profile(profile_id: &str, backend: ModelBackend, max_concurrency: usize) -> (r: Result<
    (),
    String,
>)
    ensures
        match r {
            Ok(_) => is_cli(backend) && max_concurrency == 1,
            Err(message) => if !is_cli(backend) {
                message@ == "profile "@ + profile_id@ + " is not a CLI backend"@
            } else {
                max_concurrency != 1 && message@ == "unsupported CLI profile "@ + profile_id@
                    + ": max_concurrency="@ + text::decimal(max_concurrency as nat)
                    + " (expected 1)"@
            },
        },
{
    let cli = match backend {
        ModelBackend::ClaudeCli | ModelBackend::CodexCli | ModelBackend::GeminiCli => true,
        _ => false,
    };
    if !cli {
        let mut message = "profile ".to_owned();
        message.append(profile_id);
        message.append(" is not a CLI backend");
        return Err(message);
    }
    if max_concurrency != 1 {
        let mut message = "unsupported CLI profile ".to_owned();
        message.append(profile_id);
        message.append(": max_concurrency=");
        message.append(decimal_of(max_concurrency as u64).as_str());
        message.append(" (expected 1)");
        return Err(message);
    }
    Ok(())
}

/// How many nanoseconds are left of a cooldown: `elapsed` have gone by since the last run ended,
/// where there was one.
pub open spec fn cooldown_left(elapsed: Option<u64>, cooldown_secs: u64) -> int {
    match elapsed {
        Some(e) => if cooldown_secs * 1_000_000_000 > e {
            cooldown_secs * 1_000_000_000 - e
        } else {
            0
        },
        None => 0,
    }
}

/// How many nanoseconds are left of a cooldown.
pub fn wait_cooldown(elapsed: Option<u64>, cooldown_secs: u64) -> (r: u128)
    ensures
        r == cooldown_left(elapsed, cooldown_secs),
{
    match elapsed {
        Some(e) => {
            let cooldown: u128 = cooldown_secs as u128 * 1_000_000_000;
            if cooldown > e as u128 {
                cooldown - e as u128
            } else {
                0
            }
        },
        None => 0,
    }
}

/// What a command gave: what it printed, or what it printed of its failure.
pub open spec fn command_output(
    success: bool,
    backend: Seq<char>,
    exit_status: Seq<char>,
    stdout: Seq<char>,
    stderr: Seq<char>,
) -> Result<Seq<char>, Seq<char>> {
    let out = text::trimmed(stdout);
    let err = text::trimmed(stderr);
    if !success {
        Err(
            "CLI backend "@ + backend + " exited with "@ + exit_status + ": "@ + (if err.len() > 0 {
                err
            } else {
                out
            }),
        )
    } else if out.len() > 0 {
        Ok(out)
    } else {
        Ok(err)
    }
}

/// The name of a backend in messages.
pub fn backend_label(backend: ModelBackend) -> (r: &'static str)
    ensures
        r@ == label_of(backend),
{
    match backend {
        ModelBackend::ClaudeCli => "ClaudeCli",
        ModelBackend::CodexCli => "CodexCli",
        ModelBackend::GeminiCli => "GeminiCli",
        ModelBackend::AnthropicApi => "AnthropicApi",
        ModelBackend::OpenAiApi => "OpenAiApi",
        ModelBackend::GroqApi => "GroqApi",
        ModelBackend::InceptionApi => "InceptionApi",
    }
}

/// The name of a backend in messages.
pub open spec fn label_of(backend: ModelBackend) -> Seq<char> {
    match backend {
        ModelBackend::ClaudeCli => "ClaudeCli"@,
        ModelBackend::CodexCli => "CodexCli"@,
        ModelBackend::GeminiCli => "GeminiCli"@,
        ModelBackend::AnthropicApi => "AnthropicApi"@,
        ModelBackend::OpenAiApi => "OpenAiApi"@,
        ModelBackend::GroqApi => "GroqApi"@,
        ModelBackend::InceptionApi => "InceptionApi"@,
    }
}

/// What a command gave.
pub fn run_profile_command(
    success: bool,
    backend: ModelBackend,
    exit_status: &str,
    stdout: &str,
    stderr: &str,
) -> (r: Result<String, String>)
    ensures
        ({
            let expected = command_output(
                success,
                label_of(backend),
                exit_status@,
                stdout@,
                stderr@,
            );
            match r {
                Ok(s) => expected == Ok::<Seq<char>, Seq<char>>(s@),
                Err(e) => expected == Err::<Seq<char>, Seq<char>>(e@),
            }
        }),
{
    let out = trim(stdout);
    let err = trim(stderr);
    if !success {
        let mut message = "CLI backend ".to_owned();
        message.append(backend_label(backend));
        message.append(" exited with ");
        message.append(exit_status);
        message.append(": ");
        if err.unicode_len() > 0 {
            message.append(err);
        } else {
            message.append(out);
        }
        return Err(message);
    }
    if out.unicode_len() > 0 {
        Ok(out.to_owned())
    } else {
        Ok(err.to_owned())
    }
}

/// Messages as a prompt: each under its role.
pub open spec fn roles_text(messages: Seq<MessageV>) -> Seq<char>
    decreases messages.len(),
{
    if messages.len() == 0 {
        seq![]
    } else {
        roles_text(messages.drop_last()) + text::uppercase(messages.last().role) + ":\n"@
            + messages.last().content + "\n\n"@
    }
}

/// A conversation as one prompt.
pub fn render_cli_prompt(backend: ModelBackend, system: &str, messages: &[Message]) -> (r: String)
    ensures
        r@ == system@ + "\n\n"@ + roles_text(chat::messages_view(messages@)),
{
    render_role_prompt(system, messages)
}

/// A conversation as one prompt.
pub fn render_role_prompt(system: &str, messages: &[Message]) -> (r: String)
    ensures
        r@ == system@ + "\n\n"@ + roles_text(chat::messages_view(messages@)),
{
    let ghost all = chat::messages_view(messages@);
    let ghost head = system@ + "\n\n"@;
    let mut prompt = system.to_owned();
    prompt.append("\n\n");
    let mut i: usize = 0;
    assert(head + roles_text(all.take(0)) =~= head);
    while i < messages.len()
        invariant
            i <= messages.len(),
            all == chat::messages_view(messages@),
            prompt@ == head + roles_text(all.take(i as int)),
        decreases messages.len() - i,
    {
        assert(all.take(i + 1).drop_last() =~= all.take(i as int));
        let role = upper(messages[i].role.as_str());
        prompt.append(role.as_str());
        prompt.append(":\n");
        prompt.append(messages[i].content.as_str());
        prompt.append("\n\n");
        assert(prompt@ =~= head + roles_text(all.take(i + 1)));
        i = i + 1;
    }
    assert(all.take(i as int) =~= all);
    prompt
}

/// A prompt for a CLI holds every message, behind its role in capitals.
pub proof fn law_prompt_holds_each_message(messages: Seq<MessageV>, k: int)
    requires
        0 <= k < messages.len(),
    ensures
        text::has_infix(
            roles_text(messages),
            text::uppercase(messages[k].role) + ":\n"@ + messages[k].content,
        ),
    decreases messages.len(),
{
    let front = roles_text(messages.drop_last());
    let m = messages.last();
    let block = text::uppercase(m.role) + ":\n"@ + m.content;
    assert(roles_text(messages) =~= front + block + "\n\n"@);
    if k == messages.len() - 1 {
        text::lemma_infix(front, block, "\n\n"@);
    } else {
        law_prompt_holds_each_message(messages.drop_last(), k);
        text::lemma_infix(seq![], front, block + "\n\n"@);
        assert(front + (block + "\n\n"@) =~= roles_text(messages));
        text::lemma_infix_of_infix(
            roles_text(messages),
            front,
            text::uppercase(messages[k].role) + ":\n"@ + messages[k].content,
        );
    }
}

/// What a CLI printed is what it gave, white space around it aside; one that failed gives what it
/// complained of.
pub proof fn law_output_is_what_was_printed(
    backend: Seq<char>,
    exit_status: Seq<char>,
    stdout: Seq<char>,
    stderr: Seq<char>,
)
    ensures
        text::trimmed(stdout).len() > 0 ==> command_output(true, backend, exit_status, stdout, stderr)
            == Ok::<Seq<char>, Seq<char>>(text::trimmed(stdout)),
        text::trimmed(stdout).len() == 0 ==> command_output(
            true,
            backend,
            exit_status,
            stdout,
            stderr,
        ) == Ok::<Seq<char>, Seq<char>>(text::trimmed(stderr)),
        text::trimmed(stderr).len() > 0 ==> (command_output(
            false,
            backend,
            exit_status,
            stdout,
            stderr,
        ) matches Err(e) && text::has_suffix(e, text::trimmed(stderr))),
{
    let err = text::trimmed(stderr);
    let e = "CLI backend "@ + backend + " exited with "@ + exit_status + ": "@ + err;
    assert(e.subrange(e.len() - err.len(), e.len() as int) =~= err);
}

/// A CLI rests for its cooldown after each use: what is left and what has passed make it up, and
/// afterwards nothing is left.
pub proof fn law_cooldown_is_waited_for(elapsed: u64, cooldown_secs: u64)
    ensures
        elapsed <= cooldown_secs * 1_000_000_000 ==> cooldown_left(Some(elapsed), cooldown_secs)
            + elapsed == cooldown_secs * 1_000_000_000,
        elapsed >= cooldown_secs * 1_000_000_000 ==> cooldown_left(Some(elapsed), cooldown_secs) == 0,
        cooldown_left(None, cooldown_secs) == 0,
{
}

/// A CLI that failed without a word on its error stream is told by what it printed, with how it
/// ended and which it was.
pub proof fn law_failure_names_the_cli(
    backend: Seq<char>,
    exit_status: Seq<char>,
    stdout: Seq<char>,
    stderr: Seq<char>,
)
    ensures
        command_output(false, backend, exit_status, stdout, stderr) matches Err(e)
            && text::has_prefix(e, "CLI backend "@ + backend + " exited with "@ + exit_status) && (
        text::trimmed(stderr).len() == 0 ==> text::has_suffix(e, text::trimmed(stdout))),
{
    let head = "CLI backend "@ + backend + " exited with "@ + exit_status;
    let out = text::trimmed(stdout);
    let err = text::trimmed(stderr);
    let said = if err.len() > 0 {
        err
    } else {
        out
    };
    let e = head + ": "@ + said;
    assert(e.subrange(0, head.len() as int) =~= head);
    assert(e.subrange(e.len() - said.len(), e.len() as int) =~= said);
}

/// The CLIs are told from the APIs, and each backend has a name of its own.
pub proof fn law_backends_are_told_apart(a: ModelBackend, b: ModelBackend)
    ensures
        is_cli(a) <==> a is ClaudeCli || a is CodexCli || a is GeminiCli,
        label_of(a) == label_of(b) ==> a == b,
{
    reveal_strlit("ClaudeCli");
    reveal_strlit("CodexCli");
    reveal_strlit("GeminiCli");
    reveal_strlit("AnthropicApi");
    reveal_strlit("OpenAiApi");
    reveal_strlit("GroqApi");
    reveal_strlit("InceptionApi");
    assert("ClaudeCli"@.len() == 9 && "ClaudeCli"@[0] == 'C');
    assert("CodexCli"@.len() == 8);
    assert("GeminiCli"@.len() == 9 && "GeminiCli"@[0] == 'G');
    assert("AnthropicApi"@.len() == 12 && "AnthropicApi"@[0] == 'A');
    assert("OpenAiApi"@.len() == 9 && "OpenAiApi"@[0] == 'O');
    assert("GroqApi"@.len() == 7);
    assert("InceptionApi"@.len() == 12 && "InceptionApi"@[0] == 'I');
}

} // verus!
