//! What running a command gives.

use crate::command::{CommandLine, Invocation};
use crate::text::{
    contains, decimal, integer, integer_text, law_part_is_held, push_decimal, starts_with, trim,
    trimmed,
};
use vstd::prelude::*;

verus! {

/// What running a command gave.
#[derive(Debug, Clone)]
pub struct Outcome {
    /// The command, as it would be written by hand.
    pub command: String,
    pub success: bool,
    /// The exit code, unless a signal ended the command.
    pub code: Option<i32>,
    pub stdout: String,
    pub stderr: String,
}

/// What an outcome holds.
#[verifier::ext_equal]
pub struct OutcomeModel {
    pub command: Seq<char>,
    pub success: bool,
    pub code: Option<i32>,
    pub stdout: Seq<char>,
    pub stderr: Seq<char>,
}

impl View for Outcome {
    type V = OutcomeModel;

    open spec fn view(&self) -> OutcomeModel {
        OutcomeModel {
            command: self.command@,
            success: self.success,
            code: self.code,
            stdout: self.stdout@,
            stderr: self.stderr@,
        }
    }
}

/// What running a command gave, or why it could not be run to its end.
pub open spec fn run_result(result: Result<Outcome, String>) -> Result<OutcomeModel, Seq<char>> {
    match result {
        Ok(outcome) => Ok(outcome@),
        Err(message) => Err(message@),
    }
}

impl Outcome {
    /// What running `invocation` gave.
    pub fn of(
        invocation: &Invocation,
        success: bool,
        code: Option<i32>,
        stdout: String,
        stderr: String,
    ) -> (outcome: Outcome)
        ensures
            outcome@ == (OutcomeModel {
                command: invocation@.displayed(),
                success,
                code,
                stdout: stdout@,
                stderr: stderr@,
            }),
    {
        Outcome { command: invocation.display(), success, code, stdout, stderr }
    }
}

/// What is said of a command that could not be started.
pub fn not_started(invocation: &Invocation, error: &str) -> (message: String)
    ensures
        message@ == invocation@.program + " : "@ + error@,
{
    let mut message = invocation.program.clone();
    message.append(" : ");
    message.append(error);
    message
}

/// What is said of a command that did not end in time.
pub open spec fn too_late(command: CommandLine, seconds: nat) -> Seq<char> {
    "délai dépassé ("@ + decimal(seconds) + " s) : "@ + command.displayed()
}

/// What is said of a command that did not end within `seconds`.
pub fn timed_out(invocation: &Invocation, seconds: u64) -> (message: String)
    ensures
        message@ == too_late(invocation@, seconds as nat),
{
    let mut message = "délai dépassé (".to_string();
    push_decimal(&mut message, seconds);
    message.append(" s) : ");
    message.append(invocation.display().as_str());
    message
}

/// An exit code, as it is shown.
pub open spec fn shown_code(code: Option<i32>) -> Seq<char> {
    match code {
        Some(code) => "Some("@ + integer(code as int) + ")"@,
        None => "None"@,
    }
}

/// What is said of a command that failed: what it was for, its exit code and what it printed.
pub open spec fn failure(what: Seq<char>, outcome: OutcomeModel) -> Seq<char> {
    what + " échouée (code "@ + shown_code(outcome.code) + ").\n"@ + trim(outcome.stdout) + "\n"@
        + trim(outcome.stderr)
}

/// An exit code, as it is shown.
fn code_text(code: Option<i32>) -> (text: String)
    ensures
        text@ == shown_code(code),
{
    match code {
        Some(code) => {
            let mut text = "Some(".to_string();
            text.append(integer_text(code as i64).as_str());
            text.append(")");
            text
        },
        None => "None".to_string(),
    }
}

/// What is said of a command that failed.
pub fn failure_text(what: &str, outcome: &Outcome) -> (message: String)
    ensures
        message@ == failure(what@, outcome@),
{
    let mut message = what.to_string();
    message.append(" échouée (code ");
    message.append(code_text(outcome.code).as_str());
    message.append(").\n");
    message.append(trimmed(outcome.stdout.as_str()).as_str());
    message.append("\n");
    message.append(trimmed(outcome.stderr.as_str()).as_str());
    message
}

// ---------------------------------------------------------------------------
// Laws
// ---------------------------------------------------------------------------

/// Seven texts joined: the first one begins the whole and the last one ends it.
proof fn lemma_ends(
    a: Seq<char>,
    b: Seq<char>,
    c: Seq<char>,
    d: Seq<char>,
    e: Seq<char>,
    f: Seq<char>,
    g: Seq<char>,
)
    ensures
        ({
            let text = a + b + c + d + e + f + g;
            text.take(a.len() as int) == a && text.skip(text.len() - g.len()) == g
        }),
{
    let text = a + b + c + d + e + f + g;
    assert(text.take(a.len() as int) =~= a);
    assert(text.skip(text.len() - g.len()) =~= g);
}

/// Seven texts joined hold the third one, with the end of what stands before it and the start of
/// what follows.
proof fn lemma_third(
    a: Seq<char>,
    b1: Seq<char>,
    b2: Seq<char>,
    c: Seq<char>,
    d1: Seq<char>,
    d2: Seq<char>,
    e: Seq<char>,
    f: Seq<char>,
    g: Seq<char>,
)
    ensures
        contains(a + (b1 + b2) + c + (d1 + d2) + e + f + g, b2 + c + d1),
{
    let text = a + (b1 + b2) + c + (d1 + d2) + e + f + g;
    let part = b2 + c + d1;
    let at = a.len() + b1.len() as int;
    assert(text.subrange(at, at + part.len()) =~= part);
}

/// Seven texts joined hold the fifth one, with the end of what stands before it and what follows.
proof fn lemma_fifth(
    a: Seq<char>,
    b: Seq<char>,
    c: Seq<char>,
    d1: Seq<char>,
    d2: Seq<char>,
    e: Seq<char>,
    f: Seq<char>,
    g: Seq<char>,
)
    ensures
        contains(a + b + c + (d1 + d2) + e + f + g, d2 + e + f),
{
    let text = a + b + c + (d1 + d2) + e + f + g;
    let part = d2 + e + f;
    let at = a.len() + b.len() + c.len() + d1.len() as int;
    assert(text.subrange(at, at + part.len()) =~= part);
}

/// What is said of a command that failed begins with what it was for, and holds its exit code and
/// all that it printed, on both outputs, but for the white space around.
pub proof fn law_failure_says_all(what: Seq<char>, outcome: OutcomeModel)
    ensures
        starts_with(failure(what, outcome), what),
        outcome.code matches Some(code) ==> contains(
            failure(what, outcome),
            "(code "@ + ("Some("@ + integer(code as int) + ")"@) + ")"@,
        ),
        outcome.code is None ==> contains(failure(what, outcome), "(code "@ + "None"@ + ")"@),
        contains(failure(what, outcome), "\n"@ + trim(outcome.stdout) + "\n"@),
        failure(what, outcome).skip(failure(what, outcome).len() - trim(outcome.stderr).len())
            == trim(outcome.stderr),
{
    let code = shown_code(outcome.code);
    let out = trim(outcome.stdout);
    let err = trim(outcome.stderr);
    assert(" échouée (code "@ == " échouée "@ + "(code "@) by {
        reveal_strlit(" échouée (code ");
        reveal_strlit(" échouée ");
        reveal_strlit("(code ");
    }
    assert(").\n"@ == ")"@ + ".\n"@) by {
        reveal_strlit(").\n");
        reveal_strlit(")");
        reveal_strlit(".\n");
    }
    assert(").\n"@ == ")."@ + "\n"@) by {
        reveal_strlit(").\n");
        reveal_strlit(").");
        reveal_strlit("\n");
    }
    lemma_ends(what, " échouée (code "@, code, ").\n"@, out, "\n"@, err);
    lemma_third(what, " échouée "@, "(code "@, code, ")"@, ".\n"@, out, "\n"@, err);
    lemma_fifth(what, " échouée (code "@, code, ")."@, "\n"@, out, "\n"@, err);
}

/// What is said of a command that was too late holds the time that it was given and the command.
pub proof fn law_lateness_says_all(command: CommandLine, seconds: nat)
    ensures
        contains(too_late(command, seconds), "("@ + decimal(seconds) + " s)"@),
        contains(too_late(command, seconds), command.displayed()),
{
    reveal_strlit("délai dépassé (");
    reveal_strlit("délai dépassé ");
    reveal_strlit("(");
    reveal_strlit(" s)");
    reveal_strlit(" s) : ");
    reveal_strlit(" : ");
    let text = too_late(command, seconds);
    let part = "("@ + decimal(seconds) + " s)"@;
    assert(text =~= "délai dépassé "@ + part + (" : "@ + command.displayed()));
    law_part_is_held("délai dépassé "@, part, " : "@ + command.displayed(), text);
    let head = "délai dépassé ("@ + decimal(seconds) + " s) : "@;
    assert(text =~= head + command.displayed() + seq![]);
    law_part_is_held(head, command.displayed(), seq![], text);
}

/// What an outcome stands for holds all that the command gave.
pub proof fn law_outcome_is_held_whole(outcome: Outcome, message: String)
    ensures
        outcome@.command == outcome.command@,
        outcome@.success == outcome.success,
        outcome@.code == outcome.code,
        outcome@.stdout == outcome.stdout@,
        outcome@.stderr == outcome.stderr@,
        run_result(Ok(outcome)) == Ok::<OutcomeModel, Seq<char>>(outcome@),
        run_result(Err(message)) == Err::<OutcomeModel, Seq<char>>(message@),
{
}

} // verus!
