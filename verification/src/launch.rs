//! The launcher: what `serve`, `stop` and `probe` do, as a function of what the commands that
//! they run give.

use crate::command::{
    activation, engine_venv, has_pair, kill_line, kill_stale_invocation,
    law_each_setting_is_passed_on, law_line_is_passed_whole, law_start_runs_the_serve_command,
    lemma_pair_after_word, probe_invocation, probe_line, serve_command, serve_invocation,
    start_line, wrapped, CommandLine, Invocation, DEFAULT_PORT,
};
use crate::outcome::{run_result, Outcome, OutcomeModel};
use crate::paths::engine_model;
use crate::probe::{
    lacking, law_ready_means_all_is_there, law_what_was_reported_is_named, parse_probe, report_of,
    Probe, Report,
};
use crate::runtime::{Host, Runtime};
use crate::settings::{Settings, SettingsModel};
use crate::shell::{command_words, quoted};
use crate::text::{
    after_prefix, contains, decimal, is_blank, law_numeral_is_read_back, law_part_is_held,
    law_trim_takes_off_white_space, parse_unsigned, push_decimal, same_text, starts_with, trim,
    trimmed, unsigned,
};
use vstd::prelude::*;

verus! {

// ---------------------------------------------------------------------------
// Arguments
// ---------------------------------------------------------------------------

/// How the launcher is used.
pub const USAGE: &'static str = "locaryn-freetoken-launch — lance le serveur FreeToken pour Locaryn\n\nserve --port <n> --model <chemin|depot>   démarre le serveur\nstop  --port <n>                          arrête un serveur resté en place\nprobe                                     dit ce qui manque sur cette machine\n";

/// How long the machine is given to report what it offers, in seconds.
pub const PROBE_SECONDS: u64 = 120;

/// How long stopping the servers on a port may take, in seconds.
pub const STOP_SECONDS: u64 = 30;

/// What the launcher is asked to do.
#[derive(Debug, Clone)]
pub enum LaunchCommand {
    Serve,
    Stop,
    Probe,
    Help,
    Unknown { name: String },
}

/// What the launcher is asked to do by its first argument.
pub fn launch_command(first: Option<&str>) -> (command: LaunchCommand)
    ensures
        match first {
            Some(first) => {
                &&& command is Serve <==> first@ == "serve"@
                &&& command is Stop <==> first@ == "stop"@
                &&& command is Probe <==> first@ == "probe"@
                &&& command is Help <==> first@ == "--help"@ || first@ == "-h"@
                &&& command matches LaunchCommand::Unknown { name } ==> name@ == first@
            },
            None => command is Help,
        },
{
    proof {
        reveal_strlit("serve");
        reveal_strlit("stop");
        reveal_strlit("probe");
        reveal_strlit("--help");
        reveal_strlit("-h");
        assert("serve"@[1] != "stop"@[1]);
        assert("serve"@[0] != "probe"@[0]);
        assert("serve"@[0] != "--help"@[0]);
        assert("serve"@[0] != "-h"@[0]);
        assert("stop"@[0] != "probe"@[0]);
        assert("stop"@[0] != "--help"@[0]);
        assert("stop"@[0] != "-h"@[0]);
        assert("probe"@[0] != "--help"@[0]);
        assert("probe"@[0] != "-h"@[0]);
    }
    match first {
        Some(first) => if same_text(first, "serve") {
            LaunchCommand::Serve
        } else if same_text(first, "stop") {
            LaunchCommand::Stop
        } else if same_text(first, "probe") {
            LaunchCommand::Probe
        } else if same_text(first, "--help") || same_text(first, "-h") {
            LaunchCommand::Help
        } else {
            LaunchCommand::Unknown { name: first.to_string() }
        },
        None => LaunchCommand::Help,
    }
}

/// What is said of an unknown command.
pub fn unknown_command(name: &str) -> (message: String)
    ensures
        message@ == "[freetoken] commande inconnue : "@ + name@,
{
    let mut message = "[freetoken] commande inconnue : ".to_string();
    message.append(name);
    message
}

/// The value of the flag `name`, in the argument after it or, after an equals sign, in the same
/// one. The first flag of that name counts; where it stands last it has no value.
pub open spec fn flag_value(args: Seq<Seq<char>>, name: Seq<char>) -> Option<Seq<char>>
    decreases args.len(),
{
    if args.len() == 0 {
        None
    } else if args[0] == name {
        if args.len() > 1 {
            Some(args[1])
        } else {
            None
        }
    } else if starts_with(args[0], name + "="@) {
        Some(args[0].skip(name.len() as int + 1))
    } else {
        flag_value(args.skip(1), name)
    }
}

/// The value of the flag `name` among `args`.
pub fn flag(args: &Vec<String>, name: &str) -> (value: Option<String>)
    ensures
        value.deep_view() == flag_value(args.deep_view(), name@),
{
    let ghost texts = args.deep_view();
    let mut prefix = name.to_string();
    prefix.append("=");
    proof {
        reveal_strlit("=");
        assert(texts.skip(0) =~= texts);
    }
    let mut i: usize = 0;
    while i < args.len()
        invariant
            i <= args@.len(),
            texts == args.deep_view(),
            prefix@ == name@ + "="@,
            "="@.len() == 1,
            flag_value(texts, name@) == flag_value(texts.skip(i as int), name@),
        decreases args@.len() - i,
    {
        let ghost rest = texts.skip(i as int);
        assert(rest[0] == args@[i as int]@);
        if same_text(args[i].as_str(), name) {
            if i + 1 < args.len() {
                assert(rest[1] == args@[i + 1]@);
                return Some(args[i + 1].clone());
            }
            return None;
        }
        let value = after_prefix(args[i].as_str(), prefix.as_str());
        if value.is_some() {
            return value;
        }
        assert(rest.skip(1) =~= texts.skip(i + 1));
        i += 1;
    }
    None
}

/// The port that the arguments name, or the default one where they name none that is a port.
pub open spec fn port_of(args: Seq<Seq<char>>) -> nat {
    match flag_value(args, "--port"@) {
        Some(text) => match unsigned(text, u16::MAX as nat) {
            Some(port) => port,
            None => DEFAULT_PORT as nat,
        },
        None => DEFAULT_PORT as nat,
    }
}

/// The port that the arguments name.
pub fn port_argument(args: &Vec<String>) -> (port: u16)
    ensures
        port == port_of(args.deep_view()),
{
    match flag(args, "--port") {
        Some(text) => match parse_unsigned(text.as_str(), u16::MAX as u32) {
            Some(port) => port as u16,
            None => DEFAULT_PORT,
        },
        None => DEFAULT_PORT,
    }
}

// ---------------------------------------------------------------------------
// Starting the server
// ---------------------------------------------------------------------------

/// How the launcher ends: what it says, and the code that it exits with.
#[derive(Debug, Clone)]
pub struct Ending {
    pub code: i32,
    pub notice: Option<String>,
}

/// The code of a launcher that succeeds.
pub const SUCCESS: i32 = 0;

/// The code of a launcher that fails on its own account.
pub const FAILURE: i32 = 1;

/// What the launcher is waiting for.
#[derive(Debug, Clone)]
pub enum LaunchState {
    /// What the machine reports.
    Probing { port: u16, model: String },
    /// That the port is free.
    Clearing { port: u16, model: String },
    /// To become the server, which it learns of only if it cannot.
    Becoming { program: String },
    /// The end of the server.
    Watching { port: u16, program: String },
    /// That nothing of the server is left.
    Cleaning { ending: Ending },
    /// Nothing.
    Done,
}

/// What the launcher does next.
#[derive(Debug, Clone)]
pub enum LaunchAction {
    /// Says `notice`, if there is one, and runs a command to its end.
    Run { notice: Option<String>, invocation: Invocation, seconds: u64 },
    /// Says `notice` and becomes the server.
    Become { notice: String, invocation: Invocation },
    /// Says `notice`, starts the server and waits for its end.
    Watch { notice: String, invocation: Invocation },
    /// Ends.
    Exit { ending: Ending },
}

/// What the launcher learns from what it did.
#[derive(Debug)]
pub enum LaunchEvent {
    /// What the command gave.
    Ran { result: Result<Outcome, String> },
    /// The server could not be started.
    NotStarted { error: String },
    /// The server ended, with the given status, and with an exit code unless a signal ended it.
    Ended { success: bool, code: Option<i32>, status: String },
    /// The server could not be waited for.
    NotAwaited { error: String },
}

/// A state and an action.
#[derive(Debug, Clone)]
pub struct LaunchStep {
    pub state: LaunchState,
    pub action: LaunchAction,
}

/// What an ending holds.
#[verifier::ext_equal]
pub struct EndingModel {
    pub code: i32,
    pub notice: Option<Seq<char>>,
}

/// What a state of the launcher holds.
#[verifier::ext_equal]
pub enum LaunchStateModel {
    Probing { port: nat, model: Seq<char> },
    Clearing { port: nat, model: Seq<char> },
    Becoming { program: Seq<char> },
    Watching { port: nat, program: Seq<char> },
    Cleaning { ending: EndingModel },
    Done,
}

/// What an action of the launcher holds.
#[verifier::ext_equal]
pub enum LaunchActionModel {
    Run { notice: Option<Seq<char>>, command: CommandLine, seconds: nat },
    Become { notice: Seq<char>, command: CommandLine },
    Watch { notice: Seq<char>, command: CommandLine },
    Exit { ending: EndingModel },
}

/// What an event holds.
#[verifier::ext_equal]
pub enum LaunchEventModel {
    Ran { result: Result<OutcomeModel, Seq<char>> },
    NotStarted { error: Seq<char> },
    Ended { success: bool, code: Option<i32>, status: Seq<char> },
    NotAwaited { error: Seq<char> },
}

/// What a step of the launcher holds.
#[verifier::ext_equal]
pub struct LaunchStepModel {
    pub state: LaunchStateModel,
    pub action: LaunchActionModel,
}

impl View for Ending {
    type V = EndingModel;

    open spec fn view(&self) -> EndingModel {
        EndingModel { code: self.code, notice: self.notice.deep_view() }
    }
}

impl View for LaunchState {
    type V = LaunchStateModel;

    open spec fn view(&self) -> LaunchStateModel {
        match *self {
            LaunchState::Probing { port, model } => LaunchStateModel::Probing {
                port: port as nat,
                model: model@,
            },
            LaunchState::Clearing { port, model } => LaunchStateModel::Clearing {
                port: port as nat,
                model: model@,
            },
            LaunchState::Becoming { program } => LaunchStateModel::Becoming { program: program@ },
            LaunchState::Watching { port, program } => LaunchStateModel::Watching {
                port: port as nat,
                program: program@,
            },
            LaunchState::Cleaning { ending } => LaunchStateModel::Cleaning { ending: ending@ },
            LaunchState::Done => LaunchStateModel::Done,
        }
    }
}

impl View for LaunchAction {
    type V = LaunchActionModel;

    open spec fn view(&self) -> LaunchActionModel {
        match *self {
            LaunchAction::Run { notice, invocation, seconds } => LaunchActionModel::Run {
                notice: notice.deep_view(),
                command: invocation@,
                seconds: seconds as nat,
            },
            LaunchAction::Become { notice, invocation } => LaunchActionModel::Become {
                notice: notice@,
                command: invocation@,
            },
            LaunchAction::Watch { notice, invocation } => LaunchActionModel::Watch {
                notice: notice@,
                command: invocation@,
            },
            LaunchAction::Exit { ending } => LaunchActionModel::Exit { ending: ending@ },
        }
    }
}

impl View for LaunchEvent {
    type V = LaunchEventModel;

    open spec fn view(&self) -> LaunchEventModel {
        match *self {
            LaunchEvent::Ran { result } => LaunchEventModel::Ran { result: run_result(result) },
            LaunchEvent::NotStarted { error } => LaunchEventModel::NotStarted { error: error@ },
            LaunchEvent::Ended { success, code, status } => LaunchEventModel::Ended {
                success,
                code,
                status: status@,
            },
            LaunchEvent::NotAwaited { error } => LaunchEventModel::NotAwaited { error: error@ },
        }
    }
}

impl View for LaunchStep {
    type V = LaunchStepModel;

    open spec fn view(&self) -> LaunchStepModel {
        LaunchStepModel { state: self.state@, action: self.action@ }
    }
}

impl LaunchStateModel {
    /// The events that can come in this state.
    pub open spec fn awaits(self, event: LaunchEventModel) -> bool {
        match (self, event) {
            (LaunchStateModel::Probing { .. }, LaunchEventModel::Ran { .. }) => true,
            (LaunchStateModel::Clearing { .. }, LaunchEventModel::Ran { .. }) => true,
            (LaunchStateModel::Becoming { .. }, LaunchEventModel::NotStarted { .. }) => true,
            (LaunchStateModel::Watching { .. }, LaunchEventModel::Ran { .. }) => false,
            (LaunchStateModel::Watching { .. }, _) => true,
            (LaunchStateModel::Cleaning { .. }, LaunchEventModel::Ran { .. }) => true,
            _ => false,
        }
    }
}

impl LaunchActionModel {
    /// The events that the action can give.
    pub open spec fn gives(self, event: LaunchEventModel) -> bool {
        match (self, event) {
            (LaunchActionModel::Run { .. }, LaunchEventModel::Ran { .. }) => true,
            (LaunchActionModel::Become { .. }, LaunchEventModel::NotStarted { .. }) => true,
            (LaunchActionModel::Watch { .. }, LaunchEventModel::Ran { .. }) => false,
            (LaunchActionModel::Watch { .. }, _) => true,
            _ => false,
        }
    }
}

impl LaunchState {
    /// Whether the event can come in this state.
    pub fn awaits(&self, event: &LaunchEvent) -> (awaited: bool)
        ensures
            awaited == self@.awaits(event@),
    {
        match (self, event) {
            (LaunchState::Probing { .. }, LaunchEvent::Ran { .. }) => true,
            (LaunchState::Clearing { .. }, LaunchEvent::Ran { .. }) => true,
            (LaunchState::Becoming { .. }, LaunchEvent::NotStarted { .. }) => true,
            (LaunchState::Watching { .. }, LaunchEvent::Ran { .. }) => false,
            (LaunchState::Watching { .. }, _) => true,
            (LaunchState::Cleaning { .. }, LaunchEvent::Ran { .. }) => true,
            _ => false,
        }
    }
}

/// The step of a launcher that fails.
pub open spec fn launch_failure(notice: Seq<char>) -> LaunchStepModel {
    LaunchStepModel {
        state: LaunchStateModel::Done,
        action: LaunchActionModel::Exit {
            ending: EndingModel { code: FAILURE, notice: Some(notice) },
        },
    }
}

/// What is said where no model is named.
pub open spec fn no_model() -> Seq<char> {
    "[freetoken] aucun modèle : le moteur ne démarre pas sans poids.\nChoisissez un checkpoint dans Réglages → Moteur, ou dans le catalogue de modèles (filtre « Mixture-of-Experts »)."@
}

/// The model that the arguments name.
pub open spec fn model_of(args: Seq<Seq<char>>) -> Seq<char> {
    match flag_value(args, "--model"@) {
        Some(model) => model,
        None => seq![],
    }
}

/// How `serve` begins: it fails where no model is named, and else asks the machine.
pub open spec fn serve_begins(args: Seq<Seq<char>>, host: Host, runtime: Runtime) -> LaunchStepModel {
    if trim(model_of(args)).len() == 0 {
        launch_failure(no_model())
    } else {
        LaunchStepModel {
            state: LaunchStateModel::Probing { port: port_of(args), model: model_of(args) },
            action: LaunchActionModel::Run {
                notice: None,
                command: wrapped(runtime, probe_line(quoted(engine_venv(host, runtime)))),
                seconds: PROBE_SECONDS as nat,
            },
        }
    }
}

/// Lines, each after a line break and a dash.
pub open spec fn listed(lines: Seq<Seq<char>>) -> Seq<char>
    decreases lines.len(),
{
    if lines.len() == 0 {
        seq![]
    } else {
        listed(lines.drop_last()) + "\n  - "@ + lines.last()
    }
}

/// What is said of a machine that lacks something: all that it lacks, and what the probe had to
/// complain about.
pub open spec fn not_ready(missing: Seq<Seq<char>>, stderr: Seq<char>) -> Seq<char> {
    "[freetoken] le moteur ne peut pas démarrer sur cette machine :"@ + listed(missing) + (if trim(
        stderr,
    ).len() == 0 {
        seq![]
    } else {
        "\n[freetoken] sortie d'erreur de la sonde :\n"@ + trim(stderr)
    })
}

/// What is said of a machine that could not be asked.
pub open spec fn not_probed(error: Seq<char>) -> Seq<char> {
    "[freetoken] impossible de sonder la machine : "@ + error
        + "\nSous Windows, vérifiez que WSL2 est installé (« wsl --install ») et qu'une distribution démarre."@
}

/// The text, or a question mark.
pub open spec fn or_unknown(text: Option<Seq<char>>) -> Seq<char> {
    match text {
        Some(text) => text,
        None => "?"@,
    }
}

/// What is said of a machine that lacks nothing.
pub open spec fn summary(report: Report) -> Seq<char> {
    "[freetoken] "@ + or_unknown(report.os) + " · pilote "@ + or_unknown(report.driver_version)
        + " · "@ + decimal(report.gpus.len()) + " GPU · moteur "@ + or_unknown(report.version())
}

/// What is said of a program that the launcher could not become.
pub open spec fn not_become(program: Seq<char>, error: Seq<char>) -> Seq<char> {
    "[freetoken] "@ + program + " : "@ + error
}

/// What is said of a server that could not be started under Windows.
pub open spec fn wsl_not_started(program: Seq<char>, error: Seq<char>) -> Seq<char> {
    not_become(program, error)
        + "\nWSL2 semble absent. Installez-le avec « wsl --install » depuis un terminal administrateur, puis redémarrez."@
}

/// What stops the servers on a port, and what is then awaited.
pub open spec fn stop_servers(
    state: LaunchStateModel,
    notice: Option<Seq<char>>,
    runtime: Runtime,
    port: nat,
) -> LaunchStepModel {
    LaunchStepModel {
        state,
        action: LaunchActionModel::Run {
            notice,
            command: wrapped(runtime, kill_line(port)),
            seconds: STOP_SECONDS as nat,
        },
    }
}

/// The code that relays how the server ended: its own, and that of a failure where it failed
/// without one.
pub open spec fn relayed(success: bool, code: Option<i32>) -> i32 {
    if success {
        SUCCESS
    } else {
        match code {
            Some(code) => if code != SUCCESS {
                code
            } else {
                FAILURE
            },
            None => FAILURE,
        }
    }
}

/// How the launcher ends once the server that it watched has: with the exit code of the server,
/// and failing where the server could not be waited for.
pub open spec fn ending_of(event: LaunchEventModel) -> EndingModel {
    match event {
        LaunchEventModel::Ended { success, code, status } => EndingModel {
            code: relayed(success, code),
            notice: if success {
                None
            } else {
                Some("[freetoken] le serveur s'est arrêté ("@ + status + ")"@)
            },
        },
        LaunchEventModel::NotAwaited { error } => EndingModel {
            code: FAILURE,
            notice: Some("[freetoken] attente du serveur impossible : "@ + error),
        },
        _ => arbitrary(),
    }
}

/// How `serve` goes on after an event that it awaits.
///
/// A machine that could not be asked, or that lacks something, ends it. Else a server that was
/// left on the port is stopped, with success or not, and the server is started. Under Linux the
/// launcher becomes the server. Under Windows it waits for the end of the server and stops what
/// is left of it in the distribution, with success or not, before it ends.
pub open spec fn serve_goes_on(
    state: LaunchStateModel,
    event: LaunchEventModel,
    settings: SettingsModel,
    host: Host,
    runtime: Runtime,
) -> LaunchStepModel {
    match (state, event) {
        (LaunchStateModel::Probing { port, model }, LaunchEventModel::Ran { result }) => {
            match result {
                Ok(outcome) => {
                    let report = report_of(outcome.stdout);
                    if lacking(report).len() > 0 {
                        launch_failure(not_ready(lacking(report), outcome.stderr))
                    } else {
                        stop_servers(
                            LaunchStateModel::Clearing { port, model },
                            Some(summary(report)),
                            runtime,
                            port,
                        )
                    }
                },
                Err(error) => launch_failure(not_probed(error)),
            }
        },
        (LaunchStateModel::Clearing { port, model }, LaunchEventModel::Ran { .. }) => {
            let command = wrapped(runtime, start_line(settings, host, runtime, port, model));
            let notice = "[freetoken] "@ + command.displayed();
            if host.windows {
                LaunchStepModel {
                    state: LaunchStateModel::Watching { port, program: command.program },
                    action: LaunchActionModel::Watch { notice, command },
                }
            } else {
                LaunchStepModel {
                    state: LaunchStateModel::Becoming { program: command.program },
                    action: LaunchActionModel::Become { notice, command },
                }
            }
        },
        (LaunchStateModel::Becoming { program }, LaunchEventModel::NotStarted { error }) => {
            launch_failure(not_become(program, error))
        },
        (LaunchStateModel::Watching { program, .. }, LaunchEventModel::NotStarted { error }) => {
            launch_failure(wsl_not_started(program, error))
        },
        (LaunchStateModel::Watching { port, .. }, _) => {
            stop_servers(
                LaunchStateModel::Cleaning { ending: ending_of(event) },
                None,
                runtime,
                port,
            )
        },
        (LaunchStateModel::Cleaning { ending }, LaunchEventModel::Ran { .. }) => {
            LaunchStepModel {
                state: LaunchStateModel::Done,
                action: LaunchActionModel::Exit { ending },
            }
        },
        _ => arbitrary(),
    }
}

/// The step of a launcher that fails.
fn failure(notice: String) -> (step: LaunchStep)
    ensures
        step@ == launch_failure(notice@),
{
    LaunchStep {
        state: LaunchState::Done,
        action: LaunchAction::Exit { ending: Ending { code: FAILURE, notice: Some(notice) } },
    }
}

/// Begins `serve`.
pub fn begin_serve(args: &Vec<String>, host: &Host, runtime: &Runtime) -> (step: LaunchStep)
    ensures
        step@ == serve_begins(args.deep_view(), *host, *runtime),
{
    let port = port_argument(args);
    let model = match flag(args, "--model") {
        Some(model) => model,
        None => String::new(),
    };
    assert(model@ =~= model_of(args.deep_view()));
    if is_blank(model.as_str()) {
        return failure(
            "[freetoken] aucun modèle : le moteur ne démarre pas sans poids.\nChoisissez un checkpoint dans Réglages → Moteur, ou dans le catalogue de modèles (filtre « Mixture-of-Experts »).".to_string(),
        );
    }
    LaunchStep {
        state: LaunchState::Probing { port, model },
        action: LaunchAction::Run {
            notice: None,
            invocation: probe_invocation(host, runtime),
            seconds: PROBE_SECONDS,
        },
    }
}

/// Appends lines, each after a line break and a dash.
fn append_listed(text: &mut String, lines: &Vec<String>)
    ensures
        final(text)@ == old(text)@ + listed(lines.deep_view()),
{
    let ghost texts = lines.deep_view();
    let mut i: usize = 0;
    assert(texts.take(0) =~= seq![]);
    assert(text@ =~= old(text)@ + listed(texts.take(0)));
    while i < lines.len()
        invariant
            i <= lines@.len(),
            texts == lines.deep_view(),
            text@ == old(text)@ + listed(texts.take(i as int)),
        decreases lines@.len() - i,
    {
        text.append("\n  - ");
        text.append(lines[i].as_str());
        i += 1;
        assert(texts.take(i as int).drop_last() =~= texts.take(i - 1));
        assert(text@ =~= old(text)@ + listed(texts.take(i as int)));
    }
    assert(texts.take(i as int) =~= texts);
}

/// What is said of a machine that lacks something.
fn not_ready_text(missing: &Vec<String>, stderr: &str) -> (text: String)
    ensures
        text@ == not_ready(missing.deep_view(), stderr@),
{
    let mut text = "[freetoken] le moteur ne peut pas démarrer sur cette machine :".to_string();
    append_listed(&mut text, missing);
    let complaint = trimmed(stderr);
    if complaint.as_str().is_empty() {
        assert(text@ + seq![] =~= text@);
    } else {
        let mut more = "\n[freetoken] sortie d'erreur de la sonde :\n".to_string();
        more.append(complaint.as_str());
        text.append(more.as_str());
    }
    text
}

/// Appends the text, or a question mark.
fn append_or_unknown(line: &mut String, text: &Option<String>)
    ensures
        final(line)@ == old(line)@ + or_unknown(text.deep_view()),
{
    match text {
        Some(text) => line.append(text.as_str()),
        None => line.append("?"),
    }
}

/// What is said of a machine that lacks nothing.
fn summary_text(probe: &Probe) -> (line: String)
    ensures
        line@ == summary(probe.report()),
{
    let mut line = "[freetoken] ".to_string();
    append_or_unknown(&mut line, &probe.os);
    line.append(" · pilote ");
    append_or_unknown(&mut line, &probe.driver_version);
    line.append(" · ");
    push_decimal(&mut line, probe.gpus.len() as u64);
    line.append(" GPU · moteur ");
    append_or_unknown(&mut line, &probe.version());
    line
}

/// What is said of a program that the launcher could not become.
fn not_become_text(program: &str, error: &str) -> (notice: String)
    ensures
        notice@ == not_become(program@, error@),
{
    let mut notice = "[freetoken] ".to_string();
    notice.append(program);
    notice.append(" : ");
    notice.append(error);
    notice
}

/// What `serve` does once the machine has reported, or could not be asked.
fn after_probe(port: u16, model: String, result: Result<Outcome, String>, runtime: &Runtime) -> (step:
    LaunchStep)
    ensures
        forall|settings: SettingsModel, host: Host|
            step@ == #[trigger] serve_goes_on(
                (LaunchStateModel::Probing { port: port as nat, model: model@ }),
                (LaunchEventModel::Ran { result: run_result(result) }),
                settings,
                host,
                *runtime,
            ),
{
    match result {
        Ok(outcome) => {
            let probe = parse_probe(outcome.stdout.as_str());
            if probe.ready() {
                LaunchStep {
                    state: LaunchState::Clearing { port, model },
                    action: LaunchAction::Run {
                        notice: Some(summary_text(&probe)),
                        invocation: kill_stale_invocation(runtime, port),
                        seconds: STOP_SECONDS,
                    },
                }
            } else {
                failure(not_ready_text(&probe.missing, outcome.stderr.as_str()))
            }
        },
        Err(error) => {
            let mut notice = "[freetoken] impossible de sonder la machine : ".to_string();
            notice.append(error.as_str());
            notice.append(
                "\nSous Windows, vérifiez que WSL2 est installé (« wsl --install ») et qu'une distribution démarre.",
            );
            failure(notice)
        },
    }
}

/// What stops the rest of a server that has ended.
fn clean(ending: Ending, port: u16, runtime: &Runtime) -> (step: LaunchStep)
    ensures
        step@ == stop_servers(
            (LaunchStateModel::Cleaning { ending: ending@ }),
            None,
            *runtime,
            port as nat,
        ),
{
    LaunchStep {
        state: LaunchState::Cleaning { ending },
        action: LaunchAction::Run {
            notice: None,
            invocation: kill_stale_invocation(runtime, port),
            seconds: STOP_SECONDS,
        },
    }
}

/// Goes on with `serve`, given what came of the last action.
pub fn continue_serve(
    state: LaunchState,
    event: LaunchEvent,
    settings: &Settings,
    host: &Host,
    runtime: &Runtime,
) -> (step: LaunchStep)
    requires
        state@.awaits(event@),
    ensures
        step@ == serve_goes_on(state@, event@, settings@, *host, *runtime),
{
    match (state, event) {
        (LaunchState::Probing { port, model }, LaunchEvent::Ran { result }) => {
            after_probe(port, model, result, runtime)
        },
        (LaunchState::Clearing { port, model }, LaunchEvent::Ran { .. }) => {
            let invocation = serve_invocation(settings, host, runtime, port, model.as_str());
            let program = invocation.program.clone();
            let mut notice = "[freetoken] ".to_string();
            notice.append(invocation.display().as_str());
            if host.windows {
                LaunchStep {
                    state: LaunchState::Watching { port, program },
                    action: LaunchAction::Watch { notice, invocation },
                }
            } else {
                LaunchStep {
                    state: LaunchState::Becoming { program },
                    action: LaunchAction::Become { notice, invocation },
                }
            }
        },
        (LaunchState::Becoming { program }, LaunchEvent::NotStarted { error }) => {
            failure(not_become_text(program.as_str(), error.as_str()))
        },
        (LaunchState::Watching { program, .. }, LaunchEvent::NotStarted { error }) => {
            let mut notice = not_become_text(program.as_str(), error.as_str());
            notice.append(
                "\nWSL2 semble absent. Installez-le avec « wsl --install » depuis un terminal administrateur, puis redémarrez.",
            );
            failure(notice)
        },
        (LaunchState::Watching { port, .. }, LaunchEvent::Ended { success, code, status }) => {
            if success {
                clean(Ending { code: SUCCESS, notice: None }, port, runtime)
            } else {
                let mut notice = "[freetoken] le serveur s'est arrêté (".to_string();
                notice.append(status.as_str());
                notice.append(")");
                let relayed_code: i32 = match code {
                    Some(code) => if code != SUCCESS {
                        code
                    } else {
                        FAILURE
                    },
                    None => FAILURE,
                };
                clean(Ending { code: relayed_code, notice: Some(notice) }, port, runtime)
            }
        },
        (LaunchState::Watching { port, .. }, LaunchEvent::NotAwaited { error }) => {
            let mut notice = "[freetoken] attente du serveur impossible : ".to_string();
            notice.append(error.as_str());
            clean(Ending { code: FAILURE, notice: Some(notice) }, port, runtime)
        },
        (LaunchState::Cleaning { ending }, LaunchEvent::Ran { .. }) => {
            LaunchStep { state: LaunchState::Done, action: LaunchAction::Exit { ending } }
        },
        _ => vstd::pervasive::unreached(),
    }
}

// ---------------------------------------------------------------------------
// Stopping, probing
// ---------------------------------------------------------------------------

/// How `stop` ends, given what the command that stops the servers gave: it succeeds unless that
/// command could not be run.
pub fn stop_ended(port: u16, result: &Result<Outcome, String>) -> (ending: Ending)
    ensures
        ending.code == (if *result is Ok {
            SUCCESS
        } else {
            FAILURE
        }),
        ending.notice is Some,
        ending.notice->0@ == (match run_result(*result) {
            Ok(_) => "[freetoken] serveur du port "@ + decimal(port as nat)
                + " arrêté (s'il tournait)"@,
            Err(error) => "[freetoken] arrêt impossible : "@ + error,
        }),
{
    match result {
        Ok(_) => {
            let mut notice = "[freetoken] serveur du port ".to_string();
            push_decimal(&mut notice, port as u64);
            notice.append(" arrêté (s'il tournait)");
            Ending { code: SUCCESS, notice: Some(notice) }
        },
        Err(error) => {
            let mut notice = "[freetoken] arrêt impossible : ".to_string();
            notice.append(error.as_str());
            Ending { code: FAILURE, notice: Some(notice) }
        },
    }
}

/// What `probe` reports, given what the command that asks the machine gave: the probe to print,
/// or what is said where the machine could not be asked. The launcher succeeds where the probe
/// is ready.
pub fn probe_ended(result: Result<Outcome, String>) -> (probe: Result<Probe, String>)
    ensures
        match (probe, run_result(result)) {
            (Ok(probe), Ok(outcome)) => probe.report() == report_of(outcome.stdout)
                && probe.missing.deep_view() == lacking(report_of(outcome.stdout)),
            (Err(notice), Err(error)) => notice@ == "[freetoken] sonde impossible : "@ + error,
            _ => false,
        },
{
    match result {
        Ok(outcome) => Ok(parse_probe(outcome.stdout.as_str())),
        Err(error) => {
            let mut notice = "[freetoken] sonde impossible : ".to_string();
            notice.append(error.as_str());
            Err(notice)
        },
    }
}

// ---------------------------------------------------------------------------
// Laws
// ---------------------------------------------------------------------------

/// An argument that neither is the flag `name` nor holds its value.
pub open spec fn is_other(arg: Seq<char>, name: Seq<char>) -> bool {
    arg != name && !starts_with(arg, name + "="@)
}

/// Arguments before a flag do not change its value, unless one of them is that flag.
proof fn lemma_other_args(before: Seq<Seq<char>>, args: Seq<Seq<char>>, name: Seq<char>)
    requires
        forall|i: int| 0 <= i < before.len() ==> is_other(#[trigger] before[i], name),
    ensures
        flag_value(before + args, name) == flag_value(args, name),
    decreases before.len(),
{
    if before.len() == 0 {
        assert(before + args =~= args);
    } else {
        assert((before + args)[0] == before[0]);
        assert(is_other(before[0], name));
        assert((before + args).skip(1) =~= before.skip(1) + args);
        assert forall|i: int| 0 <= i < before.skip(1).len() implies is_other(
            #[trigger] before.skip(1)[i],
            name,
        ) by {
            assert(before.skip(1)[i] == before[i + 1]);
        }
        lemma_other_args(before.skip(1), args, name);
    }
}

/// The value of a flag is read alike from the argument after it and, after an equals sign, from
/// the same one, whatever follows and whatever other arguments come before.
pub proof fn law_flag_is_read(
    before: Seq<Seq<char>>,
    after: Seq<Seq<char>>,
    name: Seq<char>,
    value: Seq<char>,
)
    requires
        forall|i: int| 0 <= i < before.len() ==> is_other(#[trigger] before[i], name),
    ensures
        flag_value(before + (seq![name, value] + after), name) == Some(value),
        flag_value(before + (seq![name + "="@ + value] + after), name) == Some(value),
{
    reveal_strlit("=");
    lemma_other_args(before, seq![name, value] + after, name);
    lemma_other_args(before, seq![name + "="@ + value] + after, name);
    let joined = name + "="@ + value;
    assert(joined.len() > name.len());
    assert(joined.take(name.len() as int + 1) =~= name + "="@);
    assert(joined.skip(name.len() as int + 1) =~= value);
    assert((seq![joined] + after)[0] == joined);
    assert((seq![name, value] + after)[0] == name);
    assert((seq![name, value] + after)[1] == value);
}

/// A flag that is not there has no value.
pub proof fn law_absent_flag_has_no_value(args: Seq<Seq<char>>, name: Seq<char>)
    requires
        forall|i: int| 0 <= i < args.len() ==> is_other(#[trigger] args[i], name),
    ensures
        flag_value(args, name) is None,
{
    lemma_other_args(args, seq![], name);
    assert(args + seq![] =~= args);
}

/// Whatever the arguments, the port is one.
pub proof fn law_port_is_a_port(args: Seq<Seq<char>>)
    ensures
        port_of(args) <= u16::MAX,
{
}

impl LaunchStateModel {
    /// How many events can still come.
    pub open spec fn rank(self) -> nat {
        match self {
            LaunchStateModel::Probing { .. } => 4,
            LaunchStateModel::Clearing { .. } => 3,
            LaunchStateModel::Watching { .. } => 2,
            LaunchStateModel::Becoming { .. } => 1,
            LaunchStateModel::Cleaning { .. } => 1,
            LaunchStateModel::Done => 0,
        }
    }
}

/// The events that the action of a step can give are those that its state awaits.
pub open spec fn is_consistent(step: LaunchStepModel) -> bool {
    forall|event: LaunchEventModel| #[trigger]
        step.state.awaits(event) == step.action.gives(event)
}

/// Whatever an action gives, the launcher knows how to go on, and after at most four events it
/// ends.
pub proof fn law_launcher_always_goes_on(
    args: Seq<Seq<char>>,
    state: LaunchStateModel,
    event: LaunchEventModel,
    settings: SettingsModel,
    host: Host,
    runtime: Runtime,
)
    requires
        state.awaits(event),
    ensures
        is_consistent(serve_begins(args, host, runtime)),
        serve_begins(args, host, runtime).state.rank() <= 4,
        is_consistent(serve_goes_on(state, event, settings, host, runtime)),
        serve_goes_on(state, event, settings, host, runtime).state.rank() < state.rank(),
{
}

/// The server is started only once the machine has been found to lack nothing and the command
/// that stops the servers on its port has been run.
pub proof fn law_port_is_cleared_before_the_start(
    state: LaunchStateModel,
    event: LaunchEventModel,
    settings: SettingsModel,
    host: Host,
    runtime: Runtime,
)
    requires
        state.awaits(event),
    ensures
        ({
            let step = serve_goes_on(state, event, settings, host, runtime);
            &&& (step.action is Become || step.action is Watch) ==> state is Clearing
            &&& step.state matches LaunchStateModel::Clearing { port, model } ==> {
                &&& state == LaunchStateModel::Probing { port, model }
                &&& event matches LaunchEventModel::Ran { result } && result matches Ok(outcome)
                    && lacking(report_of(outcome.stdout)).len() == 0
                &&& step.action is Run
                &&& step.action->Run_command == wrapped(runtime, kill_line(port))
            }
        }),
{
}

/// The launcher succeeds exactly where the server that it watched did, and exits with the code of
/// a server that failed with one.
pub proof fn law_exit_code_is_relayed(success: bool, code: Option<i32>, status: Seq<char>)
    ensures
        ({
            let ending = ending_of(LaunchEventModel::Ended { success, code, status });
            &&& ending.code == SUCCESS <==> success
            &&& !success && code is Some && code->0 != SUCCESS ==> ending.code == code->0
            &&& ending.notice is None <==> success
        }),
{
}

/// Under Windows, a server that was started and has ended, however it did, is stopped in the
/// distribution too, on the port that it was started on, before the launcher ends.
pub proof fn law_nothing_of_the_server_is_left(
    port: nat,
    program: Seq<char>,
    event: LaunchEventModel,
    result: Result<OutcomeModel, Seq<char>>,
    settings: SettingsModel,
    host: Host,
    runtime: Runtime,
)
    requires
        event is Ended || event is NotAwaited,
    ensures
        ({
            let watching = LaunchStateModel::Watching { port, program };
            let stopping = serve_goes_on(watching, event, settings, host, runtime);
            let ended = serve_goes_on(
                stopping.state,
                LaunchEventModel::Ran { result },
                settings,
                host,
                runtime,
            );
            &&& stopping.action is Run
            &&& stopping.action->Run_command == wrapped(runtime, kill_line(port))
            &&& ended.action == LaunchActionModel::Exit { ending: ending_of(event) }
        }),
{
}

/// The server is started on the port and the model that the launcher holds, with each setting as
/// it is configured: past the activation of the environment, the shell reads `exec`, the `ft serve`
/// command on this machine alone, an option for each setting that is set and within its bounds,
/// and then the extra arguments. The launcher shows the command that it runs. Under Windows it
/// watches the server, else it becomes the server.
pub proof fn law_server_is_started_as_configured(
    port: nat,
    model: Seq<char>,
    result: Result<OutcomeModel, Seq<char>>,
    settings: SettingsModel,
    host: Host,
    runtime: Runtime,
)
    requires
        settings.memory_ratio matches Some(ratio) ==> (ratio.usable() ==> ratio.is_decimal()),
    ensures
        ({
            let step = serve_goes_on(
                LaunchStateModel::Clearing { port, model },
                LaunchEventModel::Ran { result },
                settings,
                host,
                runtime,
            );
            let command = if host.windows {
                step.action->Watch_command
            } else {
                step.action->Become_command
            };
            let notice = if host.windows {
                step.action->Watch_notice
            } else {
                step.action->Become_notice
            };
            let line = command.args.last();
            let prefix = activation(host, runtime);
            let read = command_words(line.skip(prefix.len() as int));
            let words = read->0;
            let extra = settings.extra_args;
            let program = command.program;
            &&& host.windows ==> step.action is Watch && step.state == (
            LaunchStateModel::Watching { port, program })
            &&& !host.windows ==> step.action is Become && step.state == (
            LaunchStateModel::Becoming { program })
            &&& command == wrapped(runtime, start_line(settings, host, runtime, port, model))
            &&& starts_with(line, prefix)
            &&& read is Some
            &&& words.take(9) == seq![
                "exec"@,
                "ft"@,
                "serve"@,
                "--model"@,
                engine_model(model, runtime),
                "--host"@,
                "127.0.0.1"@,
                "--port"@,
                decimal(port),
            ]
            &&& settings.moe_backend matches Some(backend) ==> has_pair(
                words,
                "--moe-backend"@,
                backend,
            )
            &&& settings.memory_ratio matches Some(ratio) ==> (0x3dcc_cccd <= ratio.bits
                <= 0x3f73_3333 ==> has_pair(words, "--memory-ratio"@, ratio.text@))
            &&& settings.max_output_tokens matches Some(max) ==> (max > 0 ==> has_pair(
                words,
                "--max-output-tokens"@,
                decimal(max),
            ))
            &&& settings.gpu matches Some(gpu) ==> has_pair(words, "--gpu"@, gpu)
            &&& words.len() >= 9 + extra.len()
            &&& words.skip(words.len() - extra.len()) == extra
            &&& notice.len() >= command.displayed().len()
            &&& notice.skip(notice.len() - command.displayed().len()) == command.displayed()
        }),
{
    law_start_runs_the_serve_command(settings, host, runtime, port, model);
    law_each_setting_is_passed_on(settings, runtime, port, model);
    let serve = command_words(serve_command(settings, runtime, port, model))->0;
    let words = seq!["exec"@] + serve;
    let extra = settings.extra_args;
    lemma_pair_after_word("exec"@, serve);
    assert(words.take(9) =~= seq!["exec"@] + serve.take(8));
    assert(words.take(9) =~= seq![
        "exec"@,
        "ft"@,
        "serve"@,
        "--model"@,
        engine_model(model, runtime),
        "--host"@,
        "127.0.0.1"@,
        "--port"@,
        decimal(port),
    ]);
    assert(words.skip(words.len() - extra.len()) =~= serve.skip(serve.len() - extra.len()));
    law_line_is_passed_whole(runtime, start_line(settings, host, runtime, port, model));
    let shown = wrapped(runtime, start_line(settings, host, runtime, port, model)).displayed();
    let notice = "[freetoken] "@ + shown;
    assert(notice.skip(notice.len() - shown.len()) =~= shown);
}

/// The port and the model that the arguments name are those that the launcher goes on with, after
/// it has asked the machine. A port that is not named, or is no port, is the default one. Without
/// a model the launcher fails, and does nothing else.
pub proof fn law_named_port_and_model_are_used(
    args: Seq<Seq<char>>,
    port: nat,
    host: Host,
    runtime: Runtime,
)
    ensures
        ({
            let named = flag_value(args, "--model"@);
            let step = serve_begins(args, host, runtime);
            &&& flag_value(args, "--port"@) == Some(decimal(port)) && port <= 65_535 ==> port_of(
                args,
            ) == port
            &&& flag_value(args, "--port"@) is None ==> port_of(args) == 1919
            &&& flag_value(args, "--port"@) matches Some(text) ==> (unsigned(text, 65_535) is None
                ==> port_of(args) == 1919)
            &&& named is Some && trim(named->0).len() > 0 ==> {
                &&& step.state == LaunchStateModel::Probing { port: port_of(args), model: named->0 }
                &&& step.action matches LaunchActionModel::Run { notice, command, seconds }
                &&& notice is None
                &&& seconds == 120
                &&& command == wrapped(runtime, probe_line(quoted(engine_venv(host, runtime))))
            }
            &&& named is None || trim(named->0).len() == 0 ==> {
                &&& step.state is Done
                &&& step.action matches LaunchActionModel::Exit { ending }
                &&& ending.code == 1
                &&& ending.notice is Some
            }
        }),
{
    if port <= 65_535 {
        law_numeral_is_read_back(port, 65_535);
    }
    assert(trim(Seq::<char>::empty()) =~= seq![]) by {
        law_trim_takes_off_white_space(seq![], seq![], seq![]);
        assert(Seq::<char>::empty() + seq![] + seq![] =~= Seq::<char>::empty());
    }
}

/// Five texts that are joined between six others are held, each between the ends of its
/// neighbours.
proof fn lemma_summary_parts(
    a: Seq<char>,
    os: Seq<char>,
    b: Seq<char>,
    driver: Seq<char>,
    c: Seq<char>,
    cards: Seq<char>,
    d: Seq<char>,
    version: Seq<char>,
)
    ensures
        ({
            let text = a + os + b + driver + c + cards + d + version;
            &&& starts_with(text, a + os + b)
            &&& contains(text, b + driver + c)
            &&& contains(text, c + cards + d)
            &&& text.skip(text.len() - (d + version).len()) == d + version
        }),
{
    let text = a + os + b + driver + c + cards + d + version;
    assert(text.take((a + os + b).len() as int) =~= a + os + b);
    assert(text =~= (a + os) + (b + driver + c) + (cards + d + version));
    law_part_is_held(a + os, b + driver + c, cards + d + version, text);
    assert(text =~= (a + os + b + driver) + (c + cards + d) + version);
    law_part_is_held(a + os + b + driver, c + cards + d, version, text);
    assert(text.skip(text.len() - (d + version).len()) =~= d + version);
}

/// A machine that lacks nothing has the servers on the port stopped, and the launcher then goes on
/// with the port and the model that it held. What is said first holds what the machine reported:
/// its system, its driver, how many cards it has and the version of the engine.
pub proof fn law_ready_machine_goes_on(
    port: nat,
    model: Seq<char>,
    outcome: OutcomeModel,
    settings: SettingsModel,
    host: Host,
    runtime: Runtime,
)
    requires
        lacking(report_of(outcome.stdout)).len() == 0,
    ensures
        ({
            let report = report_of(outcome.stdout);
            let step = serve_goes_on(
                LaunchStateModel::Probing { port, model },
                LaunchEventModel::Ran { result: Ok(outcome) },
                settings,
                host,
                runtime,
            );
            &&& step.state == LaunchStateModel::Clearing { port, model }
            &&& step.action matches LaunchActionModel::Run { notice, command, seconds }
            &&& command == wrapped(runtime, kill_line(port))
            &&& seconds == 30
            &&& notice matches Some(notice)
            &&& report.os is Some && report.driver_version is Some && report.version() is Some
            &&& starts_with(notice, "[freetoken] "@ + report.os->0 + " · pilote "@)
            &&& contains(notice, " · pilote "@ + report.driver_version->0 + " · "@)
            &&& contains(notice, " · "@ + decimal(report.gpus.len()) + " GPU · moteur "@)
            &&& notice.skip(
                notice.len() - (" GPU · moteur "@ + report.version()->0).len(),
            ) == " GPU · moteur "@ + report.version()->0
        }),
{
    let report = report_of(outcome.stdout);
    law_ready_means_all_is_there(report);
    law_what_was_reported_is_named(report, seq![]);
    lemma_summary_parts(
        "[freetoken] "@,
        or_unknown(report.os),
        " · pilote "@,
        or_unknown(report.driver_version),
        " · "@,
        decimal(report.gpus.len()),
        " GPU · moteur "@,
        or_unknown(report.version()),
    );
}

/// What is listed holds each of the lines, each after a line break and a dash.
proof fn lemma_listed(lines: Seq<Seq<char>>, i: int)
    requires
        0 <= i < lines.len(),
    ensures
        contains(listed(lines), "\n  - "@ + lines[i]),
    decreases lines.len(),
{
    let front = lines.drop_last();
    let part = "\n  - "@ + lines[i];
    if i < front.len() {
        lemma_listed(front, i);
        law_part_is_held(seq![], part, seq![], listed(front));
        let (a, b) = choose|a: Seq<char>, b: Seq<char>| listed(front) == #[trigger] (a + part + b);
        let tail = b + "\n  - "@ + lines.last();
        assert(listed(lines) =~= a + part + tail);
        law_part_is_held(a, part, tail, listed(lines));
    } else {
        assert(listed(lines) =~= listed(front) + part + seq![]);
        law_part_is_held(listed(front), part, seq![], listed(lines));
    }
}

/// A machine that lacks something, or that could not be asked, ends the launcher with a failure,
/// and no server is started. What is said holds each sentence on what is lacking, and all that the
/// probe complained about, or why the machine could not be asked.
pub proof fn law_unready_machine_ends_the_launcher(
    port: nat,
    model: Seq<char>,
    outcome: OutcomeModel,
    error: Seq<char>,
    i: int,
    settings: SettingsModel,
    host: Host,
    runtime: Runtime,
)
    requires
        0 <= i < lacking(report_of(outcome.stdout)).len(),
    ensures
        ({
            let probing = LaunchStateModel::Probing { port, model };
            let lacks = serve_goes_on(
                probing,
                LaunchEventModel::Ran { result: Ok(outcome) },
                settings,
                host,
                runtime,
            );
            let unasked = serve_goes_on(
                probing,
                LaunchEventModel::Ran { result: Err(error) },
                settings,
                host,
                runtime,
            );
            let complaint = trim(outcome.stderr);
            &&& lacks.state is Done && unasked.state is Done
            &&& lacks.action matches LaunchActionModel::Exit { ending: lacking_end }
            &&& unasked.action matches LaunchActionModel::Exit { ending: unasked_end }
            &&& lacking_end.code == 1 && unasked_end.code == 1
            &&& lacking_end.notice matches Some(said)
            &&& contains(said, "\n  - "@ + lacking(report_of(outcome.stdout))[i])
            &&& said.len() >= complaint.len()
            &&& said.skip(said.len() - complaint.len()) == complaint
            &&& unasked_end.notice matches Some(why)
            &&& contains(why, " : "@ + error + "\n"@)
        }),
{
    lemma_not_ready_says_all(lacking(report_of(outcome.stdout)), i, outcome.stderr);
    lemma_not_probed_says_why(error);
}

/// What is said of a machine that lacks something holds each sentence, and ends in the complaint.
proof fn lemma_not_ready_says_all(missing: Seq<Seq<char>>, i: int, stderr: Seq<char>)
    requires
        0 <= i < missing.len(),
    ensures
        ({
            let said = not_ready(missing, stderr);
            let complaint = trim(stderr);
            &&& contains(said, "\n  - "@ + missing[i])
            &&& said.len() >= complaint.len()
            &&& said.skip(said.len() - complaint.len()) == complaint
        }),
{
    let complaint = trim(stderr);
    let said = not_ready(missing, stderr);
    let start = "[freetoken] le moteur ne peut pas démarrer sur cette machine :"@;
    let part = "\n  - "@ + missing[i];
    lemma_listed(missing, i);
    law_part_is_held(seq![], part, seq![], listed(missing));
    let (a, b) = choose|a: Seq<char>, b: Seq<char>| listed(missing) == #[trigger] (a + part + b);
    let rest = said.skip((start + listed(missing)).len() as int);
    assert(said =~= start + listed(missing) + rest);
    assert(said =~= (start + a) + part + (b + rest));
    law_part_is_held(start + a, part, b + rest, said);
    assert(said.skip(said.len() - complaint.len()) =~= complaint);
}

/// What is said of a machine that could not be asked holds the reason.
proof fn lemma_not_probed_says_why(error: Seq<char>)
    ensures
        contains(not_probed(error), " : "@ + error + "\n"@),
{
    let head = "[freetoken] impossible de sonder la machine : "@;
    let tail =
        "\nSous Windows, vérifiez que WSL2 est installé (« wsl --install ») et qu'une distribution démarre."@;
    let before = head.take(head.len() - 3);
    let after = tail.skip(1);
    assert(head == before + " : "@) by {
        reveal_strlit("[freetoken] impossible de sonder la machine : ");
        reveal_strlit(" : ");
        assert(head =~= before + " : "@);
    }
    assert(tail == "\n"@ + after) by {
        reveal_strlit(
            "\nSous Windows, vérifiez que WSL2 est installé (« wsl --install ») et qu'une distribution démarre.",
        );
        reveal_strlit("\n");
        assert(tail =~= "\n"@ + after);
    }
    let part = " : "@ + error + "\n"@;
    assert(not_probed(error) =~= before + part + after);
    law_part_is_held(before, part, after, not_probed(error));
}

/// A server that cannot be started ends the launcher with a failure that names the program and
/// the reason, under Windows and else.
pub proof fn law_failed_start_is_explained(
    port: nat,
    program: Seq<char>,
    error: Seq<char>,
    settings: SettingsModel,
    host: Host,
    runtime: Runtime,
)
    ensures
        ({
            let event = LaunchEventModel::NotStarted { error };
            let becoming = serve_goes_on(
                LaunchStateModel::Becoming { program },
                event,
                settings,
                host,
                runtime,
            );
            let watching = serve_goes_on(
                LaunchStateModel::Watching { port, program },
                event,
                settings,
                host,
                runtime,
            );
            &&& becoming.state is Done && watching.state is Done
            &&& becoming.action matches LaunchActionModel::Exit { ending: become_end }
            &&& watching.action matches LaunchActionModel::Exit { ending: watch_end }
            &&& become_end.code == 1 && watch_end.code == 1
            &&& become_end.notice matches Some(said)
            &&& watch_end.notice matches Some(more)
            &&& said == "[freetoken] "@ + program + " : "@ + error
            &&& starts_with(more, said + "\n"@)
        }),
{
    let said = not_become(program, error);
    let tail =
        "\nWSL2 semble absent. Installez-le avec « wsl --install » depuis un terminal administrateur, puis redémarrez."@;
    assert(tail == "\n"@ + tail.skip(1)) by {
        reveal_strlit(
            "\nWSL2 semble absent. Installez-le avec « wsl --install » depuis un terminal administrateur, puis redémarrez.",
        );
        reveal_strlit("\n");
        assert(tail =~= "\n"@ + tail.skip(1));
    }
    let more = wsl_not_started(program, error);
    assert(more =~= (said + "\n"@) + tail.skip(1));
    law_part_is_held(seq![], said + "\n"@, tail.skip(1), more);
}

/// However the server that was watched ended, the code and what is said of it come from that end:
/// a success is silent, a failure has its own code where it has one, and its status is said; a
/// server that could not be waited for is a failure that says why.
pub proof fn law_end_of_the_server_is_relayed(
    code: i32,
    status: Seq<char>,
    error: Seq<char>,
    any: Option<i32>,
)
    ensures
        ({
            let well = ending_of(LaunchEventModel::Ended { success: true, code: any, status });
            let badly = ending_of(
                LaunchEventModel::Ended { success: false, code: Some(code), status },
            );
            let killed = ending_of(LaunchEventModel::Ended { success: false, code: None, status });
            let lost = ending_of(LaunchEventModel::NotAwaited { error });
            &&& well.code == 0 && well.notice is None
            &&& code != 0 ==> badly.code == code
            &&& code == 0 ==> badly.code == 1
            &&& killed.code == 1 && lost.code == 1
            &&& badly.notice is Some && badly.notice == killed.notice && lost.notice is Some
            &&& contains(badly.notice->0, "("@ + status + ")"@)
            &&& contains(lost.notice->0, " : "@ + error)
        }),
{
    let head = "[freetoken] le serveur s'est arrêté ("@;
    let before = head.take(head.len() - 1);
    assert(head == before + "("@) by {
        reveal_strlit("[freetoken] le serveur s'est arrêté (");
        reveal_strlit("(");
        assert(head =~= before + "("@);
    }
    let said = head + status + ")"@;
    let part = "("@ + status + ")"@;
    assert(said =~= before + part + seq![]);
    law_part_is_held(before, part, seq![], said);
    let start = "[freetoken] attente du serveur impossible : "@;
    let first = start.take(start.len() - 3);
    assert(start == first + " : "@) by {
        reveal_strlit("[freetoken] attente du serveur impossible : ");
        reveal_strlit(" : ");
        assert(start =~= first + " : "@);
    }
    let lost = start + error;
    assert(lost =~= first + (" : "@ + error) + seq![]);
    law_part_is_held(first, " : "@ + error, seq![], lost);
}

/// What states, actions, events and endings of the launcher stand for holds all that they hold,
/// each thing in its place.
pub proof fn law_launch_steps_are_held_whole(
    port: u16,
    text: String,
    ending: Ending,
    invocation: Invocation,
    seconds: u64,
    result: Result<Outcome, String>,
    success: bool,
    code: Option<i32>,
)
    ensures
        (LaunchState::Probing { port, model: text })@ == (LaunchStateModel::Probing {
            port: port as nat,
            model: text@,
        }),
        (LaunchState::Clearing { port, model: text })@ == (LaunchStateModel::Clearing {
            port: port as nat,
            model: text@,
        }),
        (LaunchState::Becoming { program: text })@ == (LaunchStateModel::Becoming {
            program: text@,
        }),
        (LaunchState::Watching { port, program: text })@ == (LaunchStateModel::Watching {
            port: port as nat,
            program: text@,
        }),
        (LaunchState::Cleaning { ending })@ == (LaunchStateModel::Cleaning { ending: ending@ }),
        ending@.code == ending.code,
        ending@.notice == ending.notice.deep_view(),
        (LaunchAction::Run { notice: Some(text), invocation, seconds })@ == (
        LaunchActionModel::Run {
            notice: Some(text@),
            command: invocation@,
            seconds: seconds as nat,
        }),
        (LaunchAction::Become { notice: text, invocation })@ == (LaunchActionModel::Become {
            notice: text@,
            command: invocation@,
        }),
        (LaunchAction::Watch { notice: text, invocation })@ == (LaunchActionModel::Watch {
            notice: text@,
            command: invocation@,
        }),
        (LaunchAction::Exit { ending })@ == (LaunchActionModel::Exit { ending: ending@ }),
        (LaunchEvent::Ran { result })@ == (LaunchEventModel::Ran { result: run_result(result) }),
        (LaunchEvent::NotStarted { error: text })@ == (LaunchEventModel::NotStarted {
            error: text@,
        }),
        (LaunchEvent::Ended { success, code, status: text })@ == (LaunchEventModel::Ended {
            success,
            code,
            status: text@,
        }),
        (LaunchEvent::NotAwaited { error: text })@ == (LaunchEventModel::NotAwaited {
            error: text@,
        }),
{
}

} // verus!
