//! The commands that install, probe, start and stop the engine.

use crate::paths::{engine_model, model_for_engine, to_wsl_path, wsl_path};
use crate::runtime::{venv_cli, venv_dir, Host, Runtime, CLI};
use crate::settings::{Settings, SettingsModel};
use crate::shell::{
    begun, command_words, is_plain, is_special, lemma_plain_word_added, lemma_quoted_word_added,
    lemma_read_joined, lemma_read_plain, lemma_read_quoted, quoted, shell_quote, Mode, Reading,
};
use crate::text::{
    contains, contains_text, decimal, decimal_text, is_blank, is_digit,
    law_numeral_is_read_back, lemma_decimal, lemma_no_part_without_char, push_decimal,
    replace, starts_with, trim,
};
use vstd::prelude::*;

verus! {

/// The Python package of the engine.
pub const PACKAGE: &'static str = "freetoken";

/// The version of the package that the extension has been validated with.
pub const PINNED_VERSION: &'static str = "0.1.2";

/// The port that the server listens on by default.
pub const DEFAULT_PORT: u16 = 1919;

/// A command that is ready to run: the program and its arguments, never a line that the host
/// would interpret.
#[derive(Debug, Clone)]
pub struct Invocation {
    pub program: String,
    pub args: Vec<String>,
}

/// What a command runs.
#[verifier::ext_equal]
pub struct CommandLine {
    pub program: Seq<char>,
    pub args: Seq<Seq<char>>,
}

impl View for Invocation {
    type V = CommandLine;

    open spec fn view(&self) -> CommandLine {
        CommandLine { program: self.program@, args: self.args.deep_view() }
    }
}

impl CommandLine {
    /// The command, as it would be written by hand: an argument that holds a space stands
    /// between quotation marks.
    pub open spec fn displayed(self) -> Seq<char>
        decreases self.args.len(),
    {
        if self.args.len() == 0 {
            self.program
        } else {
            let last = self.args.last();
            CommandLine { args: self.args.drop_last(), ..self }.displayed() + " "@ + (if contains(
                last,
                " "@,
            ) {
                "\""@ + last + "\""@
            } else {
                last
            })
        }
    }
}

impl Invocation {
    /// The command, as it would be written by hand, for logs and error messages.
    pub fn display(&self) -> (text: String)
        ensures
            text@ == self@.displayed(),
    {
        let mut text = self.program.clone();
        let mut i: usize = 0;
        let ghost program = self@.program;
        let ghost args = self@.args;
        assert(args.take(0) =~= seq![]);
        while i < self.args.len()
            invariant
                i <= self.args@.len(),
                args == self.args.deep_view(),
                text@ == (CommandLine { program, args: args.take(i as int) }).displayed(),
            decreases self.args@.len() - i,
        {
            let arg = self.args[i].as_str();
            let ghost before = text@;
            text.append(" ");
            if contains_text(arg, " ") {
                let mut between = "\"".to_string();
                between.append(arg);
                between.append("\"");
                text.append(between.as_str());
            } else {
                text.append(arg);
            }
            i += 1;
            assert(args.take(i as int).drop_last() =~= args.take(i - 1));
            assert(args.take(i as int).last() == arg@);
        }
        assert(args.take(i as int) =~= args);
        assert(self@ =~= CommandLine { program, args });
        text
    }
}

// ---------------------------------------------------------------------------
// Reaching the engine
// ---------------------------------------------------------------------------

/// The command that has `line` run where the engine runs.
pub open spec fn wrapped(runtime: Runtime, line: Seq<char>) -> CommandLine {
    match runtime {
        Runtime::Native => CommandLine { program: "/bin/sh"@, args: seq!["-lc"@, line] },
        Runtime::Wsl { distro } => CommandLine {
            program: "wsl.exe"@,
            args: match distro {
                Some(distro) => if trim(distro@).len() > 0 {
                    seq!["-d"@, distro@, "--"@, "bash"@, "-lc"@, line]
                } else {
                    seq!["--"@, "bash"@, "-lc"@, line]
                },
                None => seq!["--"@, "bash"@, "-lc"@, line],
            },
        },
    }
}

/// The command that has the Linux command line `line` run.
///
/// Under Linux a login shell runs it. Under Windows `wsl.exe` has it run by a login shell of
/// the distribution: that shell loads the search path on which `uv`, `python` and `nvcc` are
/// found.
pub fn wrap(runtime: &Runtime, line: &str) -> (invocation: Invocation)
    ensures
        invocation@ == wrapped(*runtime, line@),
{
    let invocation = match runtime {
        Runtime::Native => {
            let mut args: Vec<String> = Vec::new();
            args.push("-lc".to_string());
            args.push(line.to_string());
            Invocation { program: "/bin/sh".to_string(), args }
        },
        Runtime::Wsl { distro } => {
            let mut args: Vec<String> = Vec::new();
            if let Some(distro) = distro {
                if !is_blank(distro.as_str()) {
                    args.push("-d".to_string());
                    args.push(distro.clone());
                }
            }
            args.push("--".to_string());
            args.push("bash".to_string());
            args.push("-lc".to_string());
            args.push(line.to_string());
            Invocation { program: "wsl.exe".to_string(), args }
        },
    };
    assert(invocation@.args =~= wrapped(*runtime, line@).args);
    invocation
}

/// The managed environment, as a path where the engine runs.
pub open spec fn engine_venv(host: Host, runtime: Runtime) -> Seq<char> {
    match runtime {
        Runtime::Wsl { .. } => wsl_path(host.venv()),
        Runtime::Native => host.venv(),
    }
}

/// The managed environment, as a path where the engine runs, protected for the shell.
fn quoted_venv(host: &Host, runtime: &Runtime) -> (venv: String)
    ensures
        venv@ == quoted(engine_venv(*host, *runtime)),
{
    match runtime {
        Runtime::Wsl { .. } => shell_quote(to_wsl_path(venv_dir(host).as_str()).as_str()),
        Runtime::Native => shell_quote(venv_dir(host).as_str()),
    }
}

/// What activates the managed environment. Under Linux nothing does where it is not there: the
/// user may have installed the engine elsewhere on the search path. Under WSL whether it is
/// there is seen from the distribution alone, so that the line itself looks.
pub open spec fn activation(host: Host, runtime: Runtime) -> Seq<char> {
    let venv = quoted(engine_venv(host, runtime));
    match runtime {
        Runtime::Native => if host.cli_present {
            ". "@ + venv + "/bin/activate 2>/dev/null || true; "@
        } else {
            seq![]
        },
        Runtime::Wsl { .. } => "if [ -f "@ + venv + "/bin/activate ]; then . "@ + venv
            + "/bin/activate; fi; "@,
    }
}

/// The beginning of a line that activates the managed environment.
pub fn activate_prefix(host: &Host, runtime: &Runtime) -> (prefix: String)
    ensures
        prefix@ == activation(*host, *runtime),
{
    match runtime {
        Runtime::Native => match venv_cli(host, runtime) {
            Some(_) => {
                let mut prefix = ". ".to_string();
                prefix.append(quoted_venv(host, runtime).as_str());
                prefix.append("/bin/activate 2>/dev/null || true; ");
                prefix
            },
            None => String::new(),
        },
        Runtime::Wsl { .. } => {
            let venv = quoted_venv(host, runtime);
            let mut prefix = "if [ -f ".to_string();
            prefix.append(venv.as_str());
            prefix.append("/bin/activate ]; then . ");
            prefix.append(venv.as_str());
            prefix.append("/bin/activate; fi; ");
            prefix
        },
    }
}

// ---------------------------------------------------------------------------
// Starting the server
// ---------------------------------------------------------------------------

/// An option and its value, where it has one.
pub open spec fn option(name: Seq<char>, value: Option<Seq<char>>) -> Seq<char> {
    match value {
        Some(value) => name + value,
        None => seq![],
    }
}

/// A value, protected for the shell.
pub open spec fn quoted_option(value: Option<Seq<char>>) -> Option<Seq<char>> {
    match value {
        Some(value) => Some(quoted(value)),
        None => None,
    }
}

/// Arguments, each protected for the shell, each after a space.
pub open spec fn quoted_args(args: Seq<Seq<char>>) -> Seq<char>
    decreases args.len(),
{
    if args.len() == 0 {
        seq![]
    } else {
        quoted_args(args.drop_last()) + " "@ + quoted(args.last())
    }
}

impl SettingsModel {
    /// The share of the video memory that is passed on: one out of bounds is not, the engine
    /// would refuse to start on it.
    pub open spec fn usable_ratio(self) -> Option<Seq<char>> {
        match self.memory_ratio {
            Some(ratio) => if ratio.usable() {
                Some(ratio.text@)
            } else {
                None
            },
            None => None,
        }
    }

    /// The number of output tokens that is passed on, as a numeral.
    pub open spec fn usable_tokens(self) -> Option<Seq<char>> {
        match self.max_output_tokens {
            Some(max) => if max > 0 {
                Some(decimal(max))
            } else {
                None
            },
            None => None,
        }
    }
}

/// The `ft serve` command, settings included.
pub open spec fn serve_command(
    settings: SettingsModel,
    runtime: Runtime,
    port: nat,
    model: Seq<char>,
) -> Seq<char> {
    CLI@ + " serve --model "@ + quoted(engine_model(model, runtime))
        + " --host 127.0.0.1 --port "@ + decimal(port) + option(
        " --moe-backend "@,
        quoted_option(settings.moe_backend),
    ) + option(" --memory-ratio "@, settings.usable_ratio()) + option(
        " --max-output-tokens "@,
        settings.usable_tokens(),
    ) + option(" --gpu "@, quoted_option(settings.gpu)) + quoted_args(settings.extra_args)
}

/// Appends an option and its value to `line`, where it has one.
fn append_option(line: &mut String, name: &str, value: Option<String>)
    ensures
        final(line)@ == old(line)@ + option(name@, value.deep_view()),
{
    match value {
        Some(value) => {
            line.append(name);
            line.append(value.as_str());
            assert(line@ =~= old(line)@ + (name@ + value@));
        },
        None => {
            assert(line@ =~= old(line)@ + seq![]);
        },
    }
}

/// A value, protected for the shell.
fn quote_option(value: &Option<String>) -> (result: Option<String>)
    ensures
        result.deep_view() == quoted_option(value.deep_view()),
{
    match value {
        Some(value) => Some(shell_quote(value.as_str())),
        None => None,
    }
}

/// Appends arguments to `line`, each protected for the shell.
fn append_args(line: &mut String, args: &Vec<String>)
    ensures
        final(line)@ == old(line)@ + quoted_args(args.deep_view()),
{
    let ghost texts = args.deep_view();
    let mut i: usize = 0;
    assert(texts.take(0) =~= seq![]);
    assert(line@ =~= old(line)@ + quoted_args(texts.take(0)));
    while i < args.len()
        invariant
            i <= args@.len(),
            texts == args.deep_view(),
            line@ == old(line)@ + quoted_args(texts.take(i as int)),
        decreases args@.len() - i,
    {
        line.append(" ");
        line.append(shell_quote(args[i].as_str()).as_str());
        i += 1;
        assert(texts.take(i as int).drop_last() =~= texts.take(i - 1));
        assert(line@ =~= old(line)@ + quoted_args(texts.take(i as int)));
    }
    assert(texts.take(i as int) =~= texts);
}

/// The `ft serve` command, settings included.
fn serve_text(settings: &Settings, runtime: &Runtime, port: u16, model: &str) -> (command: String)
    ensures
        command@ == serve_command(settings@, *runtime, port as nat, model@),
{
    let mut command = CLI.to_string();
    command.append(" serve --model ");
    command.append(shell_quote(model_for_engine(model, runtime).as_str()).as_str());
    command.append(" --host 127.0.0.1 --port ");
    push_decimal(&mut command, port as u64);
    append_option(&mut command, " --moe-backend ", quote_option(&settings.moe_backend));
    let ratio = match &settings.memory_ratio {
        Some(ratio) => if ratio.is_usable() {
            Some(ratio.text.clone())
        } else {
            None
        },
        None => None,
    };
    append_option(&mut command, " --memory-ratio ", ratio);
    let tokens = match settings.max_output_tokens {
        Some(max) => if max > 0 {
            Some(decimal_text(max as u64))
        } else {
            None
        },
        None => None,
    };
    append_option(&mut command, " --max-output-tokens ", tokens);
    append_option(&mut command, " --gpu ", quote_option(&settings.gpu));
    append_args(&mut command, &settings.extra_args);
    command
}

/// The command line of `ft serve`, settings included.
pub fn serve_line(
    settings: &Settings,
    host: &Host,
    runtime: &Runtime,
    port: u16,
    model: &str,
) -> (line: String)
    ensures
        line@ == activation(*host, *runtime) + serve_command(
            settings@,
            *runtime,
            port as nat,
            model@,
        ),
{
    let mut line = activate_prefix(host, runtime);
    line.append(serve_text(settings, runtime, port, model).as_str());
    line
}

/// The line by which the shell activates the environment and then becomes the server. The
/// environment comes first: `exec` takes a program, and what activates the environment is none.
pub open spec fn start_line(
    settings: SettingsModel,
    host: Host,
    runtime: Runtime,
    port: nat,
    model: Seq<char>,
) -> Seq<char> {
    activation(host, runtime) + ("exec "@ + serve_command(settings, runtime, port, model))
}

/// The command that starts the server. `exec` replaces the shell by the server, so that what
/// stops the process stops the server.
pub fn serve_invocation(
    settings: &Settings,
    host: &Host,
    runtime: &Runtime,
    port: u16,
    model: &str,
) -> (invocation: Invocation)
    ensures
        invocation@ == wrapped(
            *runtime,
            start_line(settings@, *host, *runtime, port as nat, model@),
        ),
{
    let mut command = "exec ".to_string();
    command.append(serve_text(settings, runtime, port, model).as_str());
    let mut line = activate_prefix(host, runtime);
    line.append(command.as_str());
    wrap(runtime, line.as_str())
}

// ---------------------------------------------------------------------------
// Installing, probing, stopping, measuring, converting
// ---------------------------------------------------------------------------

/// The line that installs `version` of the engine in the environment `venv`, a path protected
/// for the shell.
pub open spec fn install_line(venv: Seq<char>, version: Seq<char>) -> Seq<char> {
    let target = quoted(PACKAGE@ + "[accel]=="@ + version);
    "set -e; if command -v uv >/dev/null 2>&1; then uv venv "@ + venv
        + " >/dev/null; VIRTUAL_ENV="@ + venv + " uv pip install --python "@ + venv
        + "/bin/python "@ + target + "; else python3 -m venv "@ + venv + "; "@ + venv
        + "/bin/python -m pip install --upgrade pip >/dev/null; "@ + venv
        + "/bin/python -m pip install "@ + target + "; fi; "@ + venv + "/bin/"@ + CLI@
        + " --version"@
}

/// The command that installs the engine, or another version of it, in the managed environment.
///
/// With `uv` where it is there, with `venv` and `pip` where it is not. The version is pinned.
pub fn install_invocation(host: &Host, runtime: &Runtime, version: &str) -> (invocation: Invocation)
    ensures
        invocation@ == wrapped(
            *runtime,
            install_line(quoted(engine_venv(*host, *runtime)), version@),
        ),
{
    let quoted_path = quoted_venv(host, runtime);
    let venv = quoted_path.as_str();
    let mut package = PACKAGE.to_string();
    package.append("[accel]==");
    package.append(version);
    let quoted_package = shell_quote(package.as_str());
    let target = quoted_package.as_str();
    let mut line = "set -e; if command -v uv >/dev/null 2>&1; then uv venv ".to_string();
    line.append(venv);
    line.append(" >/dev/null; VIRTUAL_ENV=");
    line.append(venv);
    line.append(" uv pip install --python ");
    line.append(venv);
    line.append("/bin/python ");
    line.append(target);
    line.append("; else python3 -m venv ");
    line.append(venv);
    line.append("; ");
    line.append(venv);
    line.append("/bin/python -m pip install --upgrade pip >/dev/null; ");
    line.append(venv);
    line.append("/bin/python -m pip install ");
    line.append(target);
    line.append("; fi; ");
    line.append(venv);
    line.append("/bin/");
    line.append(CLI);
    line.append(" --version");
    wrap(runtime, line.as_str())
}

/// The line that asks the machine, given the environment `venv`, a path protected for the
/// shell. Each line that it prints begins with a key, which is how [`crate::probe`] reads them.
pub open spec fn probe_line(venv: Seq<char>) -> Seq<char> {
    "echo \"os=$(uname -s) $(uname -m)\"; echo \"python=$(command -v python3 || echo -)\"; echo \"uv=$(command -v uv || echo -)\"; echo \"nvcc=$(command -v nvcc || echo -)\"; echo \"venv="@
        + venv + "\"; if [ -x "@ + venv + "/bin/"@ + CLI@ + " ]; then echo \"ft_venv=$("@ + venv
        + "/bin/"@ + CLI@
        + " --version 2>&1 | head -n1)\"; else echo 'ft_venv=-'; fi; if command -v "@ + CLI@
        + " >/dev/null 2>&1; then echo \"ft_path=$("@ + CLI@
        + " --version 2>&1 | head -n1)\"; else echo 'ft_path=-'; fi; if command -v nvidia-smi >/dev/null 2>&1; then echo \"driver=$(nvidia-smi --query-gpu=driver_version --format=csv,noheader | head -n1)\"; nvidia-smi --query-gpu=index,name,memory.total --format=csv,noheader | while IFS= read -r l; do echo \"gpu=$l\"; done; else echo 'driver=-'; fi; echo \"ram_kb=$(awk '/MemTotal/ {print $2}' /proc/meminfo 2>/dev/null || echo 0)\""@
}

/// The command that asks the machine: driver, cards, tools that are there.
pub fn probe_invocation(host: &Host, runtime: &Runtime) -> (invocation: Invocation)
    ensures
        invocation@ == wrapped(*runtime, probe_line(quoted(engine_venv(*host, *runtime)))),
{
    let quoted_path = quoted_venv(host, runtime);
    let venv = quoted_path.as_str();
    let mut line =
        "echo \"os=$(uname -s) $(uname -m)\"; echo \"python=$(command -v python3 || echo -)\"; echo \"uv=$(command -v uv || echo -)\"; echo \"nvcc=$(command -v nvcc || echo -)\"; echo \"venv=".to_string();
    line.append(venv);
    line.append("\"; if [ -x ");
    line.append(venv);
    line.append("/bin/");
    line.append(CLI);
    line.append(" ]; then echo \"ft_venv=$(");
    line.append(venv);
    line.append("/bin/");
    line.append(CLI);
    line.append(" --version 2>&1 | head -n1)\"; else echo 'ft_venv=-'; fi; if command -v ");
    line.append(CLI);
    line.append(" >/dev/null 2>&1; then echo \"ft_path=$(");
    line.append(CLI);
    line.append(
        " --version 2>&1 | head -n1)\"; else echo 'ft_path=-'; fi; if command -v nvidia-smi >/dev/null 2>&1; then echo \"driver=$(nvidia-smi --query-gpu=driver_version --format=csv,noheader | head -n1)\"; nvidia-smi --query-gpu=index,name,memory.total --format=csv,noheader | while IFS= read -r l; do echo \"gpu=$l\"; done; else echo 'driver=-'; fi; echo \"ram_kb=$(awk '/MemTotal/ {print $2}' /proc/meminfo 2>/dev/null || echo 0)\"",
    );
    wrap(runtime, line.as_str())
}

/// The pattern, for `pkill -f`, of the servers on `port`. The number ends there, at a space or
/// with the command line: the servers on a longer number are others. Nor is the pattern itself
/// one of what it matches, so that the shell that is given it does not stop itself.
pub open spec fn server_pattern(port: nat) -> Seq<char> {
    CLI@ + " serve .*--port "@ + decimal(port) + "( |$)"@
}

/// The line that stops the servers on `port`. It succeeds whether there is one or not.
pub open spec fn kill_line(port: nat) -> Seq<char> {
    let pattern = quoted(server_pattern(port));
    "pkill -f "@ + pattern + " 2>/dev/null; pkill -f "@ + pattern + " 2>/dev/null; exit 0"@
}

/// The command that stops a server that was left on `port`.
///
/// Under WSL the end of `wsl.exe` does not end the Linux server: without this a change of model
/// would leave the former server on the port and in the video memory.
pub fn kill_stale_invocation(runtime: &Runtime, port: u16) -> (invocation: Invocation)
    ensures
        invocation@ == wrapped(*runtime, kill_line(port as nat)),
{
    let mut pattern = CLI.to_string();
    pattern.append(" serve .*--port ");
    push_decimal(&mut pattern, port as u64);
    pattern.append("( |$)");
    let quoted_pattern = shell_quote(pattern.as_str());
    let mut line = "pkill -f ".to_string();
    line.append(quoted_pattern.as_str());
    line.append(" 2>/dev/null; pkill -f ");
    line.append(quoted_pattern.as_str());
    line.append(" 2>/dev/null; exit 0");
    wrap(runtime, line.as_str())
}

/// The line that measures the bandwidth, for the given formats alone where some are given.
pub open spec fn bench_line(dtype: Option<Seq<char>>) -> Seq<char> {
    CLI@ + " bench bw"@ + option(
        " --dtype "@,
        match dtype {
            Some(dtype) => if trim(dtype).len() > 0 {
                Some(quoted(dtype))
            } else {
                None
            },
            None => None,
        },
    )
}

/// The command that measures the bandwidth of the memory against that of the PCIe bus.
pub fn bench_invocation(host: &Host, runtime: &Runtime, dtype: Option<&str>) -> (invocation:
    Invocation)
    ensures
        invocation@ == wrapped(
            *runtime,
            activation(*host, *runtime) + bench_line(
                match dtype {
                    Some(dtype) => Some(dtype@),
                    None => None,
                },
            ),
        ),
{
    let mut command = CLI.to_string();
    command.append(" bench bw");
    let value = match dtype {
        Some(dtype) => if is_blank(dtype) {
            None
        } else {
            Some(shell_quote(dtype))
        },
        None => None,
    };
    append_option(&mut command, " --dtype ", value);
    let mut line = activate_prefix(host, runtime);
    line.append(command.as_str());
    wrap(runtime, line.as_str())
}

/// The line that converts the checkpoint `source` into the folder `out`, both as they are named
/// where the engine runs.
pub open spec fn convert_line(source: Seq<char>, out: Seq<char>) -> Seq<char> {
    CLI@ + " checkpoint --model "@ + quoted(source) + " --out "@ + quoted(out)
}

/// A folder, as a path where the engine runs.
pub open spec fn engine_path(runtime: Runtime, path: Seq<char>) -> Seq<char> {
    match runtime {
        Runtime::Wsl { .. } => wsl_path(path),
        Runtime::Native => path,
    }
}

/// The command that converts a Hugging Face checkpoint to the format that the engine loads
/// fast.
pub fn convert_invocation(host: &Host, runtime: &Runtime, source: &str, out: &str) -> (invocation:
    Invocation)
    ensures
        invocation@ == wrapped(
            *runtime,
            activation(*host, *runtime) + convert_line(
                engine_model(source@, *runtime),
                engine_path(*runtime, out@),
            ),
        ),
{
    let mut command = CLI.to_string();
    command.append(" checkpoint --model ");
    command.append(shell_quote(model_for_engine(source, runtime).as_str()).as_str());
    command.append(" --out ");
    let folder = match runtime {
        Runtime::Wsl { .. } => shell_quote(to_wsl_path(out).as_str()),
        Runtime::Native => shell_quote(out),
    };
    command.append(folder.as_str());
    let mut line = activate_prefix(host, runtime);
    line.append(command.as_str());
    wrap(runtime, line.as_str())
}

// ---------------------------------------------------------------------------
// Laws
// ---------------------------------------------------------------------------

/// A name and its value as two words, where there is a value.
pub open spec fn option_words(name: Seq<char>, value: Option<Seq<char>>) -> Seq<Seq<char>> {
    match value {
        Some(value) => seq![name, value],
        None => seq![],
    }
}

/// The words of the `ft serve` command.
pub open spec fn serve_words(
    settings: SettingsModel,
    runtime: Runtime,
    port: nat,
    model: Seq<char>,
) -> Seq<Seq<char>> {
    seq![
        CLI@,
        "serve"@,
        "--model"@,
        engine_model(model, runtime),
        "--host"@,
        "127.0.0.1"@,
        "--port"@,
        decimal(port),
    ] + option_words("--moe-backend"@, settings.moe_backend) + option_words(
        "--memory-ratio"@,
        settings.usable_ratio(),
    ) + option_words("--max-output-tokens"@, settings.usable_tokens()) + option_words(
        "--gpu"@,
        settings.gpu,
    ) + settings.extra_args
}

/// A numeral is plain.
proof fn lemma_decimal_is_plain(n: nat)
    ensures
        is_plain(decimal(n)),
        decimal(n).len() > 0,
{
    lemma_decimal(n);
    assert forall|i: int| 0 <= i < decimal(n).len() implies !is_special(
        #[trigger] decimal(n)[i],
    ) && decimal(n)[i] != ' ' && decimal(n)[i] != '\'' && decimal(n)[i] != '\\' by {
        assert(is_digit(decimal(n)[i]));
    }
}

/// An option with a value adds two words: its name, and its value as it is, quoted or not.
proof fn lemma_option_added(
    line: Seq<char>,
    words: Seq<Seq<char>>,
    flag: Seq<char>,
    name: Seq<char>,
    value: Option<Seq<char>>,
    written: Option<Seq<char>>,
)
    requires
        command_words(line) == Some(words),
        flag == " "@ + name + " "@,
        is_plain(name),
        name.len() > 0,
        value is Some == written is Some,
        value is Some ==> written->0 == quoted(value->0) || (written->0 == value->0 && is_plain(
            value->0,
        ) && value->0.len() > 0),
    ensures
        command_words(line + option(flag, written)) == Some(words + option_words(name, value)),
{
    if value is Some {
        lemma_plain_word_added(line, words, name);
        let named = line + " "@ + name;
        if written->0 == quoted(value->0) {
            lemma_quoted_word_added(named, words.push(name), value->0);
        } else {
            lemma_plain_word_added(named, words.push(name), value->0);
        }
        assert(named + " "@ + written->0 =~= line + option(flag, written));
        assert(words.push(name).push(value->0) =~= words + option_words(name, value));
    } else {
        assert(line + option(flag, written) =~= line);
        assert(words + option_words(name, value) =~= words);
    }
}

/// Quoted arguments add one word each.
proof fn lemma_args_added(line: Seq<char>, words: Seq<Seq<char>>, args: Seq<Seq<char>>)
    requires
        command_words(line) == Some(words),
    ensures
        command_words(line + quoted_args(args)) == Some(words + args),
    decreases args.len(),
{
    if args.len() == 0 {
        assert(line + quoted_args(args) =~= line);
        assert(words + args =~= words);
    } else {
        let front = args.drop_last();
        lemma_args_added(line, words, front);
        lemma_quoted_word_added(line + quoted_args(front), words + front, args.last());
        assert(line + quoted_args(front) + " "@ + quoted(args.last()) =~= line + quoted_args(args));
        assert((words + front).push(args.last()) =~= words + args);
    }
}

/// The name of the engine alone is one word.
proof fn lemma_cli_is_read()
    ensures
        command_words(CLI@) == Some(seq![CLI@]),
{
    reveal_strlit("ft");
    lemma_read_plain(Reading::start(), CLI@);
    assert(seq![] + CLI@ =~= CLI@);
    assert(Reading::start().words.push(CLI@) =~= seq![CLI@]);
}

/// What follows the name of the engine in every `ft serve` command is read as its words.
proof fn lemma_serve_start(start: Seq<char>, words: Seq<Seq<char>>, model: Seq<char>, port: nat)
    requires
        command_words(start) == Some(words),
    ensures
        command_words(
            start + " serve --model "@ + quoted(model) + " --host 127.0.0.1 --port "@ + decimal(
                port,
            ),
        ) == Some(
            words + seq![
                "serve"@,
                "--model"@,
                model,
                "--host"@,
                "127.0.0.1"@,
                "--port"@,
                decimal(port),
            ],
        ),
{
    reveal_strlit(" ");
    reveal_strlit("serve");
    reveal_strlit("--model");
    reveal_strlit("--host");
    reveal_strlit("127.0.0.1");
    reveal_strlit("--port");
    reveal_strlit(" serve --model ");
    reveal_strlit(" --host 127.0.0.1 --port ");
    lemma_decimal_is_plain(port);
    let line2 = start + " "@ + "serve"@;
    let words2 = words.push("serve"@);
    lemma_plain_word_added(start, words, "serve"@);
    let line3 = line2 + " "@ + "--model"@;
    let words3 = words2.push("--model"@);
    lemma_plain_word_added(line2, words2, "--model"@);
    let line4 = line3 + " "@ + quoted(model);
    let words4 = words3.push(model);
    lemma_quoted_word_added(line3, words3, model);
    let line5 = line4 + " "@ + "--host"@;
    let words5 = words4.push("--host"@);
    lemma_plain_word_added(line4, words4, "--host"@);
    let line6 = line5 + " "@ + "127.0.0.1"@;
    let words6 = words5.push("127.0.0.1"@);
    lemma_plain_word_added(line5, words5, "127.0.0.1"@);
    let line7 = line6 + " "@ + "--port"@;
    let words7 = words6.push("--port"@);
    lemma_plain_word_added(line6, words6, "--port"@);
    let line8 = line7 + " "@ + decimal(port);
    lemma_plain_word_added(line7, words7, decimal(port));
    assert(" serve --model "@ =~= " "@ + "serve"@ + " "@ + "--model"@ + " "@);
    assert(" --host 127.0.0.1 --port "@ =~= " "@ + "--host"@ + " "@ + "127.0.0.1"@ + " "@
        + "--port"@ + " "@);
    let begun = start + " serve --model "@;
    assert(begun =~= line3 + " "@);
    let middle = begun + quoted(model);
    assert(middle =~= line4);
    assert(middle + " --host 127.0.0.1 --port "@ =~= line7 + " "@);
    assert(words7.push(decimal(port)) =~= words + seq![
        "serve"@,
        "--model"@,
        model,
        "--host"@,
        "127.0.0.1"@,
        "--port"@,
        decimal(port),
    ]);
}

/// The `ft serve` command without the name of the engine, after `start`.
spec fn serve_after(
    start: Seq<char>,
    settings: SettingsModel,
    runtime: Runtime,
    port: nat,
    model: Seq<char>,
) -> Seq<char> {
    start + " serve --model "@ + quoted(engine_model(model, runtime))
        + " --host 127.0.0.1 --port "@ + decimal(port) + option(
        " --moe-backend "@,
        quoted_option(settings.moe_backend),
    ) + option(" --memory-ratio "@, settings.usable_ratio()) + option(
        " --max-output-tokens "@,
        settings.usable_tokens(),
    ) + option(" --gpu "@, quoted_option(settings.gpu)) + quoted_args(settings.extra_args)
}

/// What stands before the name of the engine stands before the whole command.
proof fn lemma_serve_after(
    before: Seq<char>,
    start: Seq<char>,
    settings: SettingsModel,
    runtime: Runtime,
    port: nat,
    model: Seq<char>,
)
    ensures
        serve_after(before + start, settings, runtime, port, model) == before + serve_after(
            start,
            settings,
            runtime,
            port,
            model,
        ),
{
    let a = " serve --model "@;
    let b = quoted(engine_model(model, runtime));
    let c = " --host 127.0.0.1 --port "@;
    let d = decimal(port);
    let e = option(" --moe-backend "@, quoted_option(settings.moe_backend));
    let f = option(" --memory-ratio "@, settings.usable_ratio());
    let g = option(" --max-output-tokens "@, settings.usable_tokens());
    let h = option(" --gpu "@, quoted_option(settings.gpu));
    let i = quoted_args(settings.extra_args);
    lemma_joined(before, start, a);
    lemma_joined(before, start + a, b);
    lemma_joined(before, start + a + b, c);
    lemma_joined(before, start + a + b + c, d);
    lemma_joined(before, start + a + b + c + d, e);
    lemma_joined(before, start + a + b + c + d + e, f);
    lemma_joined(before, start + a + b + c + d + e + f, g);
    lemma_joined(before, start + a + b + c + d + e + f + g, h);
    lemma_joined(before, start + a + b + c + d + e + f + g + h, i);
}

/// Joining texts is associative.
proof fn lemma_joined(a: Seq<char>, b: Seq<char>, c: Seq<char>)
    ensures
        a + b + c == a + (b + c),
{
    assert(a + b + c =~= a + (b + c));
}

/// Words that follow others, grouped without the first of them.
proof fn lemma_words_regrouped(
    words: Seq<Seq<char>>,
    first: Seq<char>,
    a: Seq<Seq<char>>,
    b: Seq<Seq<char>>,
    c: Seq<Seq<char>>,
    d: Seq<Seq<char>>,
    e: Seq<Seq<char>>,
    f: Seq<Seq<char>>,
)
    ensures
        words + a + b + c + d + e + f == words + (seq![first] + a + b + c + d + e + f).skip(1),
{
    assert((seq![first] + a + b + c + d + e + f).skip(1) =~= a + b + c + d + e + f);
    assert(words + (a + b + c + d + e + f) =~= words + a + b + c + d + e + f);
}

/// What follows the name of the engine in an `ft serve` command is read as its words.
proof fn lemma_serve_read(
    start: Seq<char>,
    words: Seq<Seq<char>>,
    settings: SettingsModel,
    runtime: Runtime,
    port: nat,
    model: Seq<char>,
)
    requires
        command_words(start) == Some(words),
        settings.memory_ratio matches Some(ratio) ==> (ratio.usable() ==> ratio.is_decimal()),
    ensures
        command_words(serve_after(start, settings, runtime, port, model)) == Some(
            words + serve_words(settings, runtime, port, model).skip(1),
        ),
{
    reveal_strlit(" ");
    reveal_strlit("--moe-backend");
    reveal_strlit(" --moe-backend ");
    reveal_strlit("--memory-ratio");
    reveal_strlit(" --memory-ratio ");
    reveal_strlit("--max-output-tokens");
    reveal_strlit(" --max-output-tokens ");
    reveal_strlit("--gpu");
    reveal_strlit(" --gpu ");
    let engine = engine_model(model, runtime);
    lemma_serve_start(start, words, engine, port);
    let line1 = start + " serve --model "@ + quoted(engine) + " --host 127.0.0.1 --port "@
        + decimal(port);
    let words1 = words + seq![
        "serve"@,
        "--model"@,
        engine,
        "--host"@,
        "127.0.0.1"@,
        "--port"@,
        decimal(port),
    ];
    assert(" --moe-backend "@ =~= " "@ + "--moe-backend"@ + " "@);
    assert(" --memory-ratio "@ =~= " "@ + "--memory-ratio"@ + " "@);
    assert(" --max-output-tokens "@ =~= " "@ + "--max-output-tokens"@ + " "@);
    assert(" --gpu "@ =~= " "@ + "--gpu"@ + " "@);
    let backend = quoted_option(settings.moe_backend);
    lemma_option_added(
        line1,
        words1,
        " --moe-backend "@,
        "--moe-backend"@,
        settings.moe_backend,
        backend,
    );
    let line2 = line1 + option(" --moe-backend "@, backend);
    let words2 = words1 + option_words("--moe-backend"@, settings.moe_backend);
    let ratio = settings.usable_ratio();
    lemma_option_added(line2, words2, " --memory-ratio "@, "--memory-ratio"@, ratio, ratio);
    let line3 = line2 + option(" --memory-ratio "@, ratio);
    let words3 = words2 + option_words("--memory-ratio"@, ratio);
    let tokens = settings.usable_tokens();
    if settings.max_output_tokens is Some {
        lemma_decimal_is_plain(settings.max_output_tokens->0);
    }
    lemma_option_added(
        line3,
        words3,
        " --max-output-tokens "@,
        "--max-output-tokens"@,
        tokens,
        tokens,
    );
    let line4 = line3 + option(" --max-output-tokens "@, tokens);
    let words4 = words3 + option_words("--max-output-tokens"@, tokens);
    let gpu = quoted_option(settings.gpu);
    lemma_option_added(line4, words4, " --gpu "@, "--gpu"@, settings.gpu, gpu);
    let line5 = line4 + option(" --gpu "@, gpu);
    let words5 = words4 + option_words("--gpu"@, settings.gpu);
    lemma_args_added(line5, words5, settings.extra_args);
    lemma_words_regrouped(
        words,
        CLI@,
        seq!["serve"@, "--model"@, engine, "--host"@, "127.0.0.1"@, "--port"@, decimal(port)],
        option_words("--moe-backend"@, settings.moe_backend),
        option_words("--memory-ratio"@, ratio),
        option_words("--max-output-tokens"@, tokens),
        option_words("--gpu"@, settings.gpu),
        settings.extra_args,
    );
    assert(seq![CLI@] + seq![
        "serve"@,
        "--model"@,
        engine,
        "--host"@,
        "127.0.0.1"@,
        "--port"@,
        decimal(port),
    ] =~= seq![
        CLI@,
        "serve"@,
        "--model"@,
        engine,
        "--host"@,
        "127.0.0.1"@,
        "--port"@,
        decimal(port),
    ]);
}

/// The shell reads the `ft serve` command as exactly the words that are meant: each setting,
/// each extra argument and the model are one word, whatever they hold.
pub proof fn law_serve_command_is_read_as_meant(
    settings: SettingsModel,
    runtime: Runtime,
    port: nat,
    model: Seq<char>,
)
    requires
        settings.memory_ratio matches Some(ratio) ==> (ratio.usable() ==> ratio.is_decimal()),
    ensures
        command_words(serve_command(settings, runtime, port, model)) == Some(
            serve_words(settings, runtime, port, model),
        ),
{
    lemma_cli_is_read();
    lemma_serve_read(CLI@, seq![CLI@], settings, runtime, port, model);
    let words = serve_words(settings, runtime, port, model);
    assert(seq![CLI@] + words.skip(1) =~= words);
}

/// What starts the server activates the environment and then has the shell become the server:
/// after the activation, the shell reads `exec` and the words of the `ft serve` command.
pub proof fn law_shell_becomes_the_server(
    settings: SettingsModel,
    host: Host,
    runtime: Runtime,
    port: nat,
    model: Seq<char>,
)
    requires
        settings.memory_ratio matches Some(ratio) ==> (ratio.usable() ==> ratio.is_decimal()),
    ensures
        start_line(settings, host, runtime, port, model).take(
            activation(host, runtime).len() as int,
        ) == activation(host, runtime),
        command_words(
            start_line(settings, host, runtime, port, model).skip(
                activation(host, runtime).len() as int,
            ),
        ) == Some(seq!["exec"@] + serve_words(settings, runtime, port, model)),
{
    reveal_strlit("exec");
    reveal_strlit("exec ");
    reveal_strlit(" ");
    reveal_strlit("ft");
    let line = start_line(settings, host, runtime, port, model);
    let prefix = activation(host, runtime);
    let command = "exec "@ + serve_command(settings, runtime, port, model);
    assert(line.take(prefix.len() as int) =~= prefix);
    assert(line.skip(prefix.len() as int) =~= command);
    lemma_read_plain(Reading::start(), "exec"@);
    assert(seq![] + "exec"@ =~= "exec"@);
    assert(Reading::start().words.push("exec"@) =~= seq!["exec"@]);
    lemma_plain_word_added("exec"@, seq!["exec"@], CLI@);
    let start = "exec"@ + " "@ + CLI@;
    let words = seq!["exec"@].push(CLI@);
    lemma_serve_read(start, words, settings, runtime, port, model);
    lemma_serve_after("exec "@, CLI@, settings, runtime, port, model);
    assert("exec "@ + CLI@ =~= start);
    let meant = serve_words(settings, runtime, port, model);
    assert(words + meant.skip(1) =~= seq!["exec"@] + meant);
}

/// The shell reads the command that measures the bandwidth as the words that are meant.
pub proof fn law_bench_line_is_read_as_meant(dtype: Option<Seq<char>>)
    ensures
        command_words(bench_line(dtype)) == Some(
            seq![CLI@, "bench"@, "bw"@] + option_words(
                "--dtype"@,
                match dtype {
                    Some(dtype) => if trim(dtype).len() > 0 {
                        Some(dtype)
                    } else {
                        None
                    },
                    None => None,
                },
            ),
        ),
{
    reveal_strlit("ft");
    reveal_strlit(" ");
    reveal_strlit("bench");
    reveal_strlit("bw");
    reveal_strlit(" bench bw");
    reveal_strlit("--dtype");
    reveal_strlit(" --dtype ");
    lemma_cli_is_read();
    let words1 = seq![CLI@];
    lemma_plain_word_added(CLI@, words1, "bench"@);
    let line2 = CLI@ + " "@ + "bench"@;
    lemma_plain_word_added(line2, words1.push("bench"@), "bw"@);
    let line3 = line2 + " "@ + "bw"@;
    assert(line3 =~= CLI@ + " bench bw"@);
    assert(words1.push("bench"@).push("bw"@) =~= seq![CLI@, "bench"@, "bw"@]);
    assert(" --dtype "@ =~= " "@ + "--dtype"@ + " "@);
    let value = match dtype {
        Some(dtype) => if trim(dtype).len() > 0 {
            Some(dtype)
        } else {
            None
        },
        None => None,
    };
    lemma_option_added(
        line3,
        seq![CLI@, "bench"@, "bw"@],
        " --dtype "@,
        "--dtype"@,
        value,
        quoted_option(value),
    );
}

/// The shell reads the command that converts a checkpoint as the words that are meant.
pub proof fn law_convert_line_is_read_as_meant(source: Seq<char>, out: Seq<char>)
    ensures
        command_words(convert_line(source, out)) == Some(
            seq![CLI@, "checkpoint"@, "--model"@, source, "--out"@, out],
        ),
{
    reveal_strlit("ft");
    reveal_strlit(" ");
    reveal_strlit("checkpoint");
    reveal_strlit("--model");
    reveal_strlit("--out");
    reveal_strlit(" checkpoint --model ");
    reveal_strlit(" --out ");
    lemma_cli_is_read();
    let words1 = seq![CLI@];
    lemma_plain_word_added(CLI@, words1, "checkpoint"@);
    let line2 = CLI@ + " "@ + "checkpoint"@;
    let words2 = words1.push("checkpoint"@);
    lemma_option_added(
        line2,
        words2,
        " "@ + "--model"@ + " "@,
        "--model"@,
        Some(source),
        Some(quoted(source)),
    );
    let line3 = line2 + option(" "@ + "--model"@ + " "@, Some(quoted(source)));
    let words3 = words2 + option_words("--model"@, Some(source));
    assert(" --out "@ =~= " "@ + "--out"@ + " "@);
    lemma_option_added(line3, words3, " --out "@, "--out"@, Some(out), Some(quoted(out)));
    assert(" checkpoint --model "@ =~= " "@ + "checkpoint"@ + " "@ + "--model"@ + " "@);
    assert(CLI@ + " checkpoint --model "@ + quoted(source) =~= line3);
    assert(line3 + option(" --out "@, Some(quoted(out))) =~= convert_line(source, out));
    assert(words3 + option_words("--out"@, Some(out)) =~= seq![
        CLI@,
        "checkpoint"@,
        "--model"@,
        source,
        "--out"@,
        out,
    ]);
}

/// Words, each after a space.
pub open spec fn spaced(words: Seq<Seq<char>>) -> Seq<char>
    decreases words.len(),
{
    if words.len() == 0 {
        seq![]
    } else {
        spaced(words.drop_last()) + " "@ + words.last()
    }
}

/// `text` holds a part that the pattern of [`kill_line`] matches: `.*` stands for any text, and
/// `( |$)` for a space or the end of the text.
pub open spec fn matches_server_pattern(text: Seq<char>, port: nat) -> bool {
    exists|before: Seq<char>, any: Seq<char>, after: Seq<char>|
        (after.len() == 0 || after[0] == ' ') && text == #[trigger] (before + CLI@ + " serve "@ + any
            + "--port "@ + decimal(port) + after)
}

/// The words of two sequences, spaced.
proof fn lemma_spaced_joined(a: Seq<Seq<char>>, b: Seq<Seq<char>>)
    ensures
        spaced(a + b) == spaced(a) + spaced(b),
    decreases b.len(),
{
    if b.len() == 0 {
        assert(a + b =~= a);
        assert(spaced(a) + spaced(b) =~= spaced(a));
    } else {
        lemma_spaced_joined(a, b.drop_last());
        assert((a + b).drop_last() =~= a + b.drop_last());
        assert(spaced(a) + spaced(b) =~= spaced(a) + spaced(b.drop_last()) + " "@ + b.last());
    }
}

/// What stops the servers on a port finds the server that is started on it, by the words of its
/// command, whatever the settings and the model.
pub proof fn law_stopping_finds_the_server(
    settings: SettingsModel,
    runtime: Runtime,
    port: nat,
    model: Seq<char>,
)
    ensures
        matches_server_pattern(spaced(serve_words(settings, runtime, port, model)), port),
{
    reveal_strlit(" ");
    reveal_strlit("serve");
    reveal_strlit(" serve ");
    reveal_strlit("--port");
    reveal_strlit("--port ");
    let engine = engine_model(model, runtime);
    let head = seq![CLI@, "serve"@];
    let middle = seq!["--model"@, engine, "--host"@, "127.0.0.1"@];
    let tail = seq!["--port"@, decimal(port)];
    let rest = option_words("--moe-backend"@, settings.moe_backend) + option_words(
        "--memory-ratio"@,
        settings.usable_ratio(),
    ) + option_words("--max-output-tokens"@, settings.usable_tokens()) + option_words(
        "--gpu"@,
        settings.gpu,
    ) + settings.extra_args;
    let words = serve_words(settings, runtime, port, model);
    assert(words =~= head + middle + tail + rest);
    lemma_spaced_joined(head + middle + tail, rest);
    lemma_spaced_joined(head + middle, tail);
    lemma_spaced_joined(head, middle);
    reveal_with_fuel(spaced, 3);
    assert(head.drop_last() =~= seq![CLI@]);
    assert(seq![CLI@].drop_last() =~= seq![]);
    assert(spaced(head) =~= " "@ + CLI@ + " "@ + "serve"@);
    assert(tail.drop_last() =~= seq!["--port"@]);
    assert(seq!["--port"@].drop_last() =~= seq![]);
    assert(spaced(tail) =~= " "@ + "--port"@ + " "@ + decimal(port));
    assert(middle.len() > 0);
    let any = spaced(middle).skip(1) + " "@;
    lemma_spaced_begins(middle);
    assert(" serve "@ =~= " "@ + "serve"@ + " "@);
    assert("--port "@ =~= "--port"@ + " "@);
    assert(spaced(middle) =~= " "@ + spaced(middle).skip(1));
    if rest.len() > 0 {
        lemma_spaced_begins(rest);
    }
    assert(spaced(words) =~= " "@ + CLI@ + " serve "@ + any + "--port "@ + decimal(port) + spaced(
        rest,
    ));
}

/// Spaced words begin with a space.
proof fn lemma_spaced_begins(words: Seq<Seq<char>>)
    requires
        words.len() > 0,
    ensures
        spaced(words).len() > 0,
        spaced(words)[0] == ' ',
    decreases words.len(),
{
    reveal_strlit(" ");
    if words.len() > 1 {
        lemma_spaced_begins(words.drop_last());
    } else {
        assert(spaced(words.drop_last()) =~= seq![]);
    }
}

/// `text` names the port at `i`, and ends its number there.
spec fn port_at(text: Seq<char>, i: int, port: nat) -> bool {
    let end = i + 7 + decimal(port).len();
    &&& 0 <= i && end <= text.len()
    &&& text.subrange(i, i + 7) == "--port "@
    &&& text.subrange(i + 7, end) == decimal(port)
    &&& end == text.len() || text[end] == ' '
}

/// What the pattern matches names the port.
proof fn lemma_match_names_port(text: Seq<char>, port: nat) -> (i: int)
    requires
        matches_server_pattern(text, port),
    ensures
        port_at(text, i, port),
{
    reveal_strlit("--port ");
    let (before, any, after) = choose|before: Seq<char>, any: Seq<char>, after: Seq<char>|
        (after.len() == 0 || after[0] == ' ') && text == #[trigger] (before + CLI@ + " serve "@ + any
            + "--port "@ + decimal(port) + after);
    let head = before + CLI@ + " serve "@ + any;
    let i = head.len() as int;
    let end = i + 7 + decimal(port).len();
    assert(text =~= head + ("--port "@ + decimal(port) + after));
    assert(text.subrange(i, i + 7) =~= "--port "@);
    assert(text.subrange(i + 7, end) =~= decimal(port));
    assert(after.len() > 0 ==> text[end] == after[0]);
    i
}

/// The word holds a flag `--port` and a space, or ends in the flag: what follows may be taken for
/// a port.
pub open spec fn names_port(word: Seq<char>) -> bool {
    contains(word, "--port "@) || (word.len() >= 6 && word.skip(word.len() - 6) == "--port"@)
}

/// Spaced words, the first of them apart.
proof fn lemma_spaced_first(words: Seq<Seq<char>>)
    requires
        words.len() > 0,
    ensures
        spaced(words) == " "@ + words[0] + spaced(words.skip(1)),
{
    let first = seq![words[0]];
    lemma_spaced_joined(first, words.skip(1));
    assert(first + words.skip(1) =~= words);
    assert(first.drop_last() =~= seq![]);
    reveal_with_fuel(spaced, 2);
    assert(spaced(first) =~= " "@ + words[0]);
}

/// Where spaced words hold `--port ` at `i`, a word holds it, or a word ends in the flag and the
/// next word follows.
proof fn lemma_flag_in_words(words: Seq<Seq<char>>, i: int) -> (k: int)
    requires
        0 <= i <= spaced(words).len() - 7,
        spaced(words).subrange(i, i + 7) == "--port "@,
    ensures
        0 <= k < words.len(),
        contains(words[k], "--port "@) || ({
            &&& words[k].len() >= 6
            &&& words[k].skip(words[k].len() - 6) == "--port"@
            &&& k + 1 < words.len()
            &&& spaced(words).skip(i + 7) == words[k + 1] + spaced(words.skip(k + 2))
        }),
    decreases words.len(),
{
    reveal_strlit("--port ");
    reveal_strlit("--port");
    reveal_strlit(" ");
    let text = spaced(words);
    let part = text.subrange(i, i + 7);
    assert forall|j: int| 0 <= j < 7 implies text[i + j] == #[trigger] "--port "@[j] by {
        assert(part[j] == text[i + j]);
    }
    if words.len() == 0 {
        0
    } else {
        lemma_spaced_first(words);
        let word = words[0];
        let rest = words.skip(1);
        let tail = spaced(rest);
        let n = word.len() as int;
        assert(text.len() == 1 + n + tail.len());
        assert(text[0] == ' ');
        assert("--port "@[0] == '-');
        assert(i > 0);
        if i >= 1 + n {
            assert(tail.subrange(i - 1 - n, i - 1 - n + 7) =~= part);
            let k = lemma_flag_in_words(rest, i - 1 - n);
            assert(words[k + 1] == rest[k]);
            if !contains(rest[k], "--port "@) {
                assert(words[k + 2] == rest[k + 1]);
                assert(text.skip(i + 7) =~= tail.skip(i - 1 - n + 7));
                assert(rest.skip(k + 2) =~= words.skip(k + 3));
            }
            k + 1
        } else if i + 7 <= 1 + n {
            assert(word.subrange(i - 1, i - 1 + 7) =~= part);
            0
        } else {
            assert(tail.len() > 0);
            assert(rest.len() > 0);
            lemma_spaced_first(rest);
            assert(text[1 + n] == tail[0] == ' ');
            let at = 1 + n - i;
            assert(text[i + at] == "--port "@[at]);
            assert(at == 6);
            assert(word.skip(n - 6) =~= "--port"@) by {
                assert forall|j: int| 0 <= j < 6 implies word.skip(n - 6)[j] == "--port"@[j] by {
                    assert(text[i + j] == word[i + j - 1]);
                    assert("--port "@[j] == "--port"@[j]);
                }
            }
            assert(text.skip(i + 7) =~= tail.skip(1));
            assert(tail.skip(1) =~= rest[0] + spaced(rest.skip(1)));
            assert(rest.skip(1) =~= words.skip(2));
            0
        }
    }
}

/// A word without a space that does not end as the flag does names no port.
proof fn lemma_names_no_port(word: Seq<char>)
    requires
        is_plain(word),
        word.len() < 6 || word.last() != 't',
    ensures
        !names_port(word),
{
    reveal_strlit("--port ");
    reveal_strlit("--port");
    lemma_no_part_without_char(word, "--port "@, 6);
    if word.len() >= 6 && word.skip(word.len() - 6) == "--port"@ {
        assert(word.skip(word.len() - 6)[5] == word.last());
    }
}

/// A numeral names no port.
proof fn lemma_numeral_names_no_port(n: nat)
    ensures
        !names_port(decimal(n)),
{
    lemma_decimal_is_plain(n);
    lemma_decimal(n);
    assert(is_digit(decimal(n)[decimal(n).len() - 1]));
    lemma_names_no_port(decimal(n));
}

/// No setting or extra argument names a port.
pub open spec fn names_no_port(settings: SettingsModel) -> bool {
    &&& settings.moe_backend matches Some(backend) ==> !names_port(backend)
    &&& settings.gpu matches Some(gpu) ==> !names_port(gpu)
    &&& forall|i: int|
        0 <= i < settings.extra_args.len() ==> !names_port(#[trigger] settings.extra_args[i])
}

/// The words of an `ft serve` command after the number of its port.
spec fn words_after_port(settings: SettingsModel) -> Seq<Seq<char>> {
    option_words("--moe-backend"@, settings.moe_backend) + option_words(
        "--memory-ratio"@,
        settings.usable_ratio(),
    ) + option_words("--max-output-tokens"@, settings.usable_tokens()) + option_words(
        "--gpu"@,
        settings.gpu,
    ) + settings.extra_args
}

/// An option names no port where its value names none.
proof fn lemma_option_names_no_port(name: Seq<char>, value: Option<Seq<char>>)
    requires
        !names_port(name),
        value matches Some(value) ==> !names_port(value),
    ensures
        forall|i: int|
            0 <= i < option_words(name, value).len() ==> !names_port(
                #[trigger] option_words(name, value)[i],
            ),
{
}

/// None of the words after the number of the port names another.
proof fn lemma_words_after_port(settings: SettingsModel)
    requires
        names_no_port(settings),
        settings.memory_ratio matches Some(ratio) ==> (ratio.usable() ==> ratio.is_decimal()),
    ensures
        forall|i: int|
            0 <= i < words_after_port(settings).len() ==> !names_port(
                #[trigger] words_after_port(settings)[i],
            ),
{
    reveal_strlit("--moe-backend");
    reveal_strlit("--memory-ratio");
    reveal_strlit("--max-output-tokens");
    reveal_strlit("--gpu");
    lemma_names_no_port("--moe-backend"@);
    lemma_names_no_port("--memory-ratio"@);
    lemma_names_no_port("--max-output-tokens"@);
    lemma_names_no_port("--gpu"@);
    if let Some(ratio) = settings.usable_ratio() {
        assert(is_digit(ratio[ratio.len() - 1]) || ratio[ratio.len() - 1] == '.');
        lemma_names_no_port(ratio);
    }
    if let Some(max) = settings.max_output_tokens {
        lemma_numeral_names_no_port(max);
    }
    let a = option_words("--moe-backend"@, settings.moe_backend);
    let b = option_words("--memory-ratio"@, settings.usable_ratio());
    let c = option_words("--max-output-tokens"@, settings.usable_tokens());
    let d = option_words("--gpu"@, settings.gpu);
    let e = settings.extra_args;
    lemma_option_names_no_port("--moe-backend"@, settings.moe_backend);
    lemma_option_names_no_port("--memory-ratio"@, settings.usable_ratio());
    lemma_option_names_no_port("--max-output-tokens"@, settings.usable_tokens());
    lemma_option_names_no_port("--gpu"@, settings.gpu);
    let all = words_after_port(settings);
    assert forall|i: int| 0 <= i < all.len() implies !names_port(#[trigger] all[i]) by {
        let ab = a.len() + b.len();
        if i < a.len() {
            assert(all[i] == a[i]);
        } else if i < ab {
            assert(all[i] == b[i - a.len()]);
        } else if i < ab + c.len() {
            assert(all[i] == c[i - ab]);
        } else if i < ab + c.len() + d.len() {
            assert(all[i] == d[i - ab - c.len()]);
        } else {
            assert(all[i] == e[i - ab - c.len() - d.len()]);
        }
    }
}

/// Two numerals that both end where a text does, or at a space, are of the same number.
proof fn lemma_same_number(text: Seq<char>, rest: Seq<char>, a: nat, b: nat)
    requires
        text == decimal(b) + rest,
        rest.len() == 0 || rest[0] == ' ',
        decimal(a).len() <= text.len(),
        text.take(decimal(a).len() as int) == decimal(a),
        text.len() == decimal(a).len() || text[decimal(a).len() as int] == ' ',
    ensures
        a == b,
{
    let x = decimal(a);
    let y = decimal(b);
    lemma_decimal(a);
    lemma_decimal(b);
    if x.len() < y.len() {
        assert(text[x.len() as int] == y[x.len() as int]);
        assert(is_digit(y[x.len() as int]));
    } else if x.len() > y.len() {
        assert(text.take(x.len() as int)[y.len() as int] == x[y.len() as int]);
        assert(is_digit(x[y.len() as int]));
        assert(text[y.len() as int] == rest[0]);
    }
    assert(text.take(x.len() as int) =~= y);
    law_numeral_is_read_back(a, if a > b { a } else { b });
    law_numeral_is_read_back(b, if a > b { a } else { b });
}

/// What stops the servers on a port spares the server on another one, unless the model, a setting
/// or an extra argument of that server itself reads as the flag of a port.
pub proof fn law_stopping_spares_other_ports(
    settings: SettingsModel,
    runtime: Runtime,
    port: nat,
    other: nat,
    model: Seq<char>,
)
    requires
        port != other,
        !contains(engine_model(model, runtime), "--port "@),
        names_no_port(settings),
        settings.memory_ratio matches Some(ratio) ==> (ratio.usable() ==> ratio.is_decimal()),
    ensures
        !matches_server_pattern(spaced(serve_words(settings, runtime, other, model)), port),
{
    let words = serve_words(settings, runtime, other, model);
    let text = spaced(words);
    if matches_server_pattern(text, port) {
        reveal_strlit("ft");
        reveal_strlit("serve");
        reveal_strlit("--model");
        reveal_strlit("--host");
        reveal_strlit("127.0.0.1");
        reveal_strlit("--port");
        reveal_strlit("--port ");
        reveal_strlit(" ");
        lemma_names_no_port(CLI@);
        lemma_names_no_port("serve"@);
        lemma_names_no_port("--model"@);
        lemma_names_no_port("127.0.0.1"@);
        lemma_no_part_without_char("--host"@, "--port "@, 6);
        lemma_no_part_without_char("--port"@, "--port "@, 6);
        assert("--host"@.skip(0)[2] == 'h');
        lemma_numeral_names_no_port(other);
        lemma_words_after_port(settings);
        lemma_decimal(port);
        let start = seq![
            CLI@,
            "serve"@,
            "--model"@,
            engine_model(model, runtime),
            "--host"@,
            "127.0.0.1"@,
            "--port"@,
            decimal(other),
        ];
        let after = words_after_port(settings);
        assert(words =~= start + after);
        let i = lemma_match_names_port(text, port);
        let k = lemma_flag_in_words(words, i);
        assert(k >= 8 ==> words[k] == after[k - 8]);
        let follows = text.skip(i + 7);
        let len = decimal(port).len() as int;
        assert(follows.take(len) =~= text.subrange(i + 7, i + 7 + len));
        if k == 3 {
            assert(follows[0] == "--host"@[0]);
            assert(follows.take(len)[0] == decimal(port)[0]);
            assert(is_digit(decimal(port)[0]));
        } else {
            assert(k == 6);
            let rest = spaced(words.skip(8));
            if words.skip(8).len() > 0 {
                lemma_spaced_begins(words.skip(8));
            }
            assert(follows == decimal(other) + rest);
            assert(follows.len() > len ==> follows[len] == text[i + 7 + len]);
            lemma_same_number(follows, rest, port, other);
        }
    }
}

/// A text without apostrophes is quoted as it is.
proof fn lemma_replace_nothing(text: Seq<char>, with: Seq<char>)
    requires
        forall|i: int| 0 <= i < text.len() ==> text[i] != '\'',
    ensures
        replace(text, '\'', with) == text,
    decreases text.len(),
{
    if text.len() > 0 {
        lemma_replace_nothing(text.drop_last(), with);
        assert(text.drop_last() + seq![text.last()] =~= text);
    }
}

/// What stands in a stopping line before the first number, between the two and after the last.
spec fn kill_parts() -> (Seq<char>, Seq<char>, Seq<char>) {
    (
        "pkill -f 'ft serve .*--port "@,
        "( |$)' 2>/dev/null; pkill -f 'ft serve .*--port "@,
        "( |$)' 2>/dev/null; exit 0"@,
    )
}

/// The stopping line, by its parts.
proof fn lemma_kill_line(port: nat)
    ensures
        kill_line(port) == kill_parts().0 + decimal(port) + kill_parts().1 + decimal(port)
            + kill_parts().2,
{
    reveal_strlit("ft");
    reveal_strlit(" serve .*--port ");
    reveal_strlit("( |$)");
    reveal_strlit("'");
    reveal_strlit("pkill -f ");
    reveal_strlit(" 2>/dev/null; pkill -f ");
    reveal_strlit(" 2>/dev/null; exit 0");
    reveal_strlit("pkill -f 'ft serve .*--port ");
    reveal_strlit("( |$)' 2>/dev/null; pkill -f 'ft serve .*--port ");
    reveal_strlit("( |$)' 2>/dev/null; exit 0");
    let digits = decimal(port);
    let pattern = server_pattern(port);
    lemma_decimal(port);
    let head = CLI@ + " serve .*--port "@;
    assert forall|i: int| 0 <= i < pattern.len() implies pattern[i] != '\'' by {
        if i < head.len() {
            assert(pattern[i] == head[i]);
        } else if i < head.len() + digits.len() {
            assert(is_digit(digits[i - head.len()]));
            assert(pattern[i] == digits[i - head.len()]);
        } else {
            assert(pattern[i] == "( |$)"@[i - head.len() - digits.len()]);
        }
    }
    lemma_replace_nothing(pattern, "'\\''"@);
    let (first, middle, last) = kill_parts();
    assert("pkill -f "@ + "'"@ + head =~= first);
    assert("( |$)"@ + "'"@ + " 2>/dev/null; pkill -f "@ + "'"@ + head =~= middle);
    assert("( |$)"@ + "'"@ + " 2>/dev/null; exit 0"@ =~= last);
    assert(kill_line(port) =~= ("pkill -f "@ + "'"@ + head) + digits + ("( |$)"@ + "'"@
        + " 2>/dev/null; pkill -f "@ + "'"@ + head) + digits + ("( |$)"@ + "'"@
        + " 2>/dev/null; exit 0"@));
}

/// Where two dashes follow each other in the parts of a stopping line that end in the flag.
proof fn lemma_dashes(part: Seq<char>, i: int)
    requires
        part == kill_parts().0 || part == kill_parts().1,
        0 <= i < part.len() - 1,
        part[i] == '-',
        part[i + 1] == '-',
    ensures
        i == part.len() - 7,
{
    reveal_strlit("pkill -f 'ft serve .*--port ");
    reveal_strlit("( |$)' 2>/dev/null; pkill -f 'ft serve .*--port ");
}

/// No two dashes follow each other in the last part of a stopping line, or before it.
proof fn lemma_no_dashes(part: Seq<char>, i: int)
    requires
        part == kill_parts().2 || part == "/bin/sh -lc "@ || part == "bash -lc "@,
        0 <= i < part.len() - 1,
    ensures
        part[i] != '-' || part[i + 1] != '-',
{
    reveal_strlit("/bin/sh -lc ");
    reveal_strlit("bash -lc ");
    reveal_strlit("( |$)' 2>/dev/null; exit 0");
}

/// How the parts of a stopping line begin and end.
proof fn lemma_kill_part_ends(shell: Seq<char>)
    requires
        shell == "/bin/sh -lc "@ || shell == "bash -lc "@,
    ensures
        shell.len() > 0 && shell.last() == ' ',
        kill_parts().0.len() > 7 && kill_parts().0.last() == ' ',
        kill_parts().1.len() > 7 && kill_parts().1[0] == '(' && kill_parts().1.last() == ' ',
        kill_parts().2.len() > 0 && kill_parts().2[0] == '(',
{
    reveal_strlit("/bin/sh -lc ");
    reveal_strlit("bash -lc ");
    reveal_strlit("pkill -f 'ft serve .*--port ");
    reveal_strlit("( |$)' 2>/dev/null; pkill -f 'ft serve .*--port ");
    reveal_strlit("( |$)' 2>/dev/null; exit 0");
}

/// Two dashes in a stopping line stand in one of its parts.
proof fn lemma_dashes_in_part(shell: Seq<char>, digits: Seq<char>, i: int)
    requires
        shell == "/bin/sh -lc "@ || shell == "bash -lc "@,
        digits.len() > 0,
        forall|j: int| 0 <= j < digits.len() ==> is_digit(#[trigger] digits[j]),
        ({
            let text = shell + kill_parts().0 + digits + kill_parts().1 + digits + kill_parts().2;
            0 <= i < text.len() - 1 && text[i] == '-' && text[i + 1] == '-'
        }),
    ensures
        ({
            let text = shell + kill_parts().0 + digits + kill_parts().1 + digits + kill_parts().2;
            i + 7 + digits.len() < text.len() && text[i + 7 + digits.len()] == '('
        }),
{
    lemma_kill_part_ends(shell);
    let (first, middle, last) = kill_parts();
    let text = shell + first + digits + middle + digits + last;
    let n = digits.len() as int;
    let a = shell.len() as int;
    let b = a + first.len();
    let c = b + n;
    let d = c + middle.len();
    let e = d + n;
    if i < a {
        assert(text[i] == shell[i]);
        assert(i + 1 < a);
        assert(text[i + 1] == shell[i + 1]);
        lemma_no_dashes(shell, i);
    } else if i < b {
        assert(text[i] == first[i - a]);
        assert(i + 1 < b);
        assert(text[i + 1] == first[i + 1 - a]);
        lemma_dashes(first, i - a);
        assert(text[c] == middle[0]);
    } else if i < c {
        assert(text[i] == digits[i - b]);
        assert(is_digit(digits[i - b]));
    } else if i < d {
        assert(text[i] == middle[i - c]);
        assert(i + 1 < d);
        assert(text[i + 1] == middle[i + 1 - c]);
        lemma_dashes(middle, i - c);
        assert(text[e] == last[0]);
    } else if i < e {
        assert(text[i] == digits[i - d]);
        assert(is_digit(digits[i - d]));
    } else {
        assert(text[i] == last[i - e]);
        assert(text[i + 1] == last[i + 1 - e]);
        lemma_no_dashes(last, i - e);
    }
}

/// What stops the servers on a port does not stop the shell that runs it, under Linux or in a
/// distribution, so that the line is run to its end and succeeds.
pub proof fn law_stopping_spares_itself(shell: Seq<char>, port: nat)
    requires
        shell == "/bin/sh -lc "@ || shell == "bash -lc "@,
    ensures
        !matches_server_pattern(shell + kill_line(port), port),
{
    let text = shell + kill_line(port);
    if matches_server_pattern(text, port) {
        reveal_strlit("--port ");
        lemma_kill_line(port);
        lemma_decimal(port);
        let (first, middle, last) = kill_parts();
        let digits = decimal(port);
        lemma_joined(shell, first + digits + middle + digits, last);
        lemma_joined(shell, first + digits + middle, digits);
        lemma_joined(shell, first + digits, middle);
        lemma_joined(shell, first, digits);
        assert(text == shell + first + digits + middle + digits + last);
        let i = lemma_match_names_port(text, port);
        let part = text.subrange(i, i + 7);
        assert(part[0] == text[i]);
        assert(part[1] == text[i + 1]);
        lemma_dashes_in_part(shell, digits, i);
    }
}

/// The line reaches the shell whole, as the last argument of the command.
pub proof fn law_line_is_passed_whole(runtime: Runtime, line: Seq<char>)
    ensures
        wrapped(runtime, line).args.len() >= 2,
        wrapped(runtime, line).args.last() == line,
        wrapped(runtime, line).args[wrapped(runtime, line).args.len() - 2] == "-lc"@,
{
}

/// The words hold an option and its value, one after the other.
pub open spec fn has_pair(words: Seq<Seq<char>>, name: Seq<char>, value: Seq<char>) -> bool {
    exists|k: int| 0 <= k < words.len() - 1 && #[trigger] words[k] == name && words[k + 1] == value
}

/// The words of the joined parts of an `ft serve` command.
proof fn lemma_pairs(
    start: Seq<Seq<char>>,
    a: Seq<Seq<char>>,
    b: Seq<Seq<char>>,
    c: Seq<Seq<char>>,
    d: Seq<Seq<char>>,
    extra: Seq<Seq<char>>,
)
    ensures
        ({
            let words = start + a + b + c + d + extra;
            &&& words.take(start.len() as int) == start
            &&& words.skip(words.len() - extra.len()) == extra
            &&& a.len() == 2 ==> has_pair(words, a[0], a[1])
            &&& b.len() == 2 ==> has_pair(words, b[0], b[1])
            &&& c.len() == 2 ==> has_pair(words, c[0], c[1])
            &&& d.len() == 2 ==> has_pair(words, d[0], d[1])
        }),
{
    let words = start + a + b + c + d + extra;
    assert(words.take(start.len() as int) =~= start);
    assert(words.skip(words.len() - extra.len()) =~= extra);
    let i = start.len() as int;
    let j = i + a.len();
    let k = j + b.len();
    let l = k + c.len();
    if a.len() == 2 {
        assert(words[i] == a[0] && words[i + 1] == a[1]);
    }
    if b.len() == 2 {
        assert(words[j] == b[0] && words[j + 1] == b[1]);
    }
    if c.len() == 2 {
        assert(words[k] == c[0] && words[k + 1] == c[1]);
    }
    if d.len() == 2 {
        assert(words[l] == d[0] && words[l + 1] == d[1]);
    }
}

/// The `ft serve` command starts the server on the model and the port, on this machine alone. It
/// holds an option for each setting that is set and within its bounds, each with its value, then
/// the extra arguments, and nothing else.
pub proof fn law_each_setting_is_passed_on(
    settings: SettingsModel,
    runtime: Runtime,
    port: nat,
    model: Seq<char>,
)
    requires
        settings.memory_ratio matches Some(ratio) ==> (ratio.usable() ==> ratio.is_decimal()),
    ensures
        ({
            let read = command_words(serve_command(settings, runtime, port, model));
            let words = read->0;
            let extra = settings.extra_args;
            let with_ratio = settings.memory_ratio is Some && 0x3dcc_cccd
                <= settings.memory_ratio->0.bits <= 0x3f73_3333;
            let with_tokens = settings.max_output_tokens is Some && settings.max_output_tokens->0
                > 0;
            &&& read is Some
            &&& words.take(8) == seq![
                "ft"@,
                "serve"@,
                "--model"@,
                engine_model(model, runtime),
                "--host"@,
                "127.0.0.1"@,
                "--port"@,
                decimal(port),
            ]
            &&& settings.moe_backend matches Some(backend) ==> has_pair(
                words,
                "--moe-backend"@,
                backend,
            )
            &&& with_ratio ==> has_pair(
                words,
                "--memory-ratio"@,
                settings.memory_ratio->0.text@,
            )
            &&& with_tokens ==> has_pair(
                words,
                "--max-output-tokens"@,
                decimal(settings.max_output_tokens->0),
            )
            &&& settings.gpu matches Some(gpu) ==> has_pair(words, "--gpu"@, gpu)
            &&& words.skip(words.len() - extra.len()) == extra
            &&& words.len() == 8 + extra.len() + 2 * ((if settings.moe_backend is Some {
                1int
            } else {
                0
            }) + (if with_ratio {
                1int
            } else {
                0
            }) + (if with_tokens {
                1int
            } else {
                0
            }) + (if settings.gpu is Some {
                1int
            } else {
                0
            }))
        }),
{
    law_serve_command_is_read_as_meant(settings, runtime, port, model);
    lemma_pairs(
        seq![
            CLI@,
            "serve"@,
            "--model"@,
            engine_model(model, runtime),
            "--host"@,
            "127.0.0.1"@,
            "--port"@,
            decimal(port),
        ],
        option_words("--moe-backend"@, settings.moe_backend),
        option_words("--memory-ratio"@, settings.usable_ratio()),
        option_words("--max-output-tokens"@, settings.usable_tokens()),
        option_words("--gpu"@, settings.gpu),
        settings.extra_args,
    );
}

/// What starts the server is read, after the activation, as `exec` and then as the `ft serve`
/// command is read.
pub proof fn law_start_runs_the_serve_command(
    settings: SettingsModel,
    host: Host,
    runtime: Runtime,
    port: nat,
    model: Seq<char>,
)
    requires
        settings.memory_ratio matches Some(ratio) ==> (ratio.usable() ==> ratio.is_decimal()),
    ensures
        ({
            let line = start_line(settings, host, runtime, port, model);
            let prefix = activation(host, runtime);
            let serve = command_words(serve_command(settings, runtime, port, model));
            &&& starts_with(line, prefix)
            &&& serve is Some
            &&& command_words(line.skip(prefix.len() as int)) == Some(seq!["exec"@] + serve->0)
        }),
{
    law_shell_becomes_the_server(settings, host, runtime, port, model);
    law_serve_command_is_read_as_meant(settings, runtime, port, model);
}

/// Under Linux a login shell of the machine runs the line. Under Windows a login shell of the
/// distribution does, of the one that is named or, where none is, of the default one.
pub proof fn law_line_reaches_its_shell(line: Seq<char>, distro: String)
    ensures
        ({
            let native = wrapped(Runtime::Native, line);
            let named = wrapped(Runtime::Wsl { distro: Some(distro) }, line);
            let unnamed = wrapped(Runtime::Wsl { distro: None }, line);
            &&& native.program == "/bin/sh"@ && named.program == "wsl.exe"@ && unnamed.program
                == "wsl.exe"@
            &&& native.args.len() == 2 && native.args[0] == "-lc"@ && native.args[1] == line
            &&& unnamed.args.len() == 4 && unnamed.args[0] == "--"@ && unnamed.args[1] == "bash"@
                && unnamed.args[2] == "-lc"@ && unnamed.args[3] == line
            &&& trim(distro@).len() == 0 ==> named.args == unnamed.args
            &&& trim(distro@).len() > 0 ==> named.args.len() == 6 && named.args[0] == "-d"@
                && named.args[1] == distro@ && named.args.skip(2) == unnamed.args
        }),
{
    let named = wrapped(Runtime::Wsl { distro: Some(distro) }, line);
    let unnamed = wrapped(Runtime::Wsl { distro: None }, line);
    if trim(distro@).len() > 0 {
        assert(named.args.skip(2) =~= unnamed.args);
    }
}

/// A command is displayed as its program and then, each after a space, its arguments, an argument
/// that holds a space between quotation marks.
pub proof fn law_arguments_are_displayed(program: Seq<char>, args: Seq<Seq<char>>, arg: Seq<char>)
    ensures
        (CommandLine { program, args: seq![] }).displayed() == program,
        ({
            let before = (CommandLine { program, args }).displayed();
            let after = (CommandLine { program, args: args.push(arg) }).displayed();
            &&& !arg.contains(' ') ==> after == before + " "@ + arg
            &&& arg.contains(' ') ==> after == before + " "@ + ("\""@ + arg + "\""@)
        }),
{
    reveal_strlit(" ");
    let more = args.push(arg);
    assert(more.drop_last() =~= args);
    assert(more.last() == arg);
    if arg.contains(' ') {
        let i = choose|i: int| 0 <= i < arg.len() && arg[i] == ' ';
        assert(arg.subrange(i, i + 1) =~= " "@);
    } else {
        assert forall|i: int| 0 <= i < arg.len() implies arg[i] != " "@[0] by {
            assert(arg[i] == ' ' ==> arg.contains(' '));
        }
        lemma_no_part_without_char(arg, " "@, 0);
    }
}

/// A quoted value and a plain text right after it, after a space, are one more word.
proof fn lemma_quoted_path_added(
    line: Seq<char>,
    words: Seq<Seq<char>>,
    value: Seq<char>,
    suffix: Seq<char>,
)
    requires
        command_words(line) == Some(words),
        is_plain(suffix),
        suffix.len() > 0,
    ensures
        command_words(line + " "@ + (quoted(value) + suffix)) == Some(words.push(value + suffix)),
{
    lemma_quoted_word_added(line, words, value);
    let quoted_line = line + " "@ + quoted(value);
    lemma_joined(line + " "@, quoted(value), suffix);
    lemma_read_joined(Reading::start(), quoted_line, suffix);
    let reading = Reading::start().read(quoted_line);
    lemma_space_then_quoted(line, words, value);
    lemma_read_plain(reading, suffix);
}

/// How far the shell has come after a quoted value that follows a space.
proof fn lemma_space_then_quoted(line: Seq<char>, words: Seq<Seq<char>>, value: Seq<char>)
    requires
        command_words(line) == Some(words),
    ensures
        Reading::start().read(line + " "@ + quoted(value)) == (Reading {
            words,
            word: Some(value),
            mode: Mode::Bare,
            plain: true,
        }),
{
    reveal_strlit(" ");
    assert((line + " "@).drop_last() =~= line);
    assert((line + " "@).last() == ' ');
    let spaced_line = Reading::start().read(line + " "@);
    lemma_read_joined(Reading::start(), line + " "@, quoted(value));
    lemma_read_quoted(spaced_line, value);
    assert(begun(spaced_line.word) + value =~= value);
}

/// A quoted value and a plain text right after it begin a line as one word.
proof fn lemma_quoted_path_begins(value: Seq<char>, suffix: Seq<char>)
    requires
        is_plain(suffix),
        suffix.len() > 0,
    ensures
        command_words(quoted(value) + suffix) == Some(seq![value + suffix]),
{
    let start = Reading::start();
    lemma_read_joined(start, quoted(value), suffix);
    lemma_read_quoted(start, value);
    assert(begun(start.word) + value =~= value);
    lemma_read_plain(start.with(value), suffix);
    assert(start.words.push(value + suffix) =~= seq![value + suffix]);
}

/// The line holds a command that the shell reads as these words, between a space and `end`.
pub open spec fn holds_command(line: Seq<char>, words: Seq<Seq<char>>, end: Seq<char>) -> bool {
    exists|command: Seq<char>|
        #![trigger command_words(command)]
        command_words(command) == Some(words) && contains(line, " "@ + command + end)
}

/// What holds a part still holds it with more text after it.
proof fn lemma_part_extends(line: Seq<char>, more: Seq<char>, part: Seq<char>)
    requires
        contains(line, part),
    ensures
        contains(line + more, part),
{
    let i = choose|i: int|
        0 <= i <= line.len() - part.len() && #[trigger] line.subrange(i, i + part.len()) == part;
    assert((line + more).subrange(i, i + part.len()) =~= part);
}

/// What activates the managed environment reads the file of that environment that does so, the
/// one in the folder as it is named where the engine runs, and nothing else: under Linux where the
/// environment is there, under WSL where the line itself finds that file.
pub proof fn law_managed_environment_is_activated(host: Host, distro: Option<String>)
    ensures
        ({
            let venv = engine_venv(host, Runtime::Native);
            let native = activation(host, Runtime::Native);
            let reached = engine_venv(host, Runtime::Wsl { distro });
            let in_wsl = activation(host, Runtime::Wsl { distro });
            let file = quoted(reached) + "/bin/activate"@;
            &&& venv == host.venv()
            &&& reached == wsl_path(host.venv())
            &&& !host.cli_present ==> native.len() == 0
            &&& host.cli_present ==> native == ". "@ + (quoted(venv) + "/bin/activate"@)
                + " 2>/dev/null || true; "@
            &&& command_words(". "@ + (quoted(venv) + "/bin/activate"@)) == Some(
                seq!["."@, venv + "/bin/activate"@],
            )
            &&& in_wsl == "if [ -f "@ + file + " ]; then . "@ + file + "; fi; "@
            &&& command_words(". "@ + file) == Some(seq!["."@, reached + "/bin/activate"@])
        }),
{
    let venv = engine_venv(host, Runtime::Native);
    let reached = engine_venv(host, Runtime::Wsl { distro });
    let tail = "/bin/activate"@;
    assert("/bin/activate 2>/dev/null || true; "@ == tail + " 2>/dev/null || true; "@) by {
        reveal_strlit("/bin/activate 2>/dev/null || true; ");
        reveal_strlit("/bin/activate");
        reveal_strlit(" 2>/dev/null || true; ");
    }
    assert("/bin/activate ]; then . "@ == tail + " ]; then . "@) by {
        reveal_strlit("/bin/activate ]; then . ");
        reveal_strlit("/bin/activate");
        reveal_strlit(" ]; then . ");
    }
    assert("/bin/activate; fi; "@ == tail + "; fi; "@) by {
        reveal_strlit("/bin/activate; fi; ");
        reveal_strlit("/bin/activate");
        reveal_strlit("; fi; ");
    }
    assert(". "@ + quoted(venv) + (tail + " 2>/dev/null || true; "@) =~= ". "@ + (quoted(venv)
        + tail) + " 2>/dev/null || true; "@);
    lemma_activation_regrouped(
        "if [ -f "@,
        quoted(reached),
        tail,
        " ]; then . "@,
        "; fi; "@,
    );
    lemma_dot_is_read(venv);
    lemma_dot_is_read(reached);
}

/// The parts of an activation, grouped otherwise.
proof fn lemma_activation_regrouped(
    a: Seq<char>,
    path: Seq<char>,
    tail: Seq<char>,
    b: Seq<char>,
    c: Seq<char>,
)
    ensures
        a + path + (tail + b) + path + (tail + c) == a + (path + tail) + b + (path + tail) + c,
{
    assert(a + path + (tail + b) + path + (tail + c) =~= a + (path + tail) + b + (path + tail) + c);
}

/// The command that reads an activation file, as the shell reads it.
proof fn lemma_dot_is_read(venv: Seq<char>)
    ensures
        command_words(". "@ + (quoted(venv) + "/bin/activate"@)) == Some(
            seq!["."@, venv + "/bin/activate"@],
        ),
{
    reveal_strlit("/bin/activate");
    reveal_strlit(".");
    reveal_strlit(". ");
    reveal_strlit(" ");
    lemma_read_plain(Reading::start(), "."@);
    assert(seq![] + "."@ =~= "."@);
    assert(Reading::start().words.push("."@) =~= seq!["."@]);
    lemma_quoted_path_added("."@, seq!["."@], venv, "/bin/activate"@);
    assert("."@ + " "@ =~= ". "@);
    assert(seq!["."@].push(venv + "/bin/activate"@) =~= seq!["."@, venv + "/bin/activate"@]);
}

/// What stops the servers on a port has `pkill` look for the pattern of that port.
pub proof fn law_stopping_looks_for_the_port(port: nat)
    ensures
        ({
            let pattern = "ft serve .*--port "@ + decimal(port) + "( |$)"@;
            let command = "pkill -f "@ + quoted(pattern);
            &&& command_words(command) == Some(seq!["pkill"@, "-f"@, pattern])
            &&& starts_with(kill_line(port), command)
        }),
{
    let pattern = "ft serve .*--port "@ + decimal(port) + "( |$)"@;
    assert(CLI@ + " serve .*--port "@ == "ft serve .*--port "@) by {
        reveal_strlit("ft");
        reveal_strlit(" serve .*--port ");
        reveal_strlit("ft serve .*--port ");
    }
    reveal_strlit("pkill");
    reveal_strlit("-f");
    reveal_strlit(" ");
    reveal_strlit("pkill -f ");
    lemma_read_plain(Reading::start(), "pkill"@);
    assert(seq![] + "pkill"@ =~= "pkill"@);
    assert(Reading::start().words.push("pkill"@) =~= seq!["pkill"@]);
    lemma_plain_word_added("pkill"@, seq!["pkill"@], "-f"@);
    let line = "pkill"@ + " "@ + "-f"@;
    let words = seq!["pkill"@].push("-f"@);
    lemma_quoted_word_added(line, words, pattern);
    assert(line + " "@ =~= "pkill -f "@);
    assert(words.push(pattern) =~= seq!["pkill"@, "-f"@, pattern]);
    let command = "pkill -f "@ + quoted(pattern);
    assert(kill_line(port).take(command.len() as int) =~= command);
}

/// The first word of a command, and a plain one after it.
proof fn lemma_two_words(first: Seq<char>, second: Seq<char>)
    requires
        is_plain(first) && first.len() > 0,
        is_plain(second) && second.len() > 0,
    ensures
        command_words(first) == Some(seq![first]),
        command_words(first + " "@ + second) == Some(seq![first, second]),
{
    lemma_read_plain(Reading::start(), first);
    assert(seq![] + first =~= first);
    assert(Reading::start().words.push(first) =~= seq![first]);
    lemma_plain_word_added(first, seq![first], second);
    assert(seq![first].push(second) =~= seq![first, second]);
}

/// The commands of an installation, as they are written.
spec fn uv_venv(venv: Seq<char>) -> Seq<char> {
    "uv venv "@ + quoted(venv)
}

spec fn uv_install(venv: Seq<char>, target: Seq<char>) -> Seq<char> {
    "uv pip install --python "@ + (quoted(venv) + "/bin/python"@) + " "@ + quoted(target)
}

spec fn python_venv(venv: Seq<char>) -> Seq<char> {
    "python3 -m venv "@ + quoted(venv)
}

spec fn pip_install(venv: Seq<char>, target: Seq<char>) -> Seq<char> {
    quoted(venv) + "/bin/python"@ + " -m pip install "@ + quoted(target)
}

spec fn show_version(venv: Seq<char>) -> Seq<char> {
    quoted(venv) + "/bin/ft"@ + " --version"@
}

/// How the shell reads the commands that create the environment.
proof fn lemma_venv_commands(venv: Seq<char>)
    ensures
        command_words(uv_venv(venv)) == Some(seq!["uv"@, "venv"@, venv]),
        command_words(python_venv(venv)) == Some(seq!["python3"@, "-m"@, "venv"@, venv]),
        command_words(show_version(venv)) == Some(seq![venv + "/bin/ft"@, "--version"@]),
{
    reveal_strlit("uv");
    reveal_strlit("venv");
    reveal_strlit(" ");
    reveal_strlit("uv venv ");
    reveal_strlit("python3");
    reveal_strlit("-m");
    reveal_strlit("python3 -m venv ");
    reveal_strlit("/bin/ft");
    reveal_strlit("--version");
    reveal_strlit(" --version");
    lemma_two_words("uv"@, "venv"@);
    lemma_quoted_word_added("uv"@ + " "@ + "venv"@, seq!["uv"@, "venv"@], venv);
    assert("uv"@ + " "@ + "venv"@ + " "@ =~= "uv venv "@);
    assert(seq!["uv"@, "venv"@].push(venv) =~= seq!["uv"@, "venv"@, venv]);
    lemma_two_words("python3"@, "-m"@);
    let line = "python3"@ + " "@ + "-m"@;
    lemma_plain_word_added(line, seq!["python3"@, "-m"@], "venv"@);
    let words = seq!["python3"@, "-m"@].push("venv"@);
    lemma_quoted_word_added(line + " "@ + "venv"@, words, venv);
    assert(line + " "@ + "venv"@ + " "@ =~= "python3 -m venv "@);
    assert(words.push(venv) =~= seq!["python3"@, "-m"@, "venv"@, venv]);
    lemma_quoted_path_begins(venv, "/bin/ft"@);
    let shown = quoted(venv) + "/bin/ft"@;
    lemma_plain_word_added(shown, seq![venv + "/bin/ft"@], "--version"@);
    assert(shown + " "@ + "--version"@ =~= shown + " --version"@);
    assert(seq![venv + "/bin/ft"@].push("--version"@) =~= seq![venv + "/bin/ft"@, "--version"@]);
}

/// How the shell reads the commands that install the package.
proof fn lemma_install_commands(venv: Seq<char>, target: Seq<char>)
    ensures
        command_words(uv_install(venv, target)) == Some(
            seq!["uv"@, "pip"@, "install"@, "--python"@, venv + "/bin/python"@, target],
        ),
        command_words(pip_install(venv, target)) == Some(
            seq![venv + "/bin/python"@, "-m"@, "pip"@, "install"@, target],
        ),
{
    reveal_strlit("uv");
    reveal_strlit("pip");
    reveal_strlit("install");
    reveal_strlit("--python");
    reveal_strlit("-m");
    reveal_strlit(" ");
    reveal_strlit("/bin/python");
    reveal_strlit("uv pip install --python ");
    reveal_strlit(" -m pip install ");
    lemma_two_words("uv"@, "pip"@);
    let u1 = "uv"@ + " "@ + "pip"@;
    let w1 = seq!["uv"@, "pip"@];
    lemma_plain_word_added(u1, w1, "install"@);
    let u2 = u1 + " "@ + "install"@;
    let w2 = w1.push("install"@);
    lemma_plain_word_added(u2, w2, "--python"@);
    let u3 = u2 + " "@ + "--python"@;
    let w3 = w2.push("--python"@);
    lemma_quoted_path_added(u3, w3, venv, "/bin/python"@);
    assert(u3 + " "@ =~= "uv pip install --python "@);
    let u4 = "uv pip install --python "@ + (quoted(venv) + "/bin/python"@);
    let w4 = w3.push(venv + "/bin/python"@);
    lemma_quoted_word_added(u4, w4, target);
    assert(w4.push(target) =~= seq![
        "uv"@,
        "pip"@,
        "install"@,
        "--python"@,
        venv + "/bin/python"@,
        target,
    ]);
    lemma_quoted_path_begins(venv, "/bin/python"@);
    let p0 = quoted(venv) + "/bin/python"@;
    let v0 = seq![venv + "/bin/python"@];
    lemma_plain_word_added(p0, v0, "-m"@);
    let p1 = p0 + " "@ + "-m"@;
    let v1 = v0.push("-m"@);
    lemma_plain_word_added(p1, v1, "pip"@);
    let p2 = p1 + " "@ + "pip"@;
    let v2 = v1.push("pip"@);
    lemma_plain_word_added(p2, v2, "install"@);
    let p3 = p2 + " "@ + "install"@;
    let v3 = v2.push("install"@);
    lemma_quoted_word_added(p3, v3, target);
    assert(p3 + " "@ =~= p0 + " -m pip install "@);
    assert(v3.push(target) =~= seq![venv + "/bin/python"@, "-m"@, "pip"@, "install"@, target]);
}

/// Literal parts of the installation line, split where its commands begin and end.
proof fn lemma_install_literals()
    ensures
        "set -e; if command -v uv >/dev/null 2>&1; then uv venv "@
            == "set -e; if command -v uv >/dev/null 2>&1; then"@ + " "@ + "uv venv "@,
        " >/dev/null; VIRTUAL_ENV="@ == " >/dev/null"@ + "; VIRTUAL_ENV="@,
        " uv pip install --python "@ == " "@ + "uv pip install --python "@,
        "/bin/python "@ == "/bin/python"@ + " "@,
        "; else python3 -m venv "@ == ";"@ + " else"@ + " "@ + "python3 -m venv "@,
        "; "@ == ";"@ + " "@,
        "/bin/python -m pip install --upgrade pip >/dev/null; "@
            == "/bin/python -m pip install --upgrade pip >/dev/null;"@ + " "@,
        "/bin/python -m pip install "@ == "/bin/python"@ + " -m pip install "@,
        "; fi; "@ == ";"@ + " fi;"@ + " "@,
        "/bin/"@ + CLI@ == "/bin/ft"@,
{
    reveal_strlit("set -e; if command -v uv >/dev/null 2>&1; then uv venv ");
    reveal_strlit("set -e; if command -v uv >/dev/null 2>&1; then");
    reveal_strlit("uv venv ");
    reveal_strlit(" ");
    reveal_strlit(" >/dev/null; VIRTUAL_ENV=");
    reveal_strlit(" >/dev/null");
    reveal_strlit("; VIRTUAL_ENV=");
    reveal_strlit(" uv pip install --python ");
    reveal_strlit("uv pip install --python ");
    reveal_strlit("/bin/python ");
    reveal_strlit("/bin/python");
    reveal_strlit("; else python3 -m venv ");
    reveal_strlit(";");
    reveal_strlit(" else");
    reveal_strlit("python3 -m venv ");
    reveal_strlit("; ");
    reveal_strlit("/bin/python -m pip install --upgrade pip >/dev/null; ");
    reveal_strlit("/bin/python -m pip install --upgrade pip >/dev/null;");
    reveal_strlit("/bin/python -m pip install ");
    reveal_strlit(" -m pip install ");
    reveal_strlit("; fi; ");
    reveal_strlit(" fi;");
    reveal_strlit("/bin/");
    reveal_strlit("ft");
    reveal_strlit("/bin/ft");
    assert("set -e; if command -v uv >/dev/null 2>&1; then uv venv "@
        =~= "set -e; if command -v uv >/dev/null 2>&1; then"@ + " "@ + "uv venv "@);
    assert(" >/dev/null; VIRTUAL_ENV="@ =~= " >/dev/null"@ + "; VIRTUAL_ENV="@);
    assert(" uv pip install --python "@ =~= " "@ + "uv pip install --python "@);
    assert("/bin/python "@ =~= "/bin/python"@ + " "@);
    assert("; else python3 -m venv "@ =~= ";"@ + " else"@ + " "@ + "python3 -m venv "@);
    assert("; "@ =~= ";"@ + " "@);
    assert("/bin/python -m pip install --upgrade pip >/dev/null; "@
        =~= "/bin/python -m pip install --upgrade pip >/dev/null;"@ + " "@);
    assert("/bin/python -m pip install "@ =~= "/bin/python"@ + " -m pip install "@);
    assert("; fi; "@ =~= ";"@ + " fi;"@ + " "@);
    assert("/bin/"@ + CLI@ =~= "/bin/ft"@);
}

/// A part that ends one text and begins the next is held by both joined.
proof fn lemma_part_across(
    before: Seq<char>,
    part: Seq<char>,
    after: Seq<char>,
    line: Seq<char>,
)
    requires
        line == before + part + after,
    ensures
        contains(line, part),
{
    let i = before.len() as int;
    assert(line.subrange(i, i + part.len()) =~= part);
}

/// The first half of an installation line, with `uv`.
proof fn lemma_uv_half(venv: Seq<char>, target: Seq<char>)
    ensures
        ({
            let q = quoted(venv);
            let t = quoted(target);
            let half = "set -e; if command -v uv >/dev/null 2>&1; then uv venv "@ + q
                + " >/dev/null; VIRTUAL_ENV="@ + q + " uv pip install --python "@ + q
                + "/bin/python "@ + t + "; else python3 -m venv "@ + q + "; "@;
            &&& contains(half, " "@ + uv_venv(venv) + " >/dev/null"@)
            &&& contains(half, " "@ + uv_install(venv, target) + ";"@)
            &&& contains(half, " "@ + python_venv(venv) + ";"@)
        }),
{
    lemma_install_literals();
    let q = quoted(venv);
    let t = quoted(target);
    let s1 = "set -e; if command -v uv >/dev/null 2>&1; then"@;
    let l1 = s1 + " "@ + "uv venv "@ + q + (" >/dev/null"@ + "; VIRTUAL_ENV="@);
    assert(l1 =~= s1 + (" "@ + uv_venv(venv) + " >/dev/null"@) + "; VIRTUAL_ENV="@);
    lemma_part_across(s1, " "@ + uv_venv(venv) + " >/dev/null"@, "; VIRTUAL_ENV="@, l1);
    let l2 = l1 + q + (" "@ + "uv pip install --python "@) + q + ("/bin/python"@ + " "@) + t + (";"@
        + " else"@ + " "@ + "python3 -m venv "@);
    let rest = " else"@ + " "@ + "python3 -m venv "@;
    assert(l2 =~= (l1 + q) + (" "@ + uv_install(venv, target) + ";"@) + rest);
    lemma_part_across(l1 + q, " "@ + uv_install(venv, target) + ";"@, rest, l2);
    let l3 = l2 + q + (";"@ + " "@);
    let before = l1 + q + (" "@ + "uv pip install --python "@) + q + ("/bin/python"@ + " "@) + t + (
    ";"@ + " else"@);
    assert(l3 =~= before + (" "@ + python_venv(venv) + ";"@) + " "@);
    lemma_part_across(before, " "@ + python_venv(venv) + ";"@, " "@, l3);
    let part1 = " "@ + uv_venv(venv) + " >/dev/null"@;
    lemma_part_extends(l1, q, part1);
    lemma_part_extends(l1 + q, " "@ + "uv pip install --python "@, part1);
    lemma_part_extends(l1 + q + (" "@ + "uv pip install --python "@), q, part1);
    lemma_part_extends(
        l1 + q + (" "@ + "uv pip install --python "@) + q,
        "/bin/python"@ + " "@,
        part1,
    );
    lemma_part_extends(
        l1 + q + (" "@ + "uv pip install --python "@) + q + ("/bin/python"@ + " "@),
        t,
        part1,
    );
    lemma_part_extends(
        l1 + q + (" "@ + "uv pip install --python "@) + q + ("/bin/python"@ + " "@) + t,
        ";"@ + " else"@ + " "@ + "python3 -m venv "@,
        part1,
    );
    lemma_part_extends(l2, q, part1);
    lemma_part_extends(l2 + q, ";"@ + " "@, part1);
    let part2 = " "@ + uv_install(venv, target) + ";"@;
    lemma_part_extends(l2, q, part2);
    lemma_part_extends(l2 + q, ";"@ + " "@, part2);
}

/// The second half of an installation line, with `pip`, after any first half.
proof fn lemma_pip_half(half: Seq<char>, venv: Seq<char>, target: Seq<char>)
    ensures
        ({
            let q = quoted(venv);
            let t = quoted(target);
            let line = half + q + "/bin/python -m pip install --upgrade pip >/dev/null; "@ + q
                + "/bin/python -m pip install "@ + t + "; fi; "@ + q + "/bin/"@ + CLI@
                + " --version"@;
            &&& forall|part: Seq<char>| #[trigger] contains(half, part) ==> contains(line, part)
            &&& contains(line, " "@ + pip_install(venv, target) + ";"@)
            &&& contains(line, " "@ + show_version(venv))
            &&& line.skip(line.len() - show_version(venv).len()) == show_version(venv)
        }),
{
    lemma_install_literals();
    let q = quoted(venv);
    let t = quoted(target);
    let s1 = "/bin/python -m pip install --upgrade pip >/dev/null;"@;
    let line = half + q + "/bin/python -m pip install --upgrade pip >/dev/null; "@ + q
        + "/bin/python -m pip install "@ + t + "; fi; "@ + q + "/bin/"@ + CLI@ + " --version"@;
    let l1 = half + q + (s1 + " "@) + q + ("/bin/python"@ + " -m pip install "@) + t + (";"@
        + " fi;"@ + " "@);
    let l2 = l1 + q;
    lemma_joined(l2, "/bin/"@, CLI@);
    assert(line == l2 + "/bin/ft"@ + " --version"@);
    let tail = show_version(venv);
    assert(line =~= l1 + tail);
    let part = " "@ + pip_install(venv, target) + ";"@;
    assert(l1 =~= (half + q + s1) + part + (" fi;"@ + " "@));
    lemma_part_across(half + q + s1, part, " fi;"@ + " "@, l1);
    lemma_part_extends(l1, tail, part);
    let before = half + q + (s1 + " "@) + q + ("/bin/python"@ + " -m pip install "@) + t + (";"@
        + " fi;"@);
    assert(line =~= before + (" "@ + tail) + seq![]);
    lemma_part_across(before, " "@ + tail, seq![], line);
    assert(line.skip(line.len() - tail.len()) =~= tail);
    let more = line.skip(half.len() as int);
    assert(line =~= half + more);
    assert forall|part: Seq<char>| #[trigger] contains(half, part) implies contains(line, part) by {
        lemma_part_extends(half, more, part);
    }
}

/// The installation creates the environment and installs the package in it, in the version that
/// is asked for and in no other, with `uv` or without, and ends by showing the version that the
/// environment then holds. Whatever the folder and the version hold, each is one word.
pub proof fn law_installation_is_read_as_meant(venv: Seq<char>, version: Seq<char>)
    ensures
        ({
            let line = install_line(quoted(venv), version);
            let target = "freetoken[accel]=="@ + version;
            let python = venv + "/bin/python"@;
            &&& holds_command(line, seq!["uv"@, "venv"@, venv], " >/dev/null"@)
            &&& holds_command(
                line,
                seq!["uv"@, "pip"@, "install"@, "--python"@, python, target],
                ";"@,
            )
            &&& holds_command(line, seq!["python3"@, "-m"@, "venv"@, venv], ";"@)
            &&& holds_command(line, seq![python, "-m"@, "pip"@, "install"@, target], ";"@)
            &&& exists|last: Seq<char>|
                {
                    &&& #[trigger] command_words(last) == Some(
                        seq![venv + "/bin/ft"@, "--version"@],
                    )
                    &&& line.skip(line.len() - last.len()) == last
                }
        }),
{
    assert(PACKAGE@ + "[accel]=="@ == "freetoken[accel]=="@) by {
        reveal_strlit("freetoken");
        reveal_strlit("[accel]==");
        reveal_strlit("freetoken[accel]==");
    }
    let target = "freetoken[accel]=="@ + version;
    let q = quoted(venv);
    let t = quoted(target);
    let half = "set -e; if command -v uv >/dev/null 2>&1; then uv venv "@ + q
        + " >/dev/null; VIRTUAL_ENV="@ + q + " uv pip install --python "@ + q + "/bin/python "@ + t
        + "; else python3 -m venv "@ + q + "; "@;
    lemma_uv_half(venv, target);
    lemma_pip_half(half, venv, target);
    lemma_venv_commands(venv);
    lemma_install_commands(venv, target);
}

/// The probe looks for the engine in the environment, and asks that engine for its version.
pub proof fn law_probe_asks_the_environment(venv: Seq<char>)
    ensures
        contains(
            probe_line(venv),
            "[ -x "@ + venv + "/bin/ft ]; then echo \"ft_venv=$("@ + venv + "/bin/ft --version "@,
        ),
{
    assert("/bin/"@ + CLI@ == "/bin/ft"@) by {
        reveal_strlit("/bin/");
        reveal_strlit("ft");
        reveal_strlit("/bin/ft");
    }
    lemma_probe_part(venv);
}

/// The part of the probe line that looks for the engine in the environment.
proof fn lemma_probe_part(venv: Seq<char>)
    requires
        "/bin/"@ + CLI@ == "/bin/ft"@,
    ensures
        contains(
            probe_line(venv),
            "[ -x "@ + venv + "/bin/ft ]; then echo \"ft_venv=$("@ + venv + "/bin/ft --version "@,
        ),
{
    let s1 =
        "echo \"os=$(uname -s) $(uname -m)\"; echo \"python=$(command -v python3 || echo -)\"; echo \"uv=$(command -v uv || echo -)\"; echo \"nvcc=$(command -v nvcc || echo -)\"; echo \"venv="@;
    let s3 = " --version 2>&1 | head -n1)\"; else echo 'ft_venv=-'; fi; if command -v "@;
    let line = s1 + venv + "\"; if [ -x "@ + venv + "/bin/"@ + CLI@
        + " ]; then echo \"ft_venv=$("@ + venv + "/bin/"@ + CLI@ + s3;
    assert("\"; if [ -x "@ == "\"; if "@ + "[ -x "@) by {
        reveal_strlit("\"; if [ -x ");
        reveal_strlit("\"; if ");
        reveal_strlit("[ -x ");
    }
    assert("/bin/ft"@ + " ]; then echo \"ft_venv=$("@ == "/bin/ft ]; then echo \"ft_venv=$("@) by {
        reveal_strlit("/bin/ft");
        reveal_strlit(" ]; then echo \"ft_venv=$(");
        reveal_strlit("/bin/ft ]; then echo \"ft_venv=$(");
    }
    assert(s3 == " --version "@ + s3.skip(11) && "/bin/ft"@ + " --version "@
        == "/bin/ft --version "@) by {
        reveal_strlit("/bin/ft");
        reveal_strlit(" --version 2>&1 | head -n1)\"; else echo 'ft_venv=-'; fi; if command -v ");
        reveal_strlit(" --version ");
        reveal_strlit("/bin/ft --version ");
        assert(s3 =~= " --version "@ + s3.skip(11));
        assert("/bin/ft"@ + " --version "@ =~= "/bin/ft --version "@);
    }
    let part = "[ -x "@ + venv + "/bin/ft ]; then echo \"ft_venv=$("@ + venv
        + "/bin/ft --version "@;
    let before = s1 + venv + "\"; if "@;
    let rest = s3.skip(11);
    lemma_probe_regrouped(
        s1 + venv,
        "\"; if "@,
        "[ -x "@,
        venv,
        "/bin/"@,
        CLI@,
        " ]; then echo \"ft_venv=$("@,
        " --version "@,
        rest,
    );
    lemma_part_across(before, part, rest, line);
    let l1 = line + CLI@;
    let l2 = l1 + " >/dev/null 2>&1; then echo \"ft_path=$("@;
    let l3 = l2 + CLI@;
    lemma_part_extends(line, CLI@, part);
    lemma_part_extends(l1, " >/dev/null 2>&1; then echo \"ft_path=$("@, part);
    lemma_part_extends(l2, CLI@, part);
    lemma_part_extends(
        l3,
        " --version 2>&1 | head -n1)\"; else echo 'ft_path=-'; fi; if command -v nvidia-smi >/dev/null 2>&1; then echo \"driver=$(nvidia-smi --query-gpu=driver_version --format=csv,noheader | head -n1)\"; nvidia-smi --query-gpu=index,name,memory.total --format=csv,noheader | while IFS= read -r l; do echo \"gpu=$l\"; done; else echo 'driver=-'; fi; echo \"ram_kb=$(awk '/MemTotal/ {print $2}' /proc/meminfo 2>/dev/null || echo 0)\""@,
        part,
    );
}

/// The parts of a probe line, grouped otherwise.
proof fn lemma_probe_regrouped(
    a: Seq<char>,
    b: Seq<char>,
    c: Seq<char>,
    venv: Seq<char>,
    bin: Seq<char>,
    cli: Seq<char>,
    d: Seq<char>,
    e: Seq<char>,
    rest: Seq<char>,
)
    ensures
        a + (b + c) + venv + bin + cli + d + venv + bin + cli + (e + rest) == a + b + (c + venv + (
        bin + cli + d) + venv + (bin + cli + e)) + rest,
{
    assert(a + (b + c) + venv + bin + cli + d + venv + bin + cli + (e + rest) =~= a + b + (c + venv
        + (bin + cli + d) + venv + (bin + cli + e)) + rest);
}

/// What is read of a command, after one more word.
pub proof fn lemma_pair_after_word(word: Seq<char>, words: Seq<Seq<char>>)
    ensures
        forall|name: Seq<char>, value: Seq<char>| #[trigger]
            has_pair(words, name, value) ==> has_pair(seq![word] + words, name, value),
{
    let more = seq![word] + words;
    assert forall|name: Seq<char>, value: Seq<char>| #[trigger]
        has_pair(words, name, value) implies has_pair(more, name, value) by {
        let k = choose|k: int|
            0 <= k < words.len() - 1 && #[trigger] words[k] == name && words[k + 1] == value;
        assert(more[k + 1] == name && more[k + 2] == value);
    }
}

/// What an invocation stands for holds its program and each of its arguments, in their order.
pub proof fn law_invocation_is_held_whole(invocation: Invocation, i: int)
    requires
        0 <= i < invocation.args@.len(),
    ensures
        invocation@.program == invocation.program@,
        invocation@.args.len() == invocation.args@.len(),
        invocation@.args[i] == invocation.args@[i]@,
{
}

/// What holds a part still holds it with more text before it.
proof fn lemma_part_after(before: Seq<char>, line: Seq<char>, part: Seq<char>)
    requires
        contains(line, part),
    ensures
        contains(before + line, part),
{
    let i = choose|i: int|
        0 <= i <= line.len() - part.len() && #[trigger] line.subrange(i, i + part.len()) == part;
    let at = before.len() + i;
    assert((before + line).subrange(at, at + part.len()) =~= part);
}

/// Whatever the environment, the probe asks for each thing under the key by which it is read: the
/// system and its architecture, Python, `uv` and the compiler on the search path, the driver, each
/// card with its index, its name and its memory, and the memory of the system.
pub proof fn law_probe_asks_for_each_thing(venv: Seq<char>)
    ensures
        contains(probe_line(venv), "echo \"os=$(uname -s) $(uname -m)\""@),
        contains(probe_line(venv), "echo \"python=$(command -v python3 "@),
        contains(probe_line(venv), "echo \"uv=$(command -v uv "@),
        contains(probe_line(venv), "echo \"nvcc=$(command -v nvcc "@),
        contains(probe_line(venv), "echo \"driver=$(nvidia-smi --query-gpu=driver_version --format=csv,noheader | head -n1)\""@),
        contains(probe_line(venv), "nvidia-smi --query-gpu=index,name,memory.total --format=csv,noheader | while IFS= read -r l; do echo \"gpu=$l\"; done;"@),
        contains(probe_line(venv), "echo \"ram_kb=$(awk '/MemTotal/ {print $2}' /proc/meminfo "@),
{
    let first = "echo \"os=$(uname -s) $(uname -m)\"; echo \"python=$(command -v python3 || echo -)\"; echo \"uv=$(command -v uv || echo -)\"; echo \"nvcc=$(command -v nvcc || echo -)\"; echo \"venv="@;
    let last = " --version 2>&1 | head -n1)\"; else echo 'ft_path=-'; fi; if command -v nvidia-smi >/dev/null 2>&1; then echo \"driver=$(nvidia-smi --query-gpu=driver_version --format=csv,noheader | head -n1)\"; nvidia-smi --query-gpu=index,name,memory.total --format=csv,noheader | while IFS= read -r l; do echo \"gpu=$l\"; done; else echo 'driver=-'; fi; echo \"ram_kb=$(awk '/MemTotal/ {print $2}' /proc/meminfo 2>/dev/null || echo 0)\""@;
    assert(contains(first, "echo \"os=$(uname -s) $(uname -m)\""@)) by {
        reveal_strlit("echo \"os=$(uname -s) $(uname -m)\"; echo \"python=$(command -v python3 || echo -)\"; echo \"uv=$(command -v uv || echo -)\"; echo \"nvcc=$(command -v nvcc || echo -)\"; echo \"venv=");
        reveal_strlit("echo \"os=$(uname -s) $(uname -m)\"");
        let part = "echo \"os=$(uname -s) $(uname -m)\""@;
        assert(first.subrange(0, 0int + part.len()) =~= part);
    }
    assert(contains(first, "echo \"python=$(command -v python3 "@)) by {
        reveal_strlit("echo \"os=$(uname -s) $(uname -m)\"; echo \"python=$(command -v python3 || echo -)\"; echo \"uv=$(command -v uv || echo -)\"; echo \"nvcc=$(command -v nvcc || echo -)\"; echo \"venv=");
        reveal_strlit("echo \"python=$(command -v python3 ");
        let part = "echo \"python=$(command -v python3 "@;
        assert(first.subrange(35, 35int + part.len()) =~= part);
    }
    assert(contains(first, "echo \"uv=$(command -v uv "@)) by {
        reveal_strlit("echo \"os=$(uname -s) $(uname -m)\"; echo \"python=$(command -v python3 || echo -)\"; echo \"uv=$(command -v uv || echo -)\"; echo \"nvcc=$(command -v nvcc || echo -)\"; echo \"venv=");
        reveal_strlit("echo \"uv=$(command -v uv ");
        let part = "echo \"uv=$(command -v uv "@;
        assert(first.subrange(82, 82int + part.len()) =~= part);
    }
    assert(contains(first, "echo \"nvcc=$(command -v nvcc "@)) by {
        reveal_strlit("echo \"os=$(uname -s) $(uname -m)\"; echo \"python=$(command -v python3 || echo -)\"; echo \"uv=$(command -v uv || echo -)\"; echo \"nvcc=$(command -v nvcc || echo -)\"; echo \"venv=");
        reveal_strlit("echo \"nvcc=$(command -v nvcc ");
        let part = "echo \"nvcc=$(command -v nvcc "@;
        assert(first.subrange(120, 120int + part.len()) =~= part);
    }
    assert(contains(last, "echo \"driver=$(nvidia-smi --query-gpu=driver_version --format=csv,noheader | head -n1)\""@)) by {
        reveal_strlit(" --version 2>&1 | head -n1)\"; else echo 'ft_path=-'; fi; if command -v nvidia-smi >/dev/null 2>&1; then echo \"driver=$(nvidia-smi --query-gpu=driver_version --format=csv,noheader | head -n1)\"; nvidia-smi --query-gpu=index,name,memory.total --format=csv,noheader | while IFS= read -r l; do echo \"gpu=$l\"; done; else echo 'driver=-'; fi; echo \"ram_kb=$(awk '/MemTotal/ {print $2}' /proc/meminfo 2>/dev/null || echo 0)\"");
        reveal_strlit("echo \"driver=$(nvidia-smi --query-gpu=driver_version --format=csv,noheader | head -n1)\"");
        let part = "echo \"driver=$(nvidia-smi --query-gpu=driver_version --format=csv,noheader | head -n1)\""@;
        assert(last.subrange(104, 104int + part.len()) =~= part);
    }
    assert(contains(last, "nvidia-smi --query-gpu=index,name,memory.total --format=csv,noheader | while IFS= read -r l; do echo \"gpu=$l\"; done;"@)) by {
        reveal_strlit(" --version 2>&1 | head -n1)\"; else echo 'ft_path=-'; fi; if command -v nvidia-smi >/dev/null 2>&1; then echo \"driver=$(nvidia-smi --query-gpu=driver_version --format=csv,noheader | head -n1)\"; nvidia-smi --query-gpu=index,name,memory.total --format=csv,noheader | while IFS= read -r l; do echo \"gpu=$l\"; done; else echo 'driver=-'; fi; echo \"ram_kb=$(awk '/MemTotal/ {print $2}' /proc/meminfo 2>/dev/null || echo 0)\"");
        reveal_strlit("nvidia-smi --query-gpu=index,name,memory.total --format=csv,noheader | while IFS= read -r l; do echo \"gpu=$l\"; done;");
        let part = "nvidia-smi --query-gpu=index,name,memory.total --format=csv,noheader | while IFS= read -r l; do echo \"gpu=$l\"; done;"@;
        assert(last.subrange(193, 193int + part.len()) =~= part);
    }
    assert(contains(last, "echo \"ram_kb=$(awk '/MemTotal/ {print $2}' /proc/meminfo "@)) by {
        reveal_strlit(" --version 2>&1 | head -n1)\"; else echo 'ft_path=-'; fi; if command -v nvidia-smi >/dev/null 2>&1; then echo \"driver=$(nvidia-smi --query-gpu=driver_version --format=csv,noheader | head -n1)\"; nvidia-smi --query-gpu=index,name,memory.total --format=csv,noheader | while IFS= read -r l; do echo \"gpu=$l\"; done; else echo 'driver=-'; fi; echo \"ram_kb=$(awk '/MemTotal/ {print $2}' /proc/meminfo 2>/dev/null || echo 0)\"");
        reveal_strlit("echo \"ram_kb=$(awk '/MemTotal/ {print $2}' /proc/meminfo ");
        let part = "echo \"ram_kb=$(awk '/MemTotal/ {print $2}' /proc/meminfo "@;
        assert(last.subrange(336, 336int + part.len()) =~= part);
    }
    let line = probe_line(venv);
    let more = line.skip(first.len() as int);
    let before = line.take(line.len() - last.len());
    assert(line =~= first + more);
    assert(line =~= before + last);
    lemma_part_extends(first, more, "echo \"os=$(uname -s) $(uname -m)\""@);
    lemma_part_extends(first, more, "echo \"python=$(command -v python3 "@);
    lemma_part_extends(first, more, "echo \"uv=$(command -v uv "@);
    lemma_part_extends(first, more, "echo \"nvcc=$(command -v nvcc "@);
    lemma_part_after(before, last, "echo \"driver=$(nvidia-smi --query-gpu=driver_version --format=csv,noheader | head -n1)\""@);
    lemma_part_after(before, last, "nvidia-smi --query-gpu=index,name,memory.total --format=csv,noheader | while IFS= read -r l; do echo \"gpu=$l\"; done;"@);
    lemma_part_after(before, last, "echo \"ram_kb=$(awk '/MemTotal/ {print $2}' /proc/meminfo "@);
}

/// The first command of an installation that fails ends it.
pub proof fn law_installation_stops_at_a_failure(venv: Seq<char>, version: Seq<char>)
    ensures
        starts_with(install_line(venv, version), "set -e; "@),
{
    let first = "set -e; if command -v uv >/dev/null 2>&1; then uv venv "@;
    assert(first.len() >= 8 && first.take(8) == "set -e; "@) by {
        reveal_strlit("set -e; if command -v uv >/dev/null 2>&1; then uv venv ");
        reveal_strlit("set -e; ");
        assert(first.take(8) =~= "set -e; "@);
    }
    assert("set -e; "@.len() == 8) by {
        reveal_strlit("set -e; ");
    }
    let line = install_line(venv, version);
    assert(line.take(8) =~= first.take(8));
}

} // verus!
