//! Calling a tool: what it does next, as a function of what came of what it did before.

use crate::command::{
    activation, bench_invocation, bench_line, convert_invocation, convert_line, engine_path,
    engine_venv, install_invocation, install_line, kill_line, kill_stale_invocation,
    law_bench_line_is_read_as_meant, law_convert_line_is_read_as_meant, law_line_is_passed_whole,
    probe_invocation, probe_line, wrapped, CommandLine, Invocation, DEFAULT_PORT, PINNED_VERSION,
};
use crate::ctl::{
    answer_to_demand, answer_to_question, base_of, base_url, demand_result,
    law_demand_names_its_numbers, law_only_demanded_caches_are_sent, question_result,
    rebuild_request, value_result, CacheRebuild, Exchange, ExchangeModel, Question, RebuildRequest,
};
use crate::json::{
    array, empty_object, empty_value, get_text, get_unsigned, json_of, json_parsed, jsons_of, member, null,
    number, option_value, str_value, string_value, text_array, text_member, text_or_null,
    texts_value, truth, unsigned_member, whole, with_member, Json,
};
use crate::models::{
    is_checkpoint, is_stable_order, law_listed_checkpoint_is_as_it_was_found, list_servable_models,
    listing, servable_models, sort_keys, Candidate, ServableModel,
};
use crate::outcome::{failure, failure_text, run_result, Outcome, OutcomeModel};
use crate::paths::{engine_model, has_drive, is_letter_drive, wsl_path};
use crate::probe::{lacking, lemma_lines_joined, parse_probe, report_of, Probe, Report};
use crate::runtime::{converted_dir, is_separator, join, join_path, venv_dir, within, Host, Runtime};
use crate::shell::{command_words, quoted};
use crate::text::{
    after_last, chars_of, contains, contains_text, decimal, find_char, is_digit, is_white,
    law_line_is_read, law_numeral_is_read_back, law_trim_takes_off_white_space,
    law_what_follows_the_last_is_kept, lemma_decimal, line_texts, lines, parse_unsigned, same_text,
    starts_with, string_of, strip_chars_end, strip_end, text_after_last, trim, trimmed, unsigned,
    CharSet,
};
use crate::tools::{find_tool, law_tool_is_found_by_its_name, tool_named, Tool};
use serde_json::Value;
use vstd::prelude::*;

verus! {

/// Where a tool is called.
#[derive(Debug, Clone)]
pub struct Context {
    pub host: Host,
    pub runtime: Runtime,
    /// The URL of the server that the application configured.
    pub endpoint: Option<String>,
    /// The folder that the user keeps checkpoints in, where the application names one.
    pub library: Option<String>,
}

impl Context {
    /// The base URL of the server.
    pub open spec fn base(self) -> Seq<char> {
        base_of(self.endpoint.deep_view())
    }

    /// The URL that a question is asked at.
    pub open spec fn url(self, question: Question) -> Seq<char> {
        self.base() + question.path()
    }

    fn base_text(&self) -> (base: String)
        ensures
            base@ == self.base(),
    {
        match &self.endpoint {
            Some(endpoint) => base_url(Some(endpoint.as_str())),
            None => base_url(None),
        }
    }

    fn url_text(&self, question: Question) -> (url: String)
        ensures
            url@ == self.url(question),
    {
        question.url(self.base_text().as_str())
    }
}

// ---------------------------------------------------------------------------
// States, actions, events
// ---------------------------------------------------------------------------

/// What a tool is waiting for.
#[derive(Debug, Clone)]
pub enum ToolState {
    /// Status: what the machine reports.
    Probing,
    /// Status: the memory of the system as a number.
    Measuring { probe: Probe },
    /// Status: whether the server answers.
    Greeting { probe: Probe, memory: Value },
    /// The end of the installation.
    Installing { version: String },
    /// The checkpoints that are there.
    Listing,
    /// The sizes of the checkpoints as numbers of gibibytes.
    Weighing { models: Vec<ServableModel> },
    /// Health: what the server says of itself.
    Checking,
    /// Health: which models the server serves.
    Naming { health: Value },
    /// The answer to a question, which is the result.
    Asking { url: String },
    /// The answer to a demand, which is the result.
    Demanding { url: String },
    /// The end of the measurement.
    Benchmarking,
    /// Whether the model that was named is a checkpoint at `path`, in the user's library.
    Locating { model: String, path: String, folder: String },
    /// The folder for the converted checkpoint.
    Creating { model: String, source: String, folder: String },
    /// The end of the conversion.
    Converting { model: String, folder: String },
    /// The end of the servers on the port.
    Stopping { port: u16 },
    /// Nothing.
    Done,
}

/// What a tool does next.
#[derive(Debug)]
pub enum ToolAction {
    /// Runs a command to its end.
    Run { invocation: Invocation, seconds: u64 },
    /// Reads a number of kibibytes as one of gibibytes.
    Measure { kibibytes: Option<String> },
    /// Lists what the folders of checkpoints hold.
    List,
    /// Reads numbers of bytes as numbers of gibibytes.
    Weigh { sizes: Vec<u64> },
    /// Looks at what is found at a path.
    Look { path: String },
    /// Gets a URL.
    Get { url: String },
    /// Posts JSON.
    Post { request: RebuildRequest },
    /// Creates a folder.
    CreateFolder { path: String },
    /// Ends, with a result or a message that says why there is none.
    Finish { result: Result<Value, String> },
}

/// What a tool learns from what it did.
#[derive(Debug)]
pub enum ToolEvent {
    /// What the command gave.
    Ran { result: Result<Outcome, String> },
    /// The number of gibibytes, or null.
    Measured { memory: Value },
    /// What the folders of checkpoints hold: that of the user, then that of the converted ones.
    Listed { candidates: Vec<Candidate> },
    /// The numbers of gibibytes, one for each number of bytes.
    Weighed { sizes: Vec<Value> },
    /// What is found: a folder, with weights that were converted, with a configuration.
    Looked { is_dir: bool, has_weights: bool, has_config: bool },
    /// What came of the request.
    Exchanged { exchange: Exchange },
    /// Whether the folder was created.
    Created { result: Result<(), String> },
}

/// A state and an action.
#[derive(Debug)]
pub struct ToolStep {
    pub state: ToolState,
    pub action: ToolAction,
}

/// What a state of a tool holds.
#[verifier::ext_equal]
pub enum ToolStateModel {
    Probing,
    Measuring { report: Report, missing: Seq<Seq<char>> },
    Greeting { report: Report, missing: Seq<Seq<char>>, memory: Json },
    Installing { version: Seq<char> },
    Listing,
    Weighing { models: Seq<ServableModel> },
    Checking,
    Naming { health: Json },
    Asking { url: Seq<char> },
    Demanding { url: Seq<char> },
    Benchmarking,
    Locating { model: Seq<char>, path: Seq<char>, folder: Seq<char> },
    Creating { model: Seq<char>, source: Seq<char>, folder: Seq<char> },
    Converting { model: Seq<char>, folder: Seq<char> },
    Stopping { port: nat },
    Done,
}

/// What an action of a tool holds.
#[verifier::ext_equal]
pub enum ToolActionModel {
    Run { command: CommandLine, seconds: nat },
    Measure { kibibytes: Option<Seq<char>> },
    List,
    Weigh { sizes: Seq<u64> },
    Look { path: Seq<char> },
    Get { url: Seq<char> },
    Post { url: Seq<char>, body: Seq<char> },
    CreateFolder { path: Seq<char> },
    Finish { result: Result<Json, Seq<char>> },
}

/// What an event holds.
#[verifier::ext_equal]
pub enum ToolEventModel {
    Ran { result: Result<OutcomeModel, Seq<char>> },
    Measured { memory: Json },
    Listed { candidates: Seq<Candidate> },
    Weighed { sizes: Seq<Json> },
    Looked { is_dir: bool, has_weights: bool, has_config: bool },
    Exchanged { exchange: ExchangeModel },
    Created { result: Result<(), Seq<char>> },
}

/// What a step of a tool holds.
#[verifier::ext_equal]
pub struct ToolStepModel {
    pub state: ToolStateModel,
    pub action: ToolActionModel,
}

impl View for ToolState {
    type V = ToolStateModel;

    open spec fn view(&self) -> ToolStateModel {
        match *self {
            ToolState::Probing => ToolStateModel::Probing,
            ToolState::Measuring { probe } => ToolStateModel::Measuring {
                report: probe.report(),
                missing: probe.missing.deep_view(),
            },
            ToolState::Greeting { probe, memory } => ToolStateModel::Greeting {
                report: probe.report(),
                missing: probe.missing.deep_view(),
                memory: json_of(memory),
            },
            ToolState::Installing { version } => ToolStateModel::Installing { version: version@ },
            ToolState::Listing => ToolStateModel::Listing,
            ToolState::Weighing { models } => ToolStateModel::Weighing { models: models@ },
            ToolState::Checking => ToolStateModel::Checking,
            ToolState::Naming { health } => ToolStateModel::Naming { health: json_of(health) },
            ToolState::Asking { url } => ToolStateModel::Asking { url: url@ },
            ToolState::Demanding { url } => ToolStateModel::Demanding { url: url@ },
            ToolState::Benchmarking => ToolStateModel::Benchmarking,
            ToolState::Locating { model, path, folder } => ToolStateModel::Locating {
                model: model@,
                path: path@,
                folder: folder@,
            },
            ToolState::Creating { model, source, folder } => ToolStateModel::Creating {
                model: model@,
                source: source@,
                folder: folder@,
            },
            ToolState::Converting { model, folder } => ToolStateModel::Converting {
                model: model@,
                folder: folder@,
            },
            ToolState::Stopping { port } => ToolStateModel::Stopping { port: port as nat },
            ToolState::Done => ToolStateModel::Done,
        }
    }
}

impl View for ToolAction {
    type V = ToolActionModel;

    open spec fn view(&self) -> ToolActionModel {
        match *self {
            ToolAction::Run { invocation, seconds } => ToolActionModel::Run {
                command: invocation@,
                seconds: seconds as nat,
            },
            ToolAction::Measure { kibibytes } => ToolActionModel::Measure {
                kibibytes: kibibytes.deep_view(),
            },
            ToolAction::List => ToolActionModel::List,
            ToolAction::Weigh { sizes } => ToolActionModel::Weigh { sizes: sizes@ },
            ToolAction::Look { path } => ToolActionModel::Look { path: path@ },
            ToolAction::Get { url } => ToolActionModel::Get { url: url@ },
            ToolAction::Post { request } => ToolActionModel::Post {
                url: request.url@,
                body: request.body@,
            },
            ToolAction::CreateFolder { path } => ToolActionModel::CreateFolder { path: path@ },
            ToolAction::Finish { result } => ToolActionModel::Finish {
                result: value_result(result),
            },
        }
    }
}

/// What creating a folder gave.
pub open spec fn created_result(result: Result<(), String>) -> Result<(), Seq<char>> {
    match result {
        Ok(()) => Ok(()),
        Err(message) => Err(message@),
    }
}

impl View for ToolEvent {
    type V = ToolEventModel;

    open spec fn view(&self) -> ToolEventModel {
        match *self {
            ToolEvent::Ran { result } => ToolEventModel::Ran { result: run_result(result) },
            ToolEvent::Measured { memory } => ToolEventModel::Measured { memory: json_of(memory) },
            ToolEvent::Listed { candidates } => ToolEventModel::Listed { candidates: candidates@ },
            ToolEvent::Weighed { sizes } => ToolEventModel::Weighed { sizes: jsons_of(sizes@) },
            ToolEvent::Looked { is_dir, has_weights, has_config } => ToolEventModel::Looked {
                is_dir,
                has_weights,
                has_config,
            },
            ToolEvent::Exchanged { exchange } => ToolEventModel::Exchanged { exchange: exchange@ },
            ToolEvent::Created { result } => ToolEventModel::Created {
                result: created_result(result),
            },
        }
    }
}

impl View for ToolStep {
    type V = ToolStepModel;

    open spec fn view(&self) -> ToolStepModel {
        ToolStepModel { state: self.state@, action: self.action@ }
    }
}

impl ToolStateModel {
    /// The events that can come in this state.
    pub open spec fn awaits(self, event: ToolEventModel) -> bool {
        match self {
            ToolStateModel::Probing => event is Ran,
            ToolStateModel::Measuring { .. } => event is Measured,
            ToolStateModel::Greeting { .. } => event is Exchanged,
            ToolStateModel::Installing { .. } => event is Ran,
            ToolStateModel::Listing => event is Listed,
            ToolStateModel::Weighing { models } => event matches ToolEventModel::Weighed { sizes }
                && sizes.len() == models.len(),
            ToolStateModel::Checking => event is Exchanged,
            ToolStateModel::Naming { .. } => event is Exchanged,
            ToolStateModel::Asking { .. } => event is Exchanged,
            ToolStateModel::Demanding { .. } => event is Exchanged,
            ToolStateModel::Benchmarking => event is Ran,
            ToolStateModel::Locating { .. } => event is Looked,
            ToolStateModel::Creating { .. } => event is Created,
            ToolStateModel::Converting { .. } => event is Ran,
            ToolStateModel::Stopping { .. } => event is Ran,
            ToolStateModel::Done => false,
        }
    }
}

impl ToolActionModel {
    /// The events that the action can give.
    pub open spec fn gives(self, event: ToolEventModel) -> bool {
        match self {
            ToolActionModel::Run { .. } => event is Ran,
            ToolActionModel::Measure { .. } => event is Measured,
            ToolActionModel::List => event is Listed,
            ToolActionModel::Weigh { sizes } => event matches ToolEventModel::Weighed {
                sizes: weighed,
            } && weighed.len() == sizes.len(),
            ToolActionModel::Look { .. } => event is Looked,
            ToolActionModel::Get { .. } => event is Exchanged,
            ToolActionModel::Post { .. } => event is Exchanged,
            ToolActionModel::CreateFolder { .. } => event is Created,
            ToolActionModel::Finish { .. } => false,
        }
    }
}

impl ToolState {
    /// Whether the event can come in this state.
    pub fn awaits(&self, event: &ToolEvent) -> (awaited: bool)
        ensures
            awaited == self@.awaits(event@),
    {
        match (self, event) {
            (ToolState::Probing, ToolEvent::Ran { .. }) => true,
            (ToolState::Measuring { .. }, ToolEvent::Measured { .. }) => true,
            (ToolState::Greeting { .. }, ToolEvent::Exchanged { .. }) => true,
            (ToolState::Installing { .. }, ToolEvent::Ran { .. }) => true,
            (ToolState::Listing, ToolEvent::Listed { .. }) => true,
            (ToolState::Weighing { models }, ToolEvent::Weighed { sizes }) => sizes.len()
                == models.len(),
            (ToolState::Locating { .. }, ToolEvent::Looked { .. }) => true,
            (ToolState::Checking, ToolEvent::Exchanged { .. }) => true,
            (ToolState::Naming { .. }, ToolEvent::Exchanged { .. }) => true,
            (ToolState::Asking { .. }, ToolEvent::Exchanged { .. }) => true,
            (ToolState::Demanding { .. }, ToolEvent::Exchanged { .. }) => true,
            (ToolState::Benchmarking, ToolEvent::Ran { .. }) => true,
            (ToolState::Creating { .. }, ToolEvent::Created { .. }) => true,
            (ToolState::Converting { .. }, ToolEvent::Ran { .. }) => true,
            (ToolState::Stopping { .. }, ToolEvent::Ran { .. }) => true,
            _ => false,
        }
    }
}

// ---------------------------------------------------------------------------
// Arguments
// ---------------------------------------------------------------------------

/// The argument `key` without the white space around it, where it is a text and something is
/// left of it.
pub open spec fn argument(args: Json, key: Seq<char>) -> Option<Seq<char>> {
    match text_member(args, key) {
        Some(text) => if trim(text).len() > 0 {
            Some(trim(text))
        } else {
            None
        },
        None => None,
    }
}

/// The argument `key`.
fn argument_text(args: &Value, key: &str) -> (text: Option<String>)
    ensures
        text.deep_view() == argument(json_of(*args), key@),
{
    match get_text(args, key) {
        Some(text) => {
            let bare = trimmed(text);
            if bare.as_str().is_empty() {
                None
            } else {
                Some(bare)
            }
        },
        None => None,
    }
}

/// The version to install: the one that is asked for, or the pinned one.
pub open spec fn version_of(args: Json) -> Seq<char> {
    match argument(args, "version"@) {
        Some(version) => version,
        None => PINNED_VERSION@,
    }
}

/// The formats to measure.
pub open spec fn dtype_of(args: Json) -> Option<Seq<char>> {
    text_member(args, "dtype"@)
}

/// The number of that name, of 64 bits as every number is that `serde_json` holds as a whole
/// number.
pub open spec fn number_argument(args: Json, key: Seq<char>) -> Option<u64> {
    match unsigned_member(args, key) {
        Some(n) => Some(n as u64),
        None => None,
    }
}

/// What resizing the caches is asked for.
pub open spec fn demand_of(args: Json) -> CacheRebuild {
    CacheRebuild { moe: number_argument(args, "moe"@), kv: number_argument(args, "kv"@) }
}

/// What follows the last separator, of either kind.
pub open spec fn last_part(path: Seq<char>) -> Seq<char> {
    after_last(after_last(path, '/'), '\\')
}

/// The name of the folder for the converted checkpoint: the one that is asked for, or that of
/// the checkpoint with an ending.
pub open spec fn folder_name(args: Json, model: Seq<char>) -> Seq<char> {
    match argument(args, "name"@) {
        Some(name) => name,
        None => last_part(model) + "-ftw"@,
    }
}

/// A plain name of a folder: it leads neither down nor up.
pub open spec fn is_plain_name(name: Seq<char>) -> bool {
    !name.contains('/') && !name.contains('\\') && !contains(name, ".."@)
}

/// Whether a name is a plain name of a folder.
fn plain_name(name: &str) -> (plain: bool)
    ensures
        plain == is_plain_name(name@),
{
    let chars = chars_of(name);
    let slash = find_char(&chars, 0, '/');
    if slash < chars.len() {
        assert(chars@[slash as int] == '/');
        return false;
    }
    let backslash = find_char(&chars, 0, '\\');
    if backslash < chars.len() {
        assert(chars@[backslash as int] == '\\');
        return false;
    }
    !contains_text(name, "..")
}

/// A name that a folder can be given: a plain one and, under Windows, one without a drive.
pub open spec fn is_folder_name(windows: bool, name: Seq<char>) -> bool {
    is_plain_name(name) && !(windows && has_drive(name))
}

/// Whether a folder can be given the name.
fn folder_name_fits(windows: bool, name: &str) -> (fits: bool)
    ensures
        fits == is_folder_name(windows, name@),
{
    plain_name(name) && !(windows && is_letter_drive(&chars_of(name)))
}

/// The name of something in a folder: one component of a path, other than those that stand for
/// the folder itself and for the one around it.
pub open spec fn is_component(windows: bool, name: Seq<char>) -> bool {
    &&& name != "."@
    &&& name != ".."@
    &&& forall|i: int| 0 <= i < name.len() ==> !is_separator(windows, #[trigger] name[i])
    &&& !(windows && has_drive(name))
}

/// Whether a text is the name of something in a folder.
fn component(windows: bool, name: &str) -> (single: bool)
    ensures
        single == is_component(windows, name@),
{
    if same_text(name, ".") || same_text(name, "..") {
        return false;
    }
    let chars = chars_of(name);
    let slash = find_char(&chars, 0, '/');
    if slash < chars.len() {
        assert(is_separator(windows, chars@[slash as int]));
        return false;
    }
    if windows {
        let backslash = find_char(&chars, 0, '\\');
        if backslash < chars.len() {
            assert(is_separator(windows, chars@[backslash as int]));
            return false;
        }
    }
    !(windows && is_letter_drive(&chars))
}

/// Where the user's library would hold the checkpoint `model`, where that is the name of one.
pub open spec fn library_path(context: Context, model: Seq<char>) -> Option<Seq<char>> {
    match context.library {
        Some(library) => if is_component(context.host.windows, model) {
            Some(join(context.host.windows, library@, model))
        } else {
            None
        },
        None => None,
    }
}

/// Where the user's library would hold the checkpoint `model`.
fn library_path_text(context: &Context, model: &str) -> (path: Option<String>)
    ensures
        path.deep_view() == library_path(*context, model@),
{
    match &context.library {
        Some(library) => if component(context.host.windows, model) {
            Some(join_path(context.host.windows, library.as_str(), model))
        } else {
            None
        },
        None => None,
    }
}

/// The port of the server that the application configured: what follows the last colon of its
/// URL, without the slashes at its end, or the default port where that is no port.
pub open spec fn endpoint_port(endpoint: Option<Seq<char>>) -> nat {
    match endpoint {
        Some(endpoint) => match unsigned(
            strip_end(after_last(endpoint, ':'), CharSet::Only('/')),
            u16::MAX as nat,
        ) {
            Some(port) => port,
            None => DEFAULT_PORT as nat,
        },
        None => DEFAULT_PORT as nat,
    }
}

/// The port of the server that the application configured.
fn configured_port(endpoint: &Option<String>) -> (port: u16)
    ensures
        port == endpoint_port(endpoint.deep_view()),
{
    match endpoint {
        Some(endpoint) => {
            let last = text_after_last(endpoint.as_str(), ':');
            let digits = string_of(
                &strip_chars_end(&chars_of(last.as_str()), CharSet::Only('/')),
            );
            match parse_unsigned(digits.as_str(), u16::MAX as u32) {
                Some(port) => port as u16,
                None => DEFAULT_PORT,
            }
        },
        None => DEFAULT_PORT,
    }
}

// ---------------------------------------------------------------------------
// Results
// ---------------------------------------------------------------------------

/// What the status tool reports. The memory is null where the machine did not report it.
pub open spec fn status_report(
    report: Report,
    missing: Seq<Seq<char>>,
    memory: Json,
    health: Json,
    context: Context,
) -> Json {
    empty_object().with(
        "runtime"@,
        Json::Text(if context.runtime is Wsl { "wsl2"@ } else { "linux-natif"@ }),
    ).with("pret"@, Json::Bool(missing.len() == 0)).with("manquants"@, text_array(missing)).with(
        "systeme"@,
        text_or_null(report.os),
    ).with("pilote"@, text_or_null(report.driver_version)).with(
        "cartes"@,
        text_array(report.gpus),
    ).with(
        "memoire_systeme_gio"@,
        if report.ram_kb is Some {
            memory
        } else {
            Json::Null
        },
    ).with("python"@, text_or_null(report.python)).with(
        "uv"@,
        text_or_null(report.uv),
    ).with("nvcc"@, text_or_null(report.nvcc)).with(
        "version_moteur"@,
        text_or_null(report.version()),
    ).with("version_epinglee"@, Json::Text(PINNED_VERSION@)).with("serveur"@, health).with(
        "endpoint"@,
        Json::Text(context.base()),
    )
}

/// What the status tool reports.
fn status_value(probe: &Probe, memory: Value, health: Value, context: &Context) -> (value: Value)
    ensures
        json_of(value) == status_report(
            probe.report(),
            probe.missing.deep_view(),
            json_of(memory),
            json_of(health),
            *context,
        ),
{
    let runtime = if context.runtime.is_wsl() {
        "wsl2"
    } else {
        "linux-natif"
    };
    let value = with_member(empty_value(), "runtime", str_value(runtime));
    let value = with_member(value, "pret", truth(probe.ready()));
    let value = with_member(value, "manquants", texts_value(&probe.missing));
    let value = with_member(value, "systeme", option_value(&probe.os));
    let value = with_member(value, "pilote", option_value(&probe.driver_version));
    let value = with_member(value, "cartes", texts_value(&probe.gpus));
    let memory = match &probe.ram_kb {
        Some(_) => memory,
        None => null(),
    };
    let value = with_member(value, "memoire_systeme_gio", memory);
    let value = with_member(value, "python", option_value(&probe.python));
    let value = with_member(value, "uv", option_value(&probe.uv));
    let value = with_member(value, "nvcc", option_value(&probe.nvcc));
    let value = with_member(value, "version_moteur", option_value(&probe.version()));
    let value = with_member(value, "version_epinglee", str_value(PINNED_VERSION));
    let value = with_member(value, "serveur", health);
    with_member(value, "endpoint", string_value(context.base_text()))
}

/// The last line of a text, without the white space around it.
pub open spec fn last_line(text: Seq<char>) -> Seq<char> {
    let lines = lines(text);
    if lines.len() == 0 {
        trim(""@)
    } else {
        trim(lines.last())
    }
}

/// The last line of a text, without the white space around it.
fn last_line_text(text: &str) -> (line: String)
    ensures
        line@ == last_line(text@),
{
    let lines = line_texts(text);
    if lines.len() == 0 {
        trimmed("")
    } else {
        trimmed(lines[lines.len() - 1].as_str())
    }
}

/// What the install tool reports of an installation that succeeded.
pub open spec fn install_report(version: Seq<char>, stdout: Seq<char>, host: Host) -> Json {
    empty_object().with("installe"@, Json::Bool(true)).with(
        "version_demandee"@,
        Json::Text(version),
    ).with("version_rapportee"@, Json::Text(last_line(stdout))).with(
        "environnement"@,
        Json::Text(host.venv()),
    )
}

/// What the install tool reports of an installation that succeeded.
fn install_value(version: String, stdout: &str, host: &Host) -> (value: Value)
    ensures
        json_of(value) == install_report(version@, stdout@, *host),
{
    let value = with_member(empty_value(), "installe", truth(true));
    let value = with_member(value, "version_demandee", string_value(version));
    let value = with_member(value, "version_rapportee", string_value(last_line_text(stdout)));
    with_member(value, "environnement", string_value(venv_dir(host)))
}

pub const LIST_NOTE: &'static str = "Un identifiant de dépôt Hugging Face fonctionne aussi comme modèle : le moteur télécharge lui-même.";

/// A checkpoint, with its size in gibibytes.
pub open spec fn model_json(model: ServableModel, size: Json) -> Json {
    empty_object().with("name"@, Json::Text(model.name@)).with("path"@, Json::Text(model.path@)).with(
        "converted"@,
        Json::Bool(model.converted),
    ).with("size_gb"@, size)
}

/// Checkpoints, each with its size in gibibytes.
pub open spec fn models_json(models: Seq<ServableModel>, sizes: Seq<Json>) -> Json {
    Json::Array(Seq::new(models.len(), |i: int| model_json(models[i], sizes[i])))
}

/// The sizes of checkpoints in bytes.
pub open spec fn sizes_of(models: Seq<ServableModel>) -> Seq<u64> {
    models.map_values(|model: ServableModel| model.size_bytes)
}

/// What the list tool reports.
pub open spec fn list_report(
    models: Seq<ServableModel>,
    sizes: Seq<Json>,
    context: Context,
) -> Json {
    empty_object().with("modeles"@, models_json(models, sizes)).with(
        "bibliotheque"@,
        text_or_null(context.library.deep_view()),
    ).with("dossier_extension"@, Json::Text(context.host.in_data_dir("models"@))).with(
        "note"@,
        Json::Text(LIST_NOTE@),
    )
}

/// The sizes of checkpoints in bytes.
fn model_sizes(models: &Vec<ServableModel>) -> (sizes: Vec<u64>)
    ensures
        sizes@ == sizes_of(models@),
{
    let mut sizes: Vec<u64> = Vec::new();
    let mut i: usize = 0;
    while i < models.len()
        invariant
            i <= models@.len(),
            sizes@ == sizes_of(models@.take(i as int)),
        decreases models@.len() - i,
    {
        sizes.push(models[i].size_bytes);
        i += 1;
        assert(sizes@ =~= sizes_of(models@.take(i as int)));
    }
    assert(models@.take(i as int) =~= models@);
    sizes
}

/// Checkpoints, each with its size in gibibytes.
fn models_value(models: &Vec<ServableModel>, sizes: &Vec<Value>) -> (value: Value)
    requires
        sizes@.len() == models@.len(),
    ensures
        json_of(value) == models_json(models@, jsons_of(sizes@)),
{
    let mut values: Vec<Value> = Vec::new();
    let mut i: usize = 0;
    while i < models.len()
        invariant
            i <= models@.len(),
            sizes@.len() == models@.len(),
            values@.len() == i,
            forall|j: int|
                0 <= j < i ==> json_of(#[trigger] values@[j]) == model_json(
                    models@[j],
                    json_of(sizes@[j]),
                ),
        decreases models@.len() - i,
    {
        let model = &models[i];
        let value = with_member(empty_value(), "name", str_value(model.name.as_str()));
        let value = with_member(value, "path", str_value(model.path.as_str()));
        let value = with_member(value, "converted", truth(model.converted));
        values.push(with_member(value, "size_gb", sizes[i].clone()));
        i += 1;
    }
    assert(jsons_of(values@) =~= Seq::new(
        models@.len(),
        |i: int| model_json(models@[i], jsons_of(sizes@)[i]),
    ));
    array(values)
}

/// What the list tool reports.
fn list_value(models: &Vec<ServableModel>, sizes: &Vec<Value>, context: &Context) -> (value: Value)
    requires
        sizes@.len() == models@.len(),
    ensures
        json_of(value) == list_report(models@, jsons_of(sizes@), *context),
{
    let value = with_member(empty_value(), "modeles", models_value(models, sizes));
    let value = with_member(value, "bibliotheque", option_value(&context.library));
    let value = with_member(
        value,
        "dossier_extension",
        string_value(converted_dir(&context.host)),
    );
    with_member(value, "note", str_value(LIST_NOTE))
}

/// What the health tool reports.
pub open spec fn health_report(health: Json, models: Json) -> Json {
    empty_object().with("sante"@, health).with("modeles_servis"@, models)
}

pub const BENCH_NOTE: &'static str = "Le profil est relu au prochain démarrage : avec « Répartition des experts » sur « auto », le moteur suit cette mesure.";

/// What the measuring tool reports of a measurement that succeeded.
pub open spec fn bench_report(stdout: Seq<char>) -> Json {
    empty_object().with("mesure"@, Json::Bool(true)).with("sortie"@, Json::Text(trim(stdout))).with(
        "note"@,
        Json::Text(BENCH_NOTE@),
    )
}

/// What the measuring tool reports of a measurement that succeeded.
fn bench_value(stdout: &str) -> (value: Value)
    ensures
        json_of(value) == bench_report(stdout@),
{
    let value = with_member(empty_value(), "mesure", truth(true));
    let value = with_member(value, "sortie", string_value(trimmed(stdout)));
    with_member(value, "note", str_value(BENCH_NOTE))
}

pub const CONVERT_NOTE: &'static str = "Ce dossier apparaît maintenant comme modèle sélectionnable dans Réglages → Moteur.";

/// What the converting tool reports of a conversion that succeeded.
pub open spec fn convert_report(source: Seq<char>, folder: Seq<char>) -> Json {
    empty_object().with("converti"@, Json::Bool(true)).with("source"@, Json::Text(source)).with(
        "dossier"@,
        Json::Text(folder),
    ).with("note"@, Json::Text(CONVERT_NOTE@))
}

/// What the converting tool reports of a conversion that succeeded.
fn convert_value(source: String, folder: String) -> (value: Value)
    ensures
        json_of(value) == convert_report(source@, folder@),
{
    let value = with_member(empty_value(), "converti", truth(true));
    let value = with_member(value, "source", string_value(source));
    let value = with_member(value, "dossier", string_value(folder));
    with_member(value, "note", str_value(CONVERT_NOTE))
}

/// What the stopping tool reports.
pub open spec fn stop_report(port: nat, command: Seq<char>) -> Json {
    empty_object().with("arrete"@, Json::Bool(true)).with("port"@, number(port as int)).with(
        "commande"@,
        Json::Text(command),
    )
}

/// What the stopping tool reports.
fn stop_value(port: u16, command: String) -> (value: Value)
    ensures
        json_of(value) == stop_report(port as nat, command@),
{
    let value = with_member(empty_value(), "arrete", truth(true));
    let value = with_member(value, "port", whole(port as i64));
    with_member(value, "commande", string_value(command))
}

// ---------------------------------------------------------------------------
// Steps
// ---------------------------------------------------------------------------

/// The step of a tool that ends.
pub open spec fn finished(result: Result<Json, Seq<char>>) -> ToolStepModel {
    ToolStepModel { state: ToolStateModel::Done, action: ToolActionModel::Finish { result } }
}

/// The step of a tool that runs a command.
pub open spec fn running(state: ToolStateModel, command: CommandLine, seconds: nat) -> ToolStepModel {
    ToolStepModel { state, action: ToolActionModel::Run { command, seconds } }
}

/// The step of a tool that gets a URL.
pub open spec fn getting(state: ToolStateModel, url: Seq<char>) -> ToolStepModel {
    ToolStepModel { state, action: ToolActionModel::Get { url } }
}

/// How resizing the caches begins: a demand that asks for nothing is refused.
pub open spec fn resize_begins(args: Json, context: Context) -> ToolStepModel {
    let demand = demand_of(args);
    let url = context.base() + "/v1/cache/rebuild"@;
    if demand.moe is None && demand.kv is None {
        finished(Err("indiquez au moins « moe » ou « kv »"@))
    } else {
        ToolStepModel {
            state: ToolStateModel::Demanding { url },
            action: ToolActionModel::Post { url, body: demand.json_text() },
        }
    }
}

/// The step that creates the folder for the checkpoint `source`, which was named `model`.
pub open spec fn creating(model: Seq<char>, source: Seq<char>, folder: Seq<char>) -> ToolStepModel {
    ToolStepModel {
        state: ToolStateModel::Creating { model, source, folder },
        action: ToolActionModel::CreateFolder { path: folder },
    }
}

/// How converting a checkpoint begins. The name of the folder comes from whoever calls the
/// tool: one that would lead elsewhere is refused. A model that can be the name of a checkpoint
/// in the user's library is looked for there first.
pub open spec fn convert_begins(args: Json, context: Context) -> ToolStepModel {
    match argument(args, "model"@) {
        Some(model) => {
            let name = folder_name(args, model);
            let folder = join(context.host.windows, context.host.in_data_dir("models"@), name);
            if is_folder_name(context.host.windows, name) {
                match library_path(context, model) {
                    Some(path) => ToolStepModel {
                        state: ToolStateModel::Locating { model, path, folder },
                        action: ToolActionModel::Look { path },
                    },
                    None => creating(model, model, folder),
                }
            } else {
                finished(Err("« name » doit être un simple nom de dossier"@))
            }
        },
        None => finished(Err("« model » est requis"@)),
    }
}

/// How calling a tool begins.
pub open spec fn call_begins(name: Seq<char>, args: Json, context: Context) -> ToolStepModel {
    let host = context.host;
    let runtime = context.runtime;
    match tool_named(name) {
        Some(Tool::Status) => running(
            ToolStateModel::Probing,
            wrapped(runtime, probe_line(quoted(engine_venv(host, runtime)))),
            180,
        ),
        Some(Tool::Install) => running(
            ToolStateModel::Installing { version: version_of(args) },
            wrapped(runtime, install_line(quoted(engine_venv(host, runtime)), version_of(args))),
            10_800,
        ),
        Some(Tool::ListModels) => ToolStepModel {
            state: ToolStateModel::Listing,
            action: ToolActionModel::List,
        },
        Some(Tool::ServerHealth) => getting(
            ToolStateModel::Checking,
            context.url(Question::Health),
        ),
        Some(Tool::ServerStats) => getting(
            ToolStateModel::Asking { url: context.url(Question::Stats) },
            context.url(Question::Stats),
        ),
        Some(Tool::CacheStatus) => getting(
            ToolStateModel::Asking { url: context.url(Question::CacheStatus) },
            context.url(Question::CacheStatus),
        ),
        Some(Tool::CacheResize) => resize_begins(args, context),
        Some(Tool::BenchBandwidth) => running(
            ToolStateModel::Benchmarking,
            wrapped(runtime, activation(host, runtime) + bench_line(dtype_of(args))),
            3_600,
        ),
        Some(Tool::ConvertCheckpoint) => convert_begins(args, context),
        Some(Tool::StopServer) => {
            let port = endpoint_port(context.endpoint.deep_view());
            running(ToolStateModel::Stopping { port }, wrapped(runtime, kill_line(port)), 60)
        },
        None => finished(Err("outil inconnu : "@ + name)),
    }
}

/// The result of a tool that ran a command, given what it reports where the command succeeded.
/// A command that could not be run, or that failed, is an error.
pub open spec fn run_report(
    what: Seq<char>,
    result: Result<OutcomeModel, Seq<char>>,
    report: spec_fn(OutcomeModel) -> Json,
) -> Result<Json, Seq<char>> {
    match result {
        Ok(outcome) => if outcome.success {
            Ok(report(outcome))
        } else {
            Err(failure(what, outcome))
        },
        Err(message) => Err(message),
    }
}

/// How calling a tool goes on after an event that it awaits.
pub open spec fn call_goes_on(
    state: ToolStateModel,
    event: ToolEventModel,
    context: Context,
) -> ToolStepModel {
    let host = context.host;
    let runtime = context.runtime;
    match (state, event) {
        (ToolStateModel::Probing, ToolEventModel::Ran { result }) => match result {
            Ok(outcome) => {
                let report = report_of(outcome.stdout);
                ToolStepModel {
                    state: ToolStateModel::Measuring { report, missing: lacking(report) },
                    action: ToolActionModel::Measure { kibibytes: report.ram_kb },
                }
            },
            Err(message) => finished(Err(message)),
        },
        (
            ToolStateModel::Measuring { report, missing },
            ToolEventModel::Measured { memory },
        ) => getting(
            ToolStateModel::Greeting { report, missing, memory },
            context.url(Question::Health),
        ),
        (
            ToolStateModel::Greeting { report, missing, memory },
            ToolEventModel::Exchanged { exchange },
        ) => {
            // A server that does not answer is part of the status, not an error.
            let health = match question_result(context.url(Question::Health), exchange) {
                Ok(health) => health,
                Err(_) => Json::Null,
            };
            finished(Ok(status_report(report, missing, memory, health, context)))
        },
        (ToolStateModel::Installing { version }, ToolEventModel::Ran { result }) => finished(
            run_report(
                "installation"@,
                result,
                |outcome: OutcomeModel| install_report(version, outcome.stdout, host),
            ),
        ),
        (ToolStateModel::Listing, ToolEventModel::Listed { candidates }) => {
            let models = listing(candidates);
            ToolStepModel {
                state: ToolStateModel::Weighing { models },
                action: ToolActionModel::Weigh { sizes: sizes_of(models) },
            }
        },
        (ToolStateModel::Weighing { models }, ToolEventModel::Weighed { sizes }) => finished(
            Ok(list_report(models, sizes, context)),
        ),
        (ToolStateModel::Checking, ToolEventModel::Exchanged { exchange }) => {
            match question_result(context.url(Question::Health), exchange) {
                Ok(health) => getting(
                    ToolStateModel::Naming { health },
                    context.url(Question::Models),
                ),
                Err(message) => finished(Err(message)),
            }
        },
        (ToolStateModel::Naming { health }, ToolEventModel::Exchanged { exchange }) => {
            let models = match question_result(context.url(Question::Models), exchange) {
                Ok(models) => models,
                Err(_) => Json::Null,
            };
            finished(Ok(health_report(health, models)))
        },
        (ToolStateModel::Asking { url }, ToolEventModel::Exchanged { exchange }) => finished(
            question_result(url, exchange),
        ),
        (ToolStateModel::Demanding { url }, ToolEventModel::Exchanged { exchange }) => finished(
            demand_result(url, exchange),
        ),
        (ToolStateModel::Benchmarking, ToolEventModel::Ran { result }) => finished(
            run_report("mesure"@, result, |outcome: OutcomeModel| bench_report(outcome.stdout)),
        ),
        (
            ToolStateModel::Locating { model, path, folder },
            ToolEventModel::Looked { is_dir, has_weights, has_config },
        ) => creating(
            model,
            if is_checkpoint(is_dir, has_weights, has_config) {
                path
            } else {
                model
            },
            folder,
        ),
        (ToolStateModel::Creating { model, source, folder }, ToolEventModel::Created { result }) => {
            match result {
                Ok(_) => running(
                    ToolStateModel::Converting { model, folder },
                    wrapped(
                        runtime,
                        activation(host, runtime) + convert_line(
                            engine_model(source, runtime),
                            engine_path(runtime, folder),
                        ),
                    ),
                    21_600,
                ),
                Err(message) => finished(Err(message)),
            }
        },
        (ToolStateModel::Converting { model, folder }, ToolEventModel::Ran { result }) => finished(
            run_report(
                "conversion"@,
                result,
                |outcome: OutcomeModel| convert_report(model, folder),
            ),
        ),
        (ToolStateModel::Stopping { port }, ToolEventModel::Ran { result }) => match result {
            Ok(outcome) => finished(Ok(stop_report(port, outcome.command))),
            Err(message) => finished(Err(message)),
        },
        _ => arbitrary(),
    }
}

/// The step of a tool that ends.
fn finish(result: Result<Value, String>) -> (step: ToolStep)
    ensures
        step@ == finished(value_result(result)),
{
    ToolStep { state: ToolState::Done, action: ToolAction::Finish { result } }
}

/// The step of a tool that runs a command.
fn run_step(state: ToolState, invocation: Invocation, seconds: u64) -> (step: ToolStep)
    ensures
        step@ == running(state@, invocation@, seconds as nat),
{
    ToolStep { state, action: ToolAction::Run { invocation, seconds } }
}

/// Begins to resize the caches.
fn begin_resize(args: &Value, context: &Context) -> (step: ToolStep)
    ensures
        step@ == resize_begins(json_of(*args), *context),
{
    let demand = CacheRebuild { moe: get_unsigned(args, "moe"), kv: get_unsigned(args, "kv") };
    assert(demand == demand_of(json_of(*args)));
    match rebuild_request(&demand, context.base_text().as_str()) {
        Ok(request) => ToolStep {
            state: ToolState::Demanding { url: request.url.clone() },
            action: ToolAction::Post { request },
        },
        Err(message) => finish(Err(message)),
    }
}

/// The step that creates the folder for the checkpoint `source`, which was named `model`.
fn create_step(model: String, source: String, folder: String) -> (step: ToolStep)
    ensures
        step@ == creating(model@, source@, folder@),
{
    let path = folder.clone();
    ToolStep {
        state: ToolState::Creating { model, source, folder },
        action: ToolAction::CreateFolder { path },
    }
}

/// Begins to convert a checkpoint.
fn begin_convert(args: &Value, context: &Context) -> (step: ToolStep)
    ensures
        step@ == convert_begins(json_of(*args), *context),
{
    let model = match argument_text(args, "model") {
        Some(model) => model,
        None => return finish(Err("« model » est requis".to_string())),
    };
    let name = match argument_text(args, "name") {
        Some(name) => name,
        None => {
            let after_slash = text_after_last(model.as_str(), '/');
            let mut name = text_after_last(after_slash.as_str(), '\\');
            name.append("-ftw");
            name
        },
    };
    if !folder_name_fits(context.host.windows, name.as_str()) {
        return finish(Err("« name » doit être un simple nom de dossier".to_string()));
    }
    let folder = join_path(
        context.host.windows,
        converted_dir(&context.host).as_str(),
        name.as_str(),
    );
    match library_path_text(context, model.as_str()) {
        Some(path) => {
            let looked = path.clone();
            ToolStep {
                state: ToolState::Locating { model, path, folder },
                action: ToolAction::Look { path: looked },
            }
        },
        None => {
            let source = model.clone();
            create_step(model, source, folder)
        },
    }
}

/// Begins to call a tool.
pub fn begin_call(name: &str, args: &Value, context: &Context) -> (step: ToolStep)
    ensures
        step@ == call_begins(name@, json_of(*args), *context),
{
    let host = &context.host;
    let runtime = &context.runtime;
    match find_tool(name) {
        Some(Tool::Status) => run_step(ToolState::Probing, probe_invocation(host, runtime), 180),
        Some(Tool::Install) => {
            let version = match argument_text(args, "version") {
                Some(version) => version,
                None => PINNED_VERSION.to_string(),
            };
            let invocation = install_invocation(host, runtime, version.as_str());
            run_step(ToolState::Installing { version }, invocation, 10_800)
        },
        Some(Tool::ListModels) => ToolStep { state: ToolState::Listing, action: ToolAction::List },
        Some(Tool::ServerHealth) => ToolStep {
            state: ToolState::Checking,
            action: ToolAction::Get { url: context.url_text(Question::Health) },
        },
        Some(Tool::ServerStats) => ToolStep {
            state: ToolState::Asking { url: context.url_text(Question::Stats) },
            action: ToolAction::Get { url: context.url_text(Question::Stats) },
        },
        Some(Tool::CacheStatus) => ToolStep {
            state: ToolState::Asking { url: context.url_text(Question::CacheStatus) },
            action: ToolAction::Get { url: context.url_text(Question::CacheStatus) },
        },
        Some(Tool::CacheResize) => begin_resize(args, context),
        Some(Tool::BenchBandwidth) => {
            let invocation = bench_invocation(host, runtime, get_text(args, "dtype"));
            run_step(ToolState::Benchmarking, invocation, 3_600)
        },
        Some(Tool::ConvertCheckpoint) => begin_convert(args, context),
        Some(Tool::StopServer) => {
            let port = configured_port(&context.endpoint);
            run_step(ToolState::Stopping { port }, kill_stale_invocation(runtime, port), 60)
        },
        None => {
            let mut message = "outil inconnu : ".to_string();
            message.append(name);
            finish(Err(message))
        },
    }
}

/// Goes on with calling a tool, given what came of the last action.
pub fn continue_call(state: ToolState, event: ToolEvent, context: &Context) -> (step: ToolStep)
    requires
        state@.awaits(event@),
    ensures
        step@ == call_goes_on(state@, event@, *context),
{
    match (state, event) {
        (ToolState::Probing, ToolEvent::Ran { result }) => match result {
            Ok(outcome) => {
                let probe = parse_probe(outcome.stdout.as_str());
                let kibibytes = match &probe.ram_kb {
                    Some(kibibytes) => Some(kibibytes.clone()),
                    None => None,
                };
                ToolStep {
                    state: ToolState::Measuring { probe },
                    action: ToolAction::Measure { kibibytes },
                }
            },
            Err(message) => finish(Err(message)),
        },
        (ToolState::Measuring { probe }, ToolEvent::Measured { memory }) => ToolStep {
            state: ToolState::Greeting { probe, memory },
            action: ToolAction::Get { url: context.url_text(Question::Health) },
        },
        (ToolState::Greeting { probe, memory }, ToolEvent::Exchanged { exchange }) => {
            let url = context.url_text(Question::Health);
            let health = match answer_to_question(url.as_str(), &exchange) {
                Ok(health) => health,
                Err(_) => null(),
            };
            finish(Ok(status_value(&probe, memory, health, context)))
        },
        (ToolState::Installing { version }, ToolEvent::Ran { result }) => match result {
            Ok(outcome) => if outcome.success {
                finish(Ok(install_value(version, outcome.stdout.as_str(), &context.host)))
            } else {
                finish(Err(failure_text("installation", &outcome)))
            },
            Err(message) => finish(Err(message)),
        },
        (ToolState::Listing, ToolEvent::Listed { candidates }) => {
            let models = list_servable_models(&candidates);
            let sizes = model_sizes(&models);
            ToolStep { state: ToolState::Weighing { models }, action: ToolAction::Weigh { sizes } }
        },
        (ToolState::Weighing { models }, ToolEvent::Weighed { sizes }) => finish(
            Ok(list_value(&models, &sizes, context)),
        ),
        (ToolState::Checking, ToolEvent::Exchanged { exchange }) => {
            let url = context.url_text(Question::Health);
            match answer_to_question(url.as_str(), &exchange) {
                Ok(health) => ToolStep {
                    state: ToolState::Naming { health },
                    action: ToolAction::Get { url: context.url_text(Question::Models) },
                },
                Err(message) => finish(Err(message)),
            }
        },
        (ToolState::Naming { health }, ToolEvent::Exchanged { exchange }) => {
            let url = context.url_text(Question::Models);
            let models = match answer_to_question(url.as_str(), &exchange) {
                Ok(models) => models,
                Err(_) => null(),
            };
            let value = with_member(empty_value(), "sante", health);
            finish(Ok(with_member(value, "modeles_servis", models)))
        },
        (ToolState::Asking { url }, ToolEvent::Exchanged { exchange }) => finish(
            answer_to_question(url.as_str(), &exchange),
        ),
        (ToolState::Demanding { url }, ToolEvent::Exchanged { exchange }) => finish(
            answer_to_demand(url.as_str(), &exchange),
        ),
        (ToolState::Benchmarking, ToolEvent::Ran { result }) => match result {
            Ok(outcome) => if outcome.success {
                finish(Ok(bench_value(outcome.stdout.as_str())))
            } else {
                finish(Err(failure_text("mesure", &outcome)))
            },
            Err(message) => finish(Err(message)),
        },
        (
            ToolState::Locating { model, path, folder },
            ToolEvent::Looked { is_dir, has_weights, has_config },
        ) => if is_dir && (has_weights || has_config) {
            create_step(model, path, folder)
        } else {
            let source = model.clone();
            create_step(model, source, folder)
        },
        (
            ToolState::Creating { model, source, folder },
            ToolEvent::Created { result },
        ) => match result {
            Ok(_) => {
                let invocation = convert_invocation(
                    &context.host,
                    &context.runtime,
                    source.as_str(),
                    folder.as_str(),
                );
                run_step(ToolState::Converting { model, folder }, invocation, 21_600)
            },
            Err(message) => finish(Err(message)),
        },
        (ToolState::Converting { model, folder }, ToolEvent::Ran { result }) => match result {
            Ok(outcome) => if outcome.success {
                finish(Ok(convert_value(model, folder)))
            } else {
                finish(Err(failure_text("conversion", &outcome)))
            },
            Err(message) => finish(Err(message)),
        },
        (ToolState::Stopping { port }, ToolEvent::Ran { result }) => match result {
            Ok(outcome) => finish(Ok(stop_value(port, outcome.command))),
            Err(message) => finish(Err(message)),
        },
        _ => vstd::pervasive::unreached(),
    }
}

// ---------------------------------------------------------------------------
// Laws
// ---------------------------------------------------------------------------

impl ToolStateModel {
    /// How many events can still come.
    pub open spec fn rank(self) -> nat {
        match self {
            ToolStateModel::Probing => 3,
            ToolStateModel::Locating { .. } => 3,
            ToolStateModel::Measuring { .. } => 2,
            ToolStateModel::Listing => 2,
            ToolStateModel::Checking => 2,
            ToolStateModel::Creating { .. } => 2,
            ToolStateModel::Done => 0,
            _ => 1,
        }
    }
}

/// The events that the action of a step can give are those that its state awaits.
pub open spec fn is_consistent(step: ToolStepModel) -> bool {
    forall|event: ToolEventModel| #[trigger] step.state.awaits(event) == step.action.gives(event)
}

/// Whatever an action gives, the tool knows how to go on, and after at most three events it ends.
pub proof fn law_call_always_goes_on(
    name: Seq<char>,
    args: Json,
    state: ToolStateModel,
    event: ToolEventModel,
    context: Context,
)
    requires
        state.awaits(event),
    ensures
        is_consistent(call_begins(name, args, context)),
        call_begins(name, args, context).state.rank() <= 3,
        is_consistent(call_goes_on(state, event, context)),
        call_goes_on(state, event, context).state.rank() < state.rank(),
{
}

/// The folder of a converted checkpoint is confined: whatever the arguments, and whatever is
/// found in the user's library, the folder that a call creates has a plain name and lies directly
/// in the folder of the converted checkpoints, or is that folder itself where the name is `.`.
pub proof fn law_folder_is_confined(
    name: Seq<char>,
    args: Json,
    found: ToolEventModel,
    context: Context,
)
    requires
        found is Looked,
    ensures
        ({
            let begun = call_begins(name, args, context);
            let step = if begun.state is Locating {
                call_goes_on(begun.state, found, context)
            } else {
                begun
            };
            let folder = folder_name(args, argument(args, "model"@)->0);
            let root = context.host.in_data_dir("models"@);
            &&& begun.state is Locating ==> step.action is CreateFolder
            &&& step.action is CreateFolder ==> {
                &&& tool_named(name) == Some(Tool::ConvertCheckpoint)
                &&& is_folder_name(context.host.windows, folder)
                &&& step.action->CreateFolder_path == join(context.host.windows, root, folder)
                &&& folder == "."@ || step.action->CreateFolder_path == within(
                    context.host.windows,
                    root,
                ) + folder
            }
        }),
{
}

/// What is converted is the checkpoint that the user's library holds under the name that was
/// given, where it holds one, and else what the engine makes of the model itself. It is converted
/// into the folder that was created, which does not depend on what was found.
pub proof fn law_named_checkpoint_is_converted(
    args: Json,
    is_dir: bool,
    has_weights: bool,
    has_config: bool,
    context: Context,
)
    requires
        argument(args, "model"@) is Some,
        context.library is Some,
        is_component(context.host.windows, argument(args, "model"@)->0),
        is_folder_name(context.host.windows, folder_name(args, argument(args, "model"@)->0)),
    ensures
        ({
            let model = argument(args, "model"@)->0;
            let path = join(context.host.windows, context.library->0@, model);
            let begun = convert_begins(args, context);
            let created = call_goes_on(
                begun.state,
                ToolEventModel::Looked { is_dir, has_weights, has_config },
                context,
            );
            let folder = created.action->CreateFolder_path;
            let next = call_goes_on(created.state, ToolEventModel::Created { result: Ok(()) }, context);
            let source = if is_checkpoint(is_dir, has_weights, has_config) {
                path
            } else {
                model
            };
            &&& begun.action == ToolActionModel::Look { path }
            &&& created.action is CreateFolder
            &&& folder == join(
                context.host.windows,
                context.host.in_data_dir("models"@),
                folder_name(args, model),
            )
            &&& next.action is Run
            &&& next.action->command == wrapped(
                context.runtime,
                activation(context.host, context.runtime) + convert_line(
                    engine_model(source, context.runtime),
                    engine_path(context.runtime, folder),
                ),
            )
        }),
{
}

/// What is listed is what the engine can serve of what was found, each checkpoint with the size
/// that was read for it.
pub proof fn law_found_checkpoints_are_reported(
    candidates: Seq<Candidate>,
    sizes: Seq<Json>,
    context: Context,
)
    requires
        sizes.len() == listing(candidates).len(),
    ensures
        ({
            let weighing = call_goes_on(
                ToolStateModel::Listing,
                ToolEventModel::Listed { candidates },
                context,
            );
            let ended = call_goes_on(
                weighing.state,
                ToolEventModel::Weighed { sizes },
                context,
            );
            &&& weighing.state.awaits(ToolEventModel::Weighed { sizes })
            &&& ended.action matches ToolActionModel::Finish { result }
            &&& result matches Ok(report)
            &&& member(report, "modeles"@) == Some(models_json(listing(candidates), sizes))
        }),
{
    reveal_strlit("modeles");
    reveal_strlit("bibliotheque");
    reveal_strlit("dossier_extension");
    reveal_strlit("note");
    assert("modeles"@.len() == 7 && "bibliotheque"@.len() == 12);
    assert("dossier_extension"@.len() == 17 && "note"@.len() == 4);
}

/// A demand to resize the caches is sent exactly where it names one of them, and then holds what
/// it names.
pub proof fn law_empty_resize_sends_nothing(args: Json, context: Context)
    ensures
        ({
            let step = resize_begins(args, context);
            let demand = demand_of(args);
            &&& step.action is Post <==> demand.moe is Some || demand.kv is Some
            &&& step.action is Post ==> step.action->body == demand.json_text()
            &&& !(step.action is Post) ==> step.action is Finish && step.action->result is Err
        }),
{
}

/// The status is reported whether the server answers or not, and whatever it answers.
pub proof fn law_status_does_without_the_server(
    report: Report,
    missing: Seq<Seq<char>>,
    memory: Json,
    exchange: ExchangeModel,
    context: Context,
)
    ensures
        call_goes_on(
            ToolStateModel::Greeting { report, missing, memory },
            ToolEventModel::Exchanged { exchange },
            context,
        ).action matches ToolActionModel::Finish { result } && result is Ok,
{
}

/// The status names all that the machine lacks, says that it is ready exactly where it lacks
/// nothing, and gives no memory where the machine reported none.
pub proof fn law_status_says_what_is_missing(
    outcome: OutcomeModel,
    memory: Json,
    exchange: ExchangeModel,
    context: Context,
)
    ensures
        ({
            let missing = lacking(report_of(outcome.stdout));
            let probed = call_goes_on(
                ToolStateModel::Probing,
                ToolEventModel::Ran { result: Ok(outcome) },
                context,
            );
            let measured = call_goes_on(probed.state, ToolEventModel::Measured { memory }, context);
            let ended = call_goes_on(
                measured.state,
                ToolEventModel::Exchanged { exchange },
                context,
            );
            &&& ended.action matches ToolActionModel::Finish { result }
            &&& result matches Ok(report)
            &&& member(report, "manquants"@) == Some(text_array(missing))
            &&& member(report, "pret"@) == Some(Json::Bool(missing.len() == 0))
            &&& member(report, "memoire_systeme_gio"@) == Some(
                if report_of(outcome.stdout).ram_kb is Some {
                    memory
                } else {
                    Json::Null
                },
            )
        }),
{
    reveal_strlit("manquants");
    reveal_strlit("pret");
    reveal_strlit("systeme");
    reveal_strlit("pilote");
    reveal_strlit("cartes");
    reveal_strlit("memoire_systeme_gio");
    reveal_strlit("python");
    reveal_strlit("uv");
    reveal_strlit("nvcc");
    reveal_strlit("version_moteur");
    reveal_strlit("version_epinglee");
    reveal_strlit("serveur");
    reveal_strlit("endpoint");
    assert("manquants"@.len() == 9 && "pret"@.len() == 4 && "nvcc"@.len() == 4);
    assert("pret"@[0] == 'p' && "nvcc"@[0] == 'n');
    assert("systeme"@.len() == 7 && "pilote"@.len() == 6 && "cartes"@.len() == 6);
    assert("memoire_systeme_gio"@.len() == 19 && "python"@.len() == 6 && "uv"@.len() == 2);
    assert("version_moteur"@.len() == 14 && "version_epinglee"@.len() == 16);
    assert("serveur"@.len() == 7 && "endpoint"@.len() == 8);
}

/// What is installed always has a version: the one that is asked for, without white space around
/// it, or the pinned one.
pub proof fn law_installed_version_is_pinned(args: Json)
    ensures
        version_of(args).len() > 0,
        argument(args, "version"@) is None ==> version_of(args) == PINNED_VERSION@,
{
    reveal_strlit("0.1.2");
}

/// A command that failed is never reported as a success, whichever tool ran it: only stopping,
/// which succeeds whether there was a server or not, does not look at how its command ended.
pub proof fn law_failed_command_is_an_error(
    state: ToolStateModel,
    outcome: OutcomeModel,
    context: Context,
)
    requires
        state is Installing || state is Benchmarking || state is Converting,
        !outcome.success,
    ensures
        call_goes_on(state, ToolEventModel::Ran { result: Ok(outcome) }, context).action matches
            ToolActionModel::Finish { result } && result is Err,
{
}

/// What follows the last of a character is what follows it, where it does not occur again.
proof fn lemma_after_last(before: Seq<char>, c: char, after: Seq<char>)
    requires
        forall|i: int| 0 <= i < after.len() ==> after[i] != c,
    ensures
        after_last(before + seq![c] + after, c) == after,
    decreases after.len(),
{
    let whole = before + seq![c] + after;
    if after.len() == 0 {
        assert(whole.last() == c);
        assert(after =~= seq![]);
    } else {
        lemma_after_last(before, c, after.drop_last());
        assert(whole.drop_last() =~= before + seq![c] + after.drop_last());
        assert(whole.last() == after.last());
        assert(after.drop_last().push(after.last()) =~= after);
    }
}

/// Stopping the server reaches the port of the URL that was configured, with or without a slash
/// at its end.
pub proof fn law_configured_port_is_stopped(host: Seq<char>, port: nat)
    requires
        port <= u16::MAX,
    ensures
        endpoint_port(Some(host + ":"@ + decimal(port))) == port,
        endpoint_port(Some(host + ":"@ + decimal(port) + "/"@)) == port,
{
    reveal_strlit(":");
    reveal_strlit("/");
    let digits = decimal(port);
    lemma_decimal(port);
    assert forall|i: int| 0 <= i < digits.len() implies digits[i] != ':' && digits[i] != '/' by {
        assert(is_digit(digits[i]));
    }
    assert(":"@ =~= seq![':']);
    assert("/"@ =~= seq!['/']);
    law_numeral_is_read_back(port, u16::MAX as nat);
    lemma_after_last(host, ':', digits);
    assert(digits.last() != '/');
    let slashed = digits + "/"@;
    assert forall|i: int| 0 <= i < slashed.len() implies slashed[i] != ':' by {
        if i < digits.len() {
            assert(slashed[i] == digits[i]);
        }
    }
    lemma_after_last(host, ':', slashed);
    assert(host + ":"@ + digits + "/"@ =~= host + seq![':'] + slashed);
    assert(slashed.drop_last() =~= digits);
    reveal_with_fuel(strip_end, 2);
}

/// An argument is the text under its name without the white space around it, all of it and nothing
/// else. A text that is nothing but white space, or what is no text, is no argument.
pub proof fn law_argument_is_taken_bare(
    args: Json,
    key: Seq<char>,
    before: Seq<char>,
    middle: Seq<char>,
    after: Seq<char>,
)
    requires
        forall|i: int| 0 <= i < before.len() ==> is_white(#[trigger] before[i]),
        forall|i: int| 0 <= i < after.len() ==> is_white(#[trigger] after[i]),
        middle.len() > 0 ==> !is_white(middle[0]) && !is_white(middle.last()),
    ensures
        text_member(args, key) == Some(before + middle + after) ==> argument(args, key) == (
        if middle.len() > 0 {
            Some(middle)
        } else {
            None
        }),
        text_member(args, key) is None ==> argument(args, key) is None,
{
    law_trim_takes_off_white_space(before, middle, after);
}

/// The names under which the status is reported differ.
proof fn lemma_status_names()
    ensures
        "runtime"@.len() == 7 && "runtime"@[0] == 'r',
        "systeme"@.len() == 7 && "systeme"@[0] == 's' && "systeme"@[1] == 'y',
        "serveur"@.len() == 7 && "serveur"@[0] == 's' && "serveur"@[1] == 'e',
        "pret"@.len() == 4 && "pret"@[0] == 'p',
        "nvcc"@.len() == 4 && "nvcc"@[0] == 'n',
        "pilote"@.len() == 6 && "pilote"@[0] == 'p' && "pilote"@[1] == 'i',
        "python"@.len() == 6 && "python"@[0] == 'p' && "python"@[1] == 'y',
        "cartes"@.len() == 6 && "cartes"@[0] == 'c',
        "manquants"@.len() == 9,
        "memoire_systeme_gio"@.len() == 19,
        "uv"@.len() == 2,
        "version_moteur"@.len() == 14,
        "version_epinglee"@.len() == 16,
        "endpoint"@.len() == 8,
{
    reveal_strlit("runtime");
    reveal_strlit("manquants");
    reveal_strlit("pret");
    reveal_strlit("systeme");
    reveal_strlit("pilote");
    reveal_strlit("cartes");
    reveal_strlit("memoire_systeme_gio");
    reveal_strlit("python");
    reveal_strlit("uv");
    reveal_strlit("nvcc");
    reveal_strlit("version_moteur");
    reveal_strlit("version_epinglee");
    reveal_strlit("serveur");
    reveal_strlit("endpoint");
}

/// `json` is an array of the texts, in their order.
pub open spec fn is_array_of(json: Option<Json>, texts: Seq<Seq<char>>) -> bool {
    &&& json matches Some(Json::Array(values))
    &&& values.len() == texts.len()
    &&& forall|i: int| 0 <= i < values.len() ==> #[trigger] values[i] == Json::Text(texts[i])
}

/// `json` is the text where there is one, and else null.
pub open spec fn is_text_or_null(json: Option<Json>, text: Option<Seq<char>>) -> bool {
    match text {
        Some(text) => json == Some(Json::Text(text)),
        None => json == Some(Json::Null),
    }
}

/// The status tool asks the machine, then the server, and reports all that the machine reported,
/// each thing under its own name and as it was reported, all that it lacks, what the server said
/// of itself, null where it said nothing, and the URL of that server.
pub proof fn law_status_reports_all(
    args: Json,
    outcome: OutcomeModel,
    memory: Json,
    exchange: ExchangeModel,
    context: Context,
)
    ensures
        ({
            let machine = report_of(outcome.stdout);
            let begun = call_begins("freetoken_status"@, args, context);
            let probed = call_goes_on(
                begun.state,
                ToolEventModel::Ran { result: Ok(outcome) },
                context,
            );
            let measured = call_goes_on(probed.state, ToolEventModel::Measured { memory }, context);
            let ended = call_goes_on(
                measured.state,
                ToolEventModel::Exchanged { exchange },
                context,
            );
            let venv = quoted(engine_venv(context.host, context.runtime));
            &&& begun.action == ToolActionModel::Run {
                command: wrapped(context.runtime, probe_line(venv)),
                seconds: 180,
            }
            &&& probed.action == ToolActionModel::Measure { kibibytes: machine.ram_kb }
            &&& measured.action == ToolActionModel::Get { url: context.base() + "/health"@ }
            &&& ended.action matches ToolActionModel::Finish { result }
            &&& result matches Ok(report)
            &&& context.runtime is Wsl ==> member(report, "runtime"@) == Some(Json::Text("wsl2"@))
            &&& context.runtime is Native ==> member(report, "runtime"@) == Some(
                Json::Text("linux-natif"@),
            )
            &&& member(report, "pret"@) == Some(Json::Bool(lacking(machine).len() == 0))
            &&& is_array_of(member(report, "manquants"@), lacking(machine))
            &&& is_text_or_null(member(report, "systeme"@), machine.os)
            &&& is_text_or_null(member(report, "pilote"@), machine.driver_version)
            &&& is_array_of(member(report, "cartes"@), machine.gpus)
            &&& machine.ram_kb is Some ==> member(report, "memoire_systeme_gio"@) == Some(memory)
            &&& machine.ram_kb is None ==> member(report, "memoire_systeme_gio"@) == Some(
                Json::Null,
            )
            &&& is_text_or_null(member(report, "python"@), machine.python)
            &&& is_text_or_null(member(report, "uv"@), machine.uv)
            &&& is_text_or_null(member(report, "nvcc"@), machine.nvcc)
            &&& is_text_or_null(
                member(report, "version_moteur"@),
                if machine.engine_version is Some {
                    machine.engine_version
                } else {
                    machine.engine_on_path
                },
            )
            &&& member(report, "version_epinglee"@) == Some(Json::Text("0.1.2"@))
            &&& question_result(context.base() + "/health"@, exchange) matches Ok(health) ==> member(
                report,
                "serveur"@,
            ) == Some(health)
            &&& question_result(context.base() + "/health"@, exchange) is Err ==> member(
                report,
                "serveur"@,
            ) == Some(Json::Null)
            &&& member(report, "endpoint"@) == Some(Json::Text(context.base()))
        }),
{
    lemma_status_names();
    law_tool_is_found_by_its_name(Tool::Status);
}

/// The last line of a text is read whole but for the white space around it, with or without a
/// line break after it, whatever lines come before.
pub proof fn law_last_line_is_read(before: Seq<char>, line: Seq<char>)
    requires
        before.len() == 0 || before.last() == '\n',
        !line.contains('\n'),
        line.len() > 0,
        line.last() != '\r',
    ensures
        last_line(before + line) == trim(line),
        last_line(before + (line + seq!['\n'])) == trim(line),
        last_line(before + (line + seq!['\r', '\n'])) == trim(line),
{
    lemma_lines_joined(before, line);
    lemma_lines_joined(before, line + seq!['\n']);
    lemma_lines_joined(before, line + seq!['\r', '\n']);
    law_line_is_read(line, seq![]);
    assert(line + seq!['\n'] + Seq::<char>::empty() =~= line + seq!['\n']);
    assert(line + seq!['\r', '\n'] + Seq::<char>::empty() =~= line + seq!['\r', '\n']);
    assert(seq![line] + lines(Seq::<char>::empty()) =~= seq![line]);
    assert((lines(before) + seq![line]).last() == line);
}

/// The install tool installs the version that is asked for, or the pinned one, in the managed
/// environment, and reports that version, the one that the environment then shows, which is the
/// last line that was printed, and where that environment is.
pub proof fn law_installation_is_reported(args: Json, outcome: OutcomeModel, context: Context)
    requires
        outcome.success,
    ensures
        ({
            let asked = argument(args, "version"@);
            let version = if asked is Some {
                asked->0
            } else {
                "0.1.2"@
            };
            let begun = call_begins("freetoken_install"@, args, context);
            let ended = call_goes_on(
                begun.state,
                ToolEventModel::Ran { result: Ok(outcome) },
                context,
            );
            let venv = quoted(engine_venv(context.host, context.runtime));
            &&& begun.action == ToolActionModel::Run {
                command: wrapped(context.runtime, install_line(venv, version)),
                seconds: 10_800,
            }
            &&& ended.action matches ToolActionModel::Finish { result }
            &&& result matches Ok(report)
            &&& member(report, "installe"@) == Some(Json::Bool(true))
            &&& member(report, "version_demandee"@) == Some(Json::Text(version))
            &&& member(report, "version_rapportee"@) == Some(Json::Text(last_line(outcome.stdout)))
            &&& member(report, "environnement"@) == Some(Json::Text(context.host.venv()))
        }),
{
    law_tool_is_found_by_its_name(Tool::Install);
    reveal_strlit("installe");
    reveal_strlit("version_demandee");
    reveal_strlit("version_rapportee");
    reveal_strlit("environnement");
    assert("installe"@.len() == 8 && "version_demandee"@.len() == 16);
    assert("version_rapportee"@.len() == 17 && "environnement"@.len() == 13);
}

/// What a checkpoint is reported as.
proof fn lemma_model_members(model: ServableModel, size: Json)
    ensures
        member(model_json(model, size), "name"@) == Some(Json::Text(model.name@)),
        member(model_json(model, size), "path"@) == Some(Json::Text(model.path@)),
        member(model_json(model, size), "converted"@) == Some(Json::Bool(model.converted)),
        member(model_json(model, size), "size_gb"@) == Some(size),
{
    reveal_strlit("name");
    reveal_strlit("path");
    reveal_strlit("converted");
    reveal_strlit("size_gb");
    assert("name"@[0] == 'n' && "path"@[0] == 'p' && "name"@.len() == 4 && "path"@.len() == 4);
    assert("converted"@.len() == 9 && "size_gb"@.len() == 7);
}

/// The list tool reports each checkpoint that is listed as it was found, one entry each and in
/// their order: its name, its path, whether it holds weights that were converted, and the size
/// that was read for the number of bytes that it takes. It names the user's library, where there
/// is one, and the folder of the converted checkpoints.
pub proof fn law_listed_checkpoints_are_reported_as_found(
    args: Json,
    candidates: Seq<Candidate>,
    order: Seq<usize>,
    sizes: Seq<Json>,
    context: Context,
    a: int,
)
    requires
        is_stable_order(sort_keys(servable_models(candidates)), order),
        sizes.len() == listing(candidates).len(),
        0 <= a < sizes.len(),
    ensures
        ({
            let begun = call_begins("freetoken_list_models"@, args, context);
            let weighing = call_goes_on(
                begun.state,
                ToolEventModel::Listed { candidates },
                context,
            );
            let ended = call_goes_on(weighing.state, ToolEventModel::Weighed { sizes }, context);
            &&& begun.action is List
            &&& weighing.action matches ToolActionModel::Weigh { sizes: bytes }
            &&& bytes.len() == sizes.len()
            &&& ended.action matches ToolActionModel::Finish { result }
            &&& result matches Ok(report)
            &&& member(report, "modeles"@) matches Some(Json::Array(entries))
            &&& entries.len() == listing(candidates).len()
            &&& exists|i: int|
                {
                    &&& 0 <= i < candidates.len()
                    &&& (#[trigger] candidates[i]).is_dir
                    &&& candidates[i].has_weights || candidates[i].has_config
                    &&& candidates[i].name is Some
                    &&& bytes[a] == candidates[i].size_bytes
                    &&& member(entries[a], "name"@) == Some(Json::Text(candidates[i].name->0@))
                    &&& member(entries[a], "path"@) == Some(Json::Text(candidates[i].path@))
                    &&& member(entries[a], "converted"@) == Some(
                        Json::Bool(candidates[i].has_weights),
                    )
                    &&& member(entries[a], "size_gb"@) == Some(sizes[a])
                }
            &&& is_text_or_null(member(report, "bibliotheque"@), context.library.deep_view())
            &&& member(report, "dossier_extension"@) == Some(
                Json::Text(context.host.in_data_dir("models"@)),
            )
            &&& member(report, "note"@) == Some(Json::Text(LIST_NOTE@))
        }),
{
    law_tool_is_found_by_its_name(Tool::ListModels);
    reveal_strlit("modeles");
    reveal_strlit("bibliotheque");
    reveal_strlit("dossier_extension");
    reveal_strlit("note");
    assert("modeles"@.len() == 7 && "bibliotheque"@.len() == 12);
    assert("dossier_extension"@.len() == 17 && "note"@.len() == 4);
    law_listed_checkpoint_is_as_it_was_found(candidates, order, a);
    let models = listing(candidates);
    lemma_model_members(models[a], sizes[a]);
    let i = choose|i: int|
        {
            &&& 0 <= i < candidates.len()
            &&& (#[trigger] candidates[i]).is_dir
            &&& candidates[i].has_weights || candidates[i].has_config
            &&& candidates[i].name is Some
            &&& models[a].name@ == candidates[i].name->0@
            &&& models[a].path@ == candidates[i].path@
            &&& models[a].converted == candidates[i].has_weights
            &&& models[a].size_bytes == candidates[i].size_bytes
        };
    assert(candidates[i].is_dir);
    assert(sizes_of(models)[a] == models[a].size_bytes);
}

/// The health tool asks the server how it is and then which models it serves, and reports both
/// answers, each under its own name, null for models that the server did not name. A server that
/// does not say how it is is an error.
pub proof fn law_health_is_reported(
    args: Json,
    status: Seq<char>,
    body: Seq<char>,
    named: ExchangeModel,
    silent: ExchangeModel,
    context: Context,
)
    requires
        json_parsed(body) is Ok,
        question_result(context.base() + "/health"@, silent) is Err,
    ensures
        ({
            let begun = call_begins("freetoken_server_health"@, args, context);
            let asked = call_goes_on(
                begun.state,
                ToolEventModel::Exchanged {
                    exchange: ExchangeModel::Answered { success: true, status, body },
                },
                context,
            );
            let ended = call_goes_on(
                asked.state,
                ToolEventModel::Exchanged { exchange: named },
                context,
            );
            let failed = call_goes_on(
                begun.state,
                ToolEventModel::Exchanged { exchange: silent },
                context,
            );
            &&& begun.action == ToolActionModel::Get { url: context.base() + "/health"@ }
            &&& asked.action == ToolActionModel::Get { url: context.base() + "/v1/models"@ }
            &&& ended.action matches ToolActionModel::Finish { result }
            &&& result matches Ok(report)
            &&& member(report, "sante"@) == Some(json_parsed(body)->Ok_0)
            &&& question_result(context.base() + "/v1/models"@, named) matches Ok(models)
                ==> member(report, "modeles_servis"@) == Some(models)
            &&& question_result(context.base() + "/v1/models"@, named) is Err ==> member(
                report,
                "modeles_servis"@,
            ) == Some(Json::Null)
            &&& failed.state is Done
            &&& failed.action == ToolActionModel::Finish {
                result: question_result(context.base() + "/health"@, silent),
            }
        }),
{
    law_tool_is_found_by_its_name(Tool::ServerHealth);
    reveal_strlit("sante");
    reveal_strlit("modeles_servis");
    assert("sante"@.len() == 5 && "modeles_servis"@.len() == 14);
}

/// The tools that ask the server one thing ask for that thing, at the server that was configured,
/// and hand on the answer, or what it is that went wrong.
pub proof fn law_answers_of_the_server_are_handed_on(
    args: Json,
    exchange: ExchangeModel,
    context: Context,
)
    ensures
        ({
            let stats = call_begins("freetoken_server_stats"@, args, context);
            let cache = call_begins("freetoken_cache_status"@, args, context);
            let event = ToolEventModel::Exchanged { exchange };
            let stats_url = context.base() + "/v1/stats"@;
            let cache_url = context.base() + "/v1/cache/status"@;
            &&& stats.action == ToolActionModel::Get { url: stats_url }
            &&& cache.action == ToolActionModel::Get { url: cache_url }
            &&& call_goes_on(stats.state, event, context).action == (ToolActionModel::Finish {
                result: question_result(stats_url, exchange),
            })
            &&& call_goes_on(cache.state, event, context).action == (ToolActionModel::Finish {
                result: question_result(cache_url, exchange),
            })
            &&& context.base() == base_of(context.endpoint.deep_view())
        }),
{
    law_tool_is_found_by_its_name(Tool::ServerStats);
    law_tool_is_found_by_its_name(Tool::CacheStatus);
}

/// What resizing the caches posts names each cache that the arguments give a number for, with that
/// number, whether the other one is given or not, and no cache that they give none for. It is
/// posted to the server that was configured, whose answer is the result. Where neither is given
/// nothing is posted.
pub proof fn law_demanded_caches_are_posted(args: Json, exchange: ExchangeModel, context: Context)
    requires
        unsigned_member(args, "moe"@) matches Some(moe) ==> moe <= u64::MAX,
        unsigned_member(args, "kv"@) matches Some(kv) ==> kv <= u64::MAX,
    ensures
        ({
            let moe = unsigned_member(args, "moe"@);
            let kv = unsigned_member(args, "kv"@);
            let begun = call_begins("freetoken_cache_resize"@, args, context);
            let url = context.base() + "/v1/cache/rebuild"@;
            let posted = begun.action->Post_body;
            &&& moe is Some || kv is Some ==> {
                &&& begun.action is Post
                &&& begun.action->Post_url == url
                &&& call_goes_on(
                    begun.state,
                    ToolEventModel::Exchanged { exchange },
                    context,
                ).action == (ToolActionModel::Finish { result: demand_result(url, exchange) })
            }
            &&& moe matches Some(moe) ==> contains(
                posted,
                "{\"moe\":"@ + decimal(moe) + (if kv is Some {
                    ","@
                } else {
                    "}"@
                }),
            )
            &&& kv matches Some(kv) ==> contains(
                posted,
                (if moe is Some {
                    ","@
                } else {
                    "{"@
                }) + "\"kv\":"@ + decimal(kv) + "}"@,
            )
            &&& moe is None && kv is Some ==> !contains(posted, "\"moe\":"@)
            &&& kv is None && moe is Some ==> !contains(posted, "\"kv\":"@)
            &&& moe is None && kv is None ==> begun.action is Finish && begun.action->result is Err
        }),
{
    law_tool_is_found_by_its_name(Tool::CacheResize);
    law_demand_names_its_numbers(demand_of(args));
    law_only_demanded_caches_are_sent(demand_of(args));
}

/// The measuring tool measures the formats that are asked for, in the managed environment, and
/// reports all that a measurement that succeeded printed, but for the white space around.
pub proof fn law_measurement_is_reported_whole(
    args: Json,
    outcome: OutcomeModel,
    before: Seq<char>,
    printed: Seq<char>,
    after: Seq<char>,
    context: Context,
)
    requires
        outcome.success,
        outcome.stdout == before + printed + after,
        forall|i: int| 0 <= i < before.len() ==> is_white(#[trigger] before[i]),
        forall|i: int| 0 <= i < after.len() ==> is_white(#[trigger] after[i]),
        printed.len() > 0 ==> !is_white(printed[0]) && !is_white(printed.last()),
    ensures
        ({
            let asked = text_member(args, "dtype"@);
            let begun = call_begins("freetoken_bench_bandwidth"@, args, context);
            let line = begun.action->command.args.last();
            let prefix = activation(context.host, context.runtime);
            let read = command_words(line.skip(prefix.len() as int));
            let ended = call_goes_on(
                begun.state,
                ToolEventModel::Ran { result: Ok(outcome) },
                context,
            );
            &&& begun.action is Run
            &&& begun.action->seconds == 3_600
            &&& begun.action->command == wrapped(context.runtime, line)
            &&& starts_with(line, prefix)
            &&& asked is Some && trim(asked->0).len() > 0 ==> read == Some(
                seq!["ft"@, "bench"@, "bw"@, "--dtype"@, asked->0],
            )
            &&& asked is None || trim(asked->0).len() == 0 ==> read == Some(
                seq!["ft"@, "bench"@, "bw"@],
            )
            &&& ended.action matches ToolActionModel::Finish { result }
            &&& result matches Ok(report)
            &&& member(report, "mesure"@) == Some(Json::Bool(true))
            &&& member(report, "sortie"@) == Some(Json::Text(printed))
            &&& member(report, "sortie"@) == Some(Json::Text(trim(outcome.stdout)))
            &&& member(report, "note"@) == Some(Json::Text(BENCH_NOTE@))
        }),
{
    law_tool_is_found_by_its_name(Tool::BenchBandwidth);
    law_trim_takes_off_white_space(before, printed, after);
    lemma_bench_members(outcome.stdout);
    lemma_measurement_is_read(text_member(args, "dtype"@), context);
}

/// The folder for a converted checkpoint has the name that is asked for. Without one it is named
/// after what follows the last separator of the checkpoint, of either kind.
pub proof fn law_folder_is_named_after_the_checkpoint(
    args: Json,
    before: Seq<char>,
    separator: char,
    last: Seq<char>,
)
    requires
        separator == '/' || separator == '\\',
        !last.contains('/'),
        !last.contains('\\'),
    ensures
        argument(args, "name"@) matches Some(name) ==> folder_name(args, before) == name,
        argument(args, "name"@) is None ==> {
            &&& folder_name(args, before + seq![separator] + last) == last + "-ftw"@
            &&& folder_name(args, last) == last + "-ftw"@
        },
{
    law_what_follows_the_last_is_kept(before, '/', last);
    law_what_follows_the_last_is_kept(before, '\\', last);
    if separator == '\\' {
        lemma_slash_before_backslash(before, last);
    }
}

/// What follows the last slash, and then the last backslash, of a text that ends in a backslash
/// and `last`.
proof fn lemma_slash_before_backslash(before: Seq<char>, last: Seq<char>)
    requires
        !last.contains('/'),
        !last.contains('\\'),
    ensures
        last_part(before + seq!['\\'] + last) == last,
{
    let tail = seq!['\\'] + last;
    let whole = before + seq!['\\'] + last;
    assert(whole =~= before + tail);
    assert(!tail.contains('/')) by {
        if tail.contains('/') {
            let i = choose|i: int| 0 <= i < tail.len() && tail[i] == '/';
            assert(i > 0 && last[i - 1] == '/');
        }
    }
    lemma_after_last_of_tail(before, tail, '/');
    let front = after_last(before, '/');
    assert(front + tail =~= front + seq!['\\'] + last);
    law_what_follows_the_last_is_kept(front, '\\', last);
}

/// What follows the last of a character in a text, and then all of a text without it.
proof fn lemma_after_last_of_tail(before: Seq<char>, tail: Seq<char>, c: char)
    requires
        !tail.contains(c),
    ensures
        after_last(before + tail, c) == after_last(before, c) + tail,
    decreases tail.len(),
{
    if tail.len() == 0 {
        assert(before + tail =~= before);
        assert(after_last(before, c) + tail =~= after_last(before, c));
    } else {
        let front = tail.drop_last();
        assert(tail.contains(tail.last()));
        assert(!front.contains(c)) by {
            if front.contains(c) {
                let i = choose|i: int| 0 <= i < front.len() && front[i] == c;
                assert(tail[i] == c);
            }
        }
        lemma_after_last_of_tail(before, front, c);
        assert((before + tail).drop_last() =~= before + front);
        assert((before + tail).last() == tail.last());
        assert((after_last(before, c) + front).push(tail.last()) =~= after_last(before, c) + tail);
    }
}

/// A folder is refused exactly where its name holds a separator of either kind or two dots in a
/// row or, under Windows, begins with a drive. Without a checkpoint nothing is converted.
pub proof fn law_folder_that_leads_elsewhere_is_refused(args: Json, context: Context)
    ensures
        ({
            let model = argument(args, "model"@);
            let name = folder_name(args, model->0);
            let plain = {
                &&& forall|i: int| 0 <= i < name.len() ==> #[trigger] name[i] != '/' && name[i] != '\\'
                &&& !contains(name, ".."@)
            };
            let on_drive = context.host.windows && name.len() >= 2 && name[1] == ':' && ('a'
                <= name[0] <= 'z' || 'A' <= name[0] <= 'Z');
            let begun = call_begins("freetoken_convert_checkpoint"@, args, context);
            &&& model is None ==> begun.action is Finish && begun.action->result is Err
            &&& model is Some && (!plain || on_drive) ==> begun.action is Finish
                && begun.action->result is Err
            &&& model is Some && plain && !on_drive ==> begun.action is Look
                || begun.action is CreateFolder
        }),
{
    law_tool_is_found_by_its_name(Tool::ConvertCheckpoint);
    let name = folder_name(args, argument(args, "model"@)->0);
    if forall|i: int| 0 <= i < name.len() ==> #[trigger] name[i] != '/' && name[i] != '\\' {
    } else {
        let i = choose|i: int|
            0 <= i < name.len() && !(#[trigger] name[i] != '/' && name[i] != '\\');
        assert(name.contains(name[i]));
    }
}

/// The user's library is looked in exactly where there is one and the model can be the name of a
/// checkpoint in it: one without separators and, under Windows, without a drive, other than the
/// names that stand for a folder itself and for the one around it. Else the model is converted as
/// it was named.
pub proof fn law_library_is_looked_in_for_names(model: Seq<char>, context: Context)
    ensures
        ({
            let windows = context.host.windows;
            let single = {
                &&& model != "."@ && model != ".."@
                &&& forall|i: int|
                    0 <= i < model.len() ==> #[trigger] model[i] != '/' && !(windows && model[i]
                        == '\\')
                &&& !(windows && model.len() >= 2 && model[1] == ':' && ('a' <= model[0] <= 'z' || 'A'
                    <= model[0] <= 'Z'))
            };
            &&& library_path(context, model) is Some <==> context.library is Some && single
            &&& context.library is Some && single ==> library_path(context, model) == Some(
                join(windows, context.library->0@, model),
            )
        }),
{
    let windows = context.host.windows;
    if is_component(windows, model) {
        assert forall|i: int| 0 <= i < model.len() implies #[trigger] model[i] != '/' && !(windows
            && model[i] == '\\') by {
            assert(!is_separator(windows, model[i]));
        }
    }
}

/// A model that is not looked for in the library is converted as the engine names it, into the
/// folder that is created first. The conversion runs in the managed environment.
pub proof fn law_model_is_converted_as_named(args: Json, context: Context)
    requires
        argument(args, "model"@) is Some,
        library_path(context, argument(args, "model"@)->0) is None,
        is_folder_name(context.host.windows, folder_name(args, argument(args, "model"@)->0)),
    ensures
        ({
            let model = argument(args, "model"@)->0;
            let folder = join(
                context.host.windows,
                context.host.in_data_dir("models"@),
                folder_name(args, model),
            );
            let begun = call_begins("freetoken_convert_checkpoint"@, args, context);
            let next = call_goes_on(begun.state, ToolEventModel::Created { result: Ok(()) }, context);
            let line = next.action->command.args.last();
            let prefix = activation(context.host, context.runtime);
            &&& begun.action == ToolActionModel::CreateFolder { path: folder }
            &&& next.action is Run
            &&& next.action->seconds == 21_600
            &&& next.action->command == wrapped(context.runtime, line)
            &&& starts_with(line, prefix)
            &&& command_words(line.skip(prefix.len() as int)) == Some(
                seq![
                    "ft"@,
                    "checkpoint"@,
                    "--model"@,
                    engine_model(model, context.runtime),
                    "--out"@,
                    engine_path(context.runtime, folder),
                ],
            )
        }),
{
    law_tool_is_found_by_its_name(Tool::ConvertCheckpoint);
    let model = argument(args, "model"@)->0;
    let folder = join(
        context.host.windows,
        context.host.in_data_dir("models"@),
        folder_name(args, model),
    );
    lemma_conversion_is_read(model, folder, context);
}

/// What converts a checkpoint is read, past the activation, as the words that are meant.
proof fn lemma_conversion_is_read(source: Seq<char>, folder: Seq<char>, context: Context)
    ensures
        ({
            let prefix = activation(context.host, context.runtime);
            let out = engine_path(context.runtime, folder);
            let named = engine_model(source, context.runtime);
            let line = prefix + convert_line(named, out);
            &&& wrapped(context.runtime, line).args.last() == line
            &&& starts_with(line, prefix)
            &&& command_words(line.skip(prefix.len() as int)) == Some(
                seq!["ft"@, "checkpoint"@, "--model"@, named, "--out"@, out],
            )
        }),
{
    let prefix = activation(context.host, context.runtime);
    let out = engine_path(context.runtime, folder);
    let named = engine_model(source, context.runtime);
    let line = prefix + convert_line(named, out);
    law_line_is_passed_whole(context.runtime, line);
    law_convert_line_is_read_as_meant(named, out);
    assert(line.skip(prefix.len() as int) =~= convert_line(named, out));
    assert(line.take(prefix.len() as int) =~= prefix);
}

/// A folder is named where the engine runs: under WSL by its path in the distribution, else by
/// the path that it has.
pub proof fn law_folder_is_named_where_the_engine_runs(path: Seq<char>, distro: Option<String>)
    ensures
        engine_path(Runtime::Native, path) == path,
        engine_path(Runtime::Wsl { distro }, path) == wsl_path(path),
{
}

/// A checkpoint that the library holds is converted from where the library holds it, and is
/// reported under the name that it was given. A conversion is reported with what it was asked for
/// and with the folder that was created for it.
pub proof fn law_conversion_is_reported(
    model: Seq<char>,
    path: Seq<char>,
    folder: Seq<char>,
    has_weights: bool,
    has_config: bool,
    outcome: OutcomeModel,
    context: Context,
)
    requires
        has_weights || has_config,
        outcome.success,
    ensures
        ({
            let found = call_goes_on(
                ToolStateModel::Locating { model, path, folder },
                ToolEventModel::Looked { is_dir: true, has_weights, has_config },
                context,
            );
            let run = call_goes_on(found.state, ToolEventModel::Created { result: Ok(()) }, context);
            let ended = call_goes_on(run.state, ToolEventModel::Ran { result: Ok(outcome) }, context);
            let line = run.action->command.args.last();
            let prefix = activation(context.host, context.runtime);
            &&& found.action == ToolActionModel::CreateFolder { path: folder }
            &&& run.action is Run
            &&& command_words(line.skip(prefix.len() as int)) == Some(
                seq![
                    "ft"@,
                    "checkpoint"@,
                    "--model"@,
                    engine_model(path, context.runtime),
                    "--out"@,
                    engine_path(context.runtime, folder),
                ],
            )
            &&& ended.action matches ToolActionModel::Finish { result }
            &&& result matches Ok(report)
            &&& member(report, "converti"@) == Some(Json::Bool(true))
            &&& member(report, "source"@) == Some(Json::Text(model))
            &&& member(report, "dossier"@) == Some(Json::Text(folder))
            &&& member(report, "note"@) == Some(Json::Text(CONVERT_NOTE@))
        }),
{
    lemma_conversion_is_read(path, folder, context);
    reveal_strlit("converti");
    reveal_strlit("source");
    reveal_strlit("dossier");
    reveal_strlit("note");
    assert("converti"@.len() == 8 && "source"@.len() == 6);
    assert("dossier"@.len() == 7 && "note"@.len() == 4);
}

/// The stopping tool stops the servers on the port that was configured, and reports that port and
/// the command that it ran, whether there was a server or not.
pub proof fn law_stop_is_reported(args: Json, outcome: OutcomeModel, context: Context)
    ensures
        ({
            let port = endpoint_port(context.endpoint.deep_view());
            let begun = call_begins("freetoken_stop_server"@, args, context);
            let ended = call_goes_on(
                begun.state,
                ToolEventModel::Ran { result: Ok(outcome) },
                context,
            );
            &&& begun.action == ToolActionModel::Run {
                command: wrapped(context.runtime, kill_line(port)),
                seconds: 60,
            }
            &&& ended.action matches ToolActionModel::Finish { result }
            &&& result matches Ok(report)
            &&& member(report, "arrete"@) == Some(Json::Bool(true))
            &&& member(report, "port"@) == Some(Json::Unsigned(port))
            &&& member(report, "commande"@) == Some(Json::Text(outcome.command))
        }),
{
    law_tool_is_found_by_its_name(Tool::StopServer);
    reveal_strlit("arrete");
    reveal_strlit("port");
    reveal_strlit("commande");
    assert("arrete"@.len() == 6 && "port"@.len() == 4 && "commande"@.len() == 8);
}

/// Where no URL was configured, or what follows its last colon is no port, the server is the one
/// on the default port.
pub proof fn law_default_port_is_stopped(before: Seq<char>, after: Seq<char>)
    requires
        !after.contains(':'),
        unsigned(strip_end(after, CharSet::Only('/')), 65_535) is None,
    ensures
        endpoint_port(None) == 1919,
        endpoint_port(Some(before + seq![':'] + after)) == 1919,
        endpoint_port(Some(after)) == 1919,
{
    law_what_follows_the_last_is_kept(before, ':', after);
}

/// What went wrong is handed on: why a command could not be run or a folder not be created, as it
/// was said, and of a command that failed what it was for, its code and what it printed. A name
/// that is that of no tool is said.
pub proof fn law_what_went_wrong_is_handed_on(
    state: ToolStateModel,
    model: Seq<char>,
    folder: Seq<char>,
    name: Seq<char>,
    args: Json,
    error: Seq<char>,
    outcome: OutcomeModel,
    context: Context,
)
    requires
        state is Probing || state is Installing || state is Benchmarking || state is Converting
            || state is Stopping,
        !outcome.success,
    ensures
        ({
            let unrun = call_goes_on(state, ToolEventModel::Ran { result: Err(error) }, context);
            let failed = call_goes_on(state, ToolEventModel::Ran { result: Ok(outcome) }, context);
            let creating = ToolStateModel::Creating { model, source: model, folder };
            let uncreated = call_goes_on(
                creating,
                ToolEventModel::Created { result: Err(error) },
                context,
            );
            let unknown = call_begins(name, args, context);
            &&& unrun.action == ToolActionModel::Finish { result: Err(error) }
            &&& uncreated.action == ToolActionModel::Finish { result: Err(error) }
            &&& state is Installing ==> failed.action == (ToolActionModel::Finish {
                result: Err(failure("installation"@, outcome)),
            })
            &&& state is Benchmarking ==> failed.action == (ToolActionModel::Finish {
                result: Err(failure("mesure"@, outcome)),
            })
            &&& state is Converting ==> failed.action == (ToolActionModel::Finish {
                result: Err(failure("conversion"@, outcome)),
            })
            &&& tool_named(name) is None ==> {
                &&& unknown.action matches ToolActionModel::Finish { result }
                &&& result matches Err(message)
                &&& message.len() >= name.len()
                &&& message.skip(message.len() - name.len()) == name
            }
        }),
{
    let message = "outil inconnu : "@ + name;
    assert(message.skip(message.len() - name.len()) =~= name);
}

/// What the measuring tool runs is read, past the activation, as the words that are meant.
proof fn lemma_measurement_is_read(asked: Option<Seq<char>>, context: Context)
    ensures
        ({
            let prefix = activation(context.host, context.runtime);
            let line = prefix + bench_line(asked);
            let read = command_words(line.skip(prefix.len() as int));
            &&& wrapped(context.runtime, line).args.last() == line
            &&& starts_with(line, prefix)
            &&& asked is Some && trim(asked->0).len() > 0 ==> read == Some(
                seq!["ft"@, "bench"@, "bw"@, "--dtype"@, asked->0],
            )
            &&& asked is None || trim(asked->0).len() == 0 ==> read == Some(
                seq!["ft"@, "bench"@, "bw"@],
            )
        }),
{
    let prefix = activation(context.host, context.runtime);
    let line = prefix + bench_line(asked);
    law_line_is_passed_whole(context.runtime, line);
    law_bench_line_is_read_as_meant(asked);
    assert(line.skip(prefix.len() as int) =~= bench_line(asked));
    assert(line.take(prefix.len() as int) =~= prefix);
    if asked is Some && trim(asked->0).len() > 0 {
        assert(seq!["ft"@, "bench"@, "bw"@] + seq!["--dtype"@, asked->0] =~= seq![
            "ft"@,
            "bench"@,
            "bw"@,
            "--dtype"@,
            asked->0,
        ]);
    } else {
        assert(seq!["ft"@, "bench"@, "bw"@] + Seq::<Seq<char>>::empty() =~= seq![
            "ft"@,
            "bench"@,
            "bw"@,
        ]);
    }
}

/// What the measuring tool reports, member by member.
proof fn lemma_bench_members(stdout: Seq<char>)
    ensures
        member(bench_report(stdout), "mesure"@) == Some(Json::Bool(true)),
        member(bench_report(stdout), "sortie"@) == Some(Json::Text(trim(stdout))),
        member(bench_report(stdout), "note"@) == Some(Json::Text(BENCH_NOTE@)),
{
    reveal_strlit("mesure");
    reveal_strlit("sortie");
    reveal_strlit("note");
    assert("mesure"@[0] == 'm' && "sortie"@[0] == 's' && "note"@[0] == 'n');
}

/// What states, actions and events stand for holds all that they hold, each thing in its place.
pub proof fn law_steps_are_held_whole(
    text: String,
    path: String,
    folder: String,
    value: Value,
    values: Vec<Value>,
    port: u16,
    exchange: Exchange,
    result: Result<Outcome, String>,
    answer: Result<Value, String>,
    request: RebuildRequest,
)
    ensures
        (ToolState::Installing { version: text })@ == (ToolStateModel::Installing { version: text@ }),
        (ToolState::Naming { health: value })@ == (ToolStateModel::Naming { health: json_of(value) }),
        (ToolState::Asking { url: text })@ == (ToolStateModel::Asking { url: text@ }),
        (ToolState::Demanding { url: text })@ == (ToolStateModel::Demanding { url: text@ }),
        (ToolState::Locating { model: text, path, folder })@ == (ToolStateModel::Locating {
            model: text@,
            path: path@,
            folder: folder@,
        }),
        (ToolState::Creating { model: text, source: path, folder })@ == (ToolStateModel::Creating {
            model: text@,
            source: path@,
            folder: folder@,
        }),
        (ToolState::Converting { model: text, folder })@ == (ToolStateModel::Converting {
            model: text@,
            folder: folder@,
        }),
        (ToolState::Stopping { port })@ == (ToolStateModel::Stopping { port: port as nat }),
        (ToolAction::Measure { kibibytes: Some(text) })@ == (ToolActionModel::Measure {
            kibibytes: Some(text@),
        }),
        (ToolAction::Look { path })@ == (ToolActionModel::Look { path: path@ }),
        (ToolAction::Get { url: text })@ == (ToolActionModel::Get { url: text@ }),
        (ToolAction::Post { request })@ == (ToolActionModel::Post {
            url: request.url@,
            body: request.body@,
        }),
        (ToolAction::CreateFolder { path })@ == (ToolActionModel::CreateFolder { path: path@ }),
        answer matches Ok(json) ==> (ToolAction::Finish { result: answer })@ == (
        ToolActionModel::Finish { result: Ok(json_of(json)) }),
        answer matches Err(message) ==> (ToolAction::Finish { result: answer })@ == (
        ToolActionModel::Finish { result: Err(message@) }),
        result matches Ok(outcome) ==> (ToolEvent::Ran { result })@ == (ToolEventModel::Ran {
            result: Ok(outcome@),
        }),
        result matches Err(message) ==> (ToolEvent::Ran { result })@ == (ToolEventModel::Ran {
            result: Err(message@),
        }),
        (ToolEvent::Measured { memory: value })@ == (ToolEventModel::Measured {
            memory: json_of(value),
        }),
        (ToolEvent::Weighed { sizes: values })@ matches ToolEventModel::Weighed { sizes }
            && sizes.len() == values@.len() && forall|i: int|
            0 <= i < sizes.len() ==> #[trigger] sizes[i] == json_of(values@[i]),
        (ToolEvent::Exchanged { exchange })@ == (ToolEventModel::Exchanged { exchange: exchange@ }),
        (ToolEvent::Created { result: Err(text) })@ == (ToolEventModel::Created {
            result: Err(text@),
        }),
        (ToolEvent::Created { result: Ok(()) })@ == (ToolEventModel::Created { result: Ok(()) }),
{
}

/// What else steps stand for holds all that they hold: what was found, whether it is a checkpoint,
/// what is listed and how large it is, and how long a command may take.
pub proof fn law_findings_are_held_whole(
    probe: Probe,
    memory: Value,
    models: Vec<ServableModel>,
    sizes: Vec<u64>,
    candidates: Vec<Candidate>,
    invocation: Invocation,
    seconds: u64,
    is_dir: bool,
    has_weights: bool,
    has_config: bool,
)
    ensures
        (ToolState::Measuring { probe })@ == (ToolStateModel::Measuring {
            report: probe.report(),
            missing: probe.missing.deep_view(),
        }),
        (ToolState::Greeting { probe, memory })@ == (ToolStateModel::Greeting {
            report: probe.report(),
            missing: probe.missing.deep_view(),
            memory: json_of(memory),
        }),
        (ToolState::Weighing { models })@ == (ToolStateModel::Weighing { models: models@ }),
        (ToolAction::Run { invocation, seconds })@ == (ToolActionModel::Run {
            command: invocation@,
            seconds: seconds as nat,
        }),
        (ToolAction::Weigh { sizes })@ == (ToolActionModel::Weigh { sizes: sizes@ }),
        (ToolEvent::Listed { candidates })@ == (ToolEventModel::Listed { candidates: candidates@ }),
        (ToolEvent::Looked { is_dir, has_weights, has_config })@ == (ToolEventModel::Looked {
            is_dir,
            has_weights,
            has_config,
        }),
{
}

} // verus!
