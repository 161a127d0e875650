//! What the machine offers to the engine, and what it lacks.

use crate::command::{PACKAGE, PINNED_VERSION};
use crate::text::{
    chars_of, contains, contains_text, decimal, find, find_char, is_digit,
    law_first_character_is_found, law_line_is_read, law_numeral_is_read_back,
    law_trim_takes_off_white_space, lemma_decimal, lemma_strip_ends, lemma_strip_nothing,
    line_texts, lines,
    parse_unsigned, same_text, string_between, strip_return, trim, trimmed, unsigned, CharSet,
};
use vstd::prelude::*;

verus! {

/// What the machine offers, and what it lacks.
#[derive(Debug, Clone, Default)]
pub struct Probe {
    /// `Linux x86_64`, as the distribution that was asked reports it.
    pub os: Option<String>,
    pub python: Option<String>,
    pub uv: Option<String>,
    /// The CUDA compiler, which the engine compiles its kernels with.
    pub nvcc: Option<String>,
    /// The version of the engine in the managed environment.
    pub engine_version: Option<String>,
    /// The version of the engine on the search path of the system.
    pub engine_on_path: Option<String>,
    pub driver_version: Option<String>,
    pub gpus: Vec<String>,
    /// The memory of the system in kibibytes, as the machine writes it.
    pub ram_kb: Option<String>,
    /// What keeps the engine from running, one sentence each.
    pub missing: Vec<String>,
}

/// What the machine reported.
#[verifier::ext_equal]
pub struct Report {
    pub os: Option<Seq<char>>,
    pub python: Option<Seq<char>>,
    pub uv: Option<Seq<char>>,
    pub nvcc: Option<Seq<char>>,
    pub engine_version: Option<Seq<char>>,
    pub engine_on_path: Option<Seq<char>>,
    pub driver_version: Option<Seq<char>>,
    pub gpus: Seq<Seq<char>>,
    pub ram_kb: Option<Seq<char>>,
}

impl Report {
    /// The version of the engine: that in the managed environment or, where there is none, that
    /// on the search path.
    pub open spec fn version(self) -> Option<Seq<char>> {
        match self.engine_version {
            Some(version) => Some(version),
            None => self.engine_on_path,
        }
    }
}

impl Probe {
    /// What the machine reported.
    pub open spec fn report(self) -> Report {
        Report {
            os: self.os.deep_view(),
            python: self.python.deep_view(),
            uv: self.uv.deep_view(),
            nvcc: self.nvcc.deep_view(),
            engine_version: self.engine_version.deep_view(),
            engine_on_path: self.engine_on_path.deep_view(),
            driver_version: self.driver_version.deep_view(),
            gpus: self.gpus.deep_view(),
            ram_kb: self.ram_kb.deep_view(),
        }
    }

    /// Whether nothing is missing.
    pub fn ready(&self) -> (ready: bool)
        ensures
            ready == (self.missing@.len() == 0),
    {
        self.missing.len() == 0
    }

    /// The version of the engine.
    pub fn version(&self) -> (version: Option<String>)
        ensures
            version.deep_view() == self.report().version(),
    {
        match &self.engine_version {
            Some(version) => Some(version.clone()),
            None => match &self.engine_on_path {
                Some(version) => Some(version.clone()),
                None => None,
            },
        }
    }
}

// ---------------------------------------------------------------------------
// Reading the report
// ---------------------------------------------------------------------------

/// The key and the value of a line `key=value`, both without the white space around them. A
/// line without a value, or with the value `-`, reports nothing.
pub open spec fn entry(line: Seq<char>) -> Option<(Seq<char>, Seq<char>)> {
    let equals = find(line, '=');
    let value = trim(line.skip(equals + 1));
    if equals >= line.len() || value.len() == 0 || value == "-"@ {
        None
    } else {
        Some((trim(line.take(equals)), value))
    }
}

/// The last value that `lines` report under `key`.
pub open spec fn reported(lines: Seq<Seq<char>>, key: Seq<char>) -> Option<Seq<char>>
    decreases lines.len(),
{
    if lines.len() == 0 {
        None
    } else {
        match entry(lines.last()) {
            Some((k, value)) => if k == key {
                Some(value)
            } else {
                reported(lines.drop_last(), key)
            },
            None => reported(lines.drop_last(), key),
        }
    }
}

/// The values that `lines` report under `key`, in their order.
pub open spec fn all_reported(lines: Seq<Seq<char>>, key: Seq<char>) -> Seq<Seq<char>>
    decreases lines.len(),
{
    if lines.len() == 0 {
        seq![]
    } else {
        let front = all_reported(lines.drop_last(), key);
        match entry(lines.last()) {
            Some((k, value)) => if k == key {
                front.push(value)
            } else {
                front
            },
            None => front,
        }
    }
}

/// What the output of the probe reports.
pub open spec fn report_of(output: Seq<char>) -> Report {
    let lines = lines(output);
    Report {
        os: reported(lines, "os"@),
        python: reported(lines, "python"@),
        uv: reported(lines, "uv"@),
        nvcc: reported(lines, "nvcc"@),
        engine_version: reported(lines, "ft_venv"@),
        engine_on_path: reported(lines, "ft_path"@),
        driver_version: reported(lines, "driver"@),
        gpus: all_reported(lines, "gpu"@),
        ram_kb: reported(lines, "ram_kb"@),
    }
}

/// What a line reports under `key`, if it reports anything under it.
fn entry_value(line: &str, key: &str) -> (value: Option<String>)
    ensures
        value.deep_view() == (match entry(line@) {
            Some((k, value)) => if k == key@ {
                Some(value)
            } else {
                None
            },
            None => None,
        }),
{
    let chars = chars_of(line);
    let equals = find_char(&chars, 0, '=');
    assert(chars@.skip(0) =~= chars@);
    if equals == chars.len() {
        return None;
    }
    assert(chars@.subrange(0, equals as int) =~= chars@.take(equals as int));
    assert(chars@.subrange(equals + 1, chars@.len() as int) =~= chars@.skip(equals + 1));
    let value = trimmed(string_between(&chars, equals + 1, chars.len()).as_str());
    if value.as_str().is_empty() || same_text(value.as_str(), "-") {
        return None;
    }
    let found = trimmed(string_between(&chars, 0, equals).as_str());
    if same_text(found.as_str(), key) {
        Some(value)
    } else {
        None
    }
}

/// The last value that `lines` report under `key`.
fn last_value(lines: &Vec<String>, key: &str) -> (value: Option<String>)
    ensures
        value.deep_view() == reported(lines.deep_view(), key@),
{
    let ghost texts = lines.deep_view();
    let mut i: usize = lines.len();
    assert(texts.take(i as int) =~= texts);
    while i > 0
        invariant
            i <= lines@.len(),
            texts == lines.deep_view(),
            reported(texts, key@) == reported(texts.take(i as int), key@),
        decreases i,
    {
        assert(texts.take(i as int).last() == texts[i - 1]);
        assert(texts.take(i as int).drop_last() =~= texts.take(i - 1));
        i -= 1;
        let value = entry_value(lines[i].as_str(), key);
        if value.is_some() {
            return value;
        }
    }
    None
}

/// The values that `lines` report under `key`, in their order.
fn all_values(lines: &Vec<String>, key: &str) -> (values: Vec<String>)
    ensures
        values.deep_view() == all_reported(lines.deep_view(), key@),
{
    let ghost texts = lines.deep_view();
    let mut values: Vec<String> = Vec::new();
    let mut i: usize = 0;
    assert(values.deep_view() =~= seq![]);
    while i < lines.len()
        invariant
            i <= lines@.len(),
            texts == lines.deep_view(),
            values.deep_view() == all_reported(texts.take(i as int), key@),
        decreases lines@.len() - i,
    {
        let ghost before = values.deep_view();
        if let Some(value) = entry_value(lines[i].as_str(), key) {
            values.push(value);
            assert(values.deep_view() =~= before.push(value@));
        }
        i += 1;
        assert(texts.take(i as int).last() == texts[i - 1]);
        assert(texts.take(i as int).drop_last() =~= texts.take(i - 1));
    }
    assert(texts.take(i as int) =~= texts);
    values
}

/// Reads the output of [`crate::command::probe_invocation`].
pub fn parse_probe(output: &str) -> (probe: Probe)
    ensures
        probe.report() == report_of(output@),
        probe.missing.deep_view() == lacking(report_of(output@)),
{
    let lines = line_texts(output);
    let mut probe = Probe {
        os: last_value(&lines, "os"),
        python: last_value(&lines, "python"),
        uv: last_value(&lines, "uv"),
        nvcc: last_value(&lines, "nvcc"),
        engine_version: last_value(&lines, "ft_venv"),
        engine_on_path: last_value(&lines, "ft_path"),
        driver_version: last_value(&lines, "driver"),
        gpus: all_values(&lines, "gpu"),
        ram_kb: last_value(&lines, "ram_kb"),
        missing: Vec::new(),
    };
    assert(probe.report() =~= report_of(output@));
    let missing = missing(&probe);
    probe.missing = missing;
    probe
}

// ---------------------------------------------------------------------------
// What is missing
// ---------------------------------------------------------------------------

/// `sentences`, with one more where something is missing.
pub open spec fn with_if(sentences: Seq<Seq<char>>, missing: bool, sentence: Seq<char>) -> Seq<
    Seq<char>,
> {
    if missing {
        sentences.push(sentence)
    } else {
        sentences
    }
}

/// What is said where no Linux system answers.
pub open spec fn no_system() -> Seq<char> {
    "Aucun système Linux joignable. Sous Windows, installez WSL2 (« wsl --install ») puis une distribution."@
}

/// What is said of a system that is not a Linux for x86_64.
pub open spec fn wrong_system(os: Seq<char>) -> Seq<char> {
    "Le moteur exige Linux x86_64 ; la distribution rapporte « "@ + os + " »."@
}

/// What is said where Python is missing.
pub open spec fn no_python() -> Seq<char> {
    "Python 3 absent de la distribution (« apt install python3-venv »)."@
}

/// What is said where no GPU is seen.
pub open spec fn no_gpu() -> Seq<char> {
    "Aucun GPU NVIDIA visible (« nvidia-smi » ne répond pas). Sous WSL2, le pilote s'installe côté Windows, pas dans la distribution."@
}

/// The oldest driver that the engine runs with, by the number before the first dot.
pub const LEAST_DRIVER: u32 = 580;

/// The driver is older than the engine needs: the number before the first dot of its version is
/// too small. Of a version that does not begin with a number nothing is known.
pub open spec fn is_old_driver(version: Seq<char>) -> bool {
    match unsigned(version.take(find(version, '.')), u32::MAX as nat) {
        Some(major) => major < LEAST_DRIVER,
        None => false,
    }
}

/// Whether the driver is older than the engine needs.
fn old_driver(version: &str) -> (old: bool)
    ensures
        old == is_old_driver(version@),
{
    let chars = chars_of(version);
    let dot = find_char(&chars, 0, '.');
    assert(chars@.skip(0) =~= chars@);
    assert(chars@.subrange(0, dot as int) =~= chars@.take(dot as int));
    match parse_unsigned(string_between(&chars, 0, dot).as_str(), u32::MAX) {
        Some(major) => major < LEAST_DRIVER,
        None => false,
    }
}

/// What is said of a driver that is too old.
pub open spec fn driver_too_old(version: Seq<char>) -> Seq<char> {
    "Le pilote NVIDIA « "@ + version
        + " » est trop ancien : le moteur exige r580 ou plus récent. Sous WSL2, le pilote s'installe côté Windows, pas dans la distribution."@
}

/// The engine runs on the system: a Linux for x86_64.
pub open spec fn is_supported_system(os: Seq<char>) -> bool {
    contains(os, "Linux"@) && contains(os, "x86_64"@)
}

/// What is said where the CUDA compiler is missing.
pub open spec fn no_compiler() -> Seq<char> {
    "Le compilateur CUDA « nvcc » est absent : le moteur compile ses noyaux au premier usage et en a besoin. Installez le toolkit CUDA 13."@
}

/// What is said where the engine is not installed.
pub open spec fn no_engine() -> Seq<char> {
    "Le moteur n'est pas installé. Lancez l'outil « freetoken_install » (il pose "@ + PACKAGE@
        + "[accel]=="@ + PINNED_VERSION@ + " dans un environnement dédié à l'extension)."@
}

/// What keeps the engine from running on a machine that reports `report`. Where no system
/// answers, nothing else can be said.
pub open spec fn lacking(report: Report) -> Seq<Seq<char>> {
    match report.os {
        None => seq![no_system()],
        Some(os) => {
            let s1 = with_if(seq![], !is_supported_system(os), wrong_system(os));
            let s2 = with_if(s1, report.python is None, no_python());
            let s3 = with_if(s2, report.driver_version is None || report.gpus.len() == 0, no_gpu());
            let s4 = match report.driver_version {
                Some(version) => with_if(s3, is_old_driver(version), driver_too_old(version)),
                None => s3,
            };
            let s5 = with_if(s4, report.nvcc is None, no_compiler());
            with_if(
                s5,
                report.engine_version is None && report.engine_on_path is None,
                no_engine(),
            )
        },
    }
}

/// Appends a sentence where something is missing.
fn push_if(sentences: &mut Vec<String>, missing: bool, sentence: String)
    ensures
        final(sentences).deep_view() == with_if(old(sentences).deep_view(), missing, sentence@),
{
    if missing {
        sentences.push(sentence);
        assert(sentences.deep_view() =~= old(sentences).deep_view().push(sentence@));
    }
}

/// What is missing, one sentence for each, with the command that mends it.
pub fn missing(probe: &Probe) -> (sentences: Vec<String>)
    ensures
        sentences.deep_view() == lacking(probe.report()),
{
    let mut sentences: Vec<String> = Vec::new();
    assert(sentences.deep_view() =~= seq![]);
    match &probe.os {
        None => {
            sentences.push(
                "Aucun système Linux joignable. Sous Windows, installez WSL2 (« wsl --install ») puis une distribution.".to_string(),
            );
            assert(sentences.deep_view() =~= seq![no_system()]);
        },
        Some(os) => {
            let mut wrong = "Le moteur exige Linux x86_64 ; la distribution rapporte « ".to_string();
            wrong.append(os.as_str());
            wrong.append(" ».");
            let supported: bool = contains_text(os.as_str(), "Linux")
                && contains_text(os.as_str(), "x86_64");
            push_if(&mut sentences, !supported, wrong);
            push_if(
                &mut sentences,
                probe.python.is_none(),
                "Python 3 absent de la distribution (« apt install python3-venv »).".to_string(),
            );
            push_if(
                &mut sentences,
                probe.driver_version.is_none() || probe.gpus.len() == 0,
                "Aucun GPU NVIDIA visible (« nvidia-smi » ne répond pas). Sous WSL2, le pilote s'installe côté Windows, pas dans la distribution.".to_string(),
            );
            if let Some(version) = &probe.driver_version {
                let mut old = "Le pilote NVIDIA « ".to_string();
                old.append(version.as_str());
                old.append(
                    " » est trop ancien : le moteur exige r580 ou plus récent. Sous WSL2, le pilote s'installe côté Windows, pas dans la distribution.",
                );
                push_if(&mut sentences, old_driver(version.as_str()), old);
            }
            push_if(
                &mut sentences,
                probe.nvcc.is_none(),
                "Le compilateur CUDA « nvcc » est absent : le moteur compile ses noyaux au premier usage et en a besoin. Installez le toolkit CUDA 13.".to_string(),
            );
            let mut engine =
                "Le moteur n'est pas installé. Lancez l'outil « freetoken_install » (il pose ".to_string();
            engine.append(PACKAGE);
            engine.append("[accel]==");
            engine.append(PINNED_VERSION);
            engine.append(" dans un environnement dédié à l'extension).");
            push_if(
                &mut sentences,
                probe.engine_version.is_none() && probe.engine_on_path.is_none(),
                engine,
            );
        },
    }
    sentences
}

// ---------------------------------------------------------------------------
// Laws
// ---------------------------------------------------------------------------

/// Nothing is missing exactly where a Linux system for x86_64 answers that has Python, a driver
/// that is not too old, a card, the compiler and the engine, be it managed or not.
pub proof fn law_ready_means_all_is_there(report: Report)
    ensures
        lacking(report).len() == 0 <==> {
            &&& report.os is Some
            &&& contains(report.os->0, "Linux"@)
            &&& contains(report.os->0, "x86_64"@)
            &&& report.python is Some
            &&& report.driver_version is Some
            &&& !is_old_driver(report.driver_version->0)
            &&& report.gpus.len() > 0
            &&& report.nvcc is Some
            &&& report.engine_version is Some || report.engine_on_path is Some
        },
{
}

/// Whatever is missing on a system that answers is named.
pub proof fn law_what_is_missing_is_named(report: Report)
    requires
        report.os is Some,
    ensures
        !contains(report.os->0, "Linux"@) || !contains(report.os->0, "x86_64"@) ==> lacking(
            report,
        ).contains(wrong_system(report.os->0)),
        report.python is None ==> lacking(report).contains(no_python()),
        report.driver_version is None || report.gpus.len() == 0 ==> lacking(report).contains(
            no_gpu(),
        ),
        report.driver_version matches Some(version) ==> (is_old_driver(version) ==> lacking(
            report,
        ).contains(driver_too_old(version))),
        report.nvcc is None ==> lacking(report).contains(no_compiler()),
        report.engine_version is None && report.engine_on_path is None ==> lacking(report).contains(
            no_engine(),
        ),
{
    let os = report.os->0;
    let s1 = with_if(seq![], !is_supported_system(os), wrong_system(os));
    let s2 = with_if(s1, report.python is None, no_python());
    let s3 = with_if(s2, report.driver_version is None || report.gpus.len() == 0, no_gpu());
    let s4 = match report.driver_version {
        Some(version) => with_if(s3, is_old_driver(version), driver_too_old(version)),
        None => s3,
    };
    let s5 = with_if(s4, report.nvcc is None, no_compiler());
    let unmanaged = report.engine_version is None && report.engine_on_path is None;
    lemma_with_if(seq![], !is_supported_system(os), wrong_system(os));
    lemma_with_if(s1, report.python is None, no_python());
    lemma_with_if(s2, report.driver_version is None || report.gpus.len() == 0, no_gpu());
    if let Some(version) = report.driver_version {
        lemma_with_if(s3, is_old_driver(version), driver_too_old(version));
    }
    lemma_with_if(s4, report.nvcc is None, no_compiler());
    lemma_with_if(s5, unmanaged, no_engine());
}

/// A sentence that was said stays said.
proof fn lemma_with_if(sentences: Seq<Seq<char>>, missing: bool, sentence: Seq<char>)
    ensures
        missing ==> with_if(sentences, missing, sentence).contains(sentence),
        forall|s: Seq<char>| #[trigger]
            sentences.contains(s) ==> with_if(sentences, missing, sentence).contains(s),
{
    let more = with_if(sentences, missing, sentence);
    if missing {
        assert(more[sentences.len() as int] == sentence);
    }
    assert forall|s: Seq<char>| #[trigger] sentences.contains(s) implies more.contains(s) by {
        let i = choose|i: int| 0 <= i < sentences.len() && sentences[i] == s;
        assert(more[i] == s);
    }
}

/// Where no system answers, that is all that is said, whatever else is reported.
pub proof fn law_silence_is_one_sentence(report: Report)
    requires
        report.os is None,
    ensures
        lacking(report) == seq![no_system()],
{
}

/// The lines of a text that ends in a line break, and of what follows it.
pub proof fn lemma_lines_joined(a: Seq<char>, b: Seq<char>)
    requires
        a.len() == 0 || a.last() == '\n',
    ensures
        lines(a + b) == lines(a) + lines(b),
    decreases a.len(),
{
    if a.len() == 0 {
        assert(a + b =~= b);
        assert(lines(a) + lines(b) =~= lines(b));
    } else {
        lemma_find(a, '\n');
        lemma_find(a + b, '\n');
        let end = find(a, '\n');
        assert(a[a.len() - 1] == '\n');
        assert(end < a.len());
        assert((a + b)[end] == '\n');
        assert(find(a + b, '\n') == end);
        assert((a + b).take(end) =~= a.take(end));
        assert((a + b).skip(end + 1) =~= a.skip(end + 1) + b);
        let rest = a.skip(end + 1);
        assert(rest.len() > 0 ==> rest.last() == a.last());
        lemma_lines_joined(rest, b);
        assert(lines(a + b) =~= lines(a) + lines(b));
    }
}

/// What [`find`] finds.
proof fn lemma_find(s: Seq<char>, c: char)
    ensures
        0 <= find(s, c) <= s.len(),
        find(s, c) < s.len() ==> s[find(s, c)] == c,
        forall|i: int| 0 <= i < find(s, c) ==> s[i] != c,
    decreases s.len(),
{
    if s.len() > 0 && s[0] != c {
        lemma_find(s.skip(1), c);
        assert forall|i: int| 0 <= i < find(s, c) implies s[i] != c by {
            if i > 0 {
                assert(s[i] == s.skip(1)[i - 1]);
            }
        }
    }
}

/// A value that is printed after its key, on a line of its own, is the one that is read under
/// that key, whatever was printed before.
pub proof fn law_printed_value_is_read(before: Seq<char>, key: Seq<char>, value: Seq<char>)
    requires
        before.len() == 0 || before.last() == '\n',
        trim(key) == key,
        !key.contains('='),
        !key.contains('\n'),
        trim(value) == value,
        value.len() > 0,
        value != "-"@,
        !value.contains('\n'),
    ensures
        reported(lines(before + (key + seq!['='] + value + seq!['\n'])), key) == Some(value),
{
    let body = key + seq!['='] + value;
    let line = body + seq!['\n'];
    lemma_lines_joined(before, line);
    lemma_find(line, '\n');
    assert forall|i: int| 0 <= i < body.len() implies body[i] != '\n' by {
        if i < key.len() {
            assert(key.contains(key[i]));
        } else if i > key.len() {
            assert(value.contains(value[i - key.len() - 1]));
        }
    }
    assert(line[body.len() as int] == '\n');
    assert(find(line, '\n') == body.len());
    assert(line.take(body.len() as int) =~= body);
    assert(line.skip(body.len() as int + 1) =~= seq![]);
    reveal_with_fuel(lines, 2);
    lemma_strip_ends(value, CharSet::White);
    assert(body.last() == value.last());
    assert(strip_return(body) == body);
    assert(lines(line) =~= seq![body]);
    let all = lines(before + line);
    assert(all.last() == body);
    lemma_find(body, '=');
    assert(body[key.len() as int] == '=');
    assert forall|i: int| 0 <= i < key.len() implies body[i] != '=' by {
        assert(key.contains(key[i]));
    }
    assert(find(body, '=') == key.len());
    assert(body.take(key.len() as int) =~= key);
    assert(body.skip(key.len() as int + 1) =~= value);
}

/// Spaces alone.
pub open spec fn is_spaces(text: Seq<char>) -> bool {
    forall|i: int| 0 <= i < text.len() ==> #[trigger] text[i] == ' '
}

/// What a line `key=value` is read as, with spaces around either.
proof fn lemma_entry(
    a: Seq<char>,
    key: Seq<char>,
    b: Seq<char>,
    c: Seq<char>,
    value: Seq<char>,
    d: Seq<char>,
)
    requires
        is_spaces(a) && is_spaces(b) && is_spaces(c) && is_spaces(d),
        trim(key) == key,
        !key.contains('='),
        trim(value) == value,
        value.len() > 0,
        value != "-"@,
    ensures
        entry((a + key + b) + seq!['='] + (c + value + d)) == Some((key, value)),
{
    let left = a + key + b;
    let right = c + value + d;
    let line = left + seq!['='] + right;
    assert(!left.contains('=')) by {
        if left.contains('=') {
            let i = choose|i: int| 0 <= i < left.len() && left[i] == '=';
            if i < a.len() {
                assert(left[i] == a[i]);
            } else if i < a.len() + key.len() {
                assert(left[i] == key[i - a.len()]);
            } else {
                assert(left[i] == b[i - a.len() - key.len()]);
            }
        }
    }
    law_first_character_is_found(left, '=', right);
    assert(line.take(left.len() as int) =~= left);
    assert(line.skip(left.len() as int + 1) =~= right);
    lemma_strip_ends(key, CharSet::White);
    lemma_strip_ends(value, CharSet::White);
    law_trim_takes_off_white_space(a, key, b);
    law_trim_takes_off_white_space(c, value, d);
}

/// A line that ends in a line break is the last line of what was printed.
proof fn lemma_last_line(before: Seq<char>, line: Seq<char>)
    requires
        before.len() == 0 || before.last() == '\n',
        !line.contains('\n'),
        line.len() == 0 || line.last() != '\r',
    ensures
        lines(before + (line + seq!['\n'])) == lines(before).push(line),
{
    lemma_lines_joined(before, line + seq!['\n']);
    law_line_is_read(line, seq![]);
    assert(line + seq!['\n'] + seq![] =~= line + seq!['\n']);
    assert(lines(before) + (seq![line] + lines(Seq::<char>::empty())) =~= lines(before).push(line));
}

/// What one more line reports under a key.
proof fn lemma_one_more_line(lines: Seq<Seq<char>>, line: Seq<char>, key: Seq<char>)
    ensures
        reported(lines.push(line), key) == (match entry(line) {
            Some((k, value)) => if k == key {
                Some(value)
            } else {
                reported(lines, key)
            },
            None => reported(lines, key),
        }),
        all_reported(lines.push(line), key) == (match entry(line) {
            Some((k, value)) => if k == key {
                all_reported(lines, key).push(value)
            } else {
                all_reported(lines, key)
            },
            None => all_reported(lines, key),
        }),
{
    assert(lines.push(line).drop_last() =~= lines);
    assert(lines.push(line).last() == line);
}

/// One more line, for every key.
proof fn lemma_report_of_one_more_line(lines: Seq<Seq<char>>, line: Seq<char>)
    ensures
        forall|key: Seq<char>| #[trigger]
            reported(lines.push(line), key) == (match entry(line) {
                Some((k, value)) => if k == key {
                    Some(value)
                } else {
                    reported(lines, key)
                },
                None => reported(lines, key),
            }),
        forall|key: Seq<char>| #[trigger]
            all_reported(lines.push(line), key) == (match entry(line) {
                Some((k, value)) => if k == key {
                    all_reported(lines, key).push(value)
                } else {
                    all_reported(lines, key)
                },
                None => all_reported(lines, key),
            }),
{
    assert forall|key: Seq<char>| #[trigger]
        reported(lines.push(line), key) == (match entry(line) {
            Some((k, value)) => if k == key {
                Some(value)
            } else {
                reported(lines, key)
            },
            None => reported(lines, key),
        }) by {
        lemma_one_more_line(lines, line, key);
    }
    assert forall|key: Seq<char>| #[trigger]
        all_reported(lines.push(line), key) == (match entry(line) {
            Some((k, value)) => if k == key {
                all_reported(lines, key).push(value)
            } else {
                all_reported(lines, key)
            },
            None => all_reported(lines, key),
        }) by {
        lemma_one_more_line(lines, line, key);
    }
}

/// A value that is printed on a line of its own, after its key and an equals sign, is read whole,
/// whatever was printed before and whatever spaces stand around: it is what the machine reports
/// under that key, in place of what it reported before, and nothing else changes. A card is one
/// more card.
pub proof fn law_printed_line_is_read_whole(
    before: Seq<char>,
    a: Seq<char>,
    key: Seq<char>,
    b: Seq<char>,
    c: Seq<char>,
    value: Seq<char>,
    d: Seq<char>,
)
    requires
        before.len() == 0 || before.last() == '\n',
        is_spaces(a) && is_spaces(b) && is_spaces(c) && is_spaces(d),
        trim(key) == key,
        !key.contains('=') && !key.contains('\n'),
        trim(value) == value,
        value.len() > 0,
        value != "-"@,
        !value.contains('\n'),
    ensures
        ({
            let line = (a + key + b) + seq!['='] + (c + value + d);
            let old_report = report_of(before);
            let new_report = report_of(before + (line + seq!['\n']));
            &&& new_report.os == (if key == "os"@ { Some(value) } else { old_report.os })
            &&& new_report.python == (if key == "python"@ { Some(value) } else { old_report.python })
            &&& new_report.uv == (if key == "uv"@ { Some(value) } else { old_report.uv })
            &&& new_report.nvcc == (if key == "nvcc"@ { Some(value) } else { old_report.nvcc })
            &&& new_report.engine_version == (if key == "ft_venv"@ {
                Some(value)
            } else {
                old_report.engine_version
            })
            &&& new_report.engine_on_path == (if key == "ft_path"@ {
                Some(value)
            } else {
                old_report.engine_on_path
            })
            &&& new_report.driver_version == (if key == "driver"@ {
                Some(value)
            } else {
                old_report.driver_version
            })
            &&& new_report.gpus == (if key == "gpu"@ {
                old_report.gpus.push(value)
            } else {
                old_report.gpus
            })
            &&& new_report.ram_kb == (if key == "ram_kb"@ { Some(value) } else { old_report.ram_kb })
        }),
{
    let line = (a + key + b) + seq!['='] + (c + value + d);
    lemma_entry(a, key, b, c, value, d);
    assert(!line.contains('\n')) by {
        if line.contains('\n') {
            let i = choose|i: int| 0 <= i < line.len() && line[i] == '\n';
            let k0 = a.len() as int;
            let k1 = k0 + key.len();
            let k2 = k1 + b.len();
            let k3 = k2 + 1 + c.len();
            let k4 = k3 + value.len();
            if i < k0 {
                assert(line[i] == a[i]);
            } else if i < k1 {
                assert(line[i] == key[i - k0]);
            } else if i < k2 {
                assert(line[i] == b[i - k1]);
            } else if i == k2 {
                assert(line[i] == '=');
            } else if i < k3 {
                assert(line[i] == c[i - k2 - 1]);
            } else if i < k4 {
                assert(line[i] == value[i - k3]);
            } else {
                assert(line[i] == d[i - k4]);
            }
        }
    }
    lemma_strip_ends(value, CharSet::White);
    assert(line.last() == (if d.len() > 0 {
        d[d.len() - 1]
    } else {
        value.last()
    }));
    lemma_last_line(before, line);
    lemma_report_of_one_more_line(lines(before), line);
}

/// A card that is printed on a line of its own is read whole: its number, its name, its memory.
pub proof fn law_printed_card_is_read_whole(before: Seq<char>, value: Seq<char>)
    requires
        before.len() == 0 || before.last() == '\n',
        trim(value) == value,
        value.len() > 0,
        value != "-"@,
        !value.contains('\n'),
    ensures
        report_of(before + ("gpu="@ + value + "\n"@)).gpus == report_of(before).gpus.push(value),
{
    reveal_strlit("gpu");
    reveal_strlit("gpu=");
    reveal_strlit("\n");
    let none = Seq::<char>::empty();
    let key = "gpu"@;
    assert(key[0] == 'g' && key[2] == 'u');
    lemma_strip_nothing(key, CharSet::White);
    assert(none + key + none =~= key);
    assert(none + value + none =~= value);
    law_printed_line_is_read_whole(before, none, key, none, none, value, none);
    assert("gpu="@ + value + "\n"@ =~= (none + key + none) + seq!['='] + (none + value + none)
        + seq!['\n']);
}

/// A line without an equals sign reports nothing, and neither does one whose value is blank or a
/// dash alone. The last line needs no line break.
pub proof fn law_line_without_a_value_reports_nothing(
    before: Seq<char>,
    line: Seq<char>,
    key: Seq<char>,
    value: Seq<char>,
)
    requires
        before.len() == 0 || before.last() == '\n',
        !line.contains('\n'),
        line.len() > 0,
        line.last() != '\r',
        !key.contains('='),
        !line.contains('=') || (line == key + seq!['='] + value && (trim(value).len() == 0 || trim(
            value,
        ) == "-"@)),
    ensures
        report_of(before + (line + seq!['\n'])) == report_of(before),
{
    lemma_last_line(before, line);
    if line.contains('=') {
        law_first_character_is_found(key, '=', value);
        assert(line.skip(key.len() as int + 1) =~= value);
    } else {
        law_first_character_is_found(line, '=', seq![]);
    }
    assert(entry(line) is None);
    lemma_report_of_one_more_line(lines(before), line);
}

/// What is printed last is read with or without a line break after it.
pub proof fn law_last_line_needs_no_break(before: Seq<char>, line: Seq<char>)
    requires
        before.len() == 0 || before.last() == '\n',
        !line.contains('\n'),
        line.len() > 0,
        line.last() != '\r',
    ensures
        report_of(before + line) == report_of(before + (line + seq!['\n'])),
{
    lemma_last_line(before, line);
    lemma_lines_joined(before, line);
    law_line_is_read(line, seq![]);
    assert(lines(before) + seq![line] =~= lines(before).push(line));
}

/// A driver is too old exactly where its version begins with a number below 580.
pub proof fn law_driver_is_old_below_r580(n: nat, rest: Seq<char>)
    requires
        n <= u32::MAX,
        rest.len() == 0 || rest[0] == '.',
    ensures
        is_old_driver(decimal(n) + rest) <==> n < 580,
{
    let digits = decimal(n);
    lemma_decimal(n);
    assert(!digits.contains('.')) by {
        if digits.contains('.') {
            let i = choose|i: int| 0 <= i < digits.len() && digits[i] == '.';
            assert(is_digit(digits[i]));
        }
    }
    law_numeral_is_read_back(n, u32::MAX as nat);
    let version = digits + rest;
    if rest.len() == 0 {
        assert(version =~= digits);
        law_first_character_is_found(digits, '.', seq![]);
        assert(version.take(digits.len() as int) =~= digits);
    } else {
        assert(version =~= digits + seq!['.'] + rest.skip(1));
        law_first_character_is_found(digits, '.', rest.skip(1));
        assert(version.take(digits.len() as int) =~= digits);
    }
}

/// On a system that answers, there is one sentence for each thing that is missing, and no other.
pub proof fn law_nothing_else_is_said(report: Report)
    requires
        report.os is Some,
    ensures
        lacking(report).len() == (if contains(report.os->0, "Linux"@) && contains(
            report.os->0,
            "x86_64"@,
        ) {
            0int
        } else {
            1
        }) + (if report.python is Some {
            0int
        } else {
            1
        }) + (if report.driver_version is Some && report.gpus.len() > 0 {
            0int
        } else {
            1
        }) + (if report.driver_version is Some && is_old_driver(report.driver_version->0) {
            1int
        } else {
            0
        }) + (if report.nvcc is Some {
            0int
        } else {
            1
        }) + (if report.engine_version is Some || report.engine_on_path is Some {
            0int
        } else {
            1
        }),
{
}

/// What is said of a wrong system or driver names what the machine reported, and the version of
/// the engine is that of the managed environment before that on the search path.
pub proof fn law_what_was_reported_is_named(report: Report, text: Seq<char>)
    ensures
        contains(wrong_system(text), "« "@ + text + " »"@),
        contains(driver_too_old(text), "« "@ + text + " »"@),
        report.engine_version is Some ==> report.version() == report.engine_version,
        report.engine_version is None ==> report.version() == report.engine_on_path,
{
    reveal_strlit("« ");
    reveal_strlit(" »");
    reveal_strlit(" ».");
    reveal_strlit("Le moteur exige Linux x86_64 ; la distribution rapporte « ");
    reveal_strlit("Le moteur exige Linux x86_64 ; la distribution rapporte ");
    reveal_strlit("Le pilote NVIDIA « ");
    reveal_strlit("Le pilote NVIDIA ");
    reveal_strlit(
        " » est trop ancien : le moteur exige r580 ou plus récent. Sous WSL2, le pilote s'installe côté Windows, pas dans la distribution.",
    );
    let part = "« "@ + text + " »"@;
    let system = wrong_system(text);
    let at: int = "Le moteur exige Linux x86_64 ; la distribution rapporte "@.len() as int;
    assert(system.subrange(at, at + part.len()) =~= part);
    let driver = driver_too_old(text);
    let from: int = "Le pilote NVIDIA "@.len() as int;
    assert(driver.subrange(from, from + part.len()) =~= part);
}

/// What a probe stands for holds all that the machine reported, each thing under its own name.
pub proof fn law_probe_is_held_whole(probe: Probe)
    ensures
        probe.report().os == probe.os.deep_view(),
        probe.report().python == probe.python.deep_view(),
        probe.report().uv == probe.uv.deep_view(),
        probe.report().nvcc == probe.nvcc.deep_view(),
        probe.report().engine_version == probe.engine_version.deep_view(),
        probe.report().engine_on_path == probe.engine_on_path.deep_view(),
        probe.report().driver_version == probe.driver_version.deep_view(),
        probe.report().gpus == probe.gpus.deep_view(),
        probe.report().ram_kb == probe.ram_kb.deep_view(),
{
}

/// Of a driver whose version does not begin with a number nothing is held against it.
pub proof fn law_unknown_driver_is_not_old(before: Seq<char>, after: Seq<char>)
    requires
        !before.contains('.'),
        unsigned(before, u32::MAX as nat) is None,
    ensures
        !is_old_driver(before),
        !is_old_driver(before + seq!['.'] + after),
{
    law_first_character_is_found(before, '.', after);
    assert(before.take(before.len() as int) =~= before);
    assert((before + seq!['.'] + after).take(before.len() as int) =~= before);
}

} // verus!
