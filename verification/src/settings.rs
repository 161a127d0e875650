//! The settings of the extension, as the settings screen saves them.

use crate::json::{
    as_str, display, display_text, empty_object, get, json_of, json_parsed, member, parse_value,
    Json,
};
use crate::text::{
    chars_of, decimal, is_digit, is_white, law_numeral_is_read_back,
    law_strip_takes_off_one_character, law_trim_takes_off_white_space, lemma_decimal,
    lemma_strip_ends, lemma_strip_nothing, parse_unsigned, replace, replaced, same_text, strip, strip_chars,
    string_of, trim, unsigned, word_texts, words, CharSet,
};
use serde_json::Value;
use vstd::prelude::*;

verus! {

/// A share of the free video memory, an IEEE 754 number of 32 bits.
#[derive(Debug, Clone)]
pub struct MemoryRatio {
    /// The bits of the number.
    pub bits: u32,
    /// The shortest decimal text that reads back as the number.
    pub text: String,
}

/// The bits of the number nearest to 0.1.
pub const LEAST_RATIO_BITS: u32 = 0x3dcc_cccd;

/// The bits of the number nearest to 0.95.
pub const GREATEST_RATIO_BITS: u32 = 0x3f73_3333;

impl MemoryRatio {
    /// The share is between 0.1 and 0.95. The bits of two numbers that are not negative are
    /// ordered as the numbers are; those of a negative number and of what is no number lie
    /// above those of any number in between.
    pub open spec fn usable(self) -> bool {
        LEAST_RATIO_BITS <= self.bits <= GREATEST_RATIO_BITS
    }

    /// The text is a decimal numeral, as the text of a number between 0 and 1 is.
    pub open spec fn is_decimal(self) -> bool {
        self.text@.len() > 0 && forall|i: int|
            0 <= i < self.text@.len() ==> is_digit(#[trigger] self.text@[i]) || self.text@[i] == '.'
    }

    /// Whether the engine would accept the share.
    pub fn is_usable(&self) -> (usable: bool)
        ensures
            usable == self.usable(),
    {
        LEAST_RATIO_BITS <= self.bits && self.bits <= GREATEST_RATIO_BITS
    }
}

/// The settings of the extension.
#[derive(Debug, Clone)]
pub struct Settings {
    /// How the experts are spread, unless the engine is left to choose.
    pub moe_backend: Option<String>,
    pub memory_ratio: Option<MemoryRatio>,
    pub max_output_tokens: Option<u32>,
    pub gpu: Option<String>,
    pub wsl_distro: Option<String>,
    pub extra_args: Vec<String>,
}

/// What settings hold.
#[verifier::ext_equal]
pub struct SettingsModel {
    pub moe_backend: Option<Seq<char>>,
    pub memory_ratio: Option<MemoryRatio>,
    pub max_output_tokens: Option<nat>,
    pub gpu: Option<Seq<char>>,
    pub wsl_distro: Option<Seq<char>>,
    pub extra_args: Seq<Seq<char>>,
}

impl View for Settings {
    type V = SettingsModel;

    open spec fn view(&self) -> SettingsModel {
        SettingsModel {
            moe_backend: self.moe_backend.deep_view(),
            memory_ratio: self.memory_ratio,
            max_output_tokens: match self.max_output_tokens {
                Some(max) => Some(max as nat),
                None => None,
            },
            gpu: self.gpu.deep_view(),
            wsl_distro: self.wsl_distro.deep_view(),
            extra_args: self.extra_args.deep_view(),
        }
    }
}

/// The settings of a first launch: nothing is set.
pub open spec fn no_settings() -> SettingsModel {
    SettingsModel {
        moe_backend: None,
        memory_ratio: None,
        max_output_tokens: None,
        gpu: None,
        wsl_distro: None,
        extra_args: seq![],
    }
}

/// The text without the white space and then the quotation marks around it, where something is
/// left of it.
pub open spec fn bare(text: Seq<char>) -> Option<Seq<char>> {
    let text = strip(trim(text), CharSet::Only('"'));
    if text.len() == 0 {
        None
    } else {
        Some(text)
    }
}

/// The text of the setting `key`: of a string its content, of any other value its JSON, bare. An
/// empty text sets nothing.
pub open spec fn setting(json: Json, key: Seq<char>) -> Option<Seq<char>> {
    match member(json, key) {
        Some(value) => bare(
            match value {
                Json::Text(text) => text,
                _ => display(value),
            },
        ),
        None => None,
    }
}

/// The text that is read as the memory ratio: a comma may stand for the decimal point.
pub open spec fn ratio_setting(json: Json) -> Option<Seq<char>> {
    match setting(json, "memory_ratio"@) {
        Some(text) => Some(replace(text, ',', "."@)),
        None => None,
    }
}

/// The settings that a settings file holds, with the number that its memory ratio was read as:
/// a file that holds no memory ratio sets none.
pub open spec fn settings_of(json: Json, ratio: Option<MemoryRatio>) -> SettingsModel {
    SettingsModel {
        moe_backend: match setting(json, "moe_backend"@) {
            Some(backend) => if backend == "auto"@ {
                None
            } else {
                Some(backend)
            },
            None => None,
        },
        memory_ratio: if ratio_setting(json) is Some {
            ratio
        } else {
            None
        },
        max_output_tokens: match setting(json, "max_output_tokens"@) {
            Some(max) => unsigned(max, u32::MAX as nat),
            None => None,
        },
        gpu: setting(json, "gpu"@),
        wsl_distro: setting(json, "wsl_distro"@),
        extra_args: match setting(json, "extra_args"@) {
            Some(args) => words(args),
            None => seq![],
        },
    }
}

/// The text without the white space and then the quotation marks around it, where something is
/// left of it.
pub fn bare_text(text: &str) -> (result: Option<String>)
    ensures
        result.deep_view() == bare(text@),
{
    let stripped = strip_chars(
        &strip_chars(&chars_of(text), CharSet::White),
        CharSet::Only('"'),
    );
    if stripped.len() == 0 {
        None
    } else {
        Some(string_of(&stripped))
    }
}

/// The text of the setting `key` of `value`.
pub fn setting_text(value: &Value, key: &str) -> (result: Option<String>)
    ensures
        result.deep_view() == setting(json_of(*value), key@),
{
    match get(value, key) {
        Some(found) => match as_str(found) {
            Some(text) => bare_text(text),
            None => bare_text(display_text(found).as_str()),
        },
        None => None,
    }
}

impl Default for Settings {
    fn default() -> (settings: Settings)
        ensures
            settings@ == no_settings(),
    {
        let settings = Settings {
            moe_backend: None,
            memory_ratio: None,
            max_output_tokens: None,
            gpu: None,
            wsl_distro: None,
            extra_args: Vec::new(),
        };
        assert(settings@ =~= no_settings());
        settings
    }
}

impl Settings {
    /// Whether the text of a settings file can be read. One that cannot is passed over with a
    /// warning.
    pub fn is_readable(config: &str) -> (readable: bool)
        ensures
            readable == json_parsed(config@) is Ok,
    {
        parse_value(config).is_ok()
    }

    /// The text, in the settings file, that is to be read as the memory ratio.
    pub fn ratio_text(config: Option<&str>) -> (text: Option<String>)
        ensures
            text.deep_view() == (match config {
                Some(config) => match json_parsed(config@) {
                    Ok(json) => ratio_setting(json),
                    Err(_) => None,
                },
                None => None,
            }),
    {
        match config {
            Some(config) => match parse_value(config) {
                Ok(value) => match setting_text(&value, "memory_ratio") {
                    Some(text) => Some(replaced(text.as_str(), ',', ".")),
                    None => None,
                },
                Err(_) => None,
            },
            None => None,
        }
    }

    /// Reads the settings from the text of the settings file, if there is one. A missing or
    /// unreadable file is no error, it is the first launch: nothing is set. Each setting may be
    /// written as a text, which is what the form writes, or as the value that it stands for.
    ///
    /// `ratio` is the number that the text of [`Settings::ratio_text`] is read as, if it is.
    pub fn load(config: Option<&str>, ratio: Option<MemoryRatio>) -> (settings: Settings)
        ensures
            settings@ == (match config {
                Some(config) => match json_parsed(config@) {
                    Ok(json) => settings_of(json, ratio),
                    Err(_) => no_settings(),
                },
                None => no_settings(),
            }),
    {
        match config {
            Some(config) => match parse_value(config) {
                Ok(value) => Settings::from_value(&value, ratio),
                Err(_) => Settings::default(),
            },
            None => Settings::default(),
        }
    }

    /// The settings that a settings file holds, with the number that its memory ratio is read
    /// as.
    pub fn from_value(value: &Value, ratio: Option<MemoryRatio>) -> (settings: Settings)
        ensures
            settings@ == settings_of(json_of(*value), ratio),
    {
        let settings = Settings {
            moe_backend: match setting_text(value, "moe_backend") {
                Some(backend) => if same_text(backend.as_str(), "auto") {
                    None
                } else {
                    Some(backend)
                },
                None => None,
            },
            memory_ratio: match setting_text(value, "memory_ratio") {
                Some(_) => ratio,
                None => None,
            },
            max_output_tokens: match setting_text(value, "max_output_tokens") {
                Some(max) => parse_unsigned(max.as_str(), u32::MAX),
                None => None,
            },
            gpu: setting_text(value, "gpu"),
            wsl_distro: setting_text(value, "wsl_distro"),
            extra_args: match setting_text(value, "extra_args") {
                Some(args) => word_texts(args.as_str()),
                None => Vec::new(),
            },
        };
        assert(settings@ =~= settings_of(json_of(*value), ratio));
        settings
    }
}

// ---------------------------------------------------------------------------
// Laws
// ---------------------------------------------------------------------------

/// A number is read alike whether the file holds it as a number or as a text.
pub proof fn law_number_is_read_from_text_too(a: Json, b: Json, key: Seq<char>, n: nat)
    requires
        member(a, key) == Some(Json::Unsigned(n)),
        member(b, key) == Some(Json::Text(decimal(n))),
    ensures
        setting(a, key) == setting(b, key),
        setting(a, key) == Some(decimal(n)),
{
    lemma_decimal(n);
    assert(is_digit(decimal(n)[0]));
    assert(is_digit(decimal(n).last()));
    lemma_strip_nothing(decimal(n), CharSet::White);
    lemma_strip_nothing(decimal(n), CharSet::Only('"'));
}

/// A number of output tokens that fits is the one that the file holds, as a number or as a text.
pub proof fn law_output_tokens_are_read(json: Json, ratio: Option<MemoryRatio>, n: nat)
    requires
        n <= u32::MAX,
        member(json, "max_output_tokens"@) == Some(Json::Unsigned(n)) || member(
            json,
            "max_output_tokens"@,
        ) == Some(Json::Text(decimal(n))),
    ensures
        settings_of(json, ratio).max_output_tokens == Some(n),
{
    let number = empty_object().with("max_output_tokens"@, Json::Unsigned(n));
    let text = empty_object().with("max_output_tokens"@, Json::Text(decimal(n)));
    if member(json, "max_output_tokens"@) == Some(Json::Unsigned(n)) {
        law_number_is_read_from_text_too(json, text, "max_output_tokens"@, n);
    } else {
        law_number_is_read_from_text_too(number, json, "max_output_tokens"@, n);
    }
    law_numeral_is_read_back(n, u32::MAX as nat);
}

/// `auto` leaves the choice to the engine, as the absence of the setting does.
pub proof fn law_auto_sets_no_backend(json: Json, ratio: Option<MemoryRatio>)
    requires
        member(json, "moe_backend"@) is None || setting(json, "moe_backend"@) == Some("auto"@),
    ensures
        settings_of(json, ratio).moe_backend is None,
{
}

/// No setting is an empty text, and none begins or ends with a quotation mark.
pub proof fn law_settings_are_bare(json: Json, key: Seq<char>)
    requires
        setting(json, key) is Some,
    ensures
        setting(json, key)->0.len() > 0,
        setting(json, key)->0[0] != '"',
        setting(json, key)->0.last() != '"',
{
    let value = member(json, key)->0;
    let text = trim(
        match value {
            Json::Text(text) => text,
            _ => display(value),
        },
    );
    lemma_strip_ends(text, CharSet::Only('"'));
}

/// A memory ratio is set only where the file holds one.
pub proof fn law_absent_ratio_sets_none(json: Json, ratio: Option<MemoryRatio>)
    requires
        member(json, "memory_ratio"@) is None,
    ensures
        settings_of(json, ratio).memory_ratio is None,
{
}

/// What is no object sets nothing.
pub proof fn law_no_object_sets_nothing(json: Json, ratio: Option<MemoryRatio>)
    requires
        !(json is Object),
    ensures
        settings_of(json, ratio) == no_settings(),
        ratio_setting(json) is None,
{
}

/// A text setting is its content, whatever white space and, within it, quotation marks stand
/// around it.
pub proof fn law_text_is_taken_out(
    json: Json,
    key: Seq<char>,
    before: Seq<char>,
    opening: Seq<char>,
    content: Seq<char>,
    closing: Seq<char>,
    after: Seq<char>,
)
    requires
        member(json, key) == Some(Json::Text(before + (opening + content + closing) + after)),
        forall|i: int| 0 <= i < before.len() ==> is_white(#[trigger] before[i]),
        forall|i: int| 0 <= i < after.len() ==> is_white(#[trigger] after[i]),
        forall|i: int| 0 <= i < opening.len() ==> #[trigger] opening[i] == '"',
        forall|i: int| 0 <= i < closing.len() ==> #[trigger] closing[i] == '"',
        content.len() > 0,
        content[0] != '"' && content.last() != '"',
        !is_white(content[0]) && !is_white(content.last()),
    ensures
        setting(json, key) == Some(content),
{
    let middle = opening + content + closing;
    assert(middle[0] == (if opening.len() > 0 {
        opening[0]
    } else {
        content[0]
    }));
    assert(middle.last() == (if closing.len() > 0 {
        closing[closing.len() - 1]
    } else {
        content.last()
    }));
    law_trim_takes_off_white_space(before, middle, after);
    law_strip_takes_off_one_character(opening, content, closing, '"');
}

/// A value that is no text is the setting that its JSON is written as.
pub proof fn law_value_is_taken_as_written(json: Json, key: Seq<char>, value: Json)
    requires
        member(json, key) == Some(value),
        !(value is Text),
        display(value).len() > 0,
        display(value)[0] != '"' && display(value).last() != '"',
        !is_white(display(value)[0]) && !is_white(display(value).last()),
    ensures
        setting(json, key) == Some(display(value)),
{
    lemma_strip_nothing(display(value), CharSet::White);
    lemma_strip_nothing(display(value), CharSet::Only('"'));
}

/// Each setting is read from the member of its own name, and none from another.
pub proof fn law_settings_have_their_names(json: Json, ratio: Option<MemoryRatio>)
    ensures
        ({
            let settings = settings_of(json, ratio);
            &&& settings.gpu == setting(json, "gpu"@)
            &&& settings.wsl_distro == setting(json, "wsl_distro"@)
            &&& setting(json, "moe_backend"@) != Some("auto"@) ==> settings.moe_backend == setting(
                json,
                "moe_backend"@,
            )
            &&& setting(json, "extra_args"@) matches Some(args) ==> settings.extra_args == words(args)
            &&& setting(json, "extra_args"@) is None ==> settings.extra_args.len() == 0
            &&& setting(json, "memory_ratio"@) is Some ==> settings.memory_ratio == ratio
            &&& setting(json, "max_output_tokens"@) matches Some(max) ==> settings.max_output_tokens
                == unsigned(max, 0xffff_ffff)
            &&& setting(json, "max_output_tokens"@) is None ==> settings.max_output_tokens is None
        }),
{
}

/// The text that is read as the memory ratio is that of the setting, with a point in place of each
/// comma and every other character as it was.
pub proof fn law_comma_is_read_as_a_point(json: Json, text: Seq<char>)
    requires
        setting(json, "memory_ratio"@) == Some(text),
    ensures
        ratio_setting(json) matches Some(read) && read.len() == text.len() && forall|i: int|
            0 <= i < text.len() ==> #[trigger] read[i] == (if text[i] == ',' {
                '.'
            } else {
                text[i]
            }),
{
    lemma_comma(text);
}

/// What replacing commas by points gives.
proof fn lemma_comma(text: Seq<char>)
    ensures
        ({
            let read = replace(text, ',', "."@);
            read.len() == text.len() && forall|i: int|
                0 <= i < text.len() ==> #[trigger] read[i] == (if text[i] == ',' {
                    '.'
                } else {
                    text[i]
                })
        }),
    decreases text.len(),
{
    reveal_strlit(".");
    if text.len() > 0 {
        lemma_comma(text.drop_last());
        let front = replace(text.drop_last(), ',', "."@);
        let read = replace(text, ',', "."@);
        assert forall|i: int| 0 <= i < text.len() implies #[trigger] read[i] == (if text[i] == ',' {
            '.'
        } else {
            text[i]
        }) by {
            if i < text.len() - 1 {
                assert(read[i] == front[i]);
                assert(text.drop_last()[i] == text[i]);
            }
        }
    }
}

/// What settings stand for holds each of them.
pub proof fn law_settings_are_held_whole(settings: Settings)
    ensures
        settings@.moe_backend == settings.moe_backend.deep_view(),
        settings@.memory_ratio == settings.memory_ratio,
        settings.max_output_tokens matches Some(max) ==> settings@.max_output_tokens == Some(
            max as nat,
        ),
        settings.max_output_tokens is None ==> settings@.max_output_tokens is None,
        settings@.gpu == settings.gpu.deep_view(),
        settings@.wsl_distro == settings.wsl_distro.deep_view(),
        settings@.extra_args == settings.extra_args.deep_view(),
{
}

} // verus!
