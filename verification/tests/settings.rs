use locaryn_plugin_freetoken::runtime::Runtime;
use locaryn_plugin_freetoken::settings::{bare_text, setting_text, MemoryRatio, Settings};
use locaryn_plugin_freetoken::text::is_white_space;

fn value(text: &str) -> serde_json::Value {
    serde_json::from_str(text).unwrap()
}

#[test]
fn settings_are_read_from_texts() {
    let config = r#"{"moe_backend":" \"hybrid\" ","memory_ratio":"0,8","max_output_tokens":"4096",
        "gpu":"1","wsl_distro":"Ubuntu","extra_args":"--a  b\t--c"}"#;
    assert!(Settings::is_readable(config));
    assert_eq!(Settings::ratio_text(Some(config)).as_deref(), Some("0.8"));
    let ratio = MemoryRatio { bits: 0.8f32.to_bits(), text: "0.8".to_string() };
    let settings = Settings::load(Some(config), Some(ratio));
    assert_eq!(settings.moe_backend.as_deref(), Some("hybrid"));
    assert_eq!(settings.memory_ratio.as_ref().map(|r| r.bits), Some(0.8f32.to_bits()));
    assert_eq!(settings.max_output_tokens, Some(4096));
    assert_eq!(settings.gpu.as_deref(), Some("1"));
    assert_eq!(settings.wsl_distro.as_deref(), Some("Ubuntu"));
    assert_eq!(settings.extra_args, vec!["--a", "b", "--c"]);
    assert_eq!(
        Runtime::detect(&settings, true),
        Runtime::Wsl { distro: Some("Ubuntu".to_string()) }
    );
    assert_eq!(Runtime::detect(&settings, false), Runtime::Native);
}

#[test]
fn settings_are_read_from_values_too() {
    let config = r#"{"moe_backend":"auto","memory_ratio":0.8,"max_output_tokens":4096,"gpu":1}"#;
    assert_eq!(Settings::ratio_text(Some(config)).as_deref(), Some("0.8"));
    let settings = Settings::load(Some(config), None);
    assert_eq!(settings.moe_backend, None);
    assert!(settings.memory_ratio.is_none());
    assert_eq!(settings.max_output_tokens, Some(4096));
    assert_eq!(settings.gpu.as_deref(), Some("1"));
    assert!(settings.extra_args.is_empty());
}

#[test]
fn a_missing_or_unreadable_file_sets_nothing() {
    assert!(!Settings::is_readable("{"));
    for config in [None, Some("{"), Some("[1]"), Some("{}"), Some(r#"{"gpu":"  "}"#)] {
        let ratio = MemoryRatio { bits: 0.8f32.to_bits(), text: "0.8".to_string() };
        let settings = Settings::load(config, Some(ratio));
        assert!(settings.moe_backend.is_none());
        assert!(settings.memory_ratio.is_none());
        assert!(settings.max_output_tokens.is_none());
        assert!(settings.gpu.is_none());
        assert!(settings.wsl_distro.is_none());
        assert!(settings.extra_args.is_empty());
        assert_eq!(Settings::ratio_text(config), None);
    }
}

#[test]
fn what_is_no_number_of_tokens_is_passed_over() {
    for (text, read) in [
        ("\"+7\"", Some(7)),
        ("4294967295", Some(u32::MAX)),
        ("4294967296", None),
        ("-1", None),
        ("1.5", None),
        ("\"12a\"", None),
        ("\"0012\"", Some(12)),
    ] {
        let config = format!("{{\"max_output_tokens\":{text}}}");
        assert_eq!(Settings::load(Some(&config), None).max_output_tokens, read, "{text}");
    }
}

#[test]
fn the_text_of_a_setting_is_that_of_its_json() {
    for text in ["null", "true", "false", "12", "-12", "1.5", "[1,\"a\"]", "{\"a\":null}"] {
        let config = format!("{{\"key\":{text}}}");
        assert_eq!(setting_text(&value(&config), "key").as_deref(), Some(text));
    }
    assert_eq!(setting_text(&value(r#"{"key":"\"\""}"#), "key"), None);
    assert_eq!(setting_text(&value(r#"{"key":1}"#), "other"), None);
}

#[test]
fn white_space_is_that_of_unicode() {
    for c in '\0'..=char::MAX {
        assert_eq!(is_white_space(c), c.is_whitespace(), "{:?}", c);
    }
}

#[test]
fn a_setting_is_bare() {
    assert_eq!(bare_text(" \"a b\" \n").as_deref(), Some("a b"));
    assert_eq!(bare_text("\" a\"").as_deref(), Some(" a"));
    assert_eq!(bare_text("\"\"\""), None);
    assert_eq!(bare_text("  "), None);
}
