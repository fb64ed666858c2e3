use donttouch::config::config_text_with_patterns;
use donttouch::config::default_config_text;
use donttouch::config::default_enabled;
use donttouch::config::enabled_line_string;
use donttouch::config::enabled_line_test;
use donttouch::config::protect_header_test;
use donttouch::config::set_enabled_text;

const DEFAULT_DOC: &str = "# donttouch configuration\n# Protect files from being modified by AI coding agents and accidental changes.\n\n[protect]\nenabled = true\npatterns = []\n";

#[test]
fn enabled_defaults_to_true() {
    assert!(default_enabled());
}

#[test]
fn default_document_text() {
    assert_eq!(default_config_text(), DEFAULT_DOC);
}

#[test]
fn document_with_patterns_text() {
    let patterns = vec![".env".to_string(), "secrets/**".to_string()];
    let doc = config_text_with_patterns(&patterns);
    let expected = "# donttouch configuration\n# Protect files from being modified by AI coding agents and accidental changes.\n\n[protect]\nenabled = true\npatterns = [\n    \".env\",\n    \"secrets/**\",\n]\n";
    assert_eq!(doc, expected);
}

#[test]
fn enabled_line_detection() {
    assert!(enabled_line_test("enabled = true"));
    assert!(enabled_line_test("  enabled=false"));
    assert!(!enabled_line_test("# enabled = true"));
    assert!(!enabled_line_test("enabled"));
    assert!(protect_header_test("[protect]"));
    assert!(protect_header_test("  [protect]  "));
    assert!(!protect_header_test("[protect] # section"));
}

#[test]
fn enabled_line_text_values() {
    assert_eq!(enabled_line_string(true), "enabled = true");
    assert_eq!(enabled_line_string(false), "enabled = false");
}

#[test]
fn set_enabled_rewrites_only_the_flag_line() {
    let doc = "# my comment\n[protect]\nenabled = true\npatterns = [\n    \".env\",\n]\n";
    let off = set_enabled_text(doc, false);
    assert_eq!(off, "# my comment\n[protect]\nenabled = false\npatterns = [\n    \".env\",\n]\n");
}

#[test]
fn disable_then_enable_restores_document() {
    let doc = "# my comment\n[protect]\nenabled = true\npatterns = [\n    \".env\",\n]\n";
    let off = set_enabled_text(doc, false);
    let back = set_enabled_text(off.as_str(), true);
    assert_eq!(back, doc);
}

#[test]
fn set_enabled_inserts_after_section_header_when_key_missing() {
    let doc = "[protect]\npatterns = []\n";
    let off = set_enabled_text(doc, false);
    assert_eq!(off, "[protect]\nenabled = false\npatterns = []\n");
}

#[test]
fn set_enabled_without_header_or_key_leaves_lines_unchanged() {
    let doc = "patterns = []\n";
    let off = set_enabled_text(doc, false);
    assert_eq!(off, "patterns = []\n");
}
