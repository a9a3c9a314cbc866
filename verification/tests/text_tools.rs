use homeboy::shell::{cd_and, escape_shell_single_quoted, escape_single_quotes, quote_path};
use homeboy::token::{
    cmp_case_insensitive, identifier_eq, normalize_doc_segment, normalize_identifier,
};

#[test]
fn cd_and_wraps_command() {
    assert_eq!(
        cd_and("/var/www", "wp option get blogname").unwrap(),
        "cd '/var/www' && wp option get blogname"
    );
}

#[test]
fn cd_and_escapes_single_quotes() {
    assert_eq!(
        cd_and("/var/www/it's", "echo ok").unwrap(),
        "cd '/var/www/it'\\''s' && echo ok"
    );
}

#[test]
fn normalize_identifier_trims_and_lowercases() {
    assert_eq!(normalize_identifier("  HeLLo  "), "hello");
}

#[test]
fn identifier_eq_is_case_insensitive_and_trims() {
    assert!(identifier_eq("  My-Site ", "my-site"));
}

#[test]
fn normalize_doc_segment_replaces_spaces_and_tabs_with_dashes() {
    assert_eq!(normalize_doc_segment("  My Topic\tName "), "my-topic-name");
}

#[test]
fn cmp_case_insensitive_sorts_without_caring_about_case() {
    let mut values = vec!["b", "A", "c"];
    values.sort_by(|a, b| cmp_case_insensitive(a, b));
    assert_eq!(values, vec!["A", "b", "c"]);
}

#[test]
fn cd_and_rejects_empty_parts() {
    assert!(cd_and("   ", "echo hi").is_err());
    assert!(cd_and("/tmp", "  ").is_err());
}

#[test]
fn quote_path_escapes_embedded_quotes() {
    assert_eq!(quote_path("a'b"), "'a'\\''b'");
    assert_eq!(quote_path("plain"), "'plain'");
}

#[test]
fn escape_helpers_rewrite_quotes() {
    assert_eq!(escape_shell_single_quoted("say \"hi\""), "say \\\"hi\\\"");
    assert_eq!(escape_single_quotes("a\"b"), "a\\\\\"b");
}
