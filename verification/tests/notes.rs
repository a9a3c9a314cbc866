use homeboy::changelog::extract_latest_notes;

#[test]
fn notes_are_the_text_between_the_first_two_version_headings() {
    let log = "# Changelog\n\n## [1.2.0] - 2024-05-01\n- added things\n- fixed things\n\n## [1.1.0] - 2024-04-01\n- older entry\n";
    assert_eq!(
        extract_latest_notes(log),
        Some("- added things\n- fixed things".to_string())
    );
}

#[test]
fn notes_stop_at_the_next_heading_of_any_kind() {
    let log = "## v2.0.0\nbig rewrite\n## Unreleased\nnot these\n";
    assert_eq!(extract_latest_notes(log), Some("big rewrite".to_string()));
}

#[test]
fn a_changelog_without_version_headings_has_no_notes() {
    let log = "# Changelog\n\n## Unreleased\n- pending\n";
    assert_eq!(extract_latest_notes(log), None);
}

#[test]
fn an_empty_section_counts_as_no_notes() {
    let log = "## [3.0.0]\n\n   \n## [2.9.9]\n- old\n";
    assert_eq!(extract_latest_notes(log), None);
}

#[test]
fn headings_without_version_tokens_before_the_release_are_ignored() {
    let log = "## Notes\nintro\n## 0.9.1 (beta)\nline one\nline two\n";
    assert_eq!(extract_latest_notes(log), Some("line one\nline two".to_string()));
}
