use homeboy::docs::{normalize_topic, resolve};

#[test]
fn topics_normalize_to_slash_keys() {
    let (label, key) = normalize_topic(&vec!["Project Set".to_string()]);
    assert_eq!(label, "Project Set");
    assert_eq!(key, "project-set");
    let (label2, key2) = normalize_topic(&vec!["commands/Deploy".to_string(), "Remote".to_string()]);
    assert_eq!(label2, "commands/Deploy Remote");
    assert_eq!(key2, "commands/deploy/remote");
}

#[test]
fn empty_topics_fall_back_to_the_index() {
    let (label, key) = normalize_topic(&Vec::new());
    assert_eq!(label, "index");
    assert_eq!(key, "index");
    let (label2, key2) = normalize_topic(&vec!["///".to_string()]);
    assert_eq!(label2, "unknown");
    assert_eq!(key2, "index");
}

#[test]
fn resolve_finds_content_by_key() {
    let docs = vec![
        ("index".to_string(), "welcome".to_string()),
        ("deploy".to_string(), "how to deploy".to_string()),
    ];
    let (label, content) = resolve(&vec!["Deploy".to_string()], &docs);
    assert_eq!(label, "Deploy");
    assert_eq!(content, "how to deploy");
    let (_, missing) = resolve(&vec!["ghost".to_string()], &docs);
    assert_eq!(missing, "");
}

#[test]
fn changelog_and_init_pages_come_from_the_table() {
    let docs = vec![
        ("changelog".to_string(), "log text".to_string()),
        ("commands/homeboy-init".to_string(), "init guide".to_string()),
    ];
    let (out, code) = homeboy::cli::docs_cmd::run(&docs).unwrap();
    assert_eq!(out.content, "log text");
    assert_eq!(code, 0);
    let (md, code2) = homeboy::cli::docs_cmd::run_markdown(&docs).unwrap();
    assert_eq!(md, "init guide");
    assert_eq!(code2, 0);
    assert!(homeboy::cli::docs_cmd::run(&Vec::new()).is_err());
}
