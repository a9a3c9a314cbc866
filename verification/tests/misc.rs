use homeboy::cli::deploy_run::resolve_argument_order;
use homeboy::cli::version_cmd::BumpType;
use homeboy::deploy::{deploy_artifact, deploy_tarball, deploy_zip, is_tarball, DeployMethod, DeployResult};
use homeboy::files::{
    join_remote_path, parse_find_output, parse_grep_output, parse_ls_output,
};
use homeboy::module_config::DiscoveryConfig;
use homeboy::server::{create_from_cli, slugify_id, update, Server};
use homeboy::version::{default_pattern_for_file, parse_component_version, parse_version};
use homeboy::{exit_code_to_u8, release_steps::parse_release_artifacts, release_steps::ArtifactEntry};

#[test]
fn slugs_lowercase_collapse_and_strip() {
    assert_eq!(slugify_id("  My Cool  Server! ").unwrap(), "my-cool-server");
    assert_eq!(slugify_id("Alpha_Beta-9").unwrap(), "alpha-beta-9");
    assert!(slugify_id("   ").is_err());
    assert!(slugify_id("!!!").is_err());
}

#[test]
fn server_identity_helpers() {
    let s = Server {
        id: "web-1".to_string(),
        name: "Web 1".to_string(),
        host: "example.com".to_string(),
        user: "deploy".to_string(),
        port: 22,
        identity_file: None,
    };
    assert!(s.is_valid());
    assert_eq!(s.keychain_service_name("homeboy"), "homeboy.web-1");
    assert_eq!(Server::generate_id("a.b.c"), "server-a-b-c");
}

#[test]
fn create_from_cli_validates_and_slugs() {
    let existing = vec!["other".to_string()];
    let r = create_from_cli(
        Some("My Server".to_string()),
        Some("h".to_string()),
        Some("u".to_string()),
        None,
        &existing,
    )
    .unwrap();
    assert_eq!(r.id, "my-server");
    assert_eq!(r.server.port, 22);
    assert!(create_from_cli(None, Some("h".to_string()), Some("u".to_string()), None, &existing)
        .is_err());
    let taken = vec!["my-server".to_string()];
    assert!(create_from_cli(
        Some("My Server".to_string()),
        Some("h".to_string()),
        Some("u".to_string()),
        None,
        &taken
    )
    .is_err());
}

#[test]
fn update_rejects_an_id_changing_rename() {
    let s = Server {
        id: "web-1".to_string(),
        name: "Web 1".to_string(),
        host: "example.com".to_string(),
        user: "deploy".to_string(),
        port: 22,
        identity_file: None,
    };
    let u = update(s.clone(), None, Some("new.host".to_string()), None, Some(2222)).unwrap();
    assert_eq!(u.server.host, "new.host");
    assert_eq!(u.server.port, 2222);
    assert_eq!(u.updated_fields, vec!["host".to_string(), "port".to_string()]);
    assert!(update(s, Some("Another Name".to_string()), None, None, None).is_err());
}

#[test]
fn version_patterns_follow_the_extension() {
    assert!(default_pattern_for_file("Cargo.toml").contains("version"));
    assert!(default_pattern_for_file("package.json").contains("\"version\""));
    assert!(default_pattern_for_file("plugin.php").starts_with("Version:"));
    assert_eq!(default_pattern_for_file("notes.txt"), "(\\d+\\.\\d+\\.\\d+)");
}

#[test]
fn regex_capture_reads_versions_out_of_content() {
    assert_eq!(
        parse_version("Version: 4.5.6", "Version:\\s*(\\d+\\.\\d+\\.\\d+)"),
        Some("4.5.6".to_string())
    );
    assert_eq!(parse_version("nothing here", "Version:\\s*(\\d+\\.\\d+\\.\\d+)"), None);
    assert_eq!(
        parse_component_version("Version: 7.8.9", None),
        Some("7.8.9".to_string())
    );
    assert_eq!(
        parse_component_version("v = 1.0.2", Some("v = (\\\\d+\\.\\\\d+\\.\\\\d+)")),
        Some("1.0.2".to_string())
    );
}

#[test]
fn deploy_method_follows_the_artifact_shape() {
    assert_eq!(deploy_artifact("dist", true), DeployMethod::Directory);
    assert_eq!(deploy_artifact("app.zip", false), DeployMethod::Zip);
    assert_eq!(deploy_artifact("app.tar.gz", false), DeployMethod::TarGz);
    assert_eq!(deploy_artifact("app.tbz2", false), DeployMethod::TarBz2);
    assert_eq!(deploy_artifact("app.tar", false), DeployMethod::Tar);
    assert_eq!(deploy_artifact("app.bin", false), DeployMethod::File);
    assert!(is_tarball("a.tgz", &vec![".tar.gz", ".tgz"]));
    assert!(!is_tarball("a.zip", &vec![".tar.gz", ".tgz"]));
}

#[test]
fn archive_plans_quote_and_stage() {
    let plan = deploy_zip("/var/www/app", "build.zip");
    assert_eq!(plan.mkdir_command, "mkdir -p '/var/www/app'");
    assert_eq!(plan.upload_path, "/var/www/app/.homeboy-build.zip");
    assert_eq!(
        plan.extract_command,
        "cd '/var/www/app' && unzip -o '.homeboy-build.zip' && rm '.homeboy-build.zip'"
    );
    let tar = deploy_tarball("/srv", "b.tar.gz", "xzf");
    assert_eq!(
        tar.extract_command,
        "cd '/srv' && tar xzf '.homeboy-b.tar.gz' && rm '.homeboy-b.tar.gz'"
    );
    let ok = DeployResult::success(0);
    assert!(ok.success && ok.error.is_none());
    let bad = DeployResult::failure(3, "scp failed".to_string());
    assert_eq!(bad.exit_code, 3);
}

#[test]
fn remote_paths_join_under_the_base() {
    assert_eq!(join_remote_path("/var/www", "html"), "/var/www/html");
    assert_eq!(join_remote_path("/var/www/", "html"), "/var/www/html");
    assert_eq!(join_remote_path("/var/www", "/abs"), "/abs");
}

#[test]
fn ls_output_parses_fields_and_skips_dot_entries() {
    let out = "total 12\n\
drwxr-xr-x  2 u g 4096 May  1 10:00 .\n\
drwxr-xr-x  9 u g 4096 May  1 10:00 ..\n\
-rw-r--r--  1 u g  512 May  1 10:00 notes with spaces.txt\n\
drwxr-xr-x  3 u g 4096 May  1 10:00 vendor\n";
    let entries = parse_ls_output(out, "/srv/app");
    assert_eq!(entries.len(), 2);
    assert!(entries[0].is_directory);
    assert_eq!(entries[0].name, "vendor");
    assert_eq!(entries[1].name, "notes with spaces.txt");
    assert_eq!(entries[1].path, "/srv/app/notes with spaces.txt");
    assert!(!entries[1].is_directory);
    assert_eq!(entries[1].size, Some(512));
    assert_eq!(entries[1].permissions, "rw-r--r--");
}

#[test]
fn ls_entries_sort_directories_first_then_by_name() {
    let out = "-rw-r--r-- 1 u g 10 May 1 10:00 Zeta.txt
drwxr-xr-x 2 u g 40 May 1 10:00 beta
-rw-r--r-- 1 u g 10 May 1 10:00 alpha.txt
drwxr-xr-x 2 u g 40 May 1 10:00 Alpha
";
    let names: Vec<String> = parse_ls_output(out, "/x").into_iter().map(|e| e.name).collect();
    assert_eq!(names, vec!["Alpha", "beta", "alpha.txt", "Zeta.txt"]);
}

#[test]
fn find_and_grep_output_parse_line_by_line() {
    assert_eq!(
        parse_find_output("/a\n\n/b\n"),
        vec!["/a".to_string(), "/b".to_string()]
    );
    let hits = parse_grep_output("src/a.rs:12:let x = 1;\nnot a match\n");
    assert_eq!(hits.len(), 1);
    assert_eq!(hits[0].file, "src/a.rs");
    assert_eq!(hits[0].line, 12);
    assert_eq!(hits[0].content, "let x = 1;");
}

#[test]
fn discovery_transform_strips_the_final_component() {
    let d = DiscoveryConfig {
        find_command: "find".to_string(),
        base_path_transform: "dirname".to_string(),
        display_name_command: None,
    };
    assert_eq!(d.transform_to_base_path("/a/b/c"), "/a/b");
    assert_eq!(d.transform_to_base_path("plain"), "plain");
    let keep = DiscoveryConfig {
        find_command: "find".to_string(),
        base_path_transform: "none".to_string(),
        display_name_command: None,
    };
    assert_eq!(keep.transform_to_base_path("/a/b/c"), "/a/b/c");
}

#[test]
fn artifact_entries_parse_paths_and_records() {
    let entries = vec![
        ArtifactEntry::Path("dist/app.zip".to_string()),
        ArtifactEntry::Record(vec![
            ("path".to_string(), "dist/app-mac.zip".to_string()),
            ("type".to_string(), "zip".to_string()),
            ("platform".to_string(), "mac".to_string()),
        ]),
    ];
    let arts = parse_release_artifacts(&entries).unwrap();
    assert_eq!(arts.len(), 2);
    assert_eq!(arts[0].path, "dist/app.zip");
    assert_eq!(arts[1].platform, Some("mac".to_string()));
    assert!(parse_release_artifacts(&vec![ArtifactEntry::Other]).is_err());
    let missing = vec![ArtifactEntry::Record(vec![("type".to_string(), "zip".to_string())])];
    assert!(parse_release_artifacts(&missing).is_err());
}

#[test]
fn exit_codes_clamp_and_bump_words_match() {
    assert_eq!(exit_code_to_u8(-1), 0);
    assert_eq!(exit_code_to_u8(7), 7);
    assert_eq!(exit_code_to_u8(400), 255);
    assert_eq!(BumpType::Patch.as_str(), "patch");
    assert_eq!(BumpType::Minor.as_str(), "minor");
    assert_eq!(BumpType::Major.as_str(), "major");
}

#[test]
fn argument_order_detection_moves_the_component_back() {
    let projects = vec!["site".to_string()];
    let components = vec!["plugin".to_string()];
    let (p, c) = resolve_argument_order(
        &"site".to_string(),
        &vec!["plugin".to_string()],
        &projects,
        &components,
    )
    .unwrap();
    assert_eq!(p, "site");
    assert_eq!(c, vec!["plugin".to_string()]);
    let (p2, c2) = resolve_argument_order(
        &"plugin".to_string(),
        &vec!["site".to_string()],
        &projects,
        &components,
    )
    .unwrap();
    assert_eq!(p2, "site");
    assert_eq!(c2, vec!["plugin".to_string()]);
    assert!(resolve_argument_order(
        &"ghost".to_string(),
        &vec![],
        &projects,
        &components
    )
    .is_err());
}
