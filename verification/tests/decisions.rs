use homeboy::deploy::{deploy_stage_result, tar_extraction_flags, DeployMethod, DeployStage};
use homeboy::error::ErrorCode;
use homeboy::files::{
    delete_outcome, find, find_outcome, grep, grep_outcome, list_outcome, read_outcome,
    rename_outcome, write_outcome,
};
use homeboy::module_config::{ActionConfig, ModuleManifest};
use homeboy::release::{matching_modules, release_missing, release_supported, resolve_module_actions};
use homeboy::release_steps::{
    build_release_payload, get_release_tag, module_run_config, tag_conflict_error,
    tag_failure_hints, ReleaseContext,
};
use homeboy::server::{delete_with_validation, sort_servers, validate_server_id, Server};
use homeboy::ssh::{
    choose_ssh_target, finish_ssh_resolution, project_server_id, ProjectRef, SshResolveArgs,
    SshTarget,
};
use homeboy::config::ConfigValue;

fn module_with_action(id: &str, action: &str) -> ModuleManifest {
    ModuleManifest {
        id: id.to_string(),
        name: id.to_string(),
        version: "1.0.0".to_string(),
        icon: String::new(),
        description: None,
        author: None,
        homepage: None,
        config_schema: None,
        default_pinned_files: vec![],
        default_pinned_logs: vec![],
        database: None,
        cli: None,
        discovery: None,
        deploy: vec![],
        version_patterns: vec![],
        build: None,
        commands: vec![],
        runtime: None,
        inputs: vec![],
        output: None,
        actions: vec![ActionConfig {
            id: action.to_string(),
            label: action.to_string(),
            action_type: "release".to_string(),
            builtin: None,
            column: None,
            endpoint: None,
            method: None,
            requires_auth: None,
        }],
        settings: vec![],
        requires: None,
        manifest_dir: None,
    }
}

#[test]
fn release_capability_covers_core_runtime_and_advertised_actions() {
    let modules = vec![module_with_action("packer", "release.package")];
    assert!(release_supported(&modules, "git.tag"));
    assert!(release_supported(&modules, "module.run"));
    assert!(release_supported(&modules, "package"));
    assert!(!release_supported(&modules, "unknown.kind"));
    assert!(release_missing("module.run").is_empty());
    assert_eq!(
        release_missing("publish"),
        vec!["Missing action 'release.publish'".to_string()]
    );
}

#[test]
fn module_actions_resolve_to_advertising_modules_or_fail() {
    let modules = vec![
        module_with_action("a", "release.package"),
        module_with_action("b", "other.thing"),
        module_with_action("c", "release.package"),
    ];
    let ids = matching_modules(&modules, "release.package");
    assert_eq!(ids, vec!["a".to_string(), "c".to_string()]);
    assert!(resolve_module_actions(&modules, "release.package").is_ok());
    let err = resolve_module_actions(&modules, "release.publish").unwrap_err();
    assert_eq!(err.message, "No module provides action 'release.publish'");
}

#[test]
fn module_run_config_reads_id_inputs_and_args() {
    let mut config: Vec<(String, ConfigValue)> = Vec::new();
    config.push(("module".to_string(), ConfigValue::Str("packer".to_string())));
    config.push((
        "inputs".to_string(),
        ConfigValue::IdValuePairs(vec![("site".to_string(), "main".to_string())]),
    ));
    config.push((
        "args".to_string(),
        ConfigValue::StrList(vec!["--fast".to_string()]),
    ));
    let (module, inputs, args) = module_run_config(&config).unwrap();
    assert_eq!(module, "packer");
    assert_eq!(inputs, vec![("site".to_string(), "main".to_string())]);
    assert_eq!(args, vec!["--fast".to_string()]);

    assert!(module_run_config(&Vec::new()).is_err());
    let mut bad: Vec<(String, ConfigValue)> = Vec::new();
    bad.push(("module".to_string(), ConfigValue::Str("m".to_string())));
    bad.push(("args".to_string(), ConfigValue::Bool(true)));
    assert!(module_run_config(&bad).is_err());
}

#[test]
fn tag_conflict_error_names_both_commits_and_the_remedy() {
    let e = tag_conflict_error("v1.2.3", "abcdef0123456789", "123456789abcdef0", "web");
    assert_eq!(e.message, "Tag 'v1.2.3' exists but points to different commit");
    assert_eq!(e.details, "Tag points to abcdef01, HEAD is 12345678");
    assert_eq!(
        e.hints,
        vec![
            "Delete stale tag: git tag -d v1.2.3".to_string(),
            "Then retry: homeboy release web <bump>".to_string(),
        ]
    );
}

#[test]
fn tag_failure_hints_say_where_the_tag_lives() {
    let local = tag_failure_hints("fatal: tag already exists", "v1", true, false);
    assert_eq!(
        local,
        vec!["Tag 'v1' exists locally but not on remote. Push it with: git push origin v1"
            .to_string()]
    );
    let both = tag_failure_hints("fatal: tag already exists", "v1", true, true);
    assert_eq!(
        both,
        vec![
            "Tag 'v1' already exists locally and on remote. Delete local tag first: git tag -d v1"
                .to_string()
        ]
    );
    assert!(tag_failure_hints("some other failure", "v1", true, false).is_empty());
}

#[test]
fn server_persistence_rules_gate_save_and_delete() {
    let good = Server {
        id: "my-server".to_string(),
        name: "My Server".to_string(),
        host: "h".to_string(),
        user: "u".to_string(),
        port: 22,
        identity_file: None,
    };
    assert!(validate_server_id(&good).is_ok());
    let mismatched = Server { id: "other".to_string(), ..good.clone() };
    assert!(validate_server_id(&mismatched).is_err());

    assert!(delete_with_validation("x", true, true).is_ok());
    assert_eq!(
        delete_with_validation("x", false, true).unwrap_err().code.as_str(),
        "server.not_found"
    );
    assert_eq!(
        delete_with_validation("x", true, false).unwrap_err().message,
        "Use --force to confirm deletion"
    );
}

#[test]
fn servers_list_in_name_order() {
    let mk = |id: &str, name: &str| Server {
        id: id.to_string(),
        name: name.to_string(),
        host: "h".to_string(),
        user: "u".to_string(),
        port: 22,
        identity_file: None,
    };
    let sorted = sort_servers(vec![mk("c", "charlie"), mk("a", "alpha"), mk("b", "bravo")]);
    let names: Vec<String> = sorted.into_iter().map(|s| s.name).collect();
    assert_eq!(names, vec!["alpha", "bravo", "charlie"]);
}

#[test]
fn remote_outcomes_map_success_and_failure() {
    let r = read_outcome("/base", "f.txt", true, "hello".to_string(), "").unwrap();
    assert_eq!(r.content, "hello");
    assert_eq!(r.path, "/base/f.txt");
    let e = read_outcome("/base", "f.txt", false, String::new(), "no such file").unwrap_err();
    assert_eq!(e.message, "READ_FAILED: no such file");
    let w = write_outcome("/base", "f.txt", "abc", true, "").unwrap();
    assert_eq!(w.bytes_written, 3);
    assert_eq!(
        write_outcome("/base", "f", "x", false, "denied").unwrap_err().message,
        "WRITE_FAILED: denied"
    );
    assert_eq!(
        delete_outcome("/base", "f", true, false, "busy").unwrap_err().message,
        "DELETE_FAILED: busy"
    );
    assert_eq!(
        rename_outcome("/base", "a", "b", false, "nope").unwrap_err().message,
        "RENAME_FAILED: nope"
    );
    let l = list_outcome("/srv", "www", true, "-rw-r--r-- 1 u g 9 May 1 10:00 a.txt\n", "")
        .unwrap();
    assert_eq!(l.entries.len(), 1);
    let f = find_outcome("/srv", "www", Some("*.txt"), "/srv/www/a.txt\n");
    assert_eq!(f.matches, vec!["/srv/www/a.txt".to_string()]);
    let g = grep_outcome("/srv", "www", "let", "a.rs:1:let x;\n");
    assert_eq!(g.matches.len(), 1);
}

#[test]
fn search_commands_are_pinned_exactly() {
    let (cmd, full) = find("/srv", "www", Some("*.php"), Some("f"), Some(3)).unwrap();
    assert_eq!(full, "/srv/www");
    assert_eq!(
        cmd,
        "find '/srv/www' -maxdepth 3 -type f -name '*.php' 2>/dev/null | sort"
    );
    assert!(find("/srv", "www", None, Some("x"), None).is_err());
    let (gcmd, _) = grep("/srv", "www", "todo", Some("*.rs"), Some(2), true).unwrap();
    assert_eq!(
        gcmd,
        "grep -rni 'todo' '/srv/www' --include='*.rs' --max-depth=2 2>/dev/null"
    );
    assert!(grep("/srv", "www", "   ", None, None, false).is_err());
}

#[test]
fn deploy_stage_failures_carry_their_wording() {
    let ok = deploy_stage_result(DeployStage::ExtractZip, true, 0, "");
    assert!(ok.success);
    let bad = deploy_stage_result(DeployStage::CreateRemoteDir, false, 2, "denied");
    assert_eq!(bad.exit_code, 2);
    assert_eq!(
        bad.error.as_deref(),
        Some("Failed to create remote directory: denied")
    );
    let tar = deploy_stage_result(DeployStage::ExtractTarball, false, 1, "corrupt");
    assert_eq!(tar.error.as_deref(), Some("Failed to extract tarball: corrupt"));
}

#[test]
fn ssh_targets_resolve_project_first_then_server() {
    let args_none = SshResolveArgs { id: None, project: None, server: None };
    let e = choose_ssh_target(&args_none, None, false).unwrap_err();
    assert_eq!(e.code.as_str(), "validation.missing_argument");

    let bare = SshResolveArgs { id: Some("alpha".to_string()), project: None, server: None };
    let pr = ProjectRef {
        id: "alpha".to_string(),
        server_id: Some("s1".to_string()),
        base_path: Some("/var/www".to_string()),
    };
    match choose_ssh_target(&bare, Some(pr.clone()), true).unwrap() {
        SshTarget::ViaProject { project } => assert_eq!(project.id, "alpha"),
        _ => panic!("expected the project route"),
    }
    match choose_ssh_target(&bare, None, true).unwrap() {
        SshTarget::ViaServer { server_id } => assert_eq!(server_id, "alpha"),
        _ => panic!("expected the server route"),
    }
    assert_eq!(
        choose_ssh_target(&bare, None, false).unwrap_err().message,
        "No matching project or server"
    );

    assert_eq!(project_server_id(&pr).unwrap(), "s1");
    let no_server = ProjectRef { id: "p".to_string(), server_id: None, base_path: None };
    assert_eq!(
        project_server_id(&no_server).unwrap_err().message,
        "Server not configured for project"
    );

    let valid = Server {
        id: "s1".to_string(),
        name: "S1".to_string(),
        host: "example.com".to_string(),
        user: "deploy".to_string(),
        port: 22,
        identity_file: None,
    };
    let res = finish_ssh_resolution(Some(pr), "s1".to_string(), valid.clone()).unwrap();
    assert_eq!(res.resolved_type, "project");
    assert_eq!(res.base_path.as_deref(), Some("/var/www"));
    let invalid = Server { host: String::new(), ..valid };
    let err = finish_ssh_resolution(None, "s1".to_string(), invalid).unwrap_err();
    assert_eq!(err.code.as_str(), "ssh.server_invalid");
    assert_eq!(err.hints, vec!["host".to_string()]);
}

#[test]
fn error_codes_have_wire_names() {
    assert_eq!(ErrorCode::ProjectNotFound.as_str(), "project.not_found");
    assert_eq!(ErrorCode::SshServerInvalid.as_str(), "ssh.server_invalid");
}

#[test]
fn tar_flags_follow_the_archive_kind() {
    assert_eq!(tar_extraction_flags(DeployMethod::TarGz), Some("xzf"));
    assert_eq!(tar_extraction_flags(DeployMethod::TarBz2), Some("xjf"));
    assert_eq!(tar_extraction_flags(DeployMethod::Tar), Some("xf"));
    assert_eq!(tar_extraction_flags(DeployMethod::Zip), None);
}

#[test]
fn missing_tag_context_names_both_remedies() {
    let e = get_release_tag(&Vec::new(), &ReleaseContext::new()).unwrap_err();
    assert_eq!(e.message, "Cannot determine release tag - version context not set");
    assert_eq!(
        e.hints,
        vec![
            "Ensure version step runs before git.tag step".to_string(),
            "Or specify tag explicitly in step config: { \"name\": \"v1.2.3\" }".to_string(),
        ]
    );
}

#[test]
fn missing_version_payload_names_its_remedy() {
    let e = build_release_payload("web", "/w", &ReleaseContext::new(), &Vec::new())
        .unwrap_err();
    assert_eq!(e.message, "Version context not set for release step");
    assert_eq!(e.hints, vec!["Ensure version step runs before this step".to_string()]);
}

#[test]
fn server_id_rules_use_distinct_codes() {
    let mismatched = Server {
        id: "other".to_string(),
        name: "My Server".to_string(),
        host: "h".to_string(),
        user: "u".to_string(),
        port: 22,
        identity_file: None,
    };
    assert_eq!(
        validate_server_id(&mismatched).unwrap_err().code.as_str(),
        "config.invalid_value"
    );
    let unsluggable = Server { name: "!!!".to_string(), ..mismatched };
    assert_eq!(
        validate_server_id(&unsluggable).unwrap_err().code.as_str(),
        "validation.invalid_argument"
    );
}
