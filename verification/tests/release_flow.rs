use homeboy::config::ConfigValue;
use homeboy::error::Error;
use homeboy::release::{
    has_publish_targets, merge_release_config, ReleaseConfig, ReleaseOptions, ReleaseStep,
    ReleaseStepType,
};
use homeboy::release_plan::{plan, ChangelogStatus, ReleasePlanInputs};
use homeboy::release_steps::{
    build_release_payload, decide_git_commit, decide_git_tag, get_release_tag,
    should_amend_release_commit, CommitDecision, ReleaseContext, TagDecision, TagFacts,
};
use homeboy::version::increment_version;

fn options(bump: &str) -> ReleaseOptions {
    ReleaseOptions {
        bump_type: bump.to_string(),
        dry_run: false,
        no_tag: false,
        no_push: false,
        no_commit: false,
        commit_message: None,
    }
}

fn inputs() -> ReleasePlanInputs {
    ReleasePlanInputs {
        changelog_status: ChangelogStatus::HasEntries,
        current_version: "1.2.3".to_string(),
        has_uncommitted_changes: false,
        release: None,
    }
}

#[test]
fn increment_version_bumps_each_part() {
    assert_eq!(increment_version("1.2.3", "patch"), Some("1.2.4".to_string()));
    assert_eq!(increment_version("1.2.3", "minor"), Some("1.3.0".to_string()));
    assert_eq!(increment_version("1.2.3", "major"), Some("2.0.0".to_string()));
}

#[test]
fn increment_version_rejects_bad_input() {
    assert_eq!(increment_version("1.2", "patch"), None);
    assert_eq!(increment_version("1.2.x", "patch"), None);
    assert_eq!(increment_version("1.2.3.4", "patch"), None);
    assert_eq!(increment_version("1.2.3", "mega"), None);
    assert_eq!(increment_version("", "patch"), None);
}

#[test]
fn plan_builds_the_full_step_sequence() {
    let p = plan("web", &options("patch"), &inputs()).unwrap();
    let ids: Vec<&str> = p.steps.iter().map(|s| s.id.as_str()).collect();
    assert_eq!(ids, vec!["version", "git.commit", "git.tag", "git.push"]);
    assert_eq!(p.component_id, "web");
    assert!(p.enabled);
    assert_eq!(p.steps[0].label.as_deref(), Some("Bump version 1.2.3 -> 1.2.4 (patch)"));
    assert_eq!(p.steps[2].needs, vec!["git.commit".to_string()]);
}

#[test]
fn plan_with_no_tag_and_no_push_drops_tag_push_and_publish() {
    let mut o = options("patch");
    o.no_tag = true;
    o.no_push = true;
    let mut inp = inputs();
    inp.release = Some(ReleaseConfig {
        enabled: None,
        steps: vec![ReleaseStep {
            id: "publish".to_string(),
            step_type: ReleaseStepType::ModuleAction("publish".to_string()),
            label: None,
            needs: vec![],
            config: Vec::<(String, ConfigValue)>::new(),
        }],
        settings: Vec::new(),
    });
    let p = plan("web", &o, &inp).unwrap();
    let ids: Vec<&str> = p.steps.iter().map(|s| s.id.as_str()).collect();
    assert_eq!(ids, vec!["version", "git.commit"]);
    assert!(p.hints.contains(&"Skipping push and publish (--no-push)".to_string()));
    assert!(p.hints.contains(&"Skipping tag creation (--no-tag)".to_string()));
}

#[test]
fn plan_adds_pre_commit_for_dirty_tree_and_warns_under_no_commit() {
    let mut inp = inputs();
    inp.has_uncommitted_changes = true;
    let p = plan("web", &options("patch"), &inp).unwrap();
    assert_eq!(p.steps[0].id, "pre-release.commit");
    assert_eq!(p.steps[1].needs, vec!["pre-release.commit".to_string()]);

    let mut o = options("patch");
    o.no_commit = true;
    let p2 = plan("web", &o, &inp).unwrap();
    assert_eq!(p2.steps[0].id, "version");
    assert_eq!(
        p2.warnings,
        vec!["Working tree has uncommitted changes (--no-commit will cause release to fail)"
            .to_string()]
    );
}

#[test]
fn plan_rejects_empty_changelog_and_bad_version() {
    let mut inp = inputs();
    inp.changelog_status = ChangelogStatus::Empty;
    assert!(plan("web", &options("patch"), &inp).is_err());

    let mut inp2 = inputs();
    inp2.current_version = "nope".to_string();
    let e: Error = plan("web", &options("patch"), &inp2).unwrap_err();
    assert_eq!(e.code.as_str(), "validation.invalid_argument");
}

#[test]
fn rerunning_tag_for_unchanged_head_is_skipped_success() {
    let mut ctx = ReleaseContext::new();
    ctx.store_version("1.2.4", None);
    let facts = TagFacts {
        exists_locally: true,
        tag_commit: "abc123".to_string(),
        head_commit: "abc123".to_string(),
    };
    let d = decide_git_tag(&Vec::new(), &ctx, &facts).unwrap();
    match d {
        TagDecision::AlreadySkipped { name } => assert_eq!(name, "v1.2.4"),
        _ => panic!("expected the skipped success"),
    }
}

#[test]
fn moved_tag_is_a_conflict_and_fresh_tag_is_created() {
    let mut ctx = ReleaseContext::new();
    ctx.store_version("1.2.4", None);
    let moved = TagFacts {
        exists_locally: true,
        tag_commit: "abc123".to_string(),
        head_commit: "def456".to_string(),
    };
    assert!(matches!(
        decide_git_tag(&Vec::new(), &ctx, &moved).unwrap(),
        TagDecision::Conflict { .. }
    ));
    let fresh = TagFacts {
        exists_locally: false,
        tag_commit: String::new(),
        head_commit: "def456".to_string(),
    };
    match decide_git_tag(&Vec::new(), &ctx, &fresh).unwrap() {
        TagDecision::Create { name, message } => {
            assert_eq!(name, "v1.2.4");
            assert_eq!(message, "Release v1.2.4");
        }
        _ => panic!("expected creation"),
    }
}

#[test]
fn unpushed_release_commit_is_amended_and_pushed_one_is_not() {
    assert!(should_amend_release_commit(
        "release: v1.2.3",
        "## main...origin/main [ahead 1]"
    ));
    assert!(!should_amend_release_commit("release: v1.2.3", "## main...origin/main"));
    assert!(!should_amend_release_commit("fix: typo", "## main...origin/main [ahead 1]"));

    let mut ctx = ReleaseContext::new();
    ctx.store_version("1.2.4", None);
    match decide_git_commit(&Vec::new(), &ctx, false, "release: v1.2.3", "[ahead 1]") {
        CommitDecision::Commit { amend, message } => {
            assert!(amend);
            assert_eq!(message, "release: v1.2.4");
        }
        _ => panic!("expected a commit"),
    }
    match decide_git_commit(&Vec::new(), &ctx, false, "release: v1.2.3", "up to date") {
        CommitDecision::Commit { amend, .. } => assert!(!amend),
        _ => panic!("expected a commit"),
    }
    assert!(matches!(
        decide_git_commit(&Vec::new(), &ctx, true, "anything", "anything"),
        CommitDecision::SkipClean
    ));
}

#[test]
fn release_tag_resolution_prefers_config_then_context() {
    let mut config = Vec::new();
    config.push(("name".to_string(), ConfigValue::Str("v9.9.9".to_string())));
    let ctx = ReleaseContext::new();
    assert_eq!(get_release_tag(&config, &ctx).unwrap(), "v9.9.9");

    let mut ctx2 = ReleaseContext::new();
    ctx2.store_tag("v7.0.0");
    assert_eq!(get_release_tag(&Vec::new(), &ctx2).unwrap(), "v7.0.0");

    assert!(get_release_tag(&Vec::new(), &ReleaseContext::new()).is_err());
}

#[test]
fn payload_requires_version_and_fills_fallbacks() {
    assert!(build_release_payload("web", "/src/web", &ReleaseContext::new(), &Vec::new()).is_err());
    let mut ctx = ReleaseContext::new();
    ctx.store_version("2.0.0", Some("notes here".to_string()));
    let mut cfg = Vec::new();
    cfg.push(("channel".to_string(), ConfigValue::Str("stable".to_string())));
    let p = build_release_payload("web", "/src/web", &ctx, &cfg).unwrap();
    assert_eq!(p.config.len(), 1);
    assert_eq!(p.version, "2.0.0");
    assert_eq!(p.tag, "v2.0.0");
    assert_eq!(p.notes, "notes here");
    assert_eq!(p.component_id, "web");
}

#[test]
fn publish_targets_and_merge_follow_the_overlay() {
    assert!(!has_publish_targets(None));
    let cfg = ReleaseConfig {
        enabled: Some(true),
        steps: vec![ReleaseStep {
            id: "push".to_string(),
            step_type: ReleaseStepType::GitPush,
            label: None,
            needs: vec![],
            config: Vec::new(),
        }],
        settings: Vec::new(),
    };
    assert!(has_publish_targets(Some(&cfg)));
    let merged = merge_release_config(Some(&cfg), None).unwrap();
    assert_eq!(merged.enabled, Some(true));
    assert!(merge_release_config(None, None).is_none());
}

#[test]
fn step_type_names_round_trip() {
    assert_eq!(ReleaseStepType::GitTag.as_str(), "git.tag");
    assert!(ReleaseStepType::parse("git.tag").is_core_step());
    assert!(!ReleaseStepType::parse("module.run").is_core_step());
    assert_eq!(ReleaseStepType::parse("custom.thing").as_str(), "custom.thing");
}
