//! The release planner: turns a component's state and the user's options into
//! the concrete step list a release runs, with its preconditions checked
//! before any step is built.

use vstd::prelude::*;

use crate::config::{ConfigValue, ConfigValueModel, StepConfig};
use crate::error::{Error, ErrorCode};
use crate::release::{
    ReleaseConfig, ReleaseOptions, ReleasePlan, ReleasePlanStatus, ReleasePlanStep, ReleaseStep,
    spec_step_type_str,
};
use crate::version::{opt_string_view, spec_increment};

verus! {

/// What a changelog check found in the unreleased section.
#[derive(Debug, Clone, Copy, PartialEq, Eq, Structural)]
pub enum ChangelogStatus {
    Empty,
    SubsectionHeadersOnly,
    HasEntries,
}

/// The component state a release plan is computed from; the caller reads it
/// from the component's files and working tree.
#[derive(Debug, Clone)]
pub struct ReleasePlanInputs {
    pub changelog_status: ChangelogStatus,
    pub current_version: String,
    pub has_uncommitted_changes: bool,
    pub release: Option<ReleaseConfig>,
}

/// The ghost shape of one planned step.
#[verifier::ext_equal]
pub struct PlanStepModel {
    pub id: Seq<char>,
    pub step_type: Seq<char>,
    pub label: Option<Seq<char>>,
    pub needs: Seq<Seq<char>>,
    pub config: Seq<(Seq<char>, ConfigValueModel)>,
    pub status: ReleasePlanStatus,
    pub missing: Seq<Seq<char>>,
}

/// The ghost shape of a planned step.
pub open spec fn plan_step_model(s: ReleasePlanStep) -> PlanStepModel {
    PlanStepModel {
        id: s.id@,
        step_type: s.step_type@,
        label: opt_string_view(s.label),
        needs: s.needs.deep_view(),
        config: s.config.deep_view(),
        status: s.status,
        missing: s.missing.deep_view(),
    }
}

/// A pre-release commit is planned when the tree is dirty and committing is
/// not suppressed.
pub open spec fn spec_needs_pre_commit(o: ReleaseOptions, inp: ReleasePlanInputs) -> bool {
    inp.has_uncommitted_changes && !o.no_commit
}

/// The commit message for the pre-release commit.
pub open spec fn spec_pre_commit_message(o: ReleaseOptions) -> Seq<char> {
    match o.commit_message {
        Some(m) => m@,
        None => "pre-release changes"@,
    }
}

/// The publish-flavored steps of a release configuration, in order.
pub open spec fn spec_publish_steps(steps: Seq<ReleaseStep>) -> Seq<ReleaseStep>
    decreases steps.len(),
{
    if steps.len() == 0 {
        Seq::empty()
    } else {
        (if steps[0].step_type is ModuleAction || steps[0].step_type is ModuleRun {
            seq![steps[0]]
        } else {
            Seq::empty()
        }) + spec_publish_steps(steps.drop_first())
    }
}

pub open spec fn spec_release_steps(inp: ReleasePlanInputs) -> Seq<ReleaseStep> {
    match inp.release {
        Some(c) => c.steps@,
        None => Seq::empty(),
    }
}

/// Publish steps run only when something publish-flavored is declared and
/// pushing is not suppressed.
pub open spec fn spec_will_publish(o: ReleaseOptions, inp: ReleasePlanInputs) -> bool {
    !o.no_push && spec_publish_steps(spec_release_steps(inp)).len() > 0
}

pub open spec fn spec_pre_commit_model(o: ReleaseOptions) -> PlanStepModel {
    PlanStepModel {
        id: "pre-release.commit"@,
        step_type: "git.commit"@,
        label: Some("Commit pre-release changes: "@ + spec_pre_commit_message(o)),
        needs: Seq::empty(),
        config: seq![("message"@, ConfigValueModel::Str(spec_pre_commit_message(o)))],
        status: ReleasePlanStatus::Ready,
        missing: Seq::empty(),
    }
}

pub open spec fn spec_version_model(
    o: ReleaseOptions,
    from: Seq<char>,
    to: Seq<char>,
    pre: bool,
) -> PlanStepModel {
    PlanStepModel {
        id: "version"@,
        step_type: "version"@,
        label: Some(
            "Bump version "@ + from + " -> "@ + to + " ("@ + o.bump_type@ + ")"@,
        ),
        needs: if pre {
            seq!["pre-release.commit"@]
        } else {
            Seq::empty()
        },
        config: seq![
            ("bump"@, ConfigValueModel::Str(o.bump_type@)),
            ("from"@, ConfigValueModel::Str(from)),
            ("to"@, ConfigValueModel::Str(to)),
        ],
        status: ReleasePlanStatus::Ready,
        missing: Seq::empty(),
    }
}

pub open spec fn spec_commit_model(to: Seq<char>) -> PlanStepModel {
    PlanStepModel {
        id: "git.commit"@,
        step_type: "git.commit"@,
        label: Some("Commit release: v"@ + to),
        needs: seq!["version"@],
        config: Seq::empty(),
        status: ReleasePlanStatus::Ready,
        missing: Seq::empty(),
    }
}

pub open spec fn spec_tag_model(to: Seq<char>) -> PlanStepModel {
    PlanStepModel {
        id: "git.tag"@,
        step_type: "git.tag"@,
        label: Some("Tag v"@ + to),
        needs: seq!["git.commit"@],
        config: seq![("name"@, ConfigValueModel::Str("v"@ + to))],
        status: ReleasePlanStatus::Ready,
        missing: Seq::empty(),
    }
}

pub open spec fn spec_push_model(o: ReleaseOptions) -> PlanStepModel {
    PlanStepModel {
        id: "git.push"@,
        step_type: "git.push"@,
        label: Some("Push to remote"@),
        needs: if o.no_tag {
            seq!["git.commit"@]
        } else {
            seq!["git.tag"@]
        },
        config: seq![("tags"@, ConfigValueModel::Bool(!o.no_tag))],
        status: ReleasePlanStatus::Ready,
        missing: Seq::empty(),
    }
}

/// A declared publish step carried into the plan: it runs after the push.
pub open spec fn spec_publish_model(s: ReleaseStep) -> PlanStepModel {
    PlanStepModel {
        id: s.id@,
        step_type: spec_step_type_str(s.step_type),
        label: opt_string_view(s.label),
        needs: seq!["git.push"@],
        config: s.config.deep_view(),
        status: ReleasePlanStatus::Ready,
        missing: Seq::empty(),
    }
}

/// The full expected step sequence of a release plan.
pub open spec fn spec_plan_models(
    o: ReleaseOptions,
    inp: ReleasePlanInputs,
    to: Seq<char>,
) -> Seq<PlanStepModel> {
    let pre = if spec_needs_pre_commit(o, inp) {
        seq![spec_pre_commit_model(o)]
    } else {
        Seq::empty()
    };
    let tag = if !o.no_tag {
        seq![spec_tag_model(to)]
    } else {
        Seq::empty()
    };
    let push = if !o.no_push {
        seq![spec_push_model(o)]
    } else {
        Seq::empty()
    };
    let publish = if spec_will_publish(o, inp) {
        spec_publish_steps(spec_release_steps(inp)).map_values(|s: ReleaseStep| spec_publish_model(s))
    } else {
        Seq::empty()
    };
    pre + seq![
        spec_version_model(o, inp.current_version@, to, spec_needs_pre_commit(o, inp)),
        spec_commit_model(to),
    ] + tag + push + publish
}

/// The informational hints a plan carries.
pub open spec fn spec_plan_hints(o: ReleaseOptions, inp: ReleasePlanInputs) -> Seq<Seq<char>> {
    (if spec_needs_pre_commit(o, inp) {
        seq!["Will auto-commit uncommitted changes before release"@]
    } else {
        Seq::empty()
    }) + (if o.no_push {
        seq!["Skipping push and publish (--no-push)"@]
    } else {
        Seq::empty()
    }) + (if o.no_tag {
        seq!["Skipping tag creation (--no-tag)"@]
    } else {
        Seq::empty()
    }) + (if o.dry_run {
        seq!["Dry run: no changes will be made"@]
    } else {
        Seq::empty()
    })
}

/// The warnings a plan carries: a dirty tree that will not be committed.
pub open spec fn spec_plan_warnings(o: ReleaseOptions, inp: ReleasePlanInputs) -> Seq<
    Seq<char>,
> {
    if inp.has_uncommitted_changes && o.no_commit {
        seq!["Working tree has uncommitted changes (--no-commit will cause release to fail)"@]
    } else {
        Seq::empty()
    }
}

/// Everything a successful release plan promises.
pub open spec fn release_plan_ok(
    component_id: Seq<char>,
    o: ReleaseOptions,
    inp: ReleasePlanInputs,
    p: ReleasePlan,
) -> bool {
    &&& inp.changelog_status == ChangelogStatus::HasEntries
    &&& spec_increment(inp.current_version@, o.bump_type@) matches Some(to) && {
        &&& p.component_id@ == component_id
        &&& p.enabled == true
        &&& p.steps@.map_values(|s: ReleasePlanStep| plan_step_model(s)) == spec_plan_models(
            o,
            inp,
            to,
        )
        &&& p.hints.deep_view() == spec_plan_hints(o, inp)
        &&& p.warnings.deep_view() == spec_plan_warnings(o, inp)
    }
}

/// The hint given when the changelog has nothing releasable.
pub open spec fn spec_changelog_hint() -> Seq<char> {
    "Add changelog entries: homeboy changelog add <component> -m \"...\""@
}

/// Why a release plan was refused: an unreleasable changelog, named with the
/// actionable hint, or a version that cannot be bumped, named in the message.
pub open spec fn release_plan_refused(o: ReleaseOptions, inp: ReleasePlanInputs, e: Error) -> bool {
    &&& (inp.changelog_status != ChangelogStatus::HasEntries || spec_increment(
        inp.current_version@,
        o.bump_type@,
    ) is None)
    &&& e.code == ErrorCode::ValidationInvalidArgument
    &&& (inp.changelog_status == ChangelogStatus::Empty ==> e.message@
        == "Changelog has no unreleased entries"@ && e.hints.deep_view() == seq![
        spec_changelog_hint(),
    ])
    &&& (inp.changelog_status == ChangelogStatus::SubsectionHeadersOnly ==> e.message@
        == "Changelog has subsection headers but no items"@ && e.hints.deep_view() == seq![
        spec_changelog_hint(),
    ])
    &&& (inp.changelog_status == ChangelogStatus::HasEntries ==> e.message@
        == "Invalid version format: "@ + inp.current_version@)
}

fn clone_opt_label(o: &Option<String>) -> (r: Option<String>)
    ensures
        opt_string_view(r) == opt_string_view(*o),
{
    match o {
        Some(l) => Some(l.clone()),
        None => None,
    }
}

/// Builds the release plan from the component's state and the user's options.
/// Fails, before any step is built, on a changelog without unreleased entries
/// or a version that cannot be bumped.
#[verifier::rlimit(100)]
#[verifier::spinoff_prover]
pub fn plan(
    component_id: &str,
    options: &ReleaseOptions,
    inputs: &ReleasePlanInputs,
) -> (r: Result<ReleasePlan, Error>)
    ensures
        match r {
            Ok(p) => release_plan_ok(component_id@, *options, *inputs, p),
            Err(e) => release_plan_refused(*options, *inputs, e),
        },
{
    match inputs.changelog_status {
        ChangelogStatus::Empty => {
            let mut hints: Vec<String> = Vec::new();
            hints.push(
                String::from_str("Add changelog entries: homeboy changelog add <component> -m \"...\""),
            );
            proof {
                assert(hints.deep_view() =~~= seq![spec_changelog_hint()]);
            }
            return Err(
                Error::validation_invalid_argument(
                    "changelog",
                    String::from_str("Changelog has no unreleased entries"),
                    None,
                    Some(hints),
                ),
            );
        },
        ChangelogStatus::SubsectionHeadersOnly => {
            let mut hints: Vec<String> = Vec::new();
            hints.push(
                String::from_str("Add changelog entries: homeboy changelog add <component> -m \"...\""),
            );
            proof {
                assert(hints.deep_view() =~~= seq![spec_changelog_hint()]);
            }
            return Err(
                Error::validation_invalid_argument(
                    "changelog",
                    String::from_str("Changelog has subsection headers but no items"),
                    None,
                    Some(hints),
                ),
            );
        },
        ChangelogStatus::HasEntries => {},
    }
    let new_version = match crate::version::increment_version(
        inputs.current_version.as_str(),
        options.bump_type.as_str(),
    ) {
        Some(v) => v,
        None => {
            let mut msg = String::from_str("Invalid version format: ");
            msg.append(inputs.current_version.as_str());
            return Err(
                Error::validation_invalid_argument("version", msg, None, None),
            );
        },
    };
    let ghost to = new_version@;

    let needs_pre = inputs.has_uncommitted_changes && !options.no_commit;
    let mut steps: Vec<ReleasePlanStep> = Vec::new();

    if needs_pre {
        let msg = match &options.commit_message {
            Some(m) => m.clone(),
            None => String::from_str("pre-release changes"),
        };
        let mut label = String::from_str("Commit pre-release changes: ");
        label.append(msg.as_str());
        let mut config: StepConfig = Vec::new();
        config.push((String::from_str("message"), ConfigValue::Str(msg)));
        let entry = ReleasePlanStep {
            id: String::from_str("pre-release.commit"),
            step_type: String::from_str("git.commit"),
            label: Some(label),
            needs: Vec::new(),
            config,
            status: ReleasePlanStatus::Ready,
            missing: Vec::new(),
        };
        proof {
            assert(plan_step_model(entry) =~~= spec_pre_commit_model(*options));
        }
        steps.push(entry);
    }

    let version_entry = {
        let mut label = String::from_str("Bump version ");
        label.append(inputs.current_version.as_str());
        label.append(" -> ");
        label.append(new_version.as_str());
        label.append(" (");
        label.append(options.bump_type.as_str());
        label.append(")");
        let mut config: StepConfig = Vec::new();
        config.push((String::from_str("bump"), ConfigValue::Str(options.bump_type.clone())));
        config.push(
            (String::from_str("from"), ConfigValue::Str(inputs.current_version.clone())),
        );
        config.push((String::from_str("to"), ConfigValue::Str(new_version.clone())));
        let mut needs: Vec<String> = Vec::new();
        if needs_pre {
            needs.push(String::from_str("pre-release.commit"));
        }
        ReleasePlanStep {
            id: String::from_str("version"),
            step_type: String::from_str("version"),
            label: Some(label),
            needs,
            config,
            status: ReleasePlanStatus::Ready,
            missing: Vec::new(),
        }
    };
    proof {
        assert(plan_step_model(version_entry) =~~= spec_version_model(
            *options,
            inputs.current_version@,
            to,
            spec_needs_pre_commit(*options, *inputs),
        ));
    }
    steps.push(version_entry);

    let commit_entry = {
        let mut label = String::from_str("Commit release: v");
        label.append(new_version.as_str());
        let mut needs: Vec<String> = Vec::new();
        needs.push(String::from_str("version"));
        ReleasePlanStep {
            id: String::from_str("git.commit"),
            step_type: String::from_str("git.commit"),
            label: Some(label),
            needs,
            config: Vec::new(),
            status: ReleasePlanStatus::Ready,
            missing: Vec::new(),
        }
    };
    proof {
        assert(plan_step_model(commit_entry) =~~= spec_commit_model(to));
    }
    steps.push(commit_entry);

    if !options.no_tag {
        let mut label = String::from_str("Tag v");
        label.append(new_version.as_str());
        let mut tag_name = String::from_str("v");
        tag_name.append(new_version.as_str());
        let mut config: StepConfig = Vec::new();
        config.push((String::from_str("name"), ConfigValue::Str(tag_name)));
        let mut needs: Vec<String> = Vec::new();
        needs.push(String::from_str("git.commit"));
        let entry = ReleasePlanStep {
            id: String::from_str("git.tag"),
            step_type: String::from_str("git.tag"),
            label: Some(label),
            needs,
            config,
            status: ReleasePlanStatus::Ready,
            missing: Vec::new(),
        };
        proof {
            assert(plan_step_model(entry) =~~= spec_tag_model(to));
        }
        steps.push(entry);
    }

    if !options.no_push {
        let mut config: StepConfig = Vec::new();
        config.push((String::from_str("tags"), ConfigValue::Bool(!options.no_tag)));
        let mut needs: Vec<String> = Vec::new();
        if options.no_tag {
            needs.push(String::from_str("git.commit"));
        } else {
            needs.push(String::from_str("git.tag"));
        }
        let entry = ReleasePlanStep {
            id: String::from_str("git.push"),
            step_type: String::from_str("git.push"),
            label: Some(String::from_str("Push to remote")),
            needs,
            config,
            status: ReleasePlanStatus::Ready,
            missing: Vec::new(),
        };
        proof {
            assert(plan_step_model(entry) =~~= spec_push_model(*options));
        }
        steps.push(entry);
    }

    let ghost fixed = steps@.map_values(|s: ReleasePlanStep| plan_step_model(s));

    if !options.no_push {
        if let Some(release) = &inputs.release {
            let ghost decl = release.steps@;
            let mut i: usize = 0;
            proof {
                assert(decl.subrange(0, decl.len() as int) =~= decl);
            }
            while i < release.steps.len()
                invariant
                    0 <= i <= decl.len(),
                    release.steps@ == decl,
                    steps@.map_values(|s: ReleasePlanStep| plan_step_model(s)) + spec_publish_steps(
                        decl.subrange(i as int, decl.len() as int),
                    ).map_values(|s: ReleaseStep| spec_publish_model(s)) =~~= fixed
                        + spec_publish_steps(decl).map_values(
                        |s: ReleaseStep| spec_publish_model(s),
                    ),
                decreases decl.len() - i,
            {
                let ghost tail = decl.subrange(i as int, decl.len() as int);
                let ghost tail2 = decl.subrange(i + 1, decl.len() as int);
                proof {
                    assert(tail.len() > 0);
                    assert(tail[0] == decl[i as int]);
                    assert(tail.drop_first() =~= tail2);
                }
                let step = &release.steps[i];
                let is_publish = match &step.step_type {
                    crate::release::ReleaseStepType::ModuleAction(_) => true,
                    crate::release::ReleaseStepType::ModuleRun => true,
                    _ => false,
                };
                if is_publish {
                    let mut needs: Vec<String> = Vec::new();
                    needs.push(String::from_str("git.push"));
                    let entry = ReleasePlanStep {
                        id: step.id.clone(),
                        step_type: String::from_str(step.step_type.as_str()),
                        label: clone_opt_label(&step.label),
                        needs,
                        config: crate::pipeline::clone_step_config(&step.config),
                        status: ReleasePlanStatus::Ready,
                        missing: Vec::new(),
                    };
                    let ghost old_models = steps@.map_values(
                        |s: ReleasePlanStep| plan_step_model(s),
                    );
                    proof {
                        assert(plan_step_model(entry) =~~= spec_publish_model(decl[i as int]));
                    }
                    steps.push(entry);
                    proof {
                        assert(steps@.map_values(|s: ReleasePlanStep| plan_step_model(s))
                            =~~= old_models.push(spec_publish_model(decl[i as int])));
                        assert(spec_publish_steps(tail) == seq![tail[0]] + spec_publish_steps(
                            tail2,
                        ));
                        assert(spec_publish_steps(tail).map_values(
                            |s: ReleaseStep| spec_publish_model(s),
                        ) =~~= seq![spec_publish_model(decl[i as int])]
                            + spec_publish_steps(tail2).map_values(
                            |s: ReleaseStep| spec_publish_model(s),
                        ));
                        assert(steps@.map_values(|s: ReleasePlanStep| plan_step_model(s))
                            + spec_publish_steps(tail2).map_values(
                            |s: ReleaseStep| spec_publish_model(s),
                        ) =~~= fixed + spec_publish_steps(decl).map_values(
                            |s: ReleaseStep| spec_publish_model(s),
                        ));
                    }
                } else {
                    proof {
                        assert(spec_publish_steps(tail) == spec_publish_steps(tail2));
                    }
                }
                i = i + 1;
            }
            proof {
                assert(decl.subrange(i as int, decl.len() as int).len() == 0);
                assert(spec_publish_steps(decl.subrange(i as int, decl.len() as int))
                    =~= Seq::<ReleaseStep>::empty());
            }
        }
    }

    let mut hints: Vec<String> = Vec::new();
    if needs_pre {
        hints.push(String::from_str("Will auto-commit uncommitted changes before release"));
    }
    if options.no_push {
        hints.push(String::from_str("Skipping push and publish (--no-push)"));
    }
    if options.no_tag {
        hints.push(String::from_str("Skipping tag creation (--no-tag)"));
    }
    if options.dry_run {
        hints.push(String::from_str("Dry run: no changes will be made"));
    }
    proof {
        assert(hints.deep_view() =~~= spec_plan_hints(*options, *inputs));
    }

    let mut warnings: Vec<String> = Vec::new();
    if inputs.has_uncommitted_changes && options.no_commit {
        warnings.push(
            String::from_str(
                "Working tree has uncommitted changes (--no-commit will cause release to fail)",
            ),
        );
    }
    proof {
        assert(warnings.deep_view() =~~= spec_plan_warnings(*options, *inputs));
    }

    let p = ReleasePlan {
        component_id: String::from_str(component_id),
        enabled: true,
        steps,
        warnings,
        hints,
    };
    proof {
        assert(p.steps@.map_values(|s: ReleasePlanStep| plan_step_model(s))
            =~~= spec_plan_models(*options, *inputs, to));
        assert(release_plan_ok(component_id@, *options, *inputs, p));
    }
    Ok(p)
}

/// With tagging and pushing both suppressed, the plan never contains a
/// `git.tag`, `git.push`, or publish step — only the version bump and the
/// release commit (and the optional pre-release commit) — and it says so in
/// its hints.
pub proof fn lemma_no_tag_no_push_plan(
    component_id: Seq<char>,
    o: ReleaseOptions,
    inp: ReleasePlanInputs,
    p: ReleasePlan,
)
    requires
        o.no_tag,
        o.no_push,
        release_plan_ok(component_id, o, inp, p),
    ensures
        forall|k: int|
            0 <= k < p.steps@.len() ==> ((#[trigger] p.steps@[k].step_type)@ == "git.commit"@
                || p.steps@[k].step_type@ == "version"@),
        p.hints.deep_view().contains("Skipping push and publish (--no-push)"@),
        p.hints.deep_view().contains("Skipping tag creation (--no-tag)"@),
{
    let to = spec_increment(inp.current_version@, o.bump_type@)->Some_0;
    let models = spec_plan_models(o, inp, to);
    assert(!spec_will_publish(o, inp));
    assert forall|k: int|
        0 <= k < p.steps@.len() implies ((#[trigger] p.steps@[k].step_type)@ == "git.commit"@
        || p.steps@[k].step_type@ == "version"@) by {
        assert(p.steps@.map_values(|s: ReleasePlanStep| plan_step_model(s))[k]
            == plan_step_model(p.steps@[k]));
        assert(models[k].step_type == p.steps@[k].step_type@);
        if spec_needs_pre_commit(o, inp) {
            assert(models.len() == 3);
        } else {
            assert(models.len() == 2);
        }
    }
    let hints = spec_plan_hints(o, inp);
    if spec_needs_pre_commit(o, inp) {
        assert(hints[1] == "Skipping push and publish (--no-push)"@);
        assert(hints[2] == "Skipping tag creation (--no-tag)"@);
    } else {
        assert(hints[0] == "Skipping push and publish (--no-push)"@);
        assert(hints[1] == "Skipping tag creation (--no-tag)"@);
    }
}

} // verus!
