//! Release domain types: step kinds, configuration, plans, and the capability
//! resolver that decides which step types the loaded modules can satisfy.

use vstd::prelude::*;

use crate::config::{ConfigValue, StepConfig};
use crate::error::Error;
use crate::module_config::ModuleManifest;
use crate::pipeline::{PipelineCapabilityResolver, PipelineRunResult, clone_step_config, clone_string_vec};

verus! {

/// A release step's kind: a core kind the engine itself understands, a
/// delegated module action, or a module runtime invocation. Keeping the
/// discriminant explicit avoids string prefix sniffing.
#[derive(Debug, Clone)]
pub enum ReleaseStepType {
    Build,
    Changelog,
    Version,
    GitCommit,
    GitTag,
    GitPush,
    Changes,
    ModuleRun,
    ModuleAction(String),
}

/// The wire name of a step type.
pub open spec fn spec_step_type_str(t: ReleaseStepType) -> Seq<char> {
    match t {
        ReleaseStepType::Build => "build"@,
        ReleaseStepType::Changelog => "changelog"@,
        ReleaseStepType::Version => "version"@,
        ReleaseStepType::GitCommit => "git.commit"@,
        ReleaseStepType::GitTag => "git.tag"@,
        ReleaseStepType::GitPush => "git.push"@,
        ReleaseStepType::Changes => "changes"@,
        ReleaseStepType::ModuleRun => "module.run"@,
        ReleaseStepType::ModuleAction(s) => s@,
    }
}

impl ReleaseStepType {
    /// The name this step type is written as.
    pub fn as_str(&self) -> (r: &str)
        ensures
            r@ == spec_step_type_str(*self),
    {
        match self {
            ReleaseStepType::Build => "build",
            ReleaseStepType::Changelog => "changelog",
            ReleaseStepType::Version => "version",
            ReleaseStepType::GitCommit => "git.commit",
            ReleaseStepType::GitTag => "git.tag",
            ReleaseStepType::GitPush => "git.push",
            ReleaseStepType::Changes => "changes",
            ReleaseStepType::ModuleRun => "module.run",
            ReleaseStepType::ModuleAction(s) => s.as_str(),
        }
    }

    /// Whether this is one of the kinds the engine executes itself.
    pub fn is_core_step(&self) -> (r: bool)
        ensures
            r == (self matches ReleaseStepType::Build || self matches ReleaseStepType::Changelog
                || self matches ReleaseStepType::Version || self
                matches ReleaseStepType::GitCommit || self matches ReleaseStepType::GitTag
                || self matches ReleaseStepType::GitPush || self
                matches ReleaseStepType::Changes),
    {
        match self {
            ReleaseStepType::Build => true,
            ReleaseStepType::Changelog => true,
            ReleaseStepType::Version => true,
            ReleaseStepType::GitCommit => true,
            ReleaseStepType::GitTag => true,
            ReleaseStepType::GitPush => true,
            ReleaseStepType::Changes => true,
            _ => false,
        }
    }

    /// Reads a step type back from its wire name; an unknown name is a
    /// delegated module action of that name.
    pub fn parse(s: &str) -> (r: ReleaseStepType)
        ensures
            spec_step_type_str(r) == s@,
            s@ == "build"@ ==> r is Build,
            s@ == "changelog"@ ==> r is Changelog,
            s@ == "version"@ ==> r is Version,
            s@ == "git.commit"@ ==> r is GitCommit,
            s@ == "git.tag"@ ==> r is GitTag,
            s@ == "git.push"@ ==> r is GitPush,
            s@ == "changes"@ ==> r is Changes,
            s@ == "module.run"@ ==> r is ModuleRun,
    {
        proof {
            reveal_strlit("build");
            reveal_strlit("changelog");
            reveal_strlit("version");
            reveal_strlit("git.commit");
            reveal_strlit("git.tag");
            reveal_strlit("git.push");
            reveal_strlit("changes");
            reveal_strlit("module.run");
            broadcast use vstd::string::group_string_axioms;

            assert("build"@.len() == 5 && "changelog"@.len() == 9 && "version"@.len() == 7
                && "git.commit"@.len() == 10 && "git.tag"@.len() == 7 && "git.push"@.len()
                == 8 && "changes"@.len() == 7 && "module.run"@.len() == 10);
            assert("git.tag"@[0] == 'g' && "version"@[0] == 'v' && "changes"@[0] == 'c'
                && "git.commit"@[0] == 'g' && "module.run"@[0] == 'm');
        }
        let k = String::from_str(s);
        if k.eq(&String::from_str("build")) {
            ReleaseStepType::Build
        } else if k.eq(&String::from_str("changelog")) {
            ReleaseStepType::Changelog
        } else if k.eq(&String::from_str("version")) {
            ReleaseStepType::Version
        } else if k.eq(&String::from_str("git.commit")) {
            ReleaseStepType::GitCommit
        } else if k.eq(&String::from_str("git.tag")) {
            ReleaseStepType::GitTag
        } else if k.eq(&String::from_str("git.push")) {
            ReleaseStepType::GitPush
        } else if k.eq(&String::from_str("changes")) {
            ReleaseStepType::Changes
        } else if k.eq(&String::from_str("module.run")) {
            ReleaseStepType::ModuleRun
        } else {
            ReleaseStepType::ModuleAction(k)
        }
    }
}

/// One declared release step.
#[derive(Debug, Clone)]
pub struct ReleaseStep {
    pub id: String,
    pub step_type: ReleaseStepType,
    pub label: Option<String>,
    pub needs: Vec<String>,
    pub config: StepConfig,
}

/// A component's release configuration.
#[derive(Debug, Clone)]
pub struct ReleaseConfig {
    pub enabled: Option<bool>,
    pub steps: Vec<ReleaseStep>,
    pub settings: Vec<(String, ConfigValue)>,
}

/// Feasibility of one planned release step.
#[derive(Debug, Clone, Copy, PartialEq, Eq, Structural)]
pub enum ReleasePlanStatus {
    Ready,
    Missing,
    Disabled,
}

/// One step of a release plan, annotated with feasibility.
#[derive(Debug, Clone)]
pub struct ReleasePlanStep {
    pub id: String,
    pub step_type: String,
    pub label: Option<String>,
    pub needs: Vec<String>,
    pub config: StepConfig,
    pub status: ReleasePlanStatus,
    pub missing: Vec<String>,
}

/// The feasibility-annotated, unexecuted release plan.
#[derive(Debug, Clone)]
pub struct ReleasePlan {
    pub component_id: String,
    pub enabled: bool,
    pub steps: Vec<ReleasePlanStep>,
    pub warnings: Vec<String>,
    pub hints: Vec<String>,
}

/// An executed release.
#[derive(Debug, Clone)]
pub struct ReleaseRun {
    pub component_id: String,
    pub enabled: bool,
    pub result: PipelineRunResult,
}

/// One artifact a packaging step produced.
#[derive(Debug, Clone)]
pub struct ReleaseArtifact {
    pub path: String,
    pub artifact_type: Option<String>,
    pub platform: Option<String>,
}

/// The user's choices for one release.
#[derive(Debug, Clone)]
pub struct ReleaseOptions {
    pub bump_type: String,
    pub dry_run: bool,
    pub no_tag: bool,
    pub no_push: bool,
    pub no_commit: bool,
    pub commit_message: Option<String>,
}

/// Where an effective release configuration came from.
#[derive(Debug, Clone)]
pub struct ReleaseSources {
    pub module: bool,
    pub project: bool,
    pub component: bool,
}

/// A merged release configuration with its provenance.
#[derive(Debug, Clone)]
pub struct EffectiveReleaseConfig {
    pub config: ReleaseConfig,
    pub sources: ReleaseSources,
}

/// The ghost shape of a declared release step.
pub open spec fn release_step_model(s: ReleaseStep) -> (
    Seq<char>,
    Seq<char>,
    Option<Seq<char>>,
    Seq<Seq<char>>,
    Seq<(Seq<char>, crate::config::ConfigValueModel)>,
) {
    (
        s.id@,
        spec_step_type_str(s.step_type),
        crate::version::opt_string_view(s.label),
        s.needs.deep_view(),
        s.config.deep_view(),
    )
}

fn clone_release_step(s: &ReleaseStep) -> (r: ReleaseStep)
    ensures
        release_step_model(r) == release_step_model(*s),
        r.step_type is ModuleAction <==> s.step_type is ModuleAction,
        r.step_type is ModuleRun <==> s.step_type is ModuleRun,
        r.step_type is GitPush <==> s.step_type is GitPush,
{
    ReleaseStep {
        id: s.id.clone(),
        step_type: match &s.step_type {
            ReleaseStepType::Build => ReleaseStepType::Build,
            ReleaseStepType::Changelog => ReleaseStepType::Changelog,
            ReleaseStepType::Version => ReleaseStepType::Version,
            ReleaseStepType::GitCommit => ReleaseStepType::GitCommit,
            ReleaseStepType::GitTag => ReleaseStepType::GitTag,
            ReleaseStepType::GitPush => ReleaseStepType::GitPush,
            ReleaseStepType::Changes => ReleaseStepType::Changes,
            ReleaseStepType::ModuleRun => ReleaseStepType::ModuleRun,
            ReleaseStepType::ModuleAction(a) => ReleaseStepType::ModuleAction(a.clone()),
        },
        label: match &s.label {
            Some(l) => Some(l.clone()),
            None => None,
        },
        needs: clone_string_vec(&s.needs),
        config: clone_step_config(&s.config),
    }
}


/// Whether a release configuration declares any publish-flavored step:
/// a push, a delegated module action, or a module runtime invocation.
pub fn has_publish_targets(release: Option<&ReleaseConfig>) -> (r: bool)
    ensures
        r == match release {
            Some(c) => exists|i: int|
                0 <= i < c.steps@.len() && ((#[trigger] c.steps@[i].step_type) is GitPush
                    || c.steps@[i].step_type is ModuleAction || c.steps@[i].step_type
                    is ModuleRun),
            None => false,
        },
{
    match release {
        None => false,
        Some(c) => {
            let mut i: usize = 0;
            while i < c.steps.len()
                invariant
                    release == Some(c),
                    0 <= i <= c.steps@.len(),
                    forall|j: int|
                        0 <= j < i ==> !((#[trigger] c.steps@[j].step_type) is GitPush
                            || c.steps@[j].step_type is ModuleAction || c.steps@[j].step_type
                            is ModuleRun),
                decreases c.steps@.len() - i,
            {
                let hit = match &c.steps[i].step_type {
                    ReleaseStepType::GitPush => true,
                    ReleaseStepType::ModuleAction(_) => true,
                    ReleaseStepType::ModuleRun => true,
                    _ => false,
                };
                if hit {
                    proof {
                        let st = c.steps@[i as int].step_type;
                        assert(c.steps@[i as int].step_type is GitPush || c.steps@[
                            i as int].step_type is ModuleAction || c.steps@[i as int].step_type
                            is ModuleRun);
                        assert(exists|z: int|
                            0 <= z < c.steps@.len() && ((#[trigger] c.steps@[z].step_type)
                                is GitPush || c.steps@[z].step_type is ModuleAction
                                || c.steps@[z].step_type is ModuleRun));
                    }
                    return true;
                }
                i = i + 1;
            }
            proof {
                assert(!(exists|z: int|
                    0 <= z < c.steps@.len() && ((#[trigger] c.steps@[z].step_type) is GitPush
                        || c.steps@[z].step_type is ModuleAction || c.steps@[z].step_type
                        is ModuleRun)));
            }
            false
        },
    }
}

/// Overlays one release configuration over another: the overlay's `enabled`
/// and step list win when set, and its settings shadow the base's.
pub fn merge_release_config(
    base: Option<&ReleaseConfig>,
    overlay: Option<&ReleaseConfig>,
) -> (r: Option<ReleaseConfig>)
    ensures
        base is None && overlay is None ==> r is None,
        (base is Some || overlay is Some) ==> r is Some,
        match (base, overlay, r) {
            (Some(b), Some(o), Some(m)) => {
                &&& m.enabled == (if o.enabled is Some {
                    o.enabled
                } else {
                    b.enabled
                })
                &&& m.steps@.map_values(|e: ReleaseStep| release_step_model(e)) == (
                if o.steps@.len() > 0 {
                    o.steps@.map_values(|e: ReleaseStep| release_step_model(e))
                } else {
                    b.steps@.map_values(|e: ReleaseStep| release_step_model(e))
                })
                &&& m.settings.deep_view() == o.settings.deep_view() + b.settings.deep_view()
            },
            (Some(b), None, Some(m)) => {
                &&& m.enabled == b.enabled
                &&& m.steps@.map_values(|e: ReleaseStep| release_step_model(e))
                    == b.steps@.map_values(|e: ReleaseStep| release_step_model(e))
                &&& m.settings.deep_view() == b.settings.deep_view()
            },
            (None, Some(o), Some(m)) => {
                &&& m.enabled == o.enabled
                &&& m.steps@.map_values(|e: ReleaseStep| release_step_model(e))
                    == o.steps@.map_values(|e: ReleaseStep| release_step_model(e))
                &&& m.settings.deep_view() == o.settings.deep_view()
            },
            _ => true,
        },
{
    match (base, overlay) {
        (None, None) => None,
        (Some(c), None) => Some(clone_release_config(c)),
        (None, Some(c)) => Some(clone_release_config(c)),
        (Some(b), Some(o)) => {
            let enabled = if o.enabled.is_some() {
                o.enabled
            } else {
                b.enabled
            };
            let steps = if o.steps.len() > 0 {
                clone_release_steps(&o.steps)
            } else {
                clone_release_steps(&b.steps)
            };
            let mut settings = clone_step_config(&o.settings);
            let more = clone_step_config(&b.settings);
            let ghost head = settings.deep_view();
            let mut i: usize = 0;
            while i < more.len()
                invariant
                    0 <= i <= more@.len(),
                    settings.deep_view() =~= head + more.deep_view().subrange(0, i as int),
                    more.deep_view().len() == more@.len(),
                decreases more@.len() - i,
            {
                let key = more[i].0.clone();
                let val = crate::pipeline::clone_config_value(&more[i].1);
                let ghost prev = settings.deep_view();
                let ghost pushed = (key@, val.deep_view());
                settings.push((key, val));
                proof {
                    assert(settings.deep_view() =~~= prev.push(pushed));
                    let ghost entry = more@[i as int];
                    assert(more.deep_view()[i as int] == (entry.0@, entry.1.deep_view()));
                    assert(pushed == more.deep_view()[i as int]);
                    assert(settings.deep_view() =~~= head + more.deep_view().subrange(
                        0,
                        i + 1,
                    ));
                }
                i = i + 1;
            }
            proof {
                assert(more.deep_view().subrange(0, more.deep_view().len() as int)
                    =~= more.deep_view());
                assert(settings.deep_view() =~~= o.settings.deep_view()
                    + b.settings.deep_view());
            }
            Some(ReleaseConfig { enabled, steps, settings })
        },
    }
}

fn clone_release_steps(v: &Vec<ReleaseStep>) -> (r: Vec<ReleaseStep>)
    ensures
        r@.len() == v@.len(),
        r@.map_values(|e: ReleaseStep| release_step_model(e)) == v@.map_values(
            |e: ReleaseStep| release_step_model(e),
        ),
{
    let mut out: Vec<ReleaseStep> = Vec::new();
    let mut i: usize = 0;
    while i < v.len()
        invariant
            0 <= i <= v@.len(),
            out@.len() == i,
            forall|j: int|
                0 <= j < i ==> release_step_model(#[trigger] out@[j]) == release_step_model(
                    v@[j],
                ),
        decreases v@.len() - i,
    {
        out.push(clone_release_step(&v[i]));
        i = i + 1;
    }
    proof {
        assert(out@.map_values(|e: ReleaseStep| release_step_model(e)) =~= v@.map_values(
            |e: ReleaseStep| release_step_model(e),
        ));
    }
    out
}


fn clone_release_config(c: &ReleaseConfig) -> (r: ReleaseConfig)
    ensures
        r.enabled == c.enabled,
        r.steps@.map_values(|e: ReleaseStep| release_step_model(e)) == c.steps@.map_values(
            |e: ReleaseStep| release_step_model(e),
        ),
        r.steps@.len() == c.steps@.len(),
        r.settings.deep_view() == c.settings.deep_view(),
{
    ReleaseConfig {
        enabled: c.enabled,
        steps: clone_release_steps(&c.steps),
        settings: clone_step_config(&c.settings),
    }
}


/// Merges module, project, and component release configurations; later
/// sources shadow earlier ones.
pub fn resolve_effective_config(
    component: Option<&ReleaseConfig>,
    project: Option<&ReleaseConfig>,
    module: Option<&ReleaseConfig>,
) -> (r: Option<EffectiveReleaseConfig>)
    ensures
        r is Some <==> (component is Some || project is Some || module is Some),
        match r {
            Some(e) => {
                &&& e.sources.module == (module is Some)
                &&& e.sources.project == (project is Some)
                &&& e.sources.component == (component is Some)
            },
            None => true,
        },
{
    let merged_mp = merge_release_config(module, project);
    let merged = merge_release_config(merged_mp.as_ref(), component);
    match merged {
        None => None,
        Some(config) => Some(
            EffectiveReleaseConfig {
                config,
                sources: ReleaseSources {
                    module: module.is_some(),
                    project: project.is_some(),
                    component: component.is_some(),
                },
            },
        ),
    }
}

/// The action id a plugin must advertise to satisfy a delegated step type.
pub open spec fn spec_release_action_id(step_type: Seq<char>) -> Seq<char> {
    "release."@ + step_type
}

/// Builds `release.<step_type>`.
pub fn release_action_id(step_type: &str) -> (r: String)
    ensures
        r@ == spec_release_action_id(step_type@),
{
    let mut out = String::from_str("release.");
    out.append(step_type);
    out
}

/// Some loaded module advertises the given action id.
pub open spec fn spec_module_has_action(
    modules: Seq<ModuleManifest>,
    action_id: Seq<char>,
) -> bool {
    exists|m: int, a: int|
        0 <= m < modules.len() && 0 <= a < modules[m].actions@.len()
            && (#[trigger] modules[m].actions@[a].id)@ == action_id
}


/// The names of the step kinds the engine executes itself.
pub open spec fn spec_core_step_name(st: Seq<char>) -> bool {
    ||| st == "build"@
    ||| st == "changelog"@
    ||| st == "version"@
    ||| st == "git.commit"@
    ||| st == "git.tag"@
    ||| st == "git.push"@
    ||| st == "changes"@
}

/// A step type the release domain can satisfy: a core kind, a module runtime
/// invocation, or an action some loaded module advertises.
pub open spec fn spec_release_supported(modules: Seq<ModuleManifest>, st: Seq<char>) -> bool {
    ||| spec_core_step_name(st)
    ||| st == "module.run"@
    ||| spec_module_has_action(modules, spec_release_action_id(st))
}

/// Whether any of the given modules advertises `release.<step_type>`.
fn module_action_supported(modules: &Vec<ModuleManifest>, step_type: &str) -> (r: bool)
    ensures
        r == spec_module_has_action(modules@, spec_release_action_id(step_type@)),
{
    let action_id = release_action_id(step_type);
    let mut m: usize = 0;
    while m < modules.len()
        invariant
            0 <= m <= modules@.len(),
            action_id@ == spec_release_action_id(step_type@),
            forall|m0: int, a0: int|
                0 <= m0 < m && 0 <= a0 < modules@[m0].actions@.len()
                    ==> (#[trigger] modules@[m0].actions@[a0].id)@ != action_id@,
        decreases modules@.len() - m,
    {
        let actions = &modules[m].actions;
        let mut a: usize = 0;
        while a < actions.len()
            invariant
                0 <= a <= actions@.len(),
                0 <= m < modules@.len(),
                action_id@ == spec_release_action_id(step_type@),
                actions@ == modules@[m as int].actions@,
                forall|a0: int|
                    0 <= a0 < a ==> (#[trigger] modules@[m as int].actions@[a0].id)@
                        != action_id@,
            decreases actions@.len() - a,
        {
            if actions[a].id.eq(&action_id) {
                proof {
                    assert((modules@[m as int].actions@[a as int].id)@ == action_id@);
                    assert(spec_module_has_action(modules@, action_id@));
                }
                return true;
            }
            a = a + 1;
        }
        m = m + 1;
    }
    proof {
        assert(!spec_module_has_action(modules@, action_id@));
    }
    false
}

/// Decides whether the release domain can satisfy a step type: the fixed
/// core kinds and `module.run` always can; anything else needs a loaded
/// module advertising `release.<step_type>`.
pub fn release_supported(modules: &Vec<ModuleManifest>, step_type: &str) -> (r: bool)
    ensures
        r == spec_release_supported(modules@, step_type@),
{
    let st = ReleaseStepType::parse(step_type);
    let is_run = match st {
        ReleaseStepType::ModuleRun => true,
        _ => false,
    };
    let core = st.is_core_step();
    proof {
        if st is Build {
            assert(step_type@ == "build"@);
        } else if st is Changelog {
            assert(step_type@ == "changelog"@);
        } else if st is Version {
            assert(step_type@ == "version"@);
        } else if st is GitCommit {
            assert(step_type@ == "git.commit"@);
        } else if st is GitTag {
            assert(step_type@ == "git.tag"@);
        } else if st is GitPush {
            assert(step_type@ == "git.push"@);
        } else if st is Changes {
            assert(step_type@ == "changes"@);
        } else if st is ModuleRun {
            assert(step_type@ == "module.run"@);
        }
    }
    if is_run || core {
        return true;
    }
    proof {
        assert(!spec_core_step_name(step_type@));
        assert(step_type@ != "module.run"@);
    }
    module_action_supported(modules, step_type)
}

/// The reasons reported for an unsupported step type: the action id nobody
/// advertises; a module runtime step never reports any.
pub fn release_missing(step_type: &str) -> (r: Vec<String>)
    ensures
        step_type@ == "module.run"@ ==> r.deep_view() == Seq::<Seq<char>>::empty(),
        step_type@ != "module.run"@ ==> r.deep_view() == seq![
            "Missing action '"@ + spec_release_action_id(step_type@) + "'"@,
        ],
{
    let st = ReleaseStepType::parse(step_type);
    let is_run = match st {
        ReleaseStepType::ModuleRun => true,
        _ => false,
    };
    proof {
        if st is ModuleRun {
            assert(step_type@ == "module.run"@);
        } else {
            assert(spec_step_type_str(st) == step_type@);
            if step_type@ == "module.run"@ {
                assert(st is ModuleRun);
            }
        }
    }
    let mut out: Vec<String> = Vec::new();
    if is_run {
        proof {
            assert(out.deep_view() =~= Seq::<Seq<char>>::empty());
        }
        return out;
    }
    let action_id = release_action_id(step_type);
    let mut msg = String::from_str("Missing action '");
    msg.append(action_id.as_str());
    msg.append("'");
    out.push(msg);
    proof {
        assert(out.deep_view() =~~= seq![
            "Missing action '"@ + spec_release_action_id(step_type@) + "'"@,
        ]);
    }
    out
}

/// The ids of the modules advertising an action, in load order.
pub open spec fn spec_matching_ids(
    modules: Seq<ModuleManifest>,
    action_id: Seq<char>,
) -> Seq<Seq<char>>
    decreases modules.len(),
{
    if modules.len() == 0 {
        Seq::empty()
    } else {
        (if spec_module_advertises(modules[0], action_id) {
            seq![modules[0].id@]
        } else {
            Seq::empty()
        }) + spec_matching_ids(modules.drop_first(), action_id)
    }
}

/// One module advertises the action.
pub open spec fn spec_module_advertises(m: ModuleManifest, action_id: Seq<char>) -> bool {
    exists|a: int| 0 <= a < m.actions@.len() && (#[trigger] m.actions@[a].id)@ == action_id
}

proof fn lemma_matching_ids_nonempty(modules: Seq<ModuleManifest>, action_id: Seq<char>)
    ensures
        spec_matching_ids(modules, action_id).len() > 0 <==> spec_module_has_action(
            modules,
            action_id,
        ),
    decreases modules.len(),
{
    if modules.len() == 0 {
        if spec_module_has_action(modules, action_id) {
            let (m, a) = choose|m: int, a: int|
                0 <= m < modules.len() && 0 <= a < modules[m].actions@.len()
                    && (#[trigger] modules[m].actions@[a].id)@ == action_id;
            assert(false);
        }
    } else {
        lemma_matching_ids_nonempty(modules.drop_first(), action_id);
        if spec_module_advertises(modules[0], action_id) {
            let a = choose|a: int|
                0 <= a < modules[0].actions@.len() && (#[trigger] modules[0].actions@[a].id)@
                    == action_id;
            assert(spec_module_has_action(modules, action_id));
        } else {
            if spec_module_has_action(modules, action_id) {
                let (m, a) = choose|m: int, a: int|
                    0 <= m < modules.len() && 0 <= a < modules[m].actions@.len()
                        && (#[trigger] modules[m].actions@[a].id)@ == action_id;
                assert(m > 0);
                assert(modules.drop_first()[m - 1] == modules[m]);
                assert(spec_module_has_action(modules.drop_first(), action_id));
            }
            if spec_module_has_action(modules.drop_first(), action_id) {
                let rest = modules.drop_first();
                let (m, a) = choose|m: int, a: int|
                    0 <= m < rest.len() && 0 <= a < rest[m].actions@.len()
                        && (#[trigger] rest[m].actions@[a].id)@ == action_id;
                assert(rest[m] == modules[m + 1]);
                assert(spec_module_has_action(modules, action_id));
            }
        }
    }
}

/// The ids of the modules advertising an action id, in load order.
pub fn matching_modules(modules: &Vec<ModuleManifest>, action_id: &str) -> (r: Vec<String>)
    ensures
        r.deep_view() == spec_matching_ids(modules@, action_id@),
        r@.len() > 0 <==> spec_module_has_action(modules@, action_id@),
{
    let aid = String::from_str(action_id);
    let ghost mv = modules@;
    let mut out: Vec<String> = Vec::new();
    let mut m: usize = 0;
    proof {
        assert(mv.subrange(0, mv.len() as int) =~= mv);
        assert(out.deep_view() =~= Seq::<Seq<char>>::empty());
    }
    while m < modules.len()
        invariant
            0 <= m <= mv.len(),
            mv == modules@,
            aid@ == action_id@,
            out.deep_view() + spec_matching_ids(
                mv.subrange(m as int, mv.len() as int),
                action_id@,
            ) =~~= spec_matching_ids(mv, action_id@),
        decreases mv.len() - m,
    {
        let ghost tail = mv.subrange(m as int, mv.len() as int);
        let ghost tail2 = mv.subrange(m + 1, mv.len() as int);
        proof {
            assert(tail.len() > 0);
            assert(tail[0] == mv[m as int]);
            assert(tail.drop_first() =~= tail2);
        }
        let actions = &modules[m].actions;
        let mut hit = false;
        let mut a: usize = 0;
        while a < actions.len()
            invariant
                0 <= a <= actions@.len(),
                0 <= m < mv.len(),
                mv == modules@,
                aid@ == action_id@,
                actions@ == mv[m as int].actions@,
                hit <==> exists|a0: int|
                    0 <= a0 < a && (#[trigger] mv[m as int].actions@[a0].id)@ == action_id@,
            decreases actions@.len() - a,
        {
            if actions[a].id.eq(&aid) {
                hit = true;
                proof {
                    assert((mv[m as int].actions@[a as int].id)@ == action_id@);
                }
            }
            a = a + 1;
        }
        proof {
            if hit {
                assert(spec_module_advertises(mv[m as int], action_id@));
            } else {
                if spec_module_advertises(mv[m as int], action_id@) {
                    let a0 = choose|a0: int|
                        0 <= a0 < mv[m as int].actions@.len()
                            && (#[trigger] mv[m as int].actions@[a0].id)@ == action_id@;
                    assert(false);
                }
            }
        }
        if hit {
            let ghost old_out = out.deep_view();
            out.push(modules[m].id.clone());
            proof {
                assert(out.deep_view() =~~= old_out.push(mv[m as int].id@));
                assert(spec_matching_ids(tail, action_id@) =~~= seq![mv[m as int].id@]
                    + spec_matching_ids(tail2, action_id@));
                assert(out.deep_view() + spec_matching_ids(tail2, action_id@)
                    =~~= spec_matching_ids(mv, action_id@));
            }
        } else {
            proof {
                assert(spec_matching_ids(tail, action_id@) =~~= spec_matching_ids(
                    tail2,
                    action_id@,
                ));
            }
        }
        m = m + 1;
    }
    proof {
        assert(spec_matching_ids(mv.subrange(m as int, mv.len() as int), action_id@)
            =~= Seq::<Seq<char>>::empty());
        assert(out.deep_view() =~~= spec_matching_ids(mv, action_id@));
        lemma_matching_ids_nonempty(mv, action_id@);
    }
    out
}

/// Resolves which modules a delegated action runs on: every module
/// advertising the action id, in load order; none advertising it is an
/// error, never a runtime no-op.
pub fn resolve_module_actions(modules: &Vec<ModuleManifest>, action_id: &str) -> (r: Result<
    Vec<String>,
    Error,
>)
    ensures
        r is Ok <==> spec_module_has_action(modules@, action_id@),
        match r {
            Ok(ids) => ids.deep_view() == spec_matching_ids(modules@, action_id@)
                && ids@.len() > 0,
            Err(e) => e.code == crate::error::ErrorCode::ValidationInvalidArgument
                && e.message@ == "No module provides action '"@ + action_id@ + "'"@,
        },
{
    let ids = matching_modules(modules, action_id);
    if ids.len() == 0 {
        let mut msg = String::from_str("No module provides action '");
        msg.append(action_id);
        msg.append("'");
        return Err(
            Error::validation_invalid_argument("release.steps", msg, None, None),
        );
    }
    Ok(ids)
}

/// Decides release capability from the fixed core kinds plus the actions the
/// loaded modules advertise.
pub struct ReleaseCapabilityResolver {
    pub modules: Vec<ModuleManifest>,
}

impl ReleaseCapabilityResolver {
    pub fn new(modules: Vec<ModuleManifest>) -> (r: ReleaseCapabilityResolver)
        ensures
            r.modules@ == modules@,
    {
        ReleaseCapabilityResolver { modules }
    }

    /// Whether any loaded module advertises `release.<step_type>`.
    fn supports_module_action(&self, step_type: &str) -> (r: bool)
        ensures
            r == spec_module_has_action(self.modules@, spec_release_action_id(step_type@)),
    {
        let action_id = release_action_id(step_type);
        let mut m: usize = 0;
        while m < self.modules.len()
            invariant
                0 <= m <= self.modules@.len(),
                action_id@ == spec_release_action_id(step_type@),
                forall|m0: int, a0: int|
                    0 <= m0 < m && 0 <= a0 < self.modules@[m0].actions@.len()
                        ==> (#[trigger] self.modules@[m0].actions@[a0].id)@ != action_id@,
            decreases self.modules@.len() - m,
        {
            let actions = &self.modules[m].actions;
            let mut a: usize = 0;
            while a < actions.len()
                invariant
                    0 <= a <= actions@.len(),
                    0 <= m < self.modules@.len(),
                    action_id@ == spec_release_action_id(step_type@),
                    actions@ == self.modules@[m as int].actions@,
                    forall|a0: int|
                        0 <= a0 < a ==> (#[trigger] self.modules@[m as int].actions@[a0].id)@
                            != action_id@,
                decreases actions@.len() - a,
            {
                if actions[a].id.eq(&action_id) {
                    proof {
                        assert((self.modules@[m as int].actions@[a as int].id)@ == action_id@);
                        assert(spec_module_has_action(self.modules@, action_id@));
                    }
                    return true;
                }
                a = a + 1;
            }
            m = m + 1;
        }
        proof {
            assert(!spec_module_has_action(self.modules@, action_id@));
        }
        false
    }
}

impl PipelineCapabilityResolver for ReleaseCapabilityResolver {
    /// A step type is supported when it is a core kind, a module runtime
    /// invocation, or an action some loaded module advertises.
    fn is_supported(&self, step_type: &str) -> bool {
        release_supported(&self.modules, step_type)
    }

    /// Why a step type cannot be satisfied: the action nobody advertises.
    fn missing(&self, step_type: &str) -> Vec<String> {
        release_missing(step_type)
    }
}

} // verus!
