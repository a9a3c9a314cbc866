use homeboy::config::ConfigValue;
use homeboy::error::Error;
use homeboy::pipeline::{
    execution_order, plan, run, PipelineCapabilityResolver, PipelineRunStatus, PipelineStep,
    PipelineStepExecutor, PipelineStepOutcome, PipelineStepStatus,
};

fn step(id: &str, step_type: &str, needs: &[&str]) -> PipelineStep {
    PipelineStep {
        id: id.to_string(),
        step_type: step_type.to_string(),
        label: None,
        needs: needs.iter().map(|n| n.to_string()).collect(),
        config: Vec::<(String, ConfigValue)>::new(),
    }
}

struct AllowAll;

impl PipelineCapabilityResolver for AllowAll {
    fn is_supported(&self, _step_type: &str) -> bool {
        true
    }
    fn missing(&self, _step_type: &str) -> Vec<String> {
        Vec::new()
    }
}

struct DenyType(&'static str);

impl PipelineCapabilityResolver for DenyType {
    fn is_supported(&self, step_type: &str) -> bool {
        step_type != self.0
    }
    fn missing(&self, step_type: &str) -> Vec<String> {
        vec![format!("no handler for {}", step_type)]
    }
}

struct FailType(&'static str);

impl PipelineStepExecutor for FailType {
    fn execute_step(&self, step: &PipelineStep) -> Result<PipelineStepOutcome, Error> {
        Ok(PipelineStepOutcome {
            success: step.step_type != self.0,
            data: None,
            error: if step.step_type == self.0 {
                Some("boom".to_string())
            } else {
                None
            },
            hints: Vec::new(),
        })
    }
}

#[test]
fn plan_and_run_visit_the_same_step_ids_in_the_same_order() {
    let steps = vec![
        step("a", "build", &[]),
        step("b", "test", &["a"]),
        step("c", "package", &["b"]),
    ];
    let ps = plan(&steps, &AllowAll, true).unwrap();
    let rr = run(&steps, &FailType("none"), &AllowAll, true).unwrap();
    let plan_ids: Vec<&str> = ps.iter().map(|s| s.id.as_str()).collect();
    let run_ids: Vec<&str> = rr.steps.iter().map(|s| s.id.as_str()).collect();
    assert_eq!(plan_ids, vec!["a", "b", "c"]);
    assert_eq!(plan_ids, run_ids);
}

#[test]
fn a_needs_cycle_always_fails_graph_construction() {
    let steps = vec![step("a", "build", &["b"]), step("b", "test", &["a"])];
    assert!(execution_order(&steps).is_err());
    assert!(plan(&steps, &AllowAll, true).is_err());
    assert!(run(&steps, &FailType("none"), &AllowAll, true).is_err());
}

#[test]
fn duplicate_ids_and_dangling_needs_are_rejected() {
    let dup = vec![step("a", "build", &[]), step("a", "test", &[])];
    assert!(execution_order(&dup).is_err());
    let dangling = vec![step("a", "build", &["ghost"])];
    assert!(execution_order(&dangling).is_err());
}

#[test]
fn missing_step_disables_its_downstream_but_not_siblings() {
    let steps = vec![
        step("a", "exotic", &[]),
        step("b", "test", &["a"]),
        step("c", "build", &[]),
    ];
    let ps = plan(&steps, &DenyType("exotic"), true).unwrap();
    assert_eq!(ps[0].id, "a");
    assert!(matches!(ps[0].status, PipelineStepStatus::Missing));
    assert_eq!(ps[0].missing, vec!["no handler for exotic".to_string()]);
    assert_eq!(ps[1].id, "b");
    assert!(matches!(ps[1].status, PipelineStepStatus::Disabled));
    assert_eq!(ps[2].id, "c");
    assert!(matches!(ps[2].status, PipelineStepStatus::Ready));
}

#[test]
fn disabled_pipeline_marks_every_step_disabled() {
    let steps = vec![step("a", "build", &[])];
    let ps = plan(&steps, &AllowAll, false).unwrap();
    assert!(matches!(ps[0].status, PipelineStepStatus::Disabled));
    assert_eq!(ps[0].missing, vec!["pipeline disabled".to_string()]);
}

#[test]
fn failed_step_blocks_dependents_and_spares_independent_branches() {
    let steps = vec![
        step("a", "flaky", &[]),
        step("b", "test", &["a"]),
        step("c", "build", &[]),
    ];
    let rr = run(&steps, &FailType("flaky"), &AllowAll, true).unwrap();
    assert!(matches!(rr.steps[0].status, PipelineRunStatus::Failed));
    assert_eq!(rr.steps[0].error, Some("boom".to_string()));
    assert!(matches!(rr.steps[1].status, PipelineRunStatus::Blocked));
    assert!(matches!(rr.steps[2].status, PipelineRunStatus::Success));
    assert_eq!(rr.failed, 1);
    assert_eq!(rr.blocked, 1);
    assert_eq!(rr.succeeded, 1);
    assert_eq!(rr.skipped, 0);
}

#[test]
fn run_skips_infeasible_steps_and_counts_them() {
    let steps = vec![step("a", "exotic", &[]), step("b", "build", &[])];
    let rr = run(&steps, &FailType("none"), &DenyType("exotic"), true).unwrap();
    assert!(matches!(rr.steps[0].status, PipelineRunStatus::Skipped));
    assert!(matches!(rr.steps[1].status, PipelineRunStatus::Success));
    assert_eq!(rr.skipped, 1);
    assert_eq!(rr.succeeded, 1);
}

#[test]
fn execution_order_respects_needs_and_source_order() {
    let steps = vec![
        step("z", "build", &["m"]),
        step("m", "build", &[]),
        step("q", "build", &[]),
    ];
    let order = execution_order(&steps).unwrap();
    assert_eq!(order, vec![1, 0, 2]);
}
