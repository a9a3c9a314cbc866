//! Arguments and output of the component deployment command.

use vstd::prelude::*;

verus! {

/// What to deploy and how.
#[derive(Debug, Clone)]
pub struct DeployArgs {
    pub project_id: String,
    pub component_ids: Vec<String>,
    pub all: bool,
    pub outdated: bool,
    pub build: bool,
    pub dry_run: bool,
}

/// One component's deployment outcome.
#[derive(Debug, Clone)]
pub struct DeployComponentResult {
    pub id: String,
    pub name: String,
    pub status: String,
    pub local_version: Option<String>,
    pub remote_version: Option<String>,
    pub error: Option<String>,
    pub artifact_path: Option<String>,
    pub remote_path: Option<String>,
    pub build_command: Option<String>,
    pub build_exit_code: Option<i32>,
    pub deploy_exit_code: Option<i32>,
}

/// Deployment counts.
#[derive(Debug, Clone)]
pub struct DeploySummary {
    pub succeeded: u32,
    pub failed: u32,
    pub skipped: u32,
}

/// The whole deployment report.
#[derive(Debug, Clone)]
pub struct DeployOutput {
    pub command: String,
    pub project_id: String,
    pub all: bool,
    pub outdated: bool,
    pub dry_run: bool,
    pub components: Vec<DeployComponentResult>,
    pub summary: DeploySummary,
}

} // verus!
