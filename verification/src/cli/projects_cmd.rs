//! Arguments and output of the projects listing command.

use vstd::prelude::*;

verus! {

/// The projects command's arguments.
#[derive(Debug, Clone)]
pub struct ProjectsArgs {
    pub current: bool,
}

/// One listed project.
#[derive(Debug, Clone)]
pub struct ProjectListItem {
    pub id: String,
    pub name: String,
    pub domain: String,
    pub project_type: String,
    pub active: bool,
}

/// The projects command's output.
#[derive(Debug, Clone)]
pub struct ProjectsOutput {
    pub command: String,
    pub active_project_id: Option<String>,
    pub projects: Option<Vec<ProjectListItem>>,
}

} // verus!
