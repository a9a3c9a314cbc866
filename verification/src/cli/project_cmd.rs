//! Arguments and output of the project command.

use vstd::prelude::*;

verus! {

/// A project record as the project command reports it.
#[derive(Debug, Clone)]
pub struct ProjectRecord {
    pub id: String,
    pub name: String,
    pub domain: String,
    pub project_type: String,
}

/// One project subcommand.
#[derive(Debug, Clone)]
pub enum ProjectCommand {
    Show { project_id: Option<String> },
    Switch { project_id: String },
}

/// The project command's arguments.
#[derive(Debug, Clone)]
pub struct ProjectArgs {
    pub command: ProjectCommand,
}

/// The project command's output.
#[derive(Debug, Clone)]
pub struct ProjectOutput {
    pub command: String,
    pub project_id: Option<String>,
    pub project: Option<ProjectRecord>,
}

} // verus!
