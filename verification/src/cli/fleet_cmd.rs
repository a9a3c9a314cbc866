//! Arguments and output of the fleet command.

use vstd::prelude::*;

verus! {

/// A named group of projects.
#[derive(Debug, Clone)]
pub struct Fleet {
    pub id: String,
    pub project_ids: Vec<String>,
    pub description: Option<String>,
}

/// One fleet subcommand.
#[derive(Debug, Clone)]
pub enum FleetCommand {
    Create { id: String, projects: Vec<String>, description: Option<String> },
    Show { id: String },
    Delete { id: String },
    List,
    Add { id: String, project: String },
    Remove { id: String, project: String },
    Projects { id: String },
    Components { id: String },
}

/// The fleet command's arguments.
#[derive(Debug, Clone)]
pub struct FleetArgs {
    pub command: FleetCommand,
}

/// The fleet command's output.
#[derive(Debug, Clone)]
pub struct FleetOutput {
    pub command: String,
    pub fleet_id: Option<String>,
    pub fleet: Option<Fleet>,
    pub fleets: Option<Vec<Fleet>>,
    pub projects: Option<Vec<String>>,
    pub components: Option<Vec<(String, Vec<String>)>>,
    pub updated_fields: Vec<String>,
}

} // verus!
