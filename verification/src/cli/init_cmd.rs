//! Arguments and output of the workspace overview command.

use vstd::prelude::*;

use crate::server::Server;

verus! {

/// The overview command's arguments.
#[derive(Debug, Clone)]
pub struct InitArgs {}

/// One listed project.
#[derive(Debug, Clone)]
pub struct ProjectListItem {
    pub id: String,
    pub domain: Option<String>,
}

/// One listed module with its status.
#[derive(Debug, Clone)]
pub struct ModuleEntry {
    pub id: String,
    pub name: String,
    pub version: String,
    pub description: String,
    pub runtime: String,
    pub compatible: bool,
    pub ready: bool,
    pub linked: bool,
}

/// The overview: everything configured, in one report.
#[derive(Debug, Clone)]
pub struct InitOutput {
    pub command: String,
    pub servers: Vec<Server>,
    pub projects: Vec<ProjectListItem>,
    pub modules: Vec<ModuleEntry>,
}

} // verus!
