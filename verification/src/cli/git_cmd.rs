//! Arguments of the git command.

use vstd::prelude::*;

verus! {

/// One git subcommand.
#[derive(Debug, Clone)]
pub enum GitCommand {
    Status { component_id: String },
    Commit { component_id: String, message: String },
    Push { component_id: String, tags: bool },
    Pull { component_id: String },
    Tag { component_id: String, tag_name: String, message: Option<String> },
}

/// The git command's arguments.
#[derive(Debug, Clone)]
pub struct GitArgs {
    pub command: GitCommand,
}

} // verus!
