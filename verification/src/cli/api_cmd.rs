//! Arguments of the api command.

use vstd::prelude::*;

verus! {

/// One api subcommand: the HTTP method with its endpoint and optional body.
#[derive(Debug, Clone)]
pub enum ApiCommand {
    Get { endpoint: String },
    Post { endpoint: String, body: Option<String> },
    Put { endpoint: String, body: Option<String> },
    Patch { endpoint: String, body: Option<String> },
    Delete { endpoint: String },
}

/// The api command's arguments.
#[derive(Debug, Clone)]
pub struct ApiArgs {
    pub project_id: String,
    pub command: ApiCommand,
}

} // verus!
