//! Arguments and output of the ssh command.

use vstd::prelude::*;

verus! {

/// The ssh command's arguments.
#[derive(Debug, Clone)]
pub struct SshArgs {
    pub project_id: String,
    pub command: Option<String>,
}

/// The ssh command's output.
#[derive(Debug, Clone)]
pub struct SshOutput {
    pub project_id: String,
    pub command: Option<String>,
}

} // verus!
