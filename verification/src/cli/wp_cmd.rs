//! Arguments and output of the wp command.

use vstd::prelude::*;

verus! {

/// The wp command's arguments.
#[derive(Debug, Clone)]
pub struct WpArgs {
    pub project_id: String,
    pub local: bool,
    pub args: Vec<String>,
}

/// The wp command's output.
#[derive(Debug, Clone)]
pub struct WpOutput {
    pub project_id: String,
    pub local: bool,
    pub args: Vec<String>,
    pub target_domain: Option<String>,
    pub command: String,
}

} // verus!
