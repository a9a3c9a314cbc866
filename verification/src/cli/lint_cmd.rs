//! Arguments and output of the lint command.

use vstd::prelude::*;

verus! {

/// The lint command's arguments.
#[derive(Debug, Clone)]
pub struct LintArgs {
    pub component: String,
    pub fix: bool,
    pub summary: bool,
    pub file: Option<String>,
    pub glob: Option<String>,
    pub errors_only: bool,
    pub setting: Vec<(String, String)>,
}

/// The lint command's output.
#[derive(Debug, Clone)]
pub struct LintOutput {
    pub status: String,
    pub component: String,
    pub stdout: String,
    pub stderr: String,
    pub exit_code: i32,
    pub hints: Option<Vec<String>>,
}

} // verus!
