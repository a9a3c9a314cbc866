//! Arguments and output of the deploy command that auto-detects argument
//! order.

use vstd::prelude::*;

use crate::cli::deploy_cmd::{DeployComponentResult, DeploySummary};
use crate::error::{Error, ErrorCode};

verus! {

/// What to deploy; the first positional argument may be a project or a
/// component, detected against the known ids.
#[derive(Debug, Clone)]
pub struct DeployArgs {
    pub project_id: String,
    pub component_ids: Vec<String>,
    pub json: Option<String>,
    pub all: bool,
    pub outdated: bool,
    pub dry_run: bool,
    pub check: bool,
}

/// The deployment report.
#[derive(Debug, Clone)]
pub struct DeployOutput {
    pub command: String,
    pub project_id: String,
    pub all: bool,
    pub outdated: bool,
    pub dry_run: bool,
    pub check: bool,
    pub results: Vec<DeployComponentResult>,
    pub summary: DeploySummary,
}

fn vec_contains(haystack: &Vec<String>, needle: &String) -> (r: bool)
    ensures
        r == exists|i: int| 0 <= i < haystack@.len() && (#[trigger] haystack@[i])@ == needle@,
{
    let mut i: usize = 0;
    while i < haystack.len()
        invariant
            0 <= i <= haystack@.len(),
            forall|j: int| 0 <= j < i ==> (#[trigger] haystack@[j])@ != needle@,
        decreases haystack@.len() - i,
    {
        if haystack[i].eq(needle) {
            proof {
                assert((haystack@[i as int])@ == needle@);
            }
            return true;
        }
        i = i + 1;
    }
    false
}

/// Detects whether the caller put the project or a component first: a known
/// project id stays first; a known component id is moved behind the project
/// id found among the rest; anything else is rejected.
pub fn resolve_argument_order(
    first: &String,
    rest: &Vec<String>,
    projects: &Vec<String>,
    components: &Vec<String>,
) -> (r: Result<(String, Vec<String>), Error>)
    ensures
        match r {
            Ok(p) => {
                let is_project = exists|i: int|
                    0 <= i < projects@.len() && (#[trigger] projects@[i])@ == first@;
                (is_project ==> p.0@ == first@) && (is_project ==> p.1@.len() == rest@.len())
            },
            Err(e) => e.code == ErrorCode::ValidationInvalidArgument,
        },
{
    if vec_contains(projects, first) {
        let mut comps: Vec<String> = Vec::new();
        let mut i: usize = 0;
        while i < rest.len()
            invariant
                0 <= i <= rest@.len(),
                comps@.len() == i,
            decreases rest@.len() - i,
        {
            comps.push(rest[i].clone());
            i = i + 1;
        }
        return Ok((first.clone(), comps));
    }
    if vec_contains(components, first) {
        let mut project_idx: Option<usize> = None;
        let mut i: usize = 0;
        while i < rest.len()
            invariant
                0 <= i <= rest@.len(),
                project_idx matches Some(p) ==> p < rest@.len(),
            decreases rest@.len() - i,
        {
            if project_idx.is_none() && vec_contains(projects, &rest[i]) {
                project_idx = Some(i);
            }
            i = i + 1;
        }
        match project_idx {
            Some(p) => {
                let project = rest[p].clone();
                let mut comps: Vec<String> = Vec::new();
                comps.push(first.clone());
                let mut i: usize = 0;
                while i < rest.len()
                    invariant
                        0 <= i <= rest@.len(),
                        p < rest@.len(),
                    decreases rest@.len() - i,
                {
                    if i != p {
                        comps.push(rest[i].clone());
                    }
                    i = i + 1;
                }
                return Ok((project, comps));
            },
            None => {
                return Err(
                    Error::validation_invalid_argument(
                        "project_id",
                        String::from_str("No project ID found in arguments"),
                        None,
                        None,
                    ),
                );
            },
        }
    }
    Err(
        Error::validation_invalid_argument(
            "project_id",
            String::from_str("Not a known project or component"),
            None,
            None,
        ),
    )
}

} // verus!
