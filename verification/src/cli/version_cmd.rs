//! Arguments of the version command.

use vstd::prelude::*;

verus! {

/// Which part of a version a bump raises.
#[derive(Debug, Clone, Copy, PartialEq, Eq, Structural)]
pub enum BumpType {
    Patch,
    Minor,
    Major,
}

impl BumpType {
    /// The bump word this kind is written as.
    pub fn as_str(&self) -> (r: &'static str)
        ensures
            *self == BumpType::Patch ==> r@ == "patch"@,
            *self == BumpType::Minor ==> r@ == "minor"@,
            *self == BumpType::Major ==> r@ == "major"@,
    {
        match self {
            BumpType::Patch => "patch",
            BumpType::Minor => "minor",
            BumpType::Major => "major",
        }
    }
}

/// One version subcommand.
#[derive(Debug, Clone)]
pub enum VersionCommand {
    Show { component_id: String },
    Bump { component_id: String, bump_type: BumpType },
}

/// The version command's arguments.
#[derive(Debug, Clone)]
pub struct VersionArgs {
    pub command: VersionCommand,
}

} // verus!
