//! Arguments and output of the pin command.

use vstd::prelude::*;

verus! {

/// What kind of item a pin refers to.
#[derive(Debug, Clone, Copy, PartialEq, Eq, Structural)]
pub enum PinType {
    File,
    Log,
}

/// One pin subcommand.
#[derive(Debug, Clone)]
pub enum PinCommand {
    List { project_id: String, pin_type: PinType },
    Add { project_id: String, path: String, pin_type: PinType, label: Option<String>, tail: u32 },
    Remove { project_id: String, path: String, pin_type: PinType },
}

/// The pin command's arguments.
#[derive(Debug, Clone)]
pub struct PinArgs {
    pub command: PinCommand,
}

/// One listed pin.
#[derive(Debug, Clone)]
pub struct PinListItem {
    pub path: String,
    pub label: Option<String>,
    pub display_name: String,
    pub tail_lines: Option<u32>,
}

/// A pin that was added or removed.
#[derive(Debug, Clone)]
pub struct PinChange {
    pub path: String,
    pub pin_type: String,
}

/// The pin command's output.
#[derive(Debug, Clone)]
pub struct PinOutput {
    pub command: String,
    pub project_id: String,
    pub pin_type: String,
    pub items: Option<Vec<PinListItem>>,
    pub added: Option<PinChange>,
    pub removed: Option<PinChange>,
}

} // verus!
