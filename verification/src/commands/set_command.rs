//! Commands that set a value in the configuration.

pub mod set_header_command;

use vstd::prelude::*;
use crate::config::HtrsConfig;
use crate::outcomes::{HtrsAction, HtrsError};
use set_header_command::SetHeaderCommand;

verus! {

/// Set a value for an item in the configuration.
#[derive(Debug)]
pub enum SetCommand {
    Header(SetHeaderCommand),
}

impl SetCommand {
    /// The relation between the configuration before the command runs, after
    /// it, and its result: that of the item's own command.
    pub open spec fn outcome(self, before: HtrsConfig, after: HtrsConfig, r: Result<HtrsAction, HtrsError>) -> bool {
        match self {
            SetCommand::Header(c) => c.outcome(before, after, r),
        }
    }

    /// Runs the command for the item.
    pub fn execute(&self, config: &mut HtrsConfig) -> (r: Result<HtrsAction, HtrsError>)
        ensures
            self.outcome(*old(config), *final(config), r),
    {
        match self {
            SetCommand::Header(c) => c.execute(config),
        }
    }
}

} // verus!
