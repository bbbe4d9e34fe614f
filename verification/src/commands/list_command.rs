//! Commands that list items of the configuration.

pub mod list_service_command;
pub mod list_environment_command;
pub mod list_endpoint_command;

use vstd::prelude::*;
use crate::config::HtrsConfig;
use crate::outcomes::{HtrsAction, HtrsError};
use list_service_command::ListServicesCommand;

verus! {

/// List items defined in the configuration.
#[derive(Debug)]
pub enum ListCommand {
    Service(ListServicesCommand),
}

impl ListCommand {
    /// The relation between the configuration before the command runs, after
    /// it, and its result: that of the item's own command.
    pub open spec fn outcome(self, before: HtrsConfig, after: HtrsConfig, r: Result<HtrsAction, HtrsError>) -> bool {
        match self {
            ListCommand::Service(c) => c.outcome(before, after, r),
        }
    }

    /// Runs the command for the items.
    pub fn execute(&self, config: &mut HtrsConfig) -> (r: Result<HtrsAction, HtrsError>)
        ensures
            self.outcome(*old(config), *final(config), r),
    {
        match self {
            ListCommand::Service(c) => c.execute(config),
        }
    }
}

} // verus!
