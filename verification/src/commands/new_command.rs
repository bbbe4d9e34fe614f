//! Commands that create an item in the configuration.

pub mod new_service_command;
pub mod new_environment_command;
pub mod new_endpoint_command;
pub mod new_preset_command;

use vstd::prelude::*;
use crate::config::HtrsConfig;
use crate::outcomes::{HtrsAction, HtrsError};
use new_endpoint_command::NewEndpointCommand;
use new_environment_command::NewEnvironmentCommand;
use new_service_command::NewServiceCommand;

verus! {

/// Create a new item in the configuration.
#[derive(Debug)]
pub enum NewCommand {
    Service(NewServiceCommand),
    Environment(NewEnvironmentCommand),
    Endpoint(NewEndpointCommand),
}

impl NewCommand {
    /// The relation between the configuration before the command runs, after
    /// it, and its result: that of the item's own command.
    pub open spec fn outcome(self, before: HtrsConfig, after: HtrsConfig, r: Result<HtrsAction, HtrsError>) -> bool {
        match self {
            NewCommand::Service(c) => c.outcome(before, after, r),
            NewCommand::Environment(c) => c.outcome(before, after, r),
            NewCommand::Endpoint(c) => c.outcome(before, after, r),
        }
    }

    /// Runs the command for the item.
    pub fn execute(&self, config: &mut HtrsConfig) -> (r: Result<HtrsAction, HtrsError>)
        ensures
            self.outcome(*old(config), *final(config), r),
    {
        match self {
            NewCommand::Service(c) => c.execute(config),
            NewCommand::Environment(c) => c.execute(config),
            NewCommand::Endpoint(c) => c.execute(config),
        }
    }
}

} // verus!
