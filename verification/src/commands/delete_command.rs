//! Commands that remove an item from the configuration.

pub mod delete_service_command;
pub mod delete_environment_command;
pub mod delete_header_command;
pub mod delete_endpoint_command;
pub mod delete_preset_command;

use vstd::prelude::*;
use crate::config::HtrsConfig;
use crate::outcomes::{HtrsAction, HtrsError};
use delete_endpoint_command::DeleteEndpointCommand;
use delete_environment_command::DeleteEnvironmentCommand;
use delete_header_command::DeleteHeaderCommand;
use delete_preset_command::DeletePresetCommand;
use delete_service_command::DeleteServiceCommand;

verus! {

/// Delete an existing item from the configuration.
#[derive(Debug)]
pub enum DeleteCommand {
    Service(DeleteServiceCommand),
    Environment(DeleteEnvironmentCommand),
    Header(DeleteHeaderCommand),
    Endpoint(DeleteEndpointCommand),
    Preset(DeletePresetCommand),
}

impl DeleteCommand {
    /// The relation between the configuration before the command runs, after
    /// it, and its result: that of the item's own command.
    pub open spec fn outcome(self, before: HtrsConfig, after: HtrsConfig, r: Result<HtrsAction, HtrsError>) -> bool {
        match self {
            DeleteCommand::Service(c) => c.outcome(before, after, r),
            DeleteCommand::Environment(c) => c.outcome(before, after, r),
            DeleteCommand::Header(c) => c.outcome(before, after, r),
            DeleteCommand::Endpoint(c) => c.outcome(before, after, r),
            DeleteCommand::Preset(c) => c.outcome(before, after, r),
        }
    }

    /// Runs the command for the item.
    pub fn execute(&self, config: &mut HtrsConfig) -> (r: Result<HtrsAction, HtrsError>)
        ensures
            self.outcome(*old(config), *final(config), r),
    {
        match self {
            DeleteCommand::Service(c) => c.execute(config),
            DeleteCommand::Environment(c) => c.execute(config),
            DeleteCommand::Header(c) => c.execute(config),
            DeleteCommand::Endpoint(c) => c.execute(config),
            DeleteCommand::Preset(c) => c.execute(config),
        }
    }
}

} // verus!
