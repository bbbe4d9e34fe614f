//! Commands that change an existing item of the configuration.

pub mod edit_service_command;
pub mod edit_environment_command;
pub mod edit_endpoint_command;
pub mod edit_preset_command;

use vstd::prelude::*;
use crate::config::HtrsConfig;
use crate::outcomes::{HtrsAction, HtrsError};
use edit_endpoint_command::EditEndpointCommand;
use edit_environment_command::EditEnvironmentCommand;
use edit_preset_command::EditPresetCommand;
use edit_service_command::EditServiceCommand;

verus! {

/// Edit an existing item of the configuration.
#[derive(Debug)]
pub enum EditCommand {
    Service(EditServiceCommand),
    Environment(EditEnvironmentCommand),
    Endpoint(EditEndpointCommand),
    Preset(EditPresetCommand),
}

impl EditCommand {
    /// The relation between the configuration before the command runs, after
    /// it, and its result: that of the item's own command.
    pub open spec fn outcome(self, before: HtrsConfig, after: HtrsConfig, r: Result<HtrsAction, HtrsError>) -> bool {
        match self {
            EditCommand::Service(c) => c.outcome(before, after, r),
            EditCommand::Environment(c) => c.outcome(before, after, r),
            EditCommand::Endpoint(c) => c.outcome(before, after, r),
            EditCommand::Preset(c) => c.outcome(before, after, r),
        }
    }

    /// Runs the command for the item.
    pub fn execute(&self, config: &mut HtrsConfig) -> (r: Result<HtrsAction, HtrsError>)
        ensures
            self.outcome(*old(config), *final(config), r),
    {
        match self {
            EditCommand::Service(c) => c.execute(config),
            EditCommand::Environment(c) => c.execute(config),
            EditCommand::Endpoint(c) => c.execute(config),
            EditCommand::Preset(c) => c.execute(config),
        }
    }
}

} // verus!
