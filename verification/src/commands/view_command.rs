//! Commands that show an item of the configuration.

pub mod view_preset_command;
pub mod view_service_command;

use vstd::prelude::*;
use crate::config::HtrsConfig;
use crate::outcomes::{HtrsAction, HtrsError};
use view_preset_command::ViewPresetCommand;
use view_service_command::ViewServiceCommand;

verus! {

/// Show an item of the configuration.
#[derive(Debug)]
pub enum ViewCommand {
    Preset(ViewPresetCommand),
    Service(ViewServiceCommand),
}

impl ViewCommand {
    /// The relation between the configuration and the command's result: that
    /// of the item's own command.
    pub open spec fn outcome(self, config: HtrsConfig, r: Result<HtrsAction, HtrsError>) -> bool {
        match self {
            ViewCommand::Preset(c) => c.outcome(config, r),
            ViewCommand::Service(c) => c.outcome(config, r),
        }
    }

    /// Runs the command for the item.
    pub fn execute(&self, config: &HtrsConfig) -> (r: Result<HtrsAction, HtrsError>)
        ensures
            self.outcome(*config, r),
    {
        match self {
            ViewCommand::Preset(c) => c.execute(config),
            ViewCommand::Service(c) => c.execute(config),
        }
    }
}

} // verus!
