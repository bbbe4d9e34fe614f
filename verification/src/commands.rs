//! The commands of the program and what each does to the configuration.

pub mod call_command;
pub mod new_command;
pub mod delete_command;
pub mod edit_command;
pub mod list_command;
pub mod view_command;
pub mod set_command;

use vstd::prelude::*;
use crate::config::{environment_known, service_known, HtrsConfig};
use crate::outcomes::{HtrsAction, HtrsError};
use call_command::CallServiceEndpointCommand;
use delete_command::DeleteCommand;
use edit_command::EditCommand;
use list_command::ListCommand;
use new_command::NewCommand;
use set_command::SetCommand;

verus! {

/// A command of the program.
#[derive(Debug)]
pub enum RootCommand {
    Call(CallServiceEndpointCommand),
    New(NewCommand),
    Edit(EditCommand),
    Delete(DeleteCommand),
    List(ListCommand),
    SetItem(SetCommand),
}

impl RootCommand {
    /// A call names a service of the configuration and, where it names an
    /// environment, one of that service.
    pub open spec fn runnable(self, config: HtrsConfig) -> bool {
        match self {
            RootCommand::Call(c) => {
                &&& service_known(config.services@, c.service_name@)
                &&& c.environment_name is Some ==> environment_known(
                    config.services@[CallServiceEndpointCommand::service_index(config, c.service_name@)].environments@,
                    c.environment_name->0@,
                )
            },
            _ => true,
        }
    }

    /// The relation between the configuration before the command runs, after
    /// it, and its result: that of the command run.
    pub open spec fn outcome(self, before: HtrsConfig, after: HtrsConfig, r: Result<HtrsAction, HtrsError>) -> bool {
        match self {
            RootCommand::Call(c) => c.request(before, r) && after == before,
            RootCommand::New(c) => c.outcome(before, after, r),
            RootCommand::Edit(c) => c.outcome(before, after, r),
            RootCommand::Delete(c) => c.outcome(before, after, r),
            RootCommand::List(c) => c.outcome(before, after, r),
            RootCommand::SetItem(c) => c.outcome(before, after, r),
        }
    }

    /// Runs the command on the configuration.
    pub fn execute(&self, config: &mut HtrsConfig) -> (r: Result<HtrsAction, HtrsError>)
        requires
            self.runnable(*old(config)),
        ensures
            self.outcome(*old(config), *final(config), r),
    {
        match self {
            RootCommand::Call(c) => c.execute_command(config),
            RootCommand::New(c) => c.execute(config),
            RootCommand::Edit(c) => c.execute(config),
            RootCommand::Delete(c) => c.execute(config),
            RootCommand::List(c) => c.execute(config),
            RootCommand::SetItem(c) => c.execute(config),
        }
    }
}

} // verus!
