//! `delete service`: remove a service.

use vstd::prelude::*;
use crate::config::{service_is, service_known, HtrsConfig, Service};
use crate::outcomes::{aliased_item_not_found_text, item_not_found_text, fails_with, saves, HtrsAction, HtrsError};

verus! {

/// Delete the services known by a name or alias.
#[derive(Debug)]
pub struct DeleteServiceCommand {
    pub name: String,
}

impl DeleteServiceCommand {
    /// The relation between the configuration before the command runs, after
    /// it, and its result.
    pub open spec fn outcome(self, before: HtrsConfig, after: HtrsConfig, r: Result<HtrsAction, HtrsError>) -> bool {
        if service_known(before.services@, self.name@) {
            &&& saves(r)
            &&& after.services@ == before.services@.filter(|s: Service| !service_is(s, self.name@))
            &&& after.headers == before.headers
            &&& after.presets == before.presets
        } else {
            &&& fails_with(r, aliased_item_not_found_text("service"@, self.name@))
            &&& after == before
        }
    }

    /// Removes every service whose name or alias is the one given.
    pub fn execute(&self, config: &mut HtrsConfig) -> (r: Result<HtrsAction, HtrsError>)
        ensures
            self.outcome(*old(config), *final(config), r),
    {
        if config.get_service(self.name.as_str()).is_none() {
            return Err(HtrsError::aliased_item_not_found("service", self.name.as_str()));
        }
        config.remove_service(self.name.as_str());
        Ok(HtrsAction::UpdateConfig)
    }
}

} // verus!
