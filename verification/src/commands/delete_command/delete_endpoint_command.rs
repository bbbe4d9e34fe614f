//! `delete endpoint`: remove an endpoint of a service.

use vstd::prelude::*;
use crate::config::{
    endpoint_known, endpoint_named, first_at, first_index, lemma_first_at_unique, service_is,
    service_known, Endpoint, HtrsConfig, Service,
};
use crate::outcomes::{aliased_item_not_found_text, item_not_found_text, fails_with, saves, HtrsAction, HtrsError};

verus! {

/// Delete the endpoints of a service that have a given name.
#[derive(Debug)]
pub struct DeleteEndpointCommand {
    pub name: String,
    pub service: String,
}

impl DeleteEndpointCommand {
    /// The service that `service` designates in the configuration.
    pub open spec fn target(self, config: HtrsConfig) -> int {
        first_index(config.services@, |s: Service| service_is(s, self.service@))
    }

    /// The relation between the configuration before the command runs, after
    /// it, and its result.
    pub open spec fn outcome(self, before: HtrsConfig, after: HtrsConfig, r: Result<HtrsAction, HtrsError>) -> bool {
        if !service_known(before.services@, self.service@) {
            &&& fails_with(r, aliased_item_not_found_text("service"@, self.service@))
            &&& after == before
        } else if !endpoint_known(before.services@[self.target(before)].endpoints@, self.name@) {
            &&& fails_with(r, item_not_found_text("endpoint"@, self.name@))
            &&& after == before
        } else {
            let i = self.target(before);
            let old_service = before.services@[i];
            let new_service = after.services@[i];
            &&& saves(r)
            &&& after.services@ == before.services@.update(i, new_service)
            &&& new_service.endpoints@ == old_service.endpoints@.filter(
                |e: Endpoint| !endpoint_named(e, self.name@),
            )
            &&& new_service.name == old_service.name
            &&& new_service.alias == old_service.alias
            &&& new_service.headers == old_service.headers
            &&& new_service.environments == old_service.environments
            &&& after.headers == before.headers
            &&& after.presets == before.presets
        }
    }

    /// Removes, from the service, every endpoint with the name given.
    pub fn execute(&self, config: &mut HtrsConfig) -> (r: Result<HtrsAction, HtrsError>)
        ensures
            self.outcome(*old(config), *final(config), r),
    {
        let ghost pred = |s: Service| service_is(s, self.service@);
        let service = match config.get_service(self.service.as_str()) {
            Some(s) => s,
            None => return Err(HtrsError::aliased_item_not_found("service", self.service.as_str())),
        };
        proof {
            let i = choose|i: int| first_at(config.services@, pred, i) && *service == config.services@[i];
            lemma_first_at_unique(config.services@, pred, i, self.target(*config));
        }
        if service.get_endpoint(self.name.as_str()).is_none() {
            return Err(HtrsError::item_not_found("endpoint", self.name.as_str()));
        }
        let ghost old_config = *config;
        let service = match config.get_service_mut(self.service.as_str()) {
            Some(s) => s,
            None => return vstd::pervasive::unreached(),
        };
        proof {
            let i = choose|i: int| first_at(old_config.services@, pred, i) && *service == old_config.services@[i];
            lemma_first_at_unique(old_config.services@, pred, i, self.target(old_config));
        }
        service.remove_endpoint(self.name.as_str());
        Ok(HtrsAction::UpdateConfig)
    }
}

} // verus!
