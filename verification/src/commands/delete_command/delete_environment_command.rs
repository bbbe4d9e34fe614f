//! `delete environment`: remove an environment of a service.

use vstd::prelude::*;
use crate::config::{
    environment_is, environment_known, first_at, first_index, lemma_first_at_unique, service_is,
    service_known, Environment, HtrsConfig, Service,
};
use crate::outcomes::{fails_with, saves, HtrsAction, HtrsError};

verus! {

/// Delete the environments of a service known by a name or alias.
#[derive(Debug)]
pub struct DeleteEnvironmentCommand {
    pub name: String,
    pub service: String,
}

impl DeleteEnvironmentCommand {
    /// The service that `service` designates in the configuration.
    pub open spec fn target(self, config: HtrsConfig) -> int {
        first_index(config.services@, |s: Service| service_is(s, self.service@))
    }

    /// The relation between the configuration before the command runs, after
    /// it, and its result.
    pub open spec fn outcome(self, before: HtrsConfig, after: HtrsConfig, r: Result<HtrsAction, HtrsError>) -> bool {
        if !service_known(before.services@, self.service@) {
            &&& fails_with(r, "No service could be found with name or alias `"@ + self.service@ + "`"@)
            &&& after == before
        } else if !environment_known(before.services@[self.target(before)].environments@, self.name@) {
            &&& fails_with(r, "No environment could be found with name or alias `"@ + self.name@ + "`"@)
            &&& after == before
        } else {
            let i = self.target(before);
            let old_service = before.services@[i];
            let new_service = after.services@[i];
            &&& saves(r)
            &&& after.services@ == before.services@.update(i, new_service)
            &&& new_service.environments@ == old_service.environments@.filter(
                |e: Environment| !environment_is(e, self.name@),
            )
            &&& new_service.name == old_service.name
            &&& new_service.alias == old_service.alias
            &&& new_service.headers == old_service.headers
            &&& new_service.endpoints == old_service.endpoints
            &&& after.headers == before.headers
            &&& after.presets == before.presets
        }
    }

    /// Removes, from the service, every environment whose name or alias is
    /// the one given.
    pub fn execute(&self, config: &mut HtrsConfig) -> (r: Result<HtrsAction, HtrsError>)
        ensures
            self.outcome(*old(config), *final(config), r),
    {
        let ghost pred = |s: Service| service_is(s, self.service@);
        let service = match config.get_service(self.service.as_str()) {
            Some(s) => s,
            None => {
                let mut msg = "No service could be found with name or alias `".to_owned();
                msg.append(self.service.as_str());
                msg.append("`");
                return Err(HtrsError { details: msg });
            },
        };
        proof {
            let i = choose|i: int| first_at(config.services@, pred, i) && *service == config.services@[i];
            lemma_first_at_unique(config.services@, pred, i, self.target(*config));
        }
        if service.get_environment(self.name.as_str()).is_none() {
            let mut msg = "No environment could be found with name or alias `".to_owned();
            msg.append(self.name.as_str());
            msg.append("`");
            return Err(HtrsError { details: msg });
        }
        let ghost old_config = *config;
        let service = match config.get_service_mut(self.service.as_str()) {
            Some(s) => s,
            None => return vstd::pervasive::unreached(),
        };
        proof {
            let i = choose|i: int| first_at(old_config.services@, pred, i) && *service == old_config.services@[i];
            lemma_first_at_unique(old_config.services@, pred, i, self.target(old_config));
        }
        service.remove_environment(self.name.as_str());
        Ok(HtrsAction::UpdateConfig)
    }
}

} // verus!
