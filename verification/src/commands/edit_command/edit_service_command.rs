//! `edit service`: rename a service or change its alias.

use vstd::prelude::*;
use crate::config::{
    first_at, first_index, lemma_first_at_unique, opt_view, service_is, service_known,
    HtrsConfig, Service,
};
use crate::outcomes::{fails_with, saves, HtrsAction, HtrsError};

verus! {

/// Give a service a new name and/or a new alias.
#[derive(Debug)]
pub struct EditServiceCommand {
    pub name: String,
    pub new_name: Option<String>,
    pub new_alias: Option<String>,
}

impl EditServiceCommand {
    /// The service that `name` designates in the configuration.
    pub open spec fn target(self, config: HtrsConfig) -> int {
        first_index(config.services@, |s: Service| service_is(s, self.name@))
    }

    /// The relation between the configuration before the command runs, after
    /// it, and its result.
    pub open spec fn outcome(self, before: HtrsConfig, after: HtrsConfig, r: Result<HtrsAction, HtrsError>) -> bool {
        if self.new_name is Some && service_known(before.services@, self.new_name->0@) {
            &&& fails_with(
                r,
                "A service already exists with the name or alias `"@ + self.new_name->0@ + "`"@,
            )
            &&& after == before
        } else if self.new_alias is Some && service_known(before.services@, self.new_alias->0@) {
            &&& fails_with(
                r,
                "A service already exists with the name or alias `"@ + self.new_alias->0@ + "`"@,
            )
            &&& after == before
        } else if !service_known(before.services@, self.name@) {
            &&& fails_with(r, "No service found with name or alias `"@ + self.name@ + "`"@)
            &&& after == before
        } else {
            let i = self.target(before);
            let old_service = before.services@[i];
            let new_service = after.services@[i];
            &&& saves(r)
            &&& after.services@ == before.services@.update(i, new_service)
            &&& new_service.name@ == match self.new_name {
                Some(n) => n@,
                None => old_service.name@,
            }
            &&& opt_view(new_service.alias) == match self.new_alias {
                Some(a) => Some(a@),
                None => opt_view(old_service.alias),
            }
            &&& new_service.environments == old_service.environments
            &&& new_service.headers == old_service.headers
            &&& new_service.endpoints == old_service.endpoints
            &&& after.headers == before.headers
            &&& after.presets == before.presets
        }
    }

    /// Renames the service and/or changes its alias, where neither the new
    /// name nor the new alias already names or aliases a service.
    pub fn execute(&self, config: &mut HtrsConfig) -> (r: Result<HtrsAction, HtrsError>)
        ensures
            self.outcome(*old(config), *final(config), r),
    {
        if let Some(new_name) = &self.new_name {
            if config.get_service(new_name.as_str()).is_some() {
                let mut msg = "A service already exists with the name or alias `".to_owned();
                msg.append(new_name.as_str());
                msg.append("`");
                return Err(HtrsError { details: msg });
            }
        }
        if let Some(new_alias) = &self.new_alias {
            if config.get_service(new_alias.as_str()).is_some() {
                let mut msg = "A service already exists with the name or alias `".to_owned();
                msg.append(new_alias.as_str());
                msg.append("`");
                return Err(HtrsError { details: msg });
            }
        }
        let ghost pred = |s: Service| service_is(s, self.name@);
        let ghost old_config = *config;
        let service = match config.get_service_mut(self.name.as_str()) {
            Some(s) => s,
            None => {
                let mut msg = "No service found with name or alias `".to_owned();
                msg.append(self.name.as_str());
                msg.append("`");
                return Err(HtrsError { details: msg });
            },
        };
        proof {
            let i = choose|i: int| first_at(old_config.services@, pred, i) && *service == old_config.services@[i];
            lemma_first_at_unique(old_config.services@, pred, i, self.target(old_config));
        }
        if let Some(new_name) = &self.new_name {
            service.name = new_name.clone();
        }
        if let Some(new_alias) = &self.new_alias {
            service.alias = Some(new_alias.clone());
        }
        Ok(HtrsAction::UpdateConfig)
    }
}

} // verus!
