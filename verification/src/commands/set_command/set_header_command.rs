//! `set header`: set a header at the global, service or environment scope.

use vstd::prelude::*;
use crate::config::{
    environment_is, environment_known, first_at, first_index, lemma_first_at_unique, service_is,
    service_known, Environment, HeaderItem, HtrsConfig, Service,
};
use crate::outcomes::{fails_with, saves, HtrsAction, HtrsError};

verus! {

/// Set a header: globally, for a service, or for an environment of a service.
#[derive(Debug)]
pub struct SetHeaderCommand {
    pub header_name: String,
    pub header_value: String,
    pub service: Option<String>,
    pub environment: Option<String>,
}

impl SetHeaderCommand {
    /// The service that `service` designates in the configuration.
    pub open spec fn target_service(self, config: HtrsConfig) -> int {
        first_index(config.services@, |s: Service| service_is(s, self.service->0@))
    }

    /// The environment that `environment` designates in the target service.
    pub open spec fn target_environment(self, config: HtrsConfig) -> int {
        first_index(
            config.services@[self.target_service(config)].environments@,
            |e: Environment| environment_is(e, self.environment->0@),
        )
    }

    /// The relation between the configuration before the command runs, after
    /// it, and its result.
    pub open spec fn outcome(self, before: HtrsConfig, after: HtrsConfig, r: Result<HtrsAction, HtrsError>) -> bool {
        let h = self.header_name@;
        if self.service is None && self.environment is None {
            &&& saves(r)
            &&& after.headers@ == before.headers@.insert(h, self.header_value@)
            &&& after.services == before.services
            &&& after.presets == before.presets
        } else if self.service is None {
            &&& fails_with(r, "Invalid combination of arguments used"@)
            &&& after == before
        } else if !service_known(before.services@, self.service->0@) {
            &&& fails_with(
                r,
                "Unable to find service with name or alias `"@ + self.service->0@ + "`"@,
            )
            &&& after == before
        } else if self.environment is None {
            let i = self.target_service(before);
            let old_service = before.services@[i];
            let new_service = after.services@[i];
            &&& saves(r)
            &&& after.services@ == before.services@.update(i, new_service)
            &&& new_service.headers@ == old_service.headers@.insert(h, self.header_value@)
            &&& new_service.name == old_service.name
            &&& new_service.alias == old_service.alias
            &&& new_service.environments == old_service.environments
            &&& new_service.endpoints == old_service.endpoints
            &&& after.headers == before.headers
            &&& after.presets == before.presets
        } else if !environment_known(
            before.services@[self.target_service(before)].environments@,
            self.environment->0@,
        ) {
            &&& fails_with(
                r,
                "Unable to find environment with name or alias `"@ + self.environment->0@
                    + "` for service `"@ + before.services@[self.target_service(before)].name@
                    + "`"@,
            )
            &&& after == before
        } else {
            let i = self.target_service(before);
            let j = self.target_environment(before);
            let old_service = before.services@[i];
            let new_service = after.services@[i];
            let old_env = old_service.environments@[j];
            let new_env = new_service.environments@[j];
            &&& saves(r)
            &&& after.services@ == before.services@.update(i, new_service)
            &&& new_service.environments@ == old_service.environments@.update(j, new_env)
            &&& new_env.headers@ == old_env.headers@.insert(h, self.header_value@)
            &&& new_env.name == old_env.name
            &&& new_env.alias == old_env.alias
            &&& new_env.host == old_env.host
            &&& new_env.default == old_env.default
            &&& new_service.name == old_service.name
            &&& new_service.alias == old_service.alias
            &&& new_service.headers == old_service.headers
            &&& new_service.endpoints == old_service.endpoints
            &&& after.headers == before.headers
            &&& after.presets == before.presets
        }
    }

    /// Sets the header at the scope that the service and environment name, replacing any value it had there.
    pub fn execute(&self, config: &mut HtrsConfig) -> (r: Result<HtrsAction, HtrsError>)
        ensures
            self.outcome(*old(config), *final(config), r),
    {
        match (&self.service, &self.environment) {
            (None, None) => {
                config.set_header(self.header_name.clone(), self.header_value.clone());
                Ok(HtrsAction::UpdateConfig)
            },
            (None, Some(_)) => Err(HtrsError::new("Invalid combination of arguments used")),
            (Some(service_name), environment) => {
                let ghost pred = |s: Service| service_is(s, service_name@);
                let service = match config.get_service(service_name.as_str()) {
                    Some(s) => s,
                    None => {
                        let mut msg = "Unable to find service with name or alias `".to_owned();
                        msg.append(service_name.as_str());
                        msg.append("`");
                        return Err(HtrsError { details: msg });
                    },
                };
                proof {
                    let i = choose|i: int| first_at(config.services@, pred, i) && *service == config.services@[i];
                    lemma_first_at_unique(config.services@, pred, i, self.target_service(*config));
                }
                if let Some(environment_name) = environment {
                    if service.get_environment(environment_name.as_str()).is_none() {
                        let mut msg = "Unable to find environment with name or alias `".to_owned();
                        msg.append(environment_name.as_str());
                        msg.append("` for service `");
                        msg.append(service.name.as_str());
                        msg.append("`");
                        return Err(HtrsError { details: msg });
                    }
                }
                let ghost old_config = *config;
                let service = match config.get_service_mut(service_name.as_str()) {
                    Some(s) => s,
                    None => return vstd::pervasive::unreached(),
                };
                proof {
                    let i = choose|i: int| first_at(old_config.services@, pred, i) && *service == old_config.services@[i];
                    lemma_first_at_unique(old_config.services@, pred, i, self.target_service(old_config));
                }
                match environment {
                    None => {
                        service.set_header(self.header_name.clone(), self.header_value.clone());
                    },
                    Some(environment_name) => {
                        let ghost epred = |e: Environment| environment_is(e, environment_name@);
                        let ghost old_service = *service;
                        let env = match service.get_environment_mut(environment_name.as_str()) {
                            Some(e) => e,
                            None => return vstd::pervasive::unreached(),
                        };
                        proof {
                            let j = choose|j: int| first_at(old_service.environments@, epred, j) && *env == old_service.environments@[j];
                            lemma_first_at_unique(old_service.environments@, epred, j, self.target_environment(old_config));
                        }
                        env.set_header(self.header_name.clone(), self.header_value.clone());
                    },
                }
                Ok(HtrsAction::UpdateConfig)
            },
        }
    }
}

} // verus!
