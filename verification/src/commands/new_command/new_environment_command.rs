//! `new environment`: define an environment of a service.

use vstd::prelude::*;
use crate::config::{
    environment_known, first_at, first_default_cleared, first_index, lemma_first_at_unique,
    opt_view, service_is, service_known, Environment, HtrsConfig,
};
use crate::outcomes::{fails_with, saves, HtrsAction, HtrsError};

verus! {

/// Create an environment, optionally the service's default.
#[derive(Debug)]
pub struct NewEnvironmentCommand {
    pub service: String,
    pub name: String,
    pub alias: Option<String>,
    pub host: String,
    pub default: bool,
}

impl NewEnvironmentCommand {
    /// The service that `service` designates in the configuration.
    pub open spec fn target(self, config: HtrsConfig) -> int {
        first_index(config.services@, |s: crate::config::Service| service_is(s, self.service@))
    }

    /// The relation between the configuration before the command runs, after it,
    /// and its result.
    pub open spec fn outcome(self, before: HtrsConfig, after: HtrsConfig, r: Result<HtrsAction, HtrsError>) -> bool {
        if !service_known(before.services@, self.service@) {
            &&& fails_with(
                r,
                "No service found with name or alias `"@ + self.service@ + "`"@,
            )
            &&& after == before
        } else if environment_known(
            before.services@[self.target(before)].environments@,
            self.name@,
        ) {
            &&& fails_with(
                r,
                "Service `"@ + before.services@[self.target(before)].name@
                    + "` already has an environment with name or alias `"@ + self.name@
                    + "`"@,
            )
            &&& after == before
        } else if self.alias is Some && environment_known(
            before.services@[self.target(before)].environments@,
            self.alias->0@,
        ) {
            &&& fails_with(
                r,
                "Service `"@ + before.services@[self.target(before)].name@
                    + "` already has an environment with name or alias `"@ + self.alias->0@
                    + "`"@,
            )
            &&& after == before
        } else {
            let i = self.target(before);
            let old_service = before.services@[i];
            let new_service = after.services@[i];
            let kept = if self.default {
                first_default_cleared(old_service.environments@)
            } else {
                old_service.environments@
            };
            &&& saves(r)
            &&& after.services@ == before.services@.update(i, new_service)
            &&& new_service.name == old_service.name
            &&& new_service.alias == old_service.alias
            &&& new_service.headers == old_service.headers
            &&& new_service.endpoints == old_service.endpoints
            &&& new_service.environments@.drop_last() == kept
            &&& new_service.environments@.len() == kept.len() + 1
            &&& new_service.environments@.last().name@ == self.name@
            &&& opt_view(new_service.environments@.last().alias) == opt_view(self.alias)
            &&& new_service.environments@.last().host@ == self.host@
            &&& new_service.environments@.last().default == self.default
            &&& new_service.environments@.last().headers@ == Map::<Seq<char>, Seq<char>>::empty()
            &&& after.headers == before.headers
            &&& after.presets == before.presets
        }
    }

    /// Adds the environment to the service; where it is the default, the
    /// service's previous default environment stops being one.
    pub fn execute(&self, config: &mut HtrsConfig) -> (r: Result<HtrsAction, HtrsError>)
        ensures
            self.outcome(*old(config), *final(config), r),
    {
        let ghost pred = |s: crate::config::Service| service_is(s, self.service@);
        let service = match config.get_service(&self.service) {
            Some(s) => s,
            None => {
                let mut msg = "No service found with name or alias `".to_owned();
                msg.append(self.service.as_str());
                msg.append("`");
                return Err(HtrsError { details: msg });
            },
        };
        proof {
            let i = choose|i: int| first_at(config.services@, pred, i) && *service == config.services@[i];
            lemma_first_at_unique(config.services@, pred, i, self.target(*config));
        }
        if service.get_environment(&self.name).is_some() {
            let mut msg = "Service `".to_owned();
            msg.append(service.name.as_str());
            msg.append("` already has an environment with name or alias `");
            msg.append(self.name.as_str());
            msg.append("`");
            return Err(HtrsError { details: msg });
        }
        if let Some(alias) = &self.alias {
            if service.get_environment(alias).is_some() {
                let mut msg = "Service `".to_owned();
                msg.append(service.name.as_str());
                msg.append("` already has an environment with name or alias `");
                msg.append(alias.as_str());
                msg.append("`");
                return Err(HtrsError { details: msg });
            }
        }
        let alias = match &self.alias {
            Some(a) => Some(a.clone()),
            None => None,
        };
        let new_environment = Environment::new(self.name.clone(), alias, self.host.clone(), self.default);
        let ghost old_config = *config;
        let service = match config.get_service_mut(&self.service) {
            Some(s) => s,
            None => return vstd::pervasive::unreached(),
        };
        proof {
            let i = choose|i: int| first_at(old_config.services@, pred, i) && *service == old_config.services@[i];
            lemma_first_at_unique(old_config.services@, pred, i, self.target(old_config));
        }
        let ghost before_envs = service.environments@;
        if self.default {
            if let Some(existing_default) = service.get_default_environment_mut() {
                existing_default.default = false;
            }
        }
        proof {
            if self.default {
                let p = |e: Environment| crate::config::is_default(e);
                if !crate::config::none_match(before_envs, p) {
                    let j = choose|j: int| first_at(before_envs, p, j);
                    assert(first_at(before_envs, p, first_index(before_envs, p)));
                    lemma_first_at_unique(before_envs, p, j, first_index(before_envs, p));
                }
            }
        }
        let ghost kept = service.environments@;
        service.environments.push(new_environment);
        assert(service.environments@.drop_last() =~= kept);
        Ok(HtrsAction::UpdateConfig)
    }
}

} // verus!
