//! `edit environment`: change an environment of a service.

use vstd::prelude::*;
use crate::config::{
    environment_is, environment_known, first_at, first_default_cleared, first_index, is_default,
    lemma_first_at_unique, none_match, opt_view, service_is, service_known, Environment,
    HtrsConfig, Service,
};
use crate::outcomes::{fails_with, saves, HtrsAction, HtrsError};

verus! {

/// Give an environment a new name, alias or host, or make it the service's
/// default (or no longer so).
#[derive(Debug)]
pub struct EditEnvironmentCommand {
    pub name: String,
    pub service: String,
    pub new_name: Option<String>,
    pub new_alias: Option<String>,
    pub new_host: Option<String>,
    pub is_default: Option<bool>,
}

impl EditEnvironmentCommand {
    /// The service that `service` designates in the configuration.
    pub open spec fn target(self, config: HtrsConfig) -> int {
        first_index(config.services@, |s: Service| service_is(s, self.service@))
    }

    /// The environments after the previous default is cleared, where the
    /// environment becomes the default.
    pub open spec fn cleared(self, envs: Seq<Environment>) -> Seq<Environment> {
        if self.is_default == Some(true) {
            first_default_cleared(envs)
        } else {
            envs
        }
    }

    /// The environment that `name` designates among the service's.
    pub open spec fn target_environment(self, envs: Seq<Environment>) -> int {
        first_index(envs, |e: Environment| environment_is(e, self.name@))
    }

    /// The relation between the configuration before the command runs, after
    /// it, and its result.
    pub open spec fn outcome(self, before: HtrsConfig, after: HtrsConfig, r: Result<HtrsAction, HtrsError>) -> bool {
        if !service_known(before.services@, self.service@) {
            &&& fails_with(r, "No service could be found with name or alias `"@ + self.service@ + "`"@)
            &&& after == before
        } else if !environment_known(before.services@[self.target(before)].environments@, self.name@) {
            &&& fails_with(r, "No environment could be found with name or alias `"@ + self.name@ + "`"@)
            &&& after == before
        } else if self.new_name is Some && environment_known(
            before.services@[self.target(before)].environments@,
            self.new_name->0@,
        ) {
            &&& fails_with(
                r,
                "Service `"@ + before.services@[self.target(before)].name@
                    + "` already has an environment with name or alias `"@ + self.new_name->0@
                    + "`"@,
            )
            &&& after == before
        } else if self.new_alias is Some && environment_known(
            before.services@[self.target(before)].environments@,
            self.new_alias->0@,
        ) {
            &&& fails_with(
                r,
                "Service `"@ + before.services@[self.target(before)].name@
                    + "` already has an environment with name or alias `"@ + self.new_alias->0@
                    + "`"@,
            )
            &&& after == before
        } else {
            let i = self.target(before);
            let old_service = before.services@[i];
            let new_service = after.services@[i];
            let kept = self.cleared(old_service.environments@);
            let j = self.target_environment(old_service.environments@);
            let old_env = kept[j];
            let new_env = new_service.environments@[j];
            &&& saves(r)
            &&& after.services@ == before.services@.update(i, new_service)
            &&& new_service.environments@ == kept.update(j, new_env)
            &&& new_env.name@ == match self.new_name {
                Some(n) => n@,
                None => old_env.name@,
            }
            &&& opt_view(new_env.alias) == match self.new_alias {
                Some(a) => Some(a@),
                None => opt_view(old_env.alias),
            }
            &&& new_env.host@ == match self.new_host {
                Some(h) => h@,
                None => old_env.host@,
            }
            &&& new_env.default == match self.is_default {
                Some(d) => d,
                None => old_env.default,
            }
            &&& new_env.headers == old_env.headers
            &&& new_service.name == old_service.name
            &&& new_service.alias == old_service.alias
            &&& new_service.headers == old_service.headers
            &&& new_service.endpoints == old_service.endpoints
            &&& after.headers == before.headers
            &&& after.presets == before.presets
        }
    }

    /// Changes the environment, where the service and environment exist and
    /// the new name or alias is not one the service's environments use.
    pub fn execute(&self, config: &mut HtrsConfig) -> (r: Result<HtrsAction, HtrsError>)
        ensures
            self.outcome(*old(config), *final(config), r),
    {
        let ghost pred = |s: Service| service_is(s, self.service@);
        let service = match config.get_service(self.service.as_str()) {
            Some(s) => s,
            None => {
                let mut msg = "No service could be found with name or alias `".to_owned();
                msg.append(self.service.as_str());
                msg.append("`");
                return Err(HtrsError { details: msg });
            },
        };
        proof {
            let i = choose|i: int| first_at(config.services@, pred, i) && *service == config.services@[i];
            lemma_first_at_unique(config.services@, pred, i, self.target(*config));
        }
        if service.get_environment(self.name.as_str()).is_none() {
            let mut msg = "No environment could be found with name or alias `".to_owned();
            msg.append(self.name.as_str());
            msg.append("`");
            return Err(HtrsError { details: msg });
        }
        if let Some(new_name) = &self.new_name {
            if service.get_environment(new_name.as_str()).is_some() {
                let mut msg = "Service `".to_owned();
                msg.append(service.name.as_str());
                msg.append("` already has an environment with name or alias `");
                msg.append(new_name.as_str());
                msg.append("`");
                return Err(HtrsError { details: msg });
            }
        }
        if let Some(new_alias) = &self.new_alias {
            if service.get_environment(new_alias.as_str()).is_some() {
                let mut msg = "Service `".to_owned();
                msg.append(service.name.as_str());
                msg.append("` already has an environment with name or alias `");
                msg.append(new_alias.as_str());
                msg.append("`");
                return Err(HtrsError { details: msg });
            }
        }
        let ghost old_config = *config;
        let service = match config.get_service_mut(self.service.as_str()) {
            Some(s) => s,
            None => return vstd::pervasive::unreached(),
        };
        proof {
            let i = choose|i: int| first_at(old_config.services@, pred, i) && *service == old_config.services@[i];
            lemma_first_at_unique(old_config.services@, pred, i, self.target(old_config));
        }
        let ghost before_envs = service.environments@;
        if self.is_default == Some(true) {
            if let Some(existing_default) = service.get_default_environment_mut() {
                existing_default.default = false;
            }
        }
        proof {
            if self.is_default == Some(true) {
                let p = |e: Environment| is_default(e);
                if !none_match(before_envs, p) {
                    let k = choose|k: int| first_at(before_envs, p, k);
                    assert(first_at(before_envs, p, first_index(before_envs, p)));
                    lemma_first_at_unique(before_envs, p, k, first_index(before_envs, p));
                }
            }
        }
        let ghost kept = service.environments@;
        assert(kept == self.cleared(before_envs));
        let ghost epred = |e: Environment| environment_is(e, self.name@);
        proof {
            let k = self.target_environment(before_envs);
            let k0 = choose|k0: int| first_at(before_envs, epred, k0);
            assert(first_at(before_envs, epred, k0));
            lemma_first_at_unique(before_envs, epred, k0, k);
            assert forall|m: int| 0 <= m < kept.len() implies environment_is(#[trigger] kept[m], self.name@)
                == environment_is(before_envs[m], self.name@) by {}
            assert(first_at(kept, epred, k));
        }
        let environment = match service.get_environment_mut(self.name.as_str()) {
            Some(e) => e,
            None => return vstd::pervasive::unreached(),
        };
        proof {
            let k = choose|k: int| first_at(kept, epred, k) && *environment == kept[k];
            lemma_first_at_unique(kept, epred, k, self.target_environment(before_envs));
        }
        if let Some(new_name) = &self.new_name {
            environment.name = new_name.clone();
        }
        if let Some(new_alias) = &self.new_alias {
            environment.alias = Some(new_alias.clone());
        }
        if let Some(new_host) = &self.new_host {
            environment.host = new_host.clone();
        }
        if let Some(is_default) = &self.is_default {
            environment.default = *is_default;
        }
        Ok(HtrsAction::UpdateConfig)
    }
}

} // verus!
