//! `new service`: define a service.

use vstd::prelude::*;
use crate::config::{opt_view, service_known, HtrsConfig, Service};
use crate::outcomes::{fails_with, saves, HtrsAction, HtrsError};

verus! {

/// Create a service with a unique name and an optional unique alias.
#[derive(Debug)]
pub struct NewServiceCommand {
    pub name: String,
    pub alias: Option<String>,
}

impl NewServiceCommand {
    /// The relation between the configuration before the command runs, after it,
    /// and its result.
    pub open spec fn outcome(self, before: HtrsConfig, after: HtrsConfig, r: Result<HtrsAction, HtrsError>) -> bool {
        if service_known(before.services@, self.name@) {
            &&& fails_with(
                r,
                "A service already exists with the name or alias '"@ + self.name@ + "'"@,
            )
            &&& after == before
        } else if self.alias is Some && service_known(before.services@, self.alias->0@) {
            &&& fails_with(
                r,
                "A service already exists with the name or alias '"@ + self.alias->0@,
            )
            &&& after == before
        } else {
            &&& saves(r)
            &&& after.services@.len() == before.services@.len() + 1
            &&& after.services@.drop_last() == before.services@
            &&& after.services@.last().name@ == self.name@
            &&& opt_view(after.services@.last().alias) == opt_view(self.alias)
            &&& after.services@.last().environments@.len() == 0
            &&& after.services@.last().endpoints@.len() == 0
            &&& after.services@.last().headers@ == Map::<Seq<char>, Seq<char>>::empty()
            &&& after.headers == before.headers
            &&& after.presets == before.presets
        }
    }

    /// Adds the service, unless its name or alias already names or aliases one.
    pub fn execute(&self, config: &mut HtrsConfig) -> (r: Result<HtrsAction, HtrsError>)
        ensures
            self.outcome(*old(config), *final(config), r),
    {
        if config.get_service(&self.name).is_some() {
            let mut msg = "A service already exists with the name or alias '".to_owned();
            msg.append(self.name.as_str());
            msg.append("'");
            return Err(HtrsError { details: msg });
        }
        if let Some(alias) = &self.alias {
            if config.get_service(alias).is_some() {
                let mut msg = "A service already exists with the name or alias '".to_owned();
                msg.append(alias.as_str());
                return Err(HtrsError { details: msg });
            }
        }
        let alias = match &self.alias {
            Some(a) => Some(a.clone()),
            None => None,
        };
        let ghost before = config.services@;
        config.services.push(Service::new(self.name.clone(), alias));
        assert(config.services@.drop_last() =~= before);
        Ok(HtrsAction::UpdateConfig)
    }
}

} // verus!
