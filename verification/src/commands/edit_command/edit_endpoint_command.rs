//! `edit endpoint`: change an endpoint of a service.

use vstd::prelude::*;
use crate::commands::new_command::new_endpoint_command::{describes_parameters, parameters_from_shorthands};
use crate::config::{
    endpoint_known, endpoint_named, first_at, first_index, lemma_filter_step, lemma_first_at_unique,
    service_is, service_known, Endpoint, HtrsConfig, QueryParameter, Service,
};
use crate::outcomes::{fails_with, saves, HtrsAction, HtrsError};
use crate::text::views;

verus! {

/// Rename an endpoint, change its path, add query parameters (in shorthand,
/// `*name` for a required one) and remove query parameters by name.
#[derive(Debug)]
pub struct EditEndpointCommand {
    pub name: String,
    pub service: String,
    pub new_name: Option<String>,
    pub new_path: Option<String>,
    pub new_query_parameters: Vec<String>,
    pub delete_query_parameters: Vec<String>,
}

/// The query parameter is not among the names to remove.
pub open spec fn kept_parameter(q: QueryParameter, removed: Seq<Seq<char>>) -> bool {
    !removed.contains(q.name@)
}

fn contains_name(names: &Vec<String>, name: &String) -> (r: bool)
    ensures
        r == views(names@).contains(name@),
{
    let mut i: usize = 0;
    while i < names.len()
        invariant
            i <= names@.len(),
            forall|j: int| 0 <= j < i ==> names@[j]@ != name@,
        decreases names@.len() - i,
    {
        if names[i] == *name {
            assert(views(names@)[i as int] == name@);
            return true;
        }
        i = i + 1;
    }
    assert forall|j: int| 0 <= j < views(names@).len() implies views(names@)[j] != name@ by {
        assert(names@[j]@ != name@);
    }
    false
}

/// The query parameters whose names are not among `removed`, in order.
pub fn without_parameters(params: Vec<QueryParameter>, removed: &Vec<String>) -> (r: Vec<QueryParameter>)
    ensures
        r@ == params@.filter(|q: QueryParameter| kept_parameter(q, views(removed@))),
{
    let ghost pred = |q: QueryParameter| kept_parameter(q, views(removed@));
    let ghost orig = params@;
    let mut kept: Vec<QueryParameter> = Vec::new();
    let it = params.into_iter();
    for q in iter: it
        invariant
            pred == (|q: QueryParameter| kept_parameter(q, views(removed@))),
            iter.seq() == orig,
            kept@ == orig.take(iter.index() as int).filter(pred),
    {
        let ghost idx = iter.index() as int;
        assert(q == orig[idx]);
        proof {
            lemma_filter_step(orig, pred, idx);
        }
        if !contains_name(removed, &q.name) {
            kept.push(q);
        }
        assert(kept@ == orig.take(idx + 1).filter(pred));
    }
    assert(orig.take(orig.len() as int) =~= orig);
    kept
}

impl EditEndpointCommand {
    /// The service that `service` designates in the configuration.
    pub open spec fn target(self, config: HtrsConfig) -> int {
        first_index(config.services@, |s: Service| service_is(s, self.service@))
    }

    /// The relation between the configuration before the command runs, after
    /// it, and its result.
    pub open spec fn outcome(self, before: HtrsConfig, after: HtrsConfig, r: Result<HtrsAction, HtrsError>) -> bool {
        if !service_known(before.services@, self.service@) {
            &&& fails_with(r, "No service could be found with name or alias `"@ + self.service@ + "`"@)
            &&& after == before
        } else if !endpoint_known(before.services@[self.target(before)].endpoints@, self.name@) {
            &&& fails_with(
                r,
                "No endpoint could be found with name `"@ + self.name@ + "` for service `"@
                    + before.services@[self.target(before)].name@ + "`"@,
            )
            &&& after == before
        } else if self.new_name is Some && endpoint_known(
            before.services@[self.target(before)].endpoints@,
            self.new_name->0@,
        ) {
            &&& fails_with(
                r,
                "An endpoint already exists with name `"@ + self.new_name->0@ + "` for service `"@
                    + before.services@[self.target(before)].name@ + "`"@,
            )
            &&& after == before
        } else {
            let i = self.target(before);
            let old_service = before.services@[i];
            let new_service = after.services@[i];
            let j = first_index(old_service.endpoints@, |e: Endpoint| endpoint_named(e, self.name@));
            let old_endpoint = old_service.endpoints@[j];
            let new_endpoint = new_service.endpoints@[j];
            &&& saves(r)
            &&& after.services@ == before.services@.update(i, new_service)
            &&& new_service.endpoints@ == old_service.endpoints@.update(j, new_endpoint)
            &&& new_endpoint.name@ == match self.new_name {
                Some(n) => n@,
                None => old_endpoint.name@,
            }
            &&& new_endpoint.path_template@ == match self.new_path {
                Some(p) => p@,
                None => old_endpoint.path_template@,
            }
            &&& exists|added: Seq<QueryParameter>|
                describes_parameters(added, views(self.new_query_parameters@))
                    && new_endpoint.query_parameters@ == (old_endpoint.query_parameters@
                    + added).filter(
                    |q: QueryParameter| kept_parameter(q, views(self.delete_query_parameters@)),
                )
            &&& new_service.name == old_service.name
            &&& new_service.alias == old_service.alias
            &&& new_service.headers == old_service.headers
            &&& new_service.environments == old_service.environments
            &&& after.headers == before.headers
            &&& after.presets == before.presets
        }
    }

    /// Changes the endpoint, where the service and endpoint exist and no
    /// endpoint of the service already has the new name.
    pub fn execute(&self, config: &mut HtrsConfig) -> (r: Result<HtrsAction, HtrsError>)
        ensures
            self.outcome(*old(config), *final(config), r),
    {
        let ghost pred = |s: Service| service_is(s, self.service@);
        let service = match config.get_service(self.service.as_str()) {
            Some(s) => s,
            None => {
                let mut msg = "No service could be found with name or alias `".to_owned();
                msg.append(self.service.as_str());
                msg.append("`");
                return Err(HtrsError { details: msg });
            },
        };
        proof {
            let i = choose|i: int| first_at(config.services@, pred, i) && *service == config.services@[i];
            lemma_first_at_unique(config.services@, pred, i, self.target(*config));
        }
        if service.get_endpoint(self.name.as_str()).is_none() {
            let mut msg = "No endpoint could be found with name `".to_owned();
            msg.append(self.name.as_str());
            msg.append("` for service `");
            msg.append(service.name.as_str());
            msg.append("`");
            return Err(HtrsError { details: msg });
        }
        if let Some(new_name) = &self.new_name {
            if service.get_endpoint(new_name.as_str()).is_some() {
                let mut msg = "An endpoint already exists with name `".to_owned();
                msg.append(new_name.as_str());
                msg.append("` for service `");
                msg.append(service.name.as_str());
                msg.append("`");
                return Err(HtrsError { details: msg });
            }
        }
        let added = parameters_from_shorthands(&self.new_query_parameters);
        let ghost old_config = *config;
        let service = match config.get_service_mut(self.service.as_str()) {
            Some(s) => s,
            None => return vstd::pervasive::unreached(),
        };
        proof {
            let i = choose|i: int| first_at(old_config.services@, pred, i) && *service == old_config.services@[i];
            lemma_first_at_unique(old_config.services@, pred, i, self.target(old_config));
        }
        let ghost epred = |e: Endpoint| endpoint_named(e, self.name@);
        let ghost old_service = *service;
        let endpoint = match service.get_endpoint_mut(self.name.as_str()) {
            Some(e) => e,
            None => return vstd::pervasive::unreached(),
        };
        proof {
            let k = choose|k: int| first_at(old_service.endpoints@, epred, k) && *endpoint == old_service.endpoints@[k];
            lemma_first_at_unique(old_service.endpoints@, epred, k, first_index(old_service.endpoints@, epred));
        }
        if let Some(new_name) = &self.new_name {
            endpoint.name = new_name.clone();
        }
        if let Some(new_path) = &self.new_path {
            endpoint.path_template = new_path.clone();
        }
        let mut params: Vec<QueryParameter> = Vec::new();
        std::mem::swap(&mut params, &mut endpoint.query_parameters);
        let ghost old_params = params@;
        let mut more = added;
        params.append(&mut more);
        assert(params@ == old_params + added@);
        endpoint.query_parameters = without_parameters(params, &self.delete_query_parameters);
        Ok(HtrsAction::UpdateConfig)
    }
}

} // verus!
