//! `new endpoint`: define an endpoint of a service.

use vstd::prelude::*;
use crate::common::{duplicates_of, get_duplicates_from_vec, get_params_from_path, path_params};
use crate::config::{
    endpoint_known, first_at, first_index, lemma_first_at_unique, service_is, service_known,
    shorthand_name, shorthand_required, Endpoint, HtrsConfig, QueryParameter, Service,
};
use crate::outcomes::{fails_with, saves, HtrsAction, HtrsError};
use crate::text::{join_strings, join_with, views};

verus! {

/// Create an endpoint: a path template, whose `{name}` parts are parameters,
/// and query parameters given in shorthand (`*name` for a required one).
#[derive(Debug)]
pub struct NewEndpointCommand {
    pub service: String,
    pub name: String,
    pub path_template: String,
    pub query_parameters: Vec<String>,
}

/// The query parameters that the shorthands describe, in order.
pub open spec fn describes_parameters(params: Seq<QueryParameter>, shorthands: Seq<Seq<char>>) -> bool {
    &&& params.len() == shorthands.len()
    &&& forall|k: int|
        0 <= k < params.len() ==> (#[trigger] params[k]).name@ == shorthand_name(shorthands[k])
            && params[k].required == shorthand_required(shorthands[k])
}

/// The names that the shorthands give.
pub open spec fn shorthand_names(shorthands: Seq<Seq<char>>) -> Seq<Seq<char>> {
    shorthands.map_values(|q: Seq<char>| shorthand_name(q))
}

/// The query parameters that the shorthands describe.
pub fn parameters_from_shorthands(shorthands: &Vec<String>) -> (r: Vec<QueryParameter>)
    ensures
        describes_parameters(r@, views(shorthands@)),
{
    let mut r: Vec<QueryParameter> = Vec::new();
    let mut i: usize = 0;
    while i < shorthands.len()
        invariant
            i <= shorthands@.len(),
            r@.len() == i,
            forall|k: int|
                0 <= k < i ==> (#[trigger] r@[k]).name@ == shorthand_name(shorthands@[k]@)
                    && r@[k].required == shorthand_required(shorthands@[k]@),
        decreases shorthands@.len() - i,
    {
        r.push(QueryParameter::from_shorthand(shorthands[i].as_str()));
        i = i + 1;
    }
    r
}

fn names_of(params: &Vec<QueryParameter>) -> (r: Vec<String>)
    ensures
        views(r@) == params@.map_values(|q: QueryParameter| q.name@),
{
    let mut r: Vec<String> = Vec::new();
    let mut i: usize = 0;
    while i < params.len()
        invariant
            i <= params@.len(),
            views(r@) == params@.map_values(|q: QueryParameter| q.name@).take(i as int),
        decreases params@.len() - i,
    {
        let ghost prev = r@;
        r.push(params[i].name.clone());
        assert(views(r@) =~= views(prev).push(params@[i as int].name@));
        assert(params@.map_values(|q: QueryParameter| q.name@).take(i + 1) =~= params@.map_values(
            |q: QueryParameter| q.name@,
        ).take(i as int).push(params@[i as int].name@));
        i = i + 1;
    }
    assert(params@.map_values(|q: QueryParameter| q.name@).take(params@.len() as int)
        =~= params@.map_values(|q: QueryParameter| q.name@));
    r
}

fn any_blank(params: &Vec<QueryParameter>) -> (r: bool)
    ensures
        r == exists|k: int| 0 <= k < params@.len() && (#[trigger] params@[k]).name@.len() == 0,
{
    let mut i: usize = 0;
    while i < params.len()
        invariant
            i <= params@.len(),
            forall|k: int| 0 <= k < i ==> (#[trigger] params@[k]).name@.len() != 0,
        decreases params@.len() - i,
    {
        if params[i].name.as_str().is_empty() {
            return true;
        }
        i = i + 1;
    }
    false
}

impl NewEndpointCommand {
    /// The service that `service` designates in the configuration.
    pub open spec fn target(self, config: HtrsConfig) -> int {
        first_index(config.services@, |s: Service| service_is(s, self.service@))
    }

    /// The relation between the configuration before the command runs, after it,
    /// and its result.
    pub open spec fn outcome(self, before: HtrsConfig, after: HtrsConfig, r: Result<HtrsAction, HtrsError>) -> bool {
        ({
            let path_dups = duplicates_of(path_params(self.path_template@));
            let names = shorthand_names(views(self.query_parameters@));
            let query_dups = duplicates_of(names);
            if self.name@.len() == 0 {
                fails_with(r, "Endpoint name cannot be empty"@) && after == before
            } else if self.path_template@.len() == 0 {
                fails_with(r, "Endpoint path cannot be empty"@) && after == before
            } else if path_dups.len() > 0 {
                fails_with(
                    r,
                    "The following path parameters were used more than once: "@ + join_with(
                        path_dups,
                        ","@,
                    ),
                ) && after == before
            } else if names.contains(Seq::<char>::empty()) {
                fails_with(r, "Query parameter names must not be blank"@) && after
                    == before
            } else if query_dups.len() > 0 {
                fails_with(
                    r,
                    "The following query parameter names were used more than once: "@
                        + join_with(query_dups, ","@),
                ) && after == before
            } else if !service_known(before.services@, self.service@) {
                fails_with(
                    r,
                    "Unable to find service with name or alias `"@ + self.service@ + "`"@,
                ) && after == before
            } else if endpoint_known(
                before.services@[self.target(before)].endpoints@,
                self.name@,
            ) {
                fails_with(
                    r,
                    "Service `"@ + self.service@ + "` already has an endpoint named `"@
                        + self.name@ + "`"@,
                ) && after == before
            } else {
                let i = self.target(before);
                let old_service = before.services@[i];
                let new_service = after.services@[i];
                &&& saves(r)
                &&& after.services@ == before.services@.update(i, new_service)
                &&& new_service.name == old_service.name
                &&& new_service.alias == old_service.alias
                &&& new_service.headers == old_service.headers
                &&& new_service.environments == old_service.environments
                &&& new_service.endpoints@.drop_last() == old_service.endpoints@
                &&& new_service.endpoints@.len() == old_service.endpoints@.len() + 1
                &&& new_service.endpoints@.last().name@ == self.name@
                &&& new_service.endpoints@.last().path_template@ == self.path_template@
                &&& describes_parameters(
                    new_service.endpoints@.last().query_parameters@,
                    views(self.query_parameters@),
                )
                &&& after.headers == before.headers
                &&& after.presets == before.presets
            }
        })
    }

    /// Adds the endpoint to the service after checking that its name and path
    /// are given, that no path parameter or query parameter name repeats, that
    /// no query parameter name is blank, and that the service exists and has no
    /// endpoint of that name.
    pub fn execute(&self, config: &mut HtrsConfig) -> (r: Result<HtrsAction, HtrsError>)
        ensures
            self.outcome(*old(config), *final(config), r),
    {
        if self.name.as_str().is_empty() {
            return Err(HtrsError::new("Endpoint name cannot be empty"));
        }
        if self.path_template.as_str().is_empty() {
            return Err(HtrsError::new("Endpoint path cannot be empty"));
        }
        let path_parameters = get_params_from_path(self.path_template.as_str());
        let duplicates = get_duplicates_from_vec(path_parameters);
        if duplicates.len() > 0 {
            let mut msg = "The following path parameters were used more than once: ".to_owned();
            let listed = join_strings(&duplicates, ",");
            msg.append(listed.as_str());
            return Err(HtrsError { details: msg });
        }
        let query_params = parameters_from_shorthands(&self.query_parameters);
        let ghost names = shorthand_names(views(self.query_parameters@));
        assert(query_params@.map_values(|q: QueryParameter| q.name@) =~= names);
        if any_blank(&query_params) {
            proof {
                let k = choose|k: int| 0 <= k < query_params@.len() && (#[trigger] query_params@[k]).name@.len() == 0;
                assert(names[k] =~= Seq::<char>::empty());
            }
            return Err(HtrsError::new("Query parameter names must not be blank"));
        }
        assert(!names.contains(Seq::<char>::empty())) by {
            if names.contains(Seq::<char>::empty()) {
                let k = choose|k: int| 0 <= k < names.len() && names[k] == Seq::<char>::empty();
                assert(query_params@[k].name@.len() == 0);
            }
        }
        let query_param_names = names_of(&query_params);
        let duplicate_query_params = get_duplicates_from_vec(query_param_names);
        if duplicate_query_params.len() > 0 {
            let mut msg = "The following query parameter names were used more than once: ".to_owned();
            let listed = join_strings(&duplicate_query_params, ",");
            msg.append(listed.as_str());
            return Err(HtrsError { details: msg });
        }
        let ghost pred = |s: Service| service_is(s, self.service@);
        let service = match config.get_service(&self.service) {
            Some(s) => s,
            None => {
                let mut msg = "Unable to find service with name or alias `".to_owned();
                msg.append(self.service.as_str());
                msg.append("`");
                return Err(HtrsError { details: msg });
            },
        };
        proof {
            let i = choose|i: int| first_at(config.services@, pred, i) && *service == config.services@[i];
            lemma_first_at_unique(config.services@, pred, i, self.target(*config));
        }
        if service.get_endpoint(&self.name).is_some() {
            let mut msg = "Service `".to_owned();
            msg.append(self.service.as_str());
            msg.append("` already has an endpoint named `");
            msg.append(self.name.as_str());
            msg.append("`");
            return Err(HtrsError { details: msg });
        }
        let endpoint = Endpoint {
            name: self.name.clone(),
            path_template: self.path_template.clone(),
            query_parameters: query_params,
        };
        let ghost old_config = *config;
        let service = match config.get_service_mut(&self.service) {
            Some(s) => s,
            None => return vstd::pervasive::unreached(),
        };
        proof {
            let i = choose|i: int| first_at(old_config.services@, pred, i) && *service == old_config.services@[i];
            lemma_first_at_unique(old_config.services@, pred, i, self.target(old_config));
        }
        let ghost before = service.endpoints@;
        service.endpoints.push(endpoint);
        assert(service.endpoints@.drop_last() =~= before);
        Ok(HtrsAction::UpdateConfig)
    }
}

} // verus!
