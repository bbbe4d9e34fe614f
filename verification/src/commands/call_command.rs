//! `call`: build the request for an endpoint of a service in an environment.

use vstd::prelude::*;
use crate::common::{get_params_from_path, key_value_of, parse_key_value_string, path_params};
use crate::config::{
    endpoint_known, endpoint_named, environment_is, environment_known, first_at, first_index,
    is_default, lemma_first_at_unique, none_match, opt_view, preset_is, preset_known, service_is,
    service_known, Endpoint, Environment, HtrsConfig, Preset, QueryParameter, Service,
};
use crate::htrs_binding_error::HtrsBindingError;
use crate::outcomes::{fails_with, HtrsAction, HtrsError, HttpMethod};
use crate::request::{joined_url, join_url, parse_url, parsed_url};
use crate::string_map::{insert_each, pairs_map, StringMap};
use crate::text::{count_char, replace_all, replace_str, to_chars, views};

verus! {

/// A request to an endpoint of a service, with its path filled in, its query
/// parameters and the headers of the global and service scopes.
#[derive(Debug)]
pub struct CallServiceEndpointCommand {
    pub service_name: String,
    pub environment_name: Option<String>,
    pub path: String,
    pub query_parameters: StringMap,
    pub headers: StringMap,
    pub show_body: bool,
    pub preset: Option<String>,
}

/// The `name=value` pair that a `--query-param` argument gives: it holds
/// exactly one `=` with text on both sides.
pub open spec fn query_arg_of(arg: Seq<char>) -> Option<(Seq<char>, Seq<char>)> {
    if count_char(arg, '=') == 1 {
        key_value_of(arg)
    } else {
        None
    }
}

fn count_eq(v: &Vec<char>) -> (n: usize)
    ensures
        n == count_char(v@, '='),
{
    let mut n: usize = 0;
    let mut i: usize = 0;
    while i < v.len()
        invariant
            i <= v@.len(),
            n == count_char(v@.take(i as int), '='),
            n <= i,
        decreases v@.len() - i,
    {
        assert(v@.take(i + 1).drop_last() =~= v@.take(i as int));
        if v[i] == '=' {
            n = n + 1;
        }
        i = i + 1;
    }
    assert(v@.take(v@.len() as int) =~= v@);
    n
}

/// Reads a `--query-param` argument `name=value`; fails unless it holds
/// exactly one `=` with text on both sides.
pub fn parse_query_params_from_arg(arg: &str) -> (r: Result<(String, String), HtrsBindingError>)
    ensures
        match r {
            Ok((name, value)) => query_arg_of(arg@) == Some((name@, value@)),
            Err(e) => query_arg_of(arg@) is None && e.description@ == "Invalid query parameter: "@ + arg@,
        },
{
    let v = to_chars(arg);
    if count_eq(&v) == 1 {
        if let Ok((name, value)) = parse_key_value_string(arg) {
            return Ok((name, value));
        }
    }
    let mut msg = "Invalid query parameter: ".to_owned();
    msg.append(arg);
    Err(HtrsBindingError { description: msg })
}

/// The path with each parameter `{name}` replaced, in turn, by its value;
/// `None` where a parameter has no value.
pub open spec fn fill_template(path: Seq<char>, params: Seq<Seq<char>>, values: Map<Seq<char>, Seq<char>>) -> Option<Seq<char>>
    decreases params.len(),
{
    if params.len() == 0 {
        Some(path)
    } else if !values.dom().contains(params[0]) {
        None
    } else {
        fill_template(
            replace_all(path, "{"@ + params[0] + "}"@, values[params[0]]),
            params.skip(1),
            values,
        )
    }
}

/// Fills in the `{name}` parameters of a path template from the values given;
/// `None` where a parameter has no value.
pub fn build_path_from_template(path_template: &str, values: &StringMap) -> (r: Option<String>)
    ensures
        match r {
            Some(p) => fill_template(path_template@, path_params(path_template@), values@) == Some(p@),
            None => fill_template(path_template@, path_params(path_template@), values@) is None,
        },
{
    let names = get_params_from_path(path_template);
    let ghost params = views(names@);
    let mut path = path_template.to_owned();
    let mut i: usize = 0;
    assert(params.skip(0) =~= params);
    while i < names.len()
        invariant
            params == views(names@),
            params == path_params(path_template@),
            i <= names@.len(),
            fill_template(path@, params.skip(i as int), values@) == fill_template(
                path_template@,
                params,
                values@,
            ),
        decreases names@.len() - i,
    {
        assert(params.skip(i as int).skip(1) =~= params.skip(i + 1));
        assert(params.skip(i as int)[0] == names@[i as int]@);
        let value = match values.get(names[i].as_str()) {
            Some(v) => v,
            None => return None,
        };
        let mut pattern = "{".to_owned();
        pattern.append(names[i].as_str());
        pattern.append("}");
        assert(pattern@.len() > 0) by {
            assert(pattern@ == "{"@ + names@[i as int]@ + "}"@);
            assert(("{"@ + names@[i as int]@ + "}"@).len() >= ("}"@).len());
            reveal_strlit("}");
        }
        path = replace_str(path.as_str(), pattern.as_str(), value.as_str());
        i = i + 1;
    }
    assert(params.skip(i as int).len() == 0);
    Some(path)
}

/// The name and value of each of the endpoint's query parameters that has a
/// value, in order.
pub open spec fn present_query_pairs(params: Seq<QueryParameter>, values: Map<Seq<char>, Seq<char>>) -> Seq<(Seq<char>, Seq<char>)>
    decreases params.len(),
{
    if params.len() == 0 {
        Seq::empty()
    } else {
        let rest = present_query_pairs(params.drop_last(), values);
        let n = params.last().name@;
        if values.dom().contains(n) {
            rest.push((n, values[n]))
        } else {
            rest
        }
    }
}

/// Every required query parameter has a value.
pub open spec fn required_given(params: Seq<QueryParameter>, values: Map<Seq<char>, Seq<char>>) -> bool {
    forall|k: int| 0 <= k < params.len() && (#[trigger] params[k]).required ==> values.dom().contains(params[k].name@)
}

/// The query parameter table that the values give for the endpoint's query
/// parameters: those with a value, in order; `None` where a required one has
/// no value.
pub open spec fn query_from_values(params: Seq<QueryParameter>, values: Map<Seq<char>, Seq<char>>) -> Option<Map<Seq<char>, Seq<char>>> {
    if required_given(params, values) {
        Some(pairs_map(present_query_pairs(params, values)))
    } else {
        None
    }
}

/// The endpoint's query parameters with the values given for them; one without
/// a value is left out, unless it is required, which gives `None`.
pub fn get_query_parameters_from_args(endpoint: &Endpoint, values: &StringMap) -> (r: Option<StringMap>)
    ensures
        match r {
            Some(m) => query_from_values(endpoint.query_parameters@, values@) == Some(m@),
            None => query_from_values(endpoint.query_parameters@, values@) is None,
        },
{
    let ghost params = endpoint.query_parameters@;
    let mut m = StringMap::new();
    let mut i: usize = 0;
    assert(params.take(0) =~= Seq::<QueryParameter>::empty());
    while i < endpoint.query_parameters.len()
        invariant
            params == endpoint.query_parameters@,
            i <= params.len(),
            forall|k: int| 0 <= k < i && (#[trigger] params[k]).required ==> values@.dom().contains(params[k].name@),
            m@ == pairs_map(present_query_pairs(params.take(i as int), values@)),
        decreases params.len() - i,
    {
        let q = &endpoint.query_parameters[i];
        assert(params.take(i + 1).drop_last() =~= params.take(i as int));
        assert(params.take(i + 1).last() == params[i as int]);
        let ghost before = present_query_pairs(params.take(i as int), values@);
        let ghost n = params[i as int].name@;
        match values.get(q.name.as_str()) {
            Some(v) => {
                assert(present_query_pairs(params.take(i + 1), values@) == before.push((n, values@[n])));
                assert(before.push((n, values@[n])).drop_last() =~= before);
                m.insert(q.name.clone(), v.clone());
            },
            None => {
                if q.required {
                    assert(!required_given(params, values@));
                    return None;
                }
                assert(present_query_pairs(params.take(i + 1), values@) == before);
            },
        }
        i = i + 1;
    }
    assert(params.take(params.len() as int) =~= params);
    Some(m)
}

/// Copies every entry of `from` into `into`; those of `from` win.
pub fn merge(into: &mut StringMap, from: &StringMap)
    ensures
        final(into)@ == old(into)@.union_prefer_right(from@),
{
    into.extend_with(from);
}

/// Every `--query-param` argument is in the form `name=value`.
pub open spec fn all_query_args(args: Seq<Seq<char>>) -> bool {
    forall|k: int| 0 <= k < args.len() ==> (#[trigger] query_arg_of(args[k])) is Some
}

/// The first `--query-param` argument not in the form `name=value`.
pub open spec fn first_bad_query_arg(args: Seq<Seq<char>>) -> int {
    choose|k: int|
        0 <= k < args.len() && query_arg_of(args[k]) is None && forall|j: int|
            0 <= j < k ==> (#[trigger] query_arg_of(args[j])) is Some
}

/// The pairs that well-formed `--query-param` arguments give, in order.
pub open spec fn query_arg_pairs(args: Seq<Seq<char>>) -> Seq<(Seq<char>, Seq<char>)> {
    args.map_values(|a: Seq<char>| query_arg_of(a)->0)
}

/// Stores the pair of each `--query-param` argument in turn; fails on the
/// first argument not in the form `name=value`.
pub fn apply_query_args(query: &mut StringMap, query_args: &Vec<String>) -> (r: Result<(), HtrsBindingError>)
    ensures
        all_query_args(views(query_args@)) ==> r is Ok && final(query)@ == insert_each(
            old(query)@,
            query_arg_pairs(views(query_args@)),
        ),
        !all_query_args(views(query_args@)) ==> (r matches Err(e) && e.description@
            == "Invalid query parameter: "@ + views(query_args@)[first_bad_query_arg(views(query_args@))]),
{
    let ghost args = views(query_args@);
    let ghost start = query@;
    let mut i: usize = 0;
    assert(args.skip(0) =~= args);
    while i < query_args.len()
        invariant
            args == views(query_args@),
            i <= args.len(),
            forall|j: int| 0 <= j < i ==> (#[trigger] query_arg_of(args[j])) is Some,
            insert_each(query@, query_arg_pairs(args.skip(i as int))) == insert_each(start, query_arg_pairs(args)),
        decreases args.len() - i,
    {
        assert(args.skip(i as int).skip(1) =~= args.skip(i + 1));
        assert(query_arg_pairs(args.skip(i as int)).skip(1) =~= query_arg_pairs(args.skip(i + 1)));
        match parse_query_params_from_arg(query_args[i].as_str()) {
            Ok((key, value)) => {
                assert(query_arg_pairs(args.skip(i as int))[0] == (key@, value@));
                query.insert(key, value);
            },
            Err(e) => {
                proof {
                    let k = first_bad_query_arg(args);
                    assert(0 <= i < args.len() && query_arg_of(args[i as int]) is None && forall|j: int|
                        0 <= j < i ==> (#[trigger] query_arg_of(args[j])) is Some);
                    if k < i {
                        assert(query_arg_of(args[k]) is Some);
                    }
                    if k > i {
                        assert(query_arg_of(args[i as int]) is Some);
                    }
                }
                return Err(e);
            },
        }
        i = i + 1;
    }
    assert(query_arg_pairs(args.skip(i as int)).len() == 0);
    Ok(())
}

/// The values a call works from: those given, and, where a preset is named,
/// the preset's values for the names not given.
pub open spec fn call_values(config: HtrsConfig, values: Map<Seq<char>, Seq<char>>, preset: Option<Seq<char>>) -> Map<Seq<char>, Seq<char>> {
    match preset {
        Some(p) => config.presets@[first_index(config.presets@, |q: Preset| preset_is(q, p))].values@.union_prefer_right(values),
        None => values,
    }
}

impl CallServiceEndpointCommand {
    /// The service that `name` designates in the configuration.
    pub open spec fn service_index(config: HtrsConfig, name: Seq<char>) -> int {
        first_index(config.services@, |s: Service| service_is(s, name))
    }

    /// The endpoint of the service that `name` designates.
    pub open spec fn endpoint_index(service: Service, name: Seq<char>) -> int {
        first_index(service.endpoints@, |e: Endpoint| endpoint_named(e, name))
    }

    /// What binding the command from the arguments gives.
    pub open spec fn binding(
        config: HtrsConfig,
        service_name: Seq<char>,
        endpoint_name: Seq<char>,
        environment_name: Option<Seq<char>>,
        values: Map<Seq<char>, Seq<char>>,
        query_args: Seq<Seq<char>>,
        show_body: bool,
        preset: Option<Seq<char>>,
        r: Result<CallServiceEndpointCommand, HtrsBindingError>,
    ) -> bool {
        if !service_known(config.services@, service_name) {
            r matches Err(e) && e.description@ == "Bad service name"@
        } else {
            let service = config.services@[Self::service_index(config, service_name)];
            if !endpoint_known(service.endpoints@, endpoint_name) {
                r matches Err(e) && e.description@ == "Bad endpoint name"@
            } else {
                let endpoint = service.endpoints@[Self::endpoint_index(service, endpoint_name)];
                let vals = call_values(config, values, preset);
                let path = fill_template(endpoint.path_template@, path_params(endpoint.path_template@), vals);
                let query = query_from_values(endpoint.query_parameters@, vals);
                if preset is Some && !preset_known(config.presets@, preset->0) {
                    r matches Err(e) && e.description@ == "No preset could be found with name or alias `"@
                        + preset->0 + "`"@
                } else if path is None || query is None {
                    r matches Err(e) && e.description@ == "Unexpected binding - no value found"@
                } else if !all_query_args(query_args) {
                    r matches Err(e) && e.description@ == "Invalid query parameter: "@
                        + query_args[first_bad_query_arg(query_args)]
                } else {
                    &&& r is Ok
                    &&& r->Ok_0.service_name@ == service_name
                    &&& opt_view(r->Ok_0.environment_name) == environment_name
                    &&& r->Ok_0.path@ == path->0
                    &&& r->Ok_0.query_parameters@ == insert_each(query->0, query_arg_pairs(query_args))
                    &&& r->Ok_0.headers@ == config.headers@.union_prefer_right(service.headers@)
                    &&& r->Ok_0.show_body == show_body
                    &&& opt_view(r->Ok_0.preset) == preset
                }
            }
        }
    }

    /// Binds the command for an endpoint of a service from the values given
    /// for its path and query parameters (by name), the `--query-param`
    /// arguments, and the other options. Where a preset is named, its values
    /// stand in for those not given.
    pub fn bind(
        config: &HtrsConfig,
        service_name: &str,
        endpoint_name: &str,
        environment_name: Option<String>,
        values: &StringMap,
        query_args: &Vec<String>,
        show_body: bool,
        preset: Option<String>,
    ) -> (r: Result<CallServiceEndpointCommand, HtrsBindingError>)
        ensures
            Self::binding(
                *config,
                service_name@,
                endpoint_name@,
                opt_view(environment_name),
                values@,
                views(query_args@),
                show_body,
                opt_view(preset),
                r,
            ),
    {
        let ghost spred = |s: Service| service_is(s, service_name@);
        let service = match config.get_service(service_name) {
            Some(s) => s,
            None => return Err(HtrsBindingError { description: "Bad service name".to_owned() }),
        };
        proof {
            let i = choose|i: int| first_at(config.services@, spred, i) && *service == config.services@[i];
            lemma_first_at_unique(config.services@, spred, i, Self::service_index(*config, service_name@));
        }
        let ghost epred = |e: Endpoint| endpoint_named(e, endpoint_name@);
        let endpoint = match service.get_endpoint(endpoint_name) {
            Some(e) => e,
            None => return Err(HtrsBindingError { description: "Bad endpoint name".to_owned() }),
        };
        proof {
            let j = choose|j: int| first_at(service.endpoints@, epred, j) && *endpoint == service.endpoints@[j];
            lemma_first_at_unique(service.endpoints@, epred, j, Self::endpoint_index(*service, endpoint_name@));
        }
        let vals = match &preset {
            None => values.duplicate(),
            Some(preset_name) => {
                let ghost ppred = |p: Preset| preset_is(p, preset_name@);
                match config.get_preset(preset_name.as_str()) {
                    Some(found) => {
                        proof {
                            let k = choose|k: int| first_at(config.presets@, ppred, k) && *found == config.presets@[k];
                            lemma_first_at_unique(config.presets@, ppred, k, first_index(config.presets@, ppred));
                        }
                        let mut v = found.values.duplicate();
                        v.extend_with(values);
                        v
                    },
                    None => {
                        let mut msg = "No preset could be found with name or alias `".to_owned();
                        msg.append(preset_name.as_str());
                        msg.append("`");
                        return Err(HtrsBindingError { description: msg });
                    },
                }
            },
        };
        let mut headers = config.headers.duplicate();
        merge(&mut headers, &service.headers);
        let path = match build_path_from_template(endpoint.path_template.as_str(), &vals) {
            Some(p) => p,
            None => return Err(HtrsBindingError { description: "Unexpected binding - no value found".to_owned() }),
        };
        let mut query_parameters = match get_query_parameters_from_args(endpoint, &vals) {
            Some(q) => q,
            None => return Err(HtrsBindingError { description: "Unexpected binding - no value found".to_owned() }),
        };
        if let Err(e) = apply_query_args(&mut query_parameters, query_args) {
            return Err(e);
        }
        Ok(CallServiceEndpointCommand {
            service_name: service_name.to_owned(),
            environment_name,
            path,
            query_parameters,
            headers,
            show_body,
            preset,
        })
    }

    /// The environment the request goes to: the one named, else the service's
    /// first default environment.
    pub open spec fn environment_index(self, service: Service) -> int {
        match self.environment_name {
            Some(n) => first_index(service.environments@, |e: Environment| environment_is(e, n@)),
            None => first_index(service.environments@, |e: Environment| is_default(e)),
        }
    }

    /// The request that running the command gives in the configuration.
    pub open spec fn request(self, config: HtrsConfig, r: Result<HtrsAction, HtrsError>) -> bool {
        let service = config.services@[Self::service_index(config, self.service_name@)];
        if self.environment_name is None && none_match(service.environments@, |e: Environment| is_default(e)) {
            fails_with(r, "No default environment defined for service "@ + self.service_name@)
        } else {
            let environment = service.environments@[self.environment_index(service)];
            match parsed_url("https://"@ + environment.host@ + "/"@) {
                Err(e) => fails_with(r, "Failed to build url from given host: "@ + e),
                Ok(base) => match joined_url(base, self.path@) {
                    Err(e) => fails_with(r, "Failed to build url for endpoint: "@ + e),
                    Ok(joined) => r matches Ok(
                        HtrsAction::MakeRequest { url, query_parameters, method, headers, show_body },
                    ) && url@ == joined && query_parameters@ == self.query_parameters@
                        && method == HttpMethod::Get && headers@
                        == self.headers@.union_prefer_right(environment.headers@) && show_body
                        == self.show_body,
                },
            }
        }
    }

    /// Builds the request: an HTTP GET of the path on the environment's host,
    /// with the query parameters and the headers of all three scopes (those of
    /// the environment winning).
    pub fn execute_command(&self, config: &HtrsConfig) -> (r: Result<HtrsAction, HtrsError>)
        requires
            service_known(config.services@, self.service_name@),
            self.environment_name is Some ==> environment_known(
                config.services@[Self::service_index(*config, self.service_name@)].environments@,
                self.environment_name->0@,
            ),
        ensures
            self.request(*config, r),
    {
        let ghost spred = |s: Service| service_is(s, self.service_name@);
        let service = match config.get_service(self.service_name.as_str()) {
            Some(s) => s,
            None => return vstd::pervasive::unreached(),
        };
        proof {
            let i = choose|i: int| first_at(config.services@, spred, i) && *service == config.services@[i];
            lemma_first_at_unique(config.services@, spred, i, Self::service_index(*config, self.service_name@));
        }
        let environment = match &self.environment_name {
            Some(environment_name) => {
                let ghost epred = |e: Environment| environment_is(e, environment_name@);
                match service.get_environment(environment_name.as_str()) {
                    Some(e) => {
                        proof {
                            let j = choose|j: int| first_at(service.environments@, epred, j) && *e == service.environments@[j];
                            lemma_first_at_unique(service.environments@, epred, j, self.environment_index(*service));
                        }
                        e
                    },
                    None => return vstd::pervasive::unreached(),
                }
            },
            None => {
                let ghost dpred = |e: Environment| is_default(e);
                match service.get_default_environment() {
                    Some(e) => {
                        proof {
                            let j = choose|j: int| first_at(service.environments@, dpred, j) && *e == service.environments@[j];
                            lemma_first_at_unique(service.environments@, dpred, j, self.environment_index(*service));
                        }
                        e
                    },
                    None => {
                        let mut msg = "No default environment defined for service ".to_owned();
                        msg.append(self.service_name.as_str());
                        return Err(HtrsError { details: msg });
                    },
                }
            },
        };
        let mut address = "https://".to_owned();
        address.append(environment.host.as_str());
        address.append("/");
        let base_url = match parse_url(address.as_str()) {
            Ok(u) => u,
            Err(e) => {
                let mut msg = "Failed to build url from given host: ".to_owned();
                msg.append(e.as_str());
                return Err(HtrsError { details: msg });
            },
        };
        let url = match join_url(base_url.as_str(), self.path.as_str()) {
            Ok(u) => u,
            Err(e) => {
                let mut msg = "Failed to build url for endpoint: ".to_owned();
                msg.append(e.as_str());
                return Err(HtrsError { details: msg });
            },
        };
        let mut headers = self.headers.duplicate();
        headers.extend_with(&environment.headers);
        Ok(HtrsAction::MakeRequest {
            url,
            query_parameters: self.query_parameters.duplicate(),
            method: HttpMethod::Get,
            headers,
            show_body: self.show_body,
        })
    }
}

} // verus!
