//! Reading a configuration of the first versioned layout into the current one.

use vstd::prelude::*;
use crate::config::{Endpoint, Environment, HtrsConfig, Preset, QueryParameter, Service};
use crate::config::v1::{EndpointV1, EnvironmentV1, HtrsConfigV1, PresetV1, QueryParameterV1, ServiceV1};

verus! {

/// The current form of a query parameter.
pub open spec fn migrated_query_parameter(q: QueryParameterV1) -> QueryParameter {
    QueryParameter { name: q.name, required: q.required }
}

/// The current form of an environment.
pub open spec fn migrated_environment(e: EnvironmentV1) -> Environment {
    Environment { name: e.name, alias: e.alias, host: e.host, default: e.default, headers: e.headers }
}

/// `to` is the current form of the endpoint `from`.
pub open spec fn migrated_endpoint(from: EndpointV1, to: Endpoint) -> bool {
    &&& to.name == from.name
    &&& to.path_template == from.path_template
    &&& to.query_parameters@ == from.query_parameters@.map_values(|q: QueryParameterV1| migrated_query_parameter(q))
}

/// `to` is the current form of the service `from`.
pub open spec fn migrated_service(from: ServiceV1, to: Service) -> bool {
    &&& to.name == from.name
    &&& to.alias == from.alias
    &&& to.headers == from.headers
    &&& to.environments@ == from.environments@.map_values(|e: EnvironmentV1| migrated_environment(e))
    &&& to.endpoints@.len() == from.endpoints@.len()
    &&& forall|k: int| 0 <= k < to.endpoints@.len() ==> migrated_endpoint(from.endpoints@[k], #[trigger] to.endpoints@[k])
}

/// The current form of a preset: it has no alias.
pub open spec fn migrated_preset(p: PresetV1) -> Preset {
    Preset { name: p.name, alias: None, values: p.values }
}

fn migrate_v1_query_parameter(parameter: QueryParameterV1) -> (r: QueryParameter)
    ensures
        r == migrated_query_parameter(parameter),
{
    QueryParameter { name: parameter.name, required: parameter.required }
}

fn migrate_v1_environment(environment: EnvironmentV1) -> (r: Environment)
    ensures
        r == migrated_environment(environment),
{
    Environment {
        name: environment.name,
        alias: environment.alias,
        host: environment.host,
        default: environment.default,
        headers: environment.headers,
    }
}

fn migrate_v1_endpoint(endpoint: EndpointV1) -> (r: Endpoint)
    ensures
        migrated_endpoint(endpoint, r),
{
    let ghost from = endpoint.query_parameters@;
    let mut query_parameters: Vec<QueryParameter> = Vec::new();
    for q in iter: endpoint.query_parameters.into_iter()
        invariant
            iter.seq() == from,
            query_parameters@ == from.take(iter.index() as int).map_values(|q: QueryParameterV1| migrated_query_parameter(q)),
    {
        let ghost idx = iter.index() as int;
        assert(q == from[idx]);
        query_parameters.push(migrate_v1_query_parameter(q));
        assert(from.take(idx + 1).map_values(|q: QueryParameterV1| migrated_query_parameter(q)) =~= from.take(idx).map_values(|q: QueryParameterV1| migrated_query_parameter(q)).push(migrated_query_parameter(from[idx])));
    }
    assert(from.take(from.len() as int) =~= from);
    Endpoint { name: endpoint.name, path_template: endpoint.path_template, query_parameters }
}

fn migrate_v1_service(service: ServiceV1) -> (r: Service)
    ensures
        migrated_service(service, r),
{
    let ghost envs = service.environments@;
    let mut environments: Vec<Environment> = Vec::new();
    for e in iter: service.environments.into_iter()
        invariant
            iter.seq() == envs,
            environments@ == envs.take(iter.index() as int).map_values(|e: EnvironmentV1| migrated_environment(e)),
    {
        let ghost idx = iter.index() as int;
        assert(e == envs[idx]);
        environments.push(migrate_v1_environment(e));
        assert(envs.take(idx + 1).map_values(|e: EnvironmentV1| migrated_environment(e)) =~= envs.take(idx).map_values(|e: EnvironmentV1| migrated_environment(e)).push(migrated_environment(envs[idx])));
    }
    assert(envs.take(envs.len() as int) =~= envs);
    let ghost eps = service.endpoints@;
    let mut endpoints: Vec<Endpoint> = Vec::new();
    for e in iter: service.endpoints.into_iter()
        invariant
            iter.seq() == eps,
            endpoints@.len() == iter.index(),
            forall|k: int| 0 <= k < endpoints@.len() ==> migrated_endpoint(eps[k], #[trigger] endpoints@[k]),
    {
        let ghost idx = iter.index() as int;
        assert(e == eps[idx]);
        endpoints.push(migrate_v1_endpoint(e));
    }
    Service {
        name: service.name,
        alias: service.alias,
        environments,
        endpoints,
        headers: service.headers,
    }
}

fn migrate_v1_preset(preset: PresetV1) -> (r: Preset)
    ensures
        r == migrated_preset(preset),
{
    Preset { name: preset.name, alias: None, values: preset.values }
}

/// Reads a configuration of the first versioned layout into the current one:
/// every item is carried over unchanged, and presets get no alias.
pub fn migrate_v1_to_v2(v1_config: HtrsConfigV1) -> (r: HtrsConfig)
    ensures
        r.services@.len() == v1_config.services@.len(),
        forall|k: int| 0 <= k < r.services@.len() ==> migrated_service(v1_config.services@[k], #[trigger] r.services@[k]),
        r.presets@ == v1_config.presets@.map_values(|p: PresetV1| migrated_preset(p)),
        r.headers == v1_config.headers,
{
    let ghost svcs = v1_config.services@;
    let mut services: Vec<Service> = Vec::new();
    for s in iter: v1_config.services.into_iter()
        invariant
            iter.seq() == svcs,
            services@.len() == iter.index(),
            forall|k: int| 0 <= k < services@.len() ==> migrated_service(svcs[k], #[trigger] services@[k]),
    {
        let ghost idx = iter.index() as int;
        assert(s == svcs[idx]);
        services.push(migrate_v1_service(s));
    }
    let ghost ps = v1_config.presets@;
    let mut presets: Vec<Preset> = Vec::new();
    for p in iter: v1_config.presets.into_iter()
        invariant
            iter.seq() == ps,
            presets@ == ps.take(iter.index() as int).map_values(|p: PresetV1| migrated_preset(p)),
    {
        let ghost idx = iter.index() as int;
        assert(p == ps[idx]);
        presets.push(migrate_v1_preset(p));
        assert(ps.take(idx + 1).map_values(|p: PresetV1| migrated_preset(p)) =~= ps.take(idx).map_values(|p: PresetV1| migrated_preset(p)).push(migrated_preset(ps[idx])));
    }
    assert(ps.take(ps.len() as int) =~= ps);
    HtrsConfig { services, presets, headers: v1_config.headers }
}

} // verus!
