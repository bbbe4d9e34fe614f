//! What single commands are for, stated over their inputs and results: what a
//! request carries, what an edit removes, what a filtered list shows, what a
//! migration keeps and what a view of a service shows.

use vstd::prelude::*;
use crate::commands::call_command::CallServiceEndpointCommand;
use crate::commands::edit_command::edit_endpoint_command::{kept_parameter, EditEndpointCommand};
use crate::commands::list_command::list_environment_command::ListEnvironmentsCommand;
use crate::commands::list_command::list_service_command::ListServicesCommand;
use crate::commands::view_command::view_service_command::{alias_line, endpoint_text, environment_text, ViewServiceCommand};
use crate::config::migrate_v1_to_v2::{migrated_preset, migrated_service};
use crate::config::v1::{HtrsConfigV1, PresetV1};
use crate::config::{
    endpoint_named, first_index, service_is, Endpoint, HtrsConfig,
    QueryParameter, Service,
};
use crate::outcomes::{saves, HtrsAction, HtrsError, HttpMethod};
use crate::text::{concat_all, join_with, lowercase_of, occurs_in, views};

verus! {

broadcast use vstd::seq_lib::group_filter_ensures;

/// Text that occurs in `b` occurs in `a + b` and in `b + a`.
pub proof fn lemma_occurs_in_append(a: Seq<char>, b: Seq<char>, p: Seq<char>)
    requires
        occurs_in(b, p),
    ensures
        occurs_in(a + b, p),
        occurs_in(b + a, p),
{
    let i = choose|i: int| 0 <= i && i + p.len() <= b.len() && #[trigger] b.subrange(i, i + p.len()) == p;
    assert((a + b).subrange(a.len() + i, a.len() + i + p.len()) =~= p);
    assert((b + a).subrange(i, i + p.len()) =~= p);
}

/// Every text occurs in itself.
pub proof fn lemma_occurs_in_self(p: Seq<char>)
    ensures
        occurs_in(p, p),
{
    let z: int = 0;
    assert(p.subrange(z, z + p.len()) =~= p);
}

/// Occurring in is transitive.
pub proof fn lemma_occurs_in_trans(h: Seq<char>, m: Seq<char>, p: Seq<char>)
    requires
        occurs_in(h, m),
        occurs_in(m, p),
    ensures
        occurs_in(h, p),
{
    let i = choose|i: int| 0 <= i && i + m.len() <= h.len() && #[trigger] h.subrange(i, i + m.len()) == m;
    let j = choose|j: int| 0 <= j && j + p.len() <= m.len() && #[trigger] m.subrange(j, j + p.len()) == p;
    assert(h.subrange(i + j, i + j + p.len()) =~= m.subrange(j, j + p.len()));
}

/// Each part occurs in the parts joined by a separator.
pub proof fn lemma_join_with_holds_each(parts: Seq<Seq<char>>, sep: Seq<char>, k: int)
    requires
        0 <= k < parts.len(),
    ensures
        occurs_in(join_with(parts, sep), parts[k]),
    decreases parts.len(),
{
    if parts.len() == 1 {
        lemma_occurs_in_self(parts[0]);
    } else {
        let front = join_with(parts.drop_last(), sep);
        if k == parts.len() - 1 {
            lemma_occurs_in_self(parts.last());
            lemma_occurs_in_append(front + sep, parts.last(), parts[k]);
        } else {
            lemma_join_with_holds_each(parts.drop_last(), sep, k);
            assert(parts.drop_last()[k] == parts[k]);
            lemma_occurs_in_append(sep, front, parts[k]);
            lemma_occurs_in_append(parts.last(), front + sep, parts[k]);
        }
    }
}

/// Each part occurs in the concatenation of the parts.
pub proof fn lemma_concat_all_holds_each(parts: Seq<Seq<char>>, k: int)
    requires
        0 <= k < parts.len(),
    ensures
        occurs_in(concat_all(parts), parts[k]),
    decreases parts.len(),
{
    let front = concat_all(parts.drop_last());
    if k == parts.len() - 1 {
        lemma_occurs_in_self(parts.last());
        lemma_occurs_in_append(front, parts.last(), parts[k]);
    } else {
        lemma_concat_all_holds_each(parts.drop_last(), k);
        assert(parts.drop_last()[k] == parts[k]);
        lemma_occurs_in_append(parts.last(), front, parts[k]);
    }
}

/// The request that a call builds carries exactly the bound command's query
/// parameters, its display flag, and the GET method.
pub proof fn law_request_carries_the_query_parameters(
    cmd: CallServiceEndpointCommand,
    config: HtrsConfig,
    r: Result<HtrsAction, HtrsError>,
)
    requires
        cmd.request(config, r),
        r is Ok,
    ensures
        r matches Ok(HtrsAction::MakeRequest { query_parameters, method, show_body, .. })
            && query_parameters@ == cmd.query_parameters@ && method == HttpMethod::Get
            && show_body == cmd.show_body,
{
}

/// The query parameters left after deleting some by name are exactly those of
/// the list whose name is not among the names deleted, in their order, whether
/// required or not.
pub proof fn law_deleted_query_parameters_are_gone(
    params: Seq<QueryParameter>,
    removed: Seq<Seq<char>>,
    kept: Seq<QueryParameter>,
)
    requires
        kept == params.filter(|q: QueryParameter| kept_parameter(q, removed)),
    ensures
        forall|k: int| 0 <= k < kept.len() ==> !removed.contains(#[trigger] kept[k].name@),
        forall|k: int| 0 <= k < params.len() && !removed.contains(#[trigger] params[k].name@) ==> kept.contains(params[k]),
        forall|q: QueryParameter| #[trigger] kept.contains(q) ==> params.contains(q),
{
    let pred = |q: QueryParameter| kept_parameter(q, removed);
    assert forall|k: int| 0 <= k < kept.len() implies !removed.contains(#[trigger] kept[k].name@) by {
        assert(pred(kept[k]));
    }
    assert forall|k: int| 0 <= k < params.len() && !removed.contains(#[trigger] params[k].name@) implies kept.contains(params[k]) by {
        assert(pred(params[k]));
    }
    assert forall|q: QueryParameter| #[trigger] kept.contains(q) implies params.contains(q) by {
        params.lemma_filter_contains_rev(pred, q);
    }
}

/// After an endpoint is edited with query parameters to delete, it has no
/// query parameter of any of those names, whether required or not, and it
/// keeps every earlier one whose name is not among them.
pub proof fn law_edit_endpoint_deletes_query_parameters(
    cmd: EditEndpointCommand,
    before: HtrsConfig,
    after: HtrsConfig,
    r: Result<HtrsAction, HtrsError>,
)
    requires
        cmd.outcome(before, after, r),
        saves(r),
    ensures
        ({
            let i = cmd.target(before);
            let j = first_index(before.services@[i].endpoints@, |e: Endpoint| endpoint_named(e, cmd.name@));
            let old_params = before.services@[i].endpoints@[j].query_parameters@;
            let new_params = after.services@[i].endpoints@[j].query_parameters@;
            let removed = views(cmd.delete_query_parameters@);
            &&& forall|k: int| 0 <= k < new_params.len() ==> !removed.contains(#[trigger] new_params[k].name@)
            &&& forall|k: int|
                0 <= k < old_params.len() && !removed.contains(#[trigger] old_params[k].name@)
                    ==> new_params.contains(old_params[k])
        }),
{
    let i = cmd.target(before);
    let j = first_index(before.services@[i].endpoints@, |e: Endpoint| endpoint_named(e, cmd.name@));
    let old_params = before.services@[i].endpoints@[j].query_parameters@;
    let new_params = after.services@[i].endpoints@[j].query_parameters@;
    let removed = views(cmd.delete_query_parameters@);
    let added = choose|added: Seq<QueryParameter>|
        crate::commands::new_command::new_endpoint_command::describes_parameters(added, views(cmd.new_query_parameters@))
            && new_params == (old_params + added).filter(|q: QueryParameter| kept_parameter(q, removed));
    let all = old_params + added;
    law_deleted_query_parameters_are_gone(all, removed, new_params);
    assert forall|k: int| 0 <= k < old_params.len() && !removed.contains(#[trigger] old_params[k].name@)
        implies new_params.contains(old_params[k]) by {
        assert(all[k] == old_params[k]);
    }
}

/// The line of a service in a listing: ` - name`, with ` (alias)` where it has
/// one.
pub open spec fn listing_line(name: Seq<char>, alias: Option<String>) -> Seq<char> {
    match alias {
        Some(a) => " - "@ + name + " ("@ + a@ + ")"@,
        None => " - "@ + name,
    }
}

/// A filtered list of services shows the line of every service whose name or
/// alias, in lower case, contains the filter.
pub proof fn law_filtered_services_are_listed(
    cmd: ListServicesCommand,
    before: HtrsConfig,
    after: HtrsConfig,
    r: Result<HtrsAction, HtrsError>,
    k: int,
)
    requires
        cmd.outcome(before, after, r),
        cmd.filter is Some,
        0 <= k < before.services@.len(),
        occurs_in(lowercase_of(before.services@[k].name@), cmd.filter->0@) || (before.services@[k].alias matches Some(
            a,
        ) && occurs_in(lowercase_of(a@), cmd.filter->0@)),
    ensures
        r matches Ok(HtrsAction::PrintDialogue(t)) && occurs_in(
            t@,
            listing_line(before.services@[k].name@, before.services@[k].alias),
        ),
{
    let s = before.services@[k];
    let listed = cmd.listed(before.services@);
    assert(listed.contains(s));
    let m = choose|m: int| 0 <= m < listed.len() && listed[m] == s;
    let lines = listed.map_values(|x: Service| crate::commands::list_command::list_service_command::service_line(x));
    lemma_join_with_holds_each(lines, "\n"@, m);
    assert(lines[m] == listing_line(s.name@, s.alias));
}

/// A filtered list of a service's environments shows the line of every
/// environment whose name or alias, in lower case, contains the filter.
pub proof fn law_filtered_environments_are_listed(
    cmd: ListEnvironmentsCommand,
    before: HtrsConfig,
    after: HtrsConfig,
    r: Result<HtrsAction, HtrsError>,
    k: int,
)
    requires
        cmd.outcome(before, after, r),
        cmd.filter is Some,
        crate::config::service_known(before.services@, cmd.service@),
        ({
            let envs = before.services@[cmd.target(before)].environments@;
            &&& 0 <= k < envs.len()
            &&& occurs_in(lowercase_of(envs[k].name@), cmd.filter->0@) || (envs[k].alias matches Some(a)
                && occurs_in(lowercase_of(a@), cmd.filter->0@))
        }),
    ensures
        ({
            let e = before.services@[cmd.target(before)].environments@[k];
            r matches Ok(HtrsAction::PrintDialogue(t)) && occurs_in(t@, listing_line(e.name@, e.alias))
        }),
{
    let envs = before.services@[cmd.target(before)].environments@;
    let e = envs[k];
    let listed = cmd.listed(envs);
    assert(listed.contains(e));
    let m = choose|m: int| 0 <= m < listed.len() && listed[m] == e;
    let lines = listed.map_values(
        |x: crate::config::Environment| crate::commands::list_command::list_environment_command::environment_line(x),
    );
    lemma_join_with_holds_each(lines, "\n"@, m);
    assert(lines[m] == listing_line(e.name@, e.alias));
}

/// Reading a configuration of the first versioned layout carries every field
/// over unchanged: each service's name, alias and headers, each environment's
/// name, alias, host, default flag and headers, each endpoint's name, path and
/// query parameters, the global headers, and each preset's name and values.
pub proof fn law_migration_keeps_every_field(v1: HtrsConfigV1, r: HtrsConfig)
    requires
        r.services@.len() == v1.services@.len(),
        forall|k: int| 0 <= k < r.services@.len() ==> migrated_service(v1.services@[k], #[trigger] r.services@[k]),
        r.presets@ == v1.presets@.map_values(|p: PresetV1| migrated_preset(p)),
        r.headers == v1.headers,
    ensures
        r.headers == v1.headers,
        forall|k: int| 0 <= k < r.services@.len() ==> {
            let from = v1.services@[k];
            let to = #[trigger] r.services@[k];
            &&& to.name == from.name
            &&& to.alias == from.alias
            &&& to.headers == from.headers
            &&& to.environments@.len() == from.environments@.len()
            &&& forall|j: int| 0 <= j < to.environments@.len() ==> {
                let e = #[trigger] to.environments@[j];
                let f = from.environments@[j];
                &&& e.name == f.name
                &&& e.alias == f.alias
                &&& e.host == f.host
                &&& e.default == f.default
                &&& e.headers == f.headers
            }
            &&& to.endpoints@.len() == from.endpoints@.len()
            &&& forall|j: int| 0 <= j < to.endpoints@.len() ==> {
                let e = #[trigger] to.endpoints@[j];
                let f = from.endpoints@[j];
                &&& e.name == f.name
                &&& e.path_template == f.path_template
                &&& e.query_parameters@.len() == f.query_parameters@.len()
                &&& forall|q: int| 0 <= q < e.query_parameters@.len() ==> (#[trigger] e.query_parameters@[q]).name
                    == f.query_parameters@[q].name && e.query_parameters@[q].required
                    == f.query_parameters@[q].required
            }
        },
        r.presets@.len() == v1.presets@.len(),
        forall|k: int| 0 <= k < r.presets@.len() ==> (#[trigger] r.presets@[k]).name == v1.presets@[k].name
            && r.presets@[k].values == v1.presets@[k].values && r.presets@[k].alias is None,
{
    assert forall|k: int| 0 <= k < r.services@.len() implies {
        let from = v1.services@[k];
        let to = #[trigger] r.services@[k];
        &&& to.environments@.len() == from.environments@.len()
        &&& forall|j: int| 0 <= j < to.environments@.len() ==> {
            let e = #[trigger] to.environments@[j];
            let f = from.environments@[j];
            &&& e.name == f.name
            &&& e.alias == f.alias
            &&& e.host == f.host
            &&& e.default == f.default
            &&& e.headers == f.headers
        }
        &&& forall|j: int| 0 <= j < to.endpoints@.len() ==> {
            let e = #[trigger] to.endpoints@[j];
            let f = from.endpoints@[j];
            &&& e.query_parameters@.len() == f.query_parameters@.len()
            &&& forall|q: int| 0 <= q < e.query_parameters@.len() ==> (#[trigger] e.query_parameters@[q]).name
                == f.query_parameters@[q].name && e.query_parameters@[q].required
                == f.query_parameters@[q].required
        }
    } by {
        let from = v1.services@[k];
        let to = r.services@[k];
        assert(migrated_service(from, to));
        assert forall|j: int| 0 <= j < to.endpoints@.len() implies {
            let e = #[trigger] to.endpoints@[j];
            let f = from.endpoints@[j];
            &&& e.query_parameters@.len() == f.query_parameters@.len()
            &&& forall|q: int| 0 <= q < e.query_parameters@.len() ==> (#[trigger] e.query_parameters@[q]).name
                == f.query_parameters@[q].name && e.query_parameters@[q].required
                == f.query_parameters@[q].required
        } by {
            assert(crate::config::migrate_v1_to_v2::migrated_endpoint(from.endpoints@[j], to.endpoints@[j]));
        }
    }
}

/// The header line of an endpoint in a view: ` - name ~ path`.
pub open spec fn endpoint_heading(e: Endpoint) -> Seq<char> {
    " - "@ + e.name@ + " ~ "@ + e.path_template@ + "\n"@
}

/// The view of a service shows the heading line of every one of its
/// endpoints, and the line of every one of its environments.
pub proof fn law_view_shows_every_endpoint_and_environment(
    cmd: ViewServiceCommand,
    config: HtrsConfig,
    r: Result<HtrsAction, HtrsError>,
)
    requires
        cmd.outcome(config, r),
        crate::config::service_known(config.services@, cmd.name@),
    ensures
        ({
            let s = config.services@[first_index(config.services@, |s: Service| service_is(s, cmd.name@))];
            r matches Ok(HtrsAction::PrintDialogue(t)) && (forall|k: int|
                0 <= k < s.endpoints@.len() ==> occurs_in(t@, endpoint_heading(#[trigger] s.endpoints@[k])))
                && (forall|k: int|
                0 <= k < s.environments@.len() ==> occurs_in(
                    t@,
                    crate::commands::view_command::view_service_command::environment_text(
                        #[trigger] s.environments@[k],
                    ),
                ))
        }),
{
    let s = config.services@[first_index(config.services@, |s: Service| service_is(s, cmd.name@))];
    let envs = concat_all(s.environments@.map_values(|e: crate::config::Environment| environment_text(e)));
    let eps = concat_all(s.endpoints@.map_values(|e: Endpoint| endpoint_text(e)));
    let env_part = if envs.len() == 0 { "  (no environments)\n"@ } else { envs };
    let ep_part = if eps.len() == 0 { "  (no endpoints)\n"@ } else { eps };
    let head = "Name: "@ + s.name@ + "\n"@ + alias_line(s.alias) + "Environments:\n"@;
    let text = head + env_part + "Endpoints:\n"@ + ep_part;
    assert(crate::commands::view_command::view_service_command::service_text(s) == text);
    assert forall|k: int| 0 <= k < s.endpoints@.len() implies occurs_in(text, endpoint_heading(#[trigger] s.endpoints@[k])) by {
        let e = s.endpoints@[k];
        let parts = s.endpoints@.map_values(|x: Endpoint| endpoint_text(x));
        assert(parts[k] == endpoint_text(e));
        lemma_concat_all_holds_each(parts, k);
        lemma_occurs_in_self(endpoint_heading(e));
        assert(endpoint_text(e) == endpoint_heading(e) + concat_all(
            e.query_parameters@.map_values(|q: QueryParameter| crate::commands::view_command::view_service_command::parameter_text(q)),
        ));
        lemma_occurs_in_append(
            concat_all(e.query_parameters@.map_values(|q: QueryParameter| crate::commands::view_command::view_service_command::parameter_text(q))),
            endpoint_heading(e),
            endpoint_heading(e),
        );
        lemma_occurs_in_trans(eps, endpoint_text(e), endpoint_heading(e));
        reveal_strlit(" - ");
        assert(endpoint_heading(e).len() > 0);
        assert(eps.len() > 0);
        lemma_occurs_in_append(head + env_part + "Endpoints:\n"@, ep_part, endpoint_heading(e));
    }
    assert forall|k: int| 0 <= k < s.environments@.len() implies occurs_in(text, environment_text(#[trigger] s.environments@[k])) by {
        let e = s.environments@[k];
        let parts = s.environments@.map_values(|x: crate::config::Environment| environment_text(x));
        assert(parts[k] == environment_text(e));
        lemma_concat_all_holds_each(parts, k);
        reveal_strlit(" - ");
        assert(environment_text(e).len() > 0);
        assert(envs.len() > 0);
        lemma_occurs_in_append(head, env_part, environment_text(e));
        lemma_occurs_in_append("Endpoints:\n"@, head + env_part, environment_text(e));
        lemma_occurs_in_append(ep_part, head + env_part + "Endpoints:\n"@, environment_text(e));
    }
}

} // verus!
