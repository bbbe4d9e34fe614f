//! Properties of the library that span several calls or hold of every state.

use vstd::prelude::*;
use crate::commands::delete_command::delete_service_command::DeleteServiceCommand;
use crate::commands::edit_command::edit_service_command::EditServiceCommand;
use crate::commands::new_command::new_service_command::NewServiceCommand;
use crate::commands::new_command::new_environment_command::NewEnvironmentCommand;
use crate::commands::new_command::new_endpoint_command::NewEndpointCommand;
use crate::commands::new_command::new_preset_command::NewPresetCommand;
use crate::commands::edit_command::edit_environment_command::EditEnvironmentCommand;
use crate::commands::edit_command::edit_endpoint_command::EditEndpointCommand;
use crate::commands::edit_command::edit_preset_command::EditPresetCommand;
use crate::commands::set_command::set_header_command::SetHeaderCommand;
use crate::commands::delete_command::delete_header_command::DeleteHeaderCommand;
use crate::commands::delete_command::delete_environment_command::DeleteEnvironmentCommand;
use crate::commands::delete_command::delete_endpoint_command::DeleteEndpointCommand;
use crate::commands::delete_command::delete_preset_command::DeletePresetCommand;
use crate::htrs_binding_error::HtrsBindingError;
use crate::text::replace_all;
use crate::config::{endpoint_known, endpoint_named, preset_named, preset_is, preset_known, Endpoint, Preset, environment_is, environment_known, Environment, is_default, none_match, first_index, first_default_cleared, without_default, first_at, lemma_first_at_exists, alias_is, opt_view, service_is, service_known, HtrsConfig, Service};
use crate::outcomes::{saves, HtrsAction, HtrsError};
use crate::commands::call_command::{call_values, fill_template, query_arg_of, query_arg_pairs, CallServiceEndpointCommand};
use crate::common::{duplicates_of, key_value_of, path_params, split_at_first_eq};
use crate::string_map::insert_each;

verus! {

/// No name or alias designates two services.
pub open spec fn service_keys_distinct(s: Seq<Service>) -> bool {
    forall|i: int, j: int, key: Seq<char>|
        0 <= i < s.len() && 0 <= j < s.len() && i != j && #[trigger] service_is(s[i], key)
            ==> !#[trigger] service_is(s[j], key)
}

/// Creating a service keeps every name and alias designating at most one
/// service.
pub proof fn law_new_service_keeps_keys_distinct(
    cmd: NewServiceCommand,
    before: HtrsConfig,
    after: HtrsConfig,
    r: Result<HtrsAction, HtrsError>,
)
    requires
        service_keys_distinct(before.services@),
        cmd.outcome(before, after, r),
    ensures
        service_keys_distinct(after.services@),
{
    if saves(r) {
        let old_s = before.services@;
        let new_s = after.services@;
        let n = old_s.len();
        assert(new_s =~= old_s.push(new_s[n as int]));
        assert forall|i: int, j: int, key: Seq<char>|
            0 <= i < new_s.len() && 0 <= j < new_s.len() && i != j && #[trigger] service_is(new_s[i], key)
                implies !#[trigger] service_is(new_s[j], key) by {
            if i == n || j == n {
                let other = if i == n { j } else { i };
                let fresh = new_s[n as int];
                assert(new_s[other] == old_s[other]);
                if service_is(new_s[i], key) && service_is(new_s[j], key) {
                    assert(service_is(fresh, key));
                    assert(service_is(old_s[other], key));
                    if fresh.name@ == key {
                        assert(!service_known(old_s, cmd.name@));
                        assert(!(|s: Service| service_is(s, cmd.name@))(old_s[other]));
                    } else {
                        assert(alias_is(fresh.alias, key));
                        assert(cmd.alias is Some && cmd.alias->0@ == key);
                        assert(!service_known(old_s, cmd.alias->0@));
                        assert(!(|s: Service| service_is(s, cmd.alias->0@))(old_s[other]));
                    }
                }
            } else {
                assert(new_s[i] == old_s[i] && new_s[j] == old_s[j]);
            }
        }
    }
}

/// Renaming a service or changing its alias keeps every name and alias
/// designating at most one service.
pub proof fn law_edit_service_keeps_keys_distinct(
    cmd: EditServiceCommand,
    before: HtrsConfig,
    after: HtrsConfig,
    r: Result<HtrsAction, HtrsError>,
)
    requires
        service_keys_distinct(before.services@),
        cmd.outcome(before, after, r),
    ensures
        service_keys_distinct(after.services@),
{
    if saves(r) {
        let old_s = before.services@;
        let new_s = after.services@;
        let t = cmd.target(before);
        let pred = |s: Service| service_is(s, cmd.name@);
        let w = lemma_first_at_exists(old_s, pred);
        assert(first_at(old_s, pred, t));
        assert forall|i: int, j: int, key: Seq<char>|
            0 <= i < new_s.len() && 0 <= j < new_s.len() && i != j && #[trigger] service_is(new_s[i], key)
                implies !#[trigger] service_is(new_s[j], key) by {
            if i == t || j == t {
                let other = if i == t { j } else { i };
                let edited = new_s[t];
                assert(new_s[other] == old_s[other]);
                if service_is(new_s[i], key) && service_is(new_s[j], key) {
                    assert(service_is(edited, key));
                    assert(service_is(old_s[other], key));
                    if edited.name@ == key {
                        if cmd.new_name is Some {
                            assert(!service_known(old_s, cmd.new_name->0@));
                            assert(!(|s: Service| service_is(s, cmd.new_name->0@))(old_s[other]));
                        } else {
                            assert(service_is(old_s[t], key));
                        }
                    } else {
                        assert(alias_is(edited.alias, key));
                        if cmd.new_alias is Some {
                            assert(opt_view(edited.alias) == Some(cmd.new_alias->0@));
                            assert(!service_known(old_s, cmd.new_alias->0@));
                            assert(!(|s: Service| service_is(s, cmd.new_alias->0@))(old_s[other]));
                        } else {
                            assert(opt_view(edited.alias) == opt_view(old_s[t].alias));
                            assert(alias_is(old_s[t].alias, key));
                            assert(service_is(old_s[t], key));
                        }
                    }
                }
            } else {
                assert(new_s[i] == old_s[i] && new_s[j] == old_s[j]);
            }
        }
    }
}

/// After a service is deleted by a name or alias, no service is known by it.
pub proof fn law_deleted_service_is_gone(
    cmd: DeleteServiceCommand,
    before: HtrsConfig,
    after: HtrsConfig,
    r: Result<HtrsAction, HtrsError>,
)
    requires
        cmd.outcome(before, after, r),
    ensures
        !service_known(after.services@, cmd.name@),
{
    broadcast use vstd::seq_lib::group_filter_ensures;
    let p = |s: Service| !service_is(s, cmd.name@);
    if service_known(before.services@, cmd.name@) {
        let kept = before.services@.filter(p);
        assert forall|i: int| 0 <= i < kept.len() implies !(|s: Service| service_is(s, cmd.name@))(kept[i]) by {
            assert(p(kept[i]));
        }
    }
}

/// Deleting a service by the name it was just created with undoes the
/// creation: the services are as they were before it.
pub proof fn law_delete_undoes_new_service(
    create: NewServiceCommand,
    delete: DeleteServiceCommand,
    before: HtrsConfig,
    middle: HtrsConfig,
    after: HtrsConfig,
    r1: Result<HtrsAction, HtrsError>,
    r2: Result<HtrsAction, HtrsError>,
)
    requires
        create.outcome(before, middle, r1),
        saves(r1),
        delete.name@ == create.name@,
        delete.outcome(middle, after, r2),
    ensures
        saves(r2),
        after.services@ == before.services@,
        after.headers == before.headers,
        after.presets == before.presets,
{
    let p = |s: Service| !service_is(s, create.name@);
    let old_s = before.services@;
    let n = old_s.len();
    let fresh = middle.services@[n as int];
    assert(middle.services@ =~= old_s.push(fresh));
    assert(service_is(fresh, create.name@));
    assert((|s: Service| service_is(s, create.name@))(middle.services@[n as int]));
    assert(service_known(middle.services@, delete.name@));
    old_s.lemma_filter_push(fresh, p);
    assert forall|i: int| 0 <= i < old_s.len() implies p(#[trigger] old_s[i]) by {
        assert(!service_known(old_s, create.name@));
        assert(!(|s: Service| service_is(s, create.name@))(old_s[i]));
    }
    crate::config::lemma_filter_keeps_all(old_s, p);
}

/// Headers set at several scopes: a request carries the environment's value
/// of a header where the environment sets it, else the service's, else the
/// global one.
pub proof fn law_header_precedence(
    config: HtrsConfig,
    service_name: Seq<char>,
    endpoint_name: Seq<char>,
    environment_name: Option<Seq<char>>,
    values: Map<Seq<char>, Seq<char>>,
    query_args: Seq<Seq<char>>,
    show_body: bool,
    preset: Option<Seq<char>>,
    cmd: CallServiceEndpointCommand,
    r: Result<HtrsAction, HtrsError>,
    key: Seq<char>,
)
    requires
        CallServiceEndpointCommand::binding(
            config,
            service_name,
            endpoint_name,
            environment_name,
            values,
            query_args,
            show_body,
            preset,
            Ok(cmd),
        ),
        cmd.request(config, r),
        r is Ok,
    ensures
        ({
            let service = config.services@[CallServiceEndpointCommand::service_index(config, service_name)];
            let environment = service.environments@[cmd.environment_index(service)];
            let headers = r->Ok_0->MakeRequest_headers@;
            &&& environment.headers@.dom().contains(key) ==> headers.dom().contains(key)
                && headers[key] == environment.headers@[key]
            &&& !environment.headers@.dom().contains(key) && service.headers@.dom().contains(key)
                ==> headers.dom().contains(key) && headers[key] == service.headers@[key]
            &&& !environment.headers@.dom().contains(key) && !service.headers@.dom().contains(key)
                && config.headers@.dom().contains(key) ==> headers.dom().contains(key) && headers[key]
                == config.headers@[key]
            &&& !environment.headers@.dom().contains(key) && !service.headers@.dom().contains(key)
                && !config.headers@.dom().contains(key) ==> !headers.dom().contains(key)
        }),
{
}

/// Inserting pairs in turn leaves a key that none of them holds as it was.
pub proof fn lemma_insert_each_untouched(
    m: Map<Seq<char>, Seq<char>>,
    pairs: Seq<(Seq<char>, Seq<char>)>,
    k: Seq<char>,
)
    requires
        forall|j: int| 0 <= j < pairs.len() ==> (#[trigger] pairs[j]).0 != k,
    ensures
        insert_each(m, pairs).dom().contains(k) == m.dom().contains(k),
        m.dom().contains(k) ==> insert_each(m, pairs)[k] == m[k],
    decreases pairs.len(),
{
    if pairs.len() > 0 {
        assert(pairs[0].0 != k);
        assert forall|j: int| 0 <= j < pairs.skip(1).len() implies (#[trigger] pairs.skip(1)[j]).0 != k by {
            assert(pairs.skip(1)[j] == pairs[j + 1]);
        }
        lemma_insert_each_untouched(m.insert(pairs[0].0, pairs[0].1), pairs.skip(1), k);
    }
}

/// Inserting pairs in turn leaves each key with the value of the last pair
/// that holds it.
pub proof fn lemma_insert_each_last(
    m: Map<Seq<char>, Seq<char>>,
    pairs: Seq<(Seq<char>, Seq<char>)>,
    i: int,
)
    requires
        0 <= i < pairs.len(),
        forall|j: int| i < j < pairs.len() ==> (#[trigger] pairs[j]).0 != pairs[i].0,
    ensures
        insert_each(m, pairs).dom().contains(pairs[i].0),
        insert_each(m, pairs)[pairs[i].0] == pairs[i].1,
    decreases pairs.len(),
{
    let rest = pairs.skip(1);
    let m1 = m.insert(pairs[0].0, pairs[0].1);
    if i == 0 {
        assert forall|j: int| 0 <= j < rest.len() implies (#[trigger] rest[j]).0 != pairs[0].0 by {
            assert(rest[j] == pairs[j + 1]);
        }
        lemma_insert_each_untouched(m1, rest, pairs[0].0);
    } else {
        assert(rest[i - 1] == pairs[i]);
        assert forall|j: int| i - 1 < j < rest.len() implies (#[trigger] rest[j]).0 != rest[i - 1].0 by {
            assert(rest[j] == pairs[j + 1]);
        }
        lemma_insert_each_last(m1, rest, i - 1);
    }
}

/// The name that a well-formed `--query-param` argument gives.
pub open spec fn arg_name(a: Seq<char>) -> Seq<char> {
    match query_arg_of(a) {
        Some((n, _)) => n,
        None => Seq::empty(),
    }
}

/// The value that a well-formed `--query-param` argument gives.
pub open spec fn arg_value(a: Seq<char>) -> Seq<char> {
    match query_arg_of(a) {
        Some((_, v)) => v,
        None => Seq::empty(),
    }
}

/// A `--query-param` argument overrides the endpoint's value for a query
/// parameter of the same name: the request carries the value of the last
/// such argument.
pub proof fn law_query_argument_overrides(
    config: HtrsConfig,
    service_name: Seq<char>,
    endpoint_name: Seq<char>,
    environment_name: Option<Seq<char>>,
    values: Map<Seq<char>, Seq<char>>,
    query_args: Seq<Seq<char>>,
    show_body: bool,
    preset: Option<Seq<char>>,
    cmd: CallServiceEndpointCommand,
    i: int,
)
    requires
        CallServiceEndpointCommand::binding(
            config,
            service_name,
            endpoint_name,
            environment_name,
            values,
            query_args,
            show_body,
            preset,
            Ok(cmd),
        ),
        0 <= i < query_args.len(),
        forall|j: int|
            i < j < query_args.len() ==> arg_name(#[trigger] query_args[j]) != arg_name(query_args[i]),
    ensures
        cmd.query_parameters@.dom().contains(arg_name(query_args[i])),
        cmd.query_parameters@[arg_name(query_args[i])] == arg_value(query_args[i]),
{
    let pairs = query_arg_pairs(query_args);
    assert(pairs[i] == query_arg_of(query_args[i])->0);
    assert forall|j: int| i < j < pairs.len() implies (#[trigger] pairs[j]).0 != pairs[i].0 by {
        assert(pairs[j] == query_arg_of(query_args[j])->0);
    }
    let service = config.services@[CallServiceEndpointCommand::service_index(config, service_name)];
    let endpoint = service.endpoints@[CallServiceEndpointCommand::endpoint_index(service, endpoint_name)];
    let query = crate::commands::call_command::query_from_values(
        endpoint.query_parameters@,
        crate::commands::call_command::call_values(config, values, preset),
    );
    lemma_insert_each_last(query->0, pairs, i);
}

/// `x` stands at two different positions of `s`.
pub open spec fn occurs_twice(s: Seq<Seq<char>>, x: Seq<char>) -> bool {
    exists|i: int, j: int| 0 <= i < j < s.len() && s[i] == x && s[j] == x
}

/// The duplicates of a list are exactly the values that occur in it more than
/// once, each listed once.
pub proof fn law_duplicates(s: Seq<Seq<char>>, x: Seq<char>)
    ensures
        duplicates_of(s).contains(x) <==> occurs_twice(s, x),
        duplicates_of(s).no_duplicates(),
    decreases s.len(),
{
    if s.len() > 0 {
        let rest = s.drop_last();
        let y = s.last();
        law_duplicates(rest, x);
        law_duplicates(rest, y);
        let d = duplicates_of(rest);
        if occurs_twice(rest, x) {
            let (i, j) = choose|i: int, j: int| 0 <= i < j < rest.len() && rest[i] == x && rest[j] == x;
            assert(s[i] == x && s[j] == x);
        }
        if x == y {
            if rest.contains(y) {
                let i = choose|i: int| 0 <= i < rest.len() && rest[i] == y;
                assert(s[i] == x && s[s.len() - 1] == x);
            }
            if occurs_twice(s, x) {
                let (i, j) = choose|i: int, j: int| 0 <= i < j < s.len() && s[i] == x && s[j] == x;
                assert(rest[i] == x);
            }
            if occurs_twice(rest, y) {
                let (i, j) = choose|i: int, j: int| 0 <= i < j < rest.len() && rest[i] == y && rest[j] == y;
                assert(rest.contains(y));
            }
        } else {
            if occurs_twice(s, x) {
                let (i, j) = choose|i: int, j: int| 0 <= i < j < s.len() && s[i] == x && s[j] == x;
                assert(j < s.len() - 1);
                assert(rest[i] == x && rest[j] == x);
            }
        }
        if d.push(y).contains(x) {
            let k = choose|k: int| 0 <= k < d.push(y).len() && d.push(y)[k] == x;
            if k < d.len() {
                assert(d[k] == x);
            }
        }
        if d.contains(x) {
            let k = choose|k: int| 0 <= k < d.len() && d[k] == x;
            assert(d.push(y)[k] == x);
        }
        assert(d.push(y)[d.len() as int] == y);
        if rest.contains(y) && !d.contains(y) {
            assert(d.push(y).no_duplicates()) by {
                assert forall|a: int, b: int| 0 <= a < d.push(y).len() && 0 <= b < d.push(y).len() && a != b
                    implies d.push(y)[a] != d.push(y)[b] by {
                    if a < d.len() && b < d.len() {
                    } else if a == d.len() {
                        assert(d.push(y)[b] == d[b]);
                    } else {
                        assert(d.push(y)[a] == d[a]);
                    }
                }
            }
        }
    }
}

/// A key without `=`, an `=` and a value read back as that key and value.
pub proof fn law_key_value_roundtrip(key: Seq<char>, value: Seq<char>)
    requires
        key.len() > 0,
        value.len() > 0,
        !key.contains('='),
    ensures
        key_value_of(key + "="@ + value) == Some((key, value)),
{
    let s = key + "="@ + value;
    reveal_strlit("=");
    let n = key.len() as int;
    assert(s[n] == '=');
    assert forall|j: int| 0 <= j < n implies s[j] != '=' by {
        assert(s[j] == key[j]);
    }
    let c = choose|c: int| 0 <= c < s.len() && s[c] == '=' && forall|j: int| 0 <= j < c ==> s[j] != '=';
    assert(c == n) by {
        if c < n {
            assert(s[c] != '=');
        }
        if c > n {
            assert(s[n] != '=');
        }
    }
    assert(s.take(n) =~= key);
    assert(s.skip(n + 1) =~= value);
}

/// At most one of the environments is marked as the default.
pub open spec fn at_most_one_default(envs: Seq<Environment>) -> bool {
    forall|i: int, j: int|
        0 <= i < envs.len() && 0 <= j < envs.len() && #[trigger] is_default(envs[i]) && #[trigger] is_default(envs[j])
            ==> i == j
}

/// Every service has at most one default environment.
pub open spec fn defaults_unique(services: Seq<Service>) -> bool {
    forall|i: int| 0 <= i < services.len() ==> at_most_one_default(#[trigger] services[i].environments@)
}

proof fn lemma_cleared_has_no_default(envs: Seq<Environment>)
    requires
        at_most_one_default(envs),
    ensures
        none_match(first_default_cleared(envs), |e: Environment| is_default(e)),
{
    let p = |e: Environment| is_default(e);
    if !none_match(envs, p) {
        let w = lemma_first_at_exists(envs, p);
        let f = first_index(envs, p);
        assert(first_at(envs, p, f));
        let c = first_default_cleared(envs);
        assert forall|k: int| 0 <= k < c.len() implies !p(c[k]) by {
            if k == f {
                assert(c[k] == without_default(envs[f]));
            } else {
                assert(c[k] == envs[k]);
                if is_default(envs[k]) {
                    assert(is_default(envs[f]));
                }
            }
        }
    }
}

/// Creating an environment keeps every service with at most one default
/// environment; one created as the default is then its service's only one.
pub proof fn law_new_environment_keeps_one_default(
    cmd: NewEnvironmentCommand,
    before: HtrsConfig,
    after: HtrsConfig,
    r: Result<HtrsAction, HtrsError>,
)
    requires
        defaults_unique(before.services@),
        cmd.outcome(before, after, r),
    ensures
        defaults_unique(after.services@),
        saves(r) && cmd.default ==> ({
            let envs = after.services@[cmd.target(before)].environments@;
            forall|k: int| 0 <= k < envs.len() ==> (is_default(#[trigger] envs[k]) <==> k == envs.len() - 1)
        }),
{
    if saves(r) {
        let t = cmd.target(before);
        let sp = |s: Service| service_is(s, cmd.service@);
        let w = lemma_first_at_exists(before.services@, sp);
        assert(first_at(before.services@, sp, t));
        let old_envs = before.services@[t].environments@;
        let new_envs = after.services@[t].environments@;
        let kept = new_envs.drop_last();
        let fresh = new_envs.last();
        assert(at_most_one_default(old_envs));
        if cmd.default {
            lemma_cleared_has_no_default(old_envs);
            assert forall|k: int| 0 <= k < kept.len() implies !is_default(#[trigger] kept[k]) by {
                assert(!(|e: Environment| is_default(e))(kept[k]));
            }
            assert forall|k: int| 0 <= k < new_envs.len() implies (is_default(#[trigger] new_envs[k]) <==> k == new_envs.len() - 1) by {
                if k < new_envs.len() - 1 {
                    assert(new_envs[k] == kept[k]);
                }
            }
        } else {
            assert forall|a: int, b: int|
                0 <= a < new_envs.len() && 0 <= b < new_envs.len() && #[trigger] is_default(new_envs[a]) && #[trigger] is_default(new_envs[b])
                    implies a == b by {
                if a < new_envs.len() - 1 && b < new_envs.len() - 1 {
                    assert(new_envs[a] == old_envs[a] && new_envs[b] == old_envs[b]);
                }
            }
        }
        assert forall|i: int| 0 <= i < after.services@.len() implies at_most_one_default(#[trigger] after.services@[i].environments@) by {
            if i != t {
                assert(after.services@[i] == before.services@[i]);
                assert(at_most_one_default(before.services@[i].environments@));
            } else {
                assert(at_most_one_default(new_envs));
            }
        }
    }
}

/// No name or alias designates two of the environments.
pub open spec fn environment_keys_distinct(envs: Seq<Environment>) -> bool {
    forall|i: int, j: int, key: Seq<char>|
        0 <= i < envs.len() && 0 <= j < envs.len() && i != j && #[trigger] environment_is(envs[i], key)
            ==> !#[trigger] environment_is(envs[j], key)
}

/// Within every service, no name or alias designates two environments.
pub open spec fn all_environment_keys_distinct(services: Seq<Service>) -> bool {
    forall|i: int| 0 <= i < services.len() ==> environment_keys_distinct(#[trigger] services[i].environments@)
}

proof fn lemma_cleared_keeps_keys(envs: Seq<Environment>)
    ensures
        first_default_cleared(envs).len() == envs.len(),
        forall|k: int| 0 <= k < envs.len() ==> (#[trigger] first_default_cleared(envs)[k]).name == envs[k].name
            && first_default_cleared(envs)[k].alias == envs[k].alias,
{
    let p = |e: Environment| is_default(e);
    if !none_match(envs, p) {
        let f = first_index(envs, p);
        let w = lemma_first_at_exists(envs, p);
        assert(first_at(envs, p, f));
    }
}

/// Creating an environment keeps every name and alias designating at most
/// one environment of its service.
pub proof fn law_new_environment_keeps_keys_distinct(
    cmd: NewEnvironmentCommand,
    before: HtrsConfig,
    after: HtrsConfig,
    r: Result<HtrsAction, HtrsError>,
)
    requires
        all_environment_keys_distinct(before.services@),
        cmd.outcome(before, after, r),
    ensures
        all_environment_keys_distinct(after.services@),
{
    if saves(r) {
        let t = cmd.target(before);
        let sp = |s: Service| service_is(s, cmd.service@);
        let w = lemma_first_at_exists(before.services@, sp);
        assert(first_at(before.services@, sp, t));
        let old_envs = before.services@[t].environments@;
        let new_envs = after.services@[t].environments@;
        let kept = new_envs.drop_last();
        let n = kept.len();
        let fresh = new_envs.last();
        lemma_cleared_keeps_keys(old_envs);
        assert(kept.len() == old_envs.len());
        assert(environment_keys_distinct(old_envs));
        assert forall|k: int| 0 <= k < n implies (#[trigger] new_envs[k]).name == old_envs[k].name && new_envs[k].alias == old_envs[k].alias by {
            assert(new_envs[k] == kept[k]);
            if cmd.default {
                assert(kept[k] == first_default_cleared(old_envs)[k]);
            }
        }
        assert forall|i: int, j: int, key: Seq<char>|
            0 <= i < new_envs.len() && 0 <= j < new_envs.len() && i != j && #[trigger] environment_is(new_envs[i], key)
                implies !#[trigger] environment_is(new_envs[j], key) by {
            if i == n || j == n {
                let other = if i == n { j } else { i };
                if environment_is(new_envs[i], key) && environment_is(new_envs[j], key) {
                    assert(environment_is(fresh, key));
                    assert(environment_is(old_envs[other], key));
                    if fresh.name@ == key {
                        assert(!environment_known(old_envs, cmd.name@));
                        assert(!(|e: Environment| environment_is(e, cmd.name@))(old_envs[other]));
                    } else {
                        assert(alias_is(fresh.alias, key));
                        assert(cmd.alias is Some && cmd.alias->0@ == key);
                        assert(!environment_known(old_envs, cmd.alias->0@));
                        assert(!(|e: Environment| environment_is(e, cmd.alias->0@))(old_envs[other]));
                    }
                }
            } else {
                assert(environment_is(old_envs[i], key) == environment_is(new_envs[i], key));
                assert(environment_is(old_envs[j], key) == environment_is(new_envs[j], key));
            }
        }
        assert forall|i: int| 0 <= i < after.services@.len() implies environment_keys_distinct(#[trigger] after.services@[i].environments@) by {
            if i != t {
                assert(after.services@[i] == before.services@[i]);
                assert(environment_keys_distinct(before.services@[i].environments@));
            } else {
                assert(environment_keys_distinct(new_envs));
            }
        }
    }
}

/// No two of the endpoints share a name.
pub open spec fn endpoint_names_distinct(endpoints: Seq<Endpoint>) -> bool {
    forall|i: int, j: int|
        0 <= i < endpoints.len() && 0 <= j < endpoints.len() && i != j
            ==> (#[trigger] endpoints[i]).name@ != (#[trigger] endpoints[j]).name@
}

/// Within every service, no two endpoints share a name.
pub open spec fn all_endpoint_names_distinct(services: Seq<Service>) -> bool {
    forall|i: int| 0 <= i < services.len() ==> endpoint_names_distinct(#[trigger] services[i].endpoints@)
}

/// Creating an endpoint keeps the endpoint names of every service distinct.
pub proof fn law_new_endpoint_keeps_names_distinct(
    cmd: NewEndpointCommand,
    before: HtrsConfig,
    after: HtrsConfig,
    r: Result<HtrsAction, HtrsError>,
)
    requires
        all_endpoint_names_distinct(before.services@),
        cmd.outcome(before, after, r),
    ensures
        all_endpoint_names_distinct(after.services@),
{
    if saves(r) {
        let t = cmd.target(before);
        let sp = |s: Service| service_is(s, cmd.service@);
        let w = lemma_first_at_exists(before.services@, sp);
        assert(first_at(before.services@, sp, t));
        let old_eps = before.services@[t].endpoints@;
        let new_eps = after.services@[t].endpoints@;
        let n = old_eps.len();
        assert(new_eps =~= old_eps.push(new_eps[n as int]));
        assert forall|i: int, j: int|
            0 <= i < new_eps.len() && 0 <= j < new_eps.len() && i != j
                implies (#[trigger] new_eps[i]).name@ != (#[trigger] new_eps[j]).name@ by {
            if i == n || j == n {
                let other = if i == n { j } else { i };
                assert(new_eps[other] == old_eps[other]);
                assert(!endpoint_known(old_eps, cmd.name@));
                assert(!(|e: Endpoint| endpoint_named(e, cmd.name@))(old_eps[other]));
            } else {
                assert(new_eps[i] == old_eps[i] && new_eps[j] == old_eps[j]);
            }
        }
        assert forall|i: int| 0 <= i < after.services@.len() implies endpoint_names_distinct(#[trigger] after.services@[i].endpoints@) by {
            if i != t {
                assert(after.services@[i] == before.services@[i]);
            }
        }
    }
}

/// No name or alias designates two presets.
pub open spec fn preset_keys_distinct(presets: Seq<Preset>) -> bool {
    forall|i: int, j: int, key: Seq<char>|
        0 <= i < presets.len() && 0 <= j < presets.len() && i != j && #[trigger] preset_is(presets[i], key)
            ==> !#[trigger] preset_is(presets[j], key)
}

/// Creating a preset keeps every name and alias designating at most one
/// preset.
pub proof fn law_new_preset_keeps_keys_distinct(
    cmd: NewPresetCommand,
    before: HtrsConfig,
    after: HtrsConfig,
    r: Result<HtrsAction, HtrsError>,
)
    requires
        preset_keys_distinct(before.presets@),
        cmd.outcome(before, after, r),
    ensures
        preset_keys_distinct(after.presets@),
{
    if saves(r) {
        let old_p = before.presets@;
        let new_p = after.presets@;
        let n = old_p.len();
        assert(new_p =~= old_p.push(new_p[n as int]));
        assert forall|i: int, j: int, key: Seq<char>|
            0 <= i < new_p.len() && 0 <= j < new_p.len() && i != j && #[trigger] preset_is(new_p[i], key)
                implies !#[trigger] preset_is(new_p[j], key) by {
            if i == n || j == n {
                let other = if i == n { j } else { i };
                let fresh = new_p[n as int];
                assert(new_p[other] == old_p[other]);
                if preset_is(new_p[i], key) && preset_is(new_p[j], key) {
                    assert(preset_is(fresh, key));
                    if fresh.name@ == key {
                        assert(!preset_known(old_p, cmd.name@));
                        assert(!(|p: Preset| preset_is(p, cmd.name@))(old_p[other]));
                    } else {
                        assert(cmd.alias is Some && cmd.alias->0@ == key);
                        assert(!preset_known(old_p, cmd.alias->0@));
                        assert(!(|p: Preset| preset_is(p, cmd.alias->0@))(old_p[other]));
                    }
                }
            } else {
                assert(new_p[i] == old_p[i] && new_p[j] == old_p[j]);
            }
        }
    }
}

/// Editing an environment keeps every service with at most one default
/// environment; one made the default is then its service's only one.
pub proof fn law_edit_environment_keeps_one_default(
    cmd: EditEnvironmentCommand,
    before: HtrsConfig,
    after: HtrsConfig,
    r: Result<HtrsAction, HtrsError>,
)
    requires
        defaults_unique(before.services@),
        cmd.outcome(before, after, r),
    ensures
        defaults_unique(after.services@),
        saves(r) && cmd.is_default == Some(true) ==> ({
            let t = cmd.target(before);
            let envs = after.services@[t].environments@;
            let j = cmd.target_environment(before.services@[t].environments@);
            forall|k: int| 0 <= k < envs.len() ==> (is_default(#[trigger] envs[k]) <==> k == j)
        }),
{
    if saves(r) {
        let t = cmd.target(before);
        let sp = |s: Service| service_is(s, cmd.service@);
        let w = lemma_first_at_exists(before.services@, sp);
        assert(first_at(before.services@, sp, t));
        let old_envs = before.services@[t].environments@;
        let new_envs = after.services@[t].environments@;
        let ep = |e: Environment| environment_is(e, cmd.name@);
        let w2 = lemma_first_at_exists(old_envs, ep);
        let j = cmd.target_environment(old_envs);
        assert(first_at(old_envs, ep, j));
        let kept = cmd.cleared(old_envs);
        lemma_cleared_keeps_keys(old_envs);
        assert(at_most_one_default(old_envs));
        if cmd.is_default == Some(true) {
            lemma_cleared_has_no_default(old_envs);
            assert forall|k: int| 0 <= k < new_envs.len() implies (is_default(#[trigger] new_envs[k]) <==> k == j) by {
                if k != j {
                    assert(new_envs[k] == kept[k]);
                    assert(!(|e: Environment| is_default(e))(kept[k]));
                }
            }
        } else if cmd.is_default == Some(false) {
            assert forall|a: int, b: int|
                0 <= a < new_envs.len() && 0 <= b < new_envs.len() && #[trigger] is_default(new_envs[a]) && #[trigger] is_default(new_envs[b])
                    implies a == b by {
                if a != j && b != j {
                    assert(new_envs[a] == old_envs[a] && new_envs[b] == old_envs[b]);
                }
            }
        } else {
            assert forall|a: int, b: int|
                0 <= a < new_envs.len() && 0 <= b < new_envs.len() && #[trigger] is_default(new_envs[a]) && #[trigger] is_default(new_envs[b])
                    implies a == b by {
                assert(is_default(new_envs[a]) == is_default(old_envs[a]));
                assert(is_default(new_envs[b]) == is_default(old_envs[b]));
            }
        }
        assert forall|i: int| 0 <= i < after.services@.len() implies at_most_one_default(#[trigger] after.services@[i].environments@) by {
            if i != t {
                assert(after.services@[i] == before.services@[i]);
                assert(at_most_one_default(before.services@[i].environments@));
            } else {
                assert(at_most_one_default(new_envs));
            }
        }
    }
}

/// Clearing a global header that was just set, where it was not set before,
/// leaves the global headers as they were.
pub proof fn law_delete_header_undoes_set_header(
    set: SetHeaderCommand,
    delete: DeleteHeaderCommand,
    before: HtrsConfig,
    middle: HtrsConfig,
    after: HtrsConfig,
    r1: Result<HtrsAction, HtrsError>,
    r2: Result<HtrsAction, HtrsError>,
)
    requires
        set.service is None,
        set.environment is None,
        delete.service is None,
        delete.environment is None,
        delete.header_name@ == set.header_name@,
        !before.headers@.dom().contains(set.header_name@),
        set.outcome(before, middle, r1),
        delete.outcome(middle, after, r2),
    ensures
        saves(r1),
        saves(r2),
        after.headers@ == before.headers@,
        after.services == before.services,
        after.presets == before.presets,
{
    assert(before.headers@.insert(set.header_name@, set.header_value@).remove(set.header_name@) =~= before.headers@);
}

/// A global header that was set reads back with the value it was set to.
pub proof fn law_set_header_reads_back(
    set: SetHeaderCommand,
    before: HtrsConfig,
    after: HtrsConfig,
    r: Result<HtrsAction, HtrsError>,
)
    requires
        set.service is None,
        set.environment is None,
        set.outcome(before, after, r),
    ensures
        after.headers@.dom().contains(set.header_name@),
        after.headers@[set.header_name@] == set.header_value@,
        forall|k: Seq<char>| k != set.header_name@ ==> #[trigger] after.headers@.dom().contains(k) == before.headers@.dom().contains(k)
            && (after.headers@.dom().contains(k) ==> after.headers@[k] == before.headers@[k]),
{
}

/// Renaming an environment or changing its alias keeps every name and alias
/// designating at most one environment of its service.
pub proof fn law_edit_environment_keeps_keys_distinct(
    cmd: EditEnvironmentCommand,
    before: HtrsConfig,
    after: HtrsConfig,
    r: Result<HtrsAction, HtrsError>,
)
    requires
        all_environment_keys_distinct(before.services@),
        cmd.outcome(before, after, r),
    ensures
        all_environment_keys_distinct(after.services@),
{
    if saves(r) {
        let t = cmd.target(before);
        let sp = |s: Service| service_is(s, cmd.service@);
        let w = lemma_first_at_exists(before.services@, sp);
        assert(first_at(before.services@, sp, t));
        let old_envs = before.services@[t].environments@;
        let new_envs = after.services@[t].environments@;
        let ep = |e: Environment| environment_is(e, cmd.name@);
        let w2 = lemma_first_at_exists(old_envs, ep);
        let j = cmd.target_environment(old_envs);
        assert(first_at(old_envs, ep, j));
        let kept = cmd.cleared(old_envs);
        lemma_cleared_keeps_keys(old_envs);
        assert(environment_keys_distinct(old_envs));
        assert forall|k: int| 0 <= k < new_envs.len() && k != j implies (#[trigger] new_envs[k]).name == old_envs[k].name
            && new_envs[k].alias == old_envs[k].alias by {
            assert(new_envs[k] == kept[k]);
        }
        assert(kept[j].name == old_envs[j].name && kept[j].alias == old_envs[j].alias);
        assert forall|a: int, b: int, key: Seq<char>|
            0 <= a < new_envs.len() && 0 <= b < new_envs.len() && a != b && #[trigger] environment_is(new_envs[a], key)
                implies !#[trigger] environment_is(new_envs[b], key) by {
            if a == j || b == j {
                let other = if a == j { b } else { a };
                let edited = new_envs[j];
                if environment_is(new_envs[a], key) && environment_is(new_envs[b], key) {
                    assert(environment_is(edited, key));
                    assert(environment_is(old_envs[other], key));
                    if edited.name@ == key {
                        if cmd.new_name is Some {
                            assert(!environment_known(old_envs, cmd.new_name->0@));
                            assert(!(|e: Environment| environment_is(e, cmd.new_name->0@))(old_envs[other]));
                        } else {
                            assert(environment_is(old_envs[j], key));
                        }
                    } else {
                        assert(alias_is(edited.alias, key));
                        if cmd.new_alias is Some {
                            assert(!environment_known(old_envs, cmd.new_alias->0@));
                            assert(!(|e: Environment| environment_is(e, cmd.new_alias->0@))(old_envs[other]));
                        } else {
                            assert(opt_view(edited.alias) == opt_view(old_envs[j].alias));
                            assert(alias_is(old_envs[j].alias, key));
                            assert(environment_is(old_envs[j], key));
                        }
                    }
                }
            } else {
                assert(environment_is(old_envs[a], key) == environment_is(new_envs[a], key));
                assert(environment_is(old_envs[b], key) == environment_is(new_envs[b], key));
            }
        }
        assert forall|i: int| 0 <= i < after.services@.len() implies environment_keys_distinct(#[trigger] after.services@[i].environments@) by {
            if i != t {
                assert(after.services@[i] == before.services@[i]);
                assert(environment_keys_distinct(before.services@[i].environments@));
            } else {
                assert(environment_keys_distinct(new_envs));
            }
        }
    }
}

/// Renaming an endpoint keeps the endpoint names of every service distinct.
pub proof fn law_edit_endpoint_keeps_names_distinct(
    cmd: EditEndpointCommand,
    before: HtrsConfig,
    after: HtrsConfig,
    r: Result<HtrsAction, HtrsError>,
)
    requires
        all_endpoint_names_distinct(before.services@),
        cmd.outcome(before, after, r),
    ensures
        all_endpoint_names_distinct(after.services@),
{
    if saves(r) {
        let t = cmd.target(before);
        let sp = |s: Service| service_is(s, cmd.service@);
        let w = lemma_first_at_exists(before.services@, sp);
        assert(first_at(before.services@, sp, t));
        let old_eps = before.services@[t].endpoints@;
        let new_eps = after.services@[t].endpoints@;
        let np = |e: Endpoint| endpoint_named(e, cmd.name@);
        let w2 = lemma_first_at_exists(old_eps, np);
        let j = first_index(old_eps, np);
        assert(first_at(old_eps, np, j));
        assert forall|a: int, b: int|
            0 <= a < new_eps.len() && 0 <= b < new_eps.len() && a != b
                implies (#[trigger] new_eps[a]).name@ != (#[trigger] new_eps[b]).name@ by {
            if a == j || b == j {
                let other = if a == j { b } else { a };
                assert(new_eps[other] == old_eps[other]);
                if cmd.new_name is Some {
                    assert(!endpoint_known(old_eps, cmd.new_name->0@));
                    assert(!(|e: Endpoint| endpoint_named(e, cmd.new_name->0@))(old_eps[other]));
                }
            } else {
                assert(new_eps[a] == old_eps[a] && new_eps[b] == old_eps[b]);
            }
        }
        assert forall|i: int| 0 <= i < after.services@.len() implies endpoint_names_distinct(#[trigger] after.services@[i].endpoints@) by {
            if i != t {
                assert(after.services@[i] == before.services@[i]);
            }
        }
    }
}

/// Renaming a preset or changing its alias keeps every name and alias
/// designating at most one preset.
pub proof fn law_edit_preset_keeps_keys_distinct(
    cmd: EditPresetCommand,
    before: HtrsConfig,
    after: HtrsConfig,
    r: Result<HtrsAction, HtrsError>,
)
    requires
        preset_keys_distinct(before.presets@),
        cmd.outcome(before, after, r),
    ensures
        preset_keys_distinct(after.presets@),
{
    if !(cmd.new_name is Some && preset_known(before.presets@, cmd.new_name->0@)) && !(cmd.new_alias is Some
        && preset_known(before.presets@, cmd.new_alias->0@)) && !none_match(
        before.presets@,
        |p: Preset| preset_named(p, cmd.name@),
    ) {
        let old_p = before.presets@;
        let new_p = after.presets@;
        let np = |p: Preset| preset_named(p, cmd.name@);
        let w = lemma_first_at_exists(old_p, np);
        let t = cmd.target(before);
        assert(first_at(old_p, np, t));
        assert forall|a: int, b: int, key: Seq<char>|
            0 <= a < new_p.len() && 0 <= b < new_p.len() && a != b && #[trigger] preset_is(new_p[a], key)
                implies !#[trigger] preset_is(new_p[b], key) by {
            if a == t || b == t {
                let other = if a == t { b } else { a };
                let edited = new_p[t];
                assert(new_p[other] == old_p[other]);
                if preset_is(new_p[a], key) && preset_is(new_p[b], key) {
                    assert(preset_is(edited, key));
                    assert(preset_is(old_p[other], key));
                    if edited.name@ == key {
                        if cmd.new_name is Some {
                            assert(!preset_known(old_p, cmd.new_name->0@));
                            assert(!(|p: Preset| preset_is(p, cmd.new_name->0@))(old_p[other]));
                        } else {
                            assert(preset_is(old_p[t], key));
                        }
                    } else {
                        assert(alias_is(edited.alias, key));
                        if cmd.new_alias is Some {
                            assert(!preset_known(old_p, cmd.new_alias->0@));
                            assert(!(|p: Preset| preset_is(p, cmd.new_alias->0@))(old_p[other]));
                        } else {
                            assert(opt_view(edited.alias) == opt_view(old_p[t].alias));
                            assert(alias_is(old_p[t].alias, key));
                            assert(preset_is(old_p[t], key));
                        }
                    }
                }
            } else {
                assert(new_p[a] == old_p[a] && new_p[b] == old_p[b]);
            }
        }
    }
}

/// After an environment is deleted by a name or alias, no environment of its
/// service is known by it.
pub proof fn law_deleted_environment_is_gone(
    cmd: DeleteEnvironmentCommand,
    before: HtrsConfig,
    after: HtrsConfig,
    r: Result<HtrsAction, HtrsError>,
)
    requires
        cmd.outcome(before, after, r),
        saves(r),
    ensures
        !environment_known(after.services@[cmd.target(before)].environments@, cmd.name@),
{
    broadcast use vstd::seq_lib::group_filter_ensures;
    let p = |e: Environment| !environment_is(e, cmd.name@);
    let kept = before.services@[cmd.target(before)].environments@.filter(p);
    assert forall|i: int| 0 <= i < kept.len() implies !(|e: Environment| environment_is(e, cmd.name@))(kept[i]) by {
        assert(p(kept[i]));
    }
}

/// After an endpoint is deleted by its name, no endpoint of its service has
/// that name.
pub proof fn law_deleted_endpoint_is_gone(
    cmd: DeleteEndpointCommand,
    before: HtrsConfig,
    after: HtrsConfig,
    r: Result<HtrsAction, HtrsError>,
)
    requires
        cmd.outcome(before, after, r),
        saves(r),
    ensures
        !endpoint_known(after.services@[cmd.target(before)].endpoints@, cmd.name@),
{
    broadcast use vstd::seq_lib::group_filter_ensures;
    let p = |e: Endpoint| !endpoint_named(e, cmd.name@);
    let kept = before.services@[cmd.target(before)].endpoints@.filter(p);
    assert forall|i: int| 0 <= i < kept.len() implies !(|e: Endpoint| endpoint_named(e, cmd.name@))(kept[i]) by {
        assert(p(kept[i]));
    }
}

/// After a preset is deleted by its name, no preset has that name.
pub proof fn law_deleted_preset_is_gone(
    cmd: DeletePresetCommand,
    before: HtrsConfig,
    after: HtrsConfig,
    r: Result<HtrsAction, HtrsError>,
)
    requires
        cmd.outcome(before, after, r),
    ensures
        none_match(after.presets@, |p: Preset| preset_named(p, cmd.name@)),
{
    broadcast use vstd::seq_lib::group_filter_ensures;
    let p = |q: Preset| !preset_named(q, cmd.name@);
    let kept = before.presets@.filter(p);
    assert forall|i: int| 0 <= i < kept.len() implies !(|q: Preset| preset_named(q, cmd.name@))(kept[i]) by {
        assert(p(kept[i]));
    }
}

/// Filling a path template succeeds exactly when every parameter has a value.
pub proof fn lemma_fill_template_defined(path: Seq<char>, params: Seq<Seq<char>>, values: Map<Seq<char>, Seq<char>>)
    ensures
        fill_template(path, params, values) is Some <==> forall|k: int|
            0 <= k < params.len() ==> values.dom().contains(#[trigger] params[k]),
    decreases params.len(),
{
    if params.len() > 0 {
        let rest = params.skip(1);
        if values.dom().contains(params[0]) {
            let next = replace_all(path, "{"@ + params[0] + "}"@, values[params[0]]);
            lemma_fill_template_defined(next, rest, values);
            if forall|k: int| 0 <= k < rest.len() ==> values.dom().contains(#[trigger] rest[k]) {
                assert forall|k: int| 0 <= k < params.len() implies values.dom().contains(#[trigger] params[k]) by {
                    if k > 0 {
                        assert(params[k] == rest[k - 1]);
                    }
                }
            } else {
                let k = choose|k: int| 0 <= k < rest.len() && !values.dom().contains(#[trigger] rest[k]);
                assert(params[k + 1] == rest[k]);
            }
        }
    }
}

/// Calling an endpoint needs a value for every parameter of its path
/// template: a call binds only where each one has a value, given or taken from
/// the named preset.
pub proof fn law_path_parameters_are_required(
    config: HtrsConfig,
    service_name: Seq<char>,
    endpoint_name: Seq<char>,
    environment_name: Option<Seq<char>>,
    values: Map<Seq<char>, Seq<char>>,
    query_args: Seq<Seq<char>>,
    show_body: bool,
    preset: Option<Seq<char>>,
    r: Result<CallServiceEndpointCommand, HtrsBindingError>,
)
    requires
        CallServiceEndpointCommand::binding(
            config,
            service_name,
            endpoint_name,
            environment_name,
            values,
            query_args,
            show_body,
            preset,
            r,
        ),
        r is Ok,
    ensures
        ({
            let service = config.services@[CallServiceEndpointCommand::service_index(config, service_name)];
            let endpoint = service.endpoints@[CallServiceEndpointCommand::endpoint_index(service, endpoint_name)];
            let params = path_params(endpoint.path_template@);
            let vals = call_values(config, values, preset);
            forall|k: int| 0 <= k < params.len() ==> vals.dom().contains(#[trigger] params[k])
        }),
{
    let service = config.services@[CallServiceEndpointCommand::service_index(config, service_name)];
    let endpoint = service.endpoints@[CallServiceEndpointCommand::endpoint_index(service, endpoint_name)];
    lemma_fill_template_defined(
        endpoint.path_template@,
        path_params(endpoint.path_template@),
        call_values(config, values, preset),
    );
}

} // verus!
