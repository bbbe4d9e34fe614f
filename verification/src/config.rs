//! The configuration: services with their environments and endpoints,
//! presets, and the headers set at each scope.

pub mod v1;
pub mod config_v0_0_1;
pub mod migrate_v1_to_v2;

use vstd::prelude::*;
use crate::string_map::StringMap;
use crate::text::{from_char_range, to_chars};

verus! {

/// `i` is the first position of `s` whose element satisfies `p`.
pub open spec fn first_at<T>(s: Seq<T>, p: spec_fn(T) -> bool, i: int) -> bool {
    0 <= i < s.len() && p(s[i]) && forall|j: int| 0 <= j < i ==> !p(s[j])
}

/// No element of `s` satisfies `p`.
pub open spec fn none_match<T>(s: Seq<T>, p: spec_fn(T) -> bool) -> bool {
    forall|i: int| 0 <= i < s.len() ==> !p(s[i])
}

/// At most one position is the first to satisfy `p`.
pub proof fn lemma_first_at_unique<T>(s: Seq<T>, p: spec_fn(T) -> bool, i: int, j: int)
    requires
        first_at(s, p, i),
        first_at(s, p, j),
    ensures
        i == j,
{
}

/// Where some element satisfies `p`, a first one does.
pub proof fn lemma_first_at_exists<T>(s: Seq<T>, p: spec_fn(T) -> bool) -> (i: int)
    requires
        !none_match(s, p),
    ensures
        first_at(s, p, i),
    decreases s.len(),
{
    if p(s[0]) {
        0
    } else {
        let t = s.drop_first();
        assert(!none_match(t, p)) by {
            let k = choose|k: int| 0 <= k < s.len() && p(s[k]);
            assert(t[k - 1] == s[k]);
        }
        let j = lemma_first_at_exists(t, p);
        assert forall|m: int| 0 <= m < j + 1 implies !p(s[m]) by {
            if m > 0 {
                assert(s[m] == t[m - 1]);
            }
        }
        j + 1
    }
}

/// The first position of `s` satisfying `p` (meaningful where there is one).
pub open spec fn first_index<T>(s: Seq<T>, p: spec_fn(T) -> bool) -> int {
    choose|i: int| first_at(s, p, i)
}

/// Keeping the elements that satisfy `p`, one step further along `s`.
pub proof fn lemma_filter_step<T>(s: Seq<T>, p: spec_fn(T) -> bool, i: int)
    requires
        0 <= i < s.len(),
    ensures
        s.take(i + 1).filter(p) == if p(s[i]) {
            s.take(i).filter(p).push(s[i])
        } else {
            s.take(i).filter(p)
        },
{
    reveal(Seq::filter);
    assert(s.take(i + 1).drop_last() =~= s.take(i));
}

/// Keeping the elements that all satisfy `p` keeps them all.
pub proof fn lemma_filter_keeps_all<T>(s: Seq<T>, p: spec_fn(T) -> bool)
    requires
        forall|i: int| 0 <= i < s.len() ==> p(#[trigger] s[i]),
    ensures
        s.filter(p) == s,
    decreases s.len(),
{
    reveal(Seq::filter);
    if s.len() > 0 {
        lemma_filter_keeps_all(s.drop_last(), p);
        assert(s.drop_last().push(s.last()) =~= s);
    }
}

/// An optional alias equals `key`.
pub open spec fn alias_is(alias: Option<String>, key: Seq<char>) -> bool {
    alias matches Some(a) && a@ == key
}

/// `name`, followed by ` (alias)` where there is an alias.
pub open spec fn display_text(name: Seq<char>, alias: Option<String>) -> Seq<char> {
    match alias {
        None => name,
        Some(a) => name + " ("@ + a@ + ")"@,
    }
}

/// The environment, no longer marked as the default.
pub open spec fn without_default(e: Environment) -> Environment {
    Environment { default: false, ..e }
}

/// The environments with the first one marked as the default (if any) no
/// longer marked so.
pub open spec fn first_default_cleared(envs: Seq<Environment>) -> Seq<Environment> {
    if none_match(envs, |e: Environment| is_default(e)) {
        envs
    } else {
        let i = first_index(envs, |e: Environment| is_default(e));
        envs.update(i, without_default(envs[i]))
    }
}

/// The view of an optional string.
pub open spec fn opt_view(o: Option<String>) -> Option<Seq<char>> {
    match o {
        Some(s) => Some(s@),
        None => None,
    }
}

/// Some service of the list is known by `key`.
pub open spec fn service_known(services: Seq<Service>, key: Seq<char>) -> bool {
    !none_match(services, |s: Service| service_is(s, key))
}

/// Some environment of the list is known by `key`.
pub open spec fn environment_known(environments: Seq<Environment>, key: Seq<char>) -> bool {
    !none_match(environments, |e: Environment| environment_is(e, key))
}

/// Some preset of the list is known by `key`.
pub open spec fn preset_known(presets: Seq<Preset>, key: Seq<char>) -> bool {
    !none_match(presets, |p: Preset| preset_is(p, key))
}

/// Some endpoint of the list is named `key`.
pub open spec fn endpoint_known(endpoints: Seq<Endpoint>, key: Seq<char>) -> bool {
    !none_match(endpoints, |e: Endpoint| endpoint_named(e, key))
}

/// A preset: a named set of parameter values.
#[derive(Debug)]
pub struct Preset {
    pub name: String,
    pub alias: Option<String>,
    pub values: StringMap,
}

/// A service: an API hosted in several environments.
#[derive(Debug)]
pub struct Service {
    pub name: String,
    pub alias: Option<String>,
    pub environments: Vec<Environment>,
    pub headers: StringMap,
    pub endpoints: Vec<Endpoint>,
}

/// An environment: a hosted instance of a service.
#[derive(Debug)]
pub struct Environment {
    pub name: String,
    pub alias: Option<String>,
    pub host: String,
    pub default: bool,
    pub headers: StringMap,
}

/// An endpoint: a path template shared by all environments of a service.
#[derive(Debug)]
pub struct Endpoint {
    pub name: String,
    pub path_template: String,
    pub query_parameters: Vec<QueryParameter>,
}

/// A query parameter that an endpoint takes.
#[derive(Debug)]
pub struct QueryParameter {
    pub name: String,
    pub required: bool,
}

/// The whole configuration.
#[derive(Debug)]
pub struct HtrsConfig {
    pub services: Vec<Service>,
    pub headers: StringMap,
    pub presets: Vec<Preset>,
}

/// The service is known by `key`, as its name or its alias.
pub open spec fn service_is(s: Service, key: Seq<char>) -> bool {
    s.name@ == key || alias_is(s.alias, key)
}

/// The environment is known by `key`, as its name or its alias.
pub open spec fn environment_is(e: Environment, key: Seq<char>) -> bool {
    e.name@ == key || alias_is(e.alias, key)
}

/// The preset is known by `key`, as its name or its alias.
pub open spec fn preset_is(p: Preset, key: Seq<char>) -> bool {
    p.name@ == key || alias_is(p.alias, key)
}

/// The preset is named `key`.
pub open spec fn preset_named(p: Preset, key: Seq<char>) -> bool {
    p.name@ == key
}

/// The endpoint is named `key`.
pub open spec fn endpoint_named(e: Endpoint, key: Seq<char>) -> bool {
    e.name@ == key
}

/// The environment is marked as the default.
pub open spec fn is_default(e: Environment) -> bool {
    e.default
}

fn alias_matches(alias: &Option<String>, key: &String) -> (r: bool)
    ensures
        r == alias_is(*alias, key@),
{
    match alias {
        Some(a) => *a == *key,
        None => false,
    }
}

impl HtrsConfig {
    /// A configuration with nothing defined.
    pub fn new() -> (c: Self)
        ensures
            c.services@.len() == 0,
            c.headers@ == Map::<Seq<char>, Seq<char>>::empty(),
            c.headers.pairs().len() == 0,
            c.presets@.len() == 0,
    {
        HtrsConfig { services: Vec::new(), headers: StringMap::new(), presets: Vec::new() }
    }

    fn service_position(&self, name: &str) -> (r: Option<usize>)
        ensures
            match r {
                Some(i) => first_at(self.services@, |s: Service| service_is(s, name@), i as int),
                None => none_match(self.services@, |s: Service| service_is(s, name@)),
            },
    {
        let key = name.to_owned();
        let mut i: usize = 0;
        while i < self.services.len()
            invariant
                key@ == name@,
                i <= self.services@.len(),
                forall|j: int| 0 <= j < i ==> !service_is(#[trigger] self.services@[j], name@),
            decreases self.services@.len() - i,
        {
            let s = &self.services[i];
            if s.name == key || alias_matches(&s.alias, &key) {
                return Some(i);
            }
            i = i + 1;
        }
        None
    }

    /// The first service whose name or alias is `name`.
    pub fn get_service(&self, name: &str) -> (r: Option<&Service>)
        ensures
            match r {
                Some(s) => exists|i: int|
                    first_at(self.services@, |s: Service| service_is(s, name@), i) && *s
                        == self.services@[i],
                None => none_match(self.services@, |s: Service| service_is(s, name@)),
            },
    {
        match self.service_position(name) {
            Some(i) => Some(&self.services[i]),
            None => None,
        }
    }

    /// The first service whose name or alias is `name`, to be changed in place.
    pub fn get_service_mut(&mut self, name: &str) -> (r: Option<&mut Service>)
        ensures
            match r {
                Some(s) => exists|i: int|
                    first_at(old(self).services@, |s: Service| service_is(s, name@), i) && *s
                        == old(self).services@[i] && final(self).services@ == old(
                        self,
                    ).services@.update(i, *final(s)),
                None => none_match(old(self).services@, |s: Service| service_is(s, name@))
                    && final(self).services == old(self).services,
            },
            final(self).headers == old(self).headers,
            final(self).presets == old(self).presets,
    {
        match self.service_position(name) {
            Some(i) => Some(&mut self.services[i]),
            None => None,
        }
    }

    /// Removes every service whose name or alias is `name`; tells whether any
    /// was removed.
    pub fn remove_service(&mut self, name: &str) -> (removed: bool)
        ensures
            final(self).services@ == old(self).services@.filter(
                |s: Service| !service_is(s, name@),
            ),
            removed == !none_match(old(self).services@, |s: Service| service_is(s, name@)),
            final(self).headers == old(self).headers,
            final(self).presets == old(self).presets,
    {
        let key = name.to_owned();
        let ghost pred = |s: Service| !service_is(s, name@);
        let mut all: Vec<Service> = Vec::new();
        std::mem::swap(&mut all, &mut self.services);
        let ghost orig = all@;
        let mut kept: Vec<Service> = Vec::new();
        let mut removed = false;
        let mut it = all.into_iter();
        for s in iter: it
            invariant
                key@ == name@,
                pred == (|s: Service| !service_is(s, name@)),
                iter.seq() == orig,
                kept@ == orig.take(iter.index() as int).filter(pred),
                removed == !none_match(orig.take(iter.index() as int), |s: Service| service_is(s, name@)),
        {
            let ghost idx = iter.index() as int;
            assert(s == orig[idx]);
            proof {
                lemma_filter_step(orig, pred, idx);
            }
            if s.name == key || alias_matches(&s.alias, &key) {
                removed = true;
                assert(service_is(orig.take(idx + 1)[idx], name@));
            } else {
                kept.push(s);
            }
            assert(pred(orig[idx]) == !service_is(orig[idx], name@));
            assert(kept@ == orig.take(idx + 1).filter(pred));
        }
        assert(orig.take(orig.len() as int) =~= orig);
        self.services = kept;
        removed
    }
}


impl HtrsConfig {
    pub(crate) fn preset_position(&self, name: &str, by_alias: bool) -> (r: Option<usize>)
        ensures
            by_alias ==> match r {
                Some(i) => first_at(self.presets@, |p: Preset| preset_is(p, name@), i as int),
                None => none_match(self.presets@, |p: Preset| preset_is(p, name@)),
            },
            !by_alias ==> match r {
                Some(i) => first_at(self.presets@, |p: Preset| preset_named(p, name@), i as int),
                None => none_match(self.presets@, |p: Preset| preset_named(p, name@)),
            },
    {
        let key = name.to_owned();
        let mut i: usize = 0;
        while i < self.presets.len()
            invariant
                key@ == name@,
                i <= self.presets@.len(),
                by_alias ==> forall|j: int| 0 <= j < i ==> !preset_is(#[trigger] self.presets@[j], name@),
                !by_alias ==> forall|j: int| 0 <= j < i ==> !preset_named(#[trigger] self.presets@[j], name@),
            decreases self.presets@.len() - i,
        {
            let p = &self.presets[i];
            if p.name == key || (by_alias && alias_matches(&p.alias, &key)) {
                return Some(i);
            }
            i = i + 1;
        }
        None
    }

    /// The first preset whose name or alias is `name`.
    pub fn get_preset(&self, name: &str) -> (r: Option<&Preset>)
        ensures
            match r {
                Some(p) => exists|i: int|
                    first_at(self.presets@, |p: Preset| preset_is(p, name@), i) && *p
                        == self.presets@[i],
                None => none_match(self.presets@, |p: Preset| preset_is(p, name@)),
            },
    {
        match self.preset_position(name, true) {
            Some(i) => Some(&self.presets[i]),
            None => None,
        }
    }

    /// The first preset named `name`, to be changed in place.
    pub fn get_preset_mut(&mut self, name: &str) -> (r: Option<&mut Preset>)
        ensures
            match r {
                Some(p) => exists|i: int|
                    first_at(old(self).presets@, |p: Preset| preset_named(p, name@), i) && *p
                        == old(self).presets@[i] && final(self).presets@ == old(
                        self,
                    ).presets@.update(i, *final(p)),
                None => none_match(old(self).presets@, |p: Preset| preset_named(p, name@))
                    && final(self).presets == old(self).presets,
            },
            final(self).headers == old(self).headers,
            final(self).services == old(self).services,
    {
        match self.preset_position(name, false) {
            Some(i) => Some(&mut self.presets[i]),
            None => None,
        }
    }

    /// Removes every preset named `name`; tells whether any was removed.
    pub fn remove_preset(&mut self, name: &str) -> (removed: bool)
        ensures
            final(self).presets@ == old(self).presets@.filter(
                |p: Preset| !preset_named(p, name@),
            ),
            removed == !none_match(old(self).presets@, |p: Preset| preset_named(p, name@)),
            final(self).headers == old(self).headers,
            final(self).services == old(self).services,
    {
        let key = name.to_owned();
        let ghost pred = |p: Preset| !preset_named(p, name@);
        let mut all: Vec<Preset> = Vec::new();
        std::mem::swap(&mut all, &mut self.presets);
        let ghost orig = all@;
        let mut kept: Vec<Preset> = Vec::new();
        let mut removed = false;
        let mut it = all.into_iter();
        for p in iter: it
            invariant
                key@ == name@,
                pred == (|p: Preset| !preset_named(p, name@)),
                iter.seq() == orig,
                kept@ == orig.take(iter.index() as int).filter(pred),
                removed == !none_match(orig.take(iter.index() as int), |p: Preset| preset_named(p, name@)),
        {
            let ghost idx = iter.index() as int;
            assert(p == orig[idx]);
            proof {
                lemma_filter_step(orig, pred, idx);
            }
            if p.name == key {
                removed = true;
                assert(preset_named(orig.take(idx + 1)[idx], name@));
            } else {
                kept.push(p);
            }
            assert(kept@ == orig.take(idx + 1).filter(pred));
        }
        assert(orig.take(orig.len() as int) =~= orig);
        self.presets = kept;
        removed
    }
}

impl Service {
    /// A service with no environments, headers or endpoints.
    pub fn new(name: String, alias: Option<String>) -> (s: Service)
        ensures
            s.name == name,
            s.alias == alias,
            s.environments@.len() == 0,
            s.headers@ == Map::<Seq<char>, Seq<char>>::empty(),
            s.headers.pairs().len() == 0,
            s.endpoints@.len() == 0,
    {
        Service {
            name,
            alias,
            environments: Vec::new(),
            headers: StringMap::new(),
            endpoints: Vec::new(),
        }
    }

    fn environment_position(&self, name: &str) -> (r: Option<usize>)
        ensures
            match r {
                Some(i) => first_at(self.environments@, |e: Environment| environment_is(e, name@), i as int),
                None => none_match(self.environments@, |e: Environment| environment_is(e, name@)),
            },
    {
        let key = name.to_owned();
        let mut i: usize = 0;
        while i < self.environments.len()
            invariant
                key@ == name@,
                i <= self.environments@.len(),
                forall|j: int| 0 <= j < i ==> !environment_is(#[trigger] self.environments@[j], name@),
            decreases self.environments@.len() - i,
        {
            let e = &self.environments[i];
            if e.name == key || alias_matches(&e.alias, &key) {
                return Some(i);
            }
            i = i + 1;
        }
        None
    }

    /// The first environment whose name or alias is `name`.
    pub fn get_environment(&self, name: &str) -> (r: Option<&Environment>)
        ensures
            match r {
                Some(e) => exists|i: int|
                    first_at(self.environments@, |e: Environment| environment_is(e, name@), i) && *e
                        == self.environments@[i],
                None => none_match(self.environments@, |e: Environment| environment_is(e, name@)),
            },
    {
        match self.environment_position(name) {
            Some(i) => Some(&self.environments[i]),
            None => None,
        }
    }

    /// The first environment whose name or alias is `name`, to be changed in place.
    pub fn get_environment_mut(&mut self, name: &str) -> (r: Option<&mut Environment>)
        ensures
            match r {
                Some(e) => exists|i: int|
                    first_at(old(self).environments@, |e: Environment| environment_is(e, name@), i)
                        && *e == old(self).environments@[i] && final(self).environments@ == old(
                        self,
                    ).environments@.update(i, *final(e)),
                None => none_match(old(self).environments@, |e: Environment| environment_is(e, name@))
                    && final(self).environments == old(self).environments,
            },
            final(self).name == old(self).name,
            final(self).alias == old(self).alias,
            final(self).headers == old(self).headers,
            final(self).endpoints == old(self).endpoints,
    {
        match self.environment_position(name) {
            Some(i) => Some(&mut self.environments[i]),
            None => None,
        }
    }

    fn default_position(&self) -> (r: Option<usize>)
        ensures
            match r {
                Some(i) => first_at(self.environments@, |e: Environment| is_default(e), i as int),
                None => none_match(self.environments@, |e: Environment| is_default(e)),
            },
    {
        let mut i: usize = 0;
        while i < self.environments.len()
            invariant
                i <= self.environments@.len(),
                forall|j: int| 0 <= j < i ==> !is_default(#[trigger] self.environments@[j]),
            decreases self.environments@.len() - i,
        {
            if self.environments[i].default {
                return Some(i);
            }
            i = i + 1;
        }
        None
    }

    /// The first environment marked as the default.
    pub fn get_default_environment(&self) -> (r: Option<&Environment>)
        ensures
            match r {
                Some(e) => exists|i: int|
                    first_at(self.environments@, |e: Environment| is_default(e), i) && *e
                        == self.environments@[i],
                None => none_match(self.environments@, |e: Environment| is_default(e)),
            },
    {
        match self.default_position() {
            Some(i) => Some(&self.environments[i]),
            None => None,
        }
    }

    /// The first environment marked as the default, to be changed in place.
    pub fn get_default_environment_mut(&mut self) -> (r: Option<&mut Environment>)
        ensures
            match r {
                Some(e) => exists|i: int|
                    first_at(old(self).environments@, |e: Environment| is_default(e), i) && *e
                        == old(self).environments@[i] && final(self).environments@ == old(
                        self,
                    ).environments@.update(i, *final(e)),
                None => none_match(old(self).environments@, |e: Environment| is_default(e))
                    && final(self).environments == old(self).environments,
            },
            final(self).name == old(self).name,
            final(self).alias == old(self).alias,
            final(self).headers == old(self).headers,
            final(self).endpoints == old(self).endpoints,
    {
        match self.default_position() {
            Some(i) => Some(&mut self.environments[i]),
            None => None,
        }
    }

    /// Removes every environment whose name or alias is `name`; tells whether
    /// any was removed.
    pub fn remove_environment(&mut self, name: &str) -> (removed: bool)
        ensures
            final(self).environments@ == old(self).environments@.filter(
                |e: Environment| !environment_is(e, name@),
            ),
            removed == !none_match(old(self).environments@, |e: Environment| environment_is(e, name@)),
            final(self).name == old(self).name,
            final(self).alias == old(self).alias,
            final(self).headers == old(self).headers,
            final(self).endpoints == old(self).endpoints,
    {
        let key = name.to_owned();
        let ghost pred = |e: Environment| !environment_is(e, name@);
        let mut all: Vec<Environment> = Vec::new();
        std::mem::swap(&mut all, &mut self.environments);
        let ghost orig = all@;
        let mut kept: Vec<Environment> = Vec::new();
        let mut removed = false;
        let mut it = all.into_iter();
        for e in iter: it
            invariant
                key@ == name@,
                pred == (|e: Environment| !environment_is(e, name@)),
                iter.seq() == orig,
                kept@ == orig.take(iter.index() as int).filter(pred),
                removed == !none_match(orig.take(iter.index() as int), |e: Environment| environment_is(e, name@)),
        {
            let ghost idx = iter.index() as int;
            assert(e == orig[idx]);
            proof {
                lemma_filter_step(orig, pred, idx);
            }
            if e.name == key || alias_matches(&e.alias, &key) {
                removed = true;
                assert(environment_is(orig.take(idx + 1)[idx], name@));
            } else {
                kept.push(e);
            }
            assert(kept@ == orig.take(idx + 1).filter(pred));
        }
        assert(orig.take(orig.len() as int) =~= orig);
        self.environments = kept;
        removed
    }

    fn endpoint_position(&self, name: &str) -> (r: Option<usize>)
        ensures
            match r {
                Some(i) => first_at(self.endpoints@, |e: Endpoint| endpoint_named(e, name@), i as int),
                None => none_match(self.endpoints@, |e: Endpoint| endpoint_named(e, name@)),
            },
    {
        let key = name.to_owned();
        let mut i: usize = 0;
        while i < self.endpoints.len()
            invariant
                key@ == name@,
                i <= self.endpoints@.len(),
                forall|j: int| 0 <= j < i ==> !endpoint_named(#[trigger] self.endpoints@[j], name@),
            decreases self.endpoints@.len() - i,
        {
            if self.endpoints[i].name == key {
                return Some(i);
            }
            i = i + 1;
        }
        None
    }

    /// The first endpoint named `name`.
    pub fn get_endpoint(&self, name: &str) -> (r: Option<&Endpoint>)
        ensures
            match r {
                Some(e) => exists|i: int|
                    first_at(self.endpoints@, |e: Endpoint| endpoint_named(e, name@), i) && *e
                        == self.endpoints@[i],
                None => none_match(self.endpoints@, |e: Endpoint| endpoint_named(e, name@)),
            },
    {
        match self.endpoint_position(name) {
            Some(i) => Some(&self.endpoints[i]),
            None => None,
        }
    }

    /// The first endpoint named `name`, to be changed in place.
    pub fn get_endpoint_mut(&mut self, name: &str) -> (r: Option<&mut Endpoint>)
        ensures
            match r {
                Some(e) => exists|i: int|
                    first_at(old(self).endpoints@, |e: Endpoint| endpoint_named(e, name@), i) && *e
                        == old(self).endpoints@[i] && final(self).endpoints@ == old(
                        self,
                    ).endpoints@.update(i, *final(e)),
                None => none_match(old(self).endpoints@, |e: Endpoint| endpoint_named(e, name@))
                    && final(self).endpoints == old(self).endpoints,
            },
            final(self).name == old(self).name,
            final(self).alias == old(self).alias,
            final(self).headers == old(self).headers,
            final(self).environments == old(self).environments,
    {
        match self.endpoint_position(name) {
            Some(i) => Some(&mut self.endpoints[i]),
            None => None,
        }
    }

    /// Removes every endpoint named `name`; tells whether any was removed.
    pub fn remove_endpoint(&mut self, name: &str) -> (removed: bool)
        ensures
            final(self).endpoints@ == old(self).endpoints@.filter(
                |e: Endpoint| !endpoint_named(e, name@),
            ),
            removed == !none_match(old(self).endpoints@, |e: Endpoint| endpoint_named(e, name@)),
            final(self).name == old(self).name,
            final(self).alias == old(self).alias,
            final(self).headers == old(self).headers,
            final(self).environments == old(self).environments,
    {
        let key = name.to_owned();
        let ghost pred = |e: Endpoint| !endpoint_named(e, name@);
        let mut all: Vec<Endpoint> = Vec::new();
        std::mem::swap(&mut all, &mut self.endpoints);
        let ghost orig = all@;
        let mut kept: Vec<Endpoint> = Vec::new();
        let mut removed = false;
        let mut it = all.into_iter();
        for e in iter: it
            invariant
                key@ == name@,
                pred == (|e: Endpoint| !endpoint_named(e, name@)),
                iter.seq() == orig,
                kept@ == orig.take(iter.index() as int).filter(pred),
                removed == !none_match(orig.take(iter.index() as int), |e: Endpoint| endpoint_named(e, name@)),
        {
            let ghost idx = iter.index() as int;
            assert(e == orig[idx]);
            proof {
                lemma_filter_step(orig, pred, idx);
            }
            if e.name == key {
                removed = true;
                assert(endpoint_named(orig.take(idx + 1)[idx], name@));
            } else {
                kept.push(e);
            }
            assert(kept@ == orig.take(idx + 1).filter(pred));
        }
        assert(orig.take(orig.len() as int) =~= orig);
        self.endpoints = kept;
        removed
    }

    /// The name, followed by ` (alias)` where the service has an alias.
    pub fn display_name(&self) -> (r: String)
        ensures
            r@ == display_text(self.name@, self.alias),
    {
        display_of(&self.name, &self.alias)
    }
}

fn display_of(name: &String, alias: &Option<String>) -> (r: String)
    ensures
        r@ == display_text(name@, *alias),
{
    let mut r = name.clone();
    match alias {
        None => {},
        Some(a) => {
            r.append(" (");
            r.append(a.as_str());
            r.append(")");
        },
    }
    r
}

impl Environment {
    /// An environment with no headers.
    pub fn new(name: String, alias: Option<String>, host: String, default: bool) -> (e: Environment)
        ensures
            e.name == name,
            e.alias == alias,
            e.host == host,
            e.default == default,
            e.headers@ == Map::<Seq<char>, Seq<char>>::empty(),
            e.headers.pairs().len() == 0,
    {
        Environment { name, alias, host, default, headers: StringMap::new() }
    }

    /// The name, followed by ` (alias)` where the environment has an alias.
    pub fn display_name(&self) -> (r: String)
        ensures
            r@ == display_text(self.name@, self.alias),
    {
        display_of(&self.name, &self.alias)
    }
}

/// The parameter that a shorthand names: a leading `*` marks it required and
/// is not part of the name.
pub open spec fn shorthand_name(q: Seq<char>) -> Seq<char> {
    if q.len() > 0 && q[0] == '*' { q.skip(1) } else { q }
}

/// A shorthand marks a required parameter.
pub open spec fn shorthand_required(q: Seq<char>) -> bool {
    q.len() > 0 && q[0] == '*'
}

impl QueryParameter {
    /// Reads a query parameter from its shorthand: `*name` is required,
    /// `name` is optional.
    pub fn from_shorthand(query_param: &str) -> (q: QueryParameter)
        ensures
            q.name@ == shorthand_name(query_param@),
            q.required == shorthand_required(query_param@),
    {
        let v = to_chars(query_param);
        if v.len() > 0 && v[0] == '*' {
            QueryParameter { name: from_char_range(&v, 1, v.len()), required: true }
        } else {
            QueryParameter { name: from_char_range(&v, 0, v.len()), required: false }
        }
    }
}

/// An item of the configuration that carries headers: the whole
/// configuration, a service or an environment.
pub trait HeaderItem {
    /// The headers set on the item.
    spec fn header_table(&self) -> Map<Seq<char>, Seq<char>>;

    /// Sets a header, replacing any value it had.
    fn set_header(&mut self, header_name: String, header_value: String)
        ensures
            final(self).header_table() == old(self).header_table().insert(
                header_name@,
                header_value@,
            ),
    ;

    /// Removes a header, if it is set.
    fn clear_header(&mut self, header_name: String)
        ensures
            final(self).header_table() == old(self).header_table().remove(header_name@),
    ;
}

impl HeaderItem for HtrsConfig {
    open spec fn header_table(&self) -> Map<Seq<char>, Seq<char>> {
        self.headers@
    }

    fn set_header(&mut self, header_name: String, header_value: String)
        ensures
            final(self).services == old(self).services,
            final(self).presets == old(self).presets,
    {
        self.headers.insert(header_name, header_value);
    }

    fn clear_header(&mut self, header_name: String)
        ensures
            final(self).services == old(self).services,
            final(self).presets == old(self).presets,
    {
        self.headers.remove(header_name.as_str());
    }
}

impl HeaderItem for Service {
    open spec fn header_table(&self) -> Map<Seq<char>, Seq<char>> {
        self.headers@
    }

    fn set_header(&mut self, header_name: String, header_value: String)
        ensures
            final(self).name == old(self).name,
            final(self).alias == old(self).alias,
            final(self).environments == old(self).environments,
            final(self).endpoints == old(self).endpoints,
    {
        self.headers.insert(header_name, header_value);
    }

    fn clear_header(&mut self, header_name: String)
        ensures
            final(self).name == old(self).name,
            final(self).alias == old(self).alias,
            final(self).environments == old(self).environments,
            final(self).endpoints == old(self).endpoints,
    {
        self.headers.remove(header_name.as_str());
    }
}

impl HeaderItem for Environment {
    open spec fn header_table(&self) -> Map<Seq<char>, Seq<char>> {
        self.headers@
    }

    fn set_header(&mut self, header_name: String, header_value: String)
        ensures
            final(self).name == old(self).name,
            final(self).alias == old(self).alias,
            final(self).host == old(self).host,
            final(self).default == old(self).default,
    {
        self.headers.insert(header_name, header_value);
    }

    fn clear_header(&mut self, header_name: String)
        ensures
            final(self).name == old(self).name,
            final(self).alias == old(self).alias,
            final(self).host == old(self).host,
            final(self).default == old(self).default,
    {
        self.headers.remove(header_name.as_str());
    }
}

} // verus!
