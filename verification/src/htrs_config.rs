//! The configuration layout of the first releases: services with a single host.

use vstd::prelude::*;
use crate::config::{first_at, none_match};

verus! {

/// The configuration of the first releases.
#[derive(Debug)]
pub struct HtrsConfig {
    pub services: Vec<ServiceConfig>,
}

/// A service with its host, first releases.
#[derive(Debug)]
pub struct ServiceConfig {
    pub name: String,
    pub host: String,
}

/// The service is named `key`.
pub open spec fn service_config_named(s: ServiceConfig, key: Seq<char>) -> bool {
    s.name@ == key
}

impl HtrsConfig {
    /// A configuration with no services.
    pub fn new() -> (c: HtrsConfig)
        ensures
            c.services@.len() == 0,
    {
        HtrsConfig { services: Vec::new() }
    }

    fn position(&self, name: &str) -> (r: Option<usize>)
        ensures
            match r {
                Some(i) => first_at(self.services@, |s: ServiceConfig| service_config_named(s, name@), i as int),
                None => none_match(self.services@, |s: ServiceConfig| service_config_named(s, name@)),
            },
    {
        let key = name.to_owned();
        let mut i: usize = 0;
        while i < self.services.len()
            invariant
                key@ == name@,
                i <= self.services@.len(),
                forall|j: int| 0 <= j < i ==> !service_config_named(#[trigger] self.services@[j], name@),
            decreases self.services@.len() - i,
        {
            if self.services[i].name == key {
                return Some(i);
            }
            i = i + 1;
        }
        None
    }

    /// Whether a service is named `name`.
    pub fn service_defined(&self, name: &str) -> (r: bool)
        ensures
            r == !none_match(self.services@, |s: ServiceConfig| service_config_named(s, name@)),
    {
        self.position(name).is_some()
    }

    /// The first service named `name`.
    pub fn find_service_config(&self, name: &str) -> (r: Option<&ServiceConfig>)
        ensures
            match r {
                Some(s) => exists|i: int|
                    first_at(self.services@, |s: ServiceConfig| service_config_named(s, name@), i)
                        && *s == self.services@[i],
                None => none_match(self.services@, |s: ServiceConfig| service_config_named(s, name@)),
            },
    {
        match self.position(name) {
            Some(i) => Some(&self.services[i]),
            None => None,
        }
    }
}

impl ServiceConfig {
    /// A service with its host.
    pub fn new(name: String, host: String) -> (s: ServiceConfig)
        ensures
            s.name == name,
            s.host == host,
    {
        ServiceConfig { name, host }
    }
}

} // verus!
