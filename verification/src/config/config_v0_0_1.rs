//! The unversioned layout of the earliest configuration files.

use vstd::prelude::*;

verus! {

/// The configuration, earliest layout.
#[derive(Debug)]
pub struct HtrsConfigV0_0_1 {
    pub services: Vec<ServiceConfigV0_0_1>,
}

/// A service, earliest layout.
#[derive(Debug)]
pub struct ServiceConfigV0_0_1 {
    pub name: String,
    pub environments: Vec<ServiceEnvironmentConfigV0_0_1>,
}

/// An environment, earliest layout.
#[derive(Debug)]
pub struct ServiceEnvironmentConfigV0_0_1 {
    pub name: String,
    pub host: String,
    pub default: bool,
}

} // verus!
