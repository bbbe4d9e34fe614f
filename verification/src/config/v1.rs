//! The first versioned layout of the configuration, kept to read older files.

use vstd::prelude::*;
use crate::string_map::StringMap;

verus! {

/// The configuration, first versioned layout.
#[derive(Debug)]
pub struct HtrsConfigV1 {
    pub services: Vec<ServiceV1>,
    pub headers: StringMap,
    pub presets: Vec<PresetV1>,
}

/// A preset, first versioned layout (no alias).
#[derive(Debug)]
pub struct PresetV1 {
    pub name: String,
    pub values: StringMap,
}

/// A service, first versioned layout.
#[derive(Debug)]
pub struct ServiceV1 {
    pub name: String,
    pub alias: Option<String>,
    pub environments: Vec<EnvironmentV1>,
    pub headers: StringMap,
    pub endpoints: Vec<EndpointV1>,
}

/// An environment, first versioned layout.
#[derive(Debug)]
pub struct EnvironmentV1 {
    pub name: String,
    pub alias: Option<String>,
    pub host: String,
    pub default: bool,
    pub headers: StringMap,
}

/// An endpoint, first versioned layout.
#[derive(Debug)]
pub struct EndpointV1 {
    pub name: String,
    pub path_template: String,
    pub query_parameters: Vec<QueryParameterV1>,
}

/// A query parameter, first versioned layout.
#[derive(Debug)]
pub struct QueryParameterV1 {
    pub name: String,
    pub required: bool,
}

} // verus!
