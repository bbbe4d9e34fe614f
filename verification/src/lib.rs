//! Configuration model and command logic of an HTTP client that calls
//! services across several environments.

pub mod text;
pub mod string_map;
pub mod config;
pub mod outcomes;
pub mod htrs_binding_error;
pub mod common;
pub mod commands;
pub mod request;
pub mod htrs_config;
pub mod laws;
pub mod command_laws;
