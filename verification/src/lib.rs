//! A uniform interface for declaring HTTP servers: request methods and
//! status codes, route trees, middleware wrappers, server configuration,
//! and the checks and name derivations behind the `gserver!` declaration
//! language (endpoint validation and normalisation, duplicate detection,
//! error-handler inheritance).

pub mod http;
pub mod text;
pub mod dsl;
pub mod runtime;
pub mod service;
