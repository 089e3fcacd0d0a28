//! The model of a `gserver!` declaration and the checks, normalisations and
//! derived names that its expansion relies on.

pub mod path;
pub mod endpoint;
pub mod config;
pub mod route;
pub mod server;
pub mod group;
pub mod port;
pub mod naming;
pub mod grammar;
pub mod expand;
pub mod flat;
pub mod emit;
