//! The runtime half of a declared server: per-route configuration and the
//! layers it adds, request and response values, and the executor chain
//! that runs a handler.

pub mod config;
pub mod layers;
pub mod request;
pub mod response;
pub mod route;
