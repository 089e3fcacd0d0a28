//! What a running server is made of: its configuration, the context shared
//! by its handlers, its routes and the listeners it serves.

pub mod config;
pub mod context;
pub mod route;
pub mod server;
