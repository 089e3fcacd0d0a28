//! The service layers a configuration puts around a router or a route, and
//! in which order.

use vstd::prelude::*;

use crate::runtime::config::{Compression, Config};

verus! {

/// One layer around a router or a route.
#[derive(Debug, Clone, Copy, PartialEq, Eq, Structural)]
pub enum Layer {
    /// Response compression with the method given.
    Compression(Compression),
    /// A request body limit, in bytes.
    BodyLimit(usize),
    /// At most `limit` requests at a time. With a custom error, requests
    /// beyond the limit are shed and answered with it; without one they
    /// wait.
    ConcurrencyLimit { limit: usize, custom_error: bool },
    /// Requests that take longer than `ms` are answered with the custom
    /// error when there is one, else with
    /// [`timeout_response`](crate::runtime::response::timeout_response).
    Timeout { ms: u64, custom_error: bool },
    /// The configured cross-origin settings.
    Cors,
    /// Redirects requests for a path holding `//` or ending in `/`.
    NormalizeEndpoint,
}

/// The layers of a configuration, in the order they are applied: the
/// compression, the body limit, the concurrency limit, the timeout, the
/// cross-origin settings, and the path normalisation when it is switched
/// on. A custom error without its limit adds nothing.
pub open spec fn layers_of<E, B>(c: Config<E, B>) -> Seq<Layer> {
    let s0 = Seq::<Layer>::empty();
    let s1 = match c.compression {
        Some(m) => s0.push(Layer::Compression(m)),
        None => s0,
    };
    let s2 = match c.body_limit {
        Some(n) => s1.push(Layer::BodyLimit(n)),
        None => s1,
    };
    let s3 = match c.concurrency_limit {
        Some(n) => s2.push(Layer::ConcurrencyLimit { limit: n, custom_error: c.concurrency_limit_error is Some }),
        None => s2,
    };
    let s4 = match c.timeout {
        Some(ms) => s3.push(Layer::Timeout { ms, custom_error: c.timeout_error is Some }),
        None => s3,
    };
    let s5 = match c.cors {
        Some(_) => s4.push(Layer::Cors),
        None => s4,
    };
    match c.normalize_endpoint {
        Some(true) => s5.push(Layer::NormalizeEndpoint),
        _ => s5,
    }
}

/// The layers of a configuration (see [`layers_of`]).
pub fn layers<E, B>(config: &Config<E, B>) -> (r: Vec<Layer>)
    ensures
        r@ == layers_of(*config),
{
    let mut out: Vec<Layer> = Vec::new();
    if let Some(m) = config.compression {
        out.push(Layer::Compression(m));
    }
    if let Some(n) = config.body_limit {
        out.push(Layer::BodyLimit(n));
    }
    if let Some(n) = config.concurrency_limit {
        out.push(Layer::ConcurrencyLimit { limit: n, custom_error: config.concurrency_limit_error.is_some() });
    }
    if let Some(ms) = config.timeout {
        out.push(Layer::Timeout { ms, custom_error: config.timeout_error.is_some() });
    }
    if config.cors.is_some() {
        out.push(Layer::Cors);
    }
    if let Some(true) = config.normalize_endpoint {
        out.push(Layer::NormalizeEndpoint);
    }
    out
}

/// The encodings a compression method leaves on: gzip, brotli, zstd and
/// deflate, in that order.
pub open spec fn encodings_of(m: Compression) -> (bool, bool, bool, bool) {
    match m {
        Compression::All => (true, true, true, true),
        Compression::Gzip => (true, false, false, false),
        Compression::Brotli => (false, true, false, false),
        Compression::Zstd => (false, false, true, false),
        Compression::Deflate => (false, false, false, true),
    }
}

impl Compression {
    /// The encodings this method leaves on (see [`encodings_of`]).
    pub fn encodings(self) -> (r: (bool, bool, bool, bool))
        ensures
            r == encodings_of(self),
    {
        match self {
            Compression::All => (true, true, true, true),
            Compression::Gzip => (true, false, false, false),
            Compression::Brotli => (false, true, false, false),
            Compression::Zstd => (false, false, true, false),
            Compression::Deflate => (false, false, false, true),
        }
    }
}

} // verus!
