//! Per-server and per-route configuration.

use vstd::prelude::*;

use crate::runtime::route::HttpMethod;

verus! {

/// Compression provided by http server.
///
/// No compression for response body below 32 bytes.
#[derive(Debug, Clone, Copy, PartialEq, Eq, Structural)]
pub enum Compression {
    Deflate,
    Gzip,
    Brotli,
    Zstd,
    All,
}

impl Default for Compression {
    fn default() -> (r: Compression)
        ensures
            r == Compression::All,
    {
        Compression::All
    }
}

/// Cross-origin settings: origins, header names and methods as plain values.
#[derive(Debug, Clone)]
pub struct Cors {
    pub allowed_origins: Option<Vec<String>>,
    pub allowed_methods: Option<Vec<HttpMethod>>,
    pub allowed_headers: Option<Vec<String>>,
    pub exposed_headers: Option<Vec<String>>,
    pub allow_credentials: Option<bool>,
    /// In seconds.
    pub max_age: Option<u64>,
}

/// Server's config. `E` is the type of a custom error response maker and
/// `B` the type of a bad-request response maker, which takes the refusal
/// text.
#[derive(Debug)]
pub struct Config<E, B> {
    /// Timeout in ms; unset, no timeout layer is added
    pub timeout: Option<u64>,
    /// Max concurrent requests; unset, no limit layer is added
    pub concurrency_limit: Option<usize>,
    /// Request body limit in bytes; unset, no limit layer is added
    pub body_limit: Option<usize>,
    /// Response body compression method; unset, responses are not compressed
    pub compression: Option<Compression>,
    /// Remove repeated slash(es)
    pub normalize_endpoint: Option<bool>,
    /// Custom timeout error
    pub timeout_error: Option<E>,
    /// Custom concurrency limit error
    pub concurrency_limit_error: Option<E>,
    /// Custom bad request error
    pub bad_request_error: Option<B>,
    /// Fallback error
    pub fallback_error: Option<E>,
    /// Cors
    pub cors: Option<Cors>,
    /// directory to be served
    pub dir: Option<&'static str>,
    /// fallback file in case file not found
    pub fallback_file: Option<&'static str>,
    /// toggle filesystem embed, `dir` then is embedded into binary
    pub embed: Option<bool>,
}

impl<E, B> Config<E, B> {
    /// Every setting unset.
    pub open spec fn is_empty(self) -> bool {
        &&& self.timeout is None
        &&& self.concurrency_limit is None
        &&& self.body_limit is None
        &&& self.compression is None
        &&& self.normalize_endpoint is None
        &&& self.timeout_error is None
        &&& self.concurrency_limit_error is None
        &&& self.bad_request_error is None
        &&& self.fallback_error is None
        &&& self.cors is None
        &&& self.dir is None
        &&& self.fallback_file is None
        &&& self.embed is None
    }

    /// A configuration with every setting unset.
    pub fn empty() -> (r: Self)
        ensures
            r.is_empty(),
    {
        Config {
            timeout: None,
            concurrency_limit: None,
            body_limit: None,
            compression: None,
            normalize_endpoint: None,
            timeout_error: None,
            concurrency_limit_error: None,
            bad_request_error: None,
            fallback_error: None,
            cors: None,
            dir: None,
            fallback_file: None,
            embed: None,
        }
    }
}

impl<E, B> Default for Config<E, B> {
    fn default() -> (r: Self)
        ensures
            r.is_empty(),
    {
        Self::empty()
    }
}

} // verus!
