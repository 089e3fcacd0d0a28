//! A server's configuration.

use vstd::prelude::*;

verus! {

/// Response body compression. `All` lets the client choose, preferring
/// zstd, then brotli, gzip and deflate.
#[derive(Debug, Clone, Copy, PartialEq, Eq, Structural)]
pub enum Compression {
    Deflate,
    Gzip,
    Brotli,
    Zstd,
    All,
}

impl Default for Compression {
    fn default() -> (r: Compression)
        ensures
            r == Compression::All,
    {
        Compression::All
    }
}

/// Server's config.
#[derive(Clone)]
pub struct Config<C> {
    /// Timeout in ms
    pub timeout: u32,
    /// Max concurrent requests
    pub concurrency_limit: u32,
    /// Request body limit in MiB
    pub body_limit: u64,
    /// Response body compression method
    pub compression: Compression,
    /// Max time an idle connection stays open, in ms
    pub keep_alive: u32,
    /// Application context, shared for all handlers and middlewares under its group
    pub app_context: C,
}

impl<C> Config<C> {
    /// The same settings with another application context.
    pub fn with_context<AC>(self, app_context: AC) -> (r: Config<AC>)
        ensures
            r.timeout == self.timeout,
            r.concurrency_limit == self.concurrency_limit,
            r.body_limit == self.body_limit,
            r.compression == self.compression,
            r.keep_alive == self.keep_alive,
            r.app_context == app_context,
    {
        Config {
            timeout: self.timeout,
            concurrency_limit: self.concurrency_limit,
            body_limit: self.body_limit,
            compression: self.compression,
            keep_alive: self.keep_alive,
            app_context,
        }
    }
}

} // verus!
