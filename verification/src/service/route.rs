//! One endpoint of a running server: its method, path, configuration,
//! response body kind and the executor of its handler chain.

use vstd::prelude::*;

use crate::service::config::Config;

verus! {

/// Http methods supported.
#[derive(Debug, Clone, Copy, PartialEq, Eq, Structural)]
pub enum HttpMethod {
    Head,
    Get,
    Put,
    Post,
    Patch,
    Query,
    Any,
}

/// Response body supported.
#[derive(Debug, Clone, Copy, PartialEq, Eq, Structural)]
pub enum ResponseBodyType {
    Json,
    String,
    Html,
}

impl Default for ResponseBodyType {
    fn default() -> (r: ResponseBodyType)
        ensures
            r == ResponseBodyType::Json,
    {
        ResponseBodyType::Json
    }
}

/// Contains all middlewares (if any) and the handler.
#[derive(Clone, Copy)]
pub struct Executor<F> {
    func: F,
}

impl<F> Executor<F> {
    pub closed spec fn func_spec(&self) -> F {
        self.func
    }

    pub fn new(func: F) -> (r: Self)
        ensures
            r.func_spec() == func,
    {
        Executor { func }
    }

    /// The chain, to be called with the context and the request.
    pub fn into_func(self) -> (r: F)
        ensures
            r == self.func_spec(),
    {
        self.func
    }
}

/// Route represents 1 endpoint execution.
pub struct Route<F, P, Q, B> {
    pub method: HttpMethod,
    pub endpoint: &'static str,
    pub config: Config<()>,
    pub response_body_type: ResponseBodyType,
    pub executor: Executor<F>,
    pub path_params: core::marker::PhantomData<P>,
    pub query_params: core::marker::PhantomData<Q>,
    pub request_body: core::marker::PhantomData<B>,
}

impl<F, P, Q, B> Route<F, P, Q, B> {
    pub fn new(
        method: HttpMethod,
        endpoint: &'static str,
        config: Config<()>,
        response_body_type: ResponseBodyType,
        executor: Executor<F>,
    ) -> (r: Self)
        ensures
            r.method == method,
            r.endpoint@ == endpoint@,
            r.config == config,
            r.response_body_type == response_body_type,
            r.executor == executor,
    {
        Route {
            method,
            endpoint,
            config,
            response_body_type,
            executor,
            path_params: core::marker::PhantomData,
            query_params: core::marker::PhantomData,
            request_body: core::marker::PhantomData,
        }
    }
}

} // verus!
