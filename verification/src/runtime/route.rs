//! Route methods and the executor holding a handler chain.

use vstd::prelude::*;

use crate::text::text_eq;

verus! {

/// Http methods supported.
#[derive(Debug, Clone, Copy, PartialEq, Eq, Structural)]
pub enum HttpMethod {
    Get,
    Post,
    Put,
    Patch,
    Delete,
    Options,
    Head,
    Trace,
    Query,
    Connect,
    Any,
}

impl HttpMethod {
    /// The route method for a request method named `name`: the standard
    /// methods by their upper-case names, anything else `Any`.
    pub open spec fn from_name_spec(name: Seq<char>) -> HttpMethod {
        if name == "HEAD"@ {
            HttpMethod::Head
        } else if name == "GET"@ {
            HttpMethod::Get
        } else if name == "POST"@ {
            HttpMethod::Post
        } else if name == "PUT"@ {
            HttpMethod::Put
        } else if name == "PATCH"@ {
            HttpMethod::Patch
        } else if name == "DELETE"@ {
            HttpMethod::Delete
        } else if name == "OPTIONS"@ {
            HttpMethod::Options
        } else if name == "TRACE"@ {
            HttpMethod::Trace
        } else if name == "QUERY"@ {
            HttpMethod::Query
        } else if name == "CONNECT"@ {
            HttpMethod::Connect
        } else {
            HttpMethod::Any
        }
    }

    /// The route method of a request method, given by its name.
    pub fn from_name(name: &str) -> (r: HttpMethod)
        ensures
            r == Self::from_name_spec(name@),
    {
        if text_eq(name, "HEAD") {
            HttpMethod::Head
        } else if text_eq(name, "GET") {
            HttpMethod::Get
        } else if text_eq(name, "POST") {
            HttpMethod::Post
        } else if text_eq(name, "PUT") {
            HttpMethod::Put
        } else if text_eq(name, "PATCH") {
            HttpMethod::Patch
        } else if text_eq(name, "DELETE") {
            HttpMethod::Delete
        } else if text_eq(name, "OPTIONS") {
            HttpMethod::Options
        } else if text_eq(name, "TRACE") {
            HttpMethod::Trace
        } else if text_eq(name, "QUERY") {
            HttpMethod::Query
        } else if text_eq(name, "CONNECT") {
            HttpMethod::Connect
        } else {
            HttpMethod::Any
        }
    }
}

/// Contains all middlewares (if any) and the handler: the function that runs
/// the whole chain.
#[derive(Clone, Copy)]
pub struct Executor<F> {
    func: F,
}

impl<F> Executor<F> {
    pub closed spec fn func(self) -> F {
        self.func
    }

    pub fn new(func: F) -> (r: Self)
        ensures
            r.func() == func,
    {
        Executor { func }
    }

    /// The chain, to be called with the context and the request.
    pub fn into_func(self) -> (r: F)
        ensures
            r == self.func(),
    {
        self.func
    }
}

} // verus!
