//! Route trees built at compile time: each added route or nested router
//! becomes the head of a typed list, the earlier routes its tail.

use vstd::prelude::*;

use crate::http::Method;

verus! {

/// One endpoint: a method, a path and the handler that serves it.
pub struct Route<H> {
    method: Method,
    path: String,
    handler: H,
}

impl<H> Route<H> {
    pub closed spec fn method_spec(&self) -> Method {
        self.method
    }

    pub closed spec fn path_spec(&self) -> Seq<char> {
        self.path@
    }

    pub closed spec fn handler_spec(&self) -> H {
        self.handler
    }

    pub fn new(method: Method, path: String, handler: H) -> (r: Self)
        ensures
            r.method_spec() == method,
            r.path_spec() == path@,
            r.handler_spec() == handler,
    {
        Route { method, path, handler }
    }

    pub fn method(&self) -> (r: &Method)
        ensures
            *r == self.method_spec(),
    {
        &self.method
    }

    pub fn path(&self) -> (r: &str)
        ensures
            r@ == self.path_spec(),
    {
        self.path.as_str()
    }

    pub fn handler(&self) -> (r: &H)
        ensures
            *r == self.handler_spec(),
    {
        &self.handler
    }

    pub fn into_handler(self) -> (r: H)
        ensures
            r == self.handler_spec(),
    {
        self.handler
    }
}

/// A list of routes: the last one added, then the ones before it.
pub struct Routes<T, Tail> {
    item: T,
    tail: Tail,
}

impl<T, Tail> Routes<T, Tail> {
    pub closed spec fn item_spec(&self) -> T {
        self.item
    }

    pub closed spec fn tail_spec(&self) -> Tail {
        self.tail
    }

    pub fn item(&self) -> (r: &T)
        ensures
            *r == self.item_spec(),
    {
        &self.item
    }

    pub fn tail(&self) -> (r: &Tail)
        ensures
            *r == self.tail_spec(),
    {
        &self.tail
    }

    pub fn into_parts(self) -> (r: (T, Tail))
        ensures
            r == (self.item_spec(), self.tail_spec()),
    {
        (self.item, self.tail)
    }
}

/// The routes of a router mounted under a path prefix.
pub struct Nested<P, R> {
    prefix: P,
    routes: R,
}

impl<P, R> Nested<P, R> {
    pub closed spec fn prefix_spec(&self) -> P {
        self.prefix
    }

    pub closed spec fn routes_spec(&self) -> R {
        self.routes
    }

    pub fn prefix(&self) -> (r: &P)
        ensures
            *r == self.prefix_spec(),
    {
        &self.prefix
    }

    pub fn routes(&self) -> (r: &R)
        ensures
            *r == self.routes_spec(),
    {
        &self.routes
    }

    pub fn into_parts(self) -> (r: (P, R))
        ensures
            r == (self.prefix_spec(), self.routes_spec()),
    {
        (self.prefix, self.routes)
    }
}

/// A router for requests of type `Req` answered with `Res`: its routes
/// (a [`Routes`] list, `()` when empty) and the state handed to handlers.
pub struct Router<Req, Res, R, S> {
    routes: R,
    state: S,
    marker: core::marker::PhantomData<(Req, Res)>,
}

impl<Req, Res> Router<Req, Res, (), ()> {
    /// A router with no routes and no state.
    pub fn new() -> (r: Self)
        ensures
            r.routes_spec() == (),
            r.state_spec() == (),
    {
        Router { routes: (), state: (), marker: core::marker::PhantomData }
    }
}

impl<Req, Res> Default for Router<Req, Res, (), ()> {
    fn default() -> (r: Self)
        ensures
            r.routes_spec() == (),
            r.state_spec() == (),
    {
        Self::new()
    }
}

impl<Req, Res, R, S> Router<Req, Res, R, S> {
    pub closed spec fn routes_spec(&self) -> R {
        self.routes
    }

    pub closed spec fn state_spec(&self) -> S {
        self.state
    }

    /// The same routes with a new state.
    pub fn with_state<NS>(self, state: NS) -> (r: Router<Req, Res, R, NS>)
        ensures
            r.routes_spec() == self.routes_spec(),
            r.state_spec() == state,
    {
        Router { routes: self.routes, state, marker: core::marker::PhantomData }
    }

    /// Adds a route; it becomes the head of the list.
    pub fn route<H>(self, route: Route<H>) -> (r: Router<Req, Res, Routes<Route<H>, R>, S>)
        ensures
            r.routes_spec().item_spec() == route,
            r.routes_spec().tail_spec() == self.routes_spec(),
            r.state_spec() == self.state_spec(),
    {
        Router { routes: Routes { item: route, tail: self.routes }, state: self.state, marker: core::marker::PhantomData }
    }

    /// Mounts the routes of `router` under `prefix`; they become the head
    /// of the list. The nested router's state is dropped.
    pub fn nest<NR>(self, prefix: String, router: Router<Req, Res, NR, S>) -> (r: Router<Req, Res, Routes<Nested<String, NR>, R>, S>)
        ensures
            r.routes_spec().item_spec().prefix_spec()@ == prefix@,
            r.routes_spec().item_spec().routes_spec() == router.routes_spec(),
            r.routes_spec().tail_spec() == self.routes_spec(),
            r.state_spec() == self.state_spec(),
    {
        Router {
            routes: Routes { item: Nested { prefix, routes: router.routes }, tail: self.routes },
            state: self.state,
            marker: core::marker::PhantomData,
        }
    }

    pub fn into_routes(self) -> (r: R)
        ensures
            r == self.routes_spec(),
    {
        self.routes
    }

    pub fn into_parts(self) -> (r: (R, S))
        ensures
            r == (self.routes_spec(), self.state_spec()),
    {
        (self.routes, self.state)
    }

    /// Adds a route for `method`.
    fn add<H>(self, method: Method, path: String, handler: H) -> (r: Router<Req, Res, Routes<Route<H>, R>, S>)
        ensures
            r.routes_spec().item_spec().method_spec() == method,
            r.routes_spec().item_spec().path_spec() == path@,
            r.routes_spec().item_spec().handler_spec() == handler,
            r.routes_spec().tail_spec() == self.routes_spec(),
            r.state_spec() == self.state_spec(),
    {
        self.route(Route::new(method, path, handler))
    }

    pub fn get<H>(self, path: String, handler: H) -> (r: Router<Req, Res, Routes<Route<H>, R>, S>)
        ensures
            r.routes_spec().item_spec().method_spec() == Method::Get,
            r.routes_spec().item_spec().path_spec() == path@,
            r.routes_spec().item_spec().handler_spec() == handler,
            r.routes_spec().tail_spec() == self.routes_spec(),
            r.state_spec() == self.state_spec(),
    {
        self.add(Method::Get, path, handler)
    }

    pub fn post<H>(self, path: String, handler: H) -> (r: Router<Req, Res, Routes<Route<H>, R>, S>)
        ensures
            r.routes_spec().item_spec().method_spec() == Method::Post,
            r.routes_spec().item_spec().path_spec() == path@,
            r.routes_spec().item_spec().handler_spec() == handler,
            r.routes_spec().tail_spec() == self.routes_spec(),
            r.state_spec() == self.state_spec(),
    {
        self.add(Method::Post, path, handler)
    }

    pub fn put<H>(self, path: String, handler: H) -> (r: Router<Req, Res, Routes<Route<H>, R>, S>)
        ensures
            r.routes_spec().item_spec().method_spec() == Method::Put,
            r.routes_spec().item_spec().path_spec() == path@,
            r.routes_spec().item_spec().handler_spec() == handler,
            r.routes_spec().tail_spec() == self.routes_spec(),
            r.state_spec() == self.state_spec(),
    {
        self.add(Method::Put, path, handler)
    }

    pub fn patch<H>(self, path: String, handler: H) -> (r: Router<Req, Res, Routes<Route<H>, R>, S>)
        ensures
            r.routes_spec().item_spec().method_spec() == Method::Patch,
            r.routes_spec().item_spec().path_spec() == path@,
            r.routes_spec().item_spec().handler_spec() == handler,
            r.routes_spec().tail_spec() == self.routes_spec(),
            r.state_spec() == self.state_spec(),
    {
        self.add(Method::Patch, path, handler)
    }

    pub fn delete<H>(self, path: String, handler: H) -> (r: Router<Req, Res, Routes<Route<H>, R>, S>)
        ensures
            r.routes_spec().item_spec().method_spec() == Method::Delete,
            r.routes_spec().item_spec().path_spec() == path@,
            r.routes_spec().item_spec().handler_spec() == handler,
            r.routes_spec().tail_spec() == self.routes_spec(),
            r.state_spec() == self.state_spec(),
    {
        self.add(Method::Delete, path, handler)
    }

    pub fn head<H>(self, path: String, handler: H) -> (r: Router<Req, Res, Routes<Route<H>, R>, S>)
        ensures
            r.routes_spec().item_spec().method_spec() == Method::Head,
            r.routes_spec().item_spec().path_spec() == path@,
            r.routes_spec().item_spec().handler_spec() == handler,
            r.routes_spec().tail_spec() == self.routes_spec(),
            r.state_spec() == self.state_spec(),
    {
        self.add(Method::Head, path, handler)
    }

    pub fn options<H>(self, path: String, handler: H) -> (r: Router<Req, Res, Routes<Route<H>, R>, S>)
        ensures
            r.routes_spec().item_spec().method_spec() == Method::Options,
            r.routes_spec().item_spec().path_spec() == path@,
            r.routes_spec().item_spec().handler_spec() == handler,
            r.routes_spec().tail_spec() == self.routes_spec(),
            r.state_spec() == self.state_spec(),
    {
        self.add(Method::Options, path, handler)
    }

    pub fn connect<H>(self, path: String, handler: H) -> (r: Router<Req, Res, Routes<Route<H>, R>, S>)
        ensures
            r.routes_spec().item_spec().method_spec() == Method::Connect,
            r.routes_spec().item_spec().path_spec() == path@,
            r.routes_spec().item_spec().handler_spec() == handler,
            r.routes_spec().tail_spec() == self.routes_spec(),
            r.state_spec() == self.state_spec(),
    {
        self.add(Method::Connect, path, handler)
    }

    pub fn trace<H>(self, path: String, handler: H) -> (r: Router<Req, Res, Routes<Route<H>, R>, S>)
        ensures
            r.routes_spec().item_spec().method_spec() == Method::Trace,
            r.routes_spec().item_spec().path_spec() == path@,
            r.routes_spec().item_spec().handler_spec() == handler,
            r.routes_spec().tail_spec() == self.routes_spec(),
            r.state_spec() == self.state_spec(),
    {
        self.add(Method::Trace, path, handler)
    }

    pub fn query<H>(self, path: String, handler: H) -> (r: Router<Req, Res, Routes<Route<H>, R>, S>)
        ensures
            r.routes_spec().item_spec().method_spec() == Method::Query,
            r.routes_spec().item_spec().path_spec() == path@,
            r.routes_spec().item_spec().handler_spec() == handler,
            r.routes_spec().tail_spec() == self.routes_spec(),
            r.state_spec() == self.state_spec(),
    {
        self.add(Method::Query, path, handler)
    }
}

/// A handler wrapped by a middleware: the middleware runs first and may call
/// the handler.
pub struct MiddlewareHandler<M, H> {
    middleware: M,
    handler: H,
}

impl<M, H> MiddlewareHandler<M, H> {
    pub closed spec fn middleware_spec(&self) -> M {
        self.middleware
    }

    pub closed spec fn handler_spec(&self) -> H {
        self.handler
    }

    pub fn new(middleware: M, handler: H) -> (r: Self)
        ensures
            r.middleware_spec() == middleware,
            r.handler_spec() == handler,
    {
        MiddlewareHandler { middleware, handler }
    }

    pub fn middleware(&self) -> (r: &M)
        ensures
            *r == self.middleware_spec(),
    {
        &self.middleware
    }

    pub fn handler(&self) -> (r: &H)
        ensures
            *r == self.handler_spec(),
    {
        &self.handler
    }

    pub fn into_parts(self) -> (r: (M, H))
        ensures
            r == (self.middleware_spec(), self.handler_spec()),
    {
        (self.middleware, self.handler)
    }
}

} // verus!
