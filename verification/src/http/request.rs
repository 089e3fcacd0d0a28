//! Requests: a method, a target, headers and a body. Requests whose method
//! carries no content (`GET`, `HEAD`, `TRACE`) hold no body.

use vstd::prelude::*;

use crate::http::Method;

verus! {

/// Whether requests with this method carry no content.
pub open spec fn bodiless_method(m: Method) -> bool {
    m == Method::Get || m == Method::Head || m == Method::Trace
}

/// A request with target type `U`, headers `H` and body `B`.
pub struct Request<U, H, B> {
    method: Method,
    uri: U,
    headers: H,
    body: Option<B>,
}

impl<U, H, B> Request<U, H, B> {
    pub closed spec fn method_spec(&self) -> Method {
        self.method
    }

    pub closed spec fn uri_spec(&self) -> U {
        self.uri
    }

    pub closed spec fn headers_spec(&self) -> H {
        self.headers
    }

    pub closed spec fn body_spec(&self) -> Option<B> {
        self.body
    }

    /// A request; the body is dropped when the method carries no content.
    pub fn new(method: Method, uri: U, headers: H, body: B) -> (r: Self)
        ensures
            r.method_spec() == method,
            r.uri_spec() == uri,
            r.headers_spec() == headers,
            r.body_spec() == if bodiless_method(method) { None } else { Some(body) },
    {
        let body = match method {
            Method::Get | Method::Head | Method::Trace => None,
            _ => Some(body),
        };
        Request { method, uri, headers, body }
    }

    pub fn method(&self) -> (r: &Method)
        ensures
            *r == self.method_spec(),
    {
        &self.method
    }

    pub fn method_mut(&mut self) -> (r: &mut Method)
        ensures
            *r == old(self).method_spec(),
            final(self).method_spec() == *final(r),
            final(self).uri_spec() == old(self).uri_spec(),
            final(self).headers_spec() == old(self).headers_spec(),
            final(self).body_spec() == old(self).body_spec(),
    {
        &mut self.method
    }

    pub fn uri(&self) -> (r: &U)
        ensures
            *r == self.uri_spec(),
    {
        &self.uri
    }

    pub fn uri_mut(&mut self) -> (r: &mut U)
        ensures
            *r == old(self).uri_spec(),
            final(self).uri_spec() == *final(r),
            final(self).method_spec() == old(self).method_spec(),
            final(self).headers_spec() == old(self).headers_spec(),
            final(self).body_spec() == old(self).body_spec(),
    {
        &mut self.uri
    }

    pub fn headers(&self) -> (r: &H)
        ensures
            *r == self.headers_spec(),
    {
        &self.headers
    }

    pub fn headers_mut(&mut self) -> (r: &mut H)
        ensures
            *r == old(self).headers_spec(),
            final(self).headers_spec() == *final(r),
            final(self).method_spec() == old(self).method_spec(),
            final(self).uri_spec() == old(self).uri_spec(),
            final(self).body_spec() == old(self).body_spec(),
    {
        &mut self.headers
    }

    pub fn body(&self) -> (r: Option<&B>)
        ensures
            match r {
                Some(b) => self.body_spec() == Some(*b),
                None => self.body_spec() is None,
            },
    {
        match &self.body {
            Some(b) => Some(b),
            None => None,
        }
    }

    /// Replaces the body, whatever the method.
    pub fn set_body(&mut self, body: B)
        ensures
            final(self).body_spec() == Some(body),
            final(self).method_spec() == old(self).method_spec(),
            final(self).uri_spec() == old(self).uri_spec(),
            final(self).headers_spec() == old(self).headers_spec(),
    {
        self.body = Some(body);
    }

    pub fn into_body(self) -> (r: Option<B>)
        ensures
            r == self.body_spec(),
    {
        self.body
    }

    pub fn into_parts(self) -> (r: (Method, U, H, Option<B>))
        ensures
            r == (self.method_spec(), self.uri_spec(), self.headers_spec(), self.body_spec()),
    {
        (self.method, self.uri, self.headers, self.body)
    }
}

} // verus!
