//! Responses: a status, headers and a body. A successful result whose
//! status carries no content (`1xx`, `204`, `304`) is answered without its
//! body.

use vstd::prelude::*;

use crate::http::header::{Header, HeaderList};
use crate::http::status::Status;

verus! {

/// Whether a response with this status carries no content.
pub open spec fn bodiless_status(s: Status) -> bool {
    (100 <= s.code() && s.code() < 200) || s.code() == 204 || s.code() == 304
}

/// A response with headers `H` and body `B`.
pub struct Response<H, B> {
    status: Status,
    headers: H,
    body: Option<B>,
}

impl<H, B> Response<H, B> {
    pub closed spec fn status_spec(&self) -> Status {
        self.status
    }

    pub closed spec fn headers_spec(&self) -> H {
        self.headers
    }

    pub closed spec fn body_spec(&self) -> Option<B> {
        self.body
    }

    pub fn new(status: Status, headers: H, body: B) -> (r: Self)
        ensures
            r.status_spec() == status,
            r.headers_spec() == headers,
            r.body_spec() == Some(body),
    {
        Response { status, headers, body: Some(body) }
    }

    pub fn status(&self) -> (r: &Status)
        ensures
            *r == self.status_spec(),
    {
        &self.status
    }

    pub fn status_mut(&mut self) -> (r: &mut Status)
        ensures
            *r == old(self).status_spec(),
            final(self).status_spec() == *final(r),
            final(self).headers_spec() == old(self).headers_spec(),
            final(self).body_spec() == old(self).body_spec(),
    {
        &mut self.status
    }

    pub fn headers(&self) -> (r: &H)
        ensures
            *r == self.headers_spec(),
    {
        &self.headers
    }

    pub fn headers_mut(&mut self) -> (r: &mut H)
        ensures
            *r == old(self).headers_spec(),
            final(self).headers_spec() == *final(r),
            final(self).status_spec() == old(self).status_spec(),
            final(self).body_spec() == old(self).body_spec(),
    {
        &mut self.headers
    }

    pub fn body(&self) -> (r: Option<&B>)
        ensures
            match r {
                Some(b) => self.body_spec() == Some(*b),
                None => self.body_spec() is None,
            },
    {
        match &self.body {
            Some(b) => Some(b),
            None => None,
        }
    }

    pub fn set_body(&mut self, body: B)
        ensures
            final(self).body_spec() == Some(body),
            final(self).status_spec() == old(self).status_spec(),
            final(self).headers_spec() == old(self).headers_spec(),
    {
        self.body = Some(body);
    }

    pub fn into_body(self) -> (r: Option<B>)
        ensures
            r == self.body_spec(),
    {
        self.body
    }

    pub fn into_parts(self) -> (r: (Status, H, Option<B>))
        ensures
            r == (self.status_spec(), self.headers_spec(), self.body_spec()),
    {
        (self.status, self.headers, self.body)
    }
}

/// A value that can be answered with.
pub trait IntoResponse<H, B>: Sized {
    fn into_response(self) -> Response<H, B>;
}

impl<H, B> IntoResponse<H, B> for Response<H, B> {
    fn into_response(self) -> (r: Response<H, B>)
        ensures
            r == self,
    {
        self
    }
}

impl<H, B> IntoResponse<H, B> for (Status, H, B) {
    fn into_response(self) -> (r: Response<H, B>)
        ensures
            r.status_spec() == self.0,
            r.headers_spec() == self.1,
            r.body_spec() == Some(self.2),
    {
        let (status, headers, body) = self;
        Response::new(status, headers, body)
    }
}

/// The response carries no header.
pub open spec fn headerless<B>(r: Response<HeaderList, B>) -> bool {
    r.headers_spec().count() == 0
}

/// A status alone: no headers, no content.
impl IntoResponse<HeaderList, ()> for (Status, (), ()) {
    fn into_response(self) -> (r: Response<HeaderList, ()>)
        ensures
            r.status_spec() == self.0,
            headerless(r),
            r.body_spec() == Some(()),
    {
        Response::new(self.0, HeaderList::new(), ())
    }
}

/// A status and a text, with no headers.
impl IntoResponse<HeaderList, String> for (Status, (), String) {
    fn into_response(self) -> (r: Response<HeaderList, String>)
        ensures
            r.status_spec() == self.0,
            headerless(r),
            r.body_spec() == Some(self.2),
    {
        let (status, _, body) = self;
        Response::new(status, HeaderList::new(), body)
    }
}

/// A handler's result answered: an error as it is; a success as it is,
/// except that its body is dropped when its status carries no content.
impl<H, B> IntoResponse<H, B> for Result<Response<H, B>, Response<H, B>> {
    fn into_response(self) -> (r: Response<H, B>)
        ensures
            match self {
                Ok(ok) => {
                    &&& r.status_spec() == ok.status_spec()
                    &&& r.headers_spec() == ok.headers_spec()
                    &&& r.body_spec() == if bodiless_status(ok.status_spec()) { None } else { ok.body_spec() }
                },
                Err(err) => r == err,
            },
    {
        match self {
            Ok(ok) => {
                let code = ok.status.as_u16();
                if (100 <= code && code < 200) || code == 204 || code == 304 {
                    Response { status: ok.status, headers: ok.headers, body: None }
                } else {
                    ok
                }
            },
            Err(err) => err,
        }
    }
}

} // verus!
