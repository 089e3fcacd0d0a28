//! Responses built by handlers: a status, headers and a body, with
//! builders that set the content type that goes with the body.

use vstd::prelude::*;

use crate::http::header::{header_entries, name_matches, without_name, Header, HeaderList};
use crate::http::Status;

verus! {

pub const CONTENT_TYPE: &'static str = "content-type";
pub const TEXT_PLAIN: &'static str = "text/plain; charset=utf-8";
pub const TEXT_HTML: &'static str = "text/html; charset=utf-8";
pub const APPLICATION_JSON: &'static str = "application/json";

/// A response: status, headers and body.
pub struct Response<B> {
    pub status: Status,
    pub headers: HeaderList,
    pub body: B,
}

/// The headers after the content type is set to `value`: that value alone
/// under `content-type`, every other name as before, and one entry more
/// than `before` holds under other names.
pub open spec fn typed_as(after: HeaderList, before: HeaderList, value: Seq<char>) -> bool {
    &&& after.values_of("content-type"@) == seq![vstd::utf8::encode_utf8(value)]
    &&& forall|n: Seq<char>| !name_matches(n, "content-type"@) ==> #[trigger] after.values_of(n) == before.values_of(n)
    &&& after.count() == without_name(header_entries(before.entries@), "content-type"@).len() + 1
}

/// How a response body takes in the text of a refused request. Users
/// implement it for the body of their `bad_request_error` response.
pub trait BadRequestErrorMessage: Sized {
    /// The body with the refusal text `err` folded in.
    fn bad_request_err_msg(self, err: &str) -> Self;
}

impl<T: BadRequestErrorMessage> Response<T> {
    /// The same response with the refusal text `err` folded into its body
    /// by the body's own [`BadRequestErrorMessage`]; status and headers
    /// stay as they are.
    pub fn bad_request_err_msg(self, err: &str) -> (r: Response<T>)
        ensures
            r.status == self.status,
            r.headers == self.headers,
    {
        Response { status: self.status, headers: self.headers, body: self.body.bad_request_err_msg(err) }
    }
}

impl Response<()> {
    /// `200 OK`, no headers, no body.
    pub fn new() -> (r: Self)
        ensures
            r.status.code() == 200,
            r.headers.count() == 0,
            forall|n: Seq<char>| (#[trigger] r.headers.values_of(n)).len() == 0,
    {
        Response { status: Status::OK(), headers: HeaderList::new(), body: () }
    }

    pub fn with_status(self, status: Status) -> (r: Self)
        ensures
            r.status == status,
            r.headers == self.headers,
    {
        Response { status, headers: self.headers, body: () }
    }

    /// The same status with `headers` in place of the headers.
    pub fn with_header(self, headers: HeaderList) -> (r: Self)
        ensures
            r.status == self.status,
            r.headers == headers,
    {
        Response { status: self.status, headers, body: () }
    }

    fn with_typed_body<T>(self, value: &str, body: T) -> (r: Response<T>)
        ensures
            r.status == self.status,
            typed_as(r.headers, self.headers, value@),
            r.body == body,
    {
        let mut headers = self.headers;
        headers.insert(CONTENT_TYPE, value.as_bytes_vec());
        Response { status: self.status, headers, body }
    }

    /// A text body, typed `text/plain; charset=utf-8`.
    pub fn with_text(self, body: String) -> (r: Response<String>)
        ensures
            r.status == self.status,
            typed_as(r.headers, self.headers, "text/plain; charset=utf-8"@),
            r.body@ == body@,
    {
        self.with_typed_body(TEXT_PLAIN, body)
    }

    /// An HTML body, typed `text/html; charset=utf-8`.
    pub fn with_html(self, body: String) -> (r: Response<String>)
        ensures
            r.status == self.status,
            typed_as(r.headers, self.headers, "text/html; charset=utf-8"@),
            r.body@ == body@,
    {
        self.with_typed_body(TEXT_HTML, body)
    }

    /// A body sent as JSON, typed `application/json`.
    pub fn with_json<J>(self, body: J) -> (r: Response<J>)
        ensures
            r.status == self.status,
            typed_as(r.headers, self.headers, "application/json"@),
            r.body == body,
    {
        self.with_typed_body(APPLICATION_JSON, body)
    }
}

/// The answer of a route that names no handler: `501 Not Implemented`
/// with the text "g-server: not implemented", and no header but its
/// content type.
pub fn unimplemented_response() -> (r: Response<String>)
    ensures
        r.status.code() == 501,
        r.body@ == "g-server: not implemented"@,
        r.headers.values_of("content-type"@) == seq![vstd::utf8::encode_utf8("text/plain; charset=utf-8"@)],
        r.headers.count() == 1,
        forall|n: Seq<char>| !name_matches(n, "content-type"@) ==> (#[trigger] r.headers.values_of(n)).len() == 0,
{
    let base = Response::new().with_status(Status::NOT_IMPLEMENTED());
    assert(header_entries(base.headers.entries@).len() == 0);
    assert(without_name(header_entries(base.headers.entries@), "content-type"@).len() == 0);
    base.with_text(crate::text::owned("g-server: not implemented"))
}

/// The answer to a request that outlasts a timeout with no custom error:
/// `504 Gateway Timeout` with the error's text as a plain-text body, and no
/// header but its content type.
pub fn timeout_response(text: String) -> (r: Response<String>)
    ensures
        r.status.code() == 504,
        r.body@ == text@,
        r.headers.values_of("content-type"@) == seq![vstd::utf8::encode_utf8("text/plain; charset=utf-8"@)],
        r.headers.count() == 1,
        forall|n: Seq<char>| !name_matches(n, "content-type"@) ==> (#[trigger] r.headers.values_of(n)).len() == 0,
{
    let base = Response::new().with_status(Status::GATEWAY_TIMEOUT());
    assert(header_entries(base.headers.entries@).len() == 0);
    assert(without_name(header_entries(base.headers.entries@), "content-type"@).len() == 0);
    base.with_text(text)
}

} // verus!
