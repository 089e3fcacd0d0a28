use vstd::prelude::*;

use crate::text::{decimal, write_decimal};

verus! {

/// An HTTP response status code.
#[derive(Debug, Clone, Copy, PartialEq, Eq, Structural, Hash)]
pub struct Status(u16);

/// The named status codes are functions returning the status.
impl Status {
    // 1xx Informational
    #[allow(non_snake_case)]
    pub fn CONTINUE() -> (r: Status)
        ensures
            r.code() == 100,
    {
        Status(100)
    }
    #[allow(non_snake_case)]
    pub fn SWITCHING_PROTOCOLS() -> (r: Status)
        ensures
            r.code() == 101,
    {
        Status(101)
    }
    #[allow(non_snake_case)]
    pub fn PROCESSING() -> (r: Status)
        ensures
            r.code() == 102,
    {
        Status(102)
    }
    #[allow(non_snake_case)]
    pub fn EARLY_HINTS() -> (r: Status)
        ensures
            r.code() == 103,
    {
        Status(103)
    }

    // 2xx Success
    #[allow(non_snake_case)]
    pub fn OK() -> (r: Status)
        ensures
            r.code() == 200,
    {
        Status(200)
    }
    #[allow(non_snake_case)]
    pub fn CREATED() -> (r: Status)
        ensures
            r.code() == 201,
    {
        Status(201)
    }
    #[allow(non_snake_case)]
    pub fn ACCEPTED() -> (r: Status)
        ensures
            r.code() == 202,
    {
        Status(202)
    }
    #[allow(non_snake_case)]
    pub fn NON_AUTHORITATIVE_INFORMATION() -> (r: Status)
        ensures
            r.code() == 203,
    {
        Status(203)
    }
    #[allow(non_snake_case)]
    pub fn NO_CONTENT() -> (r: Status)
        ensures
            r.code() == 204,
    {
        Status(204)
    }
    #[allow(non_snake_case)]
    pub fn RESET_CONTENT() -> (r: Status)
        ensures
            r.code() == 205,
    {
        Status(205)
    }
    #[allow(non_snake_case)]
    pub fn PARTIAL_CONTENT() -> (r: Status)
        ensures
            r.code() == 206,
    {
        Status(206)
    }
    #[allow(non_snake_case)]
    pub fn MULTI_STATUS() -> (r: Status)
        ensures
            r.code() == 207,
    {
        Status(207)
    }
    #[allow(non_snake_case)]
    pub fn ALREADY_REPORTED() -> (r: Status)
        ensures
            r.code() == 208,
    {
        Status(208)
    }
    #[allow(non_snake_case)]
    pub fn IM_USED() -> (r: Status)
        ensures
            r.code() == 226,
    {
        Status(226)
    }

    // 3xx Redirection
    #[allow(non_snake_case)]
    pub fn MULTIPLE_CHOICES() -> (r: Status)
        ensures
            r.code() == 300,
    {
        Status(300)
    }
    #[allow(non_snake_case)]
    pub fn MOVED_PERMANENTLY() -> (r: Status)
        ensures
            r.code() == 301,
    {
        Status(301)
    }
    #[allow(non_snake_case)]
    pub fn FOUND() -> (r: Status)
        ensures
            r.code() == 302,
    {
        Status(302)
    }
    #[allow(non_snake_case)]
    pub fn SEE_OTHER() -> (r: Status)
        ensures
            r.code() == 303,
    {
        Status(303)
    }
    #[allow(non_snake_case)]
    pub fn NOT_MODIFIED() -> (r: Status)
        ensures
            r.code() == 304,
    {
        Status(304)
    }
    #[allow(non_snake_case)]
    pub fn TEMPORARY_REDIRECT() -> (r: Status)
        ensures
            r.code() == 307,
    {
        Status(307)
    }
    #[allow(non_snake_case)]
    pub fn PERMANENT_REDIRECT() -> (r: Status)
        ensures
            r.code() == 308,
    {
        Status(308)
    }

    // 4xx Client Error
    #[allow(non_snake_case)]
    pub fn BAD_REQUEST() -> (r: Status)
        ensures
            r.code() == 400,
    {
        Status(400)
    }
    #[allow(non_snake_case)]
    pub fn UNAUTHORIZED() -> (r: Status)
        ensures
            r.code() == 401,
    {
        Status(401)
    }
    #[allow(non_snake_case)]
    pub fn PAYMENT_REQUIRED() -> (r: Status)
        ensures
            r.code() == 402,
    {
        Status(402)
    }
    #[allow(non_snake_case)]
    pub fn FORBIDDEN() -> (r: Status)
        ensures
            r.code() == 403,
    {
        Status(403)
    }
    #[allow(non_snake_case)]
    pub fn NOT_FOUND() -> (r: Status)
        ensures
            r.code() == 404,
    {
        Status(404)
    }
    #[allow(non_snake_case)]
    pub fn METHOD_NOT_ALLOWED() -> (r: Status)
        ensures
            r.code() == 405,
    {
        Status(405)
    }
    #[allow(non_snake_case)]
    pub fn NOT_ACCEPTABLE() -> (r: Status)
        ensures
            r.code() == 406,
    {
        Status(406)
    }
    #[allow(non_snake_case)]
    pub fn PROXY_AUTHENTICATION_REQUIRED() -> (r: Status)
        ensures
            r.code() == 407,
    {
        Status(407)
    }
    #[allow(non_snake_case)]
    pub fn REQUEST_TIMEOUT() -> (r: Status)
        ensures
            r.code() == 408,
    {
        Status(408)
    }
    #[allow(non_snake_case)]
    pub fn CONFLICT() -> (r: Status)
        ensures
            r.code() == 409,
    {
        Status(409)
    }
    #[allow(non_snake_case)]
    pub fn GONE() -> (r: Status)
        ensures
            r.code() == 410,
    {
        Status(410)
    }
    #[allow(non_snake_case)]
    pub fn LENGTH_REQUIRED() -> (r: Status)
        ensures
            r.code() == 411,
    {
        Status(411)
    }
    #[allow(non_snake_case)]
    pub fn PRECONDITION_FAILED() -> (r: Status)
        ensures
            r.code() == 412,
    {
        Status(412)
    }
    #[allow(non_snake_case)]
    pub fn PAYLOAD_TOO_LARGE() -> (r: Status)
        ensures
            r.code() == 413,
    {
        Status(413)
    }
    #[allow(non_snake_case)]
    pub fn URI_TOO_LONG() -> (r: Status)
        ensures
            r.code() == 414,
    {
        Status(414)
    }
    #[allow(non_snake_case)]
    pub fn UNSUPPORTED_MEDIA_TYPE() -> (r: Status)
        ensures
            r.code() == 415,
    {
        Status(415)
    }
    #[allow(non_snake_case)]
    pub fn RANGE_NOT_SATISFIABLE() -> (r: Status)
        ensures
            r.code() == 416,
    {
        Status(416)
    }
    #[allow(non_snake_case)]
    pub fn EXPECTATION_FAILED() -> (r: Status)
        ensures
            r.code() == 417,
    {
        Status(417)
    }
    #[allow(non_snake_case)]
    pub fn IM_A_TEAPOT() -> (r: Status)
        ensures
            r.code() == 418,
    {
        Status(418)
    }
    #[allow(non_snake_case)]
    pub fn UNPROCESSABLE_CONTENT() -> (r: Status)
        ensures
            r.code() == 422,
    {
        Status(422)
    }
    #[allow(non_snake_case)]
    pub fn TOO_EARLY() -> (r: Status)
        ensures
            r.code() == 425,
    {
        Status(425)
    }
    #[allow(non_snake_case)]
    pub fn UPGRADE_REQUIRED() -> (r: Status)
        ensures
            r.code() == 426,
    {
        Status(426)
    }
    #[allow(non_snake_case)]
    pub fn TOO_MANY_REQUESTS() -> (r: Status)
        ensures
            r.code() == 429,
    {
        Status(429)
    }
    #[allow(non_snake_case)]
    pub fn REQUEST_HEADER_FIELDS_TOO_LARGE() -> (r: Status)
        ensures
            r.code() == 431,
    {
        Status(431)
    }

    // 5xx Server Error
    #[allow(non_snake_case)]
    pub fn INTERNAL_SERVER_ERROR() -> (r: Status)
        ensures
            r.code() == 500,
    {
        Status(500)
    }
    #[allow(non_snake_case)]
    pub fn NOT_IMPLEMENTED() -> (r: Status)
        ensures
            r.code() == 501,
    {
        Status(501)
    }
    #[allow(non_snake_case)]
    pub fn BAD_GATEWAY() -> (r: Status)
        ensures
            r.code() == 502,
    {
        Status(502)
    }
    #[allow(non_snake_case)]
    pub fn SERVICE_UNAVAILABLE() -> (r: Status)
        ensures
            r.code() == 503,
    {
        Status(503)
    }
    #[allow(non_snake_case)]
    pub fn GATEWAY_TIMEOUT() -> (r: Status)
        ensures
            r.code() == 504,
    {
        Status(504)
    }
    #[allow(non_snake_case)]
    pub fn HTTP_VERSION_NOT_SUPPORTED() -> (r: Status)
        ensures
            r.code() == 505,
    {
        Status(505)
    }
    #[allow(non_snake_case)]
    pub fn VARIANT_ALSO_NEGOTIATES() -> (r: Status)
        ensures
            r.code() == 506,
    {
        Status(506)
    }
    #[allow(non_snake_case)]
    pub fn INSUFFICIENT_STORAGE() -> (r: Status)
        ensures
            r.code() == 507,
    {
        Status(507)
    }
    #[allow(non_snake_case)]
    pub fn LOOP_DETECTED() -> (r: Status)
        ensures
            r.code() == 508,
    {
        Status(508)
    }
    #[allow(non_snake_case)]
    pub fn NOT_EXTENDED() -> (r: Status)
        ensures
            r.code() == 510,
    {
        Status(510)
    }
    #[allow(non_snake_case)]
    pub fn NETWORK_AUTHENTICATION_REQUIRED() -> (r: Status)
        ensures
            r.code() == 511,
    {
        Status(511)
    }

    /// The numeric code of the status.
    pub closed spec fn code(self) -> u16 {
        self.0
    }

    /// Creates a status from a numeric status code.
    pub fn new(code: u16) -> (r: Status)
        ensures
            r.code() == code,
    {
        Status(code)
    }

    /// Returns the numeric status code.
    pub fn as_u16(self) -> (r: u16)
        ensures
            r == self.code(),
    {
        self.0
    }

    /// Returns whether this is a `1xx` status.
    pub fn is_informational(self) -> (r: bool)
        ensures
            r <==> 100 <= self.code() < 200,
    {
        self.0 >= 100 && self.0 < 200
    }

    /// Returns whether this is a `2xx` status.
    pub fn is_success(self) -> (r: bool)
        ensures
            r <==> 200 <= self.code() < 300,
    {
        self.0 >= 200 && self.0 < 300
    }

    /// Returns whether this is a `3xx` status.
    pub fn is_redirection(self) -> (r: bool)
        ensures
            r <==> 300 <= self.code() < 400,
    {
        self.0 >= 300 && self.0 < 400
    }

    /// Returns whether this is a `4xx` status.
    pub fn is_client_error(self) -> (r: bool)
        ensures
            r <==> 400 <= self.code() < 500,
    {
        self.0 >= 400 && self.0 < 500
    }

    /// Returns whether this is a `5xx` status.
    pub fn is_server_error(self) -> (r: bool)
        ensures
            r <==> 500 <= self.code() < 600,
    {
        self.0 >= 500 && self.0 < 600
    }

    /// The display form of the status: its code in decimal.
    pub fn to_string(&self) -> (r: String)
        ensures
            r@ == decimal(self.code() as nat),
    {
        let mut s = String::new();
        write_decimal(self.0 as u64, &mut s);
        s
    }
}

impl From<u16> for Status {
    fn from(code: u16) -> (r: Status)
        ensures
            r.code() == code,
    {
        Status::new(code)
    }
}

impl vstd::std_specs::convert::FromSpecImpl<u16> for Status {
    open spec fn obeys_from_spec() -> bool {
        true
    }

    closed spec fn from_spec(code: u16) -> Status {
        Status(code)
    }
}

/// A status code falls in at most one class, and codes in `100..600` fall in
/// exactly one.
pub proof fn lemma_status_classes_partition(s: Status)
    ensures
        (100 <= s.code() < 200) as int + (200 <= s.code() < 300) as int + (300 <= s.code() < 400) as int
            + (400 <= s.code() < 500) as int + (500 <= s.code() < 600) as int
            == if 100 <= s.code() < 600 { 1int } else { 0int },
{
}

} // verus!
