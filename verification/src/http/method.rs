use vstd::prelude::*;

use crate::text::text_eq;

verus! {

/// An HTTP request method.
#[derive(Debug, Clone, Copy, PartialEq, Eq, Structural, Hash)]
pub enum Method {
    Get,
    Post,
    Put,
    Patch,
    Delete,
    Head,
    Options,
    Connect,
    Trace,
    Query,
    Any,
}

impl Method {
    /// The canonical textual form of a method; `Any` is written `*`.
    pub open spec fn name(self) -> Seq<char> {
        match self {
            Method::Get => "GET"@,
            Method::Post => "POST"@,
            Method::Put => "PUT"@,
            Method::Patch => "PATCH"@,
            Method::Delete => "DELETE"@,
            Method::Head => "HEAD"@,
            Method::Options => "OPTIONS"@,
            Method::Connect => "CONNECT"@,
            Method::Trace => "TRACE"@,
            Method::Query => "QUERY"@,
            Method::Any => "*"@,
        }
    }

    pub fn as_str(&self) -> (r: &'static str)
        ensures
            r@ == self.name(),
    {
        match self {
            Method::Get => "GET",
            Method::Post => "POST",
            Method::Put => "PUT",
            Method::Patch => "PATCH",
            Method::Delete => "DELETE",
            Method::Head => "HEAD",
            Method::Options => "OPTIONS",
            Method::Connect => "CONNECT",
            Method::Trace => "TRACE",
            Method::Query => "QUERY",
            Method::Any => "*",
        }
    }

    /// The display form of the method, the same text as [`Method::as_str`].
    pub fn to_string(&self) -> (r: String)
        ensures
            r@ == self.name(),
    {
        String::from_str(self.as_str())
    }

    pub fn is_get(&self) -> (r: bool)
        ensures
            r <==> *self == Method::Get,
    {
        matches!(self, Method::Get)
    }

    pub fn is_post(&self) -> (r: bool)
        ensures
            r <==> *self == Method::Post,
    {
        matches!(self, Method::Post)
    }

    pub fn is_put(&self) -> (r: bool)
        ensures
            r <==> *self == Method::Put,
    {
        matches!(self, Method::Put)
    }

    pub fn is_patch(&self) -> (r: bool)
        ensures
            r <==> *self == Method::Patch,
    {
        matches!(self, Method::Patch)
    }

    pub fn is_delete(&self) -> (r: bool)
        ensures
            r <==> *self == Method::Delete,
    {
        matches!(self, Method::Delete)
    }

    pub fn is_head(&self) -> (r: bool)
        ensures
            r <==> *self == Method::Head,
    {
        matches!(self, Method::Head)
    }

    pub fn is_options(&self) -> (r: bool)
        ensures
            r <==> *self == Method::Options,
    {
        matches!(self, Method::Options)
    }

    pub fn is_connect(&self) -> (r: bool)
        ensures
            r <==> *self == Method::Connect,
    {
        matches!(self, Method::Connect)
    }

    pub fn is_trace(&self) -> (r: bool)
        ensures
            r <==> *self == Method::Trace,
    {
        matches!(self, Method::Trace)
    }

    pub fn is_query(&self) -> (r: bool)
        ensures
            r <==> *self == Method::Query,
    {
        matches!(self, Method::Query)
    }
}

/// The method a request names: the standard methods by their upper-case
/// names; any other name is `Any`.
pub open spec fn method_named(name: Seq<char>) -> Method {
    if name == "GET"@ {
        Method::Get
    } else if name == "POST"@ {
        Method::Post
    } else if name == "PUT"@ {
        Method::Put
    } else if name == "PATCH"@ {
        Method::Patch
    } else if name == "DELETE"@ {
        Method::Delete
    } else if name == "HEAD"@ {
        Method::Head
    } else if name == "OPTIONS"@ {
        Method::Options
    } else if name == "CONNECT"@ {
        Method::Connect
    } else if name == "TRACE"@ {
        Method::Trace
    } else if name == "QUERY"@ {
        Method::Query
    } else {
        Method::Any
    }
}

impl Method {
    /// The method of a request, given by the name it carries.
    pub fn from_name(name: &str) -> (r: Method)
        ensures
            r == method_named(name@),
    {
        if text_eq(name, "GET") {
            Method::Get
        } else if text_eq(name, "POST") {
            Method::Post
        } else if text_eq(name, "PUT") {
            Method::Put
        } else if text_eq(name, "PATCH") {
            Method::Patch
        } else if text_eq(name, "DELETE") {
            Method::Delete
        } else if text_eq(name, "HEAD") {
            Method::Head
        } else if text_eq(name, "OPTIONS") {
            Method::Options
        } else if text_eq(name, "CONNECT") {
            Method::Connect
        } else if text_eq(name, "TRACE") {
            Method::Trace
        } else if text_eq(name, "QUERY") {
            Method::Query
        } else {
            Method::Any
        }
    }
}

/// Reading a method back from its name gives the method, for every method
/// but `Any`, whose name `*` reads as `Any` too.
pub proof fn lemma_method_name_round_trip(m: Method)
    ensures
        method_named(m.name()) == m,
{
    reveal_strlit("GET");
    reveal_strlit("POST");
    reveal_strlit("PUT");
    reveal_strlit("PATCH");
    reveal_strlit("DELETE");
    reveal_strlit("HEAD");
    reveal_strlit("OPTIONS");
    reveal_strlit("CONNECT");
    reveal_strlit("TRACE");
    reveal_strlit("QUERY");
    reveal_strlit("*");
    let n = m.name();
    assert(n.len() > 0);
    assert(n[0] != "GET"@[0] ==> n != "GET"@);
    assert(n[0] != "POST"@[0] ==> n != "POST"@);
    assert(n[0] != "PUT"@[0] ==> n != "PUT"@);
    assert(n[0] != "PATCH"@[0] ==> n != "PATCH"@);
    assert(n[0] != "DELETE"@[0] ==> n != "DELETE"@);
    assert(n[0] != "HEAD"@[0] ==> n != "HEAD"@);
    assert(n[0] != "OPTIONS"@[0] ==> n != "OPTIONS"@);
    assert(n[0] != "CONNECT"@[0] ==> n != "CONNECT"@);
    assert(n[0] != "TRACE"@[0] ==> n != "TRACE"@);
    assert(n[0] != "QUERY"@[0] ==> n != "QUERY"@);
    assert(n.len() > 1 && n[1] != "POST"@[1] ==> n != "POST"@);
    assert(n.len() > 1 && n[1] != "PUT"@[1] ==> n != "PUT"@);
    assert(n.len() > 1 && n[1] != "PATCH"@[1] ==> n != "PATCH"@);
}

} // verus!
