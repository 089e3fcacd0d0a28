//! The decisions behind the code a declaration expands to: how each
//! configuration entry is assigned, how routes are registered and their
//! handler chains wrapped, how a request body is read, and what the
//! generated servers do with request paths at run time.

use vstd::prelude::*;

use crate::dsl::config::{custom_error_name, is_custom_error, ConfigEntry, EntryView, CONFIG_FIELD_BAD_REQUEST_ERROR};
use crate::dsl::endpoint::{lemma_collapse_shape, no_double_slash};
use crate::dsl::grammar::{lemma_route_keywords_round_trip, response_body_word, route_method_word, RequestBodyKind, ResponseBodyKind};
use crate::dsl::path::{collapse_slashes, trim_start_slashes};
use crate::dsl::server::HttpMethod;
use crate::runtime::route::HttpMethod as RouteMethod;
use crate::text::{ascii_lower, chars_of, owned, push_char, string_from_chars, text_eq};

verus! {

/// How a custom error response is turned into an HTTP response.
#[derive(Debug, Clone, Copy, PartialEq, Eq, Structural)]
pub enum Responder {
    Json,
    Text,
    Html,
    /// An empty `500 Internal Server Error`.
    Empty,
}

/// The responder a custom error's callee names.
pub open spec fn responder_of(callee: Option<Seq<char>>) -> Responder {
    match callee {
        Some(c) => if c == "Json"@ || c == "json"@ {
            Responder::Json
        } else if c == "Text"@ || c == "String"@ || c == "text"@ || c == "string"@ {
            Responder::Text
        } else if c == "Html"@ || c == "html"@ {
            Responder::Html
        } else {
            Responder::Empty
        },
        None => Responder::Empty,
    }
}

/// How a configuration entry is assigned in the generated code.
#[derive(Debug, Clone, Copy, PartialEq, Eq, Structural)]
pub enum ConfigAssignment {
    /// The value converted into the field's type.
    Value,
    /// A custom error: a function making the response with `responder`;
    /// for `bad_request_error` it takes the refusal text.
    ErrorResponse { responder: Responder, takes_message: bool },
}

/// How the entry `name` whose value calls `callee` is assigned.
pub open spec fn assignment_of(name: Seq<char>, callee: Option<Seq<char>>) -> ConfigAssignment {
    if custom_error_name(name) {
        ConfigAssignment::ErrorResponse { responder: responder_of(callee), takes_message: name == "bad_request_error"@ }
    } else {
        ConfigAssignment::Value
    }
}

/// The refusal when a custom error names a responder but gives it no
/// response to send.
pub open spec fn missing_response_text(name: Seq<char>, responder: Responder) -> Seq<char> {
    let form = match responder {
        Responder::Json => "`json(g_server::Response<T: ::serde::Serialize>)`"@,
        Responder::Text => "`text(g_server::Response<T: Display>)`, or `string(...)`"@,
        _ => "`html(g_server::Response<T: Display>)`"@,
    };
    "root config field `"@ + name + "` requires value of "@ + form
}

fn responder_from(callee: Option<&str>) -> (r: Responder)
    ensures
        r == responder_of(match callee {
            Some(c) => Some(c@),
            None => None,
        }),
{
    match callee {
        Some(c) => if text_eq(c, "Json") || text_eq(c, "json") {
            Responder::Json
        } else if text_eq(c, "Text") || text_eq(c, "String") || text_eq(c, "text") || text_eq(c, "string") {
            Responder::Text
        } else if text_eq(c, "Html") || text_eq(c, "html") {
            Responder::Html
        } else {
            Responder::Empty
        },
        None => Responder::Empty,
    }
}

/// How the configuration entry `name` is assigned: `callee` is the
/// identifier the value calls, if it is a call of a single identifier, and
/// `has_argument` whether that call has an argument. A custom error that
/// names a responder must give it the response as argument.
pub fn config_assignment(name: &str, callee: Option<&str>, has_argument: bool) -> (r: Result<ConfigAssignment, String>)
    ensures
        ({
            let c = match callee {
                Some(c) => Some(c@),
                None => None,
            };
            let a = assignment_of(name@, c);
            match a {
                ConfigAssignment::ErrorResponse { responder, .. } => if responder != Responder::Empty && !has_argument {
                    r matches Err(m) && m@ == missing_response_text(name@, responder)
                } else {
                    r == Ok::<ConfigAssignment, String>(a)
                },
                ConfigAssignment::Value => r == Ok::<ConfigAssignment, String>(a),
            }
        }),
{
    if !is_custom_error(name) {
        return Ok(ConfigAssignment::Value);
    }
    let responder = responder_from(callee);
    let takes_message = text_eq(name, CONFIG_FIELD_BAD_REQUEST_ERROR);
    let empty = match responder {
        Responder::Empty => true,
        _ => false,
    };
    if !empty && !has_argument {
        let mut m = owned("root config field `");
        m.append(name);
        m.append("` requires value of ");
        match responder {
            Responder::Json => m.append("`json(g_server::Response<T: ::serde::Serialize>)`"),
            Responder::Text => m.append("`text(g_server::Response<T: Display>)`, or `string(...)`"),
            _ => m.append("`html(g_server::Response<T: Display>)`"),
        }
        return Err(m);
    }
    Ok(ConfigAssignment::ErrorResponse { responder, takes_message })
}

/// Whether a configuration block has an entry named `name`.
pub open spec fn has_entry<V>(cfg: Seq<EntryView<V>>, name: Seq<char>) -> bool {
    exists|i: int| 0 <= i < cfg.len() && (#[trigger] cfg[i]).name == name
}

/// Whether the configuration holds an entry named `name`.
pub fn config_has<V>(cfg: &Vec<ConfigEntry<V>>, name: &str) -> (r: bool)
    ensures
        r == has_entry(crate::dsl::route::entries_view(cfg@), name@),
{
    let ghost ev = crate::dsl::route::entries_view(cfg@);
    let mut i: usize = 0;
    while i < cfg.len()
        invariant
            i <= cfg.len(),
            ev == crate::dsl::route::entries_view(cfg@),
            ev.len() == cfg.len(),
            forall|j: int| 0 <= j < i ==> (#[trigger] ev[j]).name != name@,
        decreases cfg.len() - i,
    {
        assert(ev[i as int] == cfg@[i as int]@);
        if text_eq(cfg[i].name.as_str(), name) {
            return true;
        }
        i += 1;
    }
    false
}

/// How a route handler reads its inputs: checked inputs hand refusals to
/// the route's `bad_request_error` response instead of the framework's
/// own rejection; `body` is the request body kind, if any.
#[derive(Debug, Clone, Copy, PartialEq, Eq, Structural)]
pub struct Extraction {
    pub checked: bool,
    pub body: Option<RequestBodyKind>,
}

/// How the inputs of a route with configuration `cfg` and request body
/// `body` are read.
pub fn input_extraction<V>(cfg: &Vec<ConfigEntry<V>>, body: Option<RequestBodyKind>) -> (r: Extraction)
    ensures
        r.checked == has_entry(crate::dsl::route::entries_view(cfg@), "bad_request_error"@),
        r.body == body,
{
    Extraction { checked: config_has(cfg, CONFIG_FIELD_BAD_REQUEST_ERROR), body }
}

/// The routing function a method is registered with: the method's name in
/// lower case, except `query`, which is served as `get`.
pub open spec fn routing_name(m: HttpMethod) -> Seq<char> {
    match m {
        HttpMethod::Get => "get"@,
        HttpMethod::Post => "post"@,
        HttpMethod::Put => "put"@,
        HttpMethod::Patch => "patch"@,
        HttpMethod::Delete => "delete"@,
        HttpMethod::Options => "options"@,
        HttpMethod::Head => "head"@,
        HttpMethod::Trace => "trace"@,
        HttpMethod::Query => "get"@,
        HttpMethod::Any => "any"@,
    }
}

pub fn routing_function(m: HttpMethod) -> (r: &'static str)
    ensures
        r@ == routing_name(m),
{
    match m {
        HttpMethod::Get => "get",
        HttpMethod::Post => "post",
        HttpMethod::Put => "put",
        HttpMethod::Patch => "patch",
        HttpMethod::Delete => "delete",
        HttpMethod::Options => "options",
        HttpMethod::Head => "head",
        HttpMethod::Trace => "trace",
        HttpMethod::Query => "get",
        HttpMethod::Any => "any",
    }
}

/// Each route is registered with the routing function of its own method:
/// the method's name in lower case, `query` being served as `get`. Read
/// back as a route keyword, the routing function gives the method, so no
/// two methods other than `query` share one.
pub proof fn lemma_routing_functions(m: HttpMethod, n: HttpMethod)
    ensures
        m != HttpMethod::Query ==> routing_name(m) == ascii_lower(m.name()),
        routing_name(HttpMethod::Query) == routing_name(HttpMethod::Get),
        m != HttpMethod::Query ==> route_method_word(routing_name(m)) == Some(m),
        m != HttpMethod::Query && n != HttpMethod::Query && routing_name(m) == routing_name(n) ==> m == n,
{
    reveal_strlit("GET");
    reveal_strlit("get");
    reveal_strlit("POST");
    reveal_strlit("post");
    reveal_strlit("PUT");
    reveal_strlit("put");
    reveal_strlit("PATCH");
    reveal_strlit("patch");
    reveal_strlit("DELETE");
    reveal_strlit("delete");
    reveal_strlit("OPTIONS");
    reveal_strlit("options");
    reveal_strlit("HEAD");
    reveal_strlit("head");
    reveal_strlit("TRACE");
    reveal_strlit("trace");
    reveal_strlit("QUERY");
    reveal_strlit("query");
    reveal_strlit("ANY");
    reveal_strlit("any");
    match m {
        HttpMethod::Get => {
            assert(ascii_lower("GET"@) =~= "get"@);
        },
        HttpMethod::Post => {
            assert(ascii_lower("POST"@) =~= "post"@);
        },
        HttpMethod::Put => {
            assert(ascii_lower("PUT"@) =~= "put"@);
        },
        HttpMethod::Patch => {
            assert(ascii_lower("PATCH"@) =~= "patch"@);
        },
        HttpMethod::Delete => {
            assert(ascii_lower("DELETE"@) =~= "delete"@);
        },
        HttpMethod::Options => {
            assert(ascii_lower("OPTIONS"@) =~= "options"@);
        },
        HttpMethod::Head => {
            assert(ascii_lower("HEAD"@) =~= "head"@);
        },
        HttpMethod::Trace => {
            assert(ascii_lower("TRACE"@) =~= "trace"@);
        },
        HttpMethod::Query => {
            assert(ascii_lower("QUERY"@) =~= "query"@);
        },
        HttpMethod::Any => {
            assert(ascii_lower("ANY"@) =~= "any"@);
        },
    }
    match n {
        HttpMethod::Get => {
            assert(ascii_lower("GET"@) =~= "get"@);
        },
        HttpMethod::Post => {
            assert(ascii_lower("POST"@) =~= "post"@);
        },
        HttpMethod::Put => {
            assert(ascii_lower("PUT"@) =~= "put"@);
        },
        HttpMethod::Patch => {
            assert(ascii_lower("PATCH"@) =~= "patch"@);
        },
        HttpMethod::Delete => {
            assert(ascii_lower("DELETE"@) =~= "delete"@);
        },
        HttpMethod::Options => {
            assert(ascii_lower("OPTIONS"@) =~= "options"@);
        },
        HttpMethod::Head => {
            assert(ascii_lower("HEAD"@) =~= "head"@);
        },
        HttpMethod::Trace => {
            assert(ascii_lower("TRACE"@) =~= "trace"@);
        },
        HttpMethod::Query => {
            assert(ascii_lower("QUERY"@) =~= "query"@);
        },
        HttpMethod::Any => {
            assert(ascii_lower("ANY"@) =~= "any"@);
        },
    }
    lemma_route_keywords_round_trip(m);
    lemma_route_keywords_round_trip(n);
}

/// A custom error is answered by the responder its callee names, and the
/// callee words mean what they mean as a route's response body: `Json`
/// and `json` answer with JSON, the text words with plain text, the HTML
/// words with HTML, and anything else, or no call at all, with an empty
/// `500`. Every other entry is assigned as a plain value.
pub proof fn lemma_error_responders(name: Seq<char>, callee: Option<Seq<char>>)
    ensures
        custom_error_name(name) ==> assignment_of(name, callee) == (ConfigAssignment::ErrorResponse {
            responder: match callee {
                Some(c) => match response_body_word(c) {
                    Some(ResponseBodyKind::Json) => Responder::Json,
                    Some(ResponseBodyKind::String) => Responder::Text,
                    Some(ResponseBodyKind::Html) => Responder::Html,
                    _ => Responder::Empty,
                },
                None => Responder::Empty,
            },
            takes_message: name == "bad_request_error"@,
        }),
        !custom_error_name(name) ==> assignment_of(name, callee) == ConfigAssignment::Value,
{
}

/// The runtime method a declared route carries.
pub open spec fn runtime_method_of(m: HttpMethod) -> RouteMethod {
    match m {
        HttpMethod::Get => RouteMethod::Get,
        HttpMethod::Post => RouteMethod::Post,
        HttpMethod::Put => RouteMethod::Put,
        HttpMethod::Patch => RouteMethod::Patch,
        HttpMethod::Delete => RouteMethod::Delete,
        HttpMethod::Options => RouteMethod::Options,
        HttpMethod::Head => RouteMethod::Head,
        HttpMethod::Trace => RouteMethod::Trace,
        HttpMethod::Query => RouteMethod::Query,
        HttpMethod::Any => RouteMethod::Any,
    }
}

/// A declared route carries the runtime method its name reads as when a
/// request of that method comes in; `any` carries `Any`.
pub proof fn lemma_runtime_methods(m: HttpMethod)
    ensures
        runtime_method_of(m) == RouteMethod::from_name_spec(m.name()),
{
    reveal_strlit("HEAD");
    reveal_strlit("GET");
    reveal_strlit("POST");
    reveal_strlit("PUT");
    reveal_strlit("PATCH");
    reveal_strlit("DELETE");
    reveal_strlit("OPTIONS");
    reveal_strlit("TRACE");
    reveal_strlit("QUERY");
    reveal_strlit("CONNECT");
    reveal_strlit("ANY");
    match m {
        HttpMethod::Get => {
            assert("GET"@.len() != "HEAD"@.len());
        },
        HttpMethod::Post => {
            assert("POST"@[0] != "HEAD"@[0]);
            assert("POST"@.len() != "GET"@.len());
        },
        HttpMethod::Put => {
            assert("PUT"@.len() != "HEAD"@.len());
            assert("PUT"@[0] != "GET"@[0]);
            assert("PUT"@.len() != "POST"@.len());
        },
        HttpMethod::Patch => {
            assert("PATCH"@.len() != "HEAD"@.len());
            assert("PATCH"@.len() != "GET"@.len());
            assert("PATCH"@.len() != "POST"@.len());
            assert("PATCH"@.len() != "PUT"@.len());
        },
        HttpMethod::Delete => {
            assert("DELETE"@.len() != "HEAD"@.len());
            assert("DELETE"@.len() != "GET"@.len());
            assert("DELETE"@.len() != "POST"@.len());
            assert("DELETE"@.len() != "PUT"@.len());
            assert("DELETE"@.len() != "PATCH"@.len());
        },
        HttpMethod::Options => {
            assert("OPTIONS"@.len() != "HEAD"@.len());
            assert("OPTIONS"@.len() != "GET"@.len());
            assert("OPTIONS"@.len() != "POST"@.len());
            assert("OPTIONS"@.len() != "PUT"@.len());
            assert("OPTIONS"@.len() != "PATCH"@.len());
            assert("OPTIONS"@.len() != "DELETE"@.len());
        },
        HttpMethod::Head => {},
        HttpMethod::Trace => {
            assert("TRACE"@.len() != "HEAD"@.len());
            assert("TRACE"@.len() != "GET"@.len());
            assert("TRACE"@.len() != "POST"@.len());
            assert("TRACE"@.len() != "PUT"@.len());
            assert("TRACE"@[0] != "PATCH"@[0]);
            assert("TRACE"@.len() != "DELETE"@.len());
            assert("TRACE"@.len() != "OPTIONS"@.len());
        },
        HttpMethod::Query => {
            assert("QUERY"@.len() != "HEAD"@.len());
            assert("QUERY"@.len() != "GET"@.len());
            assert("QUERY"@.len() != "POST"@.len());
            assert("QUERY"@.len() != "PUT"@.len());
            assert("QUERY"@[0] != "PATCH"@[0]);
            assert("QUERY"@.len() != "DELETE"@.len());
            assert("QUERY"@.len() != "OPTIONS"@.len());
            assert("QUERY"@[0] != "TRACE"@[0]);
        },
        HttpMethod::Any => {
            assert("ANY"@.len() != "HEAD"@.len());
            assert("ANY"@[0] != "GET"@[0]);
            assert("ANY"@.len() != "POST"@.len());
            assert("ANY"@[0] != "PUT"@[0]);
            assert("ANY"@.len() != "PATCH"@.len());
            assert("ANY"@.len() != "DELETE"@.len());
            assert("ANY"@.len() != "OPTIONS"@.len());
            assert("ANY"@.len() != "TRACE"@.len());
            assert("ANY"@.len() != "QUERY"@.len());
            assert("ANY"@.len() != "CONNECT"@.len());
        },
    }
}

pub fn runtime_method(m: HttpMethod) -> (r: RouteMethod)
    ensures
        r == runtime_method_of(m),
{
    match m {
        HttpMethod::Get => RouteMethod::Get,
        HttpMethod::Post => RouteMethod::Post,
        HttpMethod::Put => RouteMethod::Put,
        HttpMethod::Patch => RouteMethod::Patch,
        HttpMethod::Delete => RouteMethod::Delete,
        HttpMethod::Options => RouteMethod::Options,
        HttpMethod::Head => RouteMethod::Head,
        HttpMethod::Trace => RouteMethod::Trace,
        HttpMethod::Query => RouteMethod::Query,
        HttpMethod::Any => RouteMethod::Any,
    }
}

/// The order in which the middlewares of a chain wrap the handler: the
/// last declared wraps first, so that the first declared runs first.
pub fn wrapping_order<M: Copy>(middlewares: &Vec<M>) -> (r: Vec<M>)
    ensures
        r@ == middlewares@.reverse(),
{
    let mut out: Vec<M> = Vec::new();
    let mut i: usize = middlewares.len();
    while i > 0
        invariant
            i <= middlewares.len(),
            out@ == middlewares@.subrange(i as int, middlewares.len() as int).reverse(),
        decreases i,
    {
        i -= 1;
        out.push(middlewares[i]);
        assert(middlewares@.subrange(i as int, middlewares.len() as int)
            == seq![middlewares@[i as int]] + middlewares@.subrange(i + 1, middlewares.len() as int));
        assert(out@ =~= middlewares@.subrange(i as int, middlewares.len() as int).reverse());
    }
    assert(middlewares@.subrange(0, middlewares.len() as int) == middlewares@);
    out
}

// ------------------------------------------------------------------
// Request paths at run time
// ------------------------------------------------------------------

/// Whether a request path is redirected: it is not the root and it ends
/// in `/` or holds `//`.
pub open spec fn needs_redirect(path: Seq<char>) -> bool {
    path != "/"@ && ((path.len() > 0 && path.last() == '/') || !no_double_slash(path))
}

/// The normal form of a request path: runs of `/` collapsed, and one
/// trailing `/` removed unless the path is the root.
pub open spec fn normal_path(path: Seq<char>) -> Seq<char> {
    let c = collapse_slashes(path);
    if c.len() > 1 && c.last() == '/' {
        c.drop_last()
    } else {
        c
    }
}

/// Where a request for `path` with `query` is permanently redirected, if
/// anywhere: the normal path, with `?` and the query when there is one.
pub open spec fn redirect_of(path: Seq<char>, query: Option<Seq<char>>) -> Option<Seq<char>> {
    if needs_redirect(path) {
        Some(normal_path(path) + match query {
            Some(q) => seq!['?'] + q,
            None => Seq::<char>::empty(),
        })
    } else {
        None
    }
}

fn has_double_slash(v: &Vec<char>) -> (r: bool)
    ensures
        r == !no_double_slash(v@),
{
    if v.len() < 2 {
        return false;
    }
    let mut i: usize = 0;
    while i + 1 < v.len()
        invariant
            v.len() >= 2,
            i + 1 <= v.len(),
            forall|k: int| 0 <= k < i ==> !(#[trigger] v@[k] == '/' && v@[k + 1] == '/'),
        decreases v.len() - i,
    {
        if v[i] == '/' && v[i + 1] == '/' {
            return true;
        }
        i += 1;
    }
    false
}

/// The redirect for a request path (see [`redirect_of`]).
pub fn redirect_target(path: &str, query: Option<&str>) -> (r: Option<String>)
    ensures
        match r {
            Some(t) => redirect_of(path@, match query {
                Some(q) => Some(q@),
                None => None,
            }) == Some(t@),
            None => redirect_of(path@, match query {
                Some(q) => Some(q@),
                None => None,
            }) is None,
        },
{
    let v = chars_of(path);
    let ends_slash = v.len() > 0 && v[v.len() - 1] == '/';
    if text_eq(path, "/") || (!ends_slash && !has_double_slash(&v)) {
        return None;
    }
    let mut out: Vec<char> = Vec::new();
    let mut i: usize = 0;
    while i < v.len()
        invariant
            i <= v.len(),
            v@ == path@,
            out@ == collapse_slashes(v@.take(i as int)),
        decreases v.len() - i,
    {
        assert(v@.take(i + 1).drop_last() == v@.take(i as int));
        let c = v[i];
        if c == '/' && out.len() > 0 && out[out.len() - 1] == '/' {
        } else {
            out.push(c);
        }
        i += 1;
    }
    assert(v@.take(v.len() as int) == v@);
    if out.len() > 1 && out[out.len() - 1] == '/' {
        out.pop();
    }
    let mut t = string_from_chars(&out);
    match query {
        Some(q) => {
            push_char(&mut t, '?');
            t.append(q);
        },
        None => {},
    }
    Some(t)
}

/// A redirected request lands on a path that is not redirected again.
pub proof fn lemma_redirect_settles(path: Seq<char>)
    requires
        needs_redirect(path),
    ensures
        !needs_redirect(normal_path(path)),
{
    lemma_collapse_shape(path);
    let c = collapse_slashes(path);
    let n = normal_path(path);
    if c.len() > 1 && c.last() == '/' {
        assert(c[c.len() - 2] != '/');
        assert(n.last() == c[c.len() - 2]);
        assert forall|i: int| 0 <= i < n.len() - 1 implies !(#[trigger] n[i] == '/' && n[i + 1] == '/') by {
            assert(n[i] == c[i] && n[i + 1] == c[i + 1]);
        }
    } else if c.len() == 1 && c[0] == '/' {
        reveal_strlit("/");
        assert(n =~= "/"@);
    }
}

/// The path of an embedded file a request asks for: the request path
/// without the route's endpoint in front (when it starts with it) and
/// without leading `/`.
pub open spec fn embedded_path(uri_path: Seq<char>, endpoint: Seq<char>) -> Seq<char> {
    if endpoint.is_prefix_of(uri_path) {
        trim_start_slashes(uri_path.subrange(endpoint.len() as int, uri_path.len() as int))
    } else {
        trim_start_slashes(uri_path)
    }
}

/// The embedded file path for a request (see [`embedded_path`]).
pub fn embedded_file_path(uri_path: &str, endpoint: &str) -> (r: String)
    ensures
        r@ == embedded_path(uri_path@, endpoint@),
{
    let p = chars_of(uri_path);
    let e = chars_of(endpoint);
    let mut prefix = e.len() <= p.len();
    let mut i: usize = 0;
    while prefix && i < e.len()
        invariant
            i <= e.len(),
            p@ == uri_path@,
            e@ == endpoint@,
            prefix ==> e.len() <= p.len(),
            prefix ==> forall|k: int| 0 <= k < i ==> e@[k] == p@[k],
            !prefix ==> !e@.is_prefix_of(p@),
        decreases e.len() - i,
    {
        if e[i] != p[i] {
            prefix = false;
        }
        i += 1;
    }
    let start: usize = if prefix { e.len() } else { 0 };
    let ghost rest = p@.subrange(start as int, p.len() as int);
    assert(prefix ==> e@.is_prefix_of(p@));
    assert(!prefix ==> rest == p@);
    let mut j: usize = start;
    while j < p.len() && p[j] == '/'
        invariant
            start <= j <= p.len(),
            trim_start_slashes(rest) == trim_start_slashes(p@.subrange(j as int, p.len() as int)),
        decreases p.len() - j,
    {
        assert(p@.subrange(j as int, p.len() as int).drop_first() == p@.subrange(j + 1, p.len() as int));
        j += 1;
    }
    let mut out: Vec<char> = Vec::new();
    let mut k: usize = j;
    while k < p.len()
        invariant
            j <= k <= p.len(),
            out@ == p@.subrange(j as int, k as int),
        decreases p.len() - k,
    {
        out.push(p[k]);
        k += 1;
    }
    string_from_chars(&out)
}

/// What a request for an embedded file is answered with.
#[derive(Debug, Clone, Copy)]
pub enum FileAnswer {
    /// The file asked for.
    File,
    /// The configured fallback file.
    Fallback,
    /// `404 Not Found` with the text given.
    NotFound(&'static str),
}

/// The answer to a request for an embedded file: the file when it exists;
/// otherwise the configured fallback file when it exists; otherwise
/// `404 Not Found`.
pub open spec fn file_answer_of(found: bool, fallback_configured: bool, fallback_found: bool) -> (Option<FileAnswer>, Seq<char>) {
    if found {
        (Some(FileAnswer::File), Seq::empty())
    } else if fallback_configured && fallback_found {
        (Some(FileAnswer::Fallback), Seq::empty())
    } else if fallback_configured {
        (None, "g-server: fallback file's fallback file not found"@)
    } else {
        (None, "g-server: file not found"@)
    }
}

pub fn file_answer(found: bool, fallback_configured: bool, fallback_found: bool) -> (r: FileAnswer)
    ensures
        ({
            let (a, text) = file_answer_of(found, fallback_configured, fallback_found);
            match a {
                Some(x) => r == x,
                None => r matches FileAnswer::NotFound(t) && t@ == text,
            }
        }),
{
    if found {
        FileAnswer::File
    } else if fallback_configured && fallback_found {
        FileAnswer::Fallback
    } else if fallback_configured {
        FileAnswer::NotFound("g-server: fallback file's fallback file not found")
    } else {
        FileAnswer::NotFound("g-server: file not found")
    }
}

/// A file that exists is served, whatever the fallback configuration; the
/// fallback is served only for a missing file when it is configured and
/// exists; otherwise the answer is `404 Not Found`.
pub proof fn lemma_file_answers(found: bool, fallback_configured: bool, fallback_found: bool)
    ensures
        found ==> file_answer_of(found, fallback_configured, fallback_found).0 == Some(FileAnswer::File),
        file_answer_of(found, fallback_configured, fallback_found).0 == Some(FileAnswer::File) ==> found,
        (file_answer_of(found, fallback_configured, fallback_found).0 == Some(FileAnswer::Fallback))
            == (!found && fallback_configured && fallback_found),
        (file_answer_of(found, fallback_configured, fallback_found).0 is None)
            == (!found && !(fallback_configured && fallback_found)),
{
}

} // verus!
