//! The keywords of a declaration: which word opens which part, which parts
//! a route or group must hold, and the text of each refusal.

use vstd::prelude::*;

use crate::dsl::server::{HttpMethod, ServerKind};
use crate::runtime::route::HttpMethod as RouteMethod;
use crate::text::{ascii_lower, ascii_upper, owned, text_eq};

verus! {

/// A refused word or a missing part of a declaration.
#[derive(Debug)]
pub enum GrammarError {
    /// A server opens with a word other than `http` or `mcp`.
    ServerKind,
    /// A server body holds an unknown key.
    ServerMember,
    /// A route holds an unknown key.
    RouteMember,
    /// A group holds an unknown key.
    GroupKey,
    /// A group's `members` list holds an unknown key.
    GroupMemberKey,
    /// A `request_body` names an unknown kind.
    RequestBody,
    /// A `response_body` names an unknown kind.
    ResponseBody,
    /// A `cors` block holds the unknown option named here.
    CorsOption(String),
    /// A CORS method list holds a word that names no method.
    CorsMethod,
    /// A route without `endpoint`.
    MissingEndpoint,
    /// A group without `prefix`.
    MissingPrefix,
    /// A group whose `members` list is empty or absent.
    NoMembers,
    /// An `mcp` server, which the expansion does not serve yet.
    McpNotImplemented,
}

/// The text of a refusal.
pub open spec fn grammar_error_text(e: GrammarError) -> Seq<char> {
    match e {
        GrammarError::ServerKind => "expected `http`, `sse`, `ws`, or `mcp`"@,
        GrammarError::ServerMember => "unexpected server member"@,
        GrammarError::RouteMember => "unexpected route member"@,
        GrammarError::GroupKey => "unexpected group key"@,
        GrammarError::GroupMemberKey => "unexpected group member key"@,
        GrammarError::RequestBody => "expected `String`, `Json(Type)`, or `Form(Type)`"@,
        GrammarError::ResponseBody => "supported response body type: json, string/text, html"@,
        GrammarError::CorsOption(field) => "unknown CORS option `"@ + field@ + "`"@,
        GrammarError::CorsMethod => "invalid CORS HTTP method"@,
        GrammarError::MissingEndpoint => "route requires mandatory field `endpoint`"@,
        GrammarError::MissingPrefix => "group requires mandatory field `prefix`"@,
        GrammarError::NoMembers => "group must have atleast 1 member"@,
        GrammarError::McpNotImplemented => "`mcp` server is not implemented yet"@,
    }
}

impl GrammarError {
    /// The text of the refusal.
    pub fn message(&self) -> (r: String)
        ensures
            r@ == grammar_error_text(*self),
    {
        match self {
            GrammarError::ServerKind => owned("expected `http`, `sse`, `ws`, or `mcp`"),
            GrammarError::ServerMember => owned("unexpected server member"),
            GrammarError::RouteMember => owned("unexpected route member"),
            GrammarError::GroupKey => owned("unexpected group key"),
            GrammarError::GroupMemberKey => owned("unexpected group member key"),
            GrammarError::RequestBody => owned("expected `String`, `Json(Type)`, or `Form(Type)`"),
            GrammarError::ResponseBody => owned("supported response body type: json, string/text, html"),
            GrammarError::CorsOption(field) => {
                let mut r = owned("unknown CORS option `");
                r.append(field.as_str());
                r.append("`");
                r
            },
            GrammarError::CorsMethod => owned("invalid CORS HTTP method"),
            GrammarError::MissingEndpoint => owned("route requires mandatory field `endpoint`"),
            GrammarError::MissingPrefix => owned("group requires mandatory field `prefix`"),
            GrammarError::NoMembers => owned("group must have atleast 1 member"),
            GrammarError::McpNotImplemented => owned("`mcp` server is not implemented yet"),
        }
    }
}

/// The server kind a declaration opens with.
pub open spec fn server_kind_word(w: Seq<char>) -> Option<ServerKind> {
    if w == "http"@ {
        Some(ServerKind::Http)
    } else if w == "mcp"@ {
        Some(ServerKind::Mcp)
    } else {
        None
    }
}

/// The route method a lower-case keyword declares.
pub open spec fn route_method_word(w: Seq<char>) -> Option<HttpMethod> {
    if w == "get"@ {
        Some(HttpMethod::Get)
    } else if w == "post"@ {
        Some(HttpMethod::Post)
    } else if w == "put"@ {
        Some(HttpMethod::Put)
    } else if w == "patch"@ {
        Some(HttpMethod::Patch)
    } else if w == "delete"@ {
        Some(HttpMethod::Delete)
    } else if w == "options"@ {
        Some(HttpMethod::Options)
    } else if w == "head"@ {
        Some(HttpMethod::Head)
    } else if w == "trace"@ {
        Some(HttpMethod::Trace)
    } else if w == "query"@ {
        Some(HttpMethod::Query)
    } else if w == "any"@ {
        Some(HttpMethod::Any)
    } else {
        None
    }
}

/// Reads the word that opens a server declaration.
pub fn parse_server_kind(word: &str) -> (r: Result<ServerKind, GrammarError>)
    ensures
        r == match server_kind_word(word@) {
            Some(k) => Ok::<ServerKind, GrammarError>(k),
            None => Err(GrammarError::ServerKind),
        },
{
    if text_eq(word, "http") {
        Ok(ServerKind::Http)
    } else if text_eq(word, "mcp") {
        Ok(ServerKind::Mcp)
    } else {
        Err(GrammarError::ServerKind)
    }
}

/// Reads a lower-case route keyword.
pub fn route_method_of(word: &str) -> (r: Option<HttpMethod>)
    ensures
        r == route_method_word(word@),
{
    if text_eq(word, "get") {
        Some(HttpMethod::Get)
    } else if text_eq(word, "post") {
        Some(HttpMethod::Post)
    } else if text_eq(word, "put") {
        Some(HttpMethod::Put)
    } else if text_eq(word, "patch") {
        Some(HttpMethod::Patch)
    } else if text_eq(word, "delete") {
        Some(HttpMethod::Delete)
    } else if text_eq(word, "options") {
        Some(HttpMethod::Options)
    } else if text_eq(word, "head") {
        Some(HttpMethod::Head)
    } else if text_eq(word, "trace") {
        Some(HttpMethod::Trace)
    } else if text_eq(word, "query") {
        Some(HttpMethod::Query)
    } else if text_eq(word, "any") {
        Some(HttpMethod::Any)
    } else {
        None
    }
}

/// A key of a server body.
#[derive(Debug, Clone, Copy, PartialEq, Eq, Structural)]
pub enum ServerMember {
    Config,
    AppContext,
    Group,
    Route(HttpMethod),
}

pub open spec fn server_member_word(w: Seq<char>) -> Option<ServerMember> {
    if w == "config"@ {
        Some(ServerMember::Config)
    } else if w == "app_context"@ {
        Some(ServerMember::AppContext)
    } else if w == "group"@ {
        Some(ServerMember::Group)
    } else {
        match route_method_word(w) {
            Some(m) => Some(ServerMember::Route(m)),
            None => None,
        }
    }
}

/// Reads a key of a server body.
pub fn parse_server_member(word: &str) -> (r: Result<ServerMember, GrammarError>)
    ensures
        r == match server_member_word(word@) {
            Some(k) => Ok::<ServerMember, GrammarError>(k),
            None => Err(GrammarError::ServerMember),
        },
{
    if text_eq(word, "config") {
        Ok(ServerMember::Config)
    } else if text_eq(word, "app_context") {
        Ok(ServerMember::AppContext)
    } else if text_eq(word, "group") {
        Ok(ServerMember::Group)
    } else {
        match route_method_of(word) {
            Some(m) => Ok(ServerMember::Route(m)),
            None => Err(GrammarError::ServerMember),
        }
    }
}

/// A key of a route.
#[derive(Debug, Clone, Copy, PartialEq, Eq, Structural)]
pub enum RouteMember {
    Endpoint,
    Config,
    PathParams,
    QueryParams,
    RequestBody,
    Middlewares,
    Handler,
    ResponseBody,
}

pub open spec fn route_member_word(w: Seq<char>) -> Option<RouteMember> {
    if w == "endpoint"@ {
        Some(RouteMember::Endpoint)
    } else if w == "config"@ {
        Some(RouteMember::Config)
    } else if w == "path_params"@ {
        Some(RouteMember::PathParams)
    } else if w == "query_params"@ {
        Some(RouteMember::QueryParams)
    } else if w == "request_body"@ {
        Some(RouteMember::RequestBody)
    } else if w == "middlewares"@ {
        Some(RouteMember::Middlewares)
    } else if w == "handler"@ {
        Some(RouteMember::Handler)
    } else if w == "response_body"@ {
        Some(RouteMember::ResponseBody)
    } else {
        None
    }
}

/// Reads a key of a route.
pub fn parse_route_member(word: &str) -> (r: Result<RouteMember, GrammarError>)
    ensures
        r == match route_member_word(word@) {
            Some(k) => Ok::<RouteMember, GrammarError>(k),
            None => Err(GrammarError::RouteMember),
        },
{
    if text_eq(word, "endpoint") {
        Ok(RouteMember::Endpoint)
    } else if text_eq(word, "config") {
        Ok(RouteMember::Config)
    } else if text_eq(word, "path_params") {
        Ok(RouteMember::PathParams)
    } else if text_eq(word, "query_params") {
        Ok(RouteMember::QueryParams)
    } else if text_eq(word, "request_body") {
        Ok(RouteMember::RequestBody)
    } else if text_eq(word, "middlewares") {
        Ok(RouteMember::Middlewares)
    } else if text_eq(word, "handler") {
        Ok(RouteMember::Handler)
    } else if text_eq(word, "response_body") {
        Ok(RouteMember::ResponseBody)
    } else {
        Err(GrammarError::RouteMember)
    }
}

/// Whether the keys hold `k`.
fn holds_route_member(keys: &Vec<RouteMember>, k: RouteMember) -> (r: bool)
    ensures
        r == keys@.contains(k),
{
    let mut i: usize = 0;
    while i < keys.len()
        invariant
            i <= keys.len(),
            forall|j: int| 0 <= j < i ==> keys@[j] != k,
        decreases keys.len() - i,
    {
        if keys[i] == k {
            return true;
        }
        i += 1;
    }
    false
}

/// Checks the keys a route declared, in order: a route must name its
/// `endpoint`. On success, whether the route falls back to the default
/// handler (it names no `handler`).
pub fn check_route_members(keys: &Vec<RouteMember>) -> (r: Result<bool, GrammarError>)
    ensures
        r == if keys@.contains(RouteMember::Endpoint) {
            Ok::<bool, GrammarError>(!keys@.contains(RouteMember::Handler))
        } else {
            Err(GrammarError::MissingEndpoint)
        },
{
    if !holds_route_member(keys, RouteMember::Endpoint) {
        return Err(GrammarError::MissingEndpoint);
    }
    Ok(!holds_route_member(keys, RouteMember::Handler))
}

/// A key of a group.
#[derive(Debug, Clone, Copy, PartialEq, Eq, Structural)]
pub enum GroupKey {
    Prefix,
    Config,
    Middlewares,
    Members,
}

pub open spec fn group_key_word(w: Seq<char>) -> Option<GroupKey> {
    if w == "prefix"@ {
        Some(GroupKey::Prefix)
    } else if w == "config"@ {
        Some(GroupKey::Config)
    } else if w == "middlewares"@ {
        Some(GroupKey::Middlewares)
    } else if w == "members"@ {
        Some(GroupKey::Members)
    } else {
        None
    }
}

/// Reads a key of a group.
pub fn parse_group_key(word: &str) -> (r: Result<GroupKey, GrammarError>)
    ensures
        r == match group_key_word(word@) {
            Some(k) => Ok::<GroupKey, GrammarError>(k),
            None => Err(GrammarError::GroupKey),
        },
{
    if text_eq(word, "prefix") {
        Ok(GroupKey::Prefix)
    } else if text_eq(word, "config") {
        Ok(GroupKey::Config)
    } else if text_eq(word, "middlewares") {
        Ok(GroupKey::Middlewares)
    } else if text_eq(word, "members") {
        Ok(GroupKey::Members)
    } else {
        Err(GrammarError::GroupKey)
    }
}

/// Checks a group once its keys are read: it must name its `prefix`, and
/// its last `members` list must hold at least one member.
pub fn check_group_members(keys: &Vec<GroupKey>, member_count: usize) -> (r: Result<(), GrammarError>)
    ensures
        r == if !keys@.contains(GroupKey::Prefix) {
            Err::<(), GrammarError>(GrammarError::MissingPrefix)
        } else if member_count == 0 {
            Err(GrammarError::NoMembers)
        } else {
            Ok(())
        },
{
    let mut i: usize = 0;
    let mut has_prefix = false;
    while i < keys.len()
        invariant
            i <= keys.len(),
            !has_prefix ==> forall|j: int| 0 <= j < i ==> keys@[j] != GroupKey::Prefix,
            has_prefix ==> keys@.contains(GroupKey::Prefix),
        decreases keys.len() - i,
    {
        if keys[i] == GroupKey::Prefix {
            has_prefix = true;
            assert(keys@[i as int] == GroupKey::Prefix);
        }
        i += 1;
    }
    if !has_prefix {
        Err(GrammarError::MissingPrefix)
    } else if member_count == 0 {
        Err(GrammarError::NoMembers)
    } else {
        Ok(())
    }
}

/// A key of a group's `members` list.
#[derive(Debug, Clone, Copy, PartialEq, Eq, Structural)]
pub enum GroupMemberKey {
    Group,
    Route(HttpMethod),
}

pub open spec fn group_member_word(w: Seq<char>) -> Option<GroupMemberKey> {
    if w == "group"@ {
        Some(GroupMemberKey::Group)
    } else {
        match route_method_word(w) {
            Some(m) => Some(GroupMemberKey::Route(m)),
            None => None,
        }
    }
}

/// Reads a key of a group's `members` list.
pub fn parse_group_member_key(word: &str) -> (r: Result<GroupMemberKey, GrammarError>)
    ensures
        r == match group_member_word(word@) {
            Some(k) => Ok::<GroupMemberKey, GrammarError>(k),
            None => Err(GrammarError::GroupMemberKey),
        },
{
    if text_eq(word, "group") {
        Ok(GroupMemberKey::Group)
    } else {
        match route_method_of(word) {
            Some(m) => Ok(GroupMemberKey::Route(m)),
            None => Err(GrammarError::GroupMemberKey),
        }
    }
}

/// The kind of a route's request body. `Json` and `Form` take a type in
/// brackets after the word.
#[derive(Debug, Clone, Copy, PartialEq, Eq, Structural)]
pub enum RequestBodyKind {
    String,
    Json,
    Form,
}

pub open spec fn request_body_word(w: Seq<char>) -> Option<RequestBodyKind> {
    if w == "String"@ {
        Some(RequestBodyKind::String)
    } else if w == "Json"@ {
        Some(RequestBodyKind::Json)
    } else if w == "Form"@ {
        Some(RequestBodyKind::Form)
    } else {
        None
    }
}

/// Reads the word of a `request_body`.
pub fn parse_request_body_kind(word: &str) -> (r: Result<RequestBodyKind, GrammarError>)
    ensures
        r == match request_body_word(word@) {
            Some(k) => Ok::<RequestBodyKind, GrammarError>(k),
            None => Err(GrammarError::RequestBody),
        },
{
    if text_eq(word, "String") {
        Ok(RequestBodyKind::String)
    } else if text_eq(word, "Json") {
        Ok(RequestBodyKind::Json)
    } else if text_eq(word, "Form") {
        Ok(RequestBodyKind::Form)
    } else {
        Err(GrammarError::RequestBody)
    }
}

/// Whether a request body kind takes a type in brackets.
pub fn request_body_takes_type(kind: RequestBodyKind) -> (r: bool)
    ensures
        r == (kind != RequestBodyKind::String),
{
    match kind {
        RequestBodyKind::String => false,
        _ => true,
    }
}

/// The kind of a route's response body. `Json` takes a type in brackets
/// after the word; a route that names none answers `Json` of `()`.
#[derive(Debug, Clone, Copy, PartialEq, Eq, Structural)]
pub enum ResponseBodyKind {
    Json,
    String,
    Html,
    Empty,
}

pub open spec fn response_body_word(w: Seq<char>) -> Option<ResponseBodyKind> {
    if w == "Json"@ || w == "json"@ {
        Some(ResponseBodyKind::Json)
    } else if w == "String"@ || w == "Text"@ || w == "string"@ || w == "text"@ {
        Some(ResponseBodyKind::String)
    } else if w == "Html"@ || w == "html"@ {
        Some(ResponseBodyKind::Html)
    } else if w == "Empty"@ || w == "empty"@ || w == "None"@ || w == "none"@ {
        Some(ResponseBodyKind::Empty)
    } else {
        None
    }
}

/// Reads the word of a `response_body`.
pub fn parse_response_body_kind(word: &str) -> (r: Result<ResponseBodyKind, GrammarError>)
    ensures
        r == match response_body_word(word@) {
            Some(k) => Ok::<ResponseBodyKind, GrammarError>(k),
            None => Err(GrammarError::ResponseBody),
        },
{
    if text_eq(word, "Json") || text_eq(word, "json") {
        Ok(ResponseBodyKind::Json)
    } else if text_eq(word, "String") || text_eq(word, "Text") || text_eq(word, "string") || text_eq(word, "text") {
        Ok(ResponseBodyKind::String)
    } else if text_eq(word, "Html") || text_eq(word, "html") {
        Ok(ResponseBodyKind::Html)
    } else if text_eq(word, "Empty") || text_eq(word, "empty") || text_eq(word, "None") || text_eq(word, "none") {
        Ok(ResponseBodyKind::Empty)
    } else {
        Err(GrammarError::ResponseBody)
    }
}

impl Default for ResponseBodyKind {
    /// A route that names no response body answers with JSON.
    fn default() -> (r: ResponseBodyKind)
        ensures
            r == ResponseBodyKind::Json,
    {
        ResponseBodyKind::Json
    }
}

/// The display form of a response body kind.
pub open spec fn response_body_name(k: ResponseBodyKind) -> Seq<char> {
    match k {
        ResponseBodyKind::Json => "Json"@,
        ResponseBodyKind::String => "String"@,
        ResponseBodyKind::Html => "Html"@,
        ResponseBodyKind::Empty => "Empty"@,
    }
}

impl ResponseBodyKind {
    pub fn as_str(&self) -> (r: &'static str)
        ensures
            r@ == response_body_name(*self),
    {
        match self {
            ResponseBodyKind::Json => "Json",
            ResponseBodyKind::String => "String",
            ResponseBodyKind::Html => "Html",
            ResponseBodyKind::Empty => "Empty",
        }
    }
}

/// The display form of a response body kind reads back as the kind.
pub proof fn lemma_response_body_round_trip(k: ResponseBodyKind)
    ensures
        response_body_word(response_body_name(k)) == Some(k),
{
    reveal_strlit("Json");
    reveal_strlit("json");
    reveal_strlit("String");
    reveal_strlit("Text");
    reveal_strlit("string");
    reveal_strlit("text");
    reveal_strlit("Html");
    reveal_strlit("html");
    reveal_strlit("Empty");
    reveal_strlit("empty");
    reveal_strlit("None");
    reveal_strlit("none");
    let n = response_body_name(k);
    assert(n[0] != "Json"@[0] ==> n != "Json"@ && n != "json"@);
    assert(n[0] != "String"@[0] ==> n != "String"@ && n != "string"@);
    assert(n[0] != "Text"@[0] ==> n != "Text"@ && n != "text"@);
    assert(n[0] != "Html"@[0] ==> n != "Html"@ && n != "html"@);
}

/// An option of a `cors` block.
#[derive(Debug, Clone, Copy, PartialEq, Eq, Structural)]
pub enum CorsOption {
    AllowedOrigins,
    AllowedMethods,
    AllowedHeaders,
    ExposedHeaders,
    AllowCredentials,
    MaxAge,
}

pub open spec fn cors_option_word(w: Seq<char>) -> Option<CorsOption> {
    if w == "allowed_origins"@ {
        Some(CorsOption::AllowedOrigins)
    } else if w == "allowed_methods"@ {
        Some(CorsOption::AllowedMethods)
    } else if w == "allowed_headers"@ {
        Some(CorsOption::AllowedHeaders)
    } else if w == "exposed_headers"@ {
        Some(CorsOption::ExposedHeaders)
    } else if w == "allow_credentials"@ {
        Some(CorsOption::AllowCredentials)
    } else if w == "max_age"@ {
        Some(CorsOption::MaxAge)
    } else {
        None
    }
}

/// Reads an option of a `cors` block; an unknown one is refused by name.
pub fn parse_cors_option(word: &str) -> (r: Result<CorsOption, GrammarError>)
    ensures
        match cors_option_word(word@) {
            Some(k) => r == Ok::<CorsOption, GrammarError>(k),
            None => r matches Err(GrammarError::CorsOption(f)) && f@ == word@,
        },
{
    if text_eq(word, "allowed_origins") {
        Ok(CorsOption::AllowedOrigins)
    } else if text_eq(word, "allowed_methods") {
        Ok(CorsOption::AllowedMethods)
    } else if text_eq(word, "allowed_headers") {
        Ok(CorsOption::AllowedHeaders)
    } else if text_eq(word, "exposed_headers") {
        Ok(CorsOption::ExposedHeaders)
    } else if text_eq(word, "allow_credentials") {
        Ok(CorsOption::AllowCredentials)
    } else if text_eq(word, "max_age") {
        Ok(CorsOption::MaxAge)
    } else {
        Err(GrammarError::CorsOption(owned(word)))
    }
}

/// The method a CORS method word names: upper-case, capitalised or
/// lower-case.
pub open spec fn cors_method_word(w: Seq<char>) -> Option<RouteMethod> {
    if w == "GET"@ || w == "Get"@ || w == "get"@ {
        Some(RouteMethod::Get)
    } else if w == "POST"@ || w == "Post"@ || w == "post"@ {
        Some(RouteMethod::Post)
    } else if w == "PUT"@ || w == "Put"@ || w == "put"@ {
        Some(RouteMethod::Put)
    } else if w == "DELETE"@ || w == "Delete"@ || w == "delete"@ {
        Some(RouteMethod::Delete)
    } else if w == "PATCH"@ || w == "Patch"@ || w == "patch"@ {
        Some(RouteMethod::Patch)
    } else if w == "HEAD"@ || w == "Head"@ || w == "head"@ {
        Some(RouteMethod::Head)
    } else if w == "OPTIONS"@ || w == "Options"@ || w == "options"@ {
        Some(RouteMethod::Options)
    } else if w == "CONNECT"@ || w == "Connect"@ || w == "connect"@ {
        Some(RouteMethod::Connect)
    } else if w == "TRACE"@ || w == "Trace"@ || w == "trace"@ {
        Some(RouteMethod::Trace)
    } else if w == "QUERY"@ || w == "Query"@ || w == "query"@ {
        Some(RouteMethod::Query)
    } else if w == "ANY"@ || w == "Any"@ || w == "any"@ {
        Some(RouteMethod::Any)
    } else {
        None
    }
}

fn one_of3(word: &str, a: &str, b: &str, c: &str) -> (r: bool)
    ensures
        r == (word@ == a@ || word@ == b@ || word@ == c@),
{
    text_eq(word, a) || text_eq(word, b) || text_eq(word, c)
}

/// Reads one word of a CORS method list.
pub fn parse_cors_method(word: &str) -> (r: Result<RouteMethod, GrammarError>)
    ensures
        r == match cors_method_word(word@) {
            Some(m) => Ok::<RouteMethod, GrammarError>(m),
            None => Err(GrammarError::CorsMethod),
        },
{
    if one_of3(word, "GET", "Get", "get") {
        Ok(RouteMethod::Get)
    } else if one_of3(word, "POST", "Post", "post") {
        Ok(RouteMethod::Post)
    } else if one_of3(word, "PUT", "Put", "put") {
        Ok(RouteMethod::Put)
    } else if one_of3(word, "DELETE", "Delete", "delete") {
        Ok(RouteMethod::Delete)
    } else if one_of3(word, "PATCH", "Patch", "patch") {
        Ok(RouteMethod::Patch)
    } else if one_of3(word, "HEAD", "Head", "head") {
        Ok(RouteMethod::Head)
    } else if one_of3(word, "OPTIONS", "Options", "options") {
        Ok(RouteMethod::Options)
    } else if one_of3(word, "CONNECT", "Connect", "connect") {
        Ok(RouteMethod::Connect)
    } else if one_of3(word, "TRACE", "Trace", "trace") {
        Ok(RouteMethod::Trace)
    } else if one_of3(word, "QUERY", "Query", "query") {
        Ok(RouteMethod::Query)
    } else if one_of3(word, "ANY", "Any", "any") {
        Ok(RouteMethod::Any)
    } else {
        Err(GrammarError::CorsMethod)
    }
}

/// Reads a CORS method list: the methods in order, or the first refused
/// word's position. An empty list sets no methods.
pub fn parse_cors_methods(words: &Vec<String>) -> (r: Result<Option<Vec<RouteMethod>>, usize>)
    ensures
        match r {
            Ok(None) => words.len() == 0,
            Ok(Some(ms)) => {
                &&& words.len() > 0
                &&& ms.len() == words.len()
                &&& forall|i: int| 0 <= i < words.len() ==> cors_method_word(#[trigger] words@[i]@) == Some(ms@[i])
            },
            Err(k) => {
                &&& k < words.len()
                &&& cors_method_word(words@[k as int]@) is None
                &&& forall|i: int| 0 <= i < k ==> cors_method_word(#[trigger] words@[i]@) is Some
            },
        },
{
    let mut ms: Vec<RouteMethod> = Vec::new();
    let mut i: usize = 0;
    while i < words.len()
        invariant
            i <= words.len(),
            ms.len() == i,
            forall|j: int| 0 <= j < i ==> cors_method_word(#[trigger] words@[j]@) == Some(ms@[j]),
        decreases words.len() - i,
    {
        match parse_cors_method(words[i].as_str()) {
            Ok(m) => ms.push(m),
            Err(_) => return Err(i),
        }
        i += 1;
    }
    if ms.len() == 0 {
        Ok(None)
    } else {
        Ok(Some(ms))
    }
}

/// The first `mcp` server of a declaration, which the expansion refuses.
pub fn check_server_kinds(kinds: &Vec<ServerKind>) -> (r: Result<(), usize>)
    ensures
        match r {
            Ok(()) => forall|i: int| 0 <= i < kinds.len() ==> kinds@[i] == ServerKind::Http,
            Err(k) => {
                &&& k < kinds.len()
                &&& kinds@[k as int] == ServerKind::Mcp
                &&& forall|i: int| 0 <= i < k ==> kinds@[i] == ServerKind::Http
            },
        },
{
    let mut i: usize = 0;
    while i < kinds.len()
        invariant
            i <= kinds.len(),
            forall|j: int| 0 <= j < i ==> kinds@[j] == ServerKind::Http,
        decreases kinds.len() - i,
    {
        match kinds[i] {
            ServerKind::Http => {},
            ServerKind::Mcp => return Err(i),
        }
        i += 1;
    }
    Ok(())
}


/// Reading a route keyword gives the method of that name: the lower-case
/// name of every method reads back as the method, in a route list and in a
/// server body alike.
pub proof fn lemma_route_keywords_round_trip(m: HttpMethod)
    ensures
        route_method_word(ascii_lower(m.name())) == Some(m),
        server_member_word(ascii_lower(m.name())) == Some(ServerMember::Route(m)),
{
    reveal_strlit("ANY");
    reveal_strlit("DELETE");
    reveal_strlit("GET");
    reveal_strlit("HEAD");
    reveal_strlit("OPTIONS");
    reveal_strlit("PATCH");
    reveal_strlit("POST");
    reveal_strlit("PUT");
    reveal_strlit("QUERY");
    reveal_strlit("TRACE");
    reveal_strlit("any");
    reveal_strlit("app_context");
    reveal_strlit("config");
    reveal_strlit("delete");
    reveal_strlit("get");
    reveal_strlit("group");
    reveal_strlit("head");
    reveal_strlit("options");
    reveal_strlit("patch");
    reveal_strlit("post");
    reveal_strlit("put");
    reveal_strlit("query");
    reveal_strlit("trace");
    match m {
        HttpMethod::Get => {
            assert(ascii_lower("GET"@) =~= "get"@);
            assert(route_method_word("get"@) == Some(HttpMethod::Get));
            assert(server_member_word("get"@) == Some(ServerMember::Route(HttpMethod::Get)));
        },
        HttpMethod::Post => {
            assert(ascii_lower("POST"@) =~= "post"@);
            assert(route_method_word("post"@) == Some(HttpMethod::Post));
            assert(server_member_word("post"@) == Some(ServerMember::Route(HttpMethod::Post)));
        },
        HttpMethod::Put => {
            assert(ascii_lower("PUT"@) =~= "put"@);
            assert("put"@[0] != "get"@[0]);
            assert(route_method_word("put"@) == Some(HttpMethod::Put));
            assert(server_member_word("put"@) == Some(ServerMember::Route(HttpMethod::Put)));
        },
        HttpMethod::Patch => {
            assert(ascii_lower("PATCH"@) =~= "patch"@);
            assert("patch"@[0] != "group"@[0]);
            assert(route_method_word("patch"@) == Some(HttpMethod::Patch));
            assert(server_member_word("patch"@) == Some(ServerMember::Route(HttpMethod::Patch)));
        },
        HttpMethod::Delete => {
            assert(ascii_lower("DELETE"@) =~= "delete"@);
            assert("delete"@[0] != "config"@[0]);
            assert(route_method_word("delete"@) == Some(HttpMethod::Delete));
            assert(server_member_word("delete"@) == Some(ServerMember::Route(HttpMethod::Delete)));
        },
        HttpMethod::Options => {
            assert(ascii_lower("OPTIONS"@) =~= "options"@);
            assert(route_method_word("options"@) == Some(HttpMethod::Options));
            assert(server_member_word("options"@) == Some(ServerMember::Route(HttpMethod::Options)));
        },
        HttpMethod::Head => {
            assert(ascii_lower("HEAD"@) =~= "head"@);
            assert("head"@[0] != "post"@[0]);
            assert(route_method_word("head"@) == Some(HttpMethod::Head));
            assert(server_member_word("head"@) == Some(ServerMember::Route(HttpMethod::Head)));
        },
        HttpMethod::Trace => {
            assert(ascii_lower("TRACE"@) =~= "trace"@);
            assert("trace"@[0] != "group"@[0]);
            assert("trace"@[0] != "patch"@[0]);
            assert(route_method_word("trace"@) == Some(HttpMethod::Trace));
            assert(server_member_word("trace"@) == Some(ServerMember::Route(HttpMethod::Trace)));
        },
        HttpMethod::Query => {
            assert(ascii_lower("QUERY"@) =~= "query"@);
            assert("query"@[0] != "group"@[0]);
            assert("query"@[0] != "patch"@[0]);
            assert("query"@[0] != "trace"@[0]);
            assert(route_method_word("query"@) == Some(HttpMethod::Query));
            assert(server_member_word("query"@) == Some(ServerMember::Route(HttpMethod::Query)));
        },
        HttpMethod::Any => {
            assert(ascii_lower("ANY"@) =~= "any"@);
            assert("any"@[0] != "get"@[0]);
            assert("any"@[0] != "put"@[0]);
            assert(route_method_word("any"@) == Some(HttpMethod::Any));
            assert(server_member_word("any"@) == Some(ServerMember::Route(HttpMethod::Any)));
        },
    }
}

/// A CORS method word names the method whose upper-case name it is:
/// upper-casing an accepted word gives a name that reads, as a request
/// method, as the method the word names; and every standard upper-case
/// method name is an accepted word for that method.
pub proof fn lemma_cors_method_words(w: Seq<char>)
    ensures
        cors_method_word(w) matches Some(m) ==> RouteMethod::from_name_spec(ascii_upper(w)) == m,
        RouteMethod::from_name_spec(w) != RouteMethod::Any ==> cors_method_word(w) == Some(RouteMethod::from_name_spec(w)),
{
    reveal_strlit("ANY");
    reveal_strlit("Any");
    reveal_strlit("CONNECT");
    reveal_strlit("Connect");
    reveal_strlit("DELETE");
    reveal_strlit("Delete");
    reveal_strlit("GET");
    reveal_strlit("Get");
    reveal_strlit("HEAD");
    reveal_strlit("Head");
    reveal_strlit("OPTIONS");
    reveal_strlit("Options");
    reveal_strlit("PATCH");
    reveal_strlit("POST");
    reveal_strlit("PUT");
    reveal_strlit("Patch");
    reveal_strlit("Post");
    reveal_strlit("Put");
    reveal_strlit("QUERY");
    reveal_strlit("Query");
    reveal_strlit("TRACE");
    reveal_strlit("Trace");
    reveal_strlit("any");
    reveal_strlit("connect");
    reveal_strlit("delete");
    reveal_strlit("get");
    reveal_strlit("head");
    reveal_strlit("options");
    reveal_strlit("patch");
    reveal_strlit("post");
    reveal_strlit("put");
    reveal_strlit("query");
    reveal_strlit("trace");
    if w == "GET"@ || w == "Get"@ || w == "get"@ {
        assert(ascii_upper("GET"@) =~= "GET"@);
        assert(ascii_upper("Get"@) =~= "GET"@);
        assert(ascii_upper("get"@) =~= "GET"@);
        assert("Get"@[1] != "GET"@[1]);
        assert("get"@[0] != "GET"@[0]);
        assert("get"@[0] != "Get"@[0]);
    } else if w == "POST"@ || w == "Post"@ || w == "post"@ {
        assert(ascii_upper("POST"@) =~= "POST"@);
        assert(ascii_upper("Post"@) =~= "POST"@);
        assert(ascii_upper("post"@) =~= "POST"@);
        assert("POST"@[0] != "HEAD"@[0]);
        assert("Post"@[1] != "POST"@[1]);
        assert("post"@[0] != "POST"@[0]);
        assert("post"@[0] != "Post"@[0]);
    } else if w == "PUT"@ || w == "Put"@ || w == "put"@ {
        assert(ascii_upper("PUT"@) =~= "PUT"@);
        assert(ascii_upper("Put"@) =~= "PUT"@);
        assert(ascii_upper("put"@) =~= "PUT"@);
        assert("PUT"@[0] != "GET"@[0]);
        assert("PUT"@[0] != "Get"@[0]);
        assert("PUT"@[0] != "get"@[0]);
        assert("Put"@[0] != "GET"@[0]);
        assert("Put"@[0] != "Get"@[0]);
        assert("Put"@[0] != "get"@[0]);
        assert("Put"@[1] != "PUT"@[1]);
        assert("put"@[0] != "GET"@[0]);
        assert("put"@[0] != "Get"@[0]);
        assert("put"@[0] != "PUT"@[0]);
        assert("put"@[0] != "Put"@[0]);
        assert("put"@[0] != "get"@[0]);
    } else if w == "DELETE"@ || w == "Delete"@ || w == "delete"@ {
        assert(ascii_upper("DELETE"@) =~= "DELETE"@);
        assert(ascii_upper("Delete"@) =~= "DELETE"@);
        assert(ascii_upper("delete"@) =~= "DELETE"@);
        assert("Delete"@[1] != "DELETE"@[1]);
        assert("delete"@[0] != "DELETE"@[0]);
        assert("delete"@[0] != "Delete"@[0]);
    } else if w == "PATCH"@ || w == "Patch"@ || w == "patch"@ {
        assert(ascii_upper("PATCH"@) =~= "PATCH"@);
        assert(ascii_upper("Patch"@) =~= "PATCH"@);
        assert(ascii_upper("patch"@) =~= "PATCH"@);
        assert("Patch"@[1] != "PATCH"@[1]);
        assert("patch"@[0] != "PATCH"@[0]);
        assert("patch"@[0] != "Patch"@[0]);
    } else if w == "HEAD"@ || w == "Head"@ || w == "head"@ {
        assert(ascii_upper("HEAD"@) =~= "HEAD"@);
        assert(ascii_upper("Head"@) =~= "HEAD"@);
        assert(ascii_upper("head"@) =~= "HEAD"@);
        assert("HEAD"@[0] != "POST"@[0]);
        assert("HEAD"@[0] != "Post"@[0]);
        assert("HEAD"@[0] != "post"@[0]);
        assert("Head"@[0] != "POST"@[0]);
        assert("Head"@[0] != "Post"@[0]);
        assert("Head"@[0] != "post"@[0]);
        assert("Head"@[1] != "HEAD"@[1]);
        assert("head"@[0] != "HEAD"@[0]);
        assert("head"@[0] != "Head"@[0]);
        assert("head"@[0] != "POST"@[0]);
        assert("head"@[0] != "Post"@[0]);
        assert("head"@[0] != "post"@[0]);
    } else if w == "OPTIONS"@ || w == "Options"@ || w == "options"@ {
        assert(ascii_upper("OPTIONS"@) =~= "OPTIONS"@);
        assert(ascii_upper("Options"@) =~= "OPTIONS"@);
        assert(ascii_upper("options"@) =~= "OPTIONS"@);
        assert("Options"@[1] != "OPTIONS"@[1]);
        assert("options"@[0] != "OPTIONS"@[0]);
        assert("options"@[0] != "Options"@[0]);
    } else if w == "CONNECT"@ || w == "Connect"@ || w == "connect"@ {
        assert(ascii_upper("CONNECT"@) =~= "CONNECT"@);
        assert(ascii_upper("Connect"@) =~= "CONNECT"@);
        assert(ascii_upper("connect"@) =~= "CONNECT"@);
        assert("CONNECT"@[0] != "OPTIONS"@[0]);
        assert("CONNECT"@[0] != "Options"@[0]);
        assert("CONNECT"@[0] != "options"@[0]);
        assert("Connect"@[0] != "OPTIONS"@[0]);
        assert("Connect"@[0] != "Options"@[0]);
        assert("Connect"@[0] != "options"@[0]);
        assert("Connect"@[1] != "CONNECT"@[1]);
        assert("connect"@[0] != "CONNECT"@[0]);
        assert("connect"@[0] != "Connect"@[0]);
        assert("connect"@[0] != "OPTIONS"@[0]);
        assert("connect"@[0] != "Options"@[0]);
        assert("connect"@[0] != "options"@[0]);
    } else if w == "TRACE"@ || w == "Trace"@ || w == "trace"@ {
        assert(ascii_upper("TRACE"@) =~= "TRACE"@);
        assert(ascii_upper("Trace"@) =~= "TRACE"@);
        assert(ascii_upper("trace"@) =~= "TRACE"@);
        assert("TRACE"@[0] != "PATCH"@[0]);
        assert("TRACE"@[0] != "Patch"@[0]);
        assert("TRACE"@[0] != "patch"@[0]);
        assert("Trace"@[0] != "PATCH"@[0]);
        assert("Trace"@[0] != "Patch"@[0]);
        assert("Trace"@[0] != "patch"@[0]);
        assert("Trace"@[1] != "TRACE"@[1]);
        assert("trace"@[0] != "PATCH"@[0]);
        assert("trace"@[0] != "Patch"@[0]);
        assert("trace"@[0] != "TRACE"@[0]);
        assert("trace"@[0] != "Trace"@[0]);
        assert("trace"@[0] != "patch"@[0]);
    } else if w == "QUERY"@ || w == "Query"@ || w == "query"@ {
        assert(ascii_upper("QUERY"@) =~= "QUERY"@);
        assert(ascii_upper("Query"@) =~= "QUERY"@);
        assert(ascii_upper("query"@) =~= "QUERY"@);
        assert("QUERY"@[0] != "PATCH"@[0]);
        assert("QUERY"@[0] != "Patch"@[0]);
        assert("QUERY"@[0] != "TRACE"@[0]);
        assert("QUERY"@[0] != "Trace"@[0]);
        assert("QUERY"@[0] != "patch"@[0]);
        assert("QUERY"@[0] != "trace"@[0]);
        assert("Query"@[0] != "PATCH"@[0]);
        assert("Query"@[0] != "Patch"@[0]);
        assert("Query"@[0] != "TRACE"@[0]);
        assert("Query"@[0] != "Trace"@[0]);
        assert("Query"@[0] != "patch"@[0]);
        assert("Query"@[0] != "trace"@[0]);
        assert("Query"@[1] != "QUERY"@[1]);
        assert("query"@[0] != "PATCH"@[0]);
        assert("query"@[0] != "Patch"@[0]);
        assert("query"@[0] != "QUERY"@[0]);
        assert("query"@[0] != "Query"@[0]);
        assert("query"@[0] != "TRACE"@[0]);
        assert("query"@[0] != "Trace"@[0]);
        assert("query"@[0] != "patch"@[0]);
        assert("query"@[0] != "trace"@[0]);
    } else if w == "ANY"@ || w == "Any"@ || w == "any"@ {
        assert(ascii_upper("ANY"@) =~= "ANY"@);
        assert(ascii_upper("Any"@) =~= "ANY"@);
        assert(ascii_upper("any"@) =~= "ANY"@);
        assert("ANY"@[0] != "GET"@[0]);
        assert("ANY"@[0] != "Get"@[0]);
        assert("ANY"@[0] != "PUT"@[0]);
        assert("ANY"@[0] != "Put"@[0]);
        assert("ANY"@[0] != "get"@[0]);
        assert("ANY"@[0] != "put"@[0]);
        assert("Any"@[0] != "GET"@[0]);
        assert("Any"@[0] != "Get"@[0]);
        assert("Any"@[0] != "PUT"@[0]);
        assert("Any"@[0] != "Put"@[0]);
        assert("Any"@[0] != "get"@[0]);
        assert("Any"@[0] != "put"@[0]);
        assert("Any"@[1] != "ANY"@[1]);
        assert("any"@[0] != "ANY"@[0]);
        assert("any"@[0] != "Any"@[0]);
        assert("any"@[0] != "GET"@[0]);
        assert("any"@[0] != "Get"@[0]);
        assert("any"@[0] != "PUT"@[0]);
        assert("any"@[0] != "Put"@[0]);
        assert("any"@[0] != "get"@[0]);
        assert("any"@[0] != "put"@[0]);
    }
}

} // verus!
