//! Flat declarations: servers whose routes stand directly in their body,
//! with no groups. Routes clash only when method and endpoint are equal as
//! written.

use vstd::prelude::*;

use crate::dsl::grammar::{check_route_members, parse_server_member, server_member_word, RequestBodyKind, ResponseBodyKind, RouteMember, ServerMember};
use crate::dsl::port::{parse_port, parse_u16, IntError};
use crate::dsl::server::{contains_name, contains_port, HttpMethod};
use crate::text::{owned, text_eq, write_decimal, decimal};

verus! {

/// The kind of a flat server. Only `http` is served; the others are
/// reserved.
#[derive(Debug, Clone, Copy, PartialEq, Eq, Structural)]
pub enum FlatKind {
    Http,
    Sse,
    Ws,
    Mcp,
}

pub open spec fn flat_kind_word(w: Seq<char>) -> Option<FlatKind> {
    if w == "http"@ {
        Some(FlatKind::Http)
    } else if w == "sse"@ {
        Some(FlatKind::Sse)
    } else if w == "ws"@ {
        Some(FlatKind::Ws)
    } else if w == "mcp"@ {
        Some(FlatKind::Mcp)
    } else {
        None
    }
}

/// Reads the word that opens a flat server; `None` for any other word,
/// refused with "expected `http`, `sse`, `ws`, or `mcp`".
pub fn parse_flat_kind(word: &str) -> (r: Option<FlatKind>)
    ensures
        r == flat_kind_word(word@),
{
    if text_eq(word, "http") {
        Some(FlatKind::Http)
    } else if text_eq(word, "sse") {
        Some(FlatKind::Sse)
    } else if text_eq(word, "ws") {
        Some(FlatKind::Ws)
    } else if text_eq(word, "mcp") {
        Some(FlatKind::Mcp)
    } else {
        None
    }
}

/// The display name of a method, upper case.
pub fn method_name(method: HttpMethod) -> (r: &'static str)
    ensures
        r@ == method.name(),
{
    method.as_str()
}

/// One flat server: its kind, name, the digits of its port literal and its
/// routes as method and endpoint.
pub struct FlatServer {
    pub kind: FlatKind,
    pub name: String,
    pub port: String,
    pub routes: Vec<(HttpMethod, String)>,
}

pub struct FlatView {
    pub kind: FlatKind,
    pub name: Seq<char>,
    pub port: Seq<char>,
    pub routes: Seq<(HttpMethod, Seq<char>)>,
}

pub open spec fn flat_routes_view(rs: Seq<(HttpMethod, String)>) -> Seq<(HttpMethod, Seq<char>)> {
    rs.map_values(|r: (HttpMethod, String)| (r.0, r.1@))
}

impl View for FlatServer {
    type V = FlatView;

    open spec fn view(&self) -> FlatView {
        FlatView { kind: self.kind, name: self.name@, port: self.port@, routes: flat_routes_view(self.routes@) }
    }
}

/// Why a flat declaration is refused, and where.
#[derive(Debug)]
pub enum FlatError {
    DuplicateServerName { server: usize, name: String },
    InvalidPort { server: usize, problem: IntError },
    DuplicatePort { server: usize, port: u16 },
    DuplicateRoute { server: usize, route: usize, method: HttpMethod, endpoint: String },
}

pub enum FlatErrorView {
    DuplicateServerName { server: int, name: Seq<char> },
    InvalidPort { server: int, problem: IntError },
    DuplicatePort { server: int, port: u16 },
    DuplicateRoute { server: int, route: int, method: HttpMethod, endpoint: Seq<char> },
}

impl View for FlatError {
    type V = FlatErrorView;

    open spec fn view(&self) -> FlatErrorView {
        match self {
            FlatError::DuplicateServerName { server, name } => FlatErrorView::DuplicateServerName { server: *server as int, name: name@ },
            FlatError::InvalidPort { server, problem } => FlatErrorView::InvalidPort { server: *server as int, problem: *problem },
            FlatError::DuplicatePort { server, port } => FlatErrorView::DuplicatePort { server: *server as int, port: *port },
            FlatError::DuplicateRoute { server, route, method, endpoint } => FlatErrorView::DuplicateRoute {
                server: *server as int,
                route: *route as int,
                method: *method,
                endpoint: endpoint@,
            },
        }
    }
}

/// The first route that repeats an earlier route's method and endpoint.
pub open spec fn first_repeat(rs: Seq<(HttpMethod, Seq<char>)>) -> Option<int>
    decreases rs.len(),
{
    if rs.len() == 0 {
        None
    } else {
        match first_repeat(rs.drop_last()) {
            Some(k) => Some(k),
            None => if rs.drop_last().contains(rs.last()) {
                Some(rs.len() - 1)
            } else {
                None
            },
        }
    }
}

/// Checks flat server `i` against the names and ports before it.
pub open spec fn flat_step(names: Seq<Seq<char>>, ports: Seq<u16>, i: int, s: FlatView) -> Result<(Seq<Seq<char>>, Seq<u16>), FlatErrorView> {
    if names.contains(s.name) {
        Err(FlatErrorView::DuplicateServerName { server: i, name: s.name })
    } else {
        match parse_u16(s.port) {
            Err(p) => Err(FlatErrorView::InvalidPort { server: i, problem: p }),
            Ok(port) => if ports.contains(port) {
                Err(FlatErrorView::DuplicatePort { server: i, port })
            } else if s.kind == FlatKind::Http && first_repeat(s.routes) is Some {
                let k = first_repeat(s.routes).unwrap();
                Err(FlatErrorView::DuplicateRoute { server: i, route: k, method: s.routes[k].0, endpoint: s.routes[k].1 })
            } else {
                Ok((names.push(s.name), ports.push(port)))
            },
        }
    }
}

pub open spec fn flat_scan(ss: Seq<FlatView>) -> Result<(Seq<Seq<char>>, Seq<u16>), FlatErrorView>
    decreases ss.len(),
{
    if ss.len() == 0 {
        Ok((Seq::empty(), Seq::empty()))
    } else {
        match flat_scan(ss.drop_last()) {
            Err(e) => Err(e),
            Ok((names, ports)) => flat_step(names, ports, ss.len() - 1, ss.last()),
        }
    }
}

proof fn lemma_first_repeat_bound(rs: Seq<(HttpMethod, Seq<char>)>)
    ensures
        first_repeat(rs) matches Some(k) ==> 0 <= k < rs.len(),
    decreases rs.len(),
{
    if rs.len() > 0 {
        lemma_first_repeat_bound(rs.drop_last());
    }
}

proof fn lemma_repeat_stable(rs: Seq<(HttpMethod, Seq<char>)>, i: int, m: int)
    requires
        0 <= i <= m <= rs.len(),
        first_repeat(rs.take(i)) is Some,
    ensures
        first_repeat(rs.take(m)) == first_repeat(rs.take(i)),
    decreases m - i,
{
    if m > i {
        lemma_repeat_stable(rs, i, m - 1);
        assert(rs.take(m).drop_last() == rs.take(m - 1));
    }
}

fn same_route(a: &(HttpMethod, String), m: HttpMethod, e: &String) -> (r: bool)
    ensures
        r == (a.0 == m && a.1@ == e@),
{
    a.0 == m && text_eq(a.1.as_str(), e.as_str())
}

/// The first route of a flat server that repeats an earlier method and
/// endpoint.
pub fn first_repeated_route(routes: &Vec<(HttpMethod, String)>) -> (r: Option<usize>)
    ensures
        match r {
            Some(k) => first_repeat(flat_routes_view(routes@)) == Some(k as int),
            None => first_repeat(flat_routes_view(routes@)) is None,
        },
{
    let ghost rv = flat_routes_view(routes@);
    let mut i: usize = 0;
    while i < routes.len()
        invariant
            i <= routes.len(),
            rv == flat_routes_view(routes@),
            rv.len() == routes.len(),
            first_repeat(rv.take(i as int)) is None,
        decreases routes.len() - i,
    {
        let ghost t = rv.take(i + 1);
        assert(t.drop_last() == rv.take(i as int));
        assert(t.last() == (routes@[i as int].0, routes@[i as int].1@));
        let mut j: usize = 0;
        let mut found = false;
        while j < i
            invariant
                j <= i < routes.len(),
                rv == flat_routes_view(routes@),
                t == rv.take(i + 1),
                !found ==> forall|q: int| 0 <= q < j ==> rv.take(i as int)[q] != t.last(),
                found ==> rv.take(i as int).contains(t.last()),
            decreases i - j,
        {
            if !found && same_route(&routes[j], routes[i].0, &routes[i].1) {
                assert(rv.take(i as int)[j as int] == (routes@[j as int].0, routes@[j as int].1@));
                assert(rv.take(i as int)[j as int] == t.last());
                found = true;
            }
            j += 1;
        }
        if found {
            proof {
                lemma_repeat_stable(rv, i + 1, rv.len() as int);
                assert(rv.take(rv.len() as int) == rv);
            }
            return Some(i);
        }
        i += 1;
    }
    assert(rv.take(rv.len() as int) == rv);
    None
}

fn check_flat_server(names: &Vec<String>, ports: &Vec<u16>, i: usize, server: &FlatServer) -> (r: Result<u16, FlatError>)
    ensures
        match flat_step(names@.map_values(|n: String| n@), ports@, i as int, server@) {
            Ok((n2, p2)) => r matches Ok(port) && n2 == names@.map_values(|n: String| n@).push(server.name@) && p2 == ports@.push(port),
            Err(e) => r matches Err(x) && x@ == e,
        },
{
    if contains_name(names, &server.name) {
        return Err(FlatError::DuplicateServerName { server: i, name: server.name.clone() });
    }
    let port = match parse_port(server.port.as_str()) {
        Ok(p) => p,
        Err(problem) => {
            return Err(FlatError::InvalidPort { server: i, problem });
        },
    };
    if contains_port(ports, port) {
        return Err(FlatError::DuplicatePort { server: i, port });
    }
    if server.kind == FlatKind::Http {
        if let Some(k) = first_repeated_route(&server.routes) {
            proof {
                lemma_first_repeat_bound(flat_routes_view(server.routes@));
            }
            let route = &server.routes[k];
            assert(server@.routes[k as int] == (route.0, route.1@));
            return Err(FlatError::DuplicateRoute { server: i, route: k, method: route.0, endpoint: route.1.clone() });
        }
    }
    Ok(port)
}

proof fn lemma_flat_err_stable(ss: Seq<FlatView>, i: int, m: int)
    requires
        0 <= i <= m <= ss.len(),
        flat_scan(ss.take(i)) is Err,
    ensures
        flat_scan(ss.take(m)) == flat_scan(ss.take(i)),
    decreases m - i,
{
    if m > i {
        lemma_flat_err_stable(ss, i, m - 1);
        assert(ss.take(m).drop_last() == ss.take(m - 1));
    }
}

pub open spec fn flat_servers_view(ss: Seq<FlatServer>) -> Seq<FlatView> {
    ss.map_values(|s: FlatServer| s@)
}

/// Checks a flat declaration: server names and ports are unique, and no
/// `http` server declares the same method and endpoint twice.
pub fn validate_flat_servers(servers: &Vec<FlatServer>) -> (r: Result<(), FlatError>)
    ensures
        match flat_scan(flat_servers_view(servers@)) {
            Ok(_) => r is Ok,
            Err(e) => r matches Err(x) && x@ == e,
        },
{
    let ghost ss = flat_servers_view(servers@);
    let mut names: Vec<String> = Vec::new();
    let mut ports: Vec<u16> = Vec::new();
    let mut i: usize = 0;
    assert(ss.take(0) == Seq::<FlatView>::empty());
    assert(names@.map_values(|n: String| n@) == Seq::<Seq<char>>::empty());
    while i < servers.len()
        invariant
            i <= servers.len(),
            ss == flat_servers_view(servers@),
            ss.len() == servers.len(),
            flat_scan(ss.take(i as int)) == Ok::<(Seq<Seq<char>>, Seq<u16>), FlatErrorView>(
                (names@.map_values(|n: String| n@), ports@),
            ),
        decreases servers.len() - i,
    {
        assert(ss.take(i + 1).drop_last() == ss.take(i as int));
        assert(ss.take(i + 1).last() == servers@[i as int]@);
        let server = &servers[i];
        let ghost names_before = names@.map_values(|n: String| n@);
        match check_flat_server(&names, &ports, i, server) {
            Err(e) => {
                proof {
                    lemma_flat_err_stable(ss, i + 1, ss.len() as int);
                    assert(ss.take(ss.len() as int) == ss);
                }
                return Err(e);
            },
            Ok(port) => {
                names.push(server.name.clone());
                ports.push(port);
                assert(names@.map_values(|n: String| n@) =~= names_before.push(server.name@));
            },
        }
        i += 1;
    }
    assert(ss.take(ss.len() as int) == ss);
    Ok(())
}

/// The text of a refusal of a flat declaration.
pub open spec fn flat_error_text(e: FlatErrorView) -> Seq<char> {
    match e {
        FlatErrorView::DuplicateServerName { name, .. } => "duplicate server name `"@ + name + "`"@,
        FlatErrorView::InvalidPort { problem, .. } => problem.text(),
        FlatErrorView::DuplicatePort { port, .. } => "duplicate server port `"@ + decimal(port as nat) + "`"@,
        FlatErrorView::DuplicateRoute { method, endpoint, .. } => "duplicate route: "@ + method.name() + " "@ + endpoint,
    }
}

impl FlatError {
    pub fn message(&self) -> (r: String)
        ensures
            r@ == flat_error_text(self@),
    {
        match self {
            FlatError::DuplicateServerName { name, .. } => {
                let mut m = owned("duplicate server name `");
                m.append(name.as_str());
                m.append("`");
                m
            },
            FlatError::InvalidPort { problem, .. } => owned(problem.message()),
            FlatError::DuplicatePort { port, .. } => {
                let mut m = owned("duplicate server port `");
                write_decimal(*port as u64, &mut m);
                m.append("`");
                m
            },
            FlatError::DuplicateRoute { method, endpoint, .. } => {
                let mut m = owned("duplicate route: ");
                m.append(method.as_str());
                m.append(" ");
                m.append(endpoint.as_str());
                m
            },
        }
    }
}

/// Why a flat declaration cannot be expanded.
#[derive(Debug, Clone, Copy, PartialEq, Eq, Structural)]
pub enum FlatExpandError {
    /// No `http` server is declared.
    NoHttpServer,
    /// Server `0` is of a reserved kind.
    Reserved(usize, FlatKind),
}

pub open spec fn flat_expand_text(e: FlatExpandError) -> Seq<char> {
    match e {
        FlatExpandError::NoHttpServer => "at least one `http` server is required"@,
        FlatExpandError::Reserved(_, FlatKind::Sse) => "`sse` is reserved but not implemented yet"@,
        FlatExpandError::Reserved(_, FlatKind::Ws) => "`ws` is reserved but not implemented yet"@,
        FlatExpandError::Reserved(_, _) => "`mcp` is reserved but not implemented yet"@,
    }
}

impl FlatExpandError {
    pub fn message(&self) -> (r: &'static str)
        ensures
            r@ == flat_expand_text(*self),
    {
        match self {
            FlatExpandError::NoHttpServer => "at least one `http` server is required",
            FlatExpandError::Reserved(_, FlatKind::Sse) => "`sse` is reserved but not implemented yet",
            FlatExpandError::Reserved(_, FlatKind::Ws) => "`ws` is reserved but not implemented yet",
            FlatExpandError::Reserved(_, _) => "`mcp` is reserved but not implemented yet",
        }
    }
}

/// Checks the kinds of a flat declaration before expansion: at least one
/// `http` server, and no server of a reserved kind (the first one found is
/// refused).
pub fn check_flat_kinds(kinds: &Vec<FlatKind>) -> (r: Result<(), FlatExpandError>)
    ensures
        match r {
            Ok(()) => kinds.len() > 0 && forall|i: int| 0 <= i < kinds.len() ==> kinds@[i] == FlatKind::Http,
            Err(FlatExpandError::NoHttpServer) => forall|i: int| 0 <= i < kinds.len() ==> kinds@[i] != FlatKind::Http,
            Err(FlatExpandError::Reserved(k, kind)) => {
                &&& exists|i: int| 0 <= i < kinds.len() && kinds@[i] == FlatKind::Http
                &&& k < kinds.len()
                &&& kinds@[k as int] == kind
                &&& kind != FlatKind::Http
                &&& forall|i: int| 0 <= i < k ==> kinds@[i] == FlatKind::Http
            },
        },
{
    let mut has_http = false;
    let mut i: usize = 0;
    while i < kinds.len()
        invariant
            i <= kinds.len(),
            !has_http ==> forall|j: int| 0 <= j < i ==> kinds@[j] != FlatKind::Http,
            has_http ==> exists|j: int| 0 <= j < kinds.len() && kinds@[j] == FlatKind::Http,
        decreases kinds.len() - i,
    {
        if kinds[i] == FlatKind::Http {
            has_http = true;
        }
        i += 1;
    }
    if !has_http {
        return Err(FlatExpandError::NoHttpServer);
    }
    let mut k: usize = 0;
    while k < kinds.len()
        invariant
            k <= kinds.len(),
            exists|j: int| 0 <= j < kinds.len() && kinds@[j] == FlatKind::Http,
            forall|j: int| 0 <= j < k ==> kinds@[j] == FlatKind::Http,
        decreases kinds.len() - k,
    {
        if kinds[k] != FlatKind::Http {
            return Err(FlatExpandError::Reserved(k, kinds[k]));
        }
        k += 1;
    }
    Ok(())
}

/// Any two routes of an accepted flat `http` server differ in method or
/// endpoint.
pub proof fn lemma_flat_routes_distinct(rs: Seq<(HttpMethod, Seq<char>)>)
    requires
        first_repeat(rs) is None,
    ensures
        forall|i: int, j: int| 0 <= i < j < rs.len() ==> rs[i] != rs[j],
    decreases rs.len(),
{
    if rs.len() > 0 {
        let t = rs.drop_last();
        lemma_flat_routes_distinct(t);
        assert forall|i: int, j: int| 0 <= i < j < rs.len() implies rs[i] != rs[j] by {
            if j == rs.len() - 1 {
                assert(t[i] == rs[i]);
                if rs[i] == rs[j] {
                    assert(t.contains(rs.last()));
                }
            } else {
                assert(t[i] == rs[i] && t[j] == rs[j]);
            }
        }
    }
}

/// The name of the function generated for route `index` of a flat server:
/// `__route_<server>_<handler>`, where `handler` is the last segment of the
/// route's handler path, or `route_<index>` when there is none.
pub open spec fn flat_route_name(server: Seq<char>, handler: Option<Seq<char>>, index: nat) -> Seq<char> {
    match handler {
        Some(h) => "__route_"@ + server + "_"@ + h,
        None => "__route_"@ + server + "_"@ + "route_"@ + decimal(index),
    }
}

pub fn flat_route_function_ident(server: &str, handler: Option<&str>, index: usize) -> (r: String)
    ensures
        r@ == flat_route_name(server@, match handler {
            Some(h) => Some(h@),
            None => None,
        }, index as nat),
{
    let mut r = owned("__route_");
    r.append(server);
    r.append("_");
    match handler {
        Some(h) => r.append(h),
        None => {
            r.append("route_");
            write_decimal(index as u64, &mut r);
        },
    }
    r
}

/// How a flat server body reads a key: as in a grouped declaration, except
/// that `group` is refused.
pub open spec fn flat_member_of(w: Seq<char>) -> Result<ServerMember, Seq<char>> {
    if w == "group"@ {
        Err("`group` is not implemented yet"@)
    } else {
        match server_member_word(w) {
            Some(m) => Ok(m),
            None => Err("unexpected server member"@),
        }
    }
}

pub fn parse_flat_member(word: &str) -> (r: Result<ServerMember, &'static str>)
    ensures
        match flat_member_of(word@) {
            Ok(m) => r == Ok::<ServerMember, &'static str>(m),
            Err(t) => r matches Err(x) && x@ == t,
        },
{
    if text_eq(word, "group") {
        return Err("`group` is not implemented yet");
    }
    match parse_server_member(word) {
        Ok(m) => Ok(m),
        Err(_) => Err("unexpected server member"),
    }
}

/// The response body kinds of a flat route: `Json`, `String` or `Text`,
/// and `Html`.
pub open spec fn flat_response_body_of(w: Seq<char>) -> Option<ResponseBodyKind> {
    if w == "Json"@ {
        Some(ResponseBodyKind::Json)
    } else if w == "String"@ || w == "Text"@ {
        Some(ResponseBodyKind::String)
    } else if w == "Html"@ {
        Some(ResponseBodyKind::Html)
    } else {
        None
    }
}

/// Reads the `response_body` of a flat route; any other word is refused
/// with "expected `Json`, `String`, or `Html`".
pub fn parse_flat_response_body(word: &str) -> (r: Option<ResponseBodyKind>)
    ensures
        r == flat_response_body_of(word@),
{
    if text_eq(word, "Json") {
        Some(ResponseBodyKind::Json)
    } else if text_eq(word, "String") || text_eq(word, "Text") {
        Some(ResponseBodyKind::String)
    } else if text_eq(word, "Html") {
        Some(ResponseBodyKind::Html)
    } else {
        None
    }
}

/// The request body kinds of a flat route: `Json` and `Form`, each with a
/// type; any other word is refused with "expected `Json(Type)` or
/// `Form(Type)`".
pub fn parse_flat_request_body(word: &str) -> (r: Option<RequestBodyKind>)
    ensures
        r == (if word@ == "Json"@ {
            Some(RequestBodyKind::Json)
        } else if word@ == "Form"@ {
            Some(RequestBodyKind::Form)
        } else {
            None::<RequestBodyKind>
        }),
{
    if text_eq(word, "Json") {
        Some(RequestBodyKind::Json)
    } else if text_eq(word, "Form") {
        Some(RequestBodyKind::Form)
    } else {
        None
    }
}

/// Checks the keys of a flat route: it must name its `endpoint`, then its
/// `handler`.
pub fn check_flat_route(keys: &Vec<RouteMember>) -> (r: Result<(), &'static str>)
    ensures
        match r {
            Ok(()) => keys@.contains(RouteMember::Endpoint) && keys@.contains(RouteMember::Handler),
            Err(t) => if !keys@.contains(RouteMember::Endpoint) {
                t@ == "route requires `endpoint`"@
            } else {
                !keys@.contains(RouteMember::Handler) && t@ == "route requires `handler`"@
            },
        },
{
    match check_route_members(keys) {
        Err(_) => Err("route requires `endpoint`"),
        Ok(true) => Err("route requires `handler`"),
        Ok(false) => Ok(()),
    }
}

} // verus!
