//! Names of the functions generated for servers, routes and groups.

use rand::{RngExt, SeedableRng};
use vstd::prelude::*;

use crate::dsl::group::{prefix_name_part, sanitize_prefix};
use crate::dsl::route::{endpoint_name_segment, endpoint_to_function_name_segment, RouteHandler, HandlerView};
use crate::dsl::server::{HttpMethod, Server};
use crate::text::{decimal, lemma_decimal_tail, owned, push_char, write_decimal};

verus! {

/// An ASCII letter or digit.
pub open spec fn is_ascii_alnum(c: char) -> bool {
    ('A' <= c && c <= 'Z') || ('a' <= c && c <= 'z') || ('0' <= c && c <= '9')
}

/// A random generator of rand, seeded from the operating system.
#[verifier::external_type_specification]
#[verifier::external_body]
pub struct ExStdRng(rand::rngs::StdRng);

/// Calls `StdRng::try_from_rng(&mut SysRng)`, which seeds a generator from
/// the operating system and fails when the system generator fails; the
/// failure is handed back as `None`. Nothing is claimed of the generator
/// beyond its existence, and whether seeding succeeds is up to the machine.
#[verifier::external_body]
fn seeded_rng() -> (r: Option<rand::rngs::StdRng>) {
    rand::rngs::StdRng::try_from_rng(&mut rand::rngs::SysRng).ok()
}

/// Calls `RngExt::sample` with rand's `Alphanumeric` distribution on a
/// seeded generator, which cannot fail. The distribution picks from `A-Z`,
/// `a-z` and `0-9`, which is all the contract states; which character
/// comes is chance.
#[verifier::external_body]
fn sample_alphanumeric(rng: &mut rand::rngs::StdRng) -> (c: char)
    ensures
        is_ascii_alnum(c),
{
    char::from(rng.sample(rand::distr::Alphanumeric))
}

/// Six random ASCII letters and digits, drawn from a generator seeded from
/// the operating system; `None` when the system generator cannot seed one.
pub fn random_6_chars() -> (r: Option<String>)
    ensures
        r matches Some(s) ==> s@.len() == 6 && forall|i: int| 0 <= i < 6 ==> is_ascii_alnum(#[trigger] s@[i]),
{
    let mut rng = match seeded_rng() {
        Some(rng) => rng,
        None => return None,
    };
    let mut r = String::new();
    let mut i: usize = 0;
    while i < 6
        invariant
            i <= 6,
            r@.len() == i,
            forall|k: int| 0 <= k < i ==> is_ascii_alnum(#[trigger] r@[k]),
        decreases 6 - i,
    {
        let c = sample_alphanumeric(&mut rng);
        push_char(&mut r, c);
        i += 1;
    }
    Some(r)
}

/// `"__init_<server>"`.
pub fn init_ident(server_name: &str) -> (r: String)
    ensures
        r@ == "__init_"@ + server_name@,
{
    let mut r = owned("__init_");
    r.append(server_name);
    r
}

/// The name of the function generated for top-level route `index` of a
/// server: `__route_<server>_<handler>_<index>` for a handler path,
/// `__route_<server>_<METHOD>_<endpoint>_<index>` for a closure, and
/// `__route_<server>_<index>` when there is no such route.
pub open spec fn route_function_name(server: Seq<char>, route: Option<(HttpMethod, Seq<char>, HandlerView)>, index: nat) -> Seq<char> {
    match route {
        None => "__route_"@ + server + "_"@ + decimal(index),
        Some((method, endpoint, handler)) => match handler {
            HandlerView::Path(last) => "__route_"@ + server + "_"@ + last + "_"@ + decimal(index),
            HandlerView::Closure => "__route_"@ + server + "_"@ + endpoint_name_segment(method, endpoint) + "_"@
                + decimal(index),
        },
    }
}

/// The functions generated for different top-level routes of a server get
/// different names: each name ends in `_` and the route's index.
pub proof fn lemma_route_names_distinct(
    server: Seq<char>,
    a: Option<(HttpMethod, Seq<char>, HandlerView)>,
    b: Option<(HttpMethod, Seq<char>, HandlerView)>,
    i: nat,
    j: nat,
)
    requires
        i != j,
    ensures
        route_function_name(server, a, i) != route_function_name(server, b, j),
{
    let head = |r: Option<(HttpMethod, Seq<char>, HandlerView)>| -> Seq<char> {
        match r {
            None => "__route_"@ + server,
            Some((method, endpoint, handler)) => match handler {
                HandlerView::Path(last) => "__route_"@ + server + "_"@ + last,
                HandlerView::Closure => "__route_"@ + server + "_"@ + endpoint_name_segment(method, endpoint),
            },
        }
    };
    assert(route_function_name(server, a, i) == head(a) + "_"@ + decimal(i));
    assert(route_function_name(server, b, j) == head(b) + "_"@ + decimal(j));
    if route_function_name(server, a, i) == route_function_name(server, b, j) {
        lemma_decimal_tail(head(a), head(b), i, j);
    }
}

pub fn route_function_ident<V>(server: &Server<V>, index: usize) -> (r: String)
    ensures
        r@ == route_function_name(
            server.name@,
            if index < server.body.routes.len() {
                let rt = server.body.routes@[index as int];
                Some((rt.method, rt.endpoint@, rt.handler@))
            } else {
                None
            },
            index as nat,
        ),
{
    let mut r = owned("__route_");
    r.append(server.name.as_str());
    r.append("_");
    if index < server.body.routes.len() {
        let route = &server.body.routes[index];
        match &route.handler {
            RouteHandler::Path(last) => {
                r.append(last.as_str());
            },
            RouteHandler::Closure => {
                let seg = endpoint_to_function_name_segment(&route.method, route.endpoint.as_str());
                r.append(seg.as_str());
            },
        }
        r.append("_");
    }
    write_decimal(index as u64, &mut r);
    r
}

/// The name of the function generated for a group reached through the
/// prefixes `path`: `__group_<server>` followed by `_<prefix>` for each
/// prefix, each written as [`sanitize_prefix`] writes it.
pub open spec fn group_path_name(server: Seq<char>, path: Seq<Seq<char>>) -> Seq<char>
    decreases path.len(),
{
    if path.len() == 0 {
        "__group_"@ + server
    } else {
        group_path_name(server, path.drop_last()) + "_"@ + prefix_name_part(path.last())
    }
}

fn append_prefixes(name: &mut String, path: &Vec<String>)
    ensures
        final(name)@ == old(name)@ + prefixes_part(path@.map_values(|p: String| p@)),
{
    let ghost start = name@;
    let ghost pv = path@.map_values(|p: String| p@);
    let mut i: usize = 0;
    assert(pv.take(0) == Seq::<Seq<char>>::empty());
    while i < path.len()
        invariant
            i <= path.len(),
            pv == path@.map_values(|p: String| p@),
            name@ == start + prefixes_part(pv.take(i as int)),
        decreases path.len() - i,
    {
        name.append("_");
        let part = sanitize_prefix(path[i].as_str());
        name.append(part.as_str());
        assert(pv.take(i + 1).drop_last() == pv.take(i as int));
        assert(pv.take(i + 1).last() == path@[i as int]@);
        i += 1;
    }
    assert(pv.take(path.len() as int) == pv);
}

/// `_<prefix>` for each prefix, each written as [`sanitize_prefix`] writes it.
pub open spec fn prefixes_part(path: Seq<Seq<char>>) -> Seq<char>
    decreases path.len(),
{
    if path.len() == 0 {
        Seq::empty()
    } else {
        prefixes_part(path.drop_last()) + "_"@ + prefix_name_part(path.last())
    }
}

proof fn lemma_group_path_name(server: Seq<char>, path: Seq<Seq<char>>)
    ensures
        group_path_name(server, path) == "__group_"@ + server + prefixes_part(path),
    decreases path.len(),
{
    if path.len() > 0 {
        lemma_group_path_name(server, path.drop_last());
    }
}

pub fn group_function_ident<V>(server: &Server<V>, path: &Vec<String>) -> (r: String)
    ensures
        r@ == group_path_name(server.name@, path@.map_values(|p: String| p@)),
{
    let mut r = owned("__group_");
    r.append(server.name.as_str());
    append_prefixes(&mut r, path);
    proof { lemma_group_path_name(server.name@, path@.map_values(|p: String| p@)); }
    r
}

/// The name of the function generated for a route inside groups:
/// `__route_<server>_<METHOD>`, `_<prefix>` for each group prefix on the way,
/// then `_<handler>_<suffix>` for a handler path or `_<suffix>` for a
/// closure.
pub open spec fn group_route_name(
    server: Seq<char>,
    path: Seq<Seq<char>>,
    method: HttpMethod,
    handler: HandlerView,
    suffix: Seq<char>,
) -> Seq<char> {
    "__route_"@ + server + "_"@ + method.name() + prefixes_part(path) + "_"@ + match handler {
        HandlerView::Path(last) => last + "_"@ + suffix,
        HandlerView::Closure => suffix,
    }
}

/// The name of a group route's generated function, with `suffix` as its
/// distinguishing tail.
pub fn group_route_function_name(
    server_name: &str,
    path: &Vec<String>,
    method: HttpMethod,
    handler: &RouteHandler,
    suffix: &str,
) -> (r: String)
    ensures
        r@ == group_route_name(server_name@, path@.map_values(|p: String| p@), method, handler@, suffix@),
{
    let mut r = owned("__route_");
    r.append(server_name);
    r.append("_");
    r.append(method.as_str());
    append_prefixes(&mut r, path);
    r.append("_");
    match handler {
        RouteHandler::Path(last) => {
            r.append(last.as_str());
            r.append("_");
            r.append(suffix);
        },
        RouteHandler::Closure => {
            r.append(suffix);
        },
    }
    r
}

/// The name of a group route's generated function, with six random ASCII
/// letters and digits as its tail; `None` when the system generator cannot
/// seed a random generator.
pub fn group_route_function_ident<V>(server: &Server<V>, path: &Vec<String>, method: HttpMethod, handler: &RouteHandler) -> (r: Option<String>)
    ensures
        r matches Some(name) ==> exists|suffix: Seq<char>|
            suffix.len() == 6 && (forall|i: int| 0 <= i < 6 ==> is_ascii_alnum(#[trigger] suffix[i]))
                && name@ == group_route_name(server.name@, path@.map_values(|p: String| p@), method, handler@, suffix),
{
    let suffix = match random_6_chars() {
        Some(s) => s,
        None => return None,
    };
    Some(group_route_function_name(server.name.as_str(), path, method, handler, suffix.as_str()))
}

} // verus!
