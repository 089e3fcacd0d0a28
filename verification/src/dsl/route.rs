//! Routes of a declaration and the names derived from them.

use vstd::prelude::*;

use crate::dsl::config::{ConfigEntry, EntryView};
use crate::dsl::server::HttpMethod;
use crate::text::{chars_of, owned, string_from_chars};

verus! {

/// The handler of a route as the name derivations read it: a path (its
/// last segment's identifier), or a closure.
#[derive(Debug, Clone, PartialEq, Eq)]
pub enum RouteHandler {
    Path(String),
    Closure,
}

pub enum HandlerView {
    Path(Seq<char>),
    Closure,
}

impl View for RouteHandler {
    type V = HandlerView;

    open spec fn view(&self) -> HandlerView {
        match self {
            RouteHandler::Path(s) => HandlerView::Path(s@),
            RouteHandler::Closure => HandlerView::Closure,
        }
    }
}

impl RouteHandler {
    pub fn duplicate(&self) -> (r: RouteHandler)
        ensures
            r@ == self@,
    {
        match self {
            RouteHandler::Path(s) => RouteHandler::Path(s.clone()),
            RouteHandler::Closure => RouteHandler::Closure,
        }
    }
}

/// One route of a declaration: its method, its (already sanitized)
/// endpoint, its configuration entries and its handler.
pub struct Route<V> {
    pub method: HttpMethod,
    pub endpoint: String,
    pub config: Vec<ConfigEntry<V>>,
    pub middlewares: Vec<String>,
    pub handler: RouteHandler,
}

pub struct RouteView<V> {
    pub method: HttpMethod,
    pub endpoint: Seq<char>,
    pub config: Seq<EntryView<V>>,
    pub middlewares: Seq<Seq<char>>,
    pub handler: HandlerView,
}

/// The texts of a list of names.
pub open spec fn names_view(v: Seq<String>) -> Seq<Seq<char>> {
    v.map_values(|s: String| s@)
}

/// The views of a list of configuration entries.
pub open spec fn entries_view<V>(cfg: Seq<ConfigEntry<V>>) -> Seq<EntryView<V>> {
    cfg.map_values(|e: ConfigEntry<V>| e@)
}

impl<V> View for Route<V> {
    type V = RouteView<V>;

    open spec fn view(&self) -> RouteView<V> {
        RouteView {
            method: self.method,
            endpoint: self.endpoint@,
            config: entries_view(self.config@),
            middlewares: names_view(self.middlewares@),
            handler: self.handler@,
        }
    }
}

/// A copy of a list of configuration entries.
pub fn duplicate_entries<V: Copy>(cfg: &Vec<ConfigEntry<V>>) -> (r: Vec<ConfigEntry<V>>)
    ensures
        entries_view(r@) == entries_view(cfg@),
{
    let mut r: Vec<ConfigEntry<V>> = Vec::new();
    let mut i: usize = 0;
    while i < cfg.len()
        invariant
            i <= cfg.len(),
            r.len() == i,
            forall|k: int| 0 <= k < i ==> (#[trigger] r@[k])@ == cfg@[k]@,
        decreases cfg.len() - i,
    {
        r.push(cfg[i].duplicate());
        i += 1;
    }
    assert(entries_view(r@) =~= entries_view(cfg@));
    r
}

/// The character that stands for `c` in a name derived from an endpoint.
pub open spec fn ident_char(c: char) -> char {
    if c == '/' || c == '-' || c == '{' || c == '}' || c == ':' { '_' } else { c }
}

/// `"<METHOD>_<endpoint>"` with `/ - { } :` written `_`.
pub open spec fn endpoint_name_segment(verb: HttpMethod, endpoint: Seq<char>) -> Seq<char> {
    verb.name() + seq!['_'] + endpoint.map_values(|c: char| ident_char(c))
}

pub fn endpoint_to_function_name_segment(verb: &HttpMethod, endpoint: &str) -> (r: String)
    ensures
        r@ == endpoint_name_segment(*verb, endpoint@),
{
    let v = chars_of(endpoint);
    let mut out: Vec<char> = Vec::new();
    let mut i: usize = 0;
    while i < v.len()
        invariant
            i <= v.len(),
            out@ == v@.take(i as int).map_values(|c: char| ident_char(c)),
        decreases v.len() - i,
    {
        let c = v[i];
        let d = if c == '/' || c == '-' || c == '{' || c == '}' || c == ':' { '_' } else { c };
        out.push(d);
        assert(v@.take(i + 1) == v@.take(i as int).push(c));
        assert(v@.take(i + 1).map_values(|c: char| ident_char(c)) == v@.take(i as int).map_values(
            |c: char| ident_char(c),
        ).push(d));
        i += 1;
    }
    assert(v@.take(v.len() as int) == v@);
    let mut r = owned(verb.as_str());
    r.append("_");
    let tail = string_from_chars(&out);
    r.append(tail.as_str());
    proof { reveal_strlit("_"); }
    r
}

} // verus!
