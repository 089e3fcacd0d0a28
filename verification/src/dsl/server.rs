//! Servers of a declaration and the checks run on them.

use vstd::prelude::*;

use crate::dsl::group::{group_view, lemma_members_view, member_view, members_view, Group, GroupMember, GroupView, MemberView};
use crate::dsl::config::{custom_error_name, is_custom_error, ConfigEntry, EntryView};
use crate::dsl::route::{duplicate_entries, entries_view, Route, RouteView};
use crate::dsl::endpoint::{check_endpoint, endpoint_problem, normalize_route_endpoint, route_key, validate_endpoint, EndpointError};
use crate::dsl::port::{parse_port, parse_u16, IntError};
use crate::dsl::path::{trim_end_slashes, trim_start_slashes};
use crate::text::{chars_of, decimal, owned, string_from_chars, text_eq, write_decimal};
use crate::dsl::config::global_config_name;
use crate::dsl::config::is_global_config;

verus! {

/// An HTTP method of a route declaration.
#[derive(Debug, Clone, Copy, PartialEq, Eq, Structural, Hash)]
pub enum HttpMethod {
    Get,
    Post,
    Put,
    Patch,
    Delete,
    Options,
    Head,
    Trace,
    Query,
    Any,
}

impl HttpMethod {
    /// The display form of the method.
    pub open spec fn name(self) -> Seq<char> {
        match self {
            HttpMethod::Get => "GET"@,
            HttpMethod::Post => "POST"@,
            HttpMethod::Put => "PUT"@,
            HttpMethod::Patch => "PATCH"@,
            HttpMethod::Delete => "DELETE"@,
            HttpMethod::Options => "OPTIONS"@,
            HttpMethod::Head => "HEAD"@,
            HttpMethod::Trace => "TRACE"@,
            HttpMethod::Query => "QUERY"@,
            HttpMethod::Any => "ANY"@,
        }
    }

    pub fn as_str(&self) -> (r: &'static str)
        ensures
            r@ == self.name(),
    {
        match self {
            HttpMethod::Get => "GET",
            HttpMethod::Post => "POST",
            HttpMethod::Put => "PUT",
            HttpMethod::Patch => "PATCH",
            HttpMethod::Delete => "DELETE",
            HttpMethod::Options => "OPTIONS",
            HttpMethod::Head => "HEAD",
            HttpMethod::Trace => "TRACE",
            HttpMethod::Query => "QUERY",
            HttpMethod::Any => "ANY",
        }
    }
}


/// `child` appended to `parent` with exactly one `/` between them; an empty
/// side leaves the other unchanged.
pub open spec fn join_path(parent: Seq<char>, child: Seq<char>) -> Seq<char> {
    if parent.len() == 0 {
        child
    } else if child.len() == 0 {
        parent
    } else {
        trim_end_slashes(parent) + seq!['/'] + trim_start_slashes(child)
    }
}

/// The full endpoint and method of every route in a group, nested groups
/// included, in declaration order; `parent` is the prefix of the enclosing
/// groups.
pub open spec fn flatten_group<V>(g: GroupView<V>, parent: Seq<char>) -> Seq<(Seq<char>, HttpMethod)>
    decreases g,
{
    flatten_members(g.members, join_path(parent, g.prefix))
}

pub open spec fn flatten_members<V>(ms: Seq<MemberView<V>>, prefix: Seq<char>) -> Seq<(Seq<char>, HttpMethod)>
    decreases ms,
{
    if ms.len() == 0 {
        Seq::empty()
    } else {
        flatten_members(ms.drop_last(), prefix) + flatten_member(ms.last(), prefix)
    }
}

pub open spec fn flatten_member<V>(m: MemberView<V>, prefix: Seq<char>) -> Seq<(Seq<char>, HttpMethod)>
    decreases m,
{
    match m {
        MemberView::Route(r) => seq![(join_path(prefix, r.endpoint), r.method)],
        MemberView::Group(g) => flatten_group(g, prefix),
    }
}

/// The views of a list of (endpoint, method) pairs.
pub open spec fn pairs_view(v: Seq<(String, HttpMethod)>) -> Seq<(Seq<char>, HttpMethod)> {
    v.map_values(|p: (String, HttpMethod)| (p.0@, p.1))
}

fn join(parent: &str, child: &str) -> (r: String)
    ensures
        r@ == join_path(parent@, child@),
{
    let p = chars_of(parent);
    let c = chars_of(child);
    if p.len() == 0 {
        return owned(child);
    }
    if c.len() == 0 {
        return owned(parent);
    }
    let mut hi = p.len();
    assert(p@.take(p.len() as int) == p@);
    while hi > 0 && p[hi - 1] == '/'
        invariant
            hi <= p.len(),
            trim_end_slashes(p@) == trim_end_slashes(p@.take(hi as int)),
        decreases hi,
    {
        assert(p@.take(hi as int).drop_last() == p@.take(hi - 1));
        hi -= 1;
    }
    let mut lo: usize = 0;
    assert(c@.subrange(0, c.len() as int) == c@);
    while lo < c.len() && c[lo] == '/'
        invariant
            lo <= c.len(),
            trim_start_slashes(c@) == trim_start_slashes(c@.subrange(lo as int, c.len() as int)),
        decreases c.len() - lo,
    {
        assert(c@.subrange(lo as int, c.len() as int).drop_first() == c@.subrange(lo + 1, c.len() as int));
        lo += 1;
    }
    let mut out: Vec<char> = Vec::new();
    let mut i: usize = 0;
    while i < hi
        invariant
            i <= hi <= p.len(),
            out@ == p@.take(i as int),
        decreases hi - i,
    {
        out.push(p[i]);
        assert(p@.take(i + 1) == p@.take(i as int).push(p@[i as int]));
        i += 1;
    }
    out.push('/');
    let mut j: usize = lo;
    while j < c.len()
        invariant
            lo <= j <= c.len(),
            out@ == p@.take(hi as int) + seq!['/'] + c@.subrange(lo as int, j as int),
        decreases c.len() - j,
    {
        out.push(c[j]);
        assert(c@.subrange(lo as int, j + 1) == c@.subrange(lo as int, j as int).push(c@[j as int]));
        j += 1;
    }
    string_from_chars(&out)
}

fn flatten_visit<V>(group: &Group<V>, parent: &str, out: &mut Vec<(String, HttpMethod)>)
    ensures
        pairs_view(final(out)@) == pairs_view(old(out)@) + flatten_group(group_view(*group), parent@),
    decreases group_view(*group),
{
    let prefix = join(parent, group.prefix.as_str());
    let ghost gv = group_view(*group);
    proof { lemma_members_view(group.members@); }
    let ghost start = pairs_view(out@);
    let mut i: usize = 0;
    assert(gv.members.take(0) == Seq::<MemberView<V>>::empty());
    while i < group.members.len()
        invariant
            i <= group.members.len(),
            gv == group_view(*group),
            gv.members.len() == group.members.len(),
            forall|k: int| 0 <= k < group.members.len() ==> #[trigger] gv.members[k] == member_view(group.members@[k]),
            prefix@ == join_path(parent@, group.prefix@),
            pairs_view(out@) == start + flatten_members(gv.members.take(i as int), prefix@),
        decreases group.members.len() - i,
    {
        assert(gv.members.take(i + 1).drop_last() == gv.members.take(i as int));
        assert(gv.members.take(i + 1).last() == gv.members[i as int]);
        let ghost before = out@;
        match &group.members[i] {
            GroupMember::Route(route) => {
                let full = join(prefix.as_str(), route.endpoint.as_str());
                out.push((full, route.method));
                assert(gv.members[i as int] == MemberView::Route(route@));
                assert(pairs_view(out@) == pairs_view(before).push((full@, route.method)));
                let ghost t1 = gv.members.take(i + 1);
                assert(t1.len() > 0);
                assert(flatten_members(t1, prefix@) == flatten_members(t1.drop_last(), prefix@) + flatten_member(t1.last(), prefix@));
                assert(flatten_member(t1.last(), prefix@) == seq![(full@, route.method)]);
                assert(flatten_members(gv.members.take(i + 1), prefix@) == flatten_members(gv.members.take(i as int), prefix@) + seq![(full@, route.method)]);
                assert(pairs_view(out@) =~= start + flatten_members(gv.members.take(i + 1), prefix@));
            },
            GroupMember::Group(child) => {
                let ghost cv = group_view(**child);
                assert(gv.members[i as int] == MemberView::Group(cv));
                assert(decreases_to!(gv => gv.members));
                assert(decreases_to!(gv.members => gv.members[i as int]));
                assert(decreases_to!(gv.members[i as int] => gv.members[i as int]->Group_0));
                assert(decreases_to!(gv => cv));
                flatten_visit(child, prefix.as_str(), out);
                let ghost t1 = gv.members.take(i + 1);
                assert(flatten_members(t1, prefix@) == flatten_members(t1.drop_last(), prefix@) + flatten_member(t1.last(), prefix@));
                assert(flatten_member(t1.last(), prefix@) == flatten_group(cv, prefix@));
                assert(pairs_view(out@) =~= start + flatten_members(gv.members.take(i + 1), prefix@));
            },
        }
        i += 1;
    }
    assert(gv.members.take(group.members.len() as int) == gv.members);
}

/// The full endpoint and method of every route of `group`, in declaration
/// order.
pub fn flatten_group_endpoints<V>(group: &Group<V>) -> (r: Vec<(String, HttpMethod)>)
    ensures
        pairs_view(r@) == flatten_group(group_view(*group), Seq::<char>::empty()),
{
    let mut endpoints: Vec<(String, HttpMethod)> = Vec::new();
    flatten_visit(group, "", &mut endpoints);
    proof {
        reveal_strlit("");
        assert(pairs_view(Seq::<(String, HttpMethod)>::empty()) == Seq::<(Seq<char>, HttpMethod)>::empty());
    }
    endpoints
}


/// Some entry of `cfg` is named `name`.
pub open spec fn has_entry_named<V>(cfg: Seq<EntryView<V>>, name: Seq<char>) -> bool {
    exists|k: int| 0 <= k < cfg.len() && (#[trigger] cfg[k]).name == name
}

/// `cfg` followed by each entry of `inherited` whose name `cfg` (as grown
/// so far) does not hold yet.
pub open spec fn inherit_entries<V>(inherited: Seq<EntryView<V>>, cfg: Seq<EntryView<V>>) -> Seq<EntryView<V>>
    decreases inherited.len(),
{
    if inherited.len() == 0 {
        cfg
    } else {
        let c = inherit_entries(inherited.drop_last(), cfg);
        if has_entry_named(c, inherited.last().name) {
            c
        } else {
            c.push(inherited.last())
        }
    }
}

/// Inheriting keeps the child's own entries first and unchanged, adds no
/// entry under a name the child already defines (the child's value wins),
/// adds only inherited entries, and leaves every inherited name defined.
pub proof fn lemma_inherit_entries<V>(inherited: Seq<EntryView<V>>, cfg: Seq<EntryView<V>>)
    ensures
        ({
            let r = inherit_entries(inherited, cfg);
            &&& r.len() >= cfg.len()
            &&& r.take(cfg.len() as int) == cfg
            &&& forall|k: int| cfg.len() <= k < r.len() ==> !has_entry_named(cfg, (#[trigger] r[k]).name)
            &&& forall|k: int| cfg.len() <= k < r.len() ==> inherited.contains(#[trigger] r[k])
            &&& forall|i: int| 0 <= i < inherited.len() ==> has_entry_named(r, (#[trigger] inherited[i]).name)
        }),
    decreases inherited.len(),
{
    let r = inherit_entries(inherited, cfg);
    if inherited.len() == 0 {
        assert(r.take(cfg.len() as int) == cfg);
    } else {
        let t = inherited.drop_last();
        let c = inherit_entries(t, cfg);
        lemma_inherit_entries(t, cfg);
        let e = inherited.last();
        if has_entry_named(c, e.name) {
            assert(r == c);
        } else {
            assert(r == c.push(e));
            assert(r.take(cfg.len() as int) == c.take(cfg.len() as int));
            assert(!has_entry_named(cfg, e.name)) by {
                if has_entry_named(cfg, e.name) {
                    let j = choose|j: int| 0 <= j < cfg.len() && (#[trigger] cfg[j]).name == e.name;
                    assert(c.take(cfg.len() as int)[j] == c[j]);
                    assert(c[j].name == e.name);
                }
            }
            assert(r[r.len() - 1] == e);
            assert(has_entry_named(r, e.name)) by {
                assert(r[r.len() - 1].name == e.name);
            }
        }
        assert forall|k: int| cfg.len() <= k < r.len() implies inherited.contains(#[trigger] r[k]) by {
            if k < c.len() {
                assert(r[k] == c[k]);
                let i = choose|i: int| 0 <= i < t.len() && t[i] == c[k];
                assert(inherited[i] == t[i]);
            } else {
                assert(r[k] == inherited[inherited.len() - 1]);
            }
        }
        assert forall|k: int| cfg.len() <= k < r.len() implies !has_entry_named(cfg, (#[trigger] r[k]).name) by {
            if k < c.len() {
                assert(r[k] == c[k]);
            }
        }
        assert forall|i: int| 0 <= i < inherited.len() implies has_entry_named(r, (#[trigger] inherited[i]).name) by {
            if i < t.len() {
                assert(t[i] == inherited[i]);
                assert(has_entry_named(c, t[i].name));
                let k = choose|k: int| 0 <= k < c.len() && (#[trigger] c[k]).name == t[i].name;
                assert(r[k] == c[k]);
            } else {
                if has_entry_named(c, e.name) {
                    let k = choose|k: int| 0 <= k < c.len() && (#[trigger] c[k]).name == e.name;
                    assert(r[k] == c[k]);
                }
            }
        }
    }
}

/// The entries of `cfg` that configure a custom error response, in order.
pub open spec fn error_entries<V>(cfg: Seq<EntryView<V>>) -> Seq<EntryView<V>>
    decreases cfg.len(),
{
    if cfg.len() == 0 {
        cfg
    } else {
        let p = error_entries(cfg.drop_last());
        if custom_error_name(cfg.last().name) {
            p.push(cfg.last())
        } else {
            p
        }
    }
}

/// A group after inheriting `inherited`: the group fills in the handlers it
/// does not define, then passes its effective handlers down to its members.
pub open spec fn inherited_group<V>(inherited: Seq<EntryView<V>>, g: GroupView<V>) -> GroupView<V>
    decreases g,
{
    let cfg = inherit_entries(inherited, g.config);
    GroupView { prefix: g.prefix, config: cfg, middlewares: g.middlewares, members: inherited_members(error_entries(cfg), g.members) }
}

pub open spec fn inherited_members<V>(effective: Seq<EntryView<V>>, ms: Seq<MemberView<V>>) -> Seq<MemberView<V>>
    decreases ms,
{
    if ms.len() == 0 {
        ms
    } else {
        inherited_members(effective, ms.drop_last()).push(inherited_member(effective, ms.last()))
    }
}

pub open spec fn inherited_member<V>(effective: Seq<EntryView<V>>, m: MemberView<V>) -> MemberView<V>
    decreases m,
{
    match m {
        MemberView::Route(r) => MemberView::Route(inherited_route(effective, r)),
        MemberView::Group(g) => MemberView::Group(inherited_group(effective, g)),
    }
}

pub open spec fn inherited_route<V>(effective: Seq<EntryView<V>>, r: RouteView<V>) -> RouteView<V> {
    RouteView { config: inherit_entries(effective, r.config), ..r }
}

fn holds_name<V>(cfg: &Vec<ConfigEntry<V>>, name: &String) -> (r: bool)
    ensures
        r == has_entry_named(entries_view(cfg@), name@),
{
    let mut k: usize = 0;
    while k < cfg.len()
        invariant
            k <= cfg.len(),
            forall|j: int| 0 <= j < k ==> cfg@[j].name@ != name@,
        decreases cfg.len() - k,
    {
        if cfg[k].name == *name {
            assert(entries_view(cfg@)[k as int].name == name@);
            return true;
        }
        k += 1;
    }
    assert forall|j: int| 0 <= j < cfg.len() implies (#[trigger] entries_view(cfg@)[j]).name != name@ by {
        assert(entries_view(cfg@)[j] == cfg@[j]@);
    }
    false
}

/// Adds to `config` each handler of `inherited` that it does not define:
/// the child's own value always wins.
pub fn inherit_error_handlers<V: Copy>(inherited: &Vec<ConfigEntry<V>>, config: &mut Vec<ConfigEntry<V>>)
    ensures
        entries_view(final(config)@) == inherit_entries(entries_view(inherited@), entries_view(old(config)@)),
{
    let ghost start = entries_view(config@);
    let mut i: usize = 0;
    while i < inherited.len()
        invariant
            i <= inherited.len(),
            entries_view(config@) == inherit_entries(entries_view(inherited@).take(i as int), start),
        decreases inherited.len() - i,
    {
        let ghost inh = entries_view(inherited@);
        assert(inh.take(i + 1).drop_last() == inh.take(i as int));
        assert(inh.take(i + 1).last() == inherited@[i as int]@);
        let entry = &inherited[i];
        if !holds_name(config, &entry.name) {
            config.push(entry.duplicate());
            assert(entries_view(config@) == inherit_entries(inh.take(i as int), start).push(entry@));
        }
        i += 1;
    }
    assert(entries_view(inherited@).take(inherited.len() as int) == entries_view(inherited@));
}

/// The entries of `config` that configure a custom error response.
pub fn error_handlers<V: Copy>(config: &Vec<ConfigEntry<V>>) -> (r: Vec<ConfigEntry<V>>)
    ensures
        entries_view(r@) == error_entries(entries_view(config@)),
{
    let mut r: Vec<ConfigEntry<V>> = Vec::new();
    let mut i: usize = 0;
    while i < config.len()
        invariant
            i <= config.len(),
            entries_view(r@) == error_entries(entries_view(config@).take(i as int)),
        decreases config.len() - i,
    {
        let ghost cv = entries_view(config@);
        assert(cv.take(i + 1).drop_last() == cv.take(i as int));
        assert(cv.take(i + 1).last() == config@[i as int]@);
        if is_custom_error(config[i].name.as_str()) {
            r.push(config[i].duplicate());
            assert(entries_view(r@) == error_entries(cv.take(i as int)).push(config@[i as int]@));
        }
        i += 1;
    }
    assert(entries_view(config@).take(config.len() as int) == entries_view(config@));
    r
}

fn inherit_route<V: Copy>(effective: &Vec<ConfigEntry<V>>, route: &Route<V>) -> (r: Route<V>)
    ensures
        r@ == inherited_route(entries_view(effective@), route@),
{
    let mut config = duplicate_entries(&route.config);
    inherit_error_handlers(effective, &mut config);
    Route {
        method: route.method,
        endpoint: route.endpoint.clone(),
        config,
        middlewares: route.middlewares.clone(),
        handler: route.handler.duplicate(),
    }
}

/// The group after inheriting `inherited` (the closest ancestor's effective
/// handlers).
pub fn inherit_group_error_handlers<V: Copy>(inherited: &Vec<ConfigEntry<V>>, group: &Group<V>) -> (r: Group<V>)
    ensures
        group_view(r) == inherited_group(entries_view(inherited@), group_view(*group)),
    decreases group_view(*group),
{
    let mut config = duplicate_entries(&group.config);
    inherit_error_handlers(inherited, &mut config);
    let effective = error_handlers(&config);
    let ghost gv = group_view(*group);
    let ghost eff = entries_view(effective@);
    proof { lemma_members_view(group.members@); }
    let mut members: Vec<GroupMember<V>> = Vec::new();
    let mut i: usize = 0;
    while i < group.members.len()
        invariant
            i <= group.members.len(),
            gv == group_view(*group),
            eff == entries_view(effective@),
            gv.members.len() == group.members.len(),
            forall|k: int| 0 <= k < group.members.len() ==> #[trigger] gv.members[k] == member_view(group.members@[k]),
            members_view(members@) == inherited_members(eff, gv.members.take(i as int)),
        decreases group.members.len() - i,
    {
        assert(gv.members.take(i + 1).drop_last() == gv.members.take(i as int));
        assert(gv.members.take(i + 1).last() == gv.members[i as int]);
        let ghost before = members@;
        match &group.members[i] {
            GroupMember::Route(route) => {
                let r = inherit_route(&effective, route);
                assert(gv.members[i as int] == MemberView::Route(route@));
                members.push(GroupMember::Route(Box::new(r)));
                assert(members@.drop_last() == before);
                assert(member_view(members@.last()) == MemberView::Route(r@));
                assert(members_view(members@) == members_view(before).push(MemberView::Route(r@)));
                assert(inherited_member(eff, gv.members[i as int]) == MemberView::Route(r@));
            },
            GroupMember::Group(child) => {
                let ghost cv = group_view(**child);
                assert(gv.members[i as int] == MemberView::Group(cv));
                assert(decreases_to!(gv => gv.members));
                assert(decreases_to!(gv.members => gv.members[i as int]));
                assert(decreases_to!(gv.members[i as int] => gv.members[i as int]->Group_0));
                let c = inherit_group_error_handlers(&effective, child);
                members.push(GroupMember::Group(Box::new(c)));
                assert(members@.drop_last() == before);
                assert(member_view(members@.last()) == MemberView::Group(group_view(c)));
                assert(members_view(members@) == members_view(before).push(MemberView::Group(group_view(c))));
                assert(inherited_member(eff, gv.members[i as int]) == MemberView::Group(group_view(c)));
            },
        }
        i += 1;
    }
    assert(gv.members.take(group.members.len() as int) == gv.members);
    Group { prefix: group.prefix.clone(), config, middlewares: group.middlewares.clone(), members }
}


/// The kind of a declared server.
#[derive(Debug, Clone, Copy, PartialEq, Eq, Structural)]
pub enum ServerKind {
    Http,
    Mcp,
}

/// The body of a server declaration: its root configuration, its routes
/// and its groups.
pub struct ServerBody<V> {
    pub config: Vec<ConfigEntry<V>>,
    pub routes: Vec<Route<V>>,
    pub groups: Vec<Group<V>>,
}

/// One server declaration: kind, name, address, the digits of its port
/// literal, and its body.
pub struct Server<V> {
    pub kind: ServerKind,
    pub name: String,
    pub ip: String,
    pub port: String,
    pub body: ServerBody<V>,
}

/// A whole declaration: its servers in order.
pub struct GServer<V> {
    pub servers: Vec<Server<V>>,
}

pub struct BodyView<V> {
    pub config: Seq<EntryView<V>>,
    pub routes: Seq<RouteView<V>>,
    pub groups: Seq<GroupView<V>>,
}

pub open spec fn routes_view<V>(rs: Seq<Route<V>>) -> Seq<RouteView<V>> {
    rs.map_values(|r: Route<V>| r@)
}

pub open spec fn groups_view<V>(gs: Seq<Group<V>>) -> Seq<GroupView<V>> {
    gs.map_values(|g: Group<V>| group_view(g))
}

impl<V> View for ServerBody<V> {
    type V = BodyView<V>;

    open spec fn view(&self) -> BodyView<V> {
        BodyView {
            config: entries_view(self.config@),
            routes: routes_view(self.routes@),
            groups: groups_view(self.groups@),
        }
    }
}

/// The body after every route and group inherits the root's custom error
/// handlers.
pub open spec fn inherited_body<V>(b: BodyView<V>) -> BodyView<V> {
    let root = error_entries(b.config);
    BodyView {
        config: b.config,
        routes: b.routes.map_values(|r: RouteView<V>| inherited_route(root, r)),
        groups: b.groups.map_values(|g: GroupView<V>| inherited_group(root, g)),
    }
}

impl<V: Copy> ServerBody<V> {
    /// Passes the root's custom error handlers down: routes inherit from the
    /// root directly, groups from the root and then on to their members, the
    /// closest definition always winning.
    pub fn inherit_error_handlers(&mut self)
        ensures
            final(self)@ == inherited_body(old(self)@),
    {
        let inherited = error_handlers(&self.config);
        let ghost root = entries_view(inherited@);
        let mut routes: Vec<Route<V>> = Vec::new();
        let mut i: usize = 0;
        while i < self.routes.len()
            invariant
                i <= self.routes.len(),
                root == entries_view(inherited@),
                routes.len() == i,
                forall|k: int| 0 <= k < i ==> (#[trigger] routes@[k])@ == inherited_route(root, self.routes@[k]@),
            decreases self.routes.len() - i,
        {
            routes.push(inherit_route(&inherited, &self.routes[i]));
            i += 1;
        }
        let mut groups: Vec<Group<V>> = Vec::new();
        let mut j: usize = 0;
        while j < self.groups.len()
            invariant
                j <= self.groups.len(),
                root == entries_view(inherited@),
                groups.len() == j,
                forall|k: int| 0 <= k < j ==> group_view(#[trigger] groups@[k]) == inherited_group(root, group_view(self.groups@[k])),
            decreases self.groups.len() - j,
        {
            groups.push(inherit_group_error_handlers(&inherited, &self.groups[j]));
            j += 1;
        }
        let ghost old_view = self@;
        self.routes = routes;
        self.groups = groups;
        assert(self@.routes =~= inherited_body(old_view).routes);
        assert(self@.groups =~= inherited_body(old_view).groups);
    }
}

/// The first entry of `cfg` that only a server's root configuration may hold.
pub open spec fn first_global_entry<V>(cfg: Seq<EntryView<V>>) -> Option<EntryView<V>>
    decreases cfg.len(),
{
    if cfg.len() == 0 {
        None
    } else if global_config_name(cfg[0].name) {
        Some(cfg[0])
    } else {
        first_global_entry(cfg.drop_first())
    }
}

/// The first root-only entry met in a group: its own configuration first,
/// then its members in order.
pub open spec fn group_global_entry<V>(g: GroupView<V>) -> Option<EntryView<V>>
    decreases g,
{
    match first_global_entry(g.config) {
        Some(e) => Some(e),
        None => members_global_entry(g.members),
    }
}

pub open spec fn members_global_entry<V>(ms: Seq<MemberView<V>>) -> Option<EntryView<V>>
    decreases ms,
{
    if ms.len() == 0 {
        None
    } else {
        match members_global_entry(ms.drop_last()) {
            Some(e) => Some(e),
            None => member_global_entry(ms.last()),
        }
    }
}

pub open spec fn member_global_entry<V>(m: MemberView<V>) -> Option<EntryView<V>>
    decreases m,
{
    match m {
        MemberView::Route(r) => first_global_entry(r.config),
        MemberView::Group(g) => group_global_entry(g),
    }
}

/// The first root-only entry among the routes' configurations, then the
/// groups'.
pub open spec fn body_global_entry<V>(b: BodyView<V>) -> Option<EntryView<V>> {
    match routes_global_entry(b.routes) {
        Some(e) => Some(e),
        None => groups_global_entry(b.groups),
    }
}

pub open spec fn routes_global_entry<V>(rs: Seq<RouteView<V>>) -> Option<EntryView<V>>
    decreases rs.len(),
{
    if rs.len() == 0 {
        None
    } else {
        match routes_global_entry(rs.drop_last()) {
            Some(e) => Some(e),
            None => first_global_entry(rs.last().config),
        }
    }
}

pub open spec fn groups_global_entry<V>(gs: Seq<GroupView<V>>) -> Option<EntryView<V>>
    decreases gs.len(),
{
    if gs.len() == 0 {
        None
    } else {
        match groups_global_entry(gs.drop_last()) {
            Some(e) => Some(e),
            None => group_global_entry(gs.last()),
        }
    }
}

/// Refuses the first entry of `configs` that only a server's root
/// configuration may hold.
pub fn validate_non_global_configs<V: Copy>(configs: &Vec<ConfigEntry<V>>) -> (r: Result<(), ConfigEntry<V>>)
    ensures
        match first_global_entry(entries_view(configs@)) {
            None => r is Ok,
            Some(e) => r matches Err(x) && x@ == e,
        },
{
    let ghost cv = entries_view(configs@);
    let mut i: usize = 0;
    assert(cv.skip(0) == cv);
    while i < configs.len()
        invariant
            i <= configs.len(),
            cv == entries_view(configs@),
            first_global_entry(cv) == first_global_entry(cv.skip(i as int)),
        decreases configs.len() - i,
    {
        assert(cv.skip(i as int)[0] == configs@[i as int]@);
        assert(cv.skip(i as int).drop_first() == cv.skip(i + 1));
        if is_global_config(configs[i].name.as_str()) {
            return Err(configs[i].duplicate());
        }
        i += 1;
    }
    Ok(())
}

/// Refuses the first root-only entry met in a group.
pub fn validate_group_configs<V: Copy>(group: &Group<V>) -> (r: Result<(), ConfigEntry<V>>)
    ensures
        match group_global_entry(group_view(*group)) {
            None => r is Ok,
            Some(e) => r matches Err(x) && x@ == e,
        },
    decreases group_view(*group),
{
    let ghost gv = group_view(*group);
    validate_non_global_configs(&group.config)?;
    proof { lemma_members_view(group.members@); }
    let mut i: usize = 0;
    assert(gv.members.take(0) == Seq::<MemberView<V>>::empty());
    while i < group.members.len()
        invariant
            i <= group.members.len(),
            gv == group_view(*group),
            first_global_entry(gv.config) is None,
            gv.members.len() == group.members.len(),
            forall|k: int| 0 <= k < group.members.len() ==> #[trigger] gv.members[k] == member_view(group.members@[k]),
            members_global_entry(gv.members.take(i as int)) is None,
        decreases group.members.len() - i,
    {
        assert(gv.members.take(i + 1).drop_last() == gv.members.take(i as int));
        assert(gv.members.take(i + 1).last() == gv.members[i as int]);
        proof { lemma_members_prefix_none(gv.members, i as int); }
        match &group.members[i] {
            GroupMember::Route(route) => {
                assert(gv.members[i as int] == MemberView::Route(route@));
                if let Err(e) = validate_non_global_configs(&route.config) {
                    proof {
                        lemma_members_global_stable(gv.members, i + 1, gv.members.len() as int);
                        assert(gv.members.take(gv.members.len() as int) == gv.members);
                    }
                    return Err(e);
                }
            },
            GroupMember::Group(child) => {
                assert(gv.members[i as int] == MemberView::Group(group_view(**child)));
                assert(decreases_to!(gv => gv.members));
                assert(decreases_to!(gv.members => gv.members[i as int]));
                assert(decreases_to!(gv.members[i as int] => gv.members[i as int]->Group_0));
                if let Err(e) = validate_group_configs(child) {
                    proof {
                        lemma_members_global_stable(gv.members, i + 1, gv.members.len() as int);
                        assert(gv.members.take(gv.members.len() as int) == gv.members);
                    }
                    return Err(e);
                }
            },
        }
        i += 1;
    }
    assert(gv.members.take(group.members.len() as int) == gv.members);
    Ok(())
}

/// When the members before `i` hold no root-only entry, the first such
/// entry among the first `i + 1` members is member `i`'s.
proof fn lemma_members_prefix_none<V>(ms: Seq<MemberView<V>>, i: int)
    requires
        0 <= i < ms.len(),
        members_global_entry(ms.take(i)) is None,
    ensures
        members_global_entry(ms.take(i + 1)) == member_global_entry(ms[i]),
{
    assert(ms.take(i + 1).drop_last() == ms.take(i));
    assert(ms.take(i + 1).last() == ms[i]);
}

/// Once some member holds a root-only entry, longer prefixes report that
/// same entry.
proof fn lemma_members_global_stable<V>(ms: Seq<MemberView<V>>, i: int, m: int)
    requires
        0 <= i <= m <= ms.len(),
        members_global_entry(ms.take(i)) is Some,
    ensures
        members_global_entry(ms.take(m)) == members_global_entry(ms.take(i)),
    decreases m - i,
{
    if m > i {
        lemma_members_global_stable(ms, i, m - 1);
        assert(ms.take(m).drop_last() == ms.take(m - 1));
    }
}


/// Why a route is refused next to the routes before it.
#[derive(Debug, Clone, Copy, PartialEq, Eq, Structural)]
pub enum RouteProblem {
    /// The endpoint template is malformed.
    Endpoint(EndpointError),
    /// An `any` route shares its endpoint with an earlier route.
    DuplicateAny,
    /// A route shares its endpoint with an earlier `any` route.
    DuplicateExistingAny,
    /// An earlier route has the same method and endpoint.
    Duplicate,
}

/// The (method, endpoint key) pairs seen so far.
pub open spec fn keys_view(seen: Seq<(HttpMethod, String)>) -> Seq<(HttpMethod, Seq<char>)> {
    seen.map_values(|p: (HttpMethod, String)| (p.0, p.1@))
}

/// Checks one route, with endpoint `endpoint` and method `method`, against
/// the keys of the routes before it; on success the route's key is added.
pub open spec fn route_step(
    seen: Seq<(HttpMethod, Seq<char>)>,
    endpoint: Seq<char>,
    method: HttpMethod,
) -> Result<Seq<(HttpMethod, Seq<char>)>, RouteProblem> {
    match endpoint_problem(endpoint) {
        Some(e) => Err(RouteProblem::Endpoint(e)),
        None => {
            let key = route_key(endpoint);
            if method == HttpMethod::Any && exists|j: int| 0 <= j < seen.len() && (#[trigger] seen[j]).1 == key {
                Err(RouteProblem::DuplicateAny)
            } else if method != HttpMethod::Any && exists|j: int|
                0 <= j < seen.len() && (#[trigger] seen[j]).0 == HttpMethod::Any && seen[j].1 == key {
                Err(RouteProblem::DuplicateExistingAny)
            } else if exists|j: int| 0 <= j < seen.len() && #[trigger] seen[j] == (method, key) {
                Err(RouteProblem::Duplicate)
            } else {
                Ok(seen.push((method, key)))
            }
        },
    }
}

/// Checks the routes `es` (endpoint, method) in order, starting from the
/// keys `seen`: the first refusal and the index of the route it refuses,
/// or all the keys.
pub open spec fn route_scan(
    seen: Seq<(HttpMethod, Seq<char>)>,
    es: Seq<(Seq<char>, HttpMethod)>,
) -> Result<Seq<(HttpMethod, Seq<char>)>, (int, RouteProblem)>
    decreases es.len(),
{
    if es.len() == 0 {
        Ok(seen)
    } else {
        match route_scan(seen, es.drop_last()) {
            Err(e) => Err(e),
            Ok(s) => match route_step(s, es.last().0, es.last().1) {
                Err(p) => Err((es.len() - 1, p)),
                Ok(s2) => Ok(s2),
            },
        }
    }
}

fn check_route(seen: &mut Vec<(HttpMethod, String)>, endpoint: &str, method: HttpMethod) -> (r: Result<(), RouteProblem>)
    ensures
        match route_step(keys_view(old(seen)@), endpoint@, method) {
            Ok(s) => r is Ok && keys_view(final(seen)@) == s,
            Err(p) => r == Err::<(), RouteProblem>(p),
        },
{
    let ghost sv = keys_view(seen@);
    if let Err(e) = check_endpoint(endpoint) {
        return Err(RouteProblem::Endpoint(e));
    }
    let key = normalize_route_endpoint(endpoint);
    let mut any_same = false;
    let mut existing_any = false;
    let mut same = false;
    let mut j: usize = 0;
    while j < seen.len()
        invariant
            j <= seen.len(),
            sv == keys_view(seen@),
            any_same == exists|k: int| 0 <= k < j && (#[trigger] sv[k]).1 == key@,
            existing_any == exists|k: int| 0 <= k < j && (#[trigger] sv[k]).0 == HttpMethod::Any && sv[k].1 == key@,
            same == exists|k: int| 0 <= k < j && #[trigger] sv[k] == (method, key@),
        decreases seen.len() - j,
    {
        assert(sv[j as int] == (seen@[j as int].0, seen@[j as int].1@));
        let eq = text_eq(seen[j].1.as_str(), key.as_str());
        if eq {
            any_same = true;
            if seen[j].0 == HttpMethod::Any {
                existing_any = true;
            }
            if seen[j].0 == method {
                same = true;
            }
        }
        j += 1;
    }
    if method == HttpMethod::Any {
        if any_same {
            return Err(RouteProblem::DuplicateAny);
        }
    } else if existing_any {
        return Err(RouteProblem::DuplicateExistingAny);
    }
    if same {
        return Err(RouteProblem::Duplicate);
    }
    seen.push((method, key));
    assert(keys_view(seen@) =~= sv.push((method, route_key(endpoint@))));
    Ok(())
}

/// The (endpoint, method) pairs of top-level routes.
pub open spec fn route_entries<V>(rs: Seq<RouteView<V>>) -> Seq<(Seq<char>, HttpMethod)> {
    rs.map_values(|r: RouteView<V>| (r.endpoint, r.method))
}

/// Checks the top-level routes of an HTTP server, in order; `Err` carries
/// the index of the refused route.
pub fn validate_http_routes<V>(server: &Server<V>) -> (r: Result<(), (usize, RouteProblem)>)
    ensures
        server.kind == ServerKind::Mcp ==> r is Ok,
        server.kind == ServerKind::Http ==> match route_scan(Seq::empty(), route_entries(server.body@.routes)) {
            Ok(_) => r is Ok,
            Err((k, p)) => r matches Err((k2, p2)) && k2 as int == k && p2 == p,
        },
{
    if let ServerKind::Mcp = server.kind {
        return Ok(());
    }
    match scan_top_routes(server) {
        Ok(_) => Ok(()),
        Err(e) => Err(e),
    }
}

/// The keys the top-level routes leave when they are all accepted; none
/// when one of them is refused.
pub open spec fn top_keys<V>(rs: Seq<RouteView<V>>) -> Seq<(HttpMethod, Seq<char>)> {
    match route_scan(Seq::empty(), route_entries(rs)) {
        Ok(s) => s,
        Err(_) => Seq::empty(),
    }
}

/// Scans the top-level routes of a server in order: the keys of all of
/// them, or the first refusal.
fn scan_top_routes<V>(server: &Server<V>) -> (r: Result<Vec<(HttpMethod, String)>, (usize, RouteProblem)>)
    ensures
        match route_scan(Seq::empty(), route_entries(server.body@.routes)) {
            Ok(s) => r matches Ok(keys) && keys_view(keys@) == s,
            Err((k, p)) => r matches Err((k2, p2)) && k2 as int == k && p2 == p,
        },
{
    let routes = &server.body.routes;
    let ghost es = route_entries(server.body@.routes);
    let mut seen: Vec<(HttpMethod, String)> = Vec::new();
    let mut i: usize = 0;
    assert(es.take(0) == Seq::<(Seq<char>, HttpMethod)>::empty());
    assert(keys_view(seen@) == Seq::<(HttpMethod, Seq<char>)>::empty());
    while i < routes.len()
        invariant
            i <= routes.len(),
            routes == &server.body.routes,
            es == route_entries(server.body@.routes),
            es.len() == routes.len(),
            route_scan(Seq::empty(), es.take(i as int)) == Ok::<Seq<(HttpMethod, Seq<char>)>, (int, RouteProblem)>(keys_view(seen@)),
        decreases routes.len() - i,
    {
        assert(es.take(i + 1).drop_last() == es.take(i as int));
        assert(es.take(i + 1).last() == es[i as int]);
        assert(es[i as int] == (routes@[i as int].endpoint@, routes@[i as int].method));
        if let Err(p) = check_route(&mut seen, routes[i].endpoint.as_str(), routes[i].method) {
            proof { lemma_scan_err_stable(Seq::empty(), es, i + 1, es.len() as int); }
            assert(es.take(es.len() as int) == es);
            return Err((i, p));
        }
        i += 1;
    }
    assert(es.take(es.len() as int) == es);
    Ok(seen)
}

/// Once the scan has refused a route, checking more routes reports the same
/// refusal.
pub proof fn lemma_scan_err_stable(
    seen: Seq<(HttpMethod, Seq<char>)>,
    es: Seq<(Seq<char>, HttpMethod)>,
    i: int,
    m: int,
)
    requires
        0 <= i <= m <= es.len(),
        route_scan(seen, es.take(i)) is Err,
    ensures
        route_scan(seen, es.take(m)) == route_scan(seen, es.take(i)),
    decreases m - i,
{
    if m > i {
        lemma_scan_err_stable(seen, es, i, m - 1);
        assert(es.take(m).drop_last() == es.take(m - 1));
    }
}

/// Checks the routes of all groups in order, each group's routes flattened
/// and all of them sharing the keys seen so far: the first refusal with the
/// index of the group and of the route within its flattened routes.
pub open spec fn group_scan<V>(
    seen: Seq<(HttpMethod, Seq<char>)>,
    gs: Seq<GroupView<V>>,
) -> Result<Seq<(HttpMethod, Seq<char>)>, (int, int, RouteProblem)>
    decreases gs.len(),
{
    if gs.len() == 0 {
        Ok(seen)
    } else {
        match group_scan(seen, gs.drop_last()) {
            Err(e) => Err(e),
            Ok(s) => match route_scan(s, flatten_group(gs.last(), Seq::empty())) {
                Err((k, p)) => Err((gs.len() - 1, k, p)),
                Ok(s2) => Ok(s2),
            },
        }
    }
}

proof fn lemma_group_scan_err_stable<V>(
    seen: Seq<(HttpMethod, Seq<char>)>,
    gs: Seq<GroupView<V>>,
    i: int,
    m: int,
)
    requires
        0 <= i <= m <= gs.len(),
        group_scan(seen, gs.take(i)) is Err,
    ensures
        group_scan(seen, gs.take(m)) == group_scan(seen, gs.take(i)),
    decreases m - i,
{
    if m > i {
        lemma_group_scan_err_stable(seen, gs, i, m - 1);
        assert(gs.take(m).drop_last() == gs.take(m - 1));
    }
}

/// Checks the routes of every group of an HTTP server; `Err` carries the
/// group's index and the route's index among that group's flattened
/// routes.
pub fn validate_http_group_routes<V>(server: &Server<V>) -> (r: Result<(), (usize, usize, RouteProblem)>)
    ensures
        server.kind == ServerKind::Mcp ==> r is Ok,
        server.kind == ServerKind::Http ==> match group_scan(top_keys(server.body@.routes), server.body@.groups) {
            Ok(_) => r is Ok,
            Err((g, k, p)) => r matches Err((g2, k2, p2)) && g2 as int == g && k2 as int == k && p2 == p,
        },
{
    if let ServerKind::Mcp = server.kind {
        return Ok(());
    }
    let groups = &server.body.groups;
    let ghost gs = server.body@.groups;
    let ghost seed = top_keys(server.body@.routes);
    let mut seen: Vec<(HttpMethod, String)> = match scan_top_routes(server) {
        Ok(keys) => keys,
        Err(_) => Vec::new(),
    };
    let mut g: usize = 0;
    assert(gs.take(0) == Seq::<GroupView<V>>::empty());
    assert(keys_view(seen@) == seed);
    while g < groups.len()
        invariant
            g <= groups.len(),
            server.kind == ServerKind::Http,
            groups == &server.body.groups,
            gs == server.body@.groups,
            gs.len() == groups.len(),
            seed == top_keys(server.body@.routes),
            group_scan(seed, gs.take(g as int)) == Ok::<Seq<(HttpMethod, Seq<char>)>, (int, int, RouteProblem)>(keys_view(seen@)),
        decreases groups.len() - g,
    {
        assert(gs.take(g + 1).drop_last() == gs.take(g as int));
        assert(gs.take(g + 1).last() == gs[g as int]);
        assert(gs[g as int] == group_view(groups@[g as int]));
        let routes = flatten_group_endpoints(&groups[g]);
        let ghost es = pairs_view(routes@);
        let ghost s0 = keys_view(seen@);
        assert(es == flatten_group(gs[g as int], Seq::empty()));
        let mut i: usize = 0;
        assert(es.take(0) == Seq::<(Seq<char>, HttpMethod)>::empty());
        while i < routes.len()
            invariant
                i <= routes.len(),
                server.kind == ServerKind::Http,
                g < groups.len(),
                groups == &server.body.groups,
                gs == server.body@.groups,
                gs.len() == groups.len(),
                seed == top_keys(server.body@.routes),
                group_scan(seed, gs.take(g as int)) == Ok::<Seq<(HttpMethod, Seq<char>)>, (int, int, RouteProblem)>(s0),
                gs.take(g + 1).drop_last() == gs.take(g as int),
                gs.take(g + 1).last() == gs[g as int],
                es == flatten_group(gs[g as int], Seq::empty()),
                es == pairs_view(routes@),
                es.len() == routes.len(),
                route_scan(s0, es.take(i as int)) == Ok::<Seq<(HttpMethod, Seq<char>)>, (int, RouteProblem)>(keys_view(seen@)),
            decreases routes.len() - i,
        {
            assert(es.take(i + 1).drop_last() == es.take(i as int));
            assert(es.take(i + 1).last() == es[i as int]);
            assert(es[i as int] == (routes@[i as int].0@, routes@[i as int].1));
            if let Err(p) = check_route(&mut seen, routes[i].0.as_str(), routes[i].1) {
                proof {
                    lemma_scan_err_stable(s0, es, i + 1, es.len() as int);
                    assert(es.take(es.len() as int) == es);
                    lemma_group_scan_err_stable(seed, gs, g + 1, gs.len() as int);
                    assert(gs.take(gs.len() as int) == gs);
                }
                return Err((g, i, p));
            }
            i += 1;
        }
        assert(es.take(es.len() as int) == es);
        assert(group_scan(seed, gs.take(g + 1)) == Ok::<Seq<(HttpMethod, Seq<char>)>, (int, int, RouteProblem)>(keys_view(seen@)));
        g += 1;
    }
    assert(gs.take(gs.len() as int) == gs);
    Ok(())
}


/// Refuses the first root-only entry among an HTTP server's route and group
/// configurations.
pub fn validate_http_server_configs<V: Copy>(server: &Server<V>) -> (r: Result<(), ConfigEntry<V>>)
    ensures
        server.kind == ServerKind::Mcp ==> r is Ok,
        server.kind == ServerKind::Http ==> match body_global_entry(server.body@) {
            None => r is Ok,
            Some(e) => r matches Err(x) && x@ == e,
        },
{
    if let ServerKind::Mcp = server.kind {
        return Ok(());
    }
    let ghost b = server.body@;
    let routes = &server.body.routes;
    let mut i: usize = 0;
    assert(b.routes.take(0) == Seq::<RouteView<V>>::empty());
    while i < routes.len()
        invariant
            i <= routes.len(),
            server.kind == ServerKind::Http,
            routes == &server.body.routes,
            b == server.body@,
            b.routes.len() == routes.len(),
            routes_global_entry(b.routes.take(i as int)) is None,
        decreases routes.len() - i,
    {
        assert(b.routes.take(i + 1).drop_last() == b.routes.take(i as int));
        assert(b.routes.take(i + 1).last() == routes@[i as int]@);
        if let Err(e) = validate_non_global_configs(&routes[i].config) {
            proof { lemma_routes_global_stable(b.routes, i + 1, b.routes.len() as int); }
            assert(b.routes.take(b.routes.len() as int) == b.routes);
            return Err(e);
        }
        i += 1;
    }
    assert(b.routes.take(b.routes.len() as int) == b.routes);
    let groups = &server.body.groups;
    let mut g: usize = 0;
    assert(b.groups.take(0) == Seq::<GroupView<V>>::empty());
    while g < groups.len()
        invariant
            g <= groups.len(),
            server.kind == ServerKind::Http,
            groups == &server.body.groups,
            b == server.body@,
            routes_global_entry(b.routes) is None,
            b.groups.len() == groups.len(),
            groups_global_entry(b.groups.take(g as int)) is None,
        decreases groups.len() - g,
    {
        assert(b.groups.take(g + 1).drop_last() == b.groups.take(g as int));
        assert(b.groups.take(g + 1).last() == group_view(groups@[g as int]));
        if let Err(e) = validate_group_configs(&groups[g]) {
            proof { lemma_groups_global_stable(b.groups, g + 1, b.groups.len() as int); }
            assert(b.groups.take(b.groups.len() as int) == b.groups);
            return Err(e);
        }
        g += 1;
    }
    assert(b.groups.take(b.groups.len() as int) == b.groups);
    Ok(())
}

proof fn lemma_routes_global_stable<V>(rs: Seq<RouteView<V>>, i: int, m: int)
    requires
        0 <= i <= m <= rs.len(),
        routes_global_entry(rs.take(i)) is Some,
    ensures
        routes_global_entry(rs.take(m)) == routes_global_entry(rs.take(i)),
    decreases m - i,
{
    if m > i {
        lemma_routes_global_stable(rs, i, m - 1);
        assert(rs.take(m).drop_last() == rs.take(m - 1));
    }
}

proof fn lemma_groups_global_stable<V>(gs: Seq<GroupView<V>>, i: int, m: int)
    requires
        0 <= i <= m <= gs.len(),
        groups_global_entry(gs.take(i)) is Some,
    ensures
        groups_global_entry(gs.take(m)) == groups_global_entry(gs.take(i)),
    decreases m - i,
{
    if m > i {
        lemma_groups_global_stable(gs, i, m - 1);
        assert(gs.take(m).drop_last() == gs.take(m - 1));
    }
}

pub struct ServerView<V> {
    pub kind: ServerKind,
    pub name: Seq<char>,
    pub ip: Seq<char>,
    pub port: Seq<char>,
    pub body: BodyView<V>,
}

impl<V> View for Server<V> {
    type V = ServerView<V>;

    open spec fn view(&self) -> ServerView<V> {
        ServerView { kind: self.kind, name: self.name@, ip: self.ip@, port: self.port@, body: self.body@ }
    }
}

/// Why a declaration is refused, and where.
pub enum DslError<V> {
    /// Server `server` reuses an earlier server's name.
    DuplicateServerName { server: usize, name: String },
    /// Server `server`'s port literal is not a `u16`.
    InvalidPort { server: usize, problem: IntError },
    /// Server `server` reuses an earlier server's port.
    DuplicatePort { server: usize, port: u16 },
    /// A route or group of server `server` sets a root-only entry.
    GlobalOnlyConfig { server: usize, entry: ConfigEntry<V> },
    /// Route `route` of server `server` is refused.
    InvalidRoute { server: usize, route: usize, endpoint: String, method: HttpMethod, problem: RouteProblem },
    /// Route `route` (counted over the group's flattened routes) of group
    /// `group` of server `server` is refused; `endpoint` is its full
    /// endpoint.
    InvalidGroupRoute {
        server: usize,
        group: usize,
        route: usize,
        endpoint: String,
        method: HttpMethod,
        problem: RouteProblem,
    },
}

pub enum ErrorView<V> {
    DuplicateServerName { server: int, name: Seq<char> },
    InvalidPort { server: int, problem: IntError },
    DuplicatePort { server: int, port: u16 },
    GlobalOnlyConfig { server: int, entry: EntryView<V> },
    InvalidRoute { server: int, route: int, endpoint: Seq<char>, method: HttpMethod, problem: RouteProblem },
    InvalidGroupRoute { server: int, group: int, route: int, endpoint: Seq<char>, method: HttpMethod, problem: RouteProblem },
}

impl<V> View for DslError<V> {
    type V = ErrorView<V>;

    open spec fn view(&self) -> ErrorView<V> {
        match self {
            DslError::DuplicateServerName { server, name } => ErrorView::DuplicateServerName { server: *server as int, name: name@ },
            DslError::InvalidPort { server, problem } => ErrorView::InvalidPort { server: *server as int, problem: *problem },
            DslError::DuplicatePort { server, port } => ErrorView::DuplicatePort { server: *server as int, port: *port },
            DslError::GlobalOnlyConfig { server, entry } => ErrorView::GlobalOnlyConfig { server: *server as int, entry: entry@ },
            DslError::InvalidRoute { server, route, endpoint, method, problem } => ErrorView::InvalidRoute {
                server: *server as int,
                route: *route as int,
                endpoint: endpoint@,
                method: *method,
                problem: *problem,
            },
            DslError::InvalidGroupRoute { server, group, route, endpoint, method, problem } => ErrorView::InvalidGroupRoute {
                server: *server as int,
                group: *group as int,
                route: *route as int,
                endpoint: endpoint@,
                method: *method,
                problem: *problem,
            },
        }
    }
}

/// Checks server `i` against the names and ports of the servers before it.
pub open spec fn server_step<V>(
    names: Seq<Seq<char>>,
    ports: Seq<u16>,
    i: int,
    s: ServerView<V>,
) -> Result<(Seq<Seq<char>>, Seq<u16>), ErrorView<V>> {
    if names.contains(s.name) {
        Err(ErrorView::DuplicateServerName { server: i, name: s.name })
    } else {
        match parse_u16(s.port) {
            Err(p) => Err(ErrorView::InvalidPort { server: i, problem: p }),
            Ok(port) => if ports.contains(port) {
                Err(ErrorView::DuplicatePort { server: i, port })
            } else if s.kind == ServerKind::Http && body_global_entry(s.body) is Some {
                Err(ErrorView::GlobalOnlyConfig { server: i, entry: body_global_entry(s.body).unwrap() })
            } else if s.kind == ServerKind::Http && route_scan(Seq::empty(), route_entries(s.body.routes)) is Err {
                let (k, p) = route_scan(Seq::empty(), route_entries(s.body.routes))->Err_0;
                Err(ErrorView::InvalidRoute {
                    server: i,
                    route: k,
                    endpoint: s.body.routes[k].endpoint,
                    method: s.body.routes[k].method,
                    problem: p,
                })
            } else if s.kind == ServerKind::Http && group_scan(top_keys(s.body.routes), s.body.groups) is Err {
                let (g, k, p) = group_scan(top_keys(s.body.routes), s.body.groups)->Err_0;
                let e = flatten_group(s.body.groups[g], Seq::empty())[k];
                Err(ErrorView::InvalidGroupRoute { server: i, group: g, route: k, endpoint: e.0, method: e.1, problem: p })
            } else {
                Ok((names.push(s.name), ports.push(port)))
            },
        }
    }
}

/// Checks the servers in order: the first refusal, or the names and ports
/// of all of them.
pub open spec fn servers_scan<V>(ss: Seq<ServerView<V>>) -> Result<(Seq<Seq<char>>, Seq<u16>), ErrorView<V>>
    decreases ss.len(),
{
    if ss.len() == 0 {
        Ok((Seq::empty(), Seq::empty()))
    } else {
        match servers_scan(ss.drop_last()) {
            Err(e) => Err(e),
            Ok((names, ports)) => server_step(names, ports, ss.len() - 1, ss.last()),
        }
    }
}

pub open spec fn servers_view<V>(ss: Seq<Server<V>>) -> Seq<ServerView<V>> {
    ss.map_values(|s: Server<V>| s@)
}

proof fn lemma_servers_err_stable<V>(ss: Seq<ServerView<V>>, i: int, m: int)
    requires
        0 <= i <= m <= ss.len(),
        servers_scan(ss.take(i)) is Err,
    ensures
        servers_scan(ss.take(m)) == servers_scan(ss.take(i)),
    decreases m - i,
{
    if m > i {
        lemma_servers_err_stable(ss, i, m - 1);
        assert(ss.take(m).drop_last() == ss.take(m - 1));
    }
}

pub(crate) fn contains_name(names: &Vec<String>, name: &String) -> (r: bool)
    ensures
        r == names@.map_values(|n: String| n@).contains(name@),
{
    let ghost nv = names@.map_values(|n: String| n@);
    let mut k: usize = 0;
    while k < names.len()
        invariant
            k <= names.len(),
            nv == names@.map_values(|n: String| n@),
            forall|j: int| 0 <= j < k ==> nv[j] != name@,
        decreases names.len() - k,
    {
        if names[k] == *name {
            assert(nv[k as int] == name@);
            return true;
        }
        k += 1;
    }
    false
}

pub(crate) fn contains_port(ports: &Vec<u16>, port: u16) -> (r: bool)
    ensures
        r == ports@.contains(port),
{
    let mut k: usize = 0;
    while k < ports.len()
        invariant
            k <= ports.len(),
            forall|j: int| 0 <= j < k ==> ports@[j] != port,
        decreases ports.len() - k,
    {
        if ports[k] == port {
            assert(ports@[k as int] == port);
            return true;
        }
        k += 1;
    }
    false
}


fn check_server<V: Copy>(names: &Vec<String>, ports: &Vec<u16>, i: usize, server: &Server<V>) -> (r: Result<u16, DslError<V>>)
    ensures
        match server_step(names@.map_values(|n: String| n@), ports@, i as int, server@) {
            Ok((n2, p2)) => r matches Ok(port) && n2 == names@.map_values(|n: String| n@).push(server.name@) && p2 == ports@.push(port),
            Err(e) => r matches Err(x) && x@ == e,
        },
{
    let ghost sv = server@;
    if contains_name(names, &server.name) {
        return Err(DslError::DuplicateServerName { server: i, name: server.name.clone() });
    }
    let port = match parse_port(server.port.as_str()) {
        Ok(p) => p,
        Err(problem) => {
            return Err(DslError::InvalidPort { server: i, problem });
        },
    };
    if contains_port(ports, port) {
        return Err(DslError::DuplicatePort { server: i, port });
    }
    if let Err(entry) = validate_http_server_configs(server) {
        return Err(DslError::GlobalOnlyConfig { server: i, entry });
    }
    if let Err((k, problem)) = validate_http_routes(server) {
        proof {
            lemma_route_scan_index(Seq::empty(), route_entries(sv.body.routes));
            assert(route_entries(sv.body.routes)[k as int] == (server.body.routes@[k as int].endpoint@, server.body.routes@[k as int].method));
        }
        assert(sv.body.routes[k as int] == server.body.routes@[k as int]@);
        let route = &server.body.routes[k];
        return Err(DslError::InvalidRoute {
            server: i,
            route: k,
            endpoint: route.endpoint.clone(),
            method: route.method,
            problem,
        });
    }
    if let Err((g, k, problem)) = validate_http_group_routes(server) {
        proof { lemma_group_scan_index(top_keys(sv.body.routes), sv.body.groups); }
        assert(sv.body.groups.len() == server.body.groups.len());
        let flat = flatten_group_endpoints(&server.body.groups[g]);
        proof {
            lemma_group_scan_index(top_keys(sv.body.routes), sv.body.groups);
            assert(sv.body.groups[g as int] == group_view(server.body.groups@[g as int]));
            assert(pairs_view(flat@)[k as int] == (flat@[k as int].0@, flat@[k as int].1));
            assert(server.kind == ServerKind::Http);
            assert(flatten_group(sv.body.groups[g as int], Seq::empty())[k as int] == (flat@[k as int].0@, flat@[k as int].1));
        }
        return Err(DslError::InvalidGroupRoute {
            server: i,
            group: g,
            route: k,
            endpoint: flat[k].0.clone(),
            method: flat[k].1,
            problem,
        });
    }
    Ok(port)
}

/// Checks a whole declaration: server names and ports are unique, and each
/// HTTP server's routes and groups hold no root-only entries, no malformed
/// endpoints and no clashing routes.
pub fn validate_servers<V: Copy>(servers: &Vec<Server<V>>) -> (r: Result<(), DslError<V>>)
    ensures
        match servers_scan(servers_view(servers@)) {
            Ok(_) => r is Ok,
            Err(e) => r matches Err(x) && x@ == e,
        },
{
    let ghost ss = servers_view(servers@);
    let mut names: Vec<String> = Vec::new();
    let mut ports: Vec<u16> = Vec::new();
    let mut i: usize = 0;
    assert(ss.take(0) == Seq::<ServerView<V>>::empty());
    assert(names@.map_values(|n: String| n@) == Seq::<Seq<char>>::empty());
    while i < servers.len()
        invariant
            i <= servers.len(),
            ss == servers_view(servers@),
            ss.len() == servers.len(),
            servers_scan(ss.take(i as int)) == Ok::<(Seq<Seq<char>>, Seq<u16>), ErrorView<V>>(
                (names@.map_values(|n: String| n@), ports@),
            ),
        decreases servers.len() - i,
    {
        assert(ss.take(i + 1).drop_last() == ss.take(i as int));
        assert(ss.take(i + 1).last() == servers@[i as int]@);
        let server = &servers[i];
        let ghost sv = server@;
        let ghost names_before = names@.map_values(|n: String| n@);
        let ghost ports_before = ports@;
        let res = check_server(&names, &ports, i, server);
        match res {
            Err(e) => {
                proof {
                    lemma_servers_err_stable(ss, i + 1, ss.len() as int);
                    assert(ss.take(ss.len() as int) == ss);
                }
                return Err(e);
            },
            Ok(port) => {
                names.push(server.name.clone());
                ports.push(port);
                assert(names@.map_values(|n: String| n@) =~= names_before.push(sv.name));
            },
        }
        i += 1;
    }
    assert(ss.take(ss.len() as int) == ss);
    Ok(())
}

/// A refused group scan names a group that exists and a route within that
/// group's flattened routes.
proof fn lemma_group_scan_index<V>(seen: Seq<(HttpMethod, Seq<char>)>, gs: Seq<GroupView<V>>)
    ensures
        group_scan(seen, gs) matches Err((g, k, p)) ==> 0 <= g < gs.len() && 0 <= k < flatten_group(gs[g], Seq::empty()).len(),
    decreases gs.len(),
{
    if gs.len() > 0 {
        lemma_group_scan_index(seen, gs.drop_last());
        if let Ok(s) = group_scan(seen, gs.drop_last()) {
            lemma_route_scan_index(s, flatten_group(gs.last(), Seq::empty()));
        }
    }
}

/// A refused route scan names a route that exists.
pub proof fn lemma_route_scan_index(seen: Seq<(HttpMethod, Seq<char>)>, es: Seq<(Seq<char>, HttpMethod)>)
    ensures
        route_scan(seen, es) matches Err((k, p)) ==> 0 <= k < es.len(),
    decreases es.len(),
{
    if es.len() > 0 {
        lemma_route_scan_index(seen, es.drop_last());
    }
}

impl<V: Copy> GServer<V> {
    /// A declaration, once its servers pass [`validate_servers`].
    pub fn try_new(servers: Vec<Server<V>>) -> (r: Result<GServer<V>, DslError<V>>)
        ensures
            match servers_scan(servers_view(servers@)) {
                Ok(_) => r matches Ok(g) && g.servers@ == servers@,
                Err(e) => r matches Err(x) && x@ == e,
            },
    {
        validate_servers(&servers)?;
        Ok(GServer { servers })
    }
}


/// The key of each route, in order.
pub open spec fn entry_keys(es: Seq<(Seq<char>, HttpMethod)>) -> Seq<(HttpMethod, Seq<char>)> {
    es.map_values(|e: (Seq<char>, HttpMethod)| (e.1, route_key(e.0)))
}

/// Keys `i` and `k` of `all` may stand together: they differ, and differ in
/// endpoint when either is `any`.
pub open spec fn keys_compatible(all: Seq<(HttpMethod, Seq<char>)>, i: int, k: int) -> bool {
    &&& all[i] != all[k]
    &&& (all[i].0 == HttpMethod::Any || all[k].0 == HttpMethod::Any) ==> all[i].1 != all[k].1
}

proof fn lemma_route_scan_ok(seen: Seq<(HttpMethod, Seq<char>)>, es: Seq<(Seq<char>, HttpMethod)>)
    requires
        route_scan(seen, es) is Ok,
    ensures
        route_scan(seen, es)->Ok_0 == seen + entry_keys(es),
        forall|i: int| 0 <= i < es.len() ==> endpoint_problem((#[trigger] es[i]).0) is None,
        forall|i: int, k: int|
            0 <= i < k < seen.len() + es.len() && seen.len() <= k ==> #[trigger] keys_compatible(seen + entry_keys(es), i, k),
    decreases es.len(),
{
    if es.len() > 0 {
        let t = es.drop_last();
        lemma_route_scan_ok(seen, t);
        let s = route_scan(seen, t)->Ok_0;
        let e = es.last();
        assert(entry_keys(es) == entry_keys(t).push((e.1, route_key(e.0))));
        let all = seen + entry_keys(es);
        let prev = seen + entry_keys(t);
        assert(all == prev.push((e.1, route_key(e.0))));
        assert forall|i: int| 0 <= i < es.len() implies endpoint_problem((#[trigger] es[i]).0) is None by {
            if i < t.len() {
                assert(es[i] == t[i]);
            }
        }
        assert forall|i: int, k: int|
            0 <= i < k < seen.len() + es.len() && seen.len() <= k implies #[trigger] keys_compatible(all, i, k) by {
            if k < prev.len() {
                assert(keys_compatible(prev, i, k));
                assert(all[i] == prev[i] && all[k] == prev[k]);
            } else {
                assert(all[i] == s[i]);
                let key = route_key(e.0);
                if e.1 == HttpMethod::Any {
                    assert(!(s[i].1 == key));
                } else {
                    assert(!(s[i].0 == HttpMethod::Any && s[i].1 == key));
                    assert(!(s[i] == (e.1, key)));
                }
            }
        }
    } else {
        assert(seen + entry_keys(es) == seen);
    }
}

/// When a server's routes are accepted, every endpoint is well formed, no
/// two routes share both method and endpoint key, and an `any` route
/// shares its endpoint key with no other route.
pub proof fn lemma_accepted_routes_distinct(es: Seq<(Seq<char>, HttpMethod)>)
    requires
        route_scan(Seq::empty(), es) is Ok,
    ensures
        forall|i: int| 0 <= i < es.len() ==> endpoint_problem((#[trigger] es[i]).0) is None,
        forall|i: int, j: int|
            0 <= i < j < es.len() ==> !(#[trigger] es[i].1 == #[trigger] es[j].1 && route_key(es[i].0) == route_key(es[j].0)),
        forall|i: int, j: int|
            0 <= i < j < es.len() && (#[trigger] es[i].1 == HttpMethod::Any || #[trigger] es[j].1 == HttpMethod::Any)
                ==> route_key(es[i].0) != route_key(es[j].0),
{
    let seen = Seq::<(HttpMethod, Seq<char>)>::empty();
    lemma_route_scan_ok(seen, es);
    assert(seen + entry_keys(es) == entry_keys(es));
    assert forall|i: int, j: int| 0 <= i < j < es.len() implies !(#[trigger] es[i].1 == #[trigger] es[j].1 && route_key(es[i].0) == route_key(es[j].0)) by {
        assert(keys_compatible(entry_keys(es), i, j));
        assert(entry_keys(es)[i] == (es[i].1, route_key(es[i].0)));
        assert(entry_keys(es)[j] == (es[j].1, route_key(es[j].0)));
    }
    assert forall|i: int, j: int|
        0 <= i < j < es.len() && (#[trigger] es[i].1 == HttpMethod::Any || #[trigger] es[j].1 == HttpMethod::Any)
        implies route_key(es[i].0) != route_key(es[j].0) by {
        assert(keys_compatible(entry_keys(es), i, j));
        assert(entry_keys(es)[i] == (es[i].1, route_key(es[i].0)));
        assert(entry_keys(es)[j] == (es[j].1, route_key(es[j].0)));
    }
}

/// The full endpoint and method of every route of every group, groups in
/// order.
pub open spec fn group_routes<V>(gs: Seq<GroupView<V>>) -> Seq<(Seq<char>, HttpMethod)>
    decreases gs.len(),
{
    if gs.len() == 0 {
        Seq::empty()
    } else {
        group_routes(gs.drop_last()) + flatten_group(gs.last(), Seq::empty())
    }
}

proof fn lemma_route_scan_concat(
    seen: Seq<(HttpMethod, Seq<char>)>,
    a: Seq<(Seq<char>, HttpMethod)>,
    b: Seq<(Seq<char>, HttpMethod)>,
)
    requires
        route_scan(seen, a) is Ok,
        route_scan(route_scan(seen, a)->Ok_0, b) is Ok,
    ensures
        route_scan(seen, a + b) == route_scan(route_scan(seen, a)->Ok_0, b),
    decreases b.len(),
{
    if b.len() == 0 {
        assert(a + b == a);
    } else {
        let s = route_scan(seen, a)->Ok_0;
        assert(route_scan(s, b.drop_last()) is Ok);
        lemma_route_scan_concat(seen, a, b.drop_last());
        assert((a + b).drop_last() == a + b.drop_last());
        assert((a + b).last() == b.last());
    }
}

proof fn lemma_group_scan_routes<V>(seen: Seq<(HttpMethod, Seq<char>)>, gs: Seq<GroupView<V>>)
    requires
        group_scan(seen, gs) is Ok,
    ensures
        route_scan(seen, group_routes(gs)) is Ok,
        route_scan(seen, group_routes(gs))->Ok_0 == group_scan(seen, gs)->Ok_0,
    decreases gs.len(),
{
    if gs.len() == 0 {
        assert(route_scan(seen, Seq::<(Seq<char>, HttpMethod)>::empty()) == Ok::<Seq<(HttpMethod, Seq<char>)>, (int, RouteProblem)>(seen));
    } else {
        let t = gs.drop_last();
        assert(group_scan(seen, t) is Ok);
        lemma_group_scan_routes(seen, t);
        let s = group_scan(seen, t)->Ok_0;
        assert(route_scan(s, flatten_group(gs.last(), Seq::empty())) is Ok);
        lemma_route_scan_concat(seen, group_routes(t), flatten_group(gs.last(), Seq::empty()));
    }
}

/// When a server's routes and groups are accepted, every route of the
/// server, top-level or in a group (full endpoint), is well formed, no two
/// of them share both method and endpoint key, and an `any` route shares
/// its endpoint key with no other route.
pub proof fn lemma_accepted_server_routes_distinct<V>(rs: Seq<RouteView<V>>, gs: Seq<GroupView<V>>)
    requires
        route_scan(Seq::empty(), route_entries(rs)) is Ok,
        group_scan(top_keys(rs), gs) is Ok,
    ensures
        ({
            let es = route_entries(rs) + group_routes(gs);
            &&& forall|i: int| 0 <= i < es.len() ==> endpoint_problem((#[trigger] es[i]).0) is None
            &&& forall|i: int, j: int|
                0 <= i < j < es.len() ==> !(#[trigger] es[i].1 == #[trigger] es[j].1 && route_key(es[i].0) == route_key(es[j].0))
            &&& forall|i: int, j: int|
                0 <= i < j < es.len() && (#[trigger] es[i].1 == HttpMethod::Any || #[trigger] es[j].1 == HttpMethod::Any)
                    ==> route_key(es[i].0) != route_key(es[j].0)
        }),
{
    let seed = top_keys(rs);
    lemma_group_scan_routes(seed, gs);
    lemma_route_scan_concat(Seq::empty(), route_entries(rs), group_routes(gs));
    lemma_accepted_routes_distinct(route_entries(rs) + group_routes(gs));
}

proof fn lemma_server_step_ok<V>(names: Seq<Seq<char>>, ports: Seq<u16>, i: int, s: ServerView<V>)
    requires
        server_step(names, ports, i, s) is Ok,
    ensures
        !names.contains(s.name),
        parse_u16(s.port) is Ok,
        !ports.contains(parse_u16(s.port)->Ok_0),
        server_step(names, ports, i, s)->Ok_0 == (names.push(s.name), ports.push(parse_u16(s.port)->Ok_0)),
        s.kind == ServerKind::Http ==> {
            &&& body_global_entry(s.body) is None
            &&& route_scan(Seq::empty(), route_entries(s.body.routes)) is Ok
            &&& group_scan(top_keys(s.body.routes), s.body.groups) is Ok
        },
{
}

/// When a declaration is accepted, its servers have pairwise distinct names
/// and ports, and each HTTP server passes the configuration, route and
/// group checks.
#[verifier::spinoff_prover]
#[verifier::rlimit(40)]
pub proof fn lemma_accepted_servers_distinct<V>(ss: Seq<ServerView<V>>)
    requires
        servers_scan(ss) is Ok,
    ensures
        servers_scan(ss)->Ok_0.0 == ss.map_values(|s: ServerView<V>| s.name),
        forall|i: int| 0 <= i < ss.len() ==> parse_u16((#[trigger] ss[i]).port) is Ok,
        forall|i: int, j: int| 0 <= i < j < ss.len() ==> (#[trigger] ss[i]).name != (#[trigger] ss[j]).name,
        forall|i: int, j: int| 0 <= i < j < ss.len() ==> parse_u16((#[trigger] ss[i]).port) != parse_u16((#[trigger] ss[j]).port),
        forall|i: int| 0 <= i < ss.len() && (#[trigger] ss[i]).kind == ServerKind::Http ==> {
            &&& body_global_entry(ss[i].body) is None
            &&& route_scan(Seq::empty(), route_entries(ss[i].body.routes)) is Ok
            &&& group_scan(top_keys(ss[i].body.routes), ss[i].body.groups) is Ok
        },
    decreases ss.len(),
{
    if ss.len() > 0 {
        let t = ss.drop_last();
        lemma_accepted_servers_distinct(t);
        let (names, ports) = servers_scan(t)->Ok_0;
        lemma_servers_ports(t);
        let last = ss.last();
        lemma_server_step_ok(names, ports, ss.len() - 1, last);
        assert(ss.map_values(|s: ServerView<V>| s.name) == t.map_values(|s: ServerView<V>| s.name).push(last.name));
        assert forall|i: int| 0 <= i < ss.len() implies parse_u16((#[trigger] ss[i]).port) is Ok by {
            if i < t.len() {
                assert(ss[i] == t[i]);
            }
        }
        assert forall|i: int, j: int| 0 <= i < j < ss.len() implies (#[trigger] ss[i]).name != (#[trigger] ss[j]).name by {
            assert(ss[i] == t[i]);
            if j < t.len() {
                assert(ss[j] == t[j]);
            } else {
                assert(names[i] == t[i].name);
            }
        }
        assert forall|i: int, j: int| 0 <= i < j < ss.len() implies parse_u16((#[trigger] ss[i]).port) != parse_u16((#[trigger] ss[j]).port) by {
            assert(ss[i] == t[i]);
            if j < t.len() {
                assert(ss[j] == t[j]);
            } else {
                assert(ports[i] == parse_u16(t[i].port)->Ok_0);
            }
        }
        assert forall|i: int| 0 <= i < ss.len() && (#[trigger] ss[i]).kind == ServerKind::Http implies {
            &&& body_global_entry(ss[i].body) is None
            &&& route_scan(Seq::empty(), route_entries(ss[i].body.routes)) is Ok
            &&& group_scan(top_keys(ss[i].body.routes), ss[i].body.groups) is Ok
        } by {
            if i < t.len() {
                assert(ss[i] == t[i]);
            }
        }
    }
}

/// The ports an accepted scan collects are the parsed ports, in order.
proof fn lemma_servers_ports<V>(ss: Seq<ServerView<V>>)
    requires
        servers_scan(ss) is Ok,
    ensures
        servers_scan(ss)->Ok_0.1.len() == ss.len(),
        forall|i: int| 0 <= i < ss.len() ==> #[trigger] servers_scan(ss)->Ok_0.1[i] == parse_u16(ss[i].port)->Ok_0,
    decreases ss.len(),
{
    if ss.len() > 0 {
        let t = ss.drop_last();
        lemma_servers_ports(t);
        assert forall|i: int| 0 <= i < ss.len() implies #[trigger] servers_scan(ss)->Ok_0.1[i] == parse_u16(ss[i].port)->Ok_0 by {
            if i < t.len() {
                assert(ss[i] == t[i]);
            }
        }
    }
}


/// The message for a refused route with endpoint `endpoint` and method
/// `method`; `in_group` selects the wording for group routes.
pub open spec fn route_problem_text(problem: RouteProblem, endpoint: Seq<char>, method: HttpMethod, in_group: bool) -> Seq<char> {
    match problem {
        RouteProblem::Endpoint(e) => e.text(),
        RouteProblem::DuplicateAny => "duplicate endpoint for `any`: "@ + endpoint,
        RouteProblem::DuplicateExistingAny => "duplicate endpoint for existing `any`: "@ + endpoint,
        RouteProblem::Duplicate => if in_group {
            "duplicate group route: "@ + method.name() + " "@ + route_key(endpoint)
        } else {
            "duplicate route: "@ + method.name() + " "@ + route_key(endpoint)
        },
    }
}

/// The message reported for a refusal.
pub open spec fn error_text<V>(e: ErrorView<V>) -> Seq<char> {
    match e {
        ErrorView::DuplicateServerName { name, .. } => "duplicate server name `"@ + name + "`"@,
        ErrorView::InvalidPort { problem, .. } => problem.text(),
        ErrorView::DuplicatePort { port, .. } => "duplicate server port `"@ + decimal(port as nat) + "`"@,
        ErrorView::GlobalOnlyConfig { entry, .. } => "`"@ + entry.name + "` only allowed for global config"@,
        ErrorView::InvalidRoute { endpoint, method, problem, .. } => route_problem_text(problem, endpoint, method, false),
        ErrorView::InvalidGroupRoute { endpoint, method, problem, .. } => route_problem_text(problem, endpoint, method, true),
    }
}

fn route_problem_message(problem: RouteProblem, endpoint: &str, method: HttpMethod, in_group: bool) -> (r: String)
    ensures
        r@ == route_problem_text(problem, endpoint@, method, in_group),
{
    match problem {
        RouteProblem::Endpoint(e) => owned(e.message()),
        RouteProblem::DuplicateAny => {
            let mut m = owned("duplicate endpoint for `any`: ");
            m.append(endpoint);
            m
        },
        RouteProblem::DuplicateExistingAny => {
            let mut m = owned("duplicate endpoint for existing `any`: ");
            m.append(endpoint);
            m
        },
        RouteProblem::Duplicate => {
            let mut m = if in_group { owned("duplicate group route: ") } else { owned("duplicate route: ") };
            m.append(method.as_str());
            m.append(" ");
            let key = normalize_route_endpoint(endpoint);
            m.append(key.as_str());
            m
        },
    }
}

impl<V> DslError<V> {
    /// The message reported for this refusal.
    pub fn message(&self) -> (r: String)
        ensures
            r@ == error_text(self@),
    {
        match self {
            DslError::DuplicateServerName { name, .. } => {
                let mut m = owned("duplicate server name `");
                m.append(name.as_str());
                m.append("`");
                m
            },
            DslError::InvalidPort { problem, .. } => owned(problem.message()),
            DslError::DuplicatePort { port, .. } => {
                let mut m = owned("duplicate server port `");
                write_decimal(*port as u64, &mut m);
                m.append("`");
                m
            },
            DslError::GlobalOnlyConfig { entry, .. } => {
                let mut m = owned("`");
                m.append(entry.name.as_str());
                m.append("` only allowed for global config");
                m
            },
            DslError::InvalidRoute { endpoint, method, problem, .. } => route_problem_message(
                *problem,
                endpoint.as_str(),
                *method,
                false,
            ),
            DslError::InvalidGroupRoute { endpoint, method, problem, .. } => route_problem_message(
                *problem,
                endpoint.as_str(),
                *method,
                true,
            ),
        }
    }
}

} // verus!
