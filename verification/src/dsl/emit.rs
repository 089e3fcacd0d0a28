//! The functions a group expands to, in the order they are generated: each
//! route member's function as it is met, each group's own function after
//! those of its members.

use vstd::prelude::*;

use crate::dsl::group::{group_view, lemma_members_view, member_view, Group, GroupMember, GroupView, MemberView};
use crate::dsl::route::names_view;
use crate::dsl::server::{flatten_group, flatten_member, flatten_members, join_path, HttpMethod};

verus! {

/// One generated function of a group: for a route, the prefixes of the
/// enclosing groups and the middlewares that wrap its handler, outermost
/// first; for a group, its prefixes. `at` is the member's position, as the
/// index taken at each level below the root group.
pub enum EmitView {
    Route { path: Seq<Seq<char>>, middlewares: Seq<Seq<char>>, at: Seq<int>, endpoint: Seq<char>, method: HttpMethod },
    Group { path: Seq<Seq<char>>, at: Seq<int> },
}

/// The prefixes a member is named by: a nested group adds its own prefix.
pub open spec fn member_path<V>(m: MemberView<V>, path: Seq<Seq<char>>) -> Seq<Seq<char>> {
    match m {
        MemberView::Route(_) => path,
        MemberView::Group(c) => path.push(c.prefix),
    }
}

/// What member `m` generates, given the middlewares `mws` of the levels
/// above, its prefixes and its position. The members of a group receive
/// the levels above's middlewares followed by the group's own.
pub open spec fn emit_member<V>(m: MemberView<V>, mws: Seq<Seq<char>>, path: Seq<Seq<char>>, at: Seq<int>) -> Seq<EmitView>
    decreases m,
{
    match m {
        MemberView::Route(r) => seq![EmitView::Route { path, middlewares: mws + r.middlewares, at, endpoint: r.endpoint, method: r.method }],
        MemberView::Group(g) => emit_members(g.members, mws + g.middlewares, path, at) + seq![EmitView::Group { path, at }],
    }
}

pub open spec fn emit_members<V>(ms: Seq<MemberView<V>>, mws: Seq<Seq<char>>, path: Seq<Seq<char>>, at: Seq<int>) -> Seq<EmitView>
    decreases ms,
{
    if ms.len() == 0 {
        Seq::empty()
    } else {
        emit_members(ms.drop_last(), mws, path, at) + emit_member(
            ms.last(),
            mws,
            member_path(ms.last(), path),
            at.push(ms.len() - 1),
        )
    }
}

/// What a root group generates: it starts from no middlewares and its own
/// prefix, so that each enclosing group's middlewares wrap a route once,
/// the outermost group's first.
pub open spec fn emit_root<V>(g: GroupView<V>) -> Seq<EmitView> {
    emit_member(MemberView::Group(g), Seq::empty(), seq![g.prefix], Seq::empty())
}

/// One generated function of a group (see [`EmitView`]).
pub enum Emission {
    Route { path: Vec<String>, middlewares: Vec<String>, at: Vec<usize>, endpoint: String, method: HttpMethod },
    Group { path: Vec<String>, at: Vec<usize> },
}

pub open spec fn at_view(v: Seq<usize>) -> Seq<int> {
    v.map_values(|k: usize| k as int)
}

impl View for Emission {
    type V = EmitView;

    open spec fn view(&self) -> EmitView {
        match self {
            Emission::Route { path, middlewares, at, endpoint, method } => EmitView::Route {
                path: names_view(path@),
                middlewares: names_view(middlewares@),
                at: at_view(at@),
                endpoint: endpoint@,
                method: *method,
            },
            Emission::Group { path, at } => EmitView::Group { path: names_view(path@), at: at_view(at@) },
        }
    }
}

pub open spec fn emissions_view(v: Seq<Emission>) -> Seq<EmitView> {
    v.map_values(|e: Emission| e@)
}

/// `a` followed by `b`.
fn concat_names(a: &Vec<String>, b: &Vec<String>) -> (r: Vec<String>)
    ensures
        names_view(r@) == names_view(a@) + names_view(b@),
{
    let mut r: Vec<String> = Vec::new();
    let mut i: usize = 0;
    while i < a.len()
        invariant
            i <= a.len(),
            names_view(r@) == names_view(a@.take(i as int)),
        decreases a.len() - i,
    {
        let ghost before = r@;
        let c = a[i].clone();
        r.push(c);
        assert(r@ == before.push(c));
        assert(names_view(r@) =~= names_view(before).push(c@));
        assert(a@.take(i + 1) == a@.take(i as int).push(a@[i as int]));
        assert(names_view(a@.take(i + 1)) =~= names_view(a@.take(i as int)).push(a@[i as int]@));
        i += 1;
    }
    assert(a@.take(a.len() as int) == a@);
    let mut j: usize = 0;
    while j < b.len()
        invariant
            j <= b.len(),
            names_view(r@) == names_view(a@) + names_view(b@.take(j as int)),
        decreases b.len() - j,
    {
        let ghost before = r@;
        let c = b[j].clone();
        r.push(c);
        assert(r@ == before.push(c));
        assert(names_view(r@) =~= names_view(before).push(c@));
        assert(b@.take(j + 1) == b@.take(j as int).push(b@[j as int]));
        assert(names_view(b@.take(j + 1)) =~= names_view(b@.take(j as int)).push(b@[j as int]@));
        assert(names_view(r@) =~= names_view(a@) + names_view(b@.take(j + 1)));
        j += 1;
    }
    assert(b@.take(b.len() as int) == b@);
    r
}

fn copy_names(a: &Vec<String>) -> (r: Vec<String>)
    ensures
        names_view(r@) == names_view(a@),
{
    let empty: Vec<String> = Vec::new();
    let r = concat_names(a, &empty);
    assert(names_view(empty@) =~= Seq::<Seq<char>>::empty());
    assert(names_view(a@) + Seq::<Seq<char>>::empty() =~= names_view(a@));
    r
}

fn with_index(at: &Vec<usize>, k: usize) -> (r: Vec<usize>)
    ensures
        at_view(r@) == at_view(at@).push(k as int),
{
    let mut r = at.clone();
    assert(r@ == at@);
    r.push(k);
    assert(at_view(r@) =~= at_view(at@).push(k as int));
    r
}

fn emit_group_visit<V>(g: &Group<V>, mws: &Vec<String>, path: &Vec<String>, at: &Vec<usize>, out: &mut Vec<Emission>)
    ensures
        emissions_view(final(out)@) == emissions_view(old(out)@) + emit_member(
            MemberView::Group(group_view(*g)),
            names_view(mws@),
            names_view(path@),
            at_view(at@),
        ),
    decreases group_view(*g),
{
    let ghost gv = group_view(*g);
    let ghost start = emissions_view(out@);
    let current = concat_names(mws, &g.middlewares);
    let ghost cur = names_view(mws@) + gv.middlewares;
    let ghost pv = names_view(path@);
    let ghost av = at_view(at@);
    proof { lemma_members_view(g.members@); }
    assert(gv.members.take(0) == Seq::<MemberView<V>>::empty());
    let mut i: usize = 0;
    while i < g.members.len()
        invariant
            i <= g.members.len(),
            gv == group_view(*g),
            gv.members.len() == g.members.len(),
            forall|k: int| 0 <= k < g.members.len() ==> #[trigger] gv.members[k] == member_view(g.members@[k]),
            names_view(current@) == cur,
            cur == names_view(mws@) + gv.middlewares,
            pv == names_view(path@),
            av == at_view(at@),
            emissions_view(out@) == start + emit_members(gv.members.take(i as int), cur, pv, av),
        decreases g.members.len() - i,
    {
        let ghost t1 = gv.members.take(i + 1);
        assert(t1.drop_last() == gv.members.take(i as int));
        assert(t1.last() == gv.members[i as int]);
        let ghost before = emissions_view(out@);
        let child_at = with_index(at, i);
        match &g.members[i] {
            GroupMember::Route(route) => {
                assert(gv.members[i as int] == MemberView::Route(route@));
                let child_path = copy_names(path);
                let wrapped = concat_names(&current, &route.middlewares);
                out.push(Emission::Route {
                    path: child_path,
                    middlewares: wrapped,
                    at: child_at,
                    endpoint: route.endpoint.clone(),
                    method: route.method,
                });
                assert(emissions_view(out@) =~= before.push(EmitView::Route {
                    path: pv,
                    middlewares: cur + route@.middlewares,
                    at: av.push(i as int),
                    endpoint: route@.endpoint,
                    method: route@.method,
                }));
                assert(emit_member(t1.last(), cur, member_path(t1.last(), pv), av.push(i as int)) == seq![EmitView::Route {
                    path: pv,
                    middlewares: cur + route@.middlewares,
                    at: av.push(i as int),
                    endpoint: route@.endpoint,
                    method: route@.method,
                }]);
                assert(emissions_view(out@) =~= start + emit_members(gv.members.take(i + 1), cur, pv, av));
            },
            GroupMember::Group(child) => {
                let ghost cv = group_view(**child);
                assert(gv.members[i as int] == MemberView::Group(cv));
                assert(decreases_to!(gv => gv.members));
                assert(decreases_to!(gv.members => gv.members[i as int]));
                assert(decreases_to!(gv.members[i as int] => gv.members[i as int]->Group_0));
                assert(decreases_to!(gv => cv));
                let mut child_path = copy_names(path);
                child_path.push(child.prefix.clone());
                assert(names_view(child_path@) =~= pv.push(cv.prefix));
                emit_group_visit(child, &current, &child_path, &child_at, out);
                assert(emissions_view(out@) =~= start + emit_members(gv.members.take(i + 1), cur, pv, av));
            },
        }
        i += 1;
    }
    assert(gv.members.take(g.members.len() as int) == gv.members);
    let own_path = copy_names(path);
    let own_at = at.clone();
    assert(own_at@ == at@);
    let ghost before = emissions_view(out@);
    out.push(Emission::Group { path: own_path, at: own_at });
    assert(emissions_view(out@) =~= before.push(EmitView::Group { path: pv, at: av }));
    assert(emissions_view(out@) =~= start + (emit_members(gv.members, cur, pv, av) + seq![EmitView::Group { path: pv, at: av }]));
}

/// The functions root group `group` generates, in order (see
/// [`emit_root`]).
pub fn group_emissions<V>(group: &Group<V>) -> (r: Vec<Emission>)
    ensures
        emissions_view(r@) == emit_root(group_view(*group)),
{
    let mut out: Vec<Emission> = Vec::new();
    let mut path: Vec<String> = Vec::new();
    path.push(group.prefix.clone());
    let at: Vec<usize> = Vec::new();
    let mws: Vec<String> = Vec::new();
    assert(names_view(mws@) =~= Seq::<Seq<char>>::empty());
    assert(names_view(path@) =~= seq![group.prefix@]);
    assert(at_view(at@) =~= Seq::<int>::empty());
    emit_group_visit(group, &mws, &path, &at, &mut out);
    assert(emissions_view(Seq::<Emission>::empty()) =~= Seq::<EmitView>::empty());
    out
}

/// The prefixes joined as the groups they come from join them.
pub open spec fn joined_prefix(path: Seq<Seq<char>>) -> Seq<char>
    decreases path.len(),
{
    if path.len() == 0 {
        Seq::empty()
    } else {
        join_path(joined_prefix(path.drop_last()), path.last())
    }
}

/// The full endpoint and method of each generated route function, in
/// order.
pub open spec fn emitted_routes(es: Seq<EmitView>) -> Seq<(Seq<char>, HttpMethod)>
    decreases es.len(),
{
    if es.len() == 0 {
        Seq::empty()
    } else {
        let prev = emitted_routes(es.drop_last());
        match es.last() {
            EmitView::Route { path, endpoint, method, .. } => prev.push((join_path(joined_prefix(path), endpoint), method)),
            EmitView::Group { .. } => prev,
        }
    }
}

proof fn lemma_emitted_concat(a: Seq<EmitView>, b: Seq<EmitView>)
    ensures
        emitted_routes(a + b) == emitted_routes(a) + emitted_routes(b),
    decreases b.len(),
{
    if b.len() == 0 {
        assert(a + b == a);
        assert(emitted_routes(a) + emitted_routes(b) == emitted_routes(a));
    } else {
        lemma_emitted_concat(a, b.drop_last());
        assert((a + b).drop_last() == a + b.drop_last());
        assert((a + b).last() == b.last());
    }
}

proof fn lemma_emit_member_routes<V>(m: MemberView<V>, mws: Seq<Seq<char>>, path: Seq<Seq<char>>, at: Seq<int>, parent: Seq<char>)
    requires
        match m {
            MemberView::Route(_) => joined_prefix(path) == parent,
            MemberView::Group(g) => joined_prefix(path) == join_path(parent, g.prefix),
        },
    ensures
        emitted_routes(emit_member(m, mws, path, at)) == flatten_member(m, parent),
    decreases m, 1int,
{
    match m {
        MemberView::Route(r) => {
            let e = seq![EmitView::Route { path, middlewares: mws + r.middlewares, at, endpoint: r.endpoint, method: r.method }];
            assert(e.drop_last() == Seq::<EmitView>::empty());
            assert(emitted_routes(Seq::<EmitView>::empty()) == Seq::<(Seq<char>, HttpMethod)>::empty());
            assert(emitted_routes(e) == Seq::<(Seq<char>, HttpMethod)>::empty().push((join_path(parent, r.endpoint), r.method)));
            assert(flatten_member(m, parent) == seq![(join_path(parent, r.endpoint), r.method)]);
            assert(emitted_routes(e) =~= seq![(join_path(parent, r.endpoint), r.method)]);
        },
        MemberView::Group(g) => {
            lemma_emit_members_routes(g.members, mws + g.middlewares, path, at);
            let inner = emit_members(g.members, mws + g.middlewares, path, at);
            let tail = seq![EmitView::Group { path, at }];
            lemma_emitted_concat(inner, tail);
            assert(tail.drop_last() == Seq::<EmitView>::empty());
            assert(emitted_routes(Seq::<EmitView>::empty()) == Seq::<(Seq<char>, HttpMethod)>::empty());
            assert(emitted_routes(tail) == Seq::<(Seq<char>, HttpMethod)>::empty());
            assert(emitted_routes(inner) + Seq::<(Seq<char>, HttpMethod)>::empty() == emitted_routes(inner));
        },
    }
}

proof fn lemma_emit_members_routes<V>(ms: Seq<MemberView<V>>, mws: Seq<Seq<char>>, path: Seq<Seq<char>>, at: Seq<int>)
    ensures
        emitted_routes(emit_members(ms, mws, path, at)) == flatten_members(ms, joined_prefix(path)),
    decreases ms, 0int,
{
    if ms.len() > 0 {
        let last = ms.last();
        lemma_emit_members_routes(ms.drop_last(), mws, path, at);
        let mp = member_path(last, path);
        match last {
            MemberView::Route(_) => {},
            MemberView::Group(c) => {
                assert(mp.drop_last() == path);
                assert(joined_prefix(mp) == join_path(joined_prefix(path), c.prefix));
            },
        }
        assert(decreases_to!(ms => ms[ms.len() - 1]));
        lemma_emit_member_routes(last, mws, mp, at.push(ms.len() - 1), joined_prefix(path));
        lemma_emitted_concat(
            emit_members(ms.drop_last(), mws, path, at),
            emit_member(last, mws, mp, at.push(ms.len() - 1)),
        );
    }
}

/// The route functions a group expands to are the routes its checks see:
/// the same full endpoints and methods, in the same order.
pub proof fn lemma_emitted_routes_are_checked<V>(g: GroupView<V>)
    ensures
        emitted_routes(emit_root(g)) == flatten_group(g, Seq::empty()),
{
    let path = seq![g.prefix];
    assert(path.drop_last() == Seq::<Seq<char>>::empty());
    assert(joined_prefix(Seq::<Seq<char>>::empty()) == Seq::<char>::empty());
    assert(joined_prefix(path) == join_path(Seq::<char>::empty(), g.prefix));
    lemma_emit_member_routes(MemberView::Group(g), Seq::empty(), path, Seq::empty(), Seq::empty());
}

/// The middlewares around the member at position `at` below `m`: those of
/// each group on the way down, outermost first, then the member's own.
pub open spec fn middlewares_along<V>(m: MemberView<V>, at: Seq<int>) -> Seq<Seq<char>>
    decreases at.len(),
{
    match m {
        MemberView::Route(r) => r.middlewares,
        MemberView::Group(g) => if at.len() == 0 {
            g.middlewares
        } else {
            g.middlewares + middlewares_along(g.members[at[0]], at.drop_first())
        },
    }
}

spec fn wrapped_below<V>(e: EmitView, m: MemberView<V>, mws: Seq<Seq<char>>, at0: Seq<int>) -> bool {
    match e {
        EmitView::Route { middlewares, at, .. } => {
            &&& at0.len() <= at.len()
            &&& at.take(at0.len() as int) == at0
            &&& middlewares == mws + middlewares_along(m, at.skip(at0.len() as int))
        },
        EmitView::Group { .. } => true,
    }
}

spec fn wrapped_among<V>(e: EmitView, ms: Seq<MemberView<V>>, mws: Seq<Seq<char>>, at0: Seq<int>) -> bool {
    match e {
        EmitView::Route { middlewares, at, .. } => {
            &&& at0.len() < at.len()
            &&& at.take(at0.len() as int) == at0
            &&& 0 <= at[at0.len() as int] < ms.len()
            &&& middlewares == mws + middlewares_along(ms[at[at0.len() as int]], at.skip(at0.len() as int + 1))
        },
        EmitView::Group { .. } => true,
    }
}

proof fn lemma_member_wrapped<V>(m: MemberView<V>, mws: Seq<Seq<char>>, path: Seq<Seq<char>>, at0: Seq<int>)
    ensures
        forall|k: int| 0 <= k < emit_member(m, mws, path, at0).len()
            ==> wrapped_below(#[trigger] emit_member(m, mws, path, at0)[k], m, mws, at0),
    decreases m, 1int,
{
    match m {
        MemberView::Route(r) => {
            assert(at0.take(at0.len() as int) == at0);
            assert(at0.skip(at0.len() as int) == Seq::<int>::empty());
        },
        MemberView::Group(g) => {
            let inner_mws = mws + g.middlewares;
            lemma_members_wrapped(g.members, inner_mws, path, at0);
            let inner = emit_members(g.members, inner_mws, path, at0);
            let es = emit_member(m, mws, path, at0);
            assert forall|k: int| 0 <= k < es.len() implies wrapped_below(#[trigger] es[k], m, mws, at0) by {
                if k < inner.len() {
                    assert(es[k] == inner[k]);
                    assert(wrapped_among(inner[k], g.members, inner_mws, at0));
                    match inner[k] {
                        EmitView::Route { middlewares, at, .. } => {
                            let rel = at.skip(at0.len() as int);
                            assert(rel[0] == at[at0.len() as int]);
                            assert(rel.drop_first() == at.skip(at0.len() as int + 1));
                            let below = middlewares_along(g.members[at[at0.len() as int]], at.skip(at0.len() as int + 1));
                            assert(middlewares_along(m, rel) == g.middlewares + below);
                            assert(inner_mws + below =~= mws + (g.middlewares + below));
                        },
                        EmitView::Group { .. } => {},
                    }
                }
            }
        },
    }
}

proof fn lemma_members_wrapped<V>(ms: Seq<MemberView<V>>, mws: Seq<Seq<char>>, path: Seq<Seq<char>>, at0: Seq<int>)
    ensures
        forall|k: int| 0 <= k < emit_members(ms, mws, path, at0).len()
            ==> wrapped_among(#[trigger] emit_members(ms, mws, path, at0)[k], ms, mws, at0),
    decreases ms, 0int,
{
    if ms.len() > 0 {
        let d = ms.drop_last();
        let last = ms.last();
        let n = ms.len() - 1;
        let pos = at0.push(n);
        lemma_members_wrapped(d, mws, path, at0);
        assert(decreases_to!(ms => ms[ms.len() - 1]));
        lemma_member_wrapped(last, mws, member_path(last, path), pos);
        let a = emit_members(d, mws, path, at0);
        let b = emit_member(last, mws, member_path(last, path), pos);
        let es = emit_members(ms, mws, path, at0);
        assert(es == a + b);
        assert forall|k: int| 0 <= k < es.len() implies wrapped_among(#[trigger] es[k], ms, mws, at0) by {
            if k < a.len() {
                assert(es[k] == a[k]);
                assert(wrapped_among(a[k], d, mws, at0));
                match a[k] {
                    EmitView::Route { at, .. } => {
                        assert(d[at[at0.len() as int]] == ms[at[at0.len() as int]]);
                    },
                    EmitView::Group { .. } => {},
                }
            } else {
                assert(es[k] == b[k - a.len()]);
                assert(wrapped_below(b[k - a.len()], last, mws, pos));
                match b[k - a.len()] {
                    EmitView::Route { at, .. } => {
                        assert(at.take(pos.len() as int) == pos);
                        assert(at.take(at0.len() as int) == pos.take(at0.len() as int));
                        assert(pos.take(at0.len() as int) == at0);
                        assert(at[at0.len() as int] == pos[at0.len() as int]);
                        assert(ms[n] == last);
                        assert(at.skip(pos.len() as int) == at.skip(at0.len() as int + 1));
                    },
                    EmitView::Group { .. } => {},
                }
            }
        }
    }
}

/// Each route function a root group generates is wrapped in the
/// middlewares of every group on the way down to the route, each group's
/// once and the outermost group's first, then in the route's own.
pub proof fn lemma_emitted_middlewares<V>(g: GroupView<V>)
    ensures
        forall|k: int| 0 <= k < emit_root(g).len() ==> match #[trigger] emit_root(g)[k] {
            EmitView::Route { middlewares, at, .. } => middlewares == middlewares_along(MemberView::Group(g), at),
            EmitView::Group { .. } => true,
        },
{
    let m = MemberView::Group(g);
    let empty_mws = Seq::<Seq<char>>::empty();
    lemma_member_wrapped(m, empty_mws, seq![g.prefix], Seq::empty());
    let es = emit_root(g);
    assert forall|k: int| 0 <= k < es.len() implies match #[trigger] es[k] {
        EmitView::Route { middlewares, at, .. } => middlewares == middlewares_along(m, at),
        EmitView::Group { .. } => true,
    } by {
        assert(wrapped_below(es[k], m, empty_mws, Seq::empty()));
        match es[k] {
            EmitView::Route { at, .. } => {
                assert(at.skip(0) == at);
                assert(empty_mws + middlewares_along(m, at) == middlewares_along(m, at));
            },
            EmitView::Group { .. } => {},
        }
    }
}

} // verus!
