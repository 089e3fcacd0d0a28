//! Groups of routes sharing an endpoint prefix, possibly nested.

use vstd::prelude::*;

use crate::dsl::config::{ConfigEntry, EntryView};
use crate::dsl::route::{entries_view, names_view, Route, RouteView};
use crate::dsl::server::Server;
use crate::text::{chars_of, decimal, owned, string_from_chars, write_decimal};

verus! {

/// A group: a prefix prepended to every member's endpoint, its own
/// configuration entries, middleware names, and at least one member.
pub struct Group<V> {
    pub prefix: String,
    pub config: Vec<ConfigEntry<V>>,
    pub middlewares: Vec<String>,
    pub members: Vec<GroupMember<V>>,
}

/// A member of a group: a route or a nested group.
pub enum GroupMember<V> {
    Route(Box<Route<V>>),
    Group(Box<Group<V>>),
}

pub struct GroupView<V> {
    pub prefix: Seq<char>,
    pub config: Seq<EntryView<V>>,
    pub middlewares: Seq<Seq<char>>,
    pub members: Seq<MemberView<V>>,
}

pub enum MemberView<V> {
    Route(RouteView<V>),
    Group(GroupView<V>),
}

/// The abstract content of a group.
pub open spec fn group_view<V>(g: Group<V>) -> GroupView<V>
    decreases g,
{
    GroupView {
        prefix: g.prefix@,
        config: entries_view(g.config@),
        middlewares: names_view(g.middlewares@),
        members: members_view(g.members@),
    }
}

/// The abstract content of a list of members.
pub open spec fn members_view<V>(ms: Seq<GroupMember<V>>) -> Seq<MemberView<V>>
    decreases ms,
{
    if ms.len() == 0 {
        Seq::empty()
    } else {
        members_view(ms.drop_last()).push(member_view(ms.last()))
    }
}

pub open spec fn member_view<V>(m: GroupMember<V>) -> MemberView<V>
    decreases m,
{
    match m {
        GroupMember::Route(r) => MemberView::Route(r@),
        GroupMember::Group(g) => MemberView::Group(group_view(*g)),
    }
}

/// A list of members has as many views as members, each the member's own.
pub proof fn lemma_members_view<V>(ms: Seq<GroupMember<V>>)
    ensures
        members_view(ms).len() == ms.len(),
        forall|k: int| 0 <= k < ms.len() ==> #[trigger] members_view(ms)[k] == member_view(ms[k]),
    decreases ms.len(),
{
    if ms.len() > 0 {
        lemma_members_view(ms.drop_last());
    }
}

/// The prefix as a name part: a leading `/` dropped, and every other `/`
/// and `-` written `_`.
pub open spec fn prefix_name_part(prefix: Seq<char>) -> Seq<char> {
    let s = if prefix.len() > 0 && prefix[0] == '/' { prefix.drop_first() } else { prefix };
    s.map_values(|c: char| if c == '/' || c == '-' { '_' } else { c })
}

/// Removes a leading `/` and writes other occurrences of `/` and `-` as `_`.
pub fn sanitize_prefix(prefix: &str) -> (r: String)
    ensures
        r@ == prefix_name_part(prefix@),
{
    let v = chars_of(prefix);
    let start: usize = if v.len() > 0 && v[0] == '/' { 1 } else { 0 };
    let ghost s = if v@.len() > 0 && v@[0] == '/' { v@.drop_first() } else { v@ };
    assert(s == v@.subrange(start as int, v.len() as int));
    let mut out: Vec<char> = Vec::new();
    let mut i: usize = start;
    while i < v.len()
        invariant
            start <= i <= v.len(),
            s == v@.subrange(start as int, v.len() as int),
            out.len() == i - start,
            forall|k: int| 0 <= k < out.len() ==> #[trigger] out@[k] == (if s[k] == '/' || s[k] == '-' { '_' } else { s[k] }),
        decreases v.len() - i,
    {
        let c = v[i];
        out.push(if c == '/' || c == '-' { '_' } else { c });
        i += 1;
    }
    assert(out@ =~= prefix_name_part(prefix@));
    string_from_chars(&out)
}


/// The name of the function generated for root group `index` of a server:
/// `__group_<server>_<prefix>` with the prefix written as
/// [`sanitize_prefix`] writes it, or `__group_<server>_group_<index>` when
/// there is no such group.
pub open spec fn group_index_name(server: Seq<char>, prefix: Option<Seq<char>>, index: nat) -> Seq<char> {
    match prefix {
        Some(p) => "__group_"@ + server + "_"@ + prefix_name_part(p),
        None => "__group_"@ + server + "_"@ + "group_"@ + decimal(index),
    }
}

pub fn group_function_ident<V>(server: &Server<V>, index: usize) -> (r: String)
    ensures
        r@ == group_index_name(
            server.name@,
            if index < server.body.groups.len() { Some(server.body.groups@[index as int].prefix@) } else { None },
            index as nat,
        ),
{
    let mut r = owned("__group_");
    r.append(server.name.as_str());
    r.append("_");
    if index < server.body.groups.len() {
        let part = sanitize_prefix(server.body.groups[index].prefix.as_str());
        r.append(part.as_str());
    } else {
        r.append("group_");
        write_decimal(index as u64, &mut r);
    }
    r
}

} // verus!
