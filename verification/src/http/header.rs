//! Request and response headers: lookup by name, ignoring ASCII case.

use vstd::prelude::*;

use crate::text::chars_of;

verus! {

/// The code of `c` with ASCII upper-case letters taken to lower case.
pub open spec fn folded(c: char) -> int {
    if 'A' <= c && c <= 'Z' {
        c as int + 32
    } else {
        c as int
    }
}

/// Whether two header names are equal when ASCII case is ignored.
pub open spec fn name_matches(a: Seq<char>, b: Seq<char>) -> bool {
    &&& a.len() == b.len()
    &&& forall|i: int| 0 <= i < a.len() ==> folded(#[trigger] a[i]) == folded(b[i])
}

/// The values of the entries named `name`, in order.
pub open spec fn matching_values(es: Seq<(Seq<char>, Seq<u8>)>, name: Seq<char>) -> Seq<Seq<u8>>
    decreases es.len(),
{
    if es.len() == 0 {
        Seq::empty()
    } else {
        let prev = matching_values(es.drop_last(), name);
        if name_matches(es.last().0, name) {
            prev.push(es.last().1)
        } else {
            prev
        }
    }
}

/// A collection of header values, read by name.
pub trait Header {
    /// The values stored under `name`, in order.
    spec fn values_of(&self, name: Seq<char>) -> Seq<Seq<u8>>;

    /// The number of values stored, over all names.
    spec fn count(&self) -> nat;

    /// The first value stored under `name`.
    fn get(&self, name: &str) -> (r: Option<&[u8]>)
        ensures
            match r {
                Some(v) => self.values_of(name@).len() > 0 && v@ == self.values_of(name@)[0],
                None => self.values_of(name@).len() == 0,
            },
    ;

    /// Every value stored under `name`, in order.
    fn get_all(&self, name: &str) -> (r: Vec<&[u8]>)
        ensures
            r.len() == self.values_of(name@).len(),
            forall|i: int| 0 <= i < r.len() ==> (#[trigger] r@[i])@ == self.values_of(name@)[i],
    ;

    /// Whether a value is stored under `name`.
    fn contains(&self, name: &str) -> (r: bool)
        ensures
            r == (self.values_of(name@).len() > 0),
    ;

    fn is_empty(&self) -> (r: bool)
        ensures
            r == (self.count() == 0),
    ;

    fn len(&self) -> (r: usize)
        ensures
            r == self.count(),
    ;
}

/// Headers held as a list of name and value pairs, in the order they came.
pub struct HeaderList {
    pub entries: Vec<(String, Vec<u8>)>,
}

pub open spec fn header_entries(es: Seq<(String, Vec<u8>)>) -> Seq<(Seq<char>, Seq<u8>)> {
    es.map_values(|e: (String, Vec<u8>)| (e.0@, e.1@))
}

fn is_ascii_upper(c: char) -> (r: bool)
    ensures
        r == ('A' <= c && c <= 'Z'),
{
    'A' <= c && c <= 'Z'
}

fn fold_code(c: char) -> (r: u32)
    ensures
        r == folded(c),
{
    let code = c as u32;
    if is_ascii_upper(c) {
        code + 32
    } else {
        code
    }
}

/// Whether two header names are equal when ASCII case is ignored.
pub fn names_match(a: &str, b: &str) -> (r: bool)
    ensures
        r == name_matches(a@, b@),
{
    let x = chars_of(a);
    let y = chars_of(b);
    if x.len() != y.len() {
        return false;
    }
    let mut i: usize = 0;
    while i < x.len()
        invariant
            x.len() == y.len(),
            x@ == a@,
            y@ == b@,
            i <= x.len(),
            forall|k: int| 0 <= k < i ==> folded(#[trigger] x@[k]) == folded(y@[k]),
        decreases x.len() - i,
    {
        if fold_code(x[i]) != fold_code(y[i]) {
            return false;
        }
        i += 1;
    }
    true
}

/// The values matched over a prefix of the entries begin the values
/// matched over all of them.
pub proof fn lemma_matching_prefix(es: Seq<(Seq<char>, Seq<u8>)>, name: Seq<char>, k: int)
    requires
        0 <= k <= es.len(),
    ensures
        matching_values(es.take(k), name).len() <= matching_values(es, name).len(),
        matching_values(es, name).take(matching_values(es.take(k), name).len() as int)
            == matching_values(es.take(k), name),
    decreases es.len(),
{
    if k == es.len() {
        assert(es.take(k) == es);
        assert(matching_values(es, name).take(matching_values(es, name).len() as int) == matching_values(es, name));
    } else {
        lemma_matching_prefix(es.drop_last(), name, k);
        assert(es.drop_last().take(k) == es.take(k));
        let prev = matching_values(es.drop_last(), name);
        let p = matching_values(es.take(k), name);
        if name_matches(es.last().0, name) {
            assert(prev.push(es.last().1).take(p.len() as int) == prev.take(p.len() as int));
        }
    }
}

impl HeaderList {
    pub closed spec fn entries_view(&self) -> Seq<(Seq<char>, Seq<u8>)> {
        header_entries(self.entries@)
    }
}

impl Header for HeaderList {
    open spec fn values_of(&self, name: Seq<char>) -> Seq<Seq<u8>> {
        matching_values(header_entries(self.entries@), name)
    }

    open spec fn count(&self) -> nat {
        self.entries@.len()
    }

    fn get(&self, name: &str) -> (r: Option<&[u8]>) {
        let ghost es = header_entries(self.entries@);
        let mut i: usize = 0;
        while i < self.entries.len()
            invariant
                i <= self.entries.len(),
                es == header_entries(self.entries@),
                matching_values(es.take(i as int), name@).len() == 0,
            decreases self.entries.len() - i,
        {
            assert(es.take(i + 1).drop_last() == es.take(i as int));
            if names_match(self.entries[i].0.as_str(), name) {
                proof {
                    let t = es.take(i + 1);
                    assert(t.last() == es[i as int]);
                    assert(es[i as int] == (self.entries@[i as int].0@, self.entries@[i as int].1@));
                    assert(matching_values(t, name@) == seq![self.entries@[i as int].1@]);
                    lemma_matching_prefix(es, name@, i + 1);
                    assert(matching_values(es, name@).take(1)[0] == matching_values(es, name@)[0]);
                }
                return Some(self.entries[i].1.as_slice());
            }
            i += 1;
        }
        assert(es.take(self.entries.len() as int) == es);
        None
    }

    fn get_all(&self, name: &str) -> (r: Vec<&[u8]>) {
        let ghost es = header_entries(self.entries@);
        let mut out: Vec<&[u8]> = Vec::new();
        let mut i: usize = 0;
        while i < self.entries.len()
            invariant
                i <= self.entries.len(),
                es == header_entries(self.entries@),
                out.len() == matching_values(es.take(i as int), name@).len(),
                forall|j: int| 0 <= j < out.len() ==> (#[trigger] out@[j])@ == matching_values(es.take(i as int), name@)[j],
            decreases self.entries.len() - i,
        {
            assert(es.take(i + 1).drop_last() == es.take(i as int));
            if names_match(self.entries[i].0.as_str(), name) {
                out.push(self.entries[i].1.as_slice());
            }
            i += 1;
        }
        assert(es.take(self.entries.len() as int) == es);
        out
    }

    fn contains(&self, name: &str) -> (r: bool) {
        match self.get(name) {
            Some(_) => true,
            None => false,
        }
    }

    fn is_empty(&self) -> (r: bool) {
        self.entries.len() == 0
    }

    fn len(&self) -> (r: usize) {
        self.entries.len()
    }
}

/// Header names matched ignoring ASCII case form an equivalence: a name
/// that matches two others makes those two match each other.
pub proof fn lemma_name_matches_trans(a: Seq<char>, b: Seq<char>, c: Seq<char>)
    requires
        name_matches(a, b),
        name_matches(b, c),
    ensures
        name_matches(a, c),
{
    assert forall|i: int| 0 <= i < a.len() implies folded(#[trigger] a[i]) == folded(c[i]) by {
        assert(folded(a[i]) == folded(b[i]));
        assert(folded(b[i]) == folded(c[i]));
    }
}

pub proof fn lemma_name_matches_sym(a: Seq<char>, b: Seq<char>)
    requires
        name_matches(a, b),
    ensures
        name_matches(b, a),
{
    assert forall|i: int| 0 <= i < b.len() implies folded(#[trigger] b[i]) == folded(a[i]) by {
        assert(folded(a[i]) == folded(b[i]));
    }
}

/// The entries whose name does not match `name`, in order.
pub open spec fn without_name(es: Seq<(Seq<char>, Seq<u8>)>, name: Seq<char>) -> Seq<(Seq<char>, Seq<u8>)>
    decreases es.len(),
{
    if es.len() == 0 {
        es
    } else if name_matches(es.last().0, name) {
        without_name(es.drop_last(), name)
    } else {
        without_name(es.drop_last(), name).push(es.last())
    }
}

/// Removing the entries named `name` leaves the values of every other name
/// as they were, and none under `name`.
proof fn lemma_without_name(es: Seq<(Seq<char>, Seq<u8>)>, name: Seq<char>, kept: Seq<(Seq<char>, Seq<u8>)>, n: Seq<char>)
    requires
        kept == without_name(es, name),
    ensures
        name_matches(n, name) ==> matching_values(kept, n).len() == 0,
        !name_matches(n, name) ==> matching_values(kept, n) == matching_values(es, n),
    decreases es.len(),
{
    if es.len() > 0 {
        let t = es.drop_last();
        let kt = without_name(t, name);
        lemma_without_name(t, name, kt, n);
        let last = es.last();
        if !name_matches(last.0, name) {
            assert(kept.drop_last() == kt);
            assert(kept.last() == last);
            if name_matches(n, name) && name_matches(last.0, n) {
                lemma_name_matches_trans(last.0, n, name);
            }
        } else {
            if !name_matches(n, name) && name_matches(last.0, n) {
                lemma_name_matches_sym(last.0, name);
                lemma_name_matches_sym(last.0, n);
                lemma_name_matches_trans(n, last.0, name);
            }
        }
    }
}

impl HeaderList {
    /// No headers.
    pub fn new() -> (r: Self)
        ensures
            r.count() == 0,
            forall|n: Seq<char>| (#[trigger] r.values_of(n)).len() == 0,
    {
        HeaderList { entries: Vec::new() }
    }

    /// Sets `name` to `value` alone: every value stored under the name is
    /// removed and `value` is stored after the other entries. The values of
    /// every other name stay as they were, and so does their number.
    pub fn insert(&mut self, name: &str, value: Vec<u8>)
        ensures
            final(self).values_of(name@) == seq![value@],
            final(self).count() == without_name(header_entries(old(self).entries@), name@).len() + 1,
            forall|n: Seq<char>| !name_matches(n, name@) ==> #[trigger] final(self).values_of(n) == old(self).values_of(n),
    {
        let ghost es = header_entries(self.entries@);
        let mut kept: Vec<(String, Vec<u8>)> = Vec::new();
        let mut i: usize = 0;
        while i < self.entries.len()
            invariant
                i <= self.entries.len(),
                es == header_entries(self.entries@),
                header_entries(kept@) == without_name(es.take(i as int), name@),
            decreases self.entries.len() - i,
        {
            proof {
                assert(es.take(i + 1).drop_last() == es.take(i as int));
                assert(es.take(i + 1).last() == es[i as int]);
            }
            assert(es[i as int] == (self.entries@[i as int].0@, self.entries@[i as int].1@));
            if !names_match(self.entries[i].0.as_str(), name) {
                let ghost before = kept@;
                let n = self.entries[i].0.clone();
                let v = self.entries[i].1.clone();
                assert(v@ =~= self.entries@[i as int].1@);
                kept.push((n, v));
                assert(header_entries(kept@) =~= header_entries(before).push(es[i as int]));
            }
            i += 1;
        }
        assert(es.take(self.entries.len() as int) == es);
        let ghost k = header_entries(kept@);
        let own = crate::text::owned(name);
        kept.push((own, value));
        self.entries = kept;
        proof {
            let es2 = header_entries(self.entries@);
            assert(es2.drop_last() == k);
            assert(es2.len() == self.entries@.len());
            assert(es2.last() == (name@, value@));
            assert(name_matches(name@, name@));
            lemma_without_name(es, name@, k, name@);
            assert forall|n: Seq<char>| !name_matches(n, name@) implies #[trigger] matching_values(es2, n) == matching_values(es, n) by {
                lemma_without_name(es, name@, k, n);
                if name_matches(name@, n) {
                    lemma_name_matches_sym(name@, n);
                }
            }
        }
    }
}

} // verus!
