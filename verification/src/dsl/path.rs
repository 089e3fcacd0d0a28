//! Character-level building blocks of endpoint text: whitespace trimming,
//! slash handling, and splitting on and joining with `/`.

use vstd::prelude::*;

verus! {

/// The characters with the Unicode `White_Space` property (those that
/// `char::is_whitespace` accepts and `str::trim` removes).
pub open spec fn is_ws(c: char) -> bool {
    ||| ('\t' <= c && c <= '\r')
    ||| c == ' '
    ||| c == '\u{85}'
    ||| c == '\u{a0}'
    ||| c == '\u{1680}'
    ||| ('\u{2000}' <= c && c <= '\u{200a}')
    ||| c == '\u{2028}'
    ||| c == '\u{2029}'
    ||| c == '\u{202f}'
    ||| c == '\u{205f}'
    ||| c == '\u{3000}'
}

pub fn is_whitespace(c: char) -> (r: bool)
    ensures
        r == is_ws(c),
{
    ('\t' <= c && c <= '\r') || c == ' ' || c == '\u{85}' || c == '\u{a0}' || c == '\u{1680}'
        || ('\u{2000}' <= c && c <= '\u{200a}') || c == '\u{2028}' || c == '\u{2029}'
        || c == '\u{202f}' || c == '\u{205f}' || c == '\u{3000}'
}

/// `s` without its leading whitespace.
pub open spec fn trim_start_ws(s: Seq<char>) -> Seq<char>
    decreases s.len(),
{
    if s.len() > 0 && is_ws(s[0]) {
        trim_start_ws(s.drop_first())
    } else {
        s
    }
}

/// `s` without its trailing whitespace.
pub open spec fn trim_end_ws(s: Seq<char>) -> Seq<char>
    decreases s.len(),
{
    if s.len() > 0 && is_ws(s.last()) {
        trim_end_ws(s.drop_last())
    } else {
        s
    }
}

/// `s` without leading and trailing whitespace (`str::trim`).
pub open spec fn trim_ws(s: Seq<char>) -> Seq<char> {
    trim_end_ws(trim_start_ws(s))
}

/// `s` without its trailing `/` characters (`trim_end_matches('/')`).
pub open spec fn trim_end_slashes(s: Seq<char>) -> Seq<char>
    decreases s.len(),
{
    if s.len() > 0 && s.last() == '/' {
        trim_end_slashes(s.drop_last())
    } else {
        s
    }
}

/// `s` without its leading `/` characters (`trim_start_matches('/')`).
pub open spec fn trim_start_slashes(s: Seq<char>) -> Seq<char>
    decreases s.len(),
{
    if s.len() > 0 && s[0] == '/' {
        trim_start_slashes(s.drop_first())
    } else {
        s
    }
}

/// `s` with every run of consecutive `/` replaced by a single `/`.
pub open spec fn collapse_slashes(s: Seq<char>) -> Seq<char>
    decreases s.len(),
{
    if s.len() == 0 {
        s
    } else {
        let p = collapse_slashes(s.drop_last());
        if s.last() == '/' && p.len() > 0 && p.last() == '/' {
            p
        } else {
            p.push(s.last())
        }
    }
}

/// The pieces of `s` between `/` characters (`str::split('/')`); there is
/// always at least one piece.
pub open spec fn split_slash(s: Seq<char>) -> Seq<Seq<char>>
    decreases s.len(),
{
    if s.len() == 0 {
        seq![Seq::<char>::empty()]
    } else {
        let p = split_slash(s.drop_last());
        if s.last() == '/' {
            p.push(Seq::<char>::empty())
        } else {
            p.update(p.len() - 1, p.last().push(s.last()))
        }
    }
}

/// Every piece followed by a `/`.
pub open spec fn join_each_slash(segs: Seq<Seq<char>>) -> Seq<char>
    decreases segs.len(),
{
    if segs.len() == 0 {
        Seq::<char>::empty()
    } else {
        join_each_slash(segs.drop_last()) + segs.last() + seq!['/']
    }
}

/// The pieces joined with `/` between them (`[..].join("/")`).
pub open spec fn join_slash(segs: Seq<Seq<char>>) -> Seq<char> {
    if segs.len() == 0 {
        Seq::<char>::empty()
    } else {
        join_each_slash(segs.drop_last()) + segs.last()
    }
}

pub proof fn lemma_split_nonempty(s: Seq<char>)
    ensures
        split_slash(s).len() >= 1,
    decreases s.len(),
{
    if s.len() > 0 {
        lemma_split_nonempty(s.drop_last());
    }
}

/// Splitting on `/` and joining with `/` gives back the text.
pub proof fn lemma_join_split(s: Seq<char>)
    ensures
        join_slash(split_slash(s)) == s,
    decreases s.len(),
{
    if s.len() > 0 {
        let t = s.drop_last();
        lemma_join_split(t);
        lemma_split_nonempty(t);
        let p = split_slash(t);
        if s.last() == '/' {
            assert(p.push(Seq::<char>::empty()).drop_last() == p);
            assert(join_each_slash(p) == join_each_slash(p.drop_last()) + p.last() + seq!['/']);
            assert(s == t.push('/'));
        } else {
            let q = p.update(p.len() - 1, p.last().push(s.last()));
            assert(q.drop_last() == p.drop_last());
            assert(s == t.push(s.last()));
        }
    }
}

/// Whether `s` holds no `/`.
pub open spec fn slash_free(s: Seq<char>) -> bool {
    forall|j: int| 0 <= j < s.len() ==> #[trigger] s[j] != '/'
}

/// No piece that splitting on `/` gives holds a `/`.
pub proof fn lemma_split_slash_free(s: Seq<char>)
    ensures
        forall|i: int| 0 <= i < split_slash(s).len() ==> slash_free(#[trigger] split_slash(s)[i]),
    decreases s.len(),
{
    if s.len() > 0 {
        let t = s.drop_last();
        lemma_split_slash_free(t);
        lemma_split_nonempty(t);
        let p = split_slash(t);
        if s.last() != '/' {
            let q = p.update(p.len() - 1, p.last().push(s.last()));
            assert forall|i: int| 0 <= i < q.len() implies slash_free(#[trigger] q[i]) by {
                if i == q.len() - 1 {
                    assert(slash_free(p[i]));
                    assert forall|j: int| 0 <= j < q[i].len() implies #[trigger] q[i][j] != '/' by {
                        if j < p[i].len() {
                            assert(q[i][j] == p[i][j]);
                        }
                    }
                }
            }
        }
    }
}

/// Appending text without `/` lengthens the last piece and makes no new one.
proof fn lemma_split_append_free(x: Seq<char>, y: Seq<char>)
    requires
        slash_free(y),
    ensures
        split_slash(x + y) == split_slash(x).update(split_slash(x).len() - 1, split_slash(x).last() + y),
    decreases y.len(),
{
    lemma_split_nonempty(x);
    let p = split_slash(x);
    if y.len() == 0 {
        assert(x + y == x);
        assert(p.last() + y == p.last());
        assert(p.update(p.len() - 1, p.last()) == p);
    } else {
        let y0 = y.drop_last();
        assert(slash_free(y0)) by {
            assert forall|j: int| 0 <= j < y0.len() implies #[trigger] y0[j] != '/' by {
                assert(y0[j] == y[j]);
            }
        }
        lemma_split_append_free(x, y0);
        assert((x + y).drop_last() == x + y0);
        assert((x + y).last() == y[y.len() - 1]);
        assert(y[y.len() - 1] != '/');
        let q = split_slash(x + y0);
        assert(q.last() == p.last() + y0);
        assert(q.last().push(y.last()) == p.last() + y);
        assert(q.update(q.len() - 1, q.last().push(y.last())) == p.update(p.len() - 1, p.last() + y));
    }
}

/// Joining pieces without `/`, each followed by `/`, and splitting again
/// gives the pieces and an empty last one.
proof fn lemma_split_join_each(segs: Seq<Seq<char>>)
    requires
        forall|i: int| 0 <= i < segs.len() ==> slash_free(#[trigger] segs[i]),
    ensures
        split_slash(join_each_slash(segs)) == segs.push(Seq::<char>::empty()),
    decreases segs.len(),
{
    if segs.len() == 0 {
        assert(split_slash(Seq::<char>::empty()) == seq![Seq::<char>::empty()]);
    } else {
        let d = segs.drop_last();
        assert forall|i: int| 0 <= i < d.len() implies slash_free(#[trigger] d[i]) by {
            assert(d[i] == segs[i]);
        }
        lemma_split_join_each(d);
        let x = join_each_slash(d) + segs.last();
        assert(slash_free(segs[segs.len() - 1]));
        lemma_split_append_free(join_each_slash(d), segs.last());
        let px = split_slash(join_each_slash(d));
        assert(px.last() + segs.last() == segs.last());
        assert(split_slash(x) == segs);
        let whole = x + seq!['/'];
        assert(whole.drop_last() == x);
        assert(whole.last() == '/');
        assert(join_each_slash(segs) == whole);
    }
}

/// Joining at least one piece without `/` and splitting again gives the
/// pieces back.
pub proof fn lemma_split_join(segs: Seq<Seq<char>>)
    requires
        segs.len() >= 1,
        forall|i: int| 0 <= i < segs.len() ==> slash_free(#[trigger] segs[i]),
    ensures
        split_slash(join_slash(segs)) == segs,
{
    let d = segs.drop_last();
    assert forall|i: int| 0 <= i < d.len() implies slash_free(#[trigger] d[i]) by {
        assert(d[i] == segs[i]);
    }
    lemma_split_join_each(d);
    assert(slash_free(segs[segs.len() - 1]));
    lemma_split_append_free(join_each_slash(d), segs.last());
    let px = split_slash(join_each_slash(d));
    assert(px.last() + segs.last() == segs.last());
    assert(d.push(segs.last()) == segs);
}

} // verus!
