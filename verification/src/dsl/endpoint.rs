//! Normalising route endpoints before they are handed to the router.

use vstd::prelude::*;

use crate::dsl::path::{join_each_slash, join_slash, split_slash, lemma_split_nonempty, lemma_split_join, lemma_split_slash_free, slash_free, collapse_slashes, is_whitespace, is_ws, trim_end_slashes, trim_end_ws, trim_start_ws, trim_ws};
use crate::text::{chars_of, string_from_chars};

verus! {

/// The endpoint that [`sanitize_endpoint`] makes of `e`: trimmed, made
/// absolute, runs of `/` collapsed, and trailing `/` removed except for the
/// root `/` itself.
pub open spec fn sanitized(e: Seq<char>) -> Seq<char> {
    let t = trim_ws(e);
    if t.len() == 0 {
        seq!['/']
    } else {
        let a = if t[0] == '/' { t } else { seq!['/'] + t };
        let c = collapse_slashes(a);
        if c.len() > 1 { trim_end_slashes(c) } else { c }
    }
}

/// Index of the first character of `s` at or after `i` that is not
/// whitespace, and the characters before it are all whitespace.
fn skip_leading_ws(s: &Vec<char>) -> (lo: usize)
    ensures
        lo <= s.len(),
        trim_start_ws(s@) == s@.subrange(lo as int, s.len() as int),
{
    let mut i: usize = 0;
    assert(s@.subrange(0, s.len() as int) == s@);
    while i < s.len() && is_whitespace(s[i])
        invariant
            i <= s.len(),
            trim_start_ws(s@) == trim_start_ws(s@.subrange(i as int, s.len() as int)),
        decreases s.len() - i,
    {
        let ghost t = s@.subrange(i as int, s.len() as int);
        assert(t.drop_first() == s@.subrange(i + 1, s.len() as int));
        i += 1;
    }
    let ghost t = s@.subrange(i as int, s.len() as int);
    assert(trim_start_ws(t) == t);
    i
}

fn skip_trailing_ws(s: &Vec<char>, lo: usize) -> (hi: usize)
    requires
        lo <= s.len(),
    ensures
        lo <= hi <= s.len(),
        trim_end_ws(s@.subrange(lo as int, s.len() as int)) == s@.subrange(lo as int, hi as int),
{
    let mut j: usize = s.len();
    while j > lo && is_whitespace(s[j - 1])
        invariant
            lo <= j <= s.len(),
            trim_end_ws(s@.subrange(lo as int, s.len() as int)) == trim_end_ws(
                s@.subrange(lo as int, j as int),
            ),
        decreases j,
    {
        let ghost t = s@.subrange(lo as int, j as int);
        assert(t.drop_last() == s@.subrange(lo as int, j - 1));
        j -= 1;
    }
    j
}

/// Sanitizes an HTTP route endpoint into a normalized path representation.
///
/// - Adds a leading `/` when the endpoint does not have one.
/// - Collapses consecutive `/` characters into a single `/`.
/// - Removes trailing `/` characters, except when the endpoint is `/`.
/// - Preserves route parameters and other non-slash characters unchanged.
///
/// Surrounding whitespace is trimmed first; an endpoint that is empty after
/// trimming becomes `/`.
pub fn sanitize_endpoint(endpoint: &str) -> (r: String)
    ensures
        r@ == sanitized(endpoint@),
{
    let s = chars_of(endpoint);
    let lo = skip_leading_ws(&s);
    let hi = skip_trailing_ws(&s, lo);
    let ghost t = s@.subrange(lo as int, hi as int);
    assert(t == trim_ws(endpoint@));
    if lo == hi {
        let mut out: Vec<char> = Vec::new();
        out.push('/');
        assert(out@ == seq!['/']);
        return string_from_chars(&out);
    }
    let mut out: Vec<char> = Vec::new();
    let mut prev_was_slash = false;
    let prefixed = s[lo] != '/';
    let ghost a = if prefixed { seq!['/'] + t } else { t };
    let ghost off: int = if prefixed { 1 } else { 0 };
    if prefixed {
        out.push('/');
        prev_was_slash = true;
        assert(a.take(1).drop_last() == Seq::<char>::empty());
        assert(collapse_slashes(Seq::<char>::empty()) == Seq::<char>::empty());
        assert(out@ == collapse_slashes(a.take(1)));
    } else {
        assert(a.take(0) == Seq::<char>::empty());
    }
    let mut i: usize = lo;
    while i < hi
        invariant
            lo <= i <= hi <= s.len(),
            t == s@.subrange(lo as int, hi as int),
            0 <= off <= 1,
            a.len() == t.len() + off,
            forall|k: int| 0 <= k < t.len() ==> a[k + off] == t[k],
            out@ == collapse_slashes(a.take(i - lo + off)),
            prev_was_slash == (out@.len() > 0 && out@.last() == '/'),
        decreases hi - i,
    {
        let c = s[i];
        let ghost j: int = i - lo + off;
        assert(a.take(j + 1).drop_last() == a.take(j));
        assert(t[i - lo] == s@[i as int]);
        assert(a[j] == c);
        if c == '/' {
            if !prev_was_slash {
                out.push(c);
            }
            prev_was_slash = true;
        } else {
            out.push(c);
            prev_was_slash = false;
        }
        i += 1;
    }
    assert(a.take(a.len() as int) == a);
    let ghost c = out@;
    if out.len() > 1 {
        while out.len() > 0 && out[out.len() - 1] == '/'
            invariant
                trim_end_slashes(c) == trim_end_slashes(out@),
            decreases out.len(),
        {
            out.pop();
        }
    }
    string_from_chars(&out)
}


/// No two `/` characters stand next to each other in `s`.
pub open spec fn no_double_slash(s: Seq<char>) -> bool {
    forall|i: int| 0 <= i < s.len() - 1 ==> !(#[trigger] s[i] == '/' && s[i + 1] == '/')
}

pub proof fn lemma_collapse_shape(s: Seq<char>)
    ensures
        collapse_slashes(s).len() <= s.len(),
        s.len() > 0 ==> collapse_slashes(s).len() > 0 && collapse_slashes(s)[0] == s[0],
        no_double_slash(collapse_slashes(s)),
    decreases s.len(),
{
    if s.len() > 0 {
        lemma_collapse_shape(s.drop_last());
        let p = collapse_slashes(s.drop_last());
        if s.len() == 1 {
            assert(s.drop_last() == Seq::<char>::empty());
        }
        if !(s.last() == '/' && p.len() > 0 && p.last() == '/') {
            let q = p.push(s.last());
            assert forall|i: int| 0 <= i < q.len() - 1 implies !(#[trigger] q[i] == '/' && q[i + 1] == '/') by {
                if i < p.len() - 1 {
                    assert(q[i] == p[i] && q[i + 1] == p[i + 1]);
                }
            }
        }
    }
}

proof fn lemma_collapse_fixed(s: Seq<char>)
    requires
        no_double_slash(s),
    ensures
        collapse_slashes(s) == s,
    decreases s.len(),
{
    if s.len() > 0 {
        let t = s.drop_last();
        assert(no_double_slash(t)) by {
            assert forall|i: int| 0 <= i < t.len() - 1 implies !(#[trigger] t[i] == '/' && t[i + 1] == '/') by {
                assert(t[i] == s[i] && t[i + 1] == s[i + 1]);
            }
        }
        lemma_collapse_fixed(t);
        if s.len() >= 2 {
            assert(!(s[s.len() - 2] == '/' && s[s.len() - 1] == '/'));
        }
        assert(t.push(s.last()) == s);
    }
}

/// `trim_end_slashes(s)` is a prefix of `s` that does not end in `/`.
proof fn lemma_trim_end_slashes_prefix(s: Seq<char>)
    ensures
        exists|k: int|
            0 <= k <= s.len() && trim_end_slashes(s) == #[trigger] s.take(k),
        trim_end_slashes(s).len() > 0 ==> trim_end_slashes(s).last() != '/',
        trim_end_slashes(s).len() <= s.len(),
        forall|k: int|
            0 <= k < s.len() && s[k] != '/' ==> trim_end_slashes(s).len() > k,
    decreases s.len(),
{
    if s.len() > 0 && s.last() == '/' {
        let t = s.drop_last();
        lemma_trim_end_slashes_prefix(t);
        let k = choose|k: int| 0 <= k <= t.len() && trim_end_slashes(t) == #[trigger] t.take(k);
        assert(t.take(k) == s.take(k));
        assert forall|j: int| 0 <= j < s.len() && s[j] != '/' implies trim_end_slashes(s).len() > j by {
            assert(j < t.len());
            assert(t[j] == s[j]);
        }
    } else {
        assert(s.take(s.len() as int) == s);
    }
}

/// What [`sanitize_endpoint`] produces is absolute, holds no `//`, and ends
/// in `/` only when it is the root `/` itself.
pub proof fn lemma_sanitized_shape(e: Seq<char>)
    ensures
        sanitized(e).len() >= 1,
        sanitized(e)[0] == '/',
        no_double_slash(sanitized(e)),
        sanitized(e).len() > 1 ==> sanitized(e).last() != '/',
{
    let t = trim_ws(e);
    if t.len() > 0 {
        let a = if t[0] == '/' { t } else { seq!['/'] + t };
        assert(a[0] == '/');
        lemma_collapse_shape(a);
        let c = collapse_slashes(a);
        if c.len() > 1 {
            lemma_trim_end_slashes_prefix(c);
            let r = trim_end_slashes(c);
            let k = choose|k: int| 0 <= k <= c.len() && r == #[trigger] c.take(k);
            assert(c[1] != '/');
            assert(r.len() > 1);
            assert(r[0] == c[0]);
            assert forall|i: int| 0 <= i < r.len() - 1 implies !(#[trigger] r[i] == '/' && r[i + 1] == '/') by {
                assert(r[i] == c[i] && r[i + 1] == c[i + 1]);
            }
        }
    }
}

/// Sanitizing an already sanitized endpoint changes nothing, as long as the
/// sanitized endpoint does not end in whitespace (trimming would remove it).
pub proof fn lemma_sanitize_idempotent(e: Seq<char>)
    requires
        !is_ws(sanitized(e).last()),
    ensures
        sanitized(sanitized(e)) == sanitized(e),
{
    let r = sanitized(e);
    lemma_sanitized_shape(e);
    assert(!is_ws(r[0]));
    assert(trim_start_ws(r) == r);
    assert(trim_end_ws(r) == r);
    lemma_collapse_fixed(r);
    if r.len() > 1 {
        assert(trim_end_slashes(r) == r);
    }
}


/// Why an endpoint template is refused.
#[derive(Debug, Clone, Copy, PartialEq, Eq, Structural)]
pub enum EndpointError {
    /// A `{` opens while another parameter is still open.
    NestedOpen,
    /// A `}` closes with no `{` open.
    UnmatchedClose,
    /// `{}` with nothing between.
    EmptyParam,
    /// A `{` is never closed.
    Unclosed,
    /// A parameter shares its path segment with other text.
    SharedSegment,
}

impl EndpointError {
    pub open spec fn text(self) -> Seq<char> {
        match self {
            EndpointError::NestedOpen => "nested '{' found before previous one was closed"@,
            EndpointError::UnmatchedClose => "unmatched '}' with no preceding '{'"@,
            EndpointError::EmptyParam => "empty parameter '{}' found"@,
            EndpointError::Unclosed => "unclosed '{' found in path"@,
            EndpointError::SharedSegment => "parameter must occupy its entire path segment, e.g. '/v1/{id}' not '/v1/user{id}'"@,
        }
    }

    /// The message reported for this refusal.
    pub fn message(&self) -> (r: &'static str)
        ensures
            r@ == self.text(),
    {
        match self {
            EndpointError::NestedOpen => "nested '{' found before previous one was closed",
            EndpointError::UnmatchedClose => "unmatched '}' with no preceding '{'",
            EndpointError::EmptyParam => "empty parameter '{}' found",
            EndpointError::Unclosed => "unclosed '{' found in path",
            EndpointError::SharedSegment => "parameter must occupy its entire path segment, e.g. '/v1/{id}' not '/v1/user{id}'",
        }
    }
}

/// The left-to-right brace scan over the first `n` characters of `p`: the
/// first refusal met, or whether a parameter is open and where the last
/// `{` stood.
pub open spec fn brace_scan(p: Seq<char>, n: int) -> Result<(bool, int), EndpointError>
    decreases n,
{
    if n <= 0 {
        Ok((false, 0))
    } else {
        match brace_scan(p, n - 1) {
            Err(e) => Err(e),
            Ok((open, last)) => {
                let i = n - 1;
                if p[i] == '{' {
                    if open { Err(EndpointError::NestedOpen) } else { Ok((true, i)) }
                } else if p[i] == '}' {
                    if !open {
                        Err(EndpointError::UnmatchedClose)
                    } else if i == last + 1 {
                        Err(EndpointError::EmptyParam)
                    } else {
                        Ok((false, last))
                    }
                } else {
                    Ok((open, last))
                }
            },
        }
    }
}

/// How many times `c` occurs in `s`.
pub open spec fn count_char(s: Seq<char>, c: char) -> nat
    decreases s.len(),
{
    if s.len() == 0 {
        0
    } else {
        count_char(s.drop_last(), c) + if s.last() == c { 1nat } else { 0nat }
    }
}

/// A path segment that mentions a brace must be exactly one `{name}`.
pub open spec fn segment_ok(seg: Seq<char>) -> bool {
    (seg.contains('{') || seg.contains('}')) ==> {
        &&& seg.len() > 0
        &&& seg[0] == '{'
        &&& seg.last() == '}'
        &&& count_char(seg, '{') == 1
        &&& count_char(seg, '}') == 1
    }
}

/// The refusal [`validate_endpoint`] reports for `p`, if any.
pub open spec fn endpoint_problem(p: Seq<char>) -> Option<EndpointError> {
    match brace_scan(p, p.len() as int) {
        Err(e) => Some(e),
        Ok((open, _)) => if open {
            Some(EndpointError::Unclosed)
        } else if exists|k: int| 0 <= k < split_slash(p).len() && !segment_ok(#[trigger] split_slash(p)[k]) {
            Some(EndpointError::SharedSegment)
        } else {
            None
        },
    }
}

proof fn lemma_count_contains(s: Seq<char>, c: char)
    ensures
        count_char(s, c) > 0 <==> s.contains(c),
    decreases s.len(),
{
    if s.len() > 0 {
        let t = s.drop_last();
        lemma_count_contains(t, c);
        if t.contains(c) {
            let k = choose|k: int| 0 <= k < t.len() && t[k] == c;
            assert(s[k] == c);
        }
        if s.contains(c) {
            let k = choose|k: int| 0 <= k < s.len() && s[k] == c;
            if k < t.len() {
                assert(t[k] == c);
            }
        }
    }
}

fn segment_is_valid(v: &Vec<char>, lo: usize, hi: usize) -> (r: bool)
    requires
        lo <= hi <= v.len(),
    ensures
        r == segment_ok(v@.subrange(lo as int, hi as int)),
{
    let ghost seg = v@.subrange(lo as int, hi as int);
    let mut opens: usize = 0;
    let mut closes: usize = 0;
    let mut k: usize = lo;
    assert(seg.take(0) == Seq::<char>::empty());
    while k < hi
        invariant
            lo <= k <= hi <= v.len(),
            seg == v@.subrange(lo as int, hi as int),
            opens == count_char(seg.take(k - lo), '{'),
            closes == count_char(seg.take(k - lo), '}'),
            opens <= k - lo,
            closes <= k - lo,
        decreases hi - k,
    {
        assert(seg.take(k - lo + 1).drop_last() == seg.take(k - lo));
        assert(seg[k - lo] == v@[k as int]);
        if v[k] == '{' {
            opens += 1;
        } else if v[k] == '}' {
            closes += 1;
        }
        k += 1;
    }
    assert(seg.take(hi - lo) == seg);
    proof {
        lemma_count_contains(seg, '{');
        lemma_count_contains(seg, '}');
    }
    if opens > 0 || closes > 0 {
        hi > lo && v[lo] == '{' && v[hi - 1] == '}' && opens == 1 && closes == 1
    } else {
        true
    }
}

proof fn lemma_split_step(p: Seq<char>, i: int)
    requires
        0 <= i < p.len(),
    ensures
        split_slash(p.take(i + 1)) == if p[i] == '/' {
            split_slash(p.take(i)).push(Seq::<char>::empty())
        } else {
            let q = split_slash(p.take(i));
            q.update(q.len() - 1, q.last().push(p[i]))
        },
{
    assert(p.take(i + 1).drop_last() == p.take(i));
}

/// The refusal of an endpoint template, as [`validate_endpoint`] reports it.
pub fn check_endpoint(path: &str) -> (r: Result<(), EndpointError>)
    ensures
        match endpoint_problem(path@) {
            None => r is Ok,
            Some(e) => r == Err::<(), EndpointError>(e),
        },
{
    let v = chars_of(path);
    let n = v.len();
    let mut open = false;
    let mut last_open: usize = 0;
    let mut i: usize = 0;
    while i < n
        invariant
            n == v.len(),
            v@ == path@,
            i <= n,
            brace_scan(v@, i as int) == Ok::<(bool, int), EndpointError>((open, last_open as int)),
            last_open <= i,
        decreases n - i,
    {
        let ch = v[i];
        if ch == '{' {
            if open {
                assert(brace_scan(v@, i + 1) == Err::<(bool, int), EndpointError>(EndpointError::NestedOpen));
                proof { lemma_scan_stops(v@, i + 1); }
                return Err(EndpointError::NestedOpen);
            }
            open = true;
            last_open = i;
        } else if ch == '}' {
            if !open {
                proof { lemma_scan_stops(v@, i + 1); }
                return Err(EndpointError::UnmatchedClose);
            }
            if i == last_open + 1 {
                proof { lemma_scan_stops(v@, i + 1); }
                return Err(EndpointError::EmptyParam);
            }
            open = false;
        }
        i += 1;
    }
    if open {
        return Err(EndpointError::Unclosed);
    }
    let mut seg_start: usize = 0;
    let mut j: usize = 0;
    assert(v@.take(0) == Seq::<char>::empty());
    while j < n
        invariant
            n == v.len(),
            v@ == path@,
            seg_start <= j <= n,
            brace_scan(v@, n as int) == Ok::<(bool, int), EndpointError>((false, last_open as int)),
            split_slash(v@.take(j as int)).len() >= 1,
            split_slash(v@.take(j as int)).last() == v@.subrange(seg_start as int, j as int),
            forall|k: int| 0 <= k < split_slash(v@.take(j as int)).len() - 1 ==> segment_ok(
                #[trigger] split_slash(v@.take(j as int))[k],
            ),
        decreases n - j,
    {
        proof {
            lemma_split_step(v@, j as int);
            lemma_split_nonempty(v@.take(j as int));
        }
        if v[j] == '/' {
            if !segment_is_valid(&v, seg_start, j) {
                proof {
                    let q = split_slash(v@.take(j as int));
                    lemma_split_prefix_kept(v@, j as int, n as int);
                    assert(v@.take(n as int) == v@);
                    assert(!segment_ok(split_slash(v@)[q.len() - 1]));
                }
                return Err(EndpointError::SharedSegment);
            }
            seg_start = j + 1;
        } else {
            assert(v@.subrange(seg_start as int, j + 1) == v@.subrange(seg_start as int, j as int).push(v@[j as int]));
        }
        j += 1;
    }
    assert(v@.take(n as int) == v@);
    if !segment_is_valid(&v, seg_start, n) {
        return Err(EndpointError::SharedSegment);
    }
    Ok(())
}

/// Validates that an endpoint path template has properly balanced,
/// non-empty, non-nested `{param}` segments, and that each parameter
/// occupies its own full path segment (e.g. `/v1/user{id}` is invalid —
/// it must be `/v1/user/{id}`).
pub fn validate_endpoint(path: &str) -> (r: Result<(), &'static str>)
    ensures
        match endpoint_problem(path@) {
            None => r is Ok,
            Some(e) => r matches Err(m) && m@ == e.text(),
        },
{
    match check_endpoint(path) {
        Ok(()) => Ok(()),
        Err(e) => Err(e.message()),
    }
}

/// Once the scan has refused at step `n`, the refusal is final.
proof fn lemma_scan_stops(p: Seq<char>, n: int)
    requires
        0 <= n <= p.len(),
        brace_scan(p, n) is Err,
    ensures
        brace_scan(p, p.len() as int) == brace_scan(p, n),
    decreases p.len() - n,
{
    if n < p.len() {
        lemma_scan_stops_step(p, n, p.len() as int);
    }
}

proof fn lemma_scan_stops_step(p: Seq<char>, n: int, m: int)
    requires
        0 <= n <= m <= p.len(),
        brace_scan(p, n) is Err,
    ensures
        brace_scan(p, m) == brace_scan(p, n),
    decreases m - n,
{
    if m > n {
        lemma_scan_stops_step(p, n, m - 1);
    }
}

/// The pieces already closed off in `split_slash(p.take(j))` stay as they are
/// in `split_slash(p.take(m))` for every longer prefix.
proof fn lemma_split_prefix_kept(p: Seq<char>, j: int, m: int)
    requires
        0 <= j <= m <= p.len(),
    ensures
        split_slash(p.take(m)).len() >= split_slash(p.take(j)).len(),
        forall|k: int| 0 <= k < split_slash(p.take(j)).len() - 1 ==>
            #[trigger] split_slash(p.take(m))[k] == split_slash(p.take(j))[k],
        j < m && p[j] == '/' ==> split_slash(p.take(m))[split_slash(p.take(j)).len() - 1]
            == split_slash(p.take(j)).last(),
    decreases m - j,
{
    lemma_split_nonempty(p.take(j));
    if j < m {
        lemma_split_prefix_kept(p, j + 1, m);
        lemma_split_step(p, j);
        lemma_split_nonempty(p.take(j + 1));
    }
    assert(p.take(p.len() as int) == p);
}


/// A segment that starts with `{` and ends with `}`: a parameter.
pub open spec fn is_param_segment(seg: Seq<char>) -> bool {
    seg.len() > 0 && seg[0] == '{' && seg.last() == '}'
}

/// A parameter segment stands for any value.
pub open spec fn route_segment_key(seg: Seq<char>) -> Seq<char> {
    if is_param_segment(seg) {
        seq!['{', '.', '.', '.', '}']
    } else {
        seg
    }
}

/// The endpoint with every `{param}` segment written `{...}`: two endpoints
/// that differ only in their parameter names have the same key.
pub open spec fn route_key(p: Seq<char>) -> Seq<char> {
    join_slash(split_slash(p).map_values(|seg: Seq<char>| route_segment_key(seg)))
}

/// Two endpoints have the same key exactly when they have as many
/// `/`-separated segments and each pair of segments is equal or is a pair
/// of parameters.
pub proof fn lemma_route_keys_equal(a: Seq<char>, b: Seq<char>)
    ensures
        route_key(a) == route_key(b) <==> {
            &&& split_slash(a).len() == split_slash(b).len()
            &&& forall|i: int| 0 <= i < split_slash(a).len() ==>
                #[trigger] split_slash(a)[i] == split_slash(b)[i]
                    || (is_param_segment(split_slash(a)[i]) && is_param_segment(split_slash(b)[i]))
        },
{
    let f = |seg: Seq<char>| route_segment_key(seg);
    let sa = split_slash(a);
    let sb = split_slash(b);
    let ka = sa.map_values(f);
    let kb = sb.map_values(f);
    let any: Seq<char> = seq!['{', '.', '.', '.', '}'];
    assert(is_param_segment(any));
    assert(slash_free(any));
    if route_key(a) == route_key(b) {
        lemma_split_nonempty(a);
        lemma_split_nonempty(b);
        lemma_split_slash_free(a);
        lemma_split_slash_free(b);
        assert forall|i: int| 0 <= i < ka.len() implies slash_free(#[trigger] ka[i]) by {
            assert(slash_free(sa[i]));
        }
        assert forall|i: int| 0 <= i < kb.len() implies slash_free(#[trigger] kb[i]) by {
            assert(slash_free(sb[i]));
        }
        lemma_split_join(ka);
        lemma_split_join(kb);
        assert(ka == kb);
        assert forall|i: int| 0 <= i < sa.len() implies #[trigger] sa[i] == sb[i]
            || (is_param_segment(sa[i]) && is_param_segment(sb[i])) by {
            assert(ka[i] == kb[i]);
        }
    }
    if sa.len() == sb.len() && (forall|i: int| 0 <= i < sa.len() ==>
        #[trigger] sa[i] == sb[i] || (is_param_segment(sa[i]) && is_param_segment(sb[i]))) {
        assert forall|i: int| 0 <= i < ka.len() implies #[trigger] ka[i] == kb[i] by {
            assert(sa[i] == sb[i] || (is_param_segment(sa[i]) && is_param_segment(sb[i])));
        }
        assert(ka =~= kb);
    }
}

fn segment_key(cur: &Vec<char>) -> (r: Vec<char>)
    ensures
        r@ == route_segment_key(cur@),
{
    if cur.len() > 0 && cur[0] == '{' && cur[cur.len() - 1] == '}' {
        let mut r: Vec<char> = Vec::new();
        r.push('{');
        r.push('.');
        r.push('.');
        r.push('.');
        r.push('}');
        assert(r@ == seq!['{', '.', '.', '.', '}']);
        r
    } else {
        let mut r: Vec<char> = Vec::new();
        let mut i: usize = 0;
        while i < cur.len()
            invariant
                i <= cur.len(),
                r@ == cur@.take(i as int),
            decreases cur.len() - i,
        {
            r.push(cur[i]);
            assert(cur@.take(i + 1) == cur@.take(i as int).push(cur@[i as int]));
            i += 1;
        }
        assert(cur@.take(cur.len() as int) == cur@);
        r
    }
}

/// The key under which duplicate routes are detected: each path segment
/// of the form `{name}` is replaced by `{...}`.
pub fn normalize_route_endpoint(endpoint: &str) -> (r: String)
    ensures
        r@ == route_key(endpoint@),
{
    let v = chars_of(endpoint);
    let n = v.len();
    let mut out: Vec<char> = Vec::new();
    let mut cur: Vec<char> = Vec::new();
    let mut j: usize = 0;
    let ghost f = |seg: Seq<char>| route_segment_key(seg);
    assert(v@.take(0) == Seq::<char>::empty());
    assert(split_slash(Seq::<char>::empty()).map_values(f).drop_last() == Seq::<Seq<char>>::empty());
    while j < n
        invariant
            n == v.len(),
            v@ == endpoint@,
            j <= n,
            f == (|seg: Seq<char>| route_segment_key(seg)),
            split_slash(v@.take(j as int)).len() >= 1,
            cur@ == split_slash(v@.take(j as int)).last(),
            out@ == join_each_slash(split_slash(v@.take(j as int)).map_values(f).drop_last()),
        decreases n - j,
    {
        proof {
            lemma_split_step(v@, j as int);
            lemma_split_nonempty(v@.take(j as int));
        }
        let ghost q = split_slash(v@.take(j as int));
        if v[j] == '/' {
            let mut key = segment_key(&cur);
            out.append(&mut key);
            out.push('/');
            cur = Vec::new();
            let ghost q2 = q.push(Seq::<char>::empty());
            assert(q2.map_values(f).drop_last() == q.map_values(f));
            assert(q.map_values(f).drop_last() == q.drop_last().map_values(f));
            assert(q.map_values(f).last() == route_segment_key(q.last()));
        } else {
            cur.push(v[j]);
            let ghost q2 = q.update(q.len() - 1, q.last().push(v@[j as int]));
            assert(q2.map_values(f).drop_last() == q.map_values(f).drop_last());
        }
        j += 1;
    }
    assert(v@.take(n as int) == v@);
    let mut key = segment_key(&cur);
    out.append(&mut key);
    proof {
        let q = split_slash(v@);
        lemma_split_nonempty(v@);
        assert(q.map_values(f).last() == route_segment_key(q.last()));
    }
    string_from_chars(&out)
}

} // verus!
