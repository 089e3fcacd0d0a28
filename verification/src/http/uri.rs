//! Request targets: the parts a URI is read by, and its display form.

use vstd::prelude::*;

use crate::text::push_char;

verus! {

/// An optional part, as text.
pub open spec fn opt_view(p: Option<&str>) -> Option<Seq<char>> {
    match p {
        Some(s) => Some(s@),
        None => None,
    }
}

/// The display form of a URI: `scheme:` when there is a scheme, `//`
/// and the authority when there is one, the path, and `?` with the query
/// when there is one. The fragment is left out.
pub open spec fn uri_text(
    scheme: Option<Seq<char>>,
    authority: Option<Seq<char>>,
    path: Seq<char>,
    query: Option<Seq<char>>,
) -> Seq<char> {
    let s = match scheme {
        Some(x) => x.push(':'),
        None => Seq::empty(),
    };
    let a = match authority {
        Some(x) => "//"@ + x,
        None => Seq::empty(),
    };
    let q = match query {
        Some(x) => seq!['?'] + x,
        None => Seq::empty(),
    };
    s + a + path + q
}

/// The parts of a request target.
pub trait Uri {
    spec fn scheme_part(&self) -> Option<Seq<char>>;

    spec fn authority_part(&self) -> Option<Seq<char>>;

    spec fn path_part(&self) -> Seq<char>;

    spec fn query_part(&self) -> Option<Seq<char>>;

    spec fn fragment_part(&self) -> Option<Seq<char>>;

    fn scheme(&self) -> (r: Option<&str>)
        ensures
            opt_view(r) == self.scheme_part(),
    ;

    fn authority(&self) -> (r: Option<&str>)
        ensures
            opt_view(r) == self.authority_part(),
    ;

    fn path(&self) -> (r: &str)
        ensures
            r@ == self.path_part(),
    ;

    fn query(&self) -> (r: Option<&str>)
        ensures
            opt_view(r) == self.query_part(),
    ;

    fn fragment(&self) -> (r: Option<&str>)
        ensures
            opt_view(r) == self.fragment_part(),
    ;

    /// The display form of the URI (see [`uri_text`]).
    fn display(&self) -> (r: String)
        ensures
            r@ == uri_text(self.scheme_part(), self.authority_part(), self.path_part(), self.query_part()),
    {
        let mut uri = String::new();
        let ghost start = uri@;
        if let Some(scheme) = self.scheme() {
            uri.append(scheme);
            push_char(&mut uri, ':');
        }
        let ghost after_scheme = uri@;
        if let Some(authority) = self.authority() {
            uri.append("//");
            uri.append(authority);
        }
        let ghost after_authority = uri@;
        uri.append(self.path());
        let ghost after_path = uri@;
        if let Some(query) = self.query() {
            push_char(&mut uri, '?');
            uri.append(query);
        }
        proof {
            let s = match self.scheme_part() {
                Some(x) => x.push(':'),
                None => Seq::<char>::empty(),
            };
            let a = match self.authority_part() {
                Some(x) => "//"@ + x,
                None => Seq::<char>::empty(),
            };
            let q = match self.query_part() {
                Some(x) => seq!['?'] + x,
                None => Seq::<char>::empty(),
            };
            assert(start == Seq::<char>::empty());
            assert(after_scheme == s);
            assert(after_authority == s + a);
            assert(after_path == s + a + self.path_part());
            assert(uri@ == s + a + self.path_part() + q);
        }
        uri
    }
}

/// A request target held as its parts.
#[derive(Debug, Clone)]
pub struct UriParts {
    pub scheme: Option<String>,
    pub authority: Option<String>,
    pub path: String,
    pub query: Option<String>,
    pub fragment: Option<String>,
}

pub open spec fn opt_string_view(p: Option<String>) -> Option<Seq<char>> {
    match p {
        Some(s) => Some(s@),
        None => None,
    }
}

fn opt_str(p: &Option<String>) -> (r: Option<&str>)
    ensures
        opt_view(r) == opt_string_view(*p),
{
    match p {
        Some(s) => Some(s.as_str()),
        None => None,
    }
}

impl Uri for UriParts {
    open spec fn scheme_part(&self) -> Option<Seq<char>> {
        opt_string_view(self.scheme)
    }

    open spec fn authority_part(&self) -> Option<Seq<char>> {
        opt_string_view(self.authority)
    }

    open spec fn path_part(&self) -> Seq<char> {
        self.path@
    }

    open spec fn query_part(&self) -> Option<Seq<char>> {
        opt_string_view(self.query)
    }

    open spec fn fragment_part(&self) -> Option<Seq<char>> {
        opt_string_view(self.fragment)
    }

    fn scheme(&self) -> (r: Option<&str>) {
        opt_str(&self.scheme)
    }

    fn authority(&self) -> (r: Option<&str>) {
        opt_str(&self.authority)
    }

    fn path(&self) -> (r: &str) {
        self.path.as_str()
    }

    fn query(&self) -> (r: Option<&str>) {
        opt_str(&self.query)
    }

    fn fragment(&self) -> (r: Option<&str>) {
        opt_str(&self.fragment)
    }
}

} // verus!
