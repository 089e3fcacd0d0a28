//! Requests handed to handlers, and multipart form data.

use vstd::prelude::*;

use crate::runtime::route::HttpMethod;

verus! {

/// A request: method, headers (of type `H`), path parameters, query
/// parameters and body.
#[derive(Debug, Clone)]
pub struct Request<H, PathParams = (), QueryParams = (), Body = ()> {
    pub method: HttpMethod,
    pub headers: H,
    pub path_params: PathParams,
    pub query_params: QueryParams,
    pub body: Body,
}

/// Multipart form data: the text fields read into `T`, and the files.
#[derive(Debug, Clone)]
pub struct FormData<T> {
    pub form: Option<T>,
    pub data: Option<Vec<Data>>,
}

impl<T> FormData<T> {
    pub fn empty() -> (r: Self)
        ensures
            r.form is None,
            r.data is None,
    {
        FormData { form: None, data: None }
    }

    /// The form data read from a multipart body: `form` holds the text
    /// fields read into `T`, when there were any; the files are kept when
    /// there is at least one.
    pub fn assemble(form: Option<T>, files: Vec<Data>) -> (r: Self)
        ensures
            r.form == form,
            files.len() == 0 ==> r.data is None,
            files.len() > 0 ==> r.data == Some(files),
    {
        let mut body = Self::empty();
        body.form = form;
        if files.len() > 0 {
            body.data = Some(files);
        }
        body
    }
}

/// One file of a multipart form.
#[derive(Debug, Clone)]
pub struct Data {
    pub name: String,
    pub filename: Option<String>,
    pub content_type: Option<String>,
    pub file: Vec<u8>,
}

} // verus!
