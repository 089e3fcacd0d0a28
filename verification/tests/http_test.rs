use g_server::http::header::names_match;
use g_server::http::{Header, HeaderList, IntoResponse, Method, Request, Router, Status, Uri, UriParts};
use g_server::http::Response;
use g_server::runtime::response::{timeout_response, unimplemented_response, BadRequestErrorMessage, Response as BuiltResponse};

fn parts(scheme: Option<&str>, authority: Option<&str>, path: &str, query: Option<&str>) -> UriParts {
    UriParts {
        scheme: scheme.map(|s| s.to_string()),
        authority: authority.map(|s| s.to_string()),
        path: path.to_string(),
        query: query.map(|s| s.to_string()),
        fragment: None,
    }
}

fn parsed(text: &str) -> UriParts {
    let uri = text.parse::<http::Uri>().unwrap();
    UriParts {
        scheme: uri.scheme_str().map(str::to_owned),
        authority: uri.authority().map(|a| a.as_str().to_owned()),
        path: uri.path().to_owned(),
        query: uri.query().map(str::to_owned),
        fragment: text.split_once('#').map(|(_, f)| f.to_owned()),
    }
}

#[test]
fn uri() {
    let uri = parsed("https://example.com/hello/world?foo=bar");
    assert_eq!(uri.scheme(), Some("https"));
    assert_eq!(uri.authority(), Some("example.com"));
    assert_eq!(uri.path(), "/hello/world");
    assert_eq!(uri.query(), Some("foo=bar"));
    assert_eq!(uri.fragment(), None);

    let uri = parsed("http://localhost:3000/world?x=1");
    assert_eq!(uri.scheme(), Some("http"));
    assert_eq!(uri.authority(), Some("localhost:3000"));
    assert_eq!(uri.path(), "/world");
    assert_eq!(uri.query(), Some("x=1"));
    assert_eq!(uri.fragment(), None);

    let uri = parsed("/hello/world?foo=bar");
    assert_eq!(uri.scheme(), None);
    assert_eq!(uri.authority(), None);
    assert_eq!(uri.path(), "/hello/world");
    assert_eq!(uri.query(), Some("foo=bar"));
    assert_eq!(uri.fragment(), None);

    let uri = parsed("/hello/world");
    assert_eq!(uri.scheme(), None);
    assert_eq!(uri.authority(), None);
    assert_eq!(uri.path(), "/hello/world");
    assert_eq!(uri.query(), None);
    assert_eq!(uri.fragment(), None);

    let uri = parsed("https://example.com/hello/world?foo=bar");
    assert_eq!(uri.display(), "https://example.com/hello/world?foo=bar");
    assert_eq!(parts(Some("https"), Some("example.com"), "/hello/world", Some("foo=bar")).display(), uri.display());
}

#[test]
fn uri_fragment_is_read_from_the_text() {
    let uri = parsed("/hello/world?foo=bar#top");
    assert_eq!(uri.path(), "/hello/world");
    assert_eq!(uri.query(), Some("foo=bar"));
    assert_eq!(uri.fragment(), Some("top"));
    assert_eq!(uri.display(), "/hello/world?foo=bar");
}

#[test]
fn uri_display_leaves_out_the_fragment() {
    let mut uri = parts(None, None, "/a", None);
    uri.fragment = Some("top".to_string());
    assert_eq!(uri.display(), "/a");
    assert_eq!(uri.fragment(), Some("top"));
    assert_eq!(parts(Some("mailto"), None, "x@y", None).display(), "mailto:x@y");
}

#[test]
fn header_names_ignore_ascii_case() {
    assert!(names_match("Content-Type", "content-type"));
    assert!(!names_match("content-type", "content-typ"));
    let h = HeaderList {
        entries: vec![
            ("X-Test".to_string(), b"one".to_vec()),
            ("accept".to_string(), b"*/*".to_vec()),
            ("x-test".to_string(), b"two".to_vec()),
        ],
    };
    assert_eq!(h.get("x-TEST"), Some(&b"one"[..]));
    assert_eq!(h.get_all("X-test"), vec![&b"one"[..], &b"two"[..]]);
    assert!(h.contains("ACCEPT"));
    assert!(!h.contains("host"));
    assert_eq!(h.get("host"), None);
    assert_eq!(h.len(), 3);
    assert!(!h.is_empty());
    assert!(HeaderList::new().is_empty());
}

#[test]
fn header_insert_replaces_every_value() {
    let mut h = HeaderList {
        entries: vec![
            ("X-Test".to_string(), b"one".to_vec()),
            ("accept".to_string(), b"*/*".to_vec()),
            ("x-test".to_string(), b"two".to_vec()),
        ],
    };
    h.insert("x-test", b"three".to_vec());
    assert_eq!(h.get_all("X-TEST"), vec![&b"three"[..]]);
    assert_eq!(h.get("accept"), Some(&b"*/*"[..]));
    assert_eq!(h.len(), 2);
}

#[test]
fn response_builders_set_the_content_type() {
    let r = BuiltResponse::new();
    assert_eq!(r.status.as_u16(), 200);
    assert!(r.headers.is_empty());

    let r = BuiltResponse::new().with_status(Status::CREATED()).with_text("hello".to_string());
    assert_eq!(r.status.as_u16(), 201);
    assert_eq!(r.body, "hello");
    assert_eq!(r.headers.get("content-type"), Some(&b"text/plain; charset=utf-8"[..]));

    let mut headers = HeaderList::new();
    headers.insert("Content-Type", b"text/csv".to_vec());
    headers.insert("x-test", b"true".to_vec());
    let r = BuiltResponse::new().with_header(headers).with_html("<p>hi</p>".to_string());
    assert_eq!(r.headers.get_all("content-type"), vec![&b"text/html; charset=utf-8"[..]]);
    assert_eq!(r.headers.get("x-test"), Some(&b"true"[..]));

    let r = BuiltResponse::new().with_json(vec![1, 2]);
    assert_eq!(r.body, vec![1, 2]);
    assert_eq!(r.headers.get("content-type"), Some(&b"application/json"[..]));
}

#[test]
fn unimplemented_routes_answer_501() {
    let r = unimplemented_response();
    assert_eq!(r.status.as_u16(), 501);
    assert_eq!(r.body, "g-server: not implemented");
    assert_eq!(r.headers.get("content-type"), Some(&b"text/plain; charset=utf-8"[..]));
    assert_eq!(r.headers.len(), 1);
    assert!(!r.headers.contains("x-test"));
}

#[test]
fn timeouts_without_a_custom_error_answer_504_with_the_error_text() {
    let r = timeout_response("request timed out".to_string());
    assert_eq!(r.status.as_u16(), 504);
    assert_eq!(r.body, "request timed out");
    assert_eq!(r.headers.get("content-type"), Some(&b"text/plain; charset=utf-8"[..]));
    assert_eq!(r.headers.len(), 1);
}

#[derive(Debug, PartialEq)]
struct Refusal(String);

impl BadRequestErrorMessage for Refusal {
    fn bad_request_err_msg(self, err: &str) -> Self {
        Refusal(format!("{}: {}", self.0, err))
    }
}

#[test]
fn refusal_text_is_folded_into_the_body_by_its_own_rule() {
    let mut headers = HeaderList::new();
    headers.insert("x-a", b"1".to_vec());
    let r = BuiltResponse { status: Status::BAD_REQUEST(), headers, body: Refusal("bad".to_string()) };
    let r = r.bad_request_err_msg("missing field `id`");
    assert_eq!(r.status.as_u16(), 400);
    assert_eq!(r.body, Refusal("bad: missing field `id`".to_string()));
    assert_eq!(r.headers.get("x-a"), Some(&b"1"[..]));
    assert_eq!(r.headers.len(), 1);
}

#[test]
fn typed_bodies_replace_the_content_type_and_keep_other_headers() {
    let mut headers = HeaderList::new();
    headers.insert("Content-Type", b"text/csv".to_vec());
    headers.insert("x-a", b"1".to_vec());
    let r = BuiltResponse::new().with_header(headers).with_text("hi".to_string());
    assert_eq!(r.headers.len(), 2);
    assert_eq!(r.headers.get_all("content-type"), vec![&b"text/plain; charset=utf-8"[..]]);
    assert_eq!(r.headers.get("x-a"), Some(&b"1"[..]));
}

#[test]
fn responses() {
    let mut response: Response<http::HeaderMap, String> = Response::new(Status::OK(), http::HeaderMap::new(), "hello".to_string());
    assert_eq!(response.status().as_u16(), 200);
    assert!(response.headers().is_empty());

    *response.status_mut() = Status::CREATED();
    response.headers_mut().insert("x-test", "true".parse().unwrap());
    response.set_body("updated".to_string());
    assert_eq!(response.status().as_u16(), 201);
    assert_eq!(response.headers().get("x-test").unwrap(), "true");
    assert_eq!(response.body(), Some(&"updated".to_string()));

    let mut response: Response<http::HeaderMap, String> = Response::new(Status::OK(), http::HeaderMap::new(), "hello".to_string());
    if response.body().is_some() {
        response.set_body("mutated".to_string());
    }
    assert_eq!(response.into_body(), Some("mutated".to_string()));

    let response: Response<http::HeaderMap, String> = Response::new(Status::ACCEPTED(), http::HeaderMap::new(), "hello".to_string());
    let (status, headers, body) = response.into_parts();
    assert_eq!(status.as_u16(), 202);
    assert!(headers.is_empty());
    assert_eq!(body, Some("hello".to_string()));
}

#[test]
fn results_into_responses() {
    type Res = Response<http::HeaderMap, String>;
    let make = |s: Status| -> Res { Response::new(s, http::HeaderMap::new(), "{}".to_string()) };

    let converted = make(Status::OK()).into_response();
    assert_eq!(converted.status().as_u16(), 200);
    assert!(converted.body().is_some());

    for s in [
        Status::NO_CONTENT(),
        Status::NOT_MODIFIED(),
        Status::CONTINUE(),
        Status::SWITCHING_PROTOCOLS(),
        Status::PROCESSING(),
        Status::EARLY_HINTS(),
    ] {
        let result: Result<Res, Res> = Ok(make(s));
        let converted = result.into_response();
        assert_eq!(converted.status().as_u16(), s.as_u16());
        assert!(converted.body().is_none());
    }

    let result: Result<Res, Res> = Ok(make(Status::OK()));
    assert!(result.into_response().body().is_some());

    let result: Result<Res, Res> = Err(make(Status::BAD_REQUEST()));
    let converted = result.into_response();
    assert_eq!(converted.status().as_u16(), 400);
    assert!(converted.body().is_some());

    let converted: Res = (Status::NOT_FOUND(), http::HeaderMap::new(), "missing".to_string()).into_response();
    assert_eq!(converted.status().as_u16(), 404);
    assert_eq!(converted.into_body(), Some("missing".to_string()));
}

#[test]
fn requests() {
    let uri = "https://example.com/hello/world?foo=bar#section".parse::<http::Uri>().unwrap();
    let mut request = Request::new(Method::Get, uri, http::HeaderMap::new(), "hello world".to_string());
    assert_eq!(request.method(), &Method::Get);
    assert_eq!(request.uri().path(), "/hello/world");
    assert_eq!(request.uri().query(), Some("foo=bar"));
    assert!(request.headers().is_empty());
    assert!(request.body().is_none());

    *request.method_mut() = Method::Post;
    *request.uri_mut() = "http://localhost:3000/world?x=1#top".parse().unwrap();
    request.headers_mut().insert("x-test", "true".parse().unwrap());
    request.set_body("{\"name\":\"ren\",\"age\":25}".to_string());
    assert_eq!(request.method(), &Method::Post);
    assert_eq!(request.uri().authority().map(|a| a.as_str()), Some("localhost:3000"));
    assert!(request.body().is_some());

    let (method, uri, headers, body) = request.into_parts();
    assert_eq!(method, Method::Post);
    assert_eq!(uri.path(), "/world");
    assert_eq!(headers.get("x-test").unwrap(), "true");
    assert_eq!(body, Some("{\"name\":\"ren\",\"age\":25}".to_string()));

    let request = Request::new(Method::Post, uri, http::HeaderMap::new(), "hello world".to_string());
    assert!(request.into_body().is_some());
    let request = Request::new(Method::Head, (), (), 1u8);
    assert!(request.into_body().is_none());
}

#[test]
fn routers_stack_their_routes() {
    let router: Router<(), (), (), ()> = Router::new();
    let router = router.get("/a".to_string(), 1u8).post("/b".to_string(), 2u16).with_state("state");
    let (routes, state) = router.into_parts();
    assert_eq!(state, "state");
    assert_eq!(*routes.item().method(), Method::Post);
    assert_eq!(routes.item().path(), "/b");
    assert_eq!(*routes.item().handler(), 2u16);
    assert_eq!(*routes.tail().item().method(), Method::Get);
    assert_eq!(routes.tail().item().path(), "/a");
    let (first, _) = routes.into_parts();
    assert_eq!(first.into_handler(), 2u16);

    let inner: Router<(), (), (), ()> = Router::new();
    let inner = inner.delete("/x".to_string(), 3u8);
    let outer: Router<(), (), (), ()> = Router::default();
    let outer = outer.nest("/v1".to_string(), inner).query("/q".to_string(), 4u8);
    let routes = outer.into_routes();
    assert_eq!(*routes.item().method(), Method::Query);
    let nested = routes.tail().item();
    assert_eq!(nested.prefix(), "/v1");
    assert_eq!(nested.routes().item().path(), "/x");
}

#[test]
fn bare_tuples_into_responses() {
    let r: Response<HeaderList, ()> = (Status::NO_CONTENT(), (), ()).into_response();
    assert_eq!(r.status().as_u16(), 204);
    assert!(r.headers().is_empty());
    let r: Response<HeaderList, String> = (Status::OK(), (), "ok".to_string()).into_response();
    assert_eq!(r.into_body(), Some("ok".to_string()));
}
