use g_server::dsl::flat::{
    check_flat_kinds, check_flat_route, first_repeated_route, method_name, parse_flat_kind, parse_flat_member,
    parse_flat_request_body, parse_flat_response_body, validate_flat_servers, FlatError, FlatExpandError,
    FlatKind, FlatServer,
};
use g_server::dsl::grammar::{RequestBodyKind, ResponseBodyKind, RouteMember, ServerMember};
use g_server::dsl::server::HttpMethod;

fn flat(kind: FlatKind, name: &str, port: &str, routes: Vec<(HttpMethod, &str)>) -> FlatServer {
    FlatServer {
        kind,
        name: name.to_string(),
        port: port.to_string(),
        routes: routes.into_iter().map(|(m, e)| (m, e.to_string())).collect(),
    }
}

#[test]
fn method_names() {
    assert_eq!(method_name(HttpMethod::Get), "GET");
    assert_eq!(method_name(HttpMethod::Options), "OPTIONS");
    assert_eq!(method_name(HttpMethod::Any), "ANY");
}

#[test]
fn flat_routes_clash_only_when_written_alike() {
    let routes = vec![
        (HttpMethod::Get, "/a/{x}".to_string()),
        (HttpMethod::Get, "/a/{y}".to_string()),
        (HttpMethod::Post, "/a/{x}".to_string()),
    ];
    assert_eq!(first_repeated_route(&routes), None);
    let routes = vec![
        (HttpMethod::Get, "/a".to_string()),
        (HttpMethod::Post, "/b".to_string()),
        (HttpMethod::Post, "/b".to_string()),
        (HttpMethod::Get, "/a".to_string()),
    ];
    assert_eq!(first_repeated_route(&routes), Some(2));
}

#[test]
fn flat_declarations() {
    let servers = vec![
        flat(FlatKind::Http, "a", "80", vec![(HttpMethod::Get, "/")]),
        flat(FlatKind::Sse, "b", "81", vec![(HttpMethod::Get, "/"), (HttpMethod::Get, "/")]),
    ];
    assert!(validate_flat_servers(&servers).is_ok());

    let servers = vec![flat(FlatKind::Http, "a", "80", vec![(HttpMethod::Get, "/x"), (HttpMethod::Get, "/x")])];
    let e = validate_flat_servers(&servers).unwrap_err();
    assert!(matches!(e, FlatError::DuplicateRoute { server: 0, route: 1, .. }));
    assert_eq!(e.message(), "duplicate route: GET /x");

    let servers = vec![flat(FlatKind::Http, "a", "80", vec![]), flat(FlatKind::Ws, "a", "81", vec![])];
    assert_eq!(validate_flat_servers(&servers).unwrap_err().message(), "duplicate server name `a`");

    let servers = vec![flat(FlatKind::Http, "a", "80", vec![]), flat(FlatKind::Ws, "b", "80", vec![])];
    assert_eq!(validate_flat_servers(&servers).unwrap_err().message(), "duplicate server port `80`");

    let servers = vec![flat(FlatKind::Http, "a", "8x", vec![])];
    assert_eq!(validate_flat_servers(&servers).unwrap_err().message(), "invalid digit found in string");
}

#[test]
fn flat_kinds() {
    assert_eq!(parse_flat_kind("sse"), Some(FlatKind::Sse));
    assert_eq!(parse_flat_kind("ws"), Some(FlatKind::Ws));
    assert_eq!(parse_flat_kind("tcp"), None);
    assert_eq!(check_flat_kinds(&vec![FlatKind::Http]), Ok(()));
    let e = check_flat_kinds(&vec![FlatKind::Sse]).unwrap_err();
    assert_eq!(e, FlatExpandError::NoHttpServer);
    assert_eq!(e.message(), "at least one `http` server is required");
    let e = check_flat_kinds(&vec![FlatKind::Http, FlatKind::Ws, FlatKind::Mcp]).unwrap_err();
    assert_eq!(e, FlatExpandError::Reserved(1, FlatKind::Ws));
    assert_eq!(e.message(), "`ws` is reserved but not implemented yet");
    assert_eq!(FlatExpandError::Reserved(0, FlatKind::Mcp).message(), "`mcp` is reserved but not implemented yet");
    assert_eq!(FlatExpandError::Reserved(0, FlatKind::Sse).message(), "`sse` is reserved but not implemented yet");
}

#[test]
fn flat_keys_and_bodies() {
    assert_eq!(parse_flat_member("group"), Err("`group` is not implemented yet"));
    assert_eq!(parse_flat_member("trace"), Ok(ServerMember::Route(HttpMethod::Trace)));
    assert_eq!(parse_flat_member("files"), Err("unexpected server member"));
    assert_eq!(parse_flat_response_body("Text"), Some(ResponseBodyKind::String));
    assert_eq!(parse_flat_response_body("json"), None);
    assert_eq!(parse_flat_request_body("Form"), Some(RequestBodyKind::Form));
    assert_eq!(parse_flat_request_body("String"), None);
    assert_eq!(check_flat_route(&vec![RouteMember::Endpoint, RouteMember::Handler]), Ok(()));
    assert_eq!(check_flat_route(&vec![RouteMember::Endpoint]), Err("route requires `handler`"));
    assert_eq!(check_flat_route(&vec![RouteMember::Handler]), Err("route requires `endpoint`"));
}
