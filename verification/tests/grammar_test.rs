use g_server::dsl::grammar::{
    check_group_members, check_route_members, check_server_kinds, parse_cors_method, parse_cors_methods,
    parse_cors_option, parse_group_key, parse_group_member_key, parse_request_body_kind,
    parse_response_body_kind, parse_route_member, parse_server_kind, parse_server_member,
    request_body_takes_type, CorsOption, GrammarError, GroupKey, GroupMemberKey, RequestBodyKind,
    ResponseBodyKind, RouteMember, ServerMember,
};
use g_server::dsl::server::{HttpMethod, ServerKind};
use g_server::runtime::route::HttpMethod as RouteMethod;

#[test]
fn server_kinds_are_http_and_mcp() {
    assert!(matches!(parse_server_kind("http"), Ok(ServerKind::Http)));
    assert!(matches!(parse_server_kind("mcp"), Ok(ServerKind::Mcp)));
    for word in ["sse", "ws", "HTTP", ""] {
        let err = parse_server_kind(word).unwrap_err();
        assert_eq!(err.message(), "expected `http`, `sse`, `ws`, or `mcp`");
    }
}

#[test]
fn server_members() {
    assert!(matches!(parse_server_member("config"), Ok(ServerMember::Config)));
    assert!(matches!(parse_server_member("app_context"), Ok(ServerMember::AppContext)));
    assert!(matches!(parse_server_member("group"), Ok(ServerMember::Group)));
    assert!(matches!(parse_server_member("get"), Ok(ServerMember::Route(HttpMethod::Get))));
    assert!(matches!(parse_server_member("query"), Ok(ServerMember::Route(HttpMethod::Query))));
    assert!(matches!(parse_server_member("any"), Ok(ServerMember::Route(HttpMethod::Any))));
    let err = parse_server_member("GET").unwrap_err();
    assert_eq!(err.message(), "unexpected server member");
}

#[test]
fn route_members_and_requirements() {
    assert!(matches!(parse_route_member("endpoint"), Ok(RouteMember::Endpoint)));
    assert!(matches!(parse_route_member("response_body"), Ok(RouteMember::ResponseBody)));
    assert_eq!(parse_route_member("path").unwrap_err().message(), "unexpected route member");

    let keys = vec![RouteMember::Endpoint, RouteMember::Handler];
    assert!(matches!(check_route_members(&keys), Ok(false)));
    let keys = vec![RouteMember::Config, RouteMember::Endpoint];
    assert!(matches!(check_route_members(&keys), Ok(true)));
    let keys = vec![RouteMember::Handler];
    let err = check_route_members(&keys).unwrap_err();
    assert!(matches!(err, GrammarError::MissingEndpoint));
    assert_eq!(err.message(), "route requires mandatory field `endpoint`");
}

#[test]
fn group_keys_and_requirements() {
    assert!(matches!(parse_group_key("prefix"), Ok(GroupKey::Prefix)));
    assert!(matches!(parse_group_key("members"), Ok(GroupKey::Members)));
    assert_eq!(parse_group_key("routes").unwrap_err().message(), "unexpected group key");
    assert!(matches!(parse_group_member_key("group"), Ok(GroupMemberKey::Group)));
    assert!(matches!(parse_group_member_key("delete"), Ok(GroupMemberKey::Route(HttpMethod::Delete))));
    assert_eq!(parse_group_member_key("config").unwrap_err().message(), "unexpected group member key");

    let keys = vec![GroupKey::Prefix, GroupKey::Members];
    assert!(check_group_members(&keys, 2).is_ok());
    assert_eq!(
        check_group_members(&keys, 0).unwrap_err().message(),
        "group must have atleast 1 member"
    );
    let keys = vec![GroupKey::Members];
    assert_eq!(
        check_group_members(&keys, 1).unwrap_err().message(),
        "group requires mandatory field `prefix`"
    );
}

#[test]
fn body_kinds() {
    assert!(matches!(parse_request_body_kind("String"), Ok(RequestBodyKind::String)));
    assert!(matches!(parse_request_body_kind("Json"), Ok(RequestBodyKind::Json)));
    assert!(matches!(parse_request_body_kind("Form"), Ok(RequestBodyKind::Form)));
    assert_eq!(
        parse_request_body_kind("json").unwrap_err().message(),
        "expected `String`, `Json(Type)`, or `Form(Type)`"
    );
    assert!(!request_body_takes_type(RequestBodyKind::String));
    assert!(request_body_takes_type(RequestBodyKind::Json));

    for (word, kind) in [
        ("Json", ResponseBodyKind::Json),
        ("json", ResponseBodyKind::Json),
        ("String", ResponseBodyKind::String),
        ("Text", ResponseBodyKind::String),
        ("string", ResponseBodyKind::String),
        ("text", ResponseBodyKind::String),
        ("Html", ResponseBodyKind::Html),
        ("html", ResponseBodyKind::Html),
        ("Empty", ResponseBodyKind::Empty),
        ("none", ResponseBodyKind::Empty),
    ] {
        assert_eq!(parse_response_body_kind(word).unwrap(), kind);
    }
    assert_eq!(ResponseBodyKind::Html.as_str(), "Html");
    assert_eq!(
        parse_response_body_kind("Xml").unwrap_err().message(),
        "supported response body type: json, string/text, html"
    );
}

#[test]
fn cors_options_and_methods() {
    assert!(matches!(parse_cors_option("allowed_origins"), Ok(CorsOption::AllowedOrigins)));
    assert!(matches!(parse_cors_option("max_age"), Ok(CorsOption::MaxAge)));
    let err = parse_cors_option("origins").unwrap_err();
    assert_eq!(err.message(), "unknown CORS option `origins`");

    assert_eq!(parse_cors_method("GET").unwrap(), RouteMethod::Get);
    assert_eq!(parse_cors_method("Connect").unwrap(), RouteMethod::Connect);
    assert_eq!(parse_cors_method("any").unwrap(), RouteMethod::Any);
    assert_eq!(parse_cors_method("gEt").unwrap_err().message(), "invalid CORS HTTP method");

    let words = vec!["get".to_string(), "POST".to_string()];
    assert_eq!(parse_cors_methods(&words), Ok(Some(vec![RouteMethod::Get, RouteMethod::Post])));
    let words: Vec<String> = vec![];
    assert_eq!(parse_cors_methods(&words), Ok(None));
    let words = vec!["get".to_string(), "fetch".to_string(), "nope".to_string()];
    assert_eq!(parse_cors_methods(&words), Err(1));
}

#[test]
fn mcp_servers_are_refused_at_expansion() {
    assert!(check_server_kinds(&vec![ServerKind::Http, ServerKind::Http]).is_ok());
    assert_eq!(check_server_kinds(&vec![ServerKind::Http, ServerKind::Mcp, ServerKind::Mcp]), Err(1));
    assert_eq!(GrammarError::McpNotImplemented.message(), "`mcp` server is not implemented yet");
}
