use g_server::dsl::config::{ConfigEntry, ExprKind};
use g_server::dsl::emit::{group_emissions, Emission};
use g_server::dsl::group::{Group, GroupMember};
use g_server::dsl::naming::{group_function_ident, group_route_function_ident, init_ident, random_6_chars, route_function_ident};
use g_server::dsl::route::{Route, RouteHandler};
use g_server::dsl::server::{
    flatten_group_endpoints, validate_servers, DslError, GServer, HttpMethod, Server, ServerBody, ServerKind,
};

fn route(method: HttpMethod, endpoint: &str, handler: RouteHandler) -> Route<usize> {
    Route { method, endpoint: endpoint.to_string(), config: vec![], middlewares: vec![], handler }
}

fn server(name: &str, port: &str, routes: Vec<Route<usize>>, groups: Vec<Group<usize>>) -> Server<usize> {
    Server {
        kind: ServerKind::Http,
        name: name.to_string(),
        ip: "127.0.0.1".to_string(),
        port: port.to_string(),
        body: ServerBody { config: vec![], routes, groups },
    }
}

fn entry(name: &str, kind: ExprKind, source: usize) -> ConfigEntry<usize> {
    ConfigEntry::try_new(name, &kind, "", source).ok().unwrap()
}

#[test]
fn accepted_declaration() {
    let s = server(
        "app",
        "3000",
        vec![
            route(HttpMethod::Get, "/users/{id}", RouteHandler::Path("get_user".into())),
            route(HttpMethod::Post, "/users/{id}", RouteHandler::Path("put_user".into())),
        ],
        vec![],
    );
    let g = GServer::try_new(vec![s]);
    assert!(g.is_ok());
    assert_eq!(g.ok().unwrap().servers.len(), 1);
}

#[test]
fn duplicate_names_and_ports() {
    let servers = vec![server("a", "3000", vec![], vec![]), server("a", "3001", vec![], vec![])];
    let e = validate_servers(&servers).unwrap_err();
    assert!(matches!(e, DslError::DuplicateServerName { server: 1, .. }));
    assert_eq!(e.message(), "duplicate server name `a`");

    let servers = vec![server("a", "3000", vec![], vec![]), server("b", "3000", vec![], vec![])];
    let e = validate_servers(&servers).unwrap_err();
    assert!(matches!(e, DslError::DuplicatePort { server: 1, port: 3000 }));
    assert_eq!(e.message(), "duplicate server port `3000`");

    let servers = vec![server("a", "70000", vec![], vec![])];
    let e = validate_servers(&servers).unwrap_err();
    assert!(matches!(e, DslError::InvalidPort { server: 0, .. }));
    assert_eq!(e.message(), "number too large to fit in target type");
}

#[test]
fn routes_differing_only_in_parameter_names_clash() {
    let s = server(
        "app",
        "3000",
        vec![
            route(HttpMethod::Get, "/users/{id}", RouteHandler::Closure),
            route(HttpMethod::Get, "/users/{name}", RouteHandler::Closure),
        ],
        vec![],
    );
    let e = validate_servers(&vec![s]).unwrap_err();
    assert!(matches!(e, DslError::InvalidRoute { server: 0, route: 1, .. }));
    assert_eq!(e.message(), "duplicate route: GET /users/{...}");
}

#[test]
fn any_clashes_with_every_method() {
    let s = server(
        "app",
        "3000",
        vec![route(HttpMethod::Post, "/x", RouteHandler::Closure), route(HttpMethod::Any, "/x", RouteHandler::Closure)],
        vec![],
    );
    let e = validate_servers(&vec![s]).unwrap_err();
    assert_eq!(e.message(), "duplicate endpoint for `any`: /x");

    let s = server(
        "app",
        "3000",
        vec![route(HttpMethod::Any, "/x", RouteHandler::Closure), route(HttpMethod::Get, "/x", RouteHandler::Closure)],
        vec![],
    );
    let e = validate_servers(&vec![s]).unwrap_err();
    assert_eq!(e.message(), "duplicate endpoint for existing `any`: /x");
}

#[test]
fn malformed_endpoints_are_refused() {
    let s = server("app", "3000", vec![route(HttpMethod::Get, "/a/{", RouteHandler::Closure)], vec![]);
    let e = validate_servers(&vec![s]).unwrap_err();
    assert_eq!(e.message(), "unclosed '{' found in path");
}

#[test]
fn root_only_entries_are_refused_in_routes() {
    let mut r = route(HttpMethod::Get, "/a", RouteHandler::Closure);
    r.config.push(entry("normalize_endpoint", ExprKind::BoolLit(true), 7));
    let s = server("app", "3000", vec![r], vec![]);
    let e = validate_servers(&vec![s]).unwrap_err();
    assert!(matches!(e, DslError::GlobalOnlyConfig { server: 0, .. }));
    assert_eq!(e.message(), "`normalize_endpoint` only allowed for global config");
}

fn users_group() -> Group<usize> {
    let inner = Group {
        prefix: "/admin".to_string(),
        config: vec![],
        middlewares: vec!["audit".to_string()],
        members: vec![GroupMember::Route(Box::new(route(HttpMethod::Delete, "/{id}", RouteHandler::Path("remove".into()))))],
    };
    Group {
        prefix: "/users/".to_string(),
        config: vec![],
        middlewares: vec!["auth".to_string()],
        members: vec![
            GroupMember::Route(Box::new(route(HttpMethod::Get, "/", RouteHandler::Path("list".into())))),
            GroupMember::Group(Box::new(inner)),
        ],
    }
}

#[test]
fn group_endpoints_are_joined_with_one_slash() {
    let flat = flatten_group_endpoints(&users_group());
    assert_eq!(
        flat,
        vec![("/users/".to_string(), HttpMethod::Get), ("/users/admin/{id}".to_string(), HttpMethod::Delete)]
    );
}

#[test]
fn duplicate_group_routes_are_refused() {
    let g = Group {
        prefix: "/v1".to_string(),
        config: vec![],
        middlewares: vec![],
        members: vec![
            GroupMember::Route(Box::new(route(HttpMethod::Get, "/a/{x}", RouteHandler::Closure))),
            GroupMember::Route(Box::new(route(HttpMethod::Get, "a/{y}", RouteHandler::Closure))),
        ],
    };
    let e = validate_servers(&vec![server("app", "1", vec![], vec![g])]).unwrap_err();
    assert!(matches!(e, DslError::InvalidGroupRoute { server: 0, group: 0, route: 1, .. }));
    assert_eq!(e.message(), "duplicate group route: GET /v1/a/{...}");
}

#[test]
fn group_routes_clash_with_top_level_routes() {
    let g = Group {
        prefix: "/v1".to_string(),
        config: vec![],
        middlewares: vec![],
        members: vec![GroupMember::Route(Box::new(route(HttpMethod::Get, "/x", RouteHandler::Closure)))],
    };
    let top = vec![route(HttpMethod::Get, "/v1/x", RouteHandler::Closure)];
    let e = validate_servers(&vec![server("app", "1", top, vec![g])]).unwrap_err();
    assert!(matches!(e, DslError::InvalidGroupRoute { server: 0, group: 0, route: 0, .. }));
    assert_eq!(e.message(), "duplicate group route: GET /v1/x");

    let g = Group {
        prefix: "/v1".to_string(),
        config: vec![],
        middlewares: vec![],
        members: vec![GroupMember::Route(Box::new(route(HttpMethod::Post, "/x", RouteHandler::Closure)))],
    };
    let top = vec![route(HttpMethod::Get, "/v1/x", RouteHandler::Closure)];
    assert!(validate_servers(&vec![server("app", "1", top, vec![g])]).is_ok());
}

#[test]
fn error_handlers_are_inherited_unless_overridden() {
    let mut r1 = route(HttpMethod::Get, "/a", RouteHandler::Closure);
    r1.config.push(entry("timeout_error", ExprKind::CallPath(Some("text".into())), 2));
    let r2 = route(HttpMethod::Get, "/b", RouteHandler::Closure);
    let mut body = ServerBody {
        config: vec![
            entry("timeout_error", ExprKind::CallPath(Some("json".into())), 1),
            entry("timeout", ExprKind::IntLit, 9),
        ],
        routes: vec![r1, r2],
        groups: vec![users_group()],
    };
    body.inherit_error_handlers();
    assert_eq!(body.routes[0].config.len(), 1);
    assert_eq!(body.routes[1].config.len(), 1);
    assert_eq!(body.routes[1].config[0].name, "timeout_error");
    assert_eq!(body.groups[0].config.len(), 1);
    match &body.groups[0].members[1] {
        GroupMember::Group(inner) => match &inner.members[0] {
            GroupMember::Route(r) => assert_eq!(r.config.len(), 1),
            _ => panic!("expected a route"),
        },
        _ => panic!("expected a group"),
    }
}

#[test]
fn generated_names() {
    let s = server(
        "app",
        "3000",
        vec![
            route(HttpMethod::Get, "/users/{id}", RouteHandler::Path("get_user".into())),
            route(HttpMethod::Post, "/a-b/{id}", RouteHandler::Closure),
        ],
        vec![users_group()],
    );
    assert_eq!(init_ident("app"), "__init_app");
    assert_eq!(route_function_ident(&s, 0), "__route_app_get_user_0");
    assert_eq!(route_function_ident(&s, 1), "__route_app_POST__a_b__id__1");
    assert_eq!(route_function_ident(&s, 5), "__route_app_5");
    assert_eq!(
        group_function_ident(&s, &vec!["/users".to_string(), "/admin-x/y".to_string()]),
        "__group_app_users_admin_x_y"
    );
    let name = group_route_function_ident(&s, &vec!["/v1".to_string()], HttpMethod::Get, &RouteHandler::Path("list".into())).unwrap();
    assert!(name.starts_with("__route_app_GET_v1_list_"));
    assert_eq!(name.len(), "__route_app_GET_v1_list_".len() + 6);
    let closure = group_route_function_ident(&s, &vec![], HttpMethod::Put, &RouteHandler::Closure).unwrap();
    assert!(closure.starts_with("__route_app_PUT_"));
    assert_eq!(closure.len(), "__route_app_PUT_".len() + 6);
}

#[test]
fn random_suffixes_are_alphanumeric() {
    let a = random_6_chars().unwrap();
    assert_eq!(a.chars().count(), 6);
    assert!(a.chars().all(|c| c.is_ascii_alphanumeric()));
}

#[test]
fn group_emissions_come_children_first() {
    let out = group_emissions(&users_group());
    assert_eq!(out.len(), 4);
    match &out[0] {
        Emission::Route { path, middlewares, at, endpoint, method } => {
            assert_eq!(endpoint, "/");
            assert_eq!(*method, HttpMethod::Get);
            assert_eq!(path, &vec!["/users/".to_string()]);
            assert_eq!(middlewares, &vec!["auth".to_string()]);
            assert_eq!(at, &vec![0]);
        },
        _ => panic!("expected a route first"),
    }
    match &out[1] {
        Emission::Route { path, middlewares, at, endpoint, method } => {
            assert_eq!(endpoint, "/{id}");
            assert_eq!(*method, HttpMethod::Delete);
            assert_eq!(path, &vec!["/users/".to_string(), "/admin".to_string()]);
            assert_eq!(middlewares, &vec!["auth".to_string(), "audit".to_string()]);
            assert_eq!(at, &vec![1, 0]);
        },
        _ => panic!("expected the nested route second"),
    }
    match &out[2] {
        Emission::Group { path, at } => {
            assert_eq!(path.len(), 2);
            assert_eq!(at, &vec![1]);
        },
        _ => panic!("expected the nested group third"),
    }
    match &out[3] {
        Emission::Group { path, at } => {
            assert_eq!(path, &vec!["/users/".to_string()]);
            assert!(at.is_empty());
        },
        _ => panic!("expected the root group last"),
    }
}

#[test]
fn generated_route_functions_follow_the_checked_routes() {
    let group = users_group();
    let checked = flatten_group_endpoints(&group);
    let generated: Vec<HttpMethod> = group_emissions(&group)
        .iter()
        .filter_map(|e| match e {
            Emission::Route { method, .. } => Some(*method),
            Emission::Group { .. } => None,
        })
        .collect();
    let checked_methods: Vec<HttpMethod> = checked.iter().map(|(_, m)| *m).collect();
    assert_eq!(generated, checked_methods);
}
