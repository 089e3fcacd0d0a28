use g_server::dsl::endpoint::{normalize_route_endpoint, sanitize_endpoint, validate_endpoint};

#[test]
fn valid_paths() {
    assert!(validate_endpoint("/v1/user/{user_id}").is_ok());
    assert!(validate_endpoint("/v1/user/{user_id}/posts/{post_id}").is_ok());
    assert!(validate_endpoint("/v1/health").is_ok());
}

#[test]
fn missing_closing_brace() {
    assert_eq!(validate_endpoint("/v1/user/{user_id"), Err("unclosed '{' found in path"));
}

#[test]
fn missing_opening_brace() {
    assert_eq!(validate_endpoint("/v1/user/user_id}"), Err("unmatched '}' with no preceding '{'"));
}

#[test]
fn empty_param() {
    assert_eq!(validate_endpoint("/v1/user/{}"), Err("empty parameter '{}' found"));
}

#[test]
fn nested_brace() {
    assert_eq!(
        validate_endpoint("/v1/user/{user_{id}"),
        Err("nested '{' found before previous one was closed")
    );
}

#[test]
fn param_sharing_segment_with_literal() {
    assert_eq!(
        validate_endpoint("/v1/user{id}"),
        Err("parameter must occupy its entire path segment, e.g. '/v1/{id}' not '/v1/user{id}'")
    );
    assert_eq!(
        validate_endpoint("/v1/{id}suffix"),
        Err("parameter must occupy its entire path segment, e.g. '/v1/{id}' not '/v1/user{id}'")
    );
    assert_eq!(
        validate_endpoint("/v1/a{id}b"),
        Err("parameter must occupy its entire path segment, e.g. '/v1/{id}' not '/v1/user{id}'")
    );
}

#[test]
fn sanitize_documented_examples() {
    assert_eq!(sanitize_endpoint(""), "/");
    assert_eq!(sanitize_endpoint("users"), "/users");
    assert_eq!(sanitize_endpoint("/users"), "/users");
    assert_eq!(sanitize_endpoint("/users/"), "/users");
    assert_eq!(sanitize_endpoint("/users///"), "/users");
    assert_eq!(sanitize_endpoint("/users//:id"), "/users/:id");
    assert_eq!(sanitize_endpoint("//users/:id"), "/users/:id");
    assert_eq!(sanitize_endpoint("/"), "/");
    assert_eq!(sanitize_endpoint("/users/:id/"), "/users/:id");
    assert_eq!(sanitize_endpoint("/users/:id/posts"), "/users/:id/posts");
}

#[test]
fn sanitize_trims_whitespace_and_is_idempotent() {
    assert_eq!(sanitize_endpoint("  /a//b/  "), "/a/b");
    assert_eq!(sanitize_endpoint("   "), "/");
    let once = sanitize_endpoint("x//y///");
    assert_eq!(once, "/x/y");
    assert_eq!(sanitize_endpoint(&once), once);
}

#[test]
fn normalize_route_endpoint_hides_parameter_names() {
    assert_eq!(normalize_route_endpoint("/v1/user/{id}"), "/v1/user/{...}");
    assert_eq!(normalize_route_endpoint("/v1/{a}/x/{b}"), "/v1/{...}/x/{...}");
    assert_eq!(normalize_route_endpoint("/v1/health"), "/v1/health");
    assert_eq!(normalize_route_endpoint(""), "");
}

#[test]
fn keys_agree_exactly_when_segments_agree_up_to_parameters() {
    assert_eq!(normalize_route_endpoint("/ping/{id}"), normalize_route_endpoint("/ping/{user_id}"));
    assert_ne!(normalize_route_endpoint("/ping/{id}"), normalize_route_endpoint("/ping/id"));
    assert_ne!(normalize_route_endpoint("/a/b"), normalize_route_endpoint("/a/b/"));
    assert_ne!(normalize_route_endpoint("/a/{b"), normalize_route_endpoint("/a/{c"));
    assert_eq!(normalize_route_endpoint("/{a}/{b}"), normalize_route_endpoint("/{x}/{y}"));
}
