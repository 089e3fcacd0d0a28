use g_server::dsl::config::{ConfigEntry, ExprKind};
use g_server::dsl::expand::{
    config_assignment, config_has, embedded_file_path, file_answer, input_extraction, redirect_target,
    routing_function, runtime_method, wrapping_order, ConfigAssignment, FileAnswer, Responder,
};
use g_server::dsl::grammar::RequestBodyKind;
use g_server::dsl::server::HttpMethod;
use g_server::runtime::route::HttpMethod as RouteMethod;

#[test]
fn plain_entries_are_assigned_as_values() {
    assert_eq!(config_assignment("timeout", None, false), Ok(ConfigAssignment::Value));
    assert_eq!(config_assignment("cors", Some("Cors"), true), Ok(ConfigAssignment::Value));
}

#[test]
fn custom_errors_pick_their_responder() {
    assert_eq!(
        config_assignment("timeout_error", Some("json"), true),
        Ok(ConfigAssignment::ErrorResponse { responder: Responder::Json, takes_message: false })
    );
    assert_eq!(
        config_assignment("bad_request_error", Some("Text"), true),
        Ok(ConfigAssignment::ErrorResponse { responder: Responder::Text, takes_message: true })
    );
    assert_eq!(
        config_assignment("concurrency_limit_error", Some("html"), true),
        Ok(ConfigAssignment::ErrorResponse { responder: Responder::Html, takes_message: false })
    );
    assert_eq!(
        config_assignment("timeout_error", Some("other"), false),
        Ok(ConfigAssignment::ErrorResponse { responder: Responder::Empty, takes_message: false })
    );
    assert_eq!(
        config_assignment("bad_request_error", None, false),
        Ok(ConfigAssignment::ErrorResponse { responder: Responder::Empty, takes_message: true })
    );
}

#[test]
fn custom_errors_need_a_response() {
    assert_eq!(
        config_assignment("timeout_error", Some("json"), false),
        Err("root config field `timeout_error` requires value of `json(g_server::Response<T: ::serde::Serialize>)`".to_string())
    );
    assert_eq!(
        config_assignment("bad_request_error", Some("string"), false),
        Err("root config field `bad_request_error` requires value of `text(g_server::Response<T: Display>)`, or `string(...)`".to_string())
    );
    assert_eq!(
        config_assignment("timeout_error", Some("Html"), false),
        Err("root config field `timeout_error` requires value of `html(g_server::Response<T: Display>)`".to_string())
    );
}

fn checked_entry(name: &str, kind: ExprKind, source: usize) -> ConfigEntry<usize> {
    ConfigEntry::try_new(name, &kind, "", source).ok().unwrap()
}

#[test]
fn inputs_are_checked_with_a_bad_request_error() {
    let cfg = vec![checked_entry("timeout", ExprKind::IntLit, 0)];
    assert!(!config_has(&cfg, "bad_request_error"));
    let x = input_extraction(&cfg, Some(RequestBodyKind::Json));
    assert!(!x.checked);
    assert_eq!(x.body, Some(RequestBodyKind::Json));

    let cfg = vec![
        checked_entry("timeout", ExprKind::IntLit, 0),
        checked_entry("bad_request_error", ExprKind::CallPath(Some("json".to_string())), 1),
    ];
    let x = input_extraction(&cfg, None);
    assert!(x.checked);
    assert_eq!(x.body, None);
}

#[test]
fn query_routes_are_registered_as_get() {
    assert_eq!(routing_function(HttpMethod::Query), "get");
    assert_eq!(routing_function(HttpMethod::Get), "get");
    assert_eq!(routing_function(HttpMethod::Options), "options");
    assert_eq!(routing_function(HttpMethod::Any), "any");
    assert_eq!(runtime_method(HttpMethod::Query), RouteMethod::Query);
    assert_eq!(runtime_method(HttpMethod::Trace), RouteMethod::Trace);
}

#[test]
fn last_declared_middleware_wraps_first() {
    assert_eq!(wrapping_order(&vec![1, 2, 3]), vec![3, 2, 1]);
    assert_eq!(wrapping_order::<u8>(&vec![]), Vec::<u8>::new());
}

#[test]
fn redirects_normalise_request_paths() {
    assert_eq!(redirect_target("/", None), None);
    assert_eq!(redirect_target("/users", Some("a=1")), None);
    assert_eq!(redirect_target("/users/", None), Some("/users".to_string()));
    assert_eq!(redirect_target("//users///1/", Some("a=1")), Some("/users/1?a=1".to_string()));
    assert_eq!(redirect_target("//", None), Some("/".to_string()));
    assert_eq!(redirect_target("/a//b", Some("")), Some("/a/b?".to_string()));
}

#[test]
fn a_redirect_target_is_not_redirected_again() {
    for path in ["/users/", "//a//b//", "///", "/x//y"] {
        let target = redirect_target(path, None).unwrap();
        assert_eq!(redirect_target(&target, None), None);
    }
}

#[test]
fn embedded_paths() {
    assert_eq!(embedded_file_path("/static/css/app.css", "/static"), "css/app.css");
    assert_eq!(embedded_file_path("/other/x.js", "/static"), "other/x.js");
    assert_eq!(embedded_file_path("/static", "/static"), "");
    assert_eq!(embedded_file_path("//a", ""), "a");
}

#[test]
fn file_answers() {
    assert!(matches!(file_answer(true, true, false), FileAnswer::File));
    assert!(matches!(file_answer(false, true, true), FileAnswer::Fallback));
    assert!(matches!(
        file_answer(false, true, false),
        FileAnswer::NotFound("g-server: fallback file's fallback file not found")
    ));
    assert!(matches!(file_answer(false, false, true), FileAnswer::NotFound("g-server: file not found")));
}
