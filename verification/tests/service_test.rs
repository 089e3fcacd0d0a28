use g_server::http::MiddlewareHandler;
use g_server::runtime::request::{Data, FormData};
use g_server::runtime::route::{Executor, HttpMethod as RouteMethod};
use g_server::service::config::{Compression, Config};
use g_server::service::context::AppContext;
use g_server::service::route::{Executor as ServiceExecutor, HttpMethod, ResponseBodyType, Route};
use g_server::service::server::{AxumServer, Server};

#[test]
fn config_keeps_its_settings_with_a_new_context() {
    let c = Config { timeout: 5000, concurrency_limit: 10, body_limit: 10, compression: Compression::default(), keep_alive: 1000, app_context: () };
    let c = c.with_context("db");
    assert_eq!(c.timeout, 5000);
    assert_eq!(c.concurrency_limit, 10);
    assert_eq!(c.body_limit, 10);
    assert_eq!(c.compression, Compression::All);
    assert_eq!(c.keep_alive, 1000);
    assert_eq!(c.app_context, "db");
}

#[test]
fn context_hands_out_clones() {
    let cx = AppContext::new(vec![1, 2, 3]);
    assert_eq!(cx.ctx(), vec![1, 2, 3]);
    assert_eq!(cx.ctx(), vec![1, 2, 3]);
}

#[test]
fn routes_and_executors() {
    let ex = ServiceExecutor::new(|x: u8| x + 1);
    let config = Config { timeout: 1, concurrency_limit: 2, body_limit: 3, compression: Compression::Zstd, keep_alive: 4, app_context: () };
    let r: Route<_, (), (), ()> = Route::new(HttpMethod::Patch, "/p", config, ResponseBodyType::default(), ex);
    assert_eq!(r.method, HttpMethod::Patch);
    assert_eq!(r.endpoint, "/p");
    assert_eq!(r.response_body_type, ResponseBodyType::Json);
    assert_eq!((r.executor.into_func())(1), 2);

    let ex = Executor::new(|x: u8| x * 2);
    assert_eq!((ex.into_func())(4), 8);
    assert_eq!(RouteMethod::from_name("CONNECT"), RouteMethod::Connect);
    assert_eq!(RouteMethod::from_name("connect"), RouteMethod::Any);
}

#[test]
fn middleware_handlers_keep_both_parts() {
    let m = MiddlewareHandler::new("log", 5u8);
    assert_eq!(*m.middleware(), "log");
    assert_eq!(*m.handler(), 5);
    assert_eq!(m.into_parts(), ("log", 5));
}

#[test]
fn servers_collect_listeners_in_order() {
    let s: AxumServer<u8> = AxumServer::new();
    assert_eq!(s.listener_count(), 0);
    let s = s.push_listener(1).push_listener(2);
    assert_eq!(s.listener_count(), 2);
    assert_eq!(s.into_listeners(), vec![1, 2]);
    let d: AxumServer<u8> = AxumServer::default();
    assert_eq!(d.listener_count(), 0);
    let srv = Server { name: "app", ip_address: "0.0.0.0", port: 8080 };
    assert_eq!(srv.port, 8080);
}

#[test]
fn form_data() {
    let empty: FormData<u8> = FormData::empty();
    assert!(empty.form.is_none() && empty.data.is_none());
    let f: FormData<u8> = FormData::assemble(Some(3), vec![]);
    assert_eq!(f.form, Some(3));
    assert!(f.data.is_none());
    let file = Data { name: "f".to_string(), filename: Some("a.txt".to_string()), content_type: None, file: b"hi".to_vec() };
    let f: FormData<u8> = FormData::assemble(None, vec![file]);
    assert_eq!(f.data.unwrap()[0].file, b"hi".to_vec());
}
