use engine_proxy::hop::HopHeaders;
use engine_proxy::proxy::{InboundRequest, Proxy, ProxyError};
use engine_proxy::routes::{HandlerError, Router, RoutingPolicy, Rule};
use engine_proxy::server::{
    ErrorResponse, Outcome, ProxyConfig, ProxyServer, Reply, API_PREFIX, UPSTREAM_SCHEME,
};
use futures_util::FutureExt;
use http::header::{HeaderMap, HeaderValue};
use std::sync::Arc;

fn config(volume: bool, db: bool) -> ProxyConfig {
    ProxyConfig {
        proxy_address: "0.0.0.0:5000".to_string(),
        workspace_address: "127.0.0.1:5050".to_string(),
        runtime_address: "127.0.0.1:5051".to_string(),
        volume_multi_workspace: volume,
        db_multi_workspace: db,
    }
}

fn local<R>(reply: Reply<R>) -> ErrorResponse {
    match reply {
        Reply::Local(made) => made,
        Reply::Relayed(_) => panic!("a response made here was expected"),
    }
}

fn transport_failure() -> hyper::Error {
    let (sender, body) = hyper::Body::channel();
    sender.abort();
    hyper::body::to_bytes(body).now_or_never().unwrap().unwrap_err()
}

#[test]
fn constants_of_the_standard_policy() {
    assert_eq!(API_PREFIX, "/api/");
    assert_eq!(UPSTREAM_SCHEME, "http://");
}

#[test]
fn server_keeps_its_address() {
    let server = ProxyServer::new(Arc::new(config(false, false)));
    assert_eq!(server.address(), "0.0.0.0:5000");
}

#[test]
fn policy_sends_the_api_to_the_runtime_and_the_rest_to_the_workspace() {
    let server = ProxyServer::new(Arc::new(config(false, false)));
    let p = server.policy();
    assert_eq!(p.rules.len(), 1);
    assert_eq!(p.rules[0].prefix, "/api/");
    assert_eq!(p.rules[0].upstream, "http://127.0.0.1:5051");
    assert!(!p.rules[0].tenant);
    assert_eq!(p.fallback.as_deref(), Some("http://127.0.0.1:5050"));
    assert_eq!(Router::resolve("/api/x", &p).unwrap().upstream, "http://127.0.0.1:5051");
    assert_eq!(Router::resolve("/api", &p).unwrap().upstream, "http://127.0.0.1:5050");
    assert_eq!(Router::resolve("/", &p).unwrap().upstream, "http://127.0.0.1:5050");
}

#[test]
fn policy_names_the_tenant_where_a_store_is_shared() {
    assert!(!ProxyServer::new(Arc::new(config(false, false))).policy().rules[0].tenant);
    assert!(ProxyServer::new(Arc::new(config(true, false))).policy().rules[0].tenant);
    assert!(ProxyServer::new(Arc::new(config(false, true))).policy().rules[0].tenant);
    assert!(ProxyServer::new(Arc::new(config(true, true))).policy().rules[0].tenant);
}

#[test]
fn served_response_passes_the_boundary() {
    match ProxyServer::handler_panic_wrap(Outcome::Served(204u16)) {
        Reply::Relayed(status) => assert_eq!(status, 204),
        Reply::Local(_) => panic!("the upstream's response was expected"),
    }
}

#[test]
fn internal_failure_becomes_a_server_error() {
    let error = HandlerError::Internal { detail: "ForwardHeaderError".to_string() };
    let made = local(ProxyServer::handler_panic_wrap::<()>(Outcome::Failed(error)));
    assert_eq!(made.status, 500);
    assert_eq!(made.body, "Internal Server Error");
    assert_eq!(made.log, "ForwardHeaderError");
}

#[test]
fn not_found_becomes_a_client_error() {
    let error = HandlerError::NotFound { path: "/nowhere".to_string() };
    let made = local(ProxyServer::handler_panic_wrap::<()>(Outcome::Failed(error)));
    assert_eq!(made.status, 404);
    assert_eq!(made.body, "Not Found");
    assert_eq!(made.log, "/nowhere");
}

#[test]
fn fault_in_the_handler_becomes_a_server_error() {
    let made = local(ProxyServer::handler_panic_wrap::<()>(Outcome::Panicked(
        "index out of bounds".to_string(),
    )));
    assert_eq!(made.status, 500);
    assert_eq!(made.body, "Internal Server Error");
    assert_eq!(made.log, "index out of bounds");
}

#[test]
fn boundary_serves_the_next_request_after_a_fault() {
    let first = local(ProxyServer::handler_panic_wrap::<u16>(Outcome::Panicked("boom".to_string())));
    assert_eq!(first.status, 500);
    match ProxyServer::handler_panic_wrap(Outcome::Served(200u16)) {
        Reply::Relayed(status) => assert_eq!(status, 200),
        Reply::Local(_) => panic!("the upstream's response was expected"),
    }
}

#[test]
fn unmapped_path_is_answered_with_not_found() {
    let hop = HopHeaders::new();
    let policy = RoutingPolicy {
        rules: vec![Rule {
            prefix: "/api/".to_string(),
            upstream: "http://127.0.0.1:5051".to_string(),
            tenant: false,
        }],
        fallback: None,
    };
    let request =
        InboundRequest { path: "/unmapped".to_string(), query: None, headers: HeaderMap::new() };
    let outcome = match Router::route(&hop, request, "192.0.2.9", &policy) {
        Ok(_) => panic!("no upstream was expected"),
        Err(error) => Outcome::<()>::Failed(error),
    };
    let made = local(ProxyServer::handler_panic_wrap(outcome));
    assert_eq!(made.status, 404);
    assert_eq!(made.log, "/unmapped");
}

#[test]
fn transport_failure_is_kept_with_its_cause() {
    let hop = HopHeaders::new();
    let cause = transport_failure();
    let text = format!("{:?}", cause);
    match Proxy::receive(&hop, Err(cause)) {
        Err(ProxyError::HyperError(kept)) => assert_eq!(format!("{:?}", kept), text),
        _ => panic!("a transport failure was expected"),
    }
}

#[test]
fn transport_failure_is_answered_with_a_server_error() {
    let hop = HopHeaders::new();
    let cause = transport_failure();
    let text = format!("{:?}", cause);
    let error = match Proxy::receive(&hop, Err(cause)) {
        Ok(_) => panic!("a transport failure was expected"),
        Err(error) => Router::proxy_error(error),
    };
    let made = local(ProxyServer::handler_panic_wrap::<HeaderMap<HeaderValue>>(Outcome::Failed(
        error,
    )));
    assert_eq!(made.status, 500);
    assert_eq!(made.body, "Internal Server Error");
    assert_eq!(made.log, format!("HyperError({})", text));
}
