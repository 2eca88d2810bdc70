use engine_proxy::hop::HopHeaders;
use engine_proxy::proxy::{InboundRequest, ProxyError};
use engine_proxy::routes::{
    HandlerError, Router, RoutingPolicy, Rule, TENANT_HEADER, TENANT_VALUE,
};
use http::header::{HeaderMap, HeaderValue};

fn rule(prefix: &str, upstream: &str, tenant: bool) -> Rule {
    Rule { prefix: prefix.to_string(), upstream: upstream.to_string(), tenant }
}

fn policy(rules: Vec<Rule>, fallback: Option<&str>) -> RoutingPolicy {
    RoutingPolicy { rules, fallback: fallback.map(|u| u.to_string()) }
}

fn request(path: &str, query: Option<&str>, headers: HeaderMap<HeaderValue>) -> InboundRequest {
    InboundRequest { path: path.to_string(), query: query.map(|q| q.to_string()), headers }
}

#[test]
fn tenant_header_texts() {
    assert_eq!(TENANT_HEADER, "x-workspace-id");
    assert_eq!(TENANT_VALUE, "first_workspace");
    assert_eq!(TENANT_VALUE.chars().count(), 15);
}

#[test]
fn select_takes_the_first_rule_that_matches() {
    let p = policy(
        vec![
            rule("/static/", "http://files:1", false),
            rule("/api/v2/", "http://new:2", true),
            rule("/api/", "http://old:3", false),
            rule("/", "http://rest:4", false),
        ],
        None,
    );
    assert_eq!(Router::select("/static/logo.png", &p), Some(0));
    assert_eq!(Router::select("/api/v2/users", &p), Some(1));
    assert_eq!(Router::select("/api/v1/users", &p), Some(2));
    assert_eq!(Router::select("/index.html", &p), Some(3));
    assert_eq!(Router::select("relative", &p), None);
    assert_eq!(Router::select("", &p), None);
}

#[test]
fn select_prefers_the_earlier_of_two_overlapping_rules() {
    let wide_first = policy(
        vec![rule("/api/", "http://old:3", false), rule("/api/v2/", "http://new:2", true)],
        None,
    );
    assert_eq!(Router::select("/api/v2/users", &wide_first), Some(0));
    let narrow_first = policy(
        vec![rule("/api/v2/", "http://new:2", true), rule("/api/", "http://old:3", false)],
        None,
    );
    assert_eq!(Router::select("/api/v2/users", &narrow_first), Some(0));
    assert_eq!(Router::select("/api/v1/users", &narrow_first), Some(1));
}

#[test]
fn select_in_an_empty_policy_finds_nothing() {
    assert_eq!(Router::select("/anything", &policy(Vec::new(), None)), None);
}

#[test]
fn resolve_gives_upstream_and_tenant_flag_of_the_rule() {
    let p = policy(
        vec![rule("/api/", "http://runtime:5051", true), rule("/r/", "http://backend:80", false)],
        Some("http://workspace:5050"),
    );
    let t = Router::resolve("/api/x", &p).unwrap();
    assert_eq!(t.upstream, "http://runtime:5051");
    assert!(t.tenant);
    let t = Router::resolve("/r/x", &p).unwrap();
    assert_eq!(t.upstream, "http://backend:80");
    assert!(!t.tenant);
}

#[test]
fn resolve_falls_back_without_the_tenant() {
    let p = policy(vec![rule("/api/", "http://runtime:5051", true)], Some("http://workspace:5050"));
    let t = Router::resolve("/login", &p).unwrap();
    assert_eq!(t.upstream, "http://workspace:5050");
    assert!(!t.tenant);
}

#[test]
fn resolve_without_match_or_fallback_is_not_found() {
    let p = policy(vec![rule("/api/", "http://runtime:5051", true)], None);
    match Router::resolve("/unmapped", &p) {
        Err(HandlerError::NotFound { path }) => assert_eq!(path, "/unmapped"),
        _ => panic!("not found was expected"),
    }
}

#[test]
fn order_of_disjoint_rules_does_not_matter() {
    let forward = policy(
        vec![
            rule("/a/", "http://a:1", false),
            rule("/b/", "http://b:2", true),
            rule("/c/", "http://c:3", false),
        ],
        Some("http://rest:9"),
    );
    let backward = policy(
        vec![
            rule("/c/", "http://c:3", false),
            rule("/b/", "http://b:2", true),
            rule("/a/", "http://a:1", false),
        ],
        Some("http://rest:9"),
    );
    for path in ["/a/x", "/b/", "/c/deep/er", "/d/x", ""] {
        let one = Router::resolve(path, &forward).unwrap();
        let other = Router::resolve(path, &backward).unwrap();
        assert_eq!(one.upstream, other.upstream, "{}", path);
        assert_eq!(one.tenant, other.tenant, "{}", path);
    }
    assert_eq!(Router::resolve("/b/x", &backward).unwrap().upstream, "http://b:2");
}

#[test]
fn set_headers_names_the_tenant() {
    let mut headers = HeaderMap::new();
    headers.insert("accept", HeaderValue::from_static("*/*"));
    let out = Router::set_headers(headers).unwrap();
    assert_eq!(out.get("x-workspace-id").unwrap(), "first_workspace");
    assert_eq!(out.get("accept").unwrap(), "*/*");
    assert_eq!(out.len(), 2);
}

#[test]
fn set_headers_replaces_what_the_client_sent() {
    let mut headers = HeaderMap::new();
    headers.append("x-workspace-id", HeaderValue::from_static("forged"));
    headers.append("x-workspace-id", HeaderValue::from_static("forged-too"));
    let out = Router::set_headers(headers).unwrap();
    let values: Vec<&HeaderValue> = out.get_all("x-workspace-id").iter().collect();
    assert_eq!(values, vec!["first_workspace"]);
}

#[test]
fn proxy_error_is_internal_and_names_the_kind() {
    match Router::proxy_error(ProxyError::ForwardHeaderError) {
        HandlerError::Internal { detail } => assert_eq!(detail, "ForwardHeaderError"),
        _ => panic!("an internal failure was expected"),
    }
    match Router::proxy_error(ProxyError::HeaderLimit) {
        HandlerError::Internal { detail } => assert_eq!(detail, "HeaderLimit"),
        _ => panic!("an internal failure was expected"),
    }
}

#[test]
fn proxy_error_brackets_the_cause() {
    let cause = "http://bad host".parse::<http::Uri>().unwrap_err();
    let text = format!("{:?}", cause);
    match Router::proxy_error(ProxyError::InvalidUri(cause)) {
        HandlerError::Internal { detail } => {
            assert_eq!(detail, format!("InvalidUri({})", text));
        }
        _ => panic!("an internal failure was expected"),
    }
}

#[test]
fn route_forwards_to_the_upstream_of_the_matching_prefix() {
    let hop = HopHeaders::new();
    let p = policy(vec![rule("/r/", "http://backend-host:8080", false)], None);
    let out = Router::route(
        &hop,
        request("/r/foo", Some("k=v&n=1"), HeaderMap::new()),
        "192.0.2.1",
        &p,
    )
    .unwrap();
    assert_eq!(out.uri.host(), Some("backend-host"));
    assert_eq!(out.uri.port_u16(), Some(8080));
    assert_eq!(out.uri.query(), Some("k=v&n=1"));
    assert_eq!(out.uri.to_string(), "http://backend-host:8080/r/foo?k=v&n=1");
    assert_eq!(out.headers.get("x-forwarded-for").unwrap(), "192.0.2.1");
    assert!(out.headers.get("x-workspace-id").is_none());
}

#[test]
fn route_names_the_tenant_where_the_rule_says_so() {
    let hop = HopHeaders::new();
    let p = policy(vec![rule("/api/", "http://runtime:5051", true)], Some("http://workspace:5050"));
    let mut headers = HeaderMap::new();
    headers.insert("connection", HeaderValue::from_static("close"));
    headers.insert("x-forwarded-for", HeaderValue::from_static("10.1.1.1"));
    let out = Router::route(&hop, request("/api/run", None, headers.clone()), "10.2.2.2", &p).unwrap();
    assert_eq!(out.uri.to_string(), "http://runtime:5051/api/run");
    assert_eq!(out.headers.get("x-workspace-id").unwrap(), "first_workspace");
    assert_eq!(out.headers.get("x-forwarded-for").unwrap(), "10.1.1.1, 10.2.2.2");
    assert!(out.headers.get("connection").is_none());
    assert_eq!(out.headers.len(), 2);

    let out = Router::route(&hop, request("/home", None, headers), "10.2.2.2", &p).unwrap();
    assert_eq!(out.uri.to_string(), "http://workspace:5050/home");
    assert!(out.headers.get("x-workspace-id").is_none());
    assert_eq!(out.headers.len(), 1);
}

#[test]
fn route_of_an_unmapped_path_is_not_found() {
    let hop = HopHeaders::new();
    let p = policy(vec![rule("/api/", "http://runtime:5051", true)], None);
    match Router::route(&hop, request("/unmapped", None, HeaderMap::new()), "10.2.2.2", &p) {
        Err(HandlerError::NotFound { path }) => assert_eq!(path, "/unmapped"),
        _ => panic!("not found was expected"),
    }
}

#[test]
fn route_to_no_address_is_an_internal_failure() {
    let hop = HopHeaders::new();
    let p = policy(Vec::new(), Some("http://bad host"));
    match Router::route(&hop, request("/x", None, HeaderMap::new()), "10.2.2.2", &p) {
        Err(HandlerError::Internal { detail }) => {
            let cause = "http://bad host/x".parse::<http::Uri>().unwrap_err();
            assert_eq!(detail, format!("InvalidUri({:?})", cause));
        }
        _ => panic!("an internal failure was expected"),
    }
}

#[test]
fn route_reports_a_bad_address_whatever_the_headers() {
    let hop = HopHeaders::new();
    let p = policy(vec![rule("/api/", "http://bad host", false)], None);
    let mut headers = HeaderMap::new();
    headers.insert("x-forwarded-for", HeaderValue::from_bytes(&[0xff]).unwrap());
    match Router::route(&hop, request("/api/x", None, headers), "10.2.2.2", &p) {
        Err(HandlerError::Internal { detail }) => {
            assert!(detail.starts_with("InvalidUri("), "{}", detail);
            assert!(detail.ends_with(')'), "{}", detail);
            assert_ne!(detail, "InvalidUri()");
        }
        _ => panic!("an internal failure was expected"),
    }
}

#[test]
fn with_cause_brackets_the_cause() {
    match Router::with_cause("HyperError", "hyper::Error(Connect)") {
        HandlerError::Internal { detail } => {
            assert_eq!(detail, "HyperError(hyper::Error(Connect))");
        }
        _ => panic!("an internal failure was expected"),
    }
    match Router::with_cause("", "") {
        HandlerError::Internal { detail } => assert_eq!(detail, "()"),
        _ => panic!("an internal failure was expected"),
    }
}

#[test]
fn set_headers_reports_a_full_collection() {
    let mut headers = HeaderMap::new();
    let mut i = 0u32;
    while headers.keys_len() < 24576 {
        let name = http::header::HeaderName::from_bytes(format!("h{}", i).as_bytes()).unwrap();
        let _ = headers.try_insert(name, HeaderValue::from_static("v"));
        i += 1;
    }
    match Router::set_headers(headers) {
        Err(HandlerError::Internal { detail }) => assert_eq!(detail, "HeaderLimit"),
        _ => panic!("an internal failure was expected"),
    }
}

#[test]
fn route_with_a_chain_that_is_no_text_is_an_internal_failure() {
    let hop = HopHeaders::new();
    let p = policy(Vec::new(), Some("http://h:1"));
    let mut headers = HeaderMap::new();
    headers.insert("x-forwarded-for", HeaderValue::from_bytes(&[0xc3, 0x28]).unwrap());
    match Router::route(&hop, request("/x", None, headers), "10.2.2.2", &p) {
        Err(HandlerError::Internal { detail }) => assert_eq!(detail, "ForwardHeaderError"),
        _ => panic!("an internal failure was expected"),
    }
}
