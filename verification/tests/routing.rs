use silex_ingress::http::{backend_for_fields, bytes_eq_ignore_ascii_case, select_backend, HeaderField};
use silex_ingress::proxy::{backend_unreachable, plan_request, ConnectionAction};
use silex_ingress::tables::{RewriteTable, RouteTable};
use silex_ingress::telemetry::IngressMetrics;

fn field(name: &str, value: &[u8]) -> HeaderField {
    HeaderField { name: name.as_bytes().to_vec(), value: value.to_vec() }
}

fn bench_routes() -> RouteTable {
    let mut routes = RouteTable::new();
    routes.insert("bench.local".to_string(), "127.0.0.1:8082".to_string());
    routes
}

#[test]
fn route_table_insert_and_get() {
    let mut routes = RouteTable::new();
    assert_eq!(routes.get("a.example"), None);
    routes.insert("a.example".to_string(), "10.0.0.1:80".to_string());
    assert_eq!(routes.get("a.example"), Some("10.0.0.1:80".to_string()));
    routes.insert("a.example".to_string(), "10.0.0.2:80".to_string());
    assert_eq!(routes.get("a.example"), Some("10.0.0.2:80".to_string()));
    assert_eq!(routes.get("b.example"), None);
}

#[test]
fn host_field_selects_backend() {
    let routes = bench_routes();
    let fields = vec![field("User-Agent", b"curl"), field("Host", b"bench.local")];
    assert_eq!(backend_for_fields(&routes, &fields), Some("127.0.0.1:8082".to_string()));
}

#[test]
fn host_port_is_stripped() {
    let routes = bench_routes();
    let fields = vec![field("Host", b"bench.local:80")];
    assert_eq!(backend_for_fields(&routes, &fields), Some("127.0.0.1:8082".to_string()));
    let fields = vec![field("Host", b"bench.local:")];
    assert_eq!(backend_for_fields(&routes, &fields), Some("127.0.0.1:8082".to_string()));
}

#[test]
fn host_name_matches_in_any_case() {
    let routes = bench_routes();
    for name in ["host", "HOST", "hOsT"] {
        let fields = vec![field(name, b"bench.local")];
        assert_eq!(backend_for_fields(&routes, &fields), Some("127.0.0.1:8082".to_string()));
    }
}

#[test]
fn host_value_is_case_sensitive() {
    let routes = bench_routes();
    let fields = vec![field("Host", b"BENCH.LOCAL")];
    assert_eq!(backend_for_fields(&routes, &fields), None);
}

#[test]
fn only_the_first_host_field_counts() {
    let routes = bench_routes();
    let fields = vec![field("Host", b"other.local"), field("Host", b"bench.local")];
    assert_eq!(backend_for_fields(&routes, &fields), None);
}

#[test]
fn non_utf8_host_has_no_backend() {
    let routes = bench_routes();
    let fields = vec![field("Host", b"bench\xff.local")];
    assert_eq!(backend_for_fields(&routes, &fields), None);
}

#[test]
fn no_host_field_has_no_backend() {
    let routes = bench_routes();
    let fields = vec![field("Accept", b"*/*"), field("Hosts", b"bench.local")];
    assert_eq!(backend_for_fields(&routes, &fields), None);
}

#[test]
fn utf8_host_is_looked_up() {
    let mut routes = RouteTable::new();
    routes.insert("bücher.example".to_string(), "10.1.1.1:443".to_string());
    let fields = vec![field("Host", "bücher.example:8443".as_bytes())];
    assert_eq!(backend_for_fields(&routes, &fields), Some("10.1.1.1:443".to_string()));
}

#[test]
fn ascii_case_comparison() {
    assert!(bytes_eq_ignore_ascii_case(b"Content-Type", b"content-type"));
    assert!(!bytes_eq_ignore_ascii_case(b"Host", b"Hosts"));
    assert!(!bytes_eq_ignore_ascii_case(b"[", b"{"));
}

#[test]
fn raw_request_is_routed() {
    let routes = bench_routes();
    let req = b"GET /api/v1/users HTTP/1.1\r\nHost: bench.local\r\nUser-Agent: curl/8.0\r\n\r\n";
    assert_eq!(select_backend(&routes, req), Some("127.0.0.1:8082".to_string()));
    let req = b"GET / HTTP/1.1\r\nhost: bench.local:80\r\n\r\n";
    assert_eq!(select_backend(&routes, req), Some("127.0.0.1:8082".to_string()));
}

#[test]
fn malformed_request_is_not_routed() {
    let routes = bench_routes();
    assert_eq!(select_backend(&routes, b"\x01\x02 garbage\r\n\r\n"), None);
}

#[test]
fn request_with_too_many_headers_is_not_routed() {
    let routes = bench_routes();
    let mut req = b"GET / HTTP/1.1\r\nHost: bench.local\r\n".to_vec();
    for i in 0..20 {
        req.extend_from_slice(format!("X-Extra-{}: 1\r\n", i).as_bytes());
    }
    req.extend_from_slice(b"\r\n");
    assert_eq!(select_backend(&routes, &req), None);
}

#[test]
fn plan_forwards_routed_request() {
    let routes = bench_routes();
    let mut metrics = IngressMetrics::new();
    let action = plan_request(&mut metrics, &routes, &RewriteTable::new(), b"GET / HTTP/1.1\r\nHost: bench.local\r\n\r\n", b"10.1.2.3");
    match action {
        ConnectionAction::Forward { backend, request } => {
            assert_eq!(backend, "127.0.0.1:8082");
            assert_eq!(request, b"GET / HTTP/1.1\r\nX-Forwarded-For: 10.1.2.3\r\nX-Real-IP: 10.1.2.3\r\nHost: bench.local\r\n\r\n".to_vec());
        }
        _ => panic!("expected a forward"),
    }
    assert_eq!(metrics.errors_5xx(), 0);
}

#[test]
fn plan_answers_404_for_unknown_host() {
    let routes = bench_routes();
    let mut metrics = IngressMetrics::new();
    let action = plan_request(&mut metrics, &routes, &RewriteTable::new(), b"GET / HTTP/1.1\r\nHost: nowhere.local\r\n\r\n", b"10.1.2.3");
    match action {
        ConnectionAction::Reply { response } => {
            assert_eq!(response, b"HTTP/1.1 404 Not Found\r\nContent-Length: 0\r\n\r\n".to_vec())
        }
        _ => panic!("expected a reply"),
    }
    assert_eq!(metrics.errors_5xx(), 1);
}

#[test]
fn plan_closes_on_empty_read() {
    let routes = bench_routes();
    let mut metrics = IngressMetrics::new();
    assert!(matches!(plan_request(&mut metrics, &routes, &RewriteTable::new(), b"", b"10.1.2.3"), ConnectionAction::Close));
    assert_eq!(metrics.errors_5xx(), 0);
}

#[test]
fn unreachable_backend_answers_502() {
    let mut metrics = IngressMetrics::new();
    let resp = backend_unreachable(&mut metrics);
    assert_eq!(resp, b"HTTP/1.1 502 Bad Gateway\r\nContent-Length: 0\r\n\r\n".to_vec());
    assert_eq!(metrics.errors_5xx(), 1);
}

#[test]
fn later_route_registration_wins() {
    let mut routes = bench_routes();
    routes.insert("bench.local".to_string(), "127.0.0.1:8080".to_string());
    let req = b"GET / HTTP/1.1\r\nHost: bench.local\r\n\r\n";
    assert_eq!(select_backend(&routes, req), Some("127.0.0.1:8080".to_string()));
}

#[test]
fn registering_one_host_keeps_other_routes() {
    let mut routes = bench_routes();
    routes.insert("other.local".to_string(), "10.0.0.9:9000".to_string());
    let req = b"GET / HTTP/1.1\r\nHost: bench.local\r\n\r\n";
    assert_eq!(select_backend(&routes, req), Some("127.0.0.1:8082".to_string()));
    let req = b"GET / HTTP/1.1\r\nHost: other.local:9000\r\n\r\n";
    assert_eq!(select_backend(&routes, req), Some("10.0.0.9:9000".to_string()));
}
