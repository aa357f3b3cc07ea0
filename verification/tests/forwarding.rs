use silex_ingress::control::{ControlPlane, RewritePayload, RoutePayload};
use silex_ingress::forwarding::forwarded_request;
use silex_ingress::proxy::{plan_request, ConnectionAction};
use silex_ingress::tables::RewriteTable;
use silex_ingress::telemetry::IngressMetrics;

fn rewrites() -> RewriteTable {
    let mut t = RewriteTable::new();
    t.insert(b"/api/v1/users".to_vec(), b"/internal-users".to_vec());
    t
}

#[test]
fn rewrite_table_lookup() {
    let t = rewrites();
    assert_eq!(t.get(b"/api/v1/users"), Some(b"/internal-users".to_vec()));
    assert_eq!(t.get(b"/api/v1"), None);
}

#[test]
fn registered_path_is_rewritten_and_headers_added() {
    let got = forwarded_request(
        &rewrites(),
        b"GET /api/v1/users HTTP/1.1\r\nHost: bench.local\r\n\r\n",
        b"127.0.0.1",
    );
    assert_eq!(
        got,
        b"GET /internal-users HTTP/1.1\r\nX-Forwarded-For: 127.0.0.1\r\nX-Real-IP: 127.0.0.1\r\nHost: bench.local\r\n\r\n".to_vec()
    );
}

#[test]
fn query_is_kept_when_path_is_rewritten() {
    let got = forwarded_request(&rewrites(), b"GET /api/v1/users?id=7 HTTP/1.1\r\n\r\nbody", b"::1");
    assert_eq!(
        got,
        b"GET /internal-users?id=7 HTTP/1.1\r\nX-Forwarded-For: ::1\r\nX-Real-IP: ::1\r\n\r\nbody".to_vec()
    );
}

#[test]
fn unregistered_path_is_kept() {
    let got = forwarded_request(&rewrites(), b"POST /api/v1/users/3 HTTP/1.1\r\nA: b\r\n\r\n", b"1.2.3.4");
    assert_eq!(
        got,
        b"POST /api/v1/users/3 HTTP/1.1\r\nX-Forwarded-For: 1.2.3.4\r\nX-Real-IP: 1.2.3.4\r\nA: b\r\n\r\n".to_vec()
    );
}

#[test]
fn incomplete_request_line_is_passed_unchanged() {
    let got = forwarded_request(&rewrites(), b"GET /api/v1/users HTTP/1.1", b"1.2.3.4");
    assert_eq!(got, b"GET /api/v1/users HTTP/1.1".to_vec());
}

#[test]
fn request_line_without_target_gets_headers_only() {
    let got = forwarded_request(&rewrites(), b"GARBAGE\r\nrest", b"1.2.3.4");
    assert_eq!(got, b"GARBAGE\r\nX-Forwarded-For: 1.2.3.4\r\nX-Real-IP: 1.2.3.4\r\nrest".to_vec());
}

#[test]
fn registered_rewrite_reaches_the_backend() {
    let mut cp = ControlPlane::new();
    cp.apply_route(RoutePayload { host: "bench.local".to_string(), ip: "127.0.0.1:8082".to_string() });
    cp.apply_rewrite(RewritePayload {
        old_path: "/api/v1/users".to_string(),
        new_path: "/internal-users".to_string(),
    });
    let mut metrics = IngressMetrics::new();
    let action = plan_request(
        &mut metrics,
        &cp.routes,
        &cp.rewrites,
        b"GET /api/v1/users HTTP/1.1\r\nHost: bench.local\r\n\r\n",
        b"192.168.0.9",
    );
    match action {
        ConnectionAction::Forward { backend, request } => {
            assert_eq!(backend, "127.0.0.1:8082");
            assert_eq!(
                request,
                b"GET /internal-users HTTP/1.1\r\nX-Forwarded-For: 192.168.0.9\r\nX-Real-IP: 192.168.0.9\r\nHost: bench.local\r\n\r\n".to_vec()
            );
        }
        _ => panic!("expected a forward"),
    }
}
