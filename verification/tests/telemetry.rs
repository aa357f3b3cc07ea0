use silex_ingress::telemetry::{exposition_response, AtomicMetrics, IngressMetrics};

fn expected_exposition(reqs: u64, latency: u64) -> Vec<u8> {
    let body = format!(
        "# HELP silex_requests_total Total HTTP requests processed\n\
         # TYPE silex_requests_total counter\n\
         silex_requests_total {}\n\
         # HELP silex_latency_ms_total Total latency of all requests in milliseconds\n\
         # TYPE silex_latency_ms_total counter\n\
         silex_latency_ms_total {}\n",
        reqs, latency
    );
    let response = format!(
        "HTTP/1.1 200 OK\r\n\
         Content-Type: text/plain; version=0.0.4\r\n\
         Content-Length: {}\r\n\
         Connection: close\r\n\
         \r\n\
         {}",
        body.len(),
        body
    );
    response.into_bytes()
}

#[test]
fn new_metrics_start_at_zero() {
    let m = AtomicMetrics::new();
    assert_eq!(m.get_requests(), 0);
    assert_eq!(m.get_total_latency_ms(), 0);
}

#[test]
fn record_request_counts_and_sums() {
    let mut m = AtomicMetrics::new();
    m.record_request(12);
    m.record_request(30);
    m.record_request(0);
    assert_eq!(m.get_requests(), 3);
    assert_eq!(m.get_total_latency_ms(), 42);
}

#[test]
fn record_request_wraps_like_fetch_add() {
    let mut m = AtomicMetrics::new();
    m.record_request(u64::MAX);
    m.record_request(5);
    assert_eq!(m.get_requests(), 2);
    assert_eq!(m.get_total_latency_ms(), 4);
}

#[test]
fn exposition_matches_exporter_format() {
    assert_eq!(exposition_response(3, 120), expected_exposition(3, 120));
    assert_eq!(exposition_response(0, 0), expected_exposition(0, 0));
    assert_eq!(exposition_response(u64::MAX, 1000000007), expected_exposition(u64::MAX, 1000000007));
}

#[test]
fn exposition_content_length_is_body_length() {
    let resp = String::from_utf8(exposition_response(7, 99)).unwrap();
    let (head, body) = resp.split_once("\r\n\r\n").unwrap();
    let len_line = head.lines().find(|l| l.starts_with("Content-Length: ")).unwrap();
    let len: usize = len_line["Content-Length: ".len()..].parse().unwrap();
    assert_eq!(len, body.len());
}

#[test]
fn exposition_of_recorded_metrics() {
    let mut m = AtomicMetrics::new();
    m.record_request(250);
    m.record_request(750);
    let resp = exposition_response(m.get_requests(), m.get_total_latency_ms());
    let text = String::from_utf8(resp).unwrap();
    assert!(text.contains("silex_requests_total 2\n"));
    assert!(text.contains("silex_latency_ms_total 1000\n"));
}

#[test]
fn ingress_metrics_page_format() {
    let mut m = IngressMetrics::new();
    m.request_received();
    m.request_received();
    m.connection_opened();
    m.error_answered();
    let body = format!(
        "silex_requests_total {}\nsilex_connections_active {}\nsilex_errors_5xx {}\n",
        2, 1, 1
    );
    let header = format!(
        "HTTP/1.1 200 OK\r\nContent-Type: text/plain\r\nContent-Length: {}\r\n\r\n",
        body.len()
    );
    let expected = [header.into_bytes(), body.into_bytes()].concat();
    assert_eq!(m.metrics_page(), expected);
}

#[test]
fn open_then_close_restores_active_connections() {
    let mut m = IngressMetrics::new();
    m.connection_opened();
    m.connection_opened();
    assert_eq!(m.active_connections(), 2);
    m.connection_closed();
    assert_eq!(m.active_connections(), 1);
    m.connection_closed();
    assert_eq!(m.active_connections(), 0);
}

#[test]
fn close_without_open_wraps_like_fetch_sub() {
    let mut m = IngressMetrics::new();
    m.connection_closed();
    assert_eq!(m.active_connections(), u64::MAX);
    m.connection_opened();
    assert_eq!(m.active_connections(), 0);
}

#[test]
fn counters_are_independent() {
    let mut m = IngressMetrics::new();
    m.request_received();
    assert_eq!((m.total_requests(), m.active_connections(), m.errors_5xx()), (1, 0, 0));
    m.error_answered();
    assert_eq!((m.total_requests(), m.active_connections(), m.errors_5xx()), (1, 0, 1));
}

#[test]
fn totals_after_many_records() {
    let mut m = AtomicMetrics::new();
    let latencies = [5u64, u64::MAX, 17, 0, 9, u64::MAX - 3];
    let mut sum: u128 = 0;
    for l in latencies {
        m.record_request(l);
        sum += l as u128;
    }
    assert_eq!(m.get_requests(), latencies.len() as u64);
    assert_eq!(m.get_total_latency_ms(), (sum % (1u128 << 64)) as u64);
}

#[test]
fn totals_grow_from_any_start() {
    let mut m = AtomicMetrics::new();
    m.record_request(u64::MAX - 1);
    let (r0, t0) = (m.get_requests(), m.get_total_latency_ms());
    for l in [1u64, 2, 3] {
        m.record_request(l);
    }
    assert_eq!(m.get_requests(), r0 + 3);
    assert_eq!(m.get_total_latency_ms(), t0.wrapping_add(6));
    assert_eq!(m.get_total_latency_ms(), 4);
}
