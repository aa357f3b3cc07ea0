use crate::text::{append_bytes, append_decimal, ascii, ascii_literal, decimal};
use vstd::prelude::*;

verus! {

/// Request counters of the exporter: how many requests were recorded and
/// the sum of their latencies in milliseconds. Both counters wrap around
/// at `u64::MAX`, as an atomic `fetch_add` does.
pub struct AtomicMetrics {
    requests: u64,
    total_latency_ms: u64,
}

impl AtomicMetrics {
    pub closed spec fn requests_spec(&self) -> u64 {
        self.requests
    }

    pub closed spec fn total_latency_spec(&self) -> u64 {
        self.total_latency_ms
    }

    /// Both counters start at zero.
    pub fn new() -> (m: Self)
        ensures
            m.requests_spec() == 0,
            m.total_latency_spec() == 0,
    {
        AtomicMetrics { requests: 0, total_latency_ms: 0 }
    }

    /// Counts one request that took `latency_ms` milliseconds.
    pub fn record_request(&mut self, latency_ms: u64)
        ensures
            final(self).requests_spec() == old(self).requests_spec().wrapping_add(1),
            final(self).total_latency_spec() == old(self).total_latency_spec().wrapping_add(latency_ms),
    {
        self.requests = self.requests.wrapping_add(1);
        self.total_latency_ms = self.total_latency_ms.wrapping_add(latency_ms);
    }

    pub fn get_requests(&self) -> (r: u64)
        ensures
            r == self.requests_spec(),
    {
        self.requests
    }

    pub fn get_total_latency_ms(&self) -> (r: u64)
        ensures
            r == self.total_latency_spec(),
    {
        self.total_latency_ms
    }
}

/// The Prometheus text body that the exporter serves for the given counters.
pub open spec fn exposition_body(requests: u64, total_latency_ms: u64) -> Seq<u8> {
    ascii("# HELP silex_requests_total Total HTTP requests processed\n# TYPE silex_requests_total counter\nsilex_requests_total "@)
        + decimal(requests as nat)
        + ascii("\n# HELP silex_latency_ms_total Total latency of all requests in milliseconds\n# TYPE silex_latency_ms_total counter\nsilex_latency_ms_total "@)
        + decimal(total_latency_ms as nat)
        + ascii("\n"@)
}

/// The HTTP response that carries an exporter body: a head whose
/// Content-Length is the body's length in bytes, then the body.
pub open spec fn exposition_http(body: Seq<u8>) -> Seq<u8> {
    ascii("HTTP/1.1 200 OK\r\nContent-Type: text/plain; version=0.0.4\r\nContent-Length: "@)
        + decimal(body.len())
        + ascii("\r\nConnection: close\r\n\r\n"@)
        + body
}

/// The bytes the Prometheus exporter writes back to a scraper, for a
/// snapshot of the request count and of the total latency.
pub fn exposition_response(requests: u64, total_latency_ms: u64) -> (r: Vec<u8>)
    ensures
        r@ == exposition_http(exposition_body(requests, total_latency_ms)),
{
    proof {
        reveal_strlit("# HELP silex_requests_total Total HTTP requests processed\n# TYPE silex_requests_total counter\nsilex_requests_total ");
        reveal_strlit("\n# HELP silex_latency_ms_total Total latency of all requests in milliseconds\n# TYPE silex_latency_ms_total counter\nsilex_latency_ms_total ");
        reveal_strlit("\n");
        reveal_strlit("HTTP/1.1 200 OK\r\nContent-Type: text/plain; version=0.0.4\r\nContent-Length: ");
        reveal_strlit("\r\nConnection: close\r\n\r\n");
    }
    let mut body = ascii_literal("# HELP silex_requests_total Total HTTP requests processed\n# TYPE silex_requests_total counter\nsilex_requests_total ");
    append_decimal(&mut body, requests);
    let middle = ascii_literal("\n# HELP silex_latency_ms_total Total latency of all requests in milliseconds\n# TYPE silex_latency_ms_total counter\nsilex_latency_ms_total ");
    append_bytes(&mut body, middle.as_slice());
    append_decimal(&mut body, total_latency_ms);
    let end = ascii_literal("\n");
    append_bytes(&mut body, end.as_slice());
    assert(body@ == exposition_body(requests, total_latency_ms));

    let mut out = ascii_literal("HTTP/1.1 200 OK\r\nContent-Type: text/plain; version=0.0.4\r\nContent-Length: ");
    let body_len: u64 = body.len() as u64;
    append_decimal(&mut out, body_len);
    let head_end = ascii_literal("\r\nConnection: close\r\n\r\n");
    append_bytes(&mut out, head_end.as_slice());
    append_bytes(&mut out, body.as_slice());
    out
}

/// The ingress data plane's counters: requests seen, connections being
/// served, and 5xx answers given. Each counter wraps around at `u64::MAX`,
/// as an atomic `fetch_add` / `fetch_sub` does.
pub struct IngressMetrics {
    total_req: u64,
    active_conn: u64,
    err_5xx: u64,
}

impl IngressMetrics {
    pub closed spec fn total_req_spec(&self) -> u64 {
        self.total_req
    }

    pub closed spec fn active_conn_spec(&self) -> u64 {
        self.active_conn
    }

    pub closed spec fn err_5xx_spec(&self) -> u64 {
        self.err_5xx
    }

    pub fn new() -> (m: Self)
        ensures
            m.total_req_spec() == 0,
            m.active_conn_spec() == 0,
            m.err_5xx_spec() == 0,
    {
        IngressMetrics { total_req: 0, active_conn: 0, err_5xx: 0 }
    }

    /// A connection handler started on a request.
    pub fn request_received(&mut self)
        ensures
            final(self).total_req_spec() == old(self).total_req_spec().wrapping_add(1),
            final(self).active_conn_spec() == old(self).active_conn_spec(),
            final(self).err_5xx_spec() == old(self).err_5xx_spec(),
    {
        self.total_req = self.total_req.wrapping_add(1);
    }

    /// A client connection was accepted and is being served.
    pub fn connection_opened(&mut self)
        ensures
            final(self).active_conn_spec() == old(self).active_conn_spec().wrapping_add(1),
            final(self).total_req_spec() == old(self).total_req_spec(),
            final(self).err_5xx_spec() == old(self).err_5xx_spec(),
    {
        self.active_conn = self.active_conn.wrapping_add(1);
    }

    /// A client connection is done (served, failed or timed out).
    pub fn connection_closed(&mut self)
        ensures
            final(self).active_conn_spec() == old(self).active_conn_spec().wrapping_sub(1),
            final(self).total_req_spec() == old(self).total_req_spec(),
            final(self).err_5xx_spec() == old(self).err_5xx_spec(),
    {
        self.active_conn = self.active_conn.wrapping_sub(1);
    }

    /// A 5xx-class failure was answered (unknown host or unreachable
    /// backend).
    pub fn error_answered(&mut self)
        ensures
            final(self).err_5xx_spec() == old(self).err_5xx_spec().wrapping_add(1),
            final(self).total_req_spec() == old(self).total_req_spec(),
            final(self).active_conn_spec() == old(self).active_conn_spec(),
    {
        self.err_5xx = self.err_5xx.wrapping_add(1);
    }

    pub fn total_requests(&self) -> (r: u64)
        ensures
            r == self.total_req_spec(),
    {
        self.total_req
    }

    pub fn active_connections(&self) -> (r: u64)
        ensures
            r == self.active_conn_spec(),
    {
        self.active_conn
    }

    pub fn errors_5xx(&self) -> (r: u64)
        ensures
            r == self.err_5xx_spec(),
    {
        self.err_5xx
    }

    /// The answer of the control API to `GET /metrics`.
    pub fn metrics_page(&self) -> (r: Vec<u8>)
        ensures
            r@ == metrics_http(metrics_body(self.total_req_spec(), self.active_conn_spec(), self.err_5xx_spec())),
    {
        proof {
            reveal_strlit("silex_requests_total ");
            reveal_strlit("\nsilex_connections_active ");
            reveal_strlit("\nsilex_errors_5xx ");
            reveal_strlit("\n");
            reveal_strlit("HTTP/1.1 200 OK\r\nContent-Type: text/plain\r\nContent-Length: ");
            reveal_strlit("\r\n\r\n");
        }
        let mut body = ascii_literal("silex_requests_total ");
        append_decimal(&mut body, self.total_req);
        let part = ascii_literal("\nsilex_connections_active ");
        append_bytes(&mut body, part.as_slice());
        append_decimal(&mut body, self.active_conn);
        let part = ascii_literal("\nsilex_errors_5xx ");
        append_bytes(&mut body, part.as_slice());
        append_decimal(&mut body, self.err_5xx);
        let part = ascii_literal("\n");
        append_bytes(&mut body, part.as_slice());

        let mut out = ascii_literal("HTTP/1.1 200 OK\r\nContent-Type: text/plain\r\nContent-Length: ");
        let body_len: u64 = body.len() as u64;
        append_decimal(&mut out, body_len);
        let part = ascii_literal("\r\n\r\n");
        append_bytes(&mut out, part.as_slice());
        append_bytes(&mut out, body.as_slice());
        out
    }
}

/// The text body of the control API's metrics page.
pub open spec fn metrics_body(total_req: u64, active_conn: u64, err_5xx: u64) -> Seq<u8> {
    ascii("silex_requests_total "@) + decimal(total_req as nat)
        + ascii("\nsilex_connections_active "@) + decimal(active_conn as nat)
        + ascii("\nsilex_errors_5xx "@) + decimal(err_5xx as nat)
        + ascii("\n"@)
}

/// The HTTP response that carries a metrics page: a head whose
/// Content-Length is the body's length in bytes, then the body.
pub open spec fn metrics_http(body: Seq<u8>) -> Seq<u8> {
    ascii("HTTP/1.1 200 OK\r\nContent-Type: text/plain\r\nContent-Length: "@)
        + decimal(body.len())
        + ascii("\r\n\r\n"@)
        + body
}

} // verus!
