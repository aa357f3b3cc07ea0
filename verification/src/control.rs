//! The control API: what a request to the sync port asks for, and how the
//! ingress state changes when a route, a path rewrite or a TLS certificate
//! is registered.
use crate::tables::{RewriteTable, RouteTable};
use crate::text::{ascii, ascii_literal, blank_line_from, find_blank_line, has_prefix, starts_with};
use crate::tls::{build_certified_key, certified_key_chain, signs_with, decode_tls_material, tls_material, SniResolver};
use rustls::sign::CertifiedKey;
use std::sync::Arc;
use vstd::prelude::*;
use vstd::utf8::encode_utf8;

verus! {

/// What a control request asks for. The bodies are the bytes after the
/// first blank line, still to be read as JSON.
pub enum ApiRequest {
    /// `GET /metrics`: the metrics page.
    Metrics,
    /// `POST /tls`: a TLS certificate for a host.
    Tls { body: Vec<u8> },
    /// `POST /rewrite`: a path rewrite.
    Rewrite { body: Vec<u8> },
    /// Any other request with a body: a route for a host.
    Route { body: Vec<u8> },
    /// A request that is neither the metrics page nor has a blank line
    /// ending its head: it gets no answer.
    Unanswered,
}

/// The route registration payload: `{"host": ..., "ip": ...}`.
pub struct RoutePayload {
    pub host: String,
    pub ip: String,
}

/// The TLS registration payload: the host and base64 of the certificate
/// PEM and of the key PEM.
pub struct TlsPayload {
    pub host: String,
    pub cert: String,
    pub key: String,
}

/// The rewrite registration payload: `{"old_path": ..., "new_path": ...}`.
pub struct RewritePayload {
    pub old_path: String,
    pub new_path: String,
}

/// The body of a control request: the bytes after the first blank line.
pub open spec fn api_body(request: Seq<u8>) -> Option<Seq<u8>> {
    match blank_line_from(request, 0) {
        Some(i) => Some(request.skip((i + 4) as int)),
        None => None,
    }
}

/// Sorts a control request by its first bytes: `GET /metrics` first, then,
/// for a request with a body, `POST /tls`, `POST /rewrite`, and any other
/// as a route.
pub fn classify_api_request(request: &[u8]) -> (r: ApiRequest)
    ensures
        has_prefix(request@, ascii("GET /metrics"@)) ==> r is Metrics,
        !has_prefix(request@, ascii("GET /metrics"@)) && api_body(request@) is None ==> r is Unanswered,
        !has_prefix(request@, ascii("GET /metrics"@)) && api_body(request@) is Some ==> {
            let body = api_body(request@)->0;
            if has_prefix(request@, ascii("POST /tls"@)) {
                r matches ApiRequest::Tls { body: b } && b@ == body
            } else if has_prefix(request@, ascii("POST /rewrite"@)) {
                r matches ApiRequest::Rewrite { body: b } && b@ == body
            } else {
                r matches ApiRequest::Route { body: b } && b@ == body
            }
        },
{
    proof {
        reveal_strlit("GET /metrics");
        reveal_strlit("POST /tls");
        reveal_strlit("POST /rewrite");
    }
    let metrics = ascii_literal("GET /metrics");
    if starts_with(request, metrics.as_slice()) {
        return ApiRequest::Metrics;
    }
    let start: usize = match find_blank_line(request) {
        Some(i) => i,
        None => return ApiRequest::Unanswered,
    };
    let total: usize = request.len();
    assert(start + 4 <= total);
    let body = copy_from(request, start + 4);
    let tls = ascii_literal("POST /tls");
    let rewrite = ascii_literal("POST /rewrite");
    if starts_with(request, tls.as_slice()) {
        ApiRequest::Tls { body }
    } else if starts_with(request, rewrite.as_slice()) {
        ApiRequest::Rewrite { body }
    } else {
        ApiRequest::Route { body }
    }
}

/// The bytes of `bytes` from index `from` on.
fn copy_from(bytes: &[u8], from: usize) -> (r: Vec<u8>)
    requires
        from <= bytes@.len(),
    ensures
        r@ == bytes@.skip(from as int),
{
    let mut out: Vec<u8> = Vec::new();
    let mut i: usize = from;
    while i < bytes.len()
        invariant
            from <= i <= bytes@.len(),
            out@ == bytes@.subrange(from as int, i as int),
        decreases bytes@.len() - i,
    {
        out.push(bytes[i]);
        i = i + 1;
        assert(out@ =~= bytes@.subrange(from as int, i as int));
    }
    assert(out@ =~= bytes@.skip(from as int));
    out
}

/// The answer to a registration that was read.
pub open spec fn ok_response() -> Seq<u8> {
    ascii("HTTP/1.1 200 OK\r\nContent-Length: 2\r\n\r\nOK"@)
}

fn ok_bytes() -> (r: Vec<u8>)
    ensures
        r@ == ok_response(),
{
    proof {
        reveal_strlit("HTTP/1.1 200 OK\r\nContent-Length: 2\r\n\r\nOK");
    }
    ascii_literal("HTTP/1.1 200 OK\r\nContent-Length: 2\r\n\r\nOK")
}

/// The state that the control API writes: routes, path rewrites and TLS
/// certificates.
pub struct ControlPlane {
    pub routes: RouteTable,
    pub rewrites: RewriteTable,
    pub sni: SniResolver,
}

impl ControlPlane {
    pub fn new() -> (c: Self)
        ensures
            c.routes@.dom().is_empty(),
            c.rewrites@.dom().is_empty(),
            c.sni.certs@.dom().is_empty(),
    {
        ControlPlane { routes: RouteTable::new(), rewrites: RewriteTable::new(), sni: SniResolver::new() }
    }

    /// Registers the backend of a host; the answer is `200 OK`.
    pub fn apply_route(&mut self, payload: RoutePayload) -> (r: Vec<u8>)
        ensures
            r@ == ok_response(),
            final(self).routes@ == old(self).routes@.insert(payload.host@, payload.ip@),
            final(self).rewrites@ == old(self).rewrites@,
            final(self).sni.certs@ == old(self).sni.certs@,
    {
        self.routes.insert(payload.host, payload.ip);
        ok_bytes()
    }

    /// Registers a path rewrite (paths kept as their UTF-8 bytes); the
    /// answer is `200 OK`.
    pub fn apply_rewrite(&mut self, payload: RewritePayload) -> (r: Vec<u8>)
        ensures
            r@ == ok_response(),
            final(self).rewrites@ == old(self).rewrites@.insert(
                encode_utf8(payload.old_path@),
                encode_utf8(payload.new_path@),
            ),
            final(self).routes@ == old(self).routes@,
            final(self).sni.certs@ == old(self).sni.certs@,
    {
        let old_path = vstd::slice::slice_to_vec(payload.old_path.as_str().as_bytes());
        let new_path = vstd::slice::slice_to_vec(payload.new_path.as_str().as_bytes());
        self.rewrites.insert(old_path, new_path);
        ok_bytes()
    }

    /// Registers a TLS certificate: when the payload's material decodes
    /// (`tls_material`) and the key is one the TLS library can sign with,
    /// the host's certified key, carrying the decoded certificate chain and
    /// signing with the decoded private key, is stored, replacing any earlier
    /// one; otherwise nothing changes. The answer is `200 OK` either way.
    pub fn apply_tls(&mut self, payload: TlsPayload) -> (r: Vec<u8>)
        ensures
            r@ == ok_response(),
            tls_material(encode_utf8(payload.cert@), encode_utf8(payload.key@)) is None
                ==> final(self).sni.certs@ == old(self).sni.certs@,
            final(self).sni.certs@ == old(self).sni.certs@ || exists|ck: Arc<CertifiedKey>|
                final(self).sni.certs@ == old(self).sni.certs@.insert(payload.host@, ck) && (tls_material(
                    encode_utf8(payload.cert@),
                    encode_utf8(payload.key@),
                ) matches Some(m) && certified_key_chain(*ck) == m.0 && signs_with(*ck, m.1)),
            (tls_material(encode_utf8(payload.cert@), encode_utf8(payload.key@)) matches Some(m) && exists|k: CertifiedKey|
                signs_with(k, m.1)) ==> exists|ck: Arc<CertifiedKey>|
                final(self).sni.certs@ == old(self).sni.certs@.insert(payload.host@, ck) && (tls_material(
                    encode_utf8(payload.cert@),
                    encode_utf8(payload.key@),
                ) matches Some(m) && certified_key_chain(*ck) == m.0 && signs_with(*ck, m.1)),
            final(self).routes@ == old(self).routes@,
            final(self).rewrites@ == old(self).rewrites@,
    {
        let material = decode_tls_material(payload.cert.as_str().as_bytes(), payload.key.as_str().as_bytes());
        if let Some((chain, key)) = material {
            let built = build_certified_key(chain, key);
            self.sni.install(payload.host, built);
        }
        ok_bytes()
    }
}

} // verus!
