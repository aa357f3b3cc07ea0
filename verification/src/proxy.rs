//! The data plane's decisions for one client connection: forward the
//! request to the backend its `Host` names, or answer 404 / 502, keeping
//! the ingress counters.
use crate::http::{routed_backend, select_backend};
use crate::forwarding::{forwarded_bytes, forwarded_request};
use crate::tables::{RewriteTable, RouteTable};
use crate::telemetry::IngressMetrics;
use crate::text::{ascii, ascii_literal};
use vstd::prelude::*;

verus! {

/// What the connection handler does after reading the client's first bytes.
pub enum ConnectionAction {
    /// The client sent nothing: close without an answer.
    Close,
    /// Connect to `backend` ("ip:port"), send `request` (the bytes read so
    /// far, with the path rewritten and the forwarding headers added), then
    /// relay both directions.
    Forward { backend: String, request: Vec<u8> },
    /// Write `response` to the client.
    Reply { response: Vec<u8> },
}

/// The answer for a request whose host has no route.
pub open spec fn not_found_response() -> Seq<u8> {
    ascii("HTTP/1.1 404 Not Found\r\nContent-Length: 0\r\n\r\n"@)
}

/// The answer for a request whose backend cannot be reached.
pub open spec fn bad_gateway_response() -> Seq<u8> {
    ascii("HTTP/1.1 502 Bad Gateway\r\nContent-Length: 0\r\n\r\n"@)
}

/// Decides what to do with the first bytes a client sent. An empty read
/// closes the connection; a request routed to a backend is forwarded, as
/// `forwarded_bytes` rewrites it for a client at `client_ip`; any other
/// request is answered 404 and counted as a 5xx error.
pub fn plan_request(
    metrics: &mut IngressMetrics,
    routes: &RouteTable,
    rewrites: &RewriteTable,
    request: &[u8],
    client_ip: &[u8],
) -> (a: ConnectionAction)
    ensures
        request@.len() == 0 ==> a is Close && *final(metrics) == *old(metrics),
        request@.len() > 0 && routed_backend(routes@, request@) is Some ==> (a matches ConnectionAction::Forward {
            backend,
            request: forwarded,
        } && routed_backend(routes@, request@) == Some(backend@)
            && forwarded@ == forwarded_bytes(rewrites@, request@, client_ip@)
            && *final(metrics) == *old(metrics)),
        request@.len() > 0 && routed_backend(routes@, request@) is None ==> (a matches ConnectionAction::Reply {
            response,
        } && response@ == not_found_response()
            && final(metrics).err_5xx_spec() == old(metrics).err_5xx_spec().wrapping_add(1)
            && final(metrics).total_req_spec() == old(metrics).total_req_spec()
            && final(metrics).active_conn_spec() == old(metrics).active_conn_spec()),
{
    if request.len() == 0 {
        return ConnectionAction::Close;
    }
    match select_backend(routes, request) {
        Some(backend) => {
            let forwarded = forwarded_request(rewrites, request, client_ip);
            ConnectionAction::Forward { backend, request: forwarded }
        },
        None => {
            metrics.error_answered();
            proof {
                reveal_strlit("HTTP/1.1 404 Not Found\r\nContent-Length: 0\r\n\r\n");
            }
            let response = ascii_literal("HTTP/1.1 404 Not Found\r\nContent-Length: 0\r\n\r\n");
            ConnectionAction::Reply { response }
        },
    }
}

/// The backend of a forwarded request could not be reached: the answer is
/// 502, counted as a 5xx error.
pub fn backend_unreachable(metrics: &mut IngressMetrics) -> (r: Vec<u8>)
    ensures
        r@ == bad_gateway_response(),
        final(metrics).err_5xx_spec() == old(metrics).err_5xx_spec().wrapping_add(1),
        final(metrics).total_req_spec() == old(metrics).total_req_spec(),
        final(metrics).active_conn_spec() == old(metrics).active_conn_spec(),
{
    metrics.error_answered();
    proof {
        reveal_strlit("HTTP/1.1 502 Bad Gateway\r\nContent-Length: 0\r\n\r\n");
    }
    ascii_literal("HTTP/1.1 502 Bad Gateway\r\nContent-Length: 0\r\n\r\n")
}

} // verus!
