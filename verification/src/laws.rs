//! Properties of the ingress that span several operations.
use crate::breaker::{after_probe, healthy};
use crate::http::{
    backend_of_fields, before_colon, colon_from, eq_ignore_ascii_case, first_host_from, host_of_fields,
    httparse_header_slots, requested_host, routed_backend, MAX_HEADERS,
};
use vstd::utf8::{decode_utf8, valid_utf8};
use crate::forwarding::{byte_from, crlf, crlf_from, forwarded_bytes, forwarding_headers};
use crate::tables::BackendAddr;
use crate::telemetry::AtomicMetrics;
use crate::text::{ascii, decimal};
use crate::telemetry::{exposition_body, exposition_http, metrics_body, metrics_http};
use crate::tls::{silex_resolution, sni_resolution};
use rustls::sign::CertifiedKey;
use std::sync::Arc;
use vstd::prelude::*;

verus! {

/// Once `host` is routed to `backend`, every request that names `host` in
/// its first `Host` field (with or without a port) is forwarded to
/// `backend`, whatever was routed before.
pub proof fn law_registered_route_is_forwarded(
    routes: Map<Seq<char>, Seq<char>>,
    host: Seq<char>,
    backend: Seq<char>,
    request: Seq<u8>,
)
    requires
        requested_host(request) == Some(host),
    ensures
        routed_backend(routes.insert(host, backend), request) == Some(backend),
{
}

/// The same, for a request whose header fields are already parsed.
pub proof fn law_registered_route_is_forwarded_for_fields(
    routes: Map<Seq<char>, Seq<char>>,
    host: Seq<char>,
    backend: Seq<char>,
    fields: Seq<(Seq<u8>, Seq<u8>)>,
)
    requires
        host_of_fields(fields) == Some(host),
    ensures
        backend_of_fields(routes.insert(host, backend), fields) == Some(backend),
{
}

/// A request whose host has no route gets no backend (and so a 404).
pub proof fn law_unknown_host_is_not_forwarded(routes: Map<Seq<char>, Seq<char>>, host: Seq<char>, request: Seq<u8>)
    requires
        requested_host(request) == Some(host),
        !routes.contains_key(host),
    ensures
        routed_backend(routes, request) is None,
{
}

/// Registering one host leaves the backend of every other host as it was.
pub proof fn law_other_routes_unchanged(
    routes: Map<Seq<char>, Seq<char>>,
    host: Seq<char>,
    backend: Seq<char>,
    request: Seq<u8>,
)
    requires
        requested_host(request) != Some(host),
    ensures
        routed_backend(routes.insert(host, backend), request) == routed_backend(routes, request),
{
}

proof fn lemma_colon_from_shifts(name: Seq<u8>, rest: Seq<u8>, from: nat)
    requires
        from <= name.len(),
        forall|i: int| 0 <= i < name.len() ==> name[i] != 58,
    ensures
        colon_from(name + seq![58u8] + rest, from) == name.len(),
    decreases name.len() - from,
{
    let v = name + seq![58u8] + rest;
    if from < name.len() {
        assert(v[from as int] == name[from as int]);
        lemma_colon_from_shifts(name, rest, from + 1);
    } else {
        assert(v[from as int] == 58u8);
    }
}

/// The port after a host name is ignored: for a host name without `:`,
/// `name:port` and `name` name the same route key bytes.
pub proof fn law_port_is_ignored(name: Seq<u8>, port: Seq<u8>)
    requires
        forall|i: int| 0 <= i < name.len() ==> name[i] != 58,
    ensures
        before_colon(name + seq![58u8] + port) == name,
        before_colon(name) == name,
{
    lemma_colon_from_shifts(name, port, 0);
    assert((name + seq![58u8] + port).take(name.len() as int) =~= name);
    lemma_colon_from_no_colon(name, 0);
    assert(name.take(name.len() as int) =~= name);
}

proof fn lemma_colon_from_no_colon(name: Seq<u8>, from: nat)
    requires
        from <= name.len(),
        forall|i: int| 0 <= i < name.len() ==> name[i] != 58,
    ensures
        colon_from(name, from) == name.len(),
    decreases name.len() - from,
{
    if from < name.len() {
        lemma_colon_from_no_colon(name, from + 1);
    }
}

/// A client request is parsed with room for sixteen header fields, and the
/// route key and backend are those of the fields that parse gives.
pub proof fn law_requests_parse_with_sixteen_slots(routes: Map<Seq<char>, Seq<char>>, request: Seq<u8>)
    ensures
        MAX_HEADERS == 16,
        requested_host(request) == (match httparse_header_slots(request, 16usize) {
            Some(fields) => host_of_fields(fields),
            None => None,
        }),
        routed_backend(routes, request) == (match httparse_header_slots(request, 16usize) {
            Some(fields) => backend_of_fields(routes, fields),
            None => None,
        }),
{
}

proof fn lemma_first_host_is_at(fields: Seq<(Seq<u8>, Seq<u8>)>, at: nat, from: nat)
    requires
        from <= at < fields.len(),
        eq_ignore_ascii_case(fields[at as int].0, ascii("Host"@)),
        forall|j: int| from <= j < at ==> !eq_ignore_ascii_case(#[trigger] fields[j].0, ascii("Host"@)),
    ensures
        first_host_from(fields, from) == Some(fields[at as int].1),
    decreases at - from,
{
    if from < at {
        lemma_first_host_is_at(fields, at, from + 1);
    }
}

/// The backend of a request is chosen by its first field named `Host` (in
/// any ASCII case): a value `name` or `name:port`, valid UTF-8, is looked up
/// as the text of `name`, the port ignored; later `Host` fields do not
/// count.
pub proof fn law_first_host_field_routes(
    routes: Map<Seq<char>, Seq<char>>,
    fields: Seq<(Seq<u8>, Seq<u8>)>,
    at: nat,
    name: Seq<u8>,
    port: Seq<u8>,
)
    requires
        at < fields.len(),
        eq_ignore_ascii_case(fields[at as int].0, ascii("Host"@)),
        forall|j: int| 0 <= j < at ==> !eq_ignore_ascii_case(#[trigger] fields[j].0, ascii("Host"@)),
        fields[at as int].1 == name + port,
        forall|i: int| 0 <= i < name.len() ==> name[i] != 58,
        port.len() == 0 || port[0] == 58,
        valid_utf8(name + port),
    ensures
        backend_of_fields(routes, fields) == (if routes.contains_key(decode_utf8(name)) {
            Some(routes[decode_utf8(name)])
        } else {
            None
        }),
{
    lemma_first_host_is_at(fields, at, 0);
    if port.len() == 0 {
        assert(name + port =~= name);
        law_port_is_ignored(name, seq![]);
    } else {
        assert(name + port =~= name + seq![58u8] + port.skip(1));
        law_port_is_ignored(name, port.skip(1));
    }
}

/// A freshly registered backend is healthy.
pub proof fn law_registered_backend_is_healthy(registry: Map<BackendAddr, (u64, bool)>, addr: BackendAddr, generation: u64)
    ensures
        healthy(registry.insert(addr, (generation, true)), addr),
{
}

/// A quarantined backend is not healthy, and an unregistered one never is.
pub proof fn law_quarantined_backend_is_unhealthy(registry: Map<BackendAddr, (u64, bool)>, addr: BackendAddr)
    ensures
        registry.contains_key(addr) ==> !healthy(registry.insert(addr, (registry[addr].0, false)), addr),
        !registry.contains_key(addr) ==> !healthy(registry, addr),
{
}

/// After a probe of the current registration of a backend, its health is
/// the probe's outcome; the health of every other backend is unchanged.
pub proof fn law_probe_sets_health(
    registry: Map<BackendAddr, (u64, bool)>,
    addr: BackendAddr,
    is_up: bool,
    other: BackendAddr,
)
    requires
        registry.contains_key(addr),
    ensures
        healthy(after_probe(registry, addr, registry[addr].0, is_up), addr) == is_up,
        other != addr ==> healthy(after_probe(registry, addr, registry[addr].0, is_up), other) == healthy(
            registry,
            other,
        ),
{
}

/// A probe started for an earlier registration of a backend that was
/// registered again meanwhile changes nothing: the new registration stays
/// healthy even when the old probe failed.
pub proof fn law_stale_probe_is_ignored(
    registry: Map<BackendAddr, (u64, bool)>,
    addr: BackendAddr,
    stale: u64,
    current: u64,
    is_up: bool,
)
    requires
        stale != current,
    ensures
        after_probe(registry.insert(addr, (current, true)), addr, stale, is_up) == registry.insert(
            addr,
            (current, true),
        ),
        healthy(after_probe(registry.insert(addr, (current, true)), addr, stale, is_up), addr),
{
}

/// A certified key injected for a server name is what a client asking for
/// that name gets; a client asking for another name, or none, gets what it
/// got before.
pub proof fn law_injected_cert_is_served(
    store: Map<Seq<char>, Arc<CertifiedKey>>,
    fallback: Arc<CertifiedKey>,
    name: &str,
    cert: Arc<CertifiedKey>,
    asked: Option<&str>,
)
    ensures
        silex_resolution(store.insert(name@, cert), fallback, Some(name)) == cert,
        (asked matches Some(a) && a@ != name@) || asked is None ==> silex_resolution(
            store.insert(name@, cert),
            fallback,
            asked,
        ) == silex_resolution(store, fallback, asked),
{
}

/// A certified key installed for a host is what the ingress's resolver
/// hands a client asking for that host; a client that asks for no name, or
/// for a name nobody registered, gets none.
pub proof fn law_installed_cert_is_resolved(
    certs: Map<Seq<char>, Arc<CertifiedKey>>,
    host: &str,
    cert: Arc<CertifiedKey>,
    asked: &str,
)
    ensures
        sni_resolution(certs.insert(host@, cert), Some(host)) == Some(cert),
        sni_resolution(certs, None) is None,
        !certs.contains_key(asked@) ==> sni_resolution(certs, Some(asked)) is None,
{
}

/// Opening and then closing a connection leaves the active-connection
/// count where it was.
pub proof fn law_open_close_restores_active(active: u64)
    ensures
        active.wrapping_add(1).wrapping_sub(1) == active,
{
}

proof fn lemma_byte_from_found(bytes: Seq<u8>, b: u8, from: nat, to: nat, at: nat)
    requires
        from <= at < to <= bytes.len(),
        bytes[at as int] == b,
        forall|i: int| from <= i < at ==> bytes[i] != b,
    ensures
        byte_from(bytes, b, from, to) == at,
    decreases at - from,
{
    if from < at {
        lemma_byte_from_found(bytes, b, from + 1, to, at);
    }
}

proof fn lemma_byte_from_absent(bytes: Seq<u8>, b: u8, from: nat, to: nat)
    requires
        from <= to <= bytes.len(),
        forall|i: int| from <= i < to ==> bytes[i] != b,
    ensures
        byte_from(bytes, b, from, to) == to,
    decreases to - from,
{
    if from < to {
        lemma_byte_from_absent(bytes, b, from + 1, to);
    }
}

proof fn lemma_crlf_from_found(bytes: Seq<u8>, from: nat, at: nat)
    requires
        from <= at,
        at + 2 <= bytes.len(),
        bytes[at as int] == 13 && bytes[(at + 1) as int] == 10,
        forall|i: int| from <= i < at ==> bytes[i] != 13,
    ensures
        crlf_from(bytes, from) == Some(at),
    decreases at - from,
{
    if from < at {
        lemma_crlf_from_found(bytes, from + 1, at);
    }
}

/// Once a rewrite from `old_path` to `new_path` is registered, a request
/// for `old_path` reaches the backend with `new_path` as its target, the
/// forwarding headers after its request line, and the rest of the request
/// as the client sent it.
pub proof fn law_rewrite_is_applied(
    rewrites: Map<Seq<u8>, Seq<u8>>,
    method: Seq<u8>,
    old_path: Seq<u8>,
    new_path: Seq<u8>,
    version: Seq<u8>,
    rest: Seq<u8>,
    client_ip: Seq<u8>,
)
    requires
        forall|i: int| 0 <= i < method.len() ==> method[i] != 32 && method[i] != 13,
        forall|i: int| 0 <= i < old_path.len() ==> old_path[i] != 32 && old_path[i] != 63 && old_path[i] != 13,
        forall|i: int| 0 <= i < version.len() ==> version[i] != 13,
    ensures
        forwarded_bytes(
            rewrites.insert(old_path, new_path),
            method + seq![32u8] + old_path + seq![32u8] + version + crlf() + rest,
            client_ip,
        ) == method + seq![32u8] + new_path + seq![32u8] + version + crlf() + forwarding_headers(client_ip) + rest,
{
    let rw = rewrites.insert(old_path, new_path);
    let line = method + seq![32u8] + old_path + seq![32u8] + version;
    let request = line + crlf() + rest;
    assert(request =~= method + seq![32u8] + old_path + seq![32u8] + version + crlf() + rest);
    let end = line.len();
    assert forall|i: int| 0 <= i < end implies request[i] != 13 by {
        assert(request[i] == line[i]);
        if i < method.len() {
        } else if i == method.len() {
        } else if i < method.len() + 1 + old_path.len() {
            assert(line[i] == old_path[i - method.len() - 1]);
        } else if i == method.len() + 1 + old_path.len() {
        } else {
            assert(line[i] == version[i - method.len() - 2 - old_path.len()]);
        }
    }
    lemma_crlf_from_found(request, 0, end);
    assert(request.take(end as int) =~= line);
    assert(request.skip((end + 2) as int) =~= rest);

    let m = method.len();
    assert forall|i: int| 0 <= i < m implies line[i] != 32 by {
        assert(line[i] == method[i]);
    }
    lemma_byte_from_found(line, 32, 0, line.len(), m);
    let start = m + 1;
    let sp2 = start + old_path.len();
    assert forall|i: int| start <= i < sp2 implies line[i] != 32 && line[i] != 63 by {
        assert(line[i] == old_path[i - start]);
    }
    lemma_byte_from_found(line, 32, start, line.len(), sp2);
    lemma_byte_from_absent(line, 63, start, sp2);
    assert(line.subrange(start as int, sp2 as int) =~= old_path);
    assert(line.take(start as int) + new_path + line.skip(sp2 as int)
        =~= method + seq![32u8] + new_path + seq![32u8] + version);
}

/// A request whose first line is `method SP path query SP version`, with
/// the pieces free of the bytes that delimit them, splits where
/// `forwarded_bytes` expects: the line ends at the first CR LF, the target
/// follows the first space, and the path ends where the query starts.
#[verifier::spinoff_prover]
#[verifier::rlimit(40)]
proof fn lemma_request_line_split(
    method: Seq<u8>,
    path: Seq<u8>,
    query: Seq<u8>,
    version: Seq<u8>,
    rest: Seq<u8>,
)
    requires
        forall|i: int| 0 <= i < method.len() ==> method[i] != 32 && method[i] != 13,
        forall|i: int| 0 <= i < path.len() ==> path[i] != 32 && path[i] != 63 && path[i] != 13,
        forall|i: int| 0 <= i < query.len() ==> query[i] != 32 && query[i] != 13,
        query.len() == 0 || query[0] == 63,
        forall|i: int| 0 <= i < version.len() ==> version[i] != 13,
    ensures
        ({
            let line = method + seq![32u8] + path + query + seq![32u8] + version;
            let request = line + crlf() + rest;
            let start = method.len() + 1;
            let q = start + path.len();
            let sp2 = q + query.len();
            &&& crlf_from(request, 0) == Some(line.len())
            &&& request.take(line.len() as int) == line
            &&& request.skip((line.len() + 2) as int) == rest
            &&& byte_from(line, 32, 0, line.len()) == method.len()
            &&& byte_from(line, 32, start, line.len()) == sp2
            &&& byte_from(line, 63, start, sp2) == q
            &&& line.subrange(start as int, q as int) == path
            &&& line.take(start as int) == method + seq![32u8]
            &&& line.skip(q as int) == query + seq![32u8] + version
        }),
{
    let line = method + seq![32u8] + path + query + seq![32u8] + version;
    let request = line + crlf() + rest;
    let m = method.len();
    let start = m + 1;
    let q = start + path.len();
    let sp2 = q + query.len();
    let end = line.len();
    assert forall|i: int| 0 <= i < end implies request[i] != 13 by {
        assert(request[i] == line[i]);
        if i < m {
            assert(line[i] == method[i]);
        } else if i == m {
        } else if i < q {
            assert(line[i] == path[i - start]);
        } else if i < sp2 {
            assert(line[i] == query[i - q]);
        } else if i == sp2 {
        } else {
            assert(line[i] == version[i - sp2 - 1]);
        }
    }
    lemma_crlf_from_found(request, 0, end);
    assert(request.take(end as int) =~= line);
    assert(request.skip((end + 2) as int) =~= rest);
    assert forall|i: int| 0 <= i < m implies line[i] != 32 by {
        assert(line[i] == method[i]);
    }
    lemma_byte_from_found(line, 32, 0, end, m);
    assert forall|i: int| start <= i < sp2 implies line[i] != 32 by {
        if i < q {
            assert(line[i] == path[i - start]);
        } else {
            assert(line[i] == query[i - q]);
        }
    }
    assert(line[sp2 as int] == 32);
    lemma_byte_from_found(line, 32, start, end, sp2);
    assert forall|i: int| start <= i < q implies line[i] != 63 by {
        assert(line[i] == path[i - start]);
    }
    if query.len() == 0 {
        lemma_byte_from_absent(line, 63, start, sp2);
    } else {
        assert(line[q as int] == query[0]);
        lemma_byte_from_found(line, 63, start, sp2, q);
    }
    assert(line.subrange(start as int, q as int) =~= path);
    assert(line.take(start as int) =~= method + seq![32u8]);
    assert(line.skip(q as int) =~= query + seq![32u8] + version);
}

/// A request whose path has no registered rewrite reaches the backend with
/// its request line byte for byte as the client sent it, query included;
/// only `X-Forwarded-For` and `X-Real-IP` lines naming the client follow
/// the request line, and the rest of the request is unchanged.
pub proof fn law_unregistered_path_is_kept(
    rewrites: Map<Seq<u8>, Seq<u8>>,
    method: Seq<u8>,
    path: Seq<u8>,
    query: Seq<u8>,
    version: Seq<u8>,
    rest: Seq<u8>,
    client_ip: Seq<u8>,
)
    requires
        !rewrites.contains_key(path),
        forall|i: int| 0 <= i < method.len() ==> method[i] != 32 && method[i] != 13,
        forall|i: int| 0 <= i < path.len() ==> path[i] != 32 && path[i] != 63 && path[i] != 13,
        forall|i: int| 0 <= i < query.len() ==> query[i] != 32 && query[i] != 13,
        query.len() == 0 || query[0] == 63,
        forall|i: int| 0 <= i < version.len() ==> version[i] != 13,
    ensures
        forwarded_bytes(
            rewrites,
            method + seq![32u8] + path + query + seq![32u8] + version + seq![13u8, 10u8] + rest,
            client_ip,
        ) == method + seq![32u8] + path + query + seq![32u8] + version + seq![13u8, 10u8]
            + ascii("X-Forwarded-For: "@) + client_ip + seq![13u8, 10u8]
            + ascii("X-Real-IP: "@) + client_ip + seq![13u8, 10u8] + rest,
{
    lemma_request_line_split(method, path, query, version, rest);
    let line = method + seq![32u8] + path + query + seq![32u8] + version;
    assert(line + crlf() + rest =~= method + seq![32u8] + path + query + seq![32u8] + version + seq![13u8, 10u8] + rest);
    assert(forwarded_bytes(rewrites, line + crlf() + rest, client_ip) =~= method + seq![32u8] + path + query
        + seq![32u8] + version + seq![13u8, 10u8] + ascii("X-Forwarded-For: "@) + client_ip + seq![13u8, 10u8]
        + ascii("X-Real-IP: "@) + client_ip + seq![13u8, 10u8] + rest);
}

/// A request whose path has a registered rewrite reaches the backend with
/// the path replaced and the query kept; the method, version, forwarding
/// headers and the rest of the request are as for any other request.
pub proof fn law_rewrite_keeps_query(
    rewrites: Map<Seq<u8>, Seq<u8>>,
    method: Seq<u8>,
    path: Seq<u8>,
    new_path: Seq<u8>,
    query: Seq<u8>,
    version: Seq<u8>,
    rest: Seq<u8>,
    client_ip: Seq<u8>,
)
    requires
        forall|i: int| 0 <= i < method.len() ==> method[i] != 32 && method[i] != 13,
        forall|i: int| 0 <= i < path.len() ==> path[i] != 32 && path[i] != 63 && path[i] != 13,
        forall|i: int| 0 <= i < query.len() ==> query[i] != 32 && query[i] != 13,
        query.len() == 0 || query[0] == 63,
        forall|i: int| 0 <= i < version.len() ==> version[i] != 13,
    ensures
        forwarded_bytes(
            rewrites.insert(path, new_path),
            method + seq![32u8] + path + query + seq![32u8] + version + seq![13u8, 10u8] + rest,
            client_ip,
        ) == method + seq![32u8] + new_path + query + seq![32u8] + version + seq![13u8, 10u8]
            + ascii("X-Forwarded-For: "@) + client_ip + seq![13u8, 10u8]
            + ascii("X-Real-IP: "@) + client_ip + seq![13u8, 10u8] + rest,
{
    lemma_request_line_split(method, path, query, version, rest);
    let line = method + seq![32u8] + path + query + seq![32u8] + version;
    let rw = rewrites.insert(path, new_path);
    assert(line + crlf() + rest =~= method + seq![32u8] + path + query + seq![32u8] + version + seq![13u8, 10u8] + rest);
    assert(forwarded_bytes(rw, line + crlf() + rest, client_ip) =~= method + seq![32u8] + new_path + query
        + seq![32u8] + version + seq![13u8, 10u8] + ascii("X-Forwarded-For: "@) + client_ip + seq![13u8, 10u8]
        + ascii("X-Real-IP: "@) + client_ip + seq![13u8, 10u8] + rest);
}

/// A recorded-requests history of the exporter's counters: `states[0]` is
/// any state, and each next state is what `record_request` with the next
/// latency leaves. Calls made from several tasks, each taking the counters
/// exclusively, form such a history in the order they took them.
pub open spec fn recorded_history(states: Seq<AtomicMetrics>, latencies: Seq<u64>) -> bool {
    &&& states.len() == latencies.len() + 1
    &&& forall|i: int|
        0 <= i < latencies.len() ==> #[trigger] states[i + 1].requests_spec() == states[i].requests_spec().wrapping_add(1)
            && states[i + 1].total_latency_spec() == states[i].total_latency_spec().wrapping_add(latencies[i])
}

/// The sum of the latencies, without wrapping.
pub open spec fn latency_sum(latencies: Seq<u64>) -> int
    decreases latencies.len(),
{
    if latencies.len() == 0 {
        0
    } else {
        latency_sum(latencies.drop_last()) + latencies.last()
    }
}

proof fn lemma_history_prefix(states: Seq<AtomicMetrics>, latencies: Seq<u64>, k: nat)
    requires
        recorded_history(states, latencies),
        k <= latencies.len(),
    ensures
        states[k as int].requests_spec() == (states[0].requests_spec() + k) % 0x1_0000_0000_0000_0000,
        states[k as int].total_latency_spec() == (states[0].total_latency_spec() + latency_sum(
            latencies.take(k as int),
        )) % 0x1_0000_0000_0000_0000,
    decreases k,
{
    let modulus: int = 0x1_0000_0000_0000_0000;
    let r0 = states[0].requests_spec();
    let t0 = states[0].total_latency_spec();
    if k == 0 {
        assert(latencies.take(0) =~= Seq::<u64>::empty());
        vstd::arithmetic::div_mod::lemma_small_mod(r0 as nat, modulus as nat);
        vstd::arithmetic::div_mod::lemma_small_mod(t0 as nat, modulus as nat);
    } else {
        let j = (k - 1) as nat;
        lemma_history_prefix(states, latencies, j);
        assert(states[(j + 1) as int].requests_spec() == states[j as int].requests_spec().wrapping_add(1));
        assert(latencies.take(k as int).drop_last() =~= latencies.take(j as int));
        let before = latency_sum(latencies.take(j as int));
        assert(latency_sum(latencies.take(k as int)) == before + latencies[j as int]);
        lemma_wrapping_add_mod(states[j as int].requests_spec(), 1, r0 + j);
        lemma_wrapping_add_mod(states[j as int].total_latency_spec(), latencies[j as int], t0 + before);
        assert(r0 + j + 1 == r0 + k);
        assert(t0 + before + latencies[j as int] == t0 + latency_sum(latencies.take(k as int)));
    }
}

proof fn lemma_wrapping_add_mod(x: u64, y: u64, total: int)
    requires
        x == total % 0x1_0000_0000_0000_0000,
    ensures
        x.wrapping_add(y) == (total + y) % 0x1_0000_0000_0000_0000,
{
    let modulus: int = 0x1_0000_0000_0000_0000;
    vstd::arithmetic::div_mod::lemma_add_mod_noop(total, y as int, modulus);
    vstd::arithmetic::div_mod::lemma_small_mod(y as nat, modulus as nat);
    if x + y >= modulus {
        vstd::arithmetic::div_mod::lemma_mod_self_0(modulus);
        vstd::arithmetic::div_mod::lemma_small_mod((x + y - modulus) as nat, modulus as nat);
        vstd::arithmetic::div_mod::lemma_mod_sub_multiples_vanish(x + y, modulus);
    } else {
        vstd::arithmetic::div_mod::lemma_small_mod((x + y) as nat, modulus as nat);
    }
}

/// No recorded request is lost: after `AtomicMetrics` records requests with
/// latencies `latencies`, starting from any counters, the request count grew
/// by their number and the latency total by their sum, both modulo 2^64.
pub proof fn law_recorded_totals(states: Seq<AtomicMetrics>, latencies: Seq<u64>)
    requires
        recorded_history(states, latencies),
    ensures
        states.last().requests_spec() == (states[0].requests_spec() + latencies.len()) % 0x1_0000_0000_0000_0000,
        states.last().total_latency_spec() == (states[0].total_latency_spec() + latency_sum(latencies))
            % 0x1_0000_0000_0000_0000,
{
    lemma_history_prefix(states, latencies, latencies.len());
    assert(latencies.take(latencies.len() as int) =~= latencies);
}

/// From fresh counters, the request count is the number of recorded
/// requests and the latency total their sum, both modulo 2^64.
pub proof fn law_recorded_totals_from_fresh(states: Seq<AtomicMetrics>, latencies: Seq<u64>)
    requires
        recorded_history(states, latencies),
        states[0].requests_spec() == 0,
        states[0].total_latency_spec() == 0,
    ensures
        states.last().requests_spec() == latencies.len() % 0x1_0000_0000_0000_0000,
        states.last().total_latency_spec() == latency_sum(latencies) % 0x1_0000_0000_0000_0000,
{
    law_recorded_totals(states, latencies);
}

/// The number a string of decimal digits denotes.
pub open spec fn digits_value(digits: Seq<u8>) -> int
    decreases digits.len(),
{
    if digits.len() == 0 {
        0
    } else {
        digits_value(digits.drop_last()) * 10 + (digits.last() - 48)
    }
}

/// The decimal numeral of `n` is made of the digits `0`-`9`, has no
/// leading zero (unless it is `0`), and reads back as `n`.
pub proof fn law_decimal_reads_back(n: nat)
    ensures
        decimal(n).len() >= 1,
        forall|i: int| 0 <= i < decimal(n).len() ==> 48 <= #[trigger] decimal(n)[i] <= 57,
        decimal(n)[0] == 48 ==> n == 0,
        digits_value(decimal(n)) == n,
    decreases n,
{
    if n < 10 {
        assert(decimal(n) == seq![(48 + n) as u8]);
        assert(decimal(n)[0] == 48 + n);
        assert(decimal(n)[0] == 48 ==> n == 0);
        assert(decimal(n).drop_last() =~= Seq::<u8>::empty());
        assert(digits_value(decimal(n)) == digits_value(decimal(n).drop_last()) * 10 + (decimal(n).last() - 48));
    } else {
        law_decimal_reads_back(n / 10);
        assert(n / 10 >= 1);
        let d = decimal(n);
        assert(d.drop_last() =~= decimal(n / 10));
        assert(d[0] == decimal(n / 10)[0]);
        assert((n / 10) * 10 + n % 10 == n) by (nonlinear_arith);
        assert forall|i: int| 0 <= i < d.len() implies 48 <= #[trigger] d[i] <= 57 by {
            if i < d.len() - 1 {
                assert(d[i] == decimal(n / 10)[i]);
            } else {
                assert(d[i] == 48 + n % 10);
            }
        }
        assert(d[0] != 48);
        assert(d.last() == 48 + n % 10);
        assert(digits_value(d) == digits_value(d.drop_last()) * 10 + (d.last() - 48));
    }
}

/// The control API's metrics page names each counter on a line of its own:
/// the requests seen, then the connections being served, then the 5xx
/// answers, each as `name value` ended by a line feed.
pub proof fn law_metrics_page_reports_each_counter(total_req: u64, active_conn: u64, err_5xx: u64)
    ensures
        metrics_body(total_req, active_conn, err_5xx) == ascii("silex_requests_total "@) + decimal(total_req as nat)
            + seq![10u8] + ascii("silex_connections_active "@) + decimal(active_conn as nat) + seq![10u8]
            + ascii("silex_errors_5xx "@) + decimal(err_5xx as nat) + seq![10u8],
{
    reveal_strlit("\nsilex_connections_active ");
    reveal_strlit("silex_connections_active ");
    reveal_strlit("\nsilex_errors_5xx ");
    reveal_strlit("silex_errors_5xx ");
    reveal_strlit("\n");
    assert(ascii("\nsilex_connections_active "@) =~= seq![10u8] + ascii("silex_connections_active "@));
    assert(ascii("\nsilex_errors_5xx "@) =~= seq![10u8] + ascii("silex_errors_5xx "@));
    assert(ascii("\n"@) =~= seq![10u8]);
}

/// The metrics page is an HTTP 200 response whose Content-Length is the
/// length of the body that follows its head.
pub proof fn law_metrics_page_length(body: Seq<u8>)
    ensures
        metrics_http(body) == ascii("HTTP/1.1 200 OK\r\nContent-Type: text/plain\r\nContent-Length: "@)
            + decimal(body.len()) + seq![13u8, 10u8, 13u8, 10u8] + body,
{
    reveal_strlit("\r\n\r\n");
    assert(ascii("\r\n\r\n"@) =~= seq![13u8, 10u8, 13u8, 10u8]);
}

/// The exporter's page reports the request count under
/// `silex_requests_total` and the latency total under
/// `silex_latency_ms_total`, each with its help and type lines.
pub proof fn law_exposition_reports_each_counter(requests: u64, total_latency_ms: u64)
    ensures
        exposition_body(requests, total_latency_ms) == ascii(
            "# HELP silex_requests_total Total HTTP requests processed\n# TYPE silex_requests_total counter\n"@,
        ) + ascii("silex_requests_total "@) + decimal(requests as nat) + seq![10u8] + ascii(
            "# HELP silex_latency_ms_total Total latency of all requests in milliseconds\n# TYPE silex_latency_ms_total counter\n"@,
        ) + ascii("silex_latency_ms_total "@) + decimal(total_latency_ms as nat) + seq![10u8],
{
    reveal_strlit("# HELP silex_requests_total Total HTTP requests processed\n# TYPE silex_requests_total counter\nsilex_requests_total ");
    reveal_strlit("# HELP silex_requests_total Total HTTP requests processed\n# TYPE silex_requests_total counter\n");
    reveal_strlit("silex_requests_total ");
    reveal_strlit("\n# HELP silex_latency_ms_total Total latency of all requests in milliseconds\n# TYPE silex_latency_ms_total counter\nsilex_latency_ms_total ");
    reveal_strlit("# HELP silex_latency_ms_total Total latency of all requests in milliseconds\n# TYPE silex_latency_ms_total counter\n");
    reveal_strlit("silex_latency_ms_total ");
    reveal_strlit("\n");
    assert(ascii("# HELP silex_requests_total Total HTTP requests processed\n# TYPE silex_requests_total counter\nsilex_requests_total "@)
        =~= ascii("# HELP silex_requests_total Total HTTP requests processed\n# TYPE silex_requests_total counter\n"@)
        + ascii("silex_requests_total "@));
    assert(ascii("\n# HELP silex_latency_ms_total Total latency of all requests in milliseconds\n# TYPE silex_latency_ms_total counter\nsilex_latency_ms_total "@)
        =~= seq![10u8] + ascii("# HELP silex_latency_ms_total Total latency of all requests in milliseconds\n# TYPE silex_latency_ms_total counter\n"@)
        + ascii("silex_latency_ms_total "@));
    assert(ascii("\n"@) =~= seq![10u8]);
}

/// The exporter's response is an HTTP 200 response whose Content-Length is
/// the length of the body that follows its head, and which closes the
/// connection.
pub proof fn law_exposition_length(body: Seq<u8>)
    ensures
        exposition_http(body) == ascii("HTTP/1.1 200 OK\r\nContent-Type: text/plain; version=0.0.4\r\nContent-Length: "@)
            + decimal(body.len()) + ascii("\r\nConnection: close\r\n\r\n"@) + body,
{
}

} // verus!
