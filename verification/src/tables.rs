//! The concurrent hash maps that hold the ingress state: routes, path
//! rewrites, TLS certificates and backend health. Each map is a
//! `dashmap::DashMap`; the trusted items below state, for each key and value
//! type the ingress uses, what `new`, `insert`, `get` and `iter` do to the
//! map's contents. Every mutating operation takes `&mut`, so the contents
//! seen by Verus are those of a map that nobody else touches meanwhile.
use rustls::sign::CertifiedKey;
use dashmap::DashMap;
use std::sync::Arc;
use vstd::prelude::*;

verus! {

#[verifier::external_type_specification]
#[verifier::external_body]
#[verifier::reject_recursive_types(K)]
#[verifier::reject_recursive_types(V)]
#[verifier::reject_recursive_types(S)]
pub struct ExDashMap<K, V, S>(DashMap<K, V, S>);

/// A backend socket address, by value: an IPv4 address and port, or an IPv6
/// address, port, flow information and scope id. Two addresses are equal
/// exactly when all their fields are.
#[derive(Clone, Copy, Debug, PartialEq, Eq, Hash, Structural)]
pub enum BackendAddr {
    V4 { octets: u32, port: u16 },
    V6 { segments: u128, port: u16, flowinfo: u32, scope_id: u32 },
}

/// The map types the ingress keeps.
pub type RouteMap = DashMap<String, String>;
pub type RewriteMap = DashMap<Vec<u8>, Vec<u8>>;
pub type CertMap = DashMap<String, Arc<CertifiedKey>>;
pub type HealthMap = DashMap<BackendAddr, (u64, bool)>;

/// What a route map holds: host name to backend address, both as text.
pub uninterp spec fn route_entries(m: RouteMap) -> Map<Seq<char>, Seq<char>>;

/// What a rewrite map holds: old path to new path, both as bytes.
pub uninterp spec fn rewrite_entries(m: RewriteMap) -> Map<Seq<u8>, Seq<u8>>;

/// What a certificate map holds: server name to certified key.
pub uninterp spec fn cert_entries(m: CertMap) -> Map<Seq<char>, Arc<CertifiedKey>>;

/// What a health map holds: backend address to its registration number and
/// whether it is up.
pub uninterp spec fn health_entries(m: HealthMap) -> Map<BackendAddr, (u64, bool)>;

/// `DashMap::new` for the route map: the new map is empty.
#[verifier::external_body]
fn route_map_new() -> (r: RouteMap)
    ensures
        route_entries(r).dom().is_empty(),
{
    DashMap::new()
}

/// `DashMap::insert` on the route map: the key now maps to the value, every
/// other entry is kept.
#[verifier::external_body]
fn route_map_insert(m: &mut RouteMap, key: String, value: String)
    ensures
        route_entries(*final(m)) == route_entries(*old(m)).insert(key@, value@),
{
    m.insert(key, value);
}

/// `DashMap::get` on the route map, the found value cloned out of the guard:
/// the value stored under the key, if there is one.
#[verifier::external_body]
fn route_map_get(m: &RouteMap, key: &str) -> (r: Option<String>)
    ensures
        r is Some <==> route_entries(*m).contains_key(key@),
        r matches Some(v) ==> v@ == route_entries(*m)[key@],
{
    m.get(key).map(|entry| entry.value().clone())
}

/// `DashMap::new` for the rewrite map: the new map is empty.
#[verifier::external_body]
fn rewrite_map_new() -> (r: RewriteMap)
    ensures
        rewrite_entries(r).dom().is_empty(),
{
    DashMap::new()
}

/// `DashMap::insert` on the rewrite map: the key now maps to the value,
/// every other entry is kept.
#[verifier::external_body]
fn rewrite_map_insert(m: &mut RewriteMap, key: Vec<u8>, value: Vec<u8>)
    ensures
        rewrite_entries(*final(m)) == rewrite_entries(*old(m)).insert(key@, value@),
{
    m.insert(key, value);
}

/// `DashMap::get` on the rewrite map, the found value cloned out of the
/// guard: the new path stored under the old one, if there is one.
#[verifier::external_body]
fn rewrite_map_get(m: &RewriteMap, key: &[u8]) -> (r: Option<Vec<u8>>)
    ensures
        r is Some <==> rewrite_entries(*m).contains_key(key@),
        r matches Some(v) ==> v@ == rewrite_entries(*m)[key@],
{
    m.get(key).map(|entry| entry.value().clone())
}

/// `DashMap::new` for the certificate map: the new map is empty.
#[verifier::external_body]
fn cert_map_new() -> (r: CertMap)
    ensures
        cert_entries(r).dom().is_empty(),
{
    DashMap::new()
}

/// `DashMap::insert` on the certificate map: the key now maps to the value,
/// every other entry is kept.
#[verifier::external_body]
fn cert_map_insert(m: &mut CertMap, key: String, value: Arc<CertifiedKey>)
    ensures
        cert_entries(*final(m)) == cert_entries(*old(m)).insert(key@, value),
{
    m.insert(key, value);
}

/// `DashMap::get` on the certificate map, the found `Arc` cloned out of the
/// guard: the certified key stored under the name, if there is one.
#[verifier::external_body]
fn cert_map_get(m: &CertMap, key: &str) -> (r: Option<Arc<CertifiedKey>>)
    ensures
        r is Some <==> cert_entries(*m).contains_key(key@),
        r matches Some(v) ==> v == cert_entries(*m)[key@],
{
    m.get(key).map(|entry| entry.value().clone())
}

/// `DashMap::new` for the health map: the new map is empty.
#[verifier::external_body]
fn health_map_new() -> (r: HealthMap)
    ensures
        health_entries(r).dom().is_empty(),
{
    DashMap::new()
}

/// `DashMap::insert` on the health map: the address now maps to the value,
/// every other entry is kept.
#[verifier::external_body]
fn health_map_insert(m: &mut HealthMap, key: BackendAddr, value: (u64, bool))
    ensures
        health_entries(*final(m)) == health_entries(*old(m)).insert(key, value),
{
    m.insert(key, value);
}

/// `DashMap::get` on the health map, the value copied out of the guard: the
/// registration number and flag stored under the address, if there is one.
#[verifier::external_body]
fn health_map_get(m: &HealthMap, key: &BackendAddr) -> (r: Option<(u64, bool)>)
    ensures
        r is Some <==> health_entries(*m).contains_key(*key),
        r matches Some(v) ==> v == health_entries(*m)[*key],
{
    m.get(key).map(|entry| *entry.value())
}

/// `DashMap::iter` on the health map, each entry mapped to its key: every
/// registered address exactly once, in the map's own order, which is left
/// open.
#[verifier::external_body]
fn health_map_keys(m: &HealthMap) -> (r: Vec<BackendAddr>)
    ensures
        r@.to_set() == health_entries(*m).dom(),
        r@.no_duplicates(),
{
    m.iter().map(|entry| *entry.key()).collect()
}

/// `Arc::clone`: a new handle to the same value.
#[verifier::external_body]
pub(crate) fn share<T>(a: &Arc<T>) -> (r: Arc<T>)
    ensures
        r == *a,
{
    Arc::clone(a)
}

/// Host name to backend address ("ip:port" text), as registered through the
/// control API.
pub struct RouteTable {
    map: RouteMap,
}

impl View for RouteTable {
    type V = Map<Seq<char>, Seq<char>>;

    closed spec fn view(&self) -> Map<Seq<char>, Seq<char>> {
        route_entries(self.map)
    }
}

impl RouteTable {
    pub fn new() -> (t: Self)
        ensures
            t@.dom().is_empty(),
    {
        RouteTable { map: route_map_new() }
    }

    /// Registers (or replaces) the backend of `host`.
    pub fn insert(&mut self, host: String, backend: String)
        ensures
            final(self)@ == old(self)@.insert(host@, backend@),
    {
        route_map_insert(&mut self.map, host, backend);
    }

    /// The backend registered for `host`, if any.
    pub fn get(&self, host: &str) -> (r: Option<String>)
        ensures
            r is Some <==> self@.contains_key(host@),
            r matches Some(b) ==> b@ == self@[host@],
    {
        route_map_get(&self.map, host)
    }
}

/// Old path to new path, as registered through the control API.
pub struct RewriteTable {
    map: RewriteMap,
}

impl View for RewriteTable {
    type V = Map<Seq<u8>, Seq<u8>>;

    closed spec fn view(&self) -> Map<Seq<u8>, Seq<u8>> {
        rewrite_entries(self.map)
    }
}

impl RewriteTable {
    pub fn new() -> (t: Self)
        ensures
            t@.dom().is_empty(),
    {
        RewriteTable { map: rewrite_map_new() }
    }

    /// Registers (or replaces) the rewrite of `old_path`.
    pub fn insert(&mut self, old_path: Vec<u8>, new_path: Vec<u8>)
        ensures
            final(self)@ == old(self)@.insert(old_path@, new_path@),
    {
        rewrite_map_insert(&mut self.map, old_path, new_path);
    }

    /// The new path registered for `path`, if any.
    pub fn get(&self, path: &[u8]) -> (r: Option<Vec<u8>>)
        ensures
            r is Some <==> self@.contains_key(path@),
            r matches Some(p) ==> p@ == self@[path@],
    {
        rewrite_map_get(&self.map, path)
    }
}

/// Server name to certified key.
pub struct CertTable {
    map: CertMap,
}

impl View for CertTable {
    type V = Map<Seq<char>, Arc<CertifiedKey>>;

    closed spec fn view(&self) -> Map<Seq<char>, Arc<CertifiedKey>> {
        cert_entries(self.map)
    }
}

impl CertTable {
    pub fn new() -> (t: Self)
        ensures
            t@.dom().is_empty(),
    {
        CertTable { map: cert_map_new() }
    }

    /// Stores (or replaces) the certified key of `name`.
    pub fn insert(&mut self, name: String, cert: Arc<CertifiedKey>)
        ensures
            final(self)@ == old(self)@.insert(name@, cert),
    {
        cert_map_insert(&mut self.map, name, cert);
    }

    /// The certified key stored for `name`, if any.
    pub fn get(&self, name: &str) -> (r: Option<Arc<CertifiedKey>>)
        ensures
            r is Some <==> self@.contains_key(name@),
            r matches Some(c) ==> c == self@[name@],
    {
        cert_map_get(&self.map, name)
    }
}

/// Backend address to its registration number and last known health.
pub struct HealthTable {
    map: HealthMap,
}

impl View for HealthTable {
    type V = Map<BackendAddr, (u64, bool)>;

    closed spec fn view(&self) -> Map<BackendAddr, (u64, bool)> {
        health_entries(self.map)
    }
}

impl HealthTable {
    pub fn new() -> (t: Self)
        ensures
            t@.dom().is_empty(),
    {
        HealthTable { map: health_map_new() }
    }

    pub fn insert(&mut self, addr: BackendAddr, entry: (u64, bool))
        ensures
            final(self)@ == old(self)@.insert(addr, entry),
    {
        health_map_insert(&mut self.map, addr, entry);
    }

    pub fn get(&self, addr: &BackendAddr) -> (r: Option<(u64, bool)>)
        ensures
            r is Some <==> self@.contains_key(*addr),
            r matches Some(v) ==> v == self@[*addr],
    {
        health_map_get(&self.map, addr)
    }

    /// Every address in the table, each once, in no particular order.
    pub fn addresses(&self) -> (r: Vec<BackendAddr>)
        ensures
            r@.to_set() == self@.dom(),
            r@.no_duplicates(),
    {
        health_map_keys(&self.map)
    }
}

} // verus!
