//! TLS certificate material: decoding what the control API receives into a
//! certificate chain and a private key, and answering which certified key a
//! TLS handshake gets for the server name it asks for.
use crate::tables::{share, CertTable};
use base64::Engine;
use rustls::sign::CertifiedKey;
use std::sync::Arc;
use vstd::prelude::*;

verus! {

#[verifier::external_type_specification]
#[verifier::external_body]
pub struct ExCertifiedKey(rustls::sign::CertifiedKey);

/// What `base64::engine::general_purpose::STANDARD.decode` returns for
/// `input`: the decoded bytes, or `None` for a decode error.
pub uninterp spec fn base64_standard_decoding(input: Seq<u8>) -> Option<Seq<u8>>;

/// What `rustls_pemfile::certs` reads from a reader over `pem`: the DER of
/// every `CERTIFICATE` section in order, or `None` for a read error.
pub uninterp spec fn pem_certificates(pem: Seq<u8>) -> Option<Seq<Seq<u8>>>;

/// What `rustls_pemfile::pkcs8_private_keys` reads from a reader over
/// `pem`: the DER of every `PRIVATE KEY` section in order, or `None` for a
/// read error.
pub uninterp spec fn pem_pkcs8_keys(pem: Seq<u8>) -> Option<Seq<Seq<u8>>>;

/// What `rustls_pemfile::rsa_private_keys` reads from a reader over `pem`:
/// the DER of every `RSA PRIVATE KEY` section in order, or `None` for a
/// read error.
pub uninterp spec fn pem_rsa_keys(pem: Seq<u8>) -> Option<Seq<Seq<u8>>>;

/// `STANDARD.decode` of the base64 crate (standard alphabet, padded); the
/// contract claims only that the outcome is `base64_standard_decoding`.
#[verifier::external_body]
fn base64_decode(input: &[u8]) -> (r: Option<Vec<u8>>)
    ensures
        r is Some <==> base64_standard_decoding(input@) is Some,
        r matches Some(bytes) ==> bytes@ == base64_standard_decoding(input@)->0,
{
    base64::engine::general_purpose::STANDARD.decode(input).ok()
}

/// `rustls_pemfile::certs` over an in-memory reader on `pem`.
#[verifier::external_body]
fn read_pem_certificates(pem: &[u8]) -> (r: Option<Vec<Vec<u8>>>)
    ensures
        r is Some <==> pem_certificates(pem@) is Some,
        r matches Some(ders) ==> ders.deep_view() == pem_certificates(pem@)->0,
{
    rustls_pemfile::certs(&mut std::io::Cursor::new(pem)).ok()
}

/// `rustls_pemfile::pkcs8_private_keys` over an in-memory reader on `pem`.
#[verifier::external_body]
fn read_pem_pkcs8_keys(pem: &[u8]) -> (r: Option<Vec<Vec<u8>>>)
    ensures
        r is Some <==> pem_pkcs8_keys(pem@) is Some,
        r matches Some(ders) ==> ders.deep_view() == pem_pkcs8_keys(pem@)->0,
{
    rustls_pemfile::pkcs8_private_keys(&mut std::io::Cursor::new(pem)).ok()
}

/// `rustls_pemfile::rsa_private_keys` over an in-memory reader on `pem`.
#[verifier::external_body]
fn read_pem_rsa_keys(pem: &[u8]) -> (r: Option<Vec<Vec<u8>>>)
    ensures
        r is Some <==> pem_rsa_keys(pem@) is Some,
        r matches Some(ders) ==> ders.deep_view() == pem_rsa_keys(pem@)->0,
{
    rustls_pemfile::rsa_private_keys(&mut std::io::Cursor::new(pem)).ok()
}

/// The certificate chain a certified key carries: the DER of each
/// `rustls::Certificate` in its `cert` field, in order.
pub uninterp spec fn certified_key_chain(ck: CertifiedKey) -> Seq<Seq<u8>>;

/// The certified key signs with a signing key that
/// `rustls::sign::any_supported_type` made of the private key `key_der`. A
/// key that `any_supported_type` rejects is one that no certified key signs
/// with.
pub uninterp spec fn signs_with(ck: CertifiedKey, key_der: Seq<u8>) -> bool;

/// `rustls::sign::any_supported_type` on the private key `key_der`, and,
/// when it accepts the key, `CertifiedKey::new` over the chain `chain_der`
/// (each DER wrapped as a `rustls::Certificate`) and that signing key. The
/// two calls share one trusted item because the signing key between them is
/// a `dyn SigningKey`, which Verus cannot name. The contract claims that a
/// built key carries `chain_der` as its chain and signs with the key made
/// of `key_der`, as `CertifiedKey::new` stores them, and that no key is
/// built only when `any_supported_type` rejects `key_der`. That rejection
/// depends on the key's DER alone for RSA and Ed25519 keys; for ECDSA keys
/// ring also draws from the operating system's random source, and a failure
/// of that source counts as a rejection. Which keys the crypto backend
/// accepts, and what the signing key holds, is left unsaid.
#[verifier::external_body]
pub(crate) fn build_certified_key(chain_der: Vec<Vec<u8>>, key_der: Vec<u8>) -> (r: Option<CertifiedKey>)
    ensures
        r matches Some(ck) ==> certified_key_chain(ck) == chain_der.deep_view() && signs_with(ck, key_der@),
        r is None ==> forall|other: CertifiedKey| !signs_with(other, key_der@),
{
    rustls::sign::any_supported_type(&rustls::PrivateKey(key_der)).ok().map(
        |key| CertifiedKey::new(chain_der.into_iter().map(rustls::Certificate).collect(), key),
    )
}

/// The keys found in a key PEM: the PKCS#8 keys, or, when there are none
/// (or reading them failed), the RSA keys; a failed read counts as no keys.
pub open spec fn pem_private_keys(pem: Seq<u8>) -> Seq<Seq<u8>> {
    let pkcs8 = match pem_pkcs8_keys(pem) {
        Some(keys) => keys,
        None => Seq::empty(),
    };
    if pkcs8.len() > 0 {
        pkcs8
    } else {
        match pem_rsa_keys(pem) {
            Some(keys) => keys,
            None => Seq::empty(),
        }
    }
}

/// The certificate chain and the private key (the first key found) that a
/// base64-encoded certificate PEM and a base64-encoded key PEM carry, when
/// both decode, the certificate PEM reads, and a key is found.
pub open spec fn tls_material(cert_b64: Seq<u8>, key_b64: Seq<u8>) -> Option<(Seq<Seq<u8>>, Seq<u8>)> {
    match (base64_standard_decoding(cert_b64), base64_standard_decoding(key_b64)) {
        (Some(cert_pem), Some(key_pem)) => match pem_certificates(cert_pem) {
            Some(chain) => if pem_private_keys(key_pem).len() > 0 {
                Some((chain, pem_private_keys(key_pem)[0]))
            } else {
                None
            },
            None => None,
        },
        _ => None,
    }
}

/// Decodes the certificate chain and private key of a TLS registration;
/// see `tls_material`.
pub fn decode_tls_material(cert_b64: &[u8], key_b64: &[u8]) -> (r: Option<(Vec<Vec<u8>>, Vec<u8>)>)
    ensures
        r is Some <==> tls_material(cert_b64@, key_b64@) is Some,
        r matches Some(m) ==> tls_material(cert_b64@, key_b64@) == Some((m.0.deep_view(), m.1@)),
{
    let cert_pem = match base64_decode(cert_b64) {
        Some(bytes) => bytes,
        None => return None,
    };
    let key_pem = match base64_decode(key_b64) {
        Some(bytes) => bytes,
        None => return None,
    };
    let chain = match read_pem_certificates(cert_pem.as_slice()) {
        Some(ders) => ders,
        None => return None,
    };
    let mut keys = match read_pem_pkcs8_keys(key_pem.as_slice()) {
        Some(ders) => ders,
        None => Vec::new(),
    };
    if keys.len() == 0 {
        keys = match read_pem_rsa_keys(key_pem.as_slice()) {
            Some(ders) => ders,
            None => Vec::new(),
        };
    }
    assert(keys.deep_view() =~= pem_private_keys(key_pem@));
    if keys.len() == 0 {
        return None;
    }
    let key = keys.swap_remove(0);
    assert(key@ == pem_private_keys(key_pem@)[0]);
    Some((chain, key))
}

/// The server-name resolver of the ingress's TLS listener: the certified
/// keys registered through the control API, by server name.
pub struct SniResolver {
    pub certs: CertTable,
}

impl SniResolver {
    pub fn new() -> (r: Self)
        ensures
            r.certs@.dom().is_empty(),
    {
        SniResolver { certs: CertTable::new() }
    }

    /// Stores the certified key that was built for `host`, if one was.
    pub fn install(&mut self, host: String, built: Option<CertifiedKey>)
        ensures
            built matches Some(ck) ==> final(self).certs@ == old(self).certs@.insert(host@, Arc::new(ck)),
            built is None ==> final(self).certs@ == old(self).certs@,
    {
        if let Some(ck) = built {
            self.certs.insert(host, Arc::new(ck));
        }
    }

    /// The certified key for the server name a client asked for: the one
    /// registered under that name; none when the client sent no name or the
    /// name is unknown.
    pub fn resolve(&self, server_name: Option<&str>) -> (r: Option<Arc<CertifiedKey>>)
        ensures
            r == sni_resolution(self.certs@, server_name),
    {
        match server_name {
            Some(name) => self.certs.get(name),
            None => None,
        }
    }
}

/// The key the ingress's resolver hands a client: the one registered under
/// the name the client asked for; none for an unknown name or no name.
pub open spec fn sni_resolution(certs: Map<Seq<char>, Arc<CertifiedKey>>, server_name: Option<&str>) -> Option<
    Arc<CertifiedKey>,
> {
    match server_name {
        Some(name) => if certs.contains_key(name@) {
            Some(certs[name@])
        } else {
            None
        },
        None => None,
    }
}

/// A certificate store with a fallback: certified keys injected by server
/// name, and the key served to every other client.
pub struct SilexCertResolver {
    store: CertTable,
    fallback_cert: Arc<CertifiedKey>,
}

impl SilexCertResolver {
    pub closed spec fn store_spec(&self) -> Map<Seq<char>, Arc<CertifiedKey>> {
        self.store@
    }

    pub closed spec fn fallback_spec(&self) -> Arc<CertifiedKey> {
        self.fallback_cert
    }

    pub fn new(fallback_cert: Arc<CertifiedKey>) -> (r: Self)
        ensures
            r.store_spec().dom().is_empty(),
            r.fallback_spec() == fallback_cert,
    {
        SilexCertResolver { store: CertTable::new(), fallback_cert }
    }

    /// Stores (or replaces) the certified key served for `sni`.
    pub fn inject_cert(&mut self, sni: String, cert: Arc<CertifiedKey>)
        ensures
            final(self).store_spec() == old(self).store_spec().insert(sni@, cert),
            final(self).fallback_spec() == old(self).fallback_spec(),
    {
        self.store.insert(sni, cert);
    }

    /// The certified key for the server name a client asked for: the one
    /// injected under that name, else the fallback. There always is one.
    pub fn resolve(&self, server_name: Option<&str>) -> (r: Option<Arc<CertifiedKey>>)
        ensures
            r == Some(silex_resolution(self.store_spec(), self.fallback_spec(), server_name)),
    {
        if let Some(name) = server_name {
            if let Some(cert) = self.store.get(name) {
                return Some(cert);
            }
        }
        Some(share(&self.fallback_cert))
    }
}

/// The key a `SilexCertResolver` serves: the injected key of the requested
/// name, or the fallback.
pub open spec fn silex_resolution(
    store: Map<Seq<char>, Arc<CertifiedKey>>,
    fallback: Arc<CertifiedKey>,
    server_name: Option<&str>,
) -> Arc<CertifiedKey> {
    match server_name {
        Some(name) => if store.contains_key(name@) {
            store[name@]
        } else {
            fallback
        },
        None => fallback,
    }
}

} // verus!
