//! Building the TLS server configuration from PEM-encoded credentials.
//!
//! The PEM grammar and the construction of the configuration are rustls's;
//! which failure is reported for which credentials is decided here.

use rustls::pki_types::{CertificateDer, PrivateKeyDer};
use rustls::ServerConfig;
use std::sync::Arc;
use vstd::prelude::*;

verus! {

/// A TLS protocol version that the service may offer.
#[derive(Debug, Clone, Copy, PartialEq, Eq, Structural)]
pub enum TlsVersion {
    Tls12,
    Tls13,
}

/// The DER encoding in which a private key was found.
#[derive(Debug, Clone, Copy, PartialEq, Eq, Structural)]
pub enum KeyEncoding {
    Pkcs1,
    Sec1,
    Pkcs8,
}

/// A DER-encoded private key together with its encoding.
pub struct PrivateKey {
    pub encoding: KeyEncoding,
    pub der: Vec<u8>,
}

impl View for PrivateKey {
    type V = (KeyEncoding, Seq<u8>);

    open spec fn view(&self) -> (KeyEncoding, Seq<u8>) {
        (self.encoding, self.der@)
    }
}

/// Why no TLS server configuration could be built.
#[derive(Debug, Clone, Copy, PartialEq, Eq, Structural)]
pub enum TlsSetupError {
    /// The certificate file holds a section that is not valid PEM.
    MalformedCertificates,
    /// The key file holds a section that is not valid PEM.
    MalformedPrivateKey,
    /// The key file holds no private key.
    MissingPrivateKey,
    /// rustls refused the certificate chain, the key, or the pair.
    Rejected,
}

/// `rustls::ServerConfig`, the configuration that every TLS session of the
/// service is made from. Nothing is known of what it holds.
#[verifier::external_type_specification]
#[verifier::external_body]
pub struct ExServerConfig(rustls::ServerConfig);

/// `rustls::Error`, with which rustls refuses credentials. Nothing is known
/// of what it holds.
#[verifier::external_type_specification]
#[verifier::external_body]
pub struct ExTlsError(rustls::Error);

/// `std::io::Error`, with which `rustls_pemfile` reports text that is not
/// valid PEM. Nothing is known of what it holds.
#[verifier::external_type_specification]
#[verifier::external_body]
pub struct ExIoError(std::io::Error);

/// The certificates that `rustls_pemfile::certs` yields for the PEM text
/// `pem`, each as its DER bytes and in file order, or `None` where it
/// reports an error.
pub uninterp spec fn pem_certificates(pem: Seq<u8>) -> Option<Seq<Seq<u8>>>;

/// What `rustls_pemfile::private_key` returns for the PEM text `pem`: `None`
/// where it reports an error, `Some(None)` where the text holds no private
/// key, else the first private key with its encoding.
pub uninterp spec fn pem_private_key(pem: Seq<u8>) -> Option<Option<(KeyEncoding, Seq<u8>)>>;

/// The DER bytes of each certificate of a chain.
pub open spec fn chain_view(chain: Seq<Vec<u8>>) -> Seq<Seq<u8>> {
    chain.map_values(|der: Vec<u8>| der@)
}

/// A parsed certificate file as a plain value: the chain, or `None` for a
/// parse error.
pub open spec fn chain_outcome(read: Result<Vec<Vec<u8>>, std::io::Error>) -> Option<
    Seq<Seq<u8>>,
> {
    match read {
        Ok(chain) => Some(chain_view(chain@)),
        Err(_) => None,
    }
}

/// A parsed key file as a plain value: `None` for a parse error, `Some(None)`
/// for a file without a key, else the key.
pub open spec fn key_outcome(read: Result<Option<PrivateKey>, std::io::Error>) -> Option<
    Option<(KeyEncoding, Seq<u8>)>,
> {
    match read {
        Ok(Some(key)) => Some(Some(key@)),
        Ok(None) => Some(None),
        Err(_) => None,
    }
}

/// The protocol versions that the service offers: TLS 1.2 and TLS 1.3.
pub open spec fn offered_versions() -> Seq<TlsVersion> {
    seq![TlsVersion::Tls12, TlsVersion::Tls13]
}

/// Calls `rustls_pemfile::certs` on `pem` and collects what it yields up to
/// its first error. The result is the one named by [`pem_certificates`].
#[verifier::external_body]
fn read_certificates(pem: &[u8]) -> (read: Result<Vec<Vec<u8>>, std::io::Error>)
    ensures
        chain_outcome(read) == pem_certificates(pem@),
{
    let mut reader = pem;
    let parsed: Result<Vec<_>, _> = rustls_pemfile::certs(&mut reader).collect();
    parsed.map(|chain| chain.into_iter().map(|cert| cert.to_vec()).collect())
}

/// Calls `rustls_pemfile::private_key` on `pem` and copies the key that it
/// finds into a [`PrivateKey`]. The result is the one named by
/// [`pem_private_key`].
#[verifier::external_body]
fn read_private_key(pem: &[u8]) -> (read: Result<Option<PrivateKey>, std::io::Error>)
    ensures
        key_outcome(read) == pem_private_key(pem@),
{
    let mut reader = pem;
    Ok(match rustls_pemfile::private_key(&mut reader)? {
        Some(PrivateKeyDer::Pkcs1(k)) => Some(PrivateKey { encoding: KeyEncoding::Pkcs1, der: k.secret_pkcs1_der().to_vec() }),
        Some(PrivateKeyDer::Sec1(k)) => Some(PrivateKey { encoding: KeyEncoding::Sec1, der: k.secret_sec1_der().to_vec() }),
        Some(PrivateKeyDer::Pkcs8(k)) => Some(PrivateKey { encoding: KeyEncoding::Pkcs8, der: k.secret_pkcs8_der().to_vec() }),
        _ => None,
    })
}

/// Builds a `rustls::ServerConfig` on the ring provider that offers
/// `versions`, asks no client certificate and presents `chain` with `key`
/// (`with_protocol_versions`, `with_no_client_auth`, `with_single_cert`).
/// Whether rustls accepts the credentials is not stated.
#[verifier::external_body]
fn single_certificate_config(
    versions: &Vec<TlsVersion>,
    chain: Vec<Vec<u8>>,
    key: PrivateKey,
) -> Result<ServerConfig, rustls::Error> {
    let versions: Vec<_> = versions.iter().map(|v| match v {
        TlsVersion::Tls12 => &rustls::version::TLS12,
        TlsVersion::Tls13 => &rustls::version::TLS13,
    }).collect();
    let key = match key.encoding {
        KeyEncoding::Pkcs1 => PrivateKeyDer::Pkcs1(key.der.into()),
        KeyEncoding::Sec1 => PrivateKeyDer::Sec1(key.der.into()),
        KeyEncoding::Pkcs8 => PrivateKeyDer::Pkcs8(key.der.into()),
    };
    ServerConfig::builder_with_provider(Arc::new(rustls::crypto::ring::default_provider()))
        .with_protocol_versions(&versions)?
        .with_no_client_auth()
        .with_single_cert(chain.into_iter().map(CertificateDer::from).collect(), key)
}

/// The protocol versions that the service offers.
pub fn supported_versions() -> (versions: Vec<TlsVersion>)
    ensures
        versions@ == offered_versions(),
{
    let mut versions: Vec<TlsVersion> = Vec::new();
    versions.push(TlsVersion::Tls12);
    versions.push(TlsVersion::Tls13);
    versions
}

/// The failure, if any, that the parsed credentials already decide: a
/// malformed certificate file comes first, then a malformed key file, then a
/// key file without a key.
pub open spec fn credential_failure(
    chain: Option<Seq<Seq<u8>>>,
    key: Option<Option<(KeyEncoding, Seq<u8>)>>,
) -> Option<TlsSetupError> {
    if chain is None {
        Some(TlsSetupError::MalformedCertificates)
    } else if key is None {
        Some(TlsSetupError::MalformedPrivateKey)
    } else if key == Some(None::<(KeyEncoding, Seq<u8>)>) {
        Some(TlsSetupError::MissingPrivateKey)
    } else {
        None
    }
}

/// Pairs a parsed certificate chain with a parsed private key, or reports
/// which of the two is unusable.
pub fn select_credentials(
    chain: Result<Vec<Vec<u8>>, std::io::Error>,
    key: Result<Option<PrivateKey>, std::io::Error>,
) -> (selected: Result<(Vec<Vec<u8>>, PrivateKey), TlsSetupError>)
    ensures
        match credential_failure(chain_outcome(chain), key_outcome(key)) {
            Some(failure) => selected == Err::<(Vec<Vec<u8>>, PrivateKey), TlsSetupError>(
                failure,
            ),
            None => selected matches Ok((c, k)) && chain == Ok::<Vec<Vec<u8>>, std::io::Error>(c)
                && key == Ok::<Option<PrivateKey>, std::io::Error>(Some(k)),
        },
{
    match chain {
        Err(_) => Err(TlsSetupError::MalformedCertificates),
        Ok(c) => match key {
            Err(_) => Err(TlsSetupError::MalformedPrivateKey),
            Ok(None) => Err(TlsSetupError::MissingPrivateKey),
            Ok(Some(k)) => Ok((c, k)),
        },
    }
}

/// Turns what rustls made of the credentials into the library's result: the
/// configuration where rustls built one, `Rejected` where it did not.
pub fn conclude_setup(built: Result<ServerConfig, rustls::Error>) -> (done: Result<
    ServerConfig,
    TlsSetupError,
>)
    ensures
        match built {
            Ok(config) => done == Ok::<ServerConfig, TlsSetupError>(config),
            Err(_) => done == Err::<ServerConfig, TlsSetupError>(TlsSetupError::Rejected),
        },
{
    match built {
        Ok(config) => Ok(config),
        Err(_) => Err(TlsSetupError::Rejected),
    }
}

/// Builds the TLS server configuration from the text of a PEM certificate
/// chain file and of a PEM private key file.
///
/// The credentials are parsed, certificates first; a failure there is
/// reported exactly. Where both parse, rustls decides whether they make a
/// configuration: the result is then that configuration or `Rejected`.
pub fn build_tls_server(cert_pem: &[u8], key_pem: &[u8]) -> (built: Result<
    ServerConfig,
    TlsSetupError,
>)
    ensures
        match credential_failure(pem_certificates(cert_pem@), pem_private_key(key_pem@)) {
            Some(failure) => built == Err::<ServerConfig, TlsSetupError>(failure),
            None => built is Ok || built == Err::<ServerConfig, TlsSetupError>(
                TlsSetupError::Rejected,
            ),
        },
{
    let chain = read_certificates(cert_pem);
    let key = read_private_key(key_pem);
    match select_credentials(chain, key) {
        Err(failure) => Err(failure),
        Ok((chain, key)) => {
            let versions = supported_versions();
            conclude_setup(single_certificate_config(&versions, chain, key))
        },
    }
}

} // verus!
