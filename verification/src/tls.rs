//! The TLS certificates of the server.
//!
//! A server without configured certificates signs its own, keeps them on disk, and renews them
//! before they expire. The acceptor can be replaced while the server runs.

use crate::clock::{self, epoch_second_now, unix_seconds};
use crate::number::{self, parse_i64, signed_decimal_text};
use crate::text::{self, same, trimmed};
use rustls::crypto::ring::default_provider;
use rustls::pki_types::{CertificateDer, PrivateKeyDer};
use rustls::version::{TLS12, TLS13};
use rustls::ServerConfig;
use std::sync::Arc;
use std::time::SystemTime;
use tokio_rustls::TlsAcceptor;
use vstd::prelude::*;
use vstd::string::*;

verus! {

/// How many days before its expiry a certificate is renewed.
pub const RENEWAL_DAYS_BEFORE: i64 = 30;

/// How many days a certificate is valid.
pub const CERT_VALIDITY_DAYS: i64 = 365;

/// How often the certificate is checked, in seconds: every six hours.
pub const CHECK_INTERVAL_SECS: u64 = 21600;

/// The seconds of a day.
pub const DAY_SECS: i64 = 86400;

// ---------------------------------------------------------------------------
// The acceptor
// ---------------------------------------------------------------------------

/// The TLS side of a listening socket, carried as it is.
#[verifier::external_type_specification]
#[verifier::external_body]
pub struct ExTlsAcceptor(TlsAcceptor);

/// `TlsAcceptor::clone` shares the configuration: the copy is the same acceptor.
pub assume_specification[ <TlsAcceptor as Clone>::clone ](acceptor: &TlsAcceptor) -> (copy:
    TlsAcceptor)
    ensures
        copy == *acceptor,
;

/// The acceptor that is in use after a renewal: the new one, or the old one where the renewal has
/// failed.
pub open spec fn after_renewal(
    before: TlsAcceptor,
    renewed: Result<TlsAcceptor, TlsError>,
) -> TlsAcceptor {
    match renewed {
        Ok(acceptor) => acceptor,
        Err(_) => before,
    }
}

/// An acceptor that can be replaced: new connections use the latest one.
pub struct ReloadableTlsAcceptor {
    inner: TlsAcceptor,
}

impl ReloadableTlsAcceptor {
    /// The acceptor that new connections use.
    pub closed spec fn acceptor(self) -> TlsAcceptor {
        self.inner
    }

    /// Starts with `acceptor`.
    pub fn new(acceptor: TlsAcceptor) -> (reloadable: Self)
        ensures
            reloadable.acceptor() == acceptor,
    {
        ReloadableTlsAcceptor { inner: acceptor }
    }

    /// The acceptor for a new connection.
    pub fn current(&self) -> (acceptor: TlsAcceptor)
        ensures
            acceptor == self.acceptor(),
    {
        self.inner.clone()
    }

    /// Replaces the acceptor.
    pub fn reload(&mut self, new_acceptor: TlsAcceptor)
        ensures
            final(self).acceptor() == new_acceptor,
    {
        self.inner = new_acceptor;
    }

    /// Takes over the acceptor of a renewed certificate. Where the renewal has failed, the old
    /// one stays, and the error is handed back.
    pub fn renew(&mut self, renewed: Result<TlsAcceptor, TlsError>) -> (failure: Option<TlsError>)
        ensures
            final(self).acceptor() == after_renewal(old(self).acceptor(), renewed),
            match renewed {
                Ok(_) => failure is None,
                Err(error) => failure == Some(error),
            },
    {
        match renewed {
            Ok(acceptor) => {
                self.reload(acceptor);
                None
            },
            Err(error) => Some(error),
        }
    }
}

// ---------------------------------------------------------------------------
// Reading certificates and keys
// ---------------------------------------------------------------------------

/// What can go wrong with certificates and keys.
#[derive(Debug)]
pub enum TlsError {
    /// The certificates cannot be read.
    CertificatePem { message: String },
    /// There is no certificate.
    NoCertificate,
    /// The private key cannot be read.
    KeyPem { message: String },
    /// There is no private key.
    NoKey,
    /// Certificates and key make no acceptor.
    Acceptor { message: String },
    /// A host name cannot stand in a certificate.
    HostName { message: String },
    /// No key pair can be generated.
    KeyPair { message: String },
    /// The certificate cannot be signed.
    Signing { message: String },
    /// The clock shows a time at which no certificate can be issued.
    Clock,
}

/// What [`TlsError`] says.
pub enum TlsErrorView {
    CertificatePem { message: Seq<char> },
    NoCertificate,
    KeyPem { message: Seq<char> },
    NoKey,
    Acceptor { message: Seq<char> },
    HostName { message: Seq<char> },
    KeyPair { message: Seq<char> },
    Signing { message: Seq<char> },
    Clock,
}

impl View for TlsError {
    type V = TlsErrorView;

    open spec fn view(&self) -> TlsErrorView {
        match *self {
            TlsError::CertificatePem { message } => TlsErrorView::CertificatePem {
                message: message@,
            },
            TlsError::NoCertificate => TlsErrorView::NoCertificate,
            TlsError::KeyPem { message } => TlsErrorView::KeyPem { message: message@ },
            TlsError::NoKey => TlsErrorView::NoKey,
            TlsError::Acceptor { message } => TlsErrorView::Acceptor { message: message@ },
            TlsError::HostName { message } => TlsErrorView::HostName { message: message@ },
            TlsError::KeyPair { message } => TlsErrorView::KeyPair { message: message@ },
            TlsError::Signing { message } => TlsErrorView::Signing { message: message@ },
            TlsError::Clock => TlsErrorView::Clock,
        }
    }
}

/// A private key in DER form.
#[derive(Debug)]
pub enum PrivateKey {
    /// An RSA key.
    Pkcs1 { der: Vec<u8> },
    /// An elliptic curve key.
    Sec1 { der: Vec<u8> },
    /// A key of any kind.
    Pkcs8 { der: Vec<u8> },
}

/// What [`PrivateKey`] holds.
pub enum PrivateKeyView {
    Pkcs1 { der: Seq<u8> },
    Sec1 { der: Seq<u8> },
    Pkcs8 { der: Seq<u8> },
}

impl View for PrivateKey {
    type V = PrivateKeyView;

    open spec fn view(&self) -> PrivateKeyView {
        match *self {
            PrivateKey::Pkcs1 { der } => PrivateKeyView::Pkcs1 { der: der@ },
            PrivateKey::Sec1 { der } => PrivateKeyView::Sec1 { der: der@ },
            PrivateKey::Pkcs8 { der } => PrivateKeyView::Pkcs8 { der: der@ },
        }
    }
}

/// The views of a list of certificates.
pub open spec fn der_views(certs: Seq<Vec<u8>>) -> Seq<Seq<u8>> {
    Seq::new(certs.len(), |i: int| certs[i]@)
}

/// The view of certificates that were read, or of the message why not.
pub open spec fn certs_view(certs: Result<Vec<Vec<u8>>, String>) -> Result<
    Seq<Seq<u8>>,
    Seq<char>,
> {
    match certs {
        Ok(list) => Ok(der_views(list@)),
        Err(message) => Err(message@),
    }
}

/// The view of a key that was read, or of the message why not.
pub open spec fn key_view(key: Result<Option<PrivateKey>, String>) -> Result<
    Option<PrivateKeyView>,
    Seq<char>,
> {
    match key {
        Ok(Some(key)) => Ok(Some(key@)),
        Ok(None) => Ok(None),
        Err(message) => Err(message@),
    }
}

/// The certificates in a PEM text, or the message why they cannot be read.
pub uninterp spec fn pem_certificates(pem: Seq<u8>) -> Result<Seq<Seq<u8>>, Seq<char>>;

/// `rustls_pemfile::certs`: the certificates of a PEM text in DER form, or the first error. The
/// result depends on the text alone.
#[verifier::external_body]
fn read_certificates(pem: &[u8]) -> (certs: Result<Vec<Vec<u8>>, String>)
    ensures
        certs_view(certs) == pem_certificates(pem@),
{
    let mut reader = pem;
    match rustls_pemfile::certs(&mut reader).collect::<Result<Vec<_>, _>>() {
        Ok(list) => Ok(list.into_iter().map(|cert| cert.to_vec()).collect()),
        Err(error) => Err(error.to_string()),
    }
}

/// The first private key in a PEM text, where there is one, or the message why it cannot be
/// read.
pub uninterp spec fn pem_private_key(pem: Seq<u8>) -> Result<Option<PrivateKeyView>, Seq<char>>;

/// `rustls_pemfile::private_key`: the first private key of a PEM text in DER form, or the first
/// error before it. The result depends on the text alone. The function gives keys of three
/// kinds; its type leaves room for more, which would count as no key.
#[verifier::external_body]
fn read_private_key(pem: &[u8]) -> (key: Result<Option<PrivateKey>, String>)
    ensures
        key_view(key) == pem_private_key(pem@),
{
    let mut reader = pem;
    match rustls_pemfile::private_key(&mut reader) {
        Ok(Some(PrivateKeyDer::Pkcs1(key))) => Ok(
            Some(PrivateKey::Pkcs1 { der: key.secret_pkcs1_der().to_vec() }),
        ),
        Ok(Some(PrivateKeyDer::Sec1(key))) => Ok(
            Some(PrivateKey::Sec1 { der: key.secret_sec1_der().to_vec() }),
        ),
        Ok(Some(PrivateKeyDer::Pkcs8(key))) => Ok(
            Some(PrivateKey::Pkcs8 { der: key.secret_pkcs8_der().to_vec() }),
        ),
        Ok(_) => Ok(None),
        Err(error) => Err(error.to_string()),
    }
}

/// The outcome of reading a certificate chain.
pub open spec fn chain(read: Result<Seq<Seq<u8>>, Seq<char>>) -> Result<
    Seq<Seq<u8>>,
    TlsErrorView,
> {
    match read {
        Ok(list) => Ok(list),
        Err(message) => Err(TlsErrorView::CertificatePem { message }),
    }
}

/// The outcome of loading a certificate chain, which must not be empty.
pub open spec fn loaded_chain(read: Result<Seq<Seq<u8>>, Seq<char>>) -> Result<
    Seq<Seq<u8>>,
    TlsErrorView,
> {
    match chain(read) {
        Ok(list) => if list.len() == 0 {
            Err(TlsErrorView::NoCertificate)
        } else {
            Ok(list)
        },
        Err(error) => Err(error),
    }
}

/// The outcome of reading a private key, which must be there.
pub open spec fn key(read: Result<Option<PrivateKeyView>, Seq<char>>) -> Result<
    PrivateKeyView,
    TlsErrorView,
> {
    match read {
        Ok(Some(key)) => Ok(key),
        Ok(None) => Err(TlsErrorView::NoKey),
        Err(message) => Err(TlsErrorView::KeyPem { message }),
    }
}

/// The view of a certificate chain, or of the error.
pub open spec fn chain_view(certs: Result<Vec<Vec<u8>>, TlsError>) -> Result<
    Seq<Seq<u8>>,
    TlsErrorView,
> {
    match certs {
        Ok(list) => Ok(der_views(list@)),
        Err(error) => Err(error@),
    }
}

/// The view of a private key, or of the error.
pub open spec fn private_key_view(key: Result<PrivateKey, TlsError>) -> Result<
    PrivateKeyView,
    TlsErrorView,
> {
    match key {
        Ok(key) => Ok(key@),
        Err(error) => Err(error@),
    }
}

/// The certificates that were read, or the error.
pub fn accept_certs(read: Result<Vec<Vec<u8>>, String>) -> (certs: Result<Vec<Vec<u8>>, TlsError>)
    ensures
        chain_view(certs) == chain(certs_view(read)),
{
    match read {
        Ok(list) => Ok(list),
        Err(message) => Err(TlsError::CertificatePem { message }),
    }
}

/// The certificates that were loaded, of which there must be one, or the error.
pub fn accept_loaded_certs(read: Result<Vec<Vec<u8>>, String>) -> (certs: Result<
    Vec<Vec<u8>>,
    TlsError,
>)
    ensures
        chain_view(certs) == loaded_chain(certs_view(read)),
{
    match accept_certs(read) {
        Ok(list) => if list.len() == 0 {
            Err(TlsError::NoCertificate)
        } else {
            Ok(list)
        },
        Err(error) => Err(error),
    }
}

/// The private key that was read, or the error.
pub fn accept_key(read: Result<Option<PrivateKey>, String>) -> (key: Result<PrivateKey, TlsError>)
    ensures
        private_key_view(key) == self::key(key_view(read)),
{
    match read {
        Ok(Some(key)) => Ok(key),
        Ok(None) => Err(TlsError::NoKey),
        Err(message) => Err(TlsError::KeyPem { message }),
    }
}

/// Reads the certificates of a PEM text.
pub fn parse_cert_pem(pem_data: &[u8]) -> (certs: Result<Vec<Vec<u8>>, TlsError>)
    ensures
        chain_view(certs) == chain(pem_certificates(pem_data@)),
{
    accept_certs(read_certificates(pem_data))
}

/// Reads the certificates of a PEM file, of which there must be one.
pub fn load_certs(pem_data: &[u8]) -> (certs: Result<Vec<Vec<u8>>, TlsError>)
    ensures
        chain_view(certs) == loaded_chain(pem_certificates(pem_data@)),
{
    accept_loaded_certs(read_certificates(pem_data))
}

/// Reads the private key of a PEM text.
pub fn parse_key_pem(pem_data: &[u8]) -> (key: Result<PrivateKey, TlsError>)
    ensures
        private_key_view(key) == self::key(pem_private_key(pem_data@)),
{
    accept_key(read_private_key(pem_data))
}

/// A version of TLS.
#[derive(Debug, Clone, Copy, PartialEq, Eq, Structural)]
pub enum Protocol {
    /// TLS 1.2.
    Tls12,
    /// TLS 1.3.
    Tls13,
}

/// The certificate chain that an acceptor presents, and the key that goes with it.
pub uninterp spec fn presented(acceptor: TlsAcceptor) -> (Seq<Seq<u8>>, PrivateKeyView);

/// The versions of TLS that an acceptor speaks.
pub uninterp spec fn spoken(acceptor: TlsAcceptor) -> Set<Protocol>;

/// Whether an acceptor asks its clients for a certificate.
pub uninterp spec fn asks_for_certificate(acceptor: TlsAcceptor) -> bool;

/// `ServerConfig::builder_with_provider` with the `ring` provider, `with_protocol_versions`,
/// `with_no_client_auth` and `with_single_cert`: an acceptor, or the message why there is none. It
/// presents these certificates, and no others, signs with this key, speaks these versions, and
/// does not ask its clients for a certificate. When there is none is not said: loading a key can
/// rest on the random source of the machine.
#[verifier::external_body]
fn make_acceptor(certs: Vec<Vec<u8>>, key: PrivateKey, versions: Vec<Protocol>) -> (acceptor:
    Result<TlsAcceptor, String>)
    ensures
        acceptor matches Ok(made) ==> presented(made) == (der_views(certs@), key@),
        acceptor matches Ok(made) ==> spoken(made) == versions@.to_set(),
        acceptor matches Ok(made) ==> !asks_for_certificate(made),
{
    let chain = certs.into_iter().map(CertificateDer::from).collect();
    let key = match key {
        PrivateKey::Pkcs1 { der } => PrivateKeyDer::Pkcs1(der.into()),
        PrivateKey::Sec1 { der } => PrivateKeyDer::Sec1(der.into()),
        PrivateKey::Pkcs8 { der } => PrivateKeyDer::Pkcs8(der.into()),
    };
    let versions: Vec<_> = versions.into_iter().map(|version| match version {
        Protocol::Tls12 => &TLS12,
        Protocol::Tls13 => &TLS13,
    }).collect();
    let provider = Arc::new(default_provider());
    ServerConfig::builder_with_provider(provider).with_protocol_versions(&versions)
        .and_then(|builder| builder.with_no_client_auth().with_single_cert(chain, key))
        .map(|config| TlsAcceptor::from(Arc::new(config)))
        .map_err(|error| error.to_string())
}

/// The acceptor that was made, or the error.
pub fn accept_acceptor(made: Result<TlsAcceptor, String>) -> (acceptor: Result<
    TlsAcceptor,
    TlsError,
>)
    ensures
        match made {
            Ok(kept) => acceptor == Ok::<TlsAcceptor, TlsError>(kept),
            Err(message) => acceptor matches Err(error) && error@ == (TlsErrorView::Acceptor {
                message: message@,
            }),
        },
{
    match made {
        Ok(kept) => Ok(kept),
        Err(message) => Err(TlsError::Acceptor { message }),
    }
}

/// Builds an acceptor for TLS 1.2 and 1.3 from a certificate chain and its key. It does not ask
/// its clients for a certificate.
pub fn build_acceptor(certs: Vec<Vec<u8>>, key: PrivateKey) -> (acceptor: Result<
    TlsAcceptor,
    TlsError,
>)
    ensures
        match acceptor {
            Ok(made) => {
                &&& presented(made) == (der_views(certs@), key@)
                &&& spoken(made) == set![Protocol::Tls12, Protocol::Tls13]
                &&& !asks_for_certificate(made)
            },
            Err(error) => error is Acceptor,
        },
{
    let mut versions: Vec<Protocol> = Vec::new();
    versions.push(Protocol::Tls12);
    versions.push(Protocol::Tls13);
    proof {
        assert(versions@[0] == Protocol::Tls12 && versions@[1] == Protocol::Tls13);
        assert(versions@.to_set() =~= set![Protocol::Tls12, Protocol::Tls13]);
    }
    accept_acceptor(make_acceptor(certs, key, versions))
}

// ---------------------------------------------------------------------------
// Self-signed certificates
// ---------------------------------------------------------------------------

/// The organisation that stands in a self-signed certificate.
pub open spec fn organization() -> Seq<char> {
    "MingHe SIP Server"@
}

/// The names for which a certificate of `host` is valid. A host given by its address comes with
/// the loopback address and its name; a host given by its name comes with the loopback name and
/// its address.
pub open spec fn subject_names(host: Seq<char>, host_is_address: bool) -> Seq<Seq<char>> {
    if !host_is_address {
        seq![host, "localhost"@, "127.0.0.1"@]
    } else if host == "127.0.0.1"@ {
        seq![host, "localhost"@]
    } else {
        seq![host, "127.0.0.1"@, "localhost"@]
    }
}

/// The names for which a certificate of `host` is valid.
pub fn subject_alt_names(host: &str, host_is_address: bool) -> (names: Vec<String>)
    ensures
        text::views(names@) == subject_names(host@, host_is_address),
{
    let mut names: Vec<String> = Vec::new();
    names.push(host.to_owned());
    if host_is_address {
        if !same(host, "127.0.0.1") {
            names.push("127.0.0.1".to_owned());
        }
        names.push("localhost".to_owned());
    } else {
        names.push("localhost".to_owned());
        names.push("127.0.0.1".to_owned());
    }
    assert(text::views(names@) =~= subject_names(host@, host_is_address));
    names
}

/// The first second that a certificate can name: the start of the year 0.
pub const FIRST_SECOND: i64 = -62167219200;

/// The last second that a certificate can name: the end of the year 9999.
pub const LAST_SECOND: i64 = 253402300799;

/// What a self-signed certificate is to say.
#[derive(Debug)]
pub struct CertificateRequest {
    /// The names for which it is valid, each an address or a DNS name.
    pub names: Vec<String>,
    /// The common name of its subject.
    pub common_name: String,
    /// The organisation of its subject.
    pub organization: String,
    /// From when on it is valid, in seconds since the Unix epoch.
    pub not_before: i64,
    /// Until when it is valid, in seconds since the Unix epoch.
    pub not_after: i64,
}

/// What [`CertificateRequest`] holds.
#[verifier::ext_equal]
pub struct CertificateRequestView {
    pub names: Seq<Seq<char>>,
    pub common_name: Seq<char>,
    pub organization: Seq<char>,
    pub not_before: i64,
    pub not_after: i64,
}

impl View for CertificateRequest {
    type V = CertificateRequestView;

    open spec fn view(&self) -> CertificateRequestView {
        CertificateRequestView {
            names: text::views(self.names@),
            common_name: self.common_name@,
            organization: self.organization@,
            not_before: self.not_before,
            not_after: self.not_after,
        }
    }
}

/// Whether both ends of the validity of a certificate that is issued in the second `now` can be
/// written.
pub open spec fn validity_fits(now: int) -> bool {
    FIRST_SECOND <= now && now + CERT_VALIDITY_DAYS * DAY_SECS <= LAST_SECOND
}

/// What a self-signed certificate of `host` says that is issued in the second `now`.
pub open spec fn request_for(
    host: Seq<char>,
    host_is_address: bool,
    now: int,
) -> CertificateRequestView {
    CertificateRequestView {
        names: subject_names(host, host_is_address),
        common_name: host,
        organization: organization(),
        not_before: now as i64,
        not_after: (now + CERT_VALIDITY_DAYS * DAY_SECS) as i64,
    }
}

/// What a self-signed certificate of `host` is to say that is issued in the second `now`, counted
/// from the Unix epoch; nothing where that is too early or too late.
pub fn certificate_request(host: &str, host_is_address: bool, now: i128) -> (request: Option<
    CertificateRequest,
>)
    ensures
        request is Some == validity_fits(now as int),
        request matches Some(asked) ==> asked@ == request_for(host@, host_is_address, now as int),
{
    if now < FIRST_SECOND as i128 || now > (LAST_SECOND - CERT_VALIDITY_DAYS * DAY_SECS) as i128 {
        return None;
    }
    let request = CertificateRequest {
        names: subject_alt_names(host, host_is_address),
        common_name: host.to_owned(),
        organization: "MingHe SIP Server".to_owned(),
        not_before: now as i64,
        not_after: now as i64 + CERT_VALIDITY_DAYS * DAY_SECS,
    };
    assert(request@ =~= request_for(host@, host_is_address, now as int));
    Some(request)
}

/// Why no certificate was issued.
#[derive(Debug)]
pub enum IssueError {
    /// A name cannot stand in a certificate.
    Name { message: String },
    /// No key pair can be generated.
    KeyPair { message: String },
    /// The certificate cannot be signed.
    Signing { message: String },
}

/// Whether no certificate was issued because of a name.
pub open spec fn refuses_name(issued: Result<(String, String), IssueError>) -> bool {
    issued matches Err(error) && error is Name
}

/// Whether all names are ASCII.
pub open spec fn all_ascii(names: Seq<Seq<char>>) -> bool {
    forall|i: int| 0 <= i < names.len() ==> vstd::utf8::is_ascii_chars(#[trigger] names[i])
}

/// The largest section of a PEM text that is read, in bytes.
pub const PEM_LIMIT: usize = 268435456;

/// Whether a PEM text of a certificate and one of a key can be read: one certificate, unless its
/// text is too large to be read, and a key in the PKCS #8 form.
pub open spec fn is_pair(cert_pem: Seq<u8>, key_pem: Seq<u8>) -> bool {
    &&& cert_pem.len() <= PEM_LIMIT ==> (pem_certificates(cert_pem) matches Ok(list) && list.len()
        == 1)
    &&& pem_private_key(key_pem) matches Ok(Some(key)) && key is Pkcs8
}

/// Whether the certificate in a PEM text says what a request asks for, and is signed with the key
/// in another.
pub uninterp spec fn certifies(
    cert_pem: Seq<u8>,
    key_pem: Seq<u8>,
    request: CertificateRequestView,
) -> bool;

/// Whether what was issued, where something was, can be read.
pub open spec fn issues_pair(issued: Result<(String, String), IssueError>) -> bool {
    issued matches Ok((cert, key)) ==> is_pair(
        vstd::utf8::encode_utf8(cert@),
        vstd::utf8::encode_utf8(key@),
    )
}

/// `rcgen`: a fresh key pair, and a certificate that it signs itself, both as PEM texts, which hold
/// one certificate and one PKCS #8 key. The key is read back from its text, and so is the
/// certificate, unless its text is larger than the reader takes. The certificate has the common
/// name, the organisation, both ends of the validity and the names of the request, in their
/// order; a name that reads as an address stands there as one, every other as a DNS name. The
/// names are refused if and only if one of them is not ASCII, as `CertificateParams::new` does.
/// Key and signature depend on chance; when the other errors come is not said. The ends must be
/// times that a certificate can name.
#[verifier::external_body]
fn issue_certificate(request: CertificateRequest) -> (issued: Result<(String, String), IssueError>)
    requires
        FIRST_SECOND <= request.not_before <= LAST_SECOND,
        FIRST_SECOND <= request.not_after <= LAST_SECOND,
    ensures
        refuses_name(issued) == !all_ascii(request@.names),
        issues_pair(issued),
        issued matches Ok(pair) ==> certifies(
            vstd::utf8::encode_utf8(pair.0@),
            vstd::utf8::encode_utf8(pair.1@),
            request@,
        ),
{
    let mut params = rcgen::CertificateParams::new(request.names)
        .map_err(|error| IssueError::Name { message: error.to_string() })?;
    params.distinguished_name.push(rcgen::DnType::CommonName, request.common_name);
    params.distinguished_name.push(rcgen::DnType::OrganizationName, request.organization);
    params.not_before = time::OffsetDateTime::from_unix_timestamp(request.not_before).unwrap();
    params.not_after = time::OffsetDateTime::from_unix_timestamp(request.not_after).unwrap();
    let key_pair = rcgen::KeyPair::generate()
        .map_err(|error| IssueError::KeyPair { message: error.to_string() })?;
    let cert = params.self_signed(&key_pair)
        .map_err(|error| IssueError::Signing { message: error.to_string() })?;
    Ok((cert.pem(), key_pair.serialize_pem()))
}

/// What became of an attempt to issue a certificate, as PEM bytes or as an error.
pub fn accept_issued(issued: Result<(String, String), IssueError>) -> (pem: Result<
    (Vec<u8>, Vec<u8>),
    TlsError,
>)
    ensures
        match issued {
            Ok((cert, key)) => pem matches Ok((cert_pem, key_pem)) && cert_pem@
                == vstd::utf8::encode_utf8(cert@) && key_pem@ == vstd::utf8::encode_utf8(key@),
            Err(IssueError::Name { message }) => pem matches Err(error) && error@ == (
            TlsErrorView::HostName { message: message@ }),
            Err(IssueError::KeyPair { message }) => pem matches Err(error) && error@ == (
            TlsErrorView::KeyPair { message: message@ }),
            Err(IssueError::Signing { message }) => pem matches Err(error) && error@ == (
            TlsErrorView::Signing { message: message@ }),
        },
{
    match issued {
        Ok((cert, key)) => Ok((cert.as_str().as_bytes_vec(), key.as_str().as_bytes_vec())),
        Err(IssueError::Name { message }) => Err(TlsError::HostName { message }),
        Err(IssueError::KeyPair { message }) => Err(TlsError::KeyPair { message }),
        Err(IssueError::Signing { message }) => Err(TlsError::Signing { message }),
    }
}

/// Whether this can come of generating a self-signed certificate for `host` in the second `now`: a
/// certificate that says what was asked for, with its key; or an error. The clock is the reason
/// where the time is too early or too late, and the host name where it is not ASCII.
pub open spec fn self_signed_outcome(
    host: Seq<char>,
    host_is_address: bool,
    now: int,
    pem: Result<(Vec<u8>, Vec<u8>), TlsError>,
) -> bool {
    match pem {
        Ok((cert_pem, key_pem)) => {
            &&& validity_fits(now)
            &&& vstd::utf8::is_ascii_chars(host)
            &&& is_pair(cert_pem@, key_pem@)
            &&& certifies(cert_pem@, key_pem@, request_for(host, host_is_address, now))
        },
        Err(error) => {
            &&& error is Clock == !validity_fits(now)
            &&& error is HostName == (validity_fits(now) && !vstd::utf8::is_ascii_chars(host))
            &&& error is Clock || error is HostName || error is KeyPair || error is Signing
        },
    }
}

/// The names of a certificate are ASCII where the host is.
proof fn lemma_names_ascii(host: Seq<char>, host_is_address: bool)
    ensures
        all_ascii(subject_names(host, host_is_address)) == vstd::utf8::is_ascii_chars(host),
{
    reveal_strlit("localhost");
    reveal_strlit("127.0.0.1");
    let names = subject_names(host, host_is_address);
    assert(names[0] == host);
    assert(vstd::utf8::is_ascii_chars("localhost"@));
    assert(vstd::utf8::is_ascii_chars("127.0.0.1"@));
    assert forall|i: int| 0 < i < names.len() implies vstd::utf8::is_ascii_chars(
        #[trigger] names[i],
    ) by {
        assert(names[i] == "localhost"@ || names[i] == "127.0.0.1"@);
    }
}

/// Generates a key pair and a self-signed certificate for `host` in the second `now`, counted from
/// the Unix epoch, as PEM bytes: the certificate first.
pub fn generate_self_signed_at(host: &str, host_is_address: bool, now: i128) -> (pem: Result<
    (Vec<u8>, Vec<u8>),
    TlsError,
>)
    ensures
        self_signed_outcome(host@, host_is_address, now as int, pem),
{
    match certificate_request(host, host_is_address, now) {
        Some(request) => {
            proof {
                lemma_names_ascii(host@, host_is_address);
            }
            accept_issued(issue_certificate(request))
        },
        None => Err(TlsError::Clock),
    }
}

/// Generates a key pair and a self-signed certificate for `host`, as PEM bytes: the certificate
/// first. It is valid from now on for `CERT_VALIDITY_DAYS` days.
pub fn generate_self_signed(host: &str, host_is_address: bool) -> (pem: Result<
    (Vec<u8>, Vec<u8>),
    TlsError,
>)
    ensures
        exists|reading: SystemTime| #[trigger]
            self_signed_outcome(host@, host_is_address, clock::epoch_second(reading), pem),
{
    let now = epoch_second_now();
    generate_self_signed_at(host, host_is_address, now)
}

// ---------------------------------------------------------------------------
// Expiry and renewal
// ---------------------------------------------------------------------------

/// The seconds of a `u64` clock as an `i64`.
pub open spec fn signed_seconds(now: u64) -> int {
    if now <= i64::MAX {
        now as int
    } else {
        now - 0x1_0000_0000_0000_0000
    }
}

/// The seconds of a `u64` clock as an `i64`.
fn signed_now(now: u64) -> (seconds: i128)
    ensures
        seconds == signed_seconds(now),
{
    if now <= i64::MAX as u64 {
        now as i128
    } else {
        now as i128 - 0x1_0000_0000_0000_0000
    }
}

/// The expiry that a record holds: a number, with white space around it.
pub open spec fn recorded_expiry(record: Option<Seq<char>>) -> Option<int> {
    match record {
        Some(t) => number::parse_signed(text::trim(t)),
        None => None,
    }
}

/// Whether the time left until a recorded expiry can be counted in an `i64`.
pub open spec fn time_left_fits(record: Option<Seq<char>>, now: u64) -> bool {
    recorded_expiry(record) matches Some(expiry) ==> i64::MIN <= expiry - signed_seconds(now)
        <= i64::MAX
}

/// Whether fewer than `RENEWAL_DAYS_BEFORE` whole days are left: by the record of the expiry
/// where it can be read, else by the age of the certificate file in seconds. Where neither is
/// known, and for an age that an `i64` cannot hold, the certificate counts as good.
pub open spec fn expiring(record: Option<Seq<char>>, file_age: Option<u64>, now: u64) -> bool {
    match recorded_expiry(record) {
        Some(expiry) => expiry - signed_seconds(now) < RENEWAL_DAYS_BEFORE * DAY_SECS,
        None => match file_age {
            Some(age) => age <= i64::MAX && CERT_VALIDITY_DAYS - (age as int) / (DAY_SECS as int)
                < RENEWAL_DAYS_BEFORE,
            None => false,
        },
    }
}

/// Whether a certificate expires soon; no answer where the time left cannot be counted in an
/// `i64`.
pub open spec fn expiring_answer(
    record: Option<Seq<char>>,
    file_age: Option<u64>,
    now: u64,
) -> Option<bool> {
    if time_left_fits(record, now) {
        Some(expiring(record, file_age, now))
    } else {
        None
    }
}

/// Whether the stored certificate expires soon, at the time `now`. There is no answer where the
/// time left cannot be counted in an `i64`.
pub fn is_cert_expiring_soon_at(record: Option<&str>, file_age: Option<u64>, now: u64) -> (soon:
    Option<bool>)
    ensures
        soon == expiring_answer(text::str_view(record), file_age, now),
{
    let expiry: Option<i64> = match record {
        Some(t) => parse_i64(trimmed(t).as_str()),
        None => None,
    };
    match expiry {
        Some(expiry) => {
            let left: i128 = expiry as i128 - signed_now(now);
            if left < i64::MIN as i128 || left > i64::MAX as i128 {
                None
            } else {
                Some(left < (RENEWAL_DAYS_BEFORE * DAY_SECS) as i128)
            }
        },
        None => match file_age {
            Some(age) => {
                let age_days = age / (DAY_SECS as u64);
                Some(
                    age <= i64::MAX as u64 && CERT_VALIDITY_DAYS - (age_days as i64)
                        < RENEWAL_DAYS_BEFORE,
                )
            },
            None => Some(false),
        },
    }
}

/// Whether the stored certificate expires soon. `record` is the text of the record of its
/// expiry, `file_age` the age of its file in seconds. There is no answer where the time left
/// cannot be counted in an `i64`.
pub fn is_cert_expiring_soon(record: Option<&str>, file_age: Option<u64>) -> (soon: Option<bool>)
    ensures
        exists|reading: SystemTime|
            soon == #[trigger] expiring_answer(
                text::str_view(record),
                file_age,
                clock::unix_time(reading),
            ),
{
    let now = unix_seconds();
    is_cert_expiring_soon_at(record, file_age, now)
}

/// The expiry of a certificate that is issued at the time `now`.
pub open spec fn expiry_of(now: u64) -> int {
    signed_seconds(now) + CERT_VALIDITY_DAYS * DAY_SECS
}

/// What is recorded of the expiry of a new certificate.
#[derive(Debug)]
pub enum ExpiryRecord {
    /// Nothing: the certificate or its key could not be saved.
    Skip,
    /// This text.
    Write { text: String },
    /// Nothing: the clock shows a time whose expiry an `i64` cannot hold.
    OutOfRange,
}

/// What [`ExpiryRecord`] says.
pub enum ExpiryRecordView {
    Skip,
    Write { text: Seq<char> },
    OutOfRange,
}

impl View for ExpiryRecord {
    type V = ExpiryRecordView;

    open spec fn view(&self) -> ExpiryRecordView {
        match *self {
            ExpiryRecord::Skip => ExpiryRecordView::Skip,
            ExpiryRecord::Write { text } => ExpiryRecordView::Write { text: text@ },
            ExpiryRecord::OutOfRange => ExpiryRecordView::OutOfRange,
        }
    }
}

/// What is recorded of a certificate that is new at the time `now`: the time of its expiry, where
/// both it and its key could be saved.
pub open spec fn record_for(cert_saved: bool, key_saved: bool, now: u64) -> ExpiryRecordView {
    if !(cert_saved && key_saved) {
        ExpiryRecordView::Skip
    } else if expiry_of(now) > i64::MAX {
        ExpiryRecordView::OutOfRange
    } else {
        ExpiryRecordView::Write { text: number::signed_decimal(expiry_of(now)) }
    }
}

/// What is recorded at the time `now` of a new certificate.
pub fn expiry_record_at(cert_saved: bool, key_saved: bool, now: u64) -> (record: ExpiryRecord)
    ensures
        record@ == record_for(cert_saved, key_saved, now),
{
    if !(cert_saved && key_saved) {
        return ExpiryRecord::Skip;
    }
    let expiry: i128 = signed_now(now) + (CERT_VALIDITY_DAYS * DAY_SECS) as i128;
    if expiry > i64::MAX as i128 {
        return ExpiryRecord::OutOfRange;
    }
    ExpiryRecord::Write { text: signed_decimal_text(expiry as i64) }
}

/// What is recorded of a new certificate.
pub fn expiry_record(cert_saved: bool, key_saved: bool) -> (record: ExpiryRecord)
    ensures
        exists|reading: SystemTime|
            record@ == #[trigger] record_for(cert_saved, key_saved, clock::unix_time(reading)),
{
    let now = unix_seconds();
    expiry_record_at(cert_saved, key_saved, now)
}

/// Where the certificate and its key are configured to lie; empty where they are not.
#[derive(Debug)]
pub struct TlsConfig {
    pub cert_path: String,
    pub key_path: String,
}

impl TlsConfig {
    /// Whether the server signs its own certificate: a path is missing.
    pub open spec fn self_signed(self) -> bool {
        self.cert_path@.len() == 0 || self.key_path@.len() == 0
    }

    /// Whether the server signs its own certificate. Only then is it renewed.
    pub fn is_self_signed(&self) -> (own: bool)
        ensures
            own == self.self_signed(),
    {
        self.cert_path.as_str().is_empty() || self.key_path.as_str().is_empty()
    }
}

/// What is found of a certificate that the server has signed before.
#[derive(Debug, Clone, Copy, PartialEq, Eq, Structural)]
pub enum StoredCertificate {
    /// The certificate or its key is not there.
    Missing,
    /// The certificate cannot be read.
    Unreadable,
    /// The certificate can be read, and expires soon or not.
    Readable { expiring: bool },
}

/// Where the certificate of the server comes from.
#[derive(Debug, Clone, Copy, PartialEq, Eq, Structural)]
pub enum CertificateSource {
    /// From the configured paths.
    Configured,
    /// From an earlier run.
    Stored,
    /// It is generated.
    Generated,
}

/// Where the certificate comes from: from the configured paths; else from an earlier run, where
/// it does not expire soon; else it is generated.
pub open spec fn source(config: TlsConfig, stored: StoredCertificate) -> CertificateSource {
    if !config.self_signed() {
        CertificateSource::Configured
    } else if stored == (StoredCertificate::Readable { expiring: false }) {
        CertificateSource::Stored
    } else {
        CertificateSource::Generated
    }
}

/// Decides where the certificate comes from.
pub fn setup_tls(config: &TlsConfig, stored: StoredCertificate) -> (from: CertificateSource)
    ensures
        from == source(*config, stored),
{
    if !config.is_self_signed() {
        return CertificateSource::Configured;
    }
    match stored {
        StoredCertificate::Readable { expiring: false } => CertificateSource::Stored,
        _ => CertificateSource::Generated,
    }
}

/// Whether a certificate is due for renewal: it expires soon, or cannot be read.
pub open spec fn due(stored: StoredCertificate) -> bool {
    match stored {
        StoredCertificate::Readable { expiring } => expiring,
        _ => true,
    }
}

/// Whether the certificate is to be renewed.
pub fn needs_renewal(stored: StoredCertificate) -> (renew: bool)
    ensures
        renew == due(stored),
{
    match stored {
        StoredCertificate::Readable { expiring } => expiring,
        _ => true,
    }
}

} // verus!
