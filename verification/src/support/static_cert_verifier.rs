//! A TLS server-certificate check that accepts exactly one pinned
//! certificate, whatever name the server claims; handshake signatures are
//! still checked with the ring crypto provider's algorithms.

use std::sync::Arc;
use vstd::prelude::*;

verus! {

#[verifier::external_type_specification]
#[verifier::external_body]
pub struct ExCryptoProvider(rustls::crypto::CryptoProvider);

#[verifier::external_type_specification]
#[verifier::external_body]
pub struct ExHandshakeSignatureValid(rustls::client::danger::HandshakeSignatureValid);

#[verifier::external_type_specification]
#[verifier::external_body]
pub struct ExTlsError(rustls::Error);

#[verifier::external_type_specification]
#[verifier::external_body]
pub struct ExDigitallySignedStruct(rustls::DigitallySignedStruct);

/// ring's crypto provider, made only by `ring_default_provider`.
pub struct RingProvider {
    provider: Arc<rustls::crypto::CryptoProvider>,
}

/// Calls `rustls::crypto::ring::default_provider`.
#[verifier::external_body]
fn ring_default_provider() -> RingProvider {
    RingProvider { provider: Arc::new(rustls::crypto::ring::default_provider()) }
}

/// What `rustls::crypto::verify_tls12_signature` returns for a signature over
/// `message` made with the key of the certificate `cert` (its DER bytes),
/// checked with ring's signature verification algorithms.
pub uninterp spec fn ring_tls12_signature_check(
    message: Seq<u8>,
    cert: Seq<u8>,
    dss: rustls::DigitallySignedStruct,
) -> Result<rustls::client::danger::HandshakeSignatureValid, rustls::Error>;

/// What `rustls::crypto::verify_tls13_signature` returns, checked with ring's
/// signature verification algorithms.
pub uninterp spec fn ring_tls13_signature_check(
    message: Seq<u8>,
    cert: Seq<u8>,
    dss: rustls::DigitallySignedStruct,
) -> Result<rustls::client::danger::HandshakeSignatureValid, rustls::Error>;

/// Calls `rustls::crypto::verify_tls12_signature` with the provider's
/// signature verification algorithms, the certificate given by its DER bytes.
/// The provider is ring's, so the result is the named check.
#[verifier::external_body]
fn provider_verify_tls12_signature(
    provider: &RingProvider,
    message: &[u8],
    cert: &[u8],
    dss: &rustls::DigitallySignedStruct,
) -> (valid: Result<rustls::client::danger::HandshakeSignatureValid, rustls::Error>)
    ensures
        valid == ring_tls12_signature_check(message@, cert@, *dss),
{
    rustls::crypto::verify_tls12_signature(
        message,
        &rustls::pki_types::CertificateDer::from_slice(cert),
        dss,
        &provider.provider.signature_verification_algorithms,
    )
}

/// Calls `rustls::crypto::verify_tls13_signature` with the provider's
/// signature verification algorithms, the certificate given by its DER bytes.
/// The provider is ring's, so the result is the named check.
#[verifier::external_body]
fn provider_verify_tls13_signature(
    provider: &RingProvider,
    message: &[u8],
    cert: &[u8],
    dss: &rustls::DigitallySignedStruct,
) -> (valid: Result<rustls::client::danger::HandshakeSignatureValid, rustls::Error>)
    ensures
        valid == ring_tls13_signature_check(message@, cert@, *dss),
{
    rustls::crypto::verify_tls13_signature(
        message,
        &rustls::pki_types::CertificateDer::from_slice(cert),
        dss,
        &provider.provider.signature_verification_algorithms,
    )
}

/// The TLS codes of the signature schemes that ring's provider verifies, in
/// the order of its mapping: ECDSA P-384 SHA-384, ECDSA P-256 SHA-256,
/// Ed25519, RSA-PSS SHA-512, SHA-384, SHA-256, RSA PKCS#1 SHA-512, SHA-384,
/// SHA-256.
pub open spec fn ring_scheme_codes() -> Seq<u16> {
    seq![0x0503u16, 0x0403u16, 0x0807u16, 0x0806u16, 0x0805u16, 0x0804u16, 0x0601u16, 0x0501u16, 0x0401u16]
}

/// Calls `WebPkiSupportedAlgorithms::supported_schemes` on the provider's
/// signature verification algorithms and gives each scheme by its TLS code.
/// `supported_schemes` gives the schemes of ring's mapping, in order.
#[verifier::external_body]
fn provider_supported_schemes(provider: &RingProvider) -> (codes: Vec<u16>)
    ensures
        codes@ == ring_scheme_codes(),
{
    provider.provider.signature_verification_algorithms.supported_schemes().into_iter().map(u16::from).collect()
}

/// Whether two byte strings are equal.
fn bytes_equal(a: &[u8], b: &[u8]) -> (equal: bool)
    ensures
        equal == (a@ == b@),
{
    if a.len() != b.len() {
        return false;
    }
    let mut i: usize = 0;
    while i < a.len()
        invariant
            i <= a@.len(),
            a@.len() == b@.len(),
            forall|j: int| 0 <= j < i ==> a@[j] == b@[j],
        decreases a@.len() - i,
    {
        if a[i] != b[i] {
            return false;
        }
        i = i + 1;
    }
    assert(a@ =~= b@);
    true
}

/// Why a server certificate is refused: it is not the pinned one. TLS
/// reports this as `InvalidCertificate(InvalidPurpose)`.
#[derive(Debug, Clone, Copy, PartialEq, Eq, Structural)]
pub enum CertificateRefusal {
    InvalidPurpose,
}

/// The verdict on a server's end-entity certificate: accepted exactly when
/// its bytes are the pinned ones, refused as of invalid purpose otherwise.
pub open spec fn certificate_verdict(pinned: Seq<u8>, end_entity: Seq<u8>) -> Result<(), CertificateRefusal> {
    if end_entity == pinned {
        Ok(())
    } else {
        Err(CertificateRefusal::InvalidPurpose)
    }
}

/// Exactly the pinned certificate is accepted: a certificate is accepted only
/// when it is byte for byte the pinned one, the pinned one always is, and any
/// other is refused as of invalid purpose.
pub proof fn lemma_only_pinned_accepted(pinned: Seq<u8>, end_entity: Seq<u8>)
    ensures
        certificate_verdict(pinned, end_entity) is Ok <==> end_entity == pinned,
        end_entity != pinned ==> certificate_verdict(pinned, end_entity) == Err::<
            (),
            CertificateRefusal,
        >(CertificateRefusal::InvalidPurpose),
{
}

/// No two different certificates are both accepted.
pub proof fn lemma_one_certificate_accepted(pinned: Seq<u8>, first: Seq<u8>, second: Seq<u8>)
    requires
        certificate_verdict(pinned, first) is Ok,
        certificate_verdict(pinned, second) is Ok,
    ensures
        first == second,
{
}

/// Verifies a server by its certificate alone: the certificate it presents
/// must be, byte for byte, the pinned one. Handshake signatures are checked
/// with ring's algorithms.
pub struct StaticCertServerVerification {
    rustls: RingProvider,
    certificate: Vec<u8>,
}

impl StaticCertServerVerification {
    /// The DER bytes of the pinned certificate.
    pub closed spec fn pinned(&self) -> Seq<u8> {
        self.certificate@
    }

    /// A verifier that accepts exactly `certificate` (its DER bytes), with
    /// ring's crypto provider.
    pub fn new(certificate: Vec<u8>) -> (verifier: Arc<StaticCertServerVerification>)
        ensures
            verifier.pinned() == certificate@,
    {
        Arc::new(StaticCertServerVerification { rustls: ring_default_provider(), certificate })
    }

    /// Accepts the server's end-entity certificate (its DER bytes) exactly
    /// when it is the pinned one; nothing else (intermediates, name, OCSP
    /// response, time) is looked at.
    pub fn verify_server_cert(&self, end_entity: &[u8]) -> (verified: Result<(), CertificateRefusal>)
        ensures
            verified == certificate_verdict(self.pinned(), end_entity@),
            verified is Ok <==> end_entity@ == self.pinned(),
            verified is Err ==> verified == Err::<(), CertificateRefusal>(
                CertificateRefusal::InvalidPurpose,
            ),
    {
        if bytes_equal(self.certificate.as_slice(), end_entity) {
            Ok(())
        } else {
            Err(CertificateRefusal::InvalidPurpose)
        }
    }

    /// Checks a TLS 1.2 handshake signature made with the key of `cert` (its
    /// DER bytes), with ring's algorithms; the pinned certificate plays no part.
    pub fn verify_tls12_signature(
        &self,
        message: &[u8],
        cert: &[u8],
        dss: &rustls::DigitallySignedStruct,
    ) -> (valid: Result<rustls::client::danger::HandshakeSignatureValid, rustls::Error>)
        ensures
            valid == ring_tls12_signature_check(message@, cert@, *dss),
    {
        provider_verify_tls12_signature(&self.rustls, message, cert, dss)
    }

    /// Checks a TLS 1.3 handshake signature made with the key of `cert` (its
    /// DER bytes), with ring's algorithms; the pinned certificate plays no part.
    pub fn verify_tls13_signature(
        &self,
        message: &[u8],
        cert: &[u8],
        dss: &rustls::DigitallySignedStruct,
    ) -> (valid: Result<rustls::client::danger::HandshakeSignatureValid, rustls::Error>)
        ensures
            valid == ring_tls13_signature_check(message@, cert@, *dss),
    {
        provider_verify_tls13_signature(&self.rustls, message, cert, dss)
    }

    /// The TLS codes of the signature schemes that the verifier can check:
    /// ring's, in order.
    pub fn supported_verify_schemes(&self) -> (codes: Vec<u16>)
        ensures
            codes@ == ring_scheme_codes(),
    {
        provider_supported_schemes(&self.rustls)
    }
}

} // verus!
