use iroh_proxy::support::static_cert_verifier::{CertificateRefusal, StaticCertServerVerification};

#[test]
fn accepts_the_pinned_certificate() {
    let verifier = StaticCertServerVerification::new(vec![0x30, 0x82, 0x01, 0x0a]);
    assert_eq!(verifier.verify_server_cert(&[0x30, 0x82, 0x01, 0x0a]), Ok(()));
}

#[test]
fn refuses_any_other_certificate() {
    let verifier = StaticCertServerVerification::new(vec![0x30, 0x82, 0x01, 0x0a]);
    let refused = verifier.verify_server_cert(&[0x30, 0x82, 0x01, 0x0b]);
    assert!(matches!(refused, Err(CertificateRefusal::InvalidPurpose)));
    assert!(verifier.verify_server_cert(&[0x30, 0x82, 0x01]).is_err());
    assert!(verifier.verify_server_cert(&[]).is_err());
}

#[test]
fn supports_ring_signature_schemes_in_order() {
    let verifier = StaticCertServerVerification::new(vec![1, 2, 3]);
    let codes = verifier.supported_verify_schemes();
    assert_eq!(codes, vec![0x0503, 0x0403, 0x0807, 0x0806, 0x0805, 0x0804, 0x0601, 0x0501, 0x0401]);
    let ring: Vec<u16> = rustls::crypto::ring::default_provider()
        .signature_verification_algorithms
        .supported_schemes()
        .into_iter()
        .map(u16::from)
        .collect();
    assert_eq!(codes, ring);
}

#[test]
fn the_same_certificate_gets_the_same_verdict() {
    let verifier = StaticCertServerVerification::new(vec![1, 2, 3]);
    assert_eq!(verifier.verify_server_cert(&[1, 2, 3]), verifier.verify_server_cert(&[1, 2, 3]));
    assert_eq!(verifier.verify_server_cert(&[1, 2, 3, 4]), verifier.verify_server_cert(&[1, 2, 3, 4]));
    assert_eq!(verifier.verify_server_cert(&[1, 2, 3, 4]), Err(CertificateRefusal::InvalidPurpose));
}
