use rymeon_ca::ca::CaCore;
use rymeon_ca::cert::{assemble, CertificateRequest, Extension, SignatureAlgorithm};
use rymeon_ca::errors::CaError;
use rymeon_ca::name::{build_name, build_root_name, AttributeType};
use rymeon_ca::serial::{SerialAllocator, SerialNumber};
use rymeon_ca::signer::verify_certificate;
use rymeon_ca::validity::{ValidityPolicy, SECONDS_PER_DAY};

fn demo_key() -> Vec<u8> {
    (0u8..32).collect()
}

fn demo_request() -> CertificateRequest {
    let entries = vec![
        (AttributeType::Country, String::from("US")),
        (AttributeType::Organization, String::from("Rymeon")),
        (AttributeType::CommonName, String::from("service.rymeon.test")),
    ];
    CertificateRequest {
        subject: build_name(&entries).unwrap(),
        public_key: vec![9u8; 32],
        extensions: vec![Extension::KeyUsage {
            digital_signature: true,
            key_cert_sign: false,
            crl_sign: false,
        }],
    }
}

fn fresh_ca() -> CaCore {
    CaCore::new(SerialAllocator::new(1, 16), ValidityPolicy::new(0))
}

#[test]
fn issue_before_initialize_fails_with_not_initialized() {
    let mut ca = fresh_ca();
    let r = ca.issue_certificate(demo_request(), 30, 1_700_000_000);
    assert!(matches!(r, Err(CaError::NotInitialized)));
}

#[test]
fn initialize_root_is_self_signed_and_self_verifying() {
    let mut ca = fresh_ca();
    let t = 1_700_000_000u64;
    ca.initialize_root(build_root_name().unwrap(), 3650, t, demo_key())
        .unwrap();
    assert!(ca.is_initialized());
    let root = ca.root_certificate().unwrap();
    let tbs = root.tbs();
    assert_eq!(tbs.issuer.entry_count(), tbs.subject.entry_count());
    for i in 0..tbs.issuer.entries().len() {
        assert_eq!(
            tbs.issuer.entries()[i].attr_type(),
            tbs.subject.entries()[i].attr_type()
        );
        assert_eq!(
            tbs.issuer.entries()[i].value(),
            tbs.subject.entries()[i].value()
        );
    }
    // The signature verifies against the certificate's own embedded key.
    let embedded = tbs.subject_public_key.clone();
    assert!(verify_certificate(root, &embedded));
    assert_eq!(tbs.version, 2);
    assert_eq!(tbs.serial.value, 1);
    assert_eq!(tbs.validity.not_before, t);
    assert_eq!(tbs.validity.not_after, t + 3650 * SECONDS_PER_DAY);
}

#[test]
fn issued_certificate_verifies_under_root_key() {
    let mut ca = fresh_ca();
    let t = 1_700_000_000u64;
    ca.initialize_root(build_root_name().unwrap(), 3650, t, demo_key())
        .unwrap();
    let cert = ca.issue_certificate(demo_request(), 90, t + 10).unwrap();
    assert!(verify_certificate(&cert, ca.public_key()));
    // The issuer is the root's subject name.
    let root = ca.root_certificate().unwrap();
    for i in 0..cert.tbs().issuer.entries().len() {
        assert_eq!(
            cert.tbs().issuer.entries()[i].value(),
            root.tbs().subject.entries()[i].value()
        );
    }
    // A wrong key does not verify it.
    let wrong_key = vec![9u8; 32];
    assert!(!verify_certificate(&cert, &wrong_key));
    // The root certificate does not verify under the leaf's embedded key.
    assert!(!verify_certificate(root, &cert.tbs().subject_public_key.clone()));
}

#[test]
fn issued_serials_are_distinct() {
    let mut ca = fresh_ca();
    let t = 1_700_000_000u64;
    ca.initialize_root(build_root_name().unwrap(), 3650, t, demo_key())
        .unwrap();
    let c1 = ca.issue_certificate(demo_request(), 90, t).unwrap();
    let c2 = ca.issue_certificate(demo_request(), 90, t).unwrap();
    assert_ne!(c1.tbs().serial.value, c2.tbs().serial.value);
    assert!(c1.tbs().serial.value < c2.tbs().serial.value);
}

#[test]
fn initialize_root_rejects_wrong_key_size() {
    let mut ca = fresh_ca();
    let r = ca.initialize_root(build_root_name().unwrap(), 10, 1_700_000_000, vec![1u8; 16]);
    assert!(matches!(r, Err(CaError::SigningKeyMismatch)));
    assert!(!ca.is_initialized());
}

#[test]
fn initialize_root_rejects_zero_lifetime() {
    let mut ca = fresh_ca();
    let r = ca.initialize_root(build_root_name().unwrap(), 0, 1_700_000_000, demo_key());
    assert!(matches!(r, Err(CaError::InvalidLifetime)));
    assert!(!ca.is_initialized());
}

#[test]
fn issuance_stops_when_serials_are_exhausted() {
    let mut ca = CaCore::new(SerialAllocator::new(255, 1), ValidityPolicy::new(0));
    let t = 1_700_000_000u64;
    ca.initialize_root(build_root_name().unwrap(), 3650, t, demo_key())
        .unwrap();
    let r = ca.issue_certificate(demo_request(), 90, t);
    assert!(matches!(r, Err(CaError::ExhaustedSerialSpace)));
}

#[test]
fn issue_rejects_zero_lifetime() {
    let mut ca = fresh_ca();
    let t = 1_700_000_000u64;
    ca.initialize_root(build_root_name().unwrap(), 3650, t, demo_key())
        .unwrap();
    let r = ca.issue_certificate(demo_request(), 0, t);
    assert!(matches!(r, Err(CaError::InvalidLifetime)));
}

#[test]
fn issue_rejects_malformed_requests() {
    let mut ca = fresh_ca();
    let t = 1_700_000_000u64;
    ca.initialize_root(build_root_name().unwrap(), 3650, t, demo_key())
        .unwrap();
    let mut empty_key_request = demo_request();
    empty_key_request.public_key = Vec::new();
    assert!(matches!(
        ca.issue_certificate(empty_key_request, 90, t),
        Err(CaError::MalformedInput)
    ));
    let mut inconsistent_request = demo_request();
    inconsistent_request.extensions = vec![Extension::BasicConstraints {
        is_ca: false,
        path_len: Some(0),
    }];
    assert!(matches!(
        ca.issue_certificate(inconsistent_request, 90, t),
        Err(CaError::MalformedInput)
    ));
}

#[test]
fn assemble_rejects_inconsistent_basic_constraints() {
    let name = build_root_name().unwrap();
    let r = assemble(
        name.clone(),
        name,
        SerialNumber { value: 7 },
        ValidityPolicy::new(0).compute(1_000, 1).unwrap(),
        vec![9u8; 32],
        vec![Extension::BasicConstraints { is_ca: false, path_len: Some(3) }],
        2,
        SignatureAlgorithm::Ed25519,
    );
    assert!(matches!(r, Err(CaError::MalformedInput)));
}

#[test]
fn certificate_encoding_carries_signature() {
    let mut ca = fresh_ca();
    let t = 1_700_000_000u64;
    ca.initialize_root(build_root_name().unwrap(), 3650, t, demo_key())
        .unwrap();
    let cert = ca.issue_certificate(demo_request(), 90, t).unwrap();
    let whole = cert.to_bytes();
    let tbs_bytes = cert.tbs().to_bytes();
    let sig = cert.signature();
    assert_eq!(whole.len(), tbs_bytes.len() + 2 + sig.len());
    assert_eq!(&whole[..tbs_bytes.len()], &tbs_bytes[..]);
    assert_eq!(&whole[tbs_bytes.len() + 2..], &sig[..]);
}
