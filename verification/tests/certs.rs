//! Certificate issuance and validation: round trips in binary and armored
//! form, the inverted-window rejection, and wrong-issuer failures.

use secure_envelope::cert::{issue, parse_and_verify};
use secure_envelope::errors::{CertError, ErrorKind};
use secure_envelope::xdsa::{XdsaPublicKey, XdsaSecretKey};
use secure_envelope::xhpke::{XhpkePublicKey, XhpkeSecretKey};

fn issuer() -> XdsaSecretKey {
    XdsaSecretKey::from_bytes(vec![1u8; 64]).unwrap()
}

fn subject() -> XdsaSecretKey {
    XdsaSecretKey::from_bytes(vec![2u8; 64]).unwrap()
}

#[test]
fn issue_and_parse_round_trip() {
    let ca = issuer();
    let leaf = subject();
    let cert = issue(
        leaf.public_key().to_bytes(),
        &ca,
        b"leaf".to_vec(),
        b"root".to_vec(),
        1000,
        2000,
        false,
        None,
    )
    .unwrap();
    let parsed = parse_and_verify(cert, &ca.public_key()).unwrap();
    assert_eq!(parsed.subject_key_bytes, leaf.public_key().to_bytes());
    assert_eq!(parsed.subject_name, b"leaf".to_vec());
    assert_eq!(parsed.issuer_name, b"root".to_vec());
    assert_eq!(parsed.not_before, 1000);
    assert_eq!(parsed.not_after, 2000);
    assert!(!parsed.is_ca);
    assert_eq!(parsed.path_len, None);
}

#[test]
fn issue_ca_with_path_len() {
    let ca = issuer();
    let cert = issue(
        subject().public_key().to_bytes(),
        &ca,
        b"mid".to_vec(),
        b"root".to_vec(),
        0,
        u64::MAX,
        true,
        Some(3),
    )
    .unwrap();
    let parsed = parse_and_verify(cert, &ca.public_key()).unwrap();
    assert!(parsed.is_ca);
    assert_eq!(parsed.path_len, Some(3));
    assert_eq!(parsed.not_after, u64::MAX);
}

#[test]
fn inverted_window_rejected_at_issuance() {
    let ca = issuer();
    let r = issue(
        subject().public_key().to_bytes(),
        &ca,
        b"s".to_vec(),
        b"i".to_vec(),
        1000,
        500,
        false,
        None,
    );
    assert_eq!(r, Err(CertError::InvalidWindow));
    assert_eq!(CertError::InvalidWindow.kind(), ErrorKind::ValidityWindowError);
}

#[test]
fn wrong_issuer_fails() {
    let ca = issuer();
    let other = XdsaSecretKey::from_bytes(vec![3u8; 64]).unwrap();
    let cert = issue(
        subject().public_key().to_bytes(),
        &ca,
        b"s".to_vec(),
        b"i".to_vec(),
        1,
        2,
        false,
        None,
    )
    .unwrap();
    let r = parse_and_verify(cert, &other.public_key());
    assert!(matches!(r, Err(CertError::BadSignature) | Err(CertError::Malformed)));
}

#[test]
fn tampered_certificate_fails() {
    let ca = issuer();
    let cert = issue(
        subject().public_key().to_bytes(),
        &ca,
        b"s".to_vec(),
        b"i".to_vec(),
        1,
        2,
        false,
        None,
    )
    .unwrap();
    let step = cert.len() / 17 + 1;
    let mut pos = 0;
    while pos < cert.len() {
        let mut bad = cert.clone();
        bad[pos] ^= 1;
        assert!(parse_and_verify(bad, &ca.public_key()).is_err(), "bit flip at {pos}");
        pos += step;
    }
}

#[test]
fn signature_key_cert_der_methods() {
    let ca = issuer();
    let leaf = subject();
    let der = leaf
        .public_key()
        .to_cert_der(&ca, b"leaf".to_vec(), b"root".to_vec(), 10, 20, false, None)
        .unwrap();
    let (key, nb, na) = XdsaPublicKey::from_cert_der(der, &ca.public_key()).unwrap();
    assert_eq!(key.to_bytes(), leaf.public_key().to_bytes());
    assert_eq!((nb, na), (10, 20));
}

#[test]
fn signature_key_cert_pem_methods() {
    let ca = issuer();
    let leaf = subject();
    let pem = leaf
        .public_key()
        .to_cert_pem(&ca, b"leaf".to_vec(), b"root".to_vec(), 10, 20, false, None)
        .unwrap();
    assert!(pem.starts_with("-----BEGIN CERTIFICATE-----"));
    let (key, nb, na) = XdsaPublicKey::from_cert_pem(pem, &ca.public_key()).unwrap();
    assert_eq!(key.to_bytes(), leaf.public_key().to_bytes());
    assert_eq!((nb, na), (10, 20));
}

#[test]
fn encryption_key_cert_round_trip() {
    let ca = issuer();
    let enc = XhpkeSecretKey::from_bytes(vec![4u8; 32]).unwrap();
    let der = enc
        .public_key()
        .to_cert_der(&ca, b"enc".to_vec(), b"root".to_vec(), 5, 6, false, None)
        .unwrap();
    let (key, nb, na) = XhpkePublicKey::from_cert_der(der.clone(), &ca.public_key()).unwrap();
    assert_eq!(key.to_bytes(), enc.public_key().to_bytes());
    assert_eq!((nb, na), (5, 6));
    // An encryption-key certificate does not parse as a signature key.
    let r = XdsaPublicKey::from_cert_der(der, &ca.public_key());
    assert_eq!(r.err(), Some(CertError::Malformed));
    // And armored form round-trips too.
    let pem = enc
        .public_key()
        .to_cert_pem(&ca, b"enc".to_vec(), b"root".to_vec(), 5, 6, true, Some(0))
        .unwrap();
    let (key2, _, _) = XhpkePublicKey::from_cert_pem(pem, &ca.public_key()).unwrap();
    assert_eq!(key2.to_bytes(), enc.public_key().to_bytes());
}

#[test]
fn non_certificate_pem_rejected() {
    let ca = issuer();
    let armored = String::from("-----BEGIN PUBLIC KEY-----\nAAAA\n-----END PUBLIC KEY-----\n");
    let r = XdsaPublicKey::from_cert_pem(armored, &ca.public_key());
    assert_eq!(r.err(), Some(CertError::Malformed));
}
