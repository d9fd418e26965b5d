//! Key handling, key-material helpers, and byte-for-byte interoperability
//! of the envelope layer with the outside cryptography crate.

use secure_envelope::cose::{cose_open_at, cose_seal_at, cose_sign_at, cose_signer, cose_verify_at};
use secure_envelope::errors::KeyError;
use secure_envelope::material::{argon2_key, random_bytes};
use secure_envelope::xdsa::XdsaSecretKey;
use secure_envelope::xhpke::{XhpkeFingerprint, XhpkeSecretKey};

const SEED_SIG: [u8; 64] = [5u8; 64];
const SEED_ENC: [u8; 32] = [6u8; 32];

#[test]
fn key_byte_round_trips_and_lengths() {
    let sk = XdsaSecretKey::from_bytes(SEED_SIG.to_vec()).unwrap();
    assert_eq!(sk.to_bytes(), SEED_SIG.to_vec());
    let pk = sk.public_key();
    let pkb = pk.to_bytes();
    assert_eq!(pkb.len(), 1984);
    let pk2 = secure_envelope::xdsa::XdsaPublicKey::from_bytes(pkb.clone()).unwrap();
    assert_eq!(pk2.to_bytes(), pkb);
    assert_eq!(pk.fingerprint().to_bytes().len(), 32);
    assert_eq!(sk.fingerprint().to_bytes(), pk.fingerprint().to_bytes());

    let ek = XhpkeSecretKey::from_bytes(SEED_ENC.to_vec()).unwrap();
    assert_eq!(ek.to_bytes(), SEED_ENC.to_vec());
    let epk = ek.public_key();
    assert_eq!(epk.to_bytes().len(), 1216);
    assert_eq!(ek.fingerprint().to_bytes(), epk.fingerprint().to_bytes());
}

#[test]
fn key_length_errors() {
    assert_eq!(XdsaSecretKey::from_bytes(vec![0u8; 63]).err(), Some(KeyError::BadLength));
    assert_eq!(
        secure_envelope::xdsa::XdsaPublicKey::from_bytes(vec![0u8; 10]).err(),
        Some(KeyError::BadLength)
    );
    assert_eq!(
        secure_envelope::xdsa::XdsaSignature::from_bytes(vec![0u8; 3372]).err(),
        Some(KeyError::BadLength)
    );
    assert_eq!(XhpkeSecretKey::from_bytes(vec![0u8; 31]).err(), Some(KeyError::BadLength));
    assert_eq!(XhpkeFingerprint::from_bytes(vec![0u8; 33]).err(), Some(KeyError::BadLength));
}

#[test]
fn generated_keys_work_and_differ() {
    let a = XdsaSecretKey::generate();
    let b = XdsaSecretKey::generate();
    assert_eq!(a.to_bytes().len(), 64);
    assert_ne!(a.to_bytes(), b.to_bytes());
    let e = XhpkeSecretKey::generate();
    assert_eq!(e.to_bytes().len(), 32);
}

#[test]
fn sign_and_verify_primitives() {
    let sk = XdsaSecretKey::from_bytes(SEED_SIG.to_vec()).unwrap();
    let sig = sk.sign(b"msg".to_vec());
    let sigb = sig.to_bytes();
    assert_eq!(sigb.len(), 3373);
    let sig2 = secure_envelope::xdsa::XdsaSignature::from_bytes(sigb).unwrap();
    assert!(sk.public_key().verify(b"msg".to_vec(), &sig2).is_ok());
    assert!(sk.public_key().verify(b"other".to_vec(), &sig2).is_err());
}

#[test]
fn hpke_primitives_round_trip() {
    let ek = XhpkeSecretKey::from_bytes(SEED_ENC.to_vec()).unwrap();
    let (session, ct) =
        ek.public_key().seal(b"pt".to_vec(), b"aad".to_vec(), b"dom".to_vec()).unwrap();
    assert_eq!(session.len(), 1120);
    let pt = ek.open(session.clone(), ct.clone(), b"aad".to_vec(), b"dom".to_vec()).unwrap();
    assert_eq!(pt, b"pt".to_vec());
    // Mismatched authenticated data fails to open.
    assert!(ek.open(session, ct, b"bad".to_vec(), b"dom".to_vec()).is_err());
}

#[test]
fn fingerprint_hex() {
    let ek = XhpkeSecretKey::from_bytes(SEED_ENC.to_vec()).unwrap();
    let fp = ek.fingerprint();
    let rendered = fp.to_hex();
    assert_eq!(rendered, hex::encode(fp.to_bytes()));
    assert_eq!(rendered.len(), 64);
}

#[test]
fn random_bytes_length_and_variety() {
    let a = random_bytes(33);
    let b = random_bytes(33);
    assert_eq!(a.len(), 33);
    assert_eq!(b.len(), 33);
    assert_ne!(a, b);
    assert_eq!(random_bytes(0).len(), 0);
}

#[test]
fn argon2_is_deterministic_and_matches_primitive() {
    let k1 = argon2_key(b"password".to_vec(), b"salt-salt".to_vec(), 1, 8, 1, 32);
    let k2 = argon2_key(b"password".to_vec(), b"salt-salt".to_vec(), 1, 8, 1, 32);
    assert_eq!(k1.len(), 32);
    assert_eq!(k1, k2);
    let k3 = argon2_key(b"password2".to_vec(), b"salt-salt".to_vec(), 1, 8, 1, 32);
    assert_ne!(k1, k3);
    let reference =
        darkbio_crypto::argon2::key_with_len(b"password", b"salt-salt", 1, 8, 1, 32);
    assert_eq!(k1, reference.to_vec());
}

/// A payload for cross-engine checks. The outside engine hands payloads
/// through as raw codec items, so it round-trips arbitrary bytes only when
/// they form one item; this library accepts any payload bytes.
fn cbor_payload() -> Vec<u8> {
    vec![0x43, 1, 2, 3]
}

#[test]
fn envelope_interop_verify_ours_there() {
    // An envelope signed here verifies in the outside crate's engine.
    let sk = XdsaSecretKey::from_bytes(SEED_SIG.to_vec()).unwrap();
    let their_sk = darkbio_crypto::xdsa::SecretKey::from_bytes(&SEED_SIG);
    let env = cose_sign_at(cbor_payload(), b"aad".to_vec(), &sk, b"dom".to_vec(), 123);
    let payload: darkbio_crypto::cbor::Raw = darkbio_crypto::cose::verify_at(
        &env,
        b"aad".as_slice(),
        &their_sk.public_key(),
        b"dom",
        Some(60),
        150,
    )
    .unwrap();
    assert_eq!(payload.0, cbor_payload());
    // And the claimed signer matches their fingerprint.
    let fp = cose_signer(env).unwrap();
    assert_eq!(fp.to_bytes(), their_sk.fingerprint().to_bytes().to_vec());
}

#[test]
fn envelope_interop_verify_theirs_here() {
    // An envelope signed by the outside crate verifies here.
    let sk = XdsaSecretKey::from_bytes(SEED_SIG.to_vec()).unwrap();
    let their_sk = darkbio_crypto::xdsa::SecretKey::from_bytes(&SEED_SIG);
    let env = darkbio_crypto::cose::sign_at(
        darkbio_crypto::cbor::Raw(cbor_payload()),
        b"aad".as_slice(),
        &their_sk,
        b"dom",
        123,
    )
    .unwrap();
    let payload =
        cose_verify_at(env, b"aad".to_vec(), &sk.public_key(), b"dom".to_vec(), Some(60), 150)
            .unwrap();
    assert_eq!(payload, cbor_payload());
}

#[test]
fn sealed_interop_open_ours_there() {
    let sk = XdsaSecretKey::from_bytes(SEED_SIG.to_vec()).unwrap();
    let ek = XhpkeSecretKey::from_bytes(SEED_ENC.to_vec()).unwrap();
    let their_sk = darkbio_crypto::xdsa::SecretKey::from_bytes(&SEED_SIG);
    let their_ek = darkbio_crypto::xhpke::SecretKey::from_bytes(&SEED_ENC);
    let sealed = cose_seal_at(
        cbor_payload(),
        b"aad".to_vec(),
        &sk,
        &ek.public_key(),
        b"dom".to_vec(),
        50,
    )
    .unwrap();
    let opened: darkbio_crypto::cbor::Raw = darkbio_crypto::cose::open_at(
        &sealed,
        b"aad".as_slice(),
        &their_ek,
        &their_sk.public_key(),
        b"dom",
        Some(60),
        60,
    )
    .unwrap();
    assert_eq!(opened.0, cbor_payload());
}

#[test]
fn sealed_interop_open_theirs_here() {
    let sk = XdsaSecretKey::from_bytes(SEED_SIG.to_vec()).unwrap();
    let ek = XhpkeSecretKey::from_bytes(SEED_ENC.to_vec()).unwrap();
    let their_sk = darkbio_crypto::xdsa::SecretKey::from_bytes(&SEED_SIG);
    let their_ek = darkbio_crypto::xhpke::SecretKey::from_bytes(&SEED_ENC);
    // The outside sender pads the plaintext with zeros; the reader here
    // strips any number of them.
    let sealed = darkbio_crypto::cose::seal_at(
        darkbio_crypto::cbor::Raw(cbor_payload()),
        b"aad".as_slice(),
        &their_sk,
        &their_ek.public_key(),
        b"dom",
        &darkbio_crypto::cose::Padding::Buckets { floor: 8192, step: 20 },
        50,
    )
    .unwrap();
    let opened = cose_open_at(
        sealed,
        b"aad".to_vec(),
        &ek,
        &sk.public_key(),
        b"dom".to_vec(),
        Some(60),
        60,
    )
    .unwrap();
    assert_eq!(opened, cbor_payload());
}
