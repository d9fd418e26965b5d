//! Envelope engine behaviour: sign/verify and seal/open round trips, domain
//! isolation, tamper sensitivity, clock drift, and the unverified inspection
//! helpers.

use secure_envelope::cose::{
    cose_decrypt, cose_encrypt, cose_open, cose_open_at, cose_peek, cose_recipient, cose_seal,
    cose_seal_at, cose_sign, cose_sign_at, cose_sign_detached, cose_sign_detached_at, cose_signer,
    cose_verify, cose_verify_at, cose_verify_detached, cose_verify_detached_at,
};
use secure_envelope::errors::{CoseError, ErrorKind};
use secure_envelope::xdsa::XdsaSecretKey;
use secure_envelope::xhpke::XhpkeSecretKey;

fn signer_key() -> XdsaSecretKey {
    XdsaSecretKey::from_bytes(vec![7u8; 64]).unwrap()
}

fn recipient_key() -> XhpkeSecretKey {
    XhpkeSecretKey::from_bytes(vec![9u8; 32]).unwrap()
}

#[test]
fn sign_verify_round_trip() {
    let sk = signer_key();
    let pk = sk.public_key();
    let env = cose_sign_at(b"hello".to_vec(), b"ctx".to_vec(), &sk, b"dom".to_vec(), 1_700_000_000);
    let payload = cose_verify_at(
        env,
        b"ctx".to_vec(),
        &pk,
        b"dom".to_vec(),
        Some(60),
        1_700_000_030,
    )
    .unwrap();
    assert_eq!(payload, b"hello".to_vec());
}

#[test]
fn sign_verify_with_clock() {
    let sk = signer_key();
    let pk = sk.public_key();
    let env = cose_sign(b"hi".to_vec(), b"".to_vec(), &sk, b"dom".to_vec());
    let payload = cose_verify(env, b"".to_vec(), &pk, b"dom".to_vec(), Some(60)).unwrap();
    assert_eq!(payload, b"hi".to_vec());
    let det = cose_sign_detached(b"m".to_vec(), &sk, b"dom".to_vec());
    cose_verify_detached(det, b"m".to_vec(), &pk, b"dom".to_vec(), Some(60)).unwrap();
}

#[test]
fn seal_open_with_clock() {
    let sk = signer_key();
    let recip = recipient_key();
    let sealed = cose_seal(
        b"clocked".to_vec(),
        b"a".to_vec(),
        &sk,
        &recip.public_key(),
        b"d".to_vec(),
    )
    .unwrap();
    let opened = cose_open(
        sealed,
        b"a".to_vec(),
        &recip,
        &sk.public_key(),
        b"d".to_vec(),
        Some(60),
    )
    .unwrap();
    assert_eq!(opened, b"clocked".to_vec());
}

#[test]
fn detached_round_trip() {
    let sk = signer_key();
    let pk = sk.public_key();
    let env = cose_sign_detached_at(b"message".to_vec(), &sk, b"dom".to_vec(), 1_700_000_000);
    cose_verify_detached_at(
        env,
        b"message".to_vec(),
        &pk,
        b"dom".to_vec(),
        Some(60),
        1_700_000_000,
    )
    .unwrap();
}

#[test]
fn detached_embedded_equivalence() {
    // The signature depends only on authenticated data, domain and key: the
    // detached and embedded envelopes under the same aad both verify, for an
    // arbitrary embedded payload.
    let sk = signer_key();
    let pk = sk.public_key();
    let detached = cose_sign_detached_at(b"aad".to_vec(), &sk, b"dom".to_vec(), 5);
    let embedded = cose_sign_at(b"any payload".to_vec(), b"aad".to_vec(), &sk, b"dom".to_vec(), 5);
    assert!(
        cose_verify_detached_at(detached, b"aad".to_vec(), &pk, b"dom".to_vec(), None, 0).is_ok()
    );
    assert!(cose_verify_at(embedded, b"aad".to_vec(), &pk, b"dom".to_vec(), None, 0).is_ok());
}

#[test]
fn domain_isolation() {
    let sk = signer_key();
    let pk = sk.public_key();
    let env = cose_sign_at(b"p".to_vec(), b"a".to_vec(), &sk, b"A".to_vec(), 0);
    let r = cose_verify_at(env, b"a".to_vec(), &pk, b"B".to_vec(), None, 0);
    assert_eq!(r, Err(CoseError::BadSignature));
}

#[test]
fn wrong_aad_fails() {
    let sk = signer_key();
    let pk = sk.public_key();
    let env = cose_sign_at(b"p".to_vec(), b"a".to_vec(), &sk, b"dom".to_vec(), 0);
    let r = cose_verify_at(env, b"a2".to_vec(), &pk, b"dom".to_vec(), None, 0);
    assert_eq!(r, Err(CoseError::BadSignature));
}

#[test]
fn wrong_key_fails() {
    let sk = signer_key();
    let other = XdsaSecretKey::from_bytes(vec![8u8; 64]).unwrap();
    let env = cose_sign_at(b"p".to_vec(), b"a".to_vec(), &sk, b"dom".to_vec(), 0);
    let r = cose_verify_at(env, b"a".to_vec(), &other.public_key(), b"dom".to_vec(), None, 0);
    assert_eq!(r, Err(CoseError::WrongKey));
    assert_eq!(CoseError::WrongKey.kind(), ErrorKind::AuthenticationFailure);
}

#[test]
fn tamper_any_region_fails() {
    // Flipping one bit anywhere in the envelope, or in the aad or domain
    // supplied at verification, must never let verification succeed with
    // altered output.
    let sk = signer_key();
    let pk = sk.public_key();
    let env = cose_sign_at(b"payload".to_vec(), b"aad".to_vec(), &sk, b"dom".to_vec(), 0);
    let step = env.len() / 23 + 1;
    let mut pos = 0;
    while pos < env.len() {
        let mut bad = env.clone();
        bad[pos] ^= 1;
        let r = cose_verify_at(bad, b"aad".to_vec(), &pk, b"dom".to_vec(), None, 0);
        match r {
            Ok(p) => assert_eq!(p, b"payload".to_vec(), "bit flip at {pos} altered the payload"),
            Err(_) => {}
        }
        pos += step;
    }
    // Flipped aad and domain bits must fail outright.
    let r = cose_verify_at(env.clone(), vec![b'a', b'a', b'd' ^ 1], &pk, b"dom".to_vec(), None, 0);
    assert!(r.is_err());
    let r = cose_verify_at(env, b"aad".to_vec(), &pk, b"eom".to_vec(), None, 0);
    assert!(r.is_err());
}

#[test]
fn clock_drift_boundary() {
    let sk = signer_key();
    let pk = sk.public_key();
    let t = 1_000_000i64;
    let env = cose_sign_at(b"p".to_vec(), b"".to_vec(), &sk, b"d".to_vec(), t);
    // |now - t| == d succeeds, past or future.
    for now in [t - 60, t, t + 60] {
        let r = cose_verify_at(env.clone(), b"".to_vec(), &pk, b"d".to_vec(), Some(60), now);
        assert!(r.is_ok(), "drift {} should pass", now - t);
    }
    // |now - t| == d + 1 fails distinctly as stale.
    for now in [t - 61, t + 61] {
        let r = cose_verify_at(env.clone(), b"".to_vec(), &pk, b"d".to_vec(), Some(60), now);
        assert_eq!(r, Err(CoseError::Stale));
        assert_eq!(CoseError::Stale.kind(), ErrorKind::FreshnessFailure);
    }
    // An absent bound disables the check entirely.
    let r = cose_verify_at(env, b"".to_vec(), &pk, b"d".to_vec(), None, t + 1_000_000_000);
    assert!(r.is_ok());
}

#[test]
fn peek_and_signer_skip_verification() {
    // An envelope whose signature bytes are garbage still yields its header
    // fingerprint and payload through the unverified helpers, while full
    // verification fails.
    let sk = signer_key();
    let pk = sk.public_key();
    let mut env = cose_sign_at(b"peeked".to_vec(), b"a".to_vec(), &sk, b"d".to_vec(), 0);
    let last = env.len() - 1;
    env[last] ^= 0xff;
    let fp = cose_signer(env.clone()).unwrap();
    assert_eq!(fp.to_bytes(), sk.fingerprint().to_bytes());
    let payload = cose_peek(env.clone()).unwrap();
    assert_eq!(payload, b"peeked".to_vec());
    let r = cose_verify_at(env, b"a".to_vec(), &pk, b"d".to_vec(), None, 0);
    assert_eq!(r, Err(CoseError::BadSignature));
}

#[test]
fn seal_open_round_trip() {
    let sk = signer_key();
    let recip = recipient_key();
    let sealed = cose_seal_at(
        b"secret".to_vec(),
        b"ctx".to_vec(),
        &sk,
        &recip.public_key(),
        b"dom".to_vec(),
        7,
    )
    .unwrap();
    let opened = cose_open_at(
        sealed,
        b"ctx".to_vec(),
        &recip,
        &sk.public_key(),
        b"dom".to_vec(),
        Some(60),
        7,
    )
    .unwrap();
    assert_eq!(opened, b"secret".to_vec());
}

#[test]
fn sealed_tamper_fails() {
    let sk = signer_key();
    let recip = recipient_key();
    let sealed = cose_seal_at(
        b"m".to_vec(),
        b"a".to_vec(),
        &sk,
        &recip.public_key(),
        b"d".to_vec(),
        0,
    )
    .unwrap();
    let step = sealed.len() / 19 + 1;
    let mut pos = 0;
    while pos < sealed.len() {
        let mut bad = sealed.clone();
        bad[pos] ^= 1;
        let r = cose_open_at(bad, b"a".to_vec(), &recip, &sk.public_key(), b"d".to_vec(), None, 0);
        match r {
            Ok(p) => assert_eq!(p, b"m".to_vec(), "bit flip at {pos} altered the payload"),
            Err(_) => {}
        }
        pos += step;
    }
    // A wrong aad or domain at opening time fails.
    let r = cose_open_at(
        sealed.clone(),
        b"b".to_vec(),
        &recip,
        &sk.public_key(),
        b"d".to_vec(),
        None,
        0,
    );
    assert!(r.is_err());
    let r = cose_open_at(sealed, b"a".to_vec(), &recip, &sk.public_key(), b"e".to_vec(), None, 0);
    assert!(r.is_err());
}

#[test]
fn decrypt_then_reencrypt_to_new_recipient() {
    // Forwarding: decrypt a sealed message, re-encrypt the still-signed
    // envelope to a new recipient without the signer's key, and let the
    // final recipient verify the original signature.
    let sk = signer_key();
    let first = recipient_key();
    let second = XhpkeSecretKey::from_bytes(vec![11u8; 32]).unwrap();
    let sealed = cose_seal_at(
        b"fwd".to_vec(),
        b"a".to_vec(),
        &sk,
        &first.public_key(),
        b"d".to_vec(),
        0,
    )
    .unwrap();
    let rfp = cose_recipient(sealed.clone()).unwrap();
    assert_eq!(rfp.to_bytes(), first.fingerprint().to_bytes());
    let sign1 = cose_decrypt(sealed, b"a".to_vec(), &first, b"d".to_vec()).unwrap();
    let resealed =
        cose_encrypt(sign1, b"a".to_vec(), &second.public_key(), b"d".to_vec()).unwrap();
    let opened = cose_open_at(
        resealed,
        b"a".to_vec(),
        &second,
        &sk.public_key(),
        b"d".to_vec(),
        None,
        0,
    )
    .unwrap();
    assert_eq!(opened, b"fwd".to_vec());
}

#[test]
fn error_variants() {
    let sk = signer_key();
    let pk = sk.public_key();
    // Malformed input.
    assert_eq!(
        cose_verify_at(vec![1, 2, 3], b"".to_vec(), &pk, b"".to_vec(), None, 0),
        Err(CoseError::Malformed)
    );
    assert_eq!(CoseError::Malformed.kind(), ErrorKind::MalformedInput);
    // A detached envelope has no payload to verify in embedded mode.
    let det = cose_sign_detached_at(b"a".to_vec(), &sk, b"d".to_vec(), 0);
    assert_eq!(
        cose_verify_at(det, b"a".to_vec(), &pk, b"d".to_vec(), None, 0),
        Err(CoseError::MissingPayload)
    );
    // An embedded envelope is rejected by detached verification.
    let emb = cose_sign_at(b"p".to_vec(), b"a".to_vec(), &sk, b"d".to_vec(), 0);
    assert_eq!(
        cose_verify_detached_at(emb, b"a".to_vec(), &pk, b"d".to_vec(), None, 0),
        Err(CoseError::UnexpectedPayload)
    );
    // Decrypting with the wrong recipient key fails as an authentication
    // failure, not a structural one.
    let recip = recipient_key();
    let other = XhpkeSecretKey::from_bytes(vec![12u8; 32]).unwrap();
    let sealed = cose_seal_at(
        b"m".to_vec(),
        b"a".to_vec(),
        &sk,
        &recip.public_key(),
        b"d".to_vec(),
        0,
    )
    .unwrap();
    assert_eq!(
        cose_decrypt(sealed, b"a".to_vec(), &other, b"d".to_vec()),
        Err(CoseError::WrongKey)
    );
    assert!(!CoseError::DecryptFailed.message().is_empty());
}
