//! Composite signature identities: an ML-DSA-65 + Ed25519 key pair with a
//! fixed-length byte encoding, a 32-byte fingerprint derived from the public
//! encoding, and sign/verify primitives.
//!
//! The key types hold the documented fixed-length encodings as plain bytes;
//! the algorithmic work happens in the outside cryptography crate behind the
//! trusted wrappers at the bottom of this module. What those primitives
//! return is named by uninterpreted spec functions (`xdsa_public_of`,
//! `xdsa_fingerprint_of`, `xdsa_sig_ok`), and every contract of the envelope
//! and certificate layers speaks through those names.

use vstd::prelude::*;

use crate::errors::KeyError;

verus! {

/// Length in bytes of a secret-key seed.
pub const XDSA_SECRET_KEY_SIZE: usize = 64;

/// Length in bytes of an encoded public key.
pub const XDSA_PUBLIC_KEY_SIZE: usize = 1984;

/// Length in bytes of a composite signature.
pub const XDSA_SIGNATURE_SIZE: usize = 3373;

/// Length in bytes of a key fingerprint.
pub const XDSA_FINGERPRINT_SIZE: usize = 32;

/// The public-key encoding derived from a 64-byte secret seed.
pub uninterp spec fn xdsa_public_of(seed: Seq<u8>) -> Seq<u8>;

/// The 32-byte fingerprint of an encoded public key.
pub uninterp spec fn xdsa_fingerprint_of(pk: Seq<u8>) -> Seq<u8>;

/// Whether a 1984-byte encoding parses as a valid public key.
pub uninterp spec fn xdsa_key_wf(pk: Seq<u8>) -> bool;

/// Whether the public key `pk` accepts `sig` as a signature over `msg`.
pub uninterp spec fn xdsa_sig_ok(pk: Seq<u8>, msg: Seq<u8>, sig: Seq<u8>) -> bool;

/// A composite signature secret key, held as its 64-byte seed.
pub struct XdsaSecretKey {
    seed: Vec<u8>,
}

/// A composite signature public key, held as its validated 1984-byte encoding.
pub struct XdsaPublicKey {
    bytes: Vec<u8>,
}

/// A composite signature, held as its 3373-byte encoding.
pub struct XdsaSignature {
    bytes: Vec<u8>,
}

/// A 32-byte identifier of a composite signature key.
pub struct XdsaFingerprint {
    bytes: Vec<u8>,
}

impl View for XdsaSecretKey {
    type V = Seq<u8>;

    closed spec fn view(&self) -> Seq<u8> {
        self.seed@
    }
}

impl View for XdsaPublicKey {
    type V = Seq<u8>;

    closed spec fn view(&self) -> Seq<u8> {
        self.bytes@
    }
}

impl View for XdsaSignature {
    type V = Seq<u8>;

    closed spec fn view(&self) -> Seq<u8> {
        self.bytes@
    }
}

impl View for XdsaFingerprint {
    type V = Seq<u8>;

    closed spec fn view(&self) -> Seq<u8> {
        self.bytes@
    }
}

impl XdsaSecretKey {
    #[verifier::type_invariant]
    spec fn inv(&self) -> bool {
        self.seed@.len() == XDSA_SECRET_KEY_SIZE
    }

    /// Generates a new random private key.
    pub fn generate() -> (r: Self)
        ensures
            r@.len() == XDSA_SECRET_KEY_SIZE,
    {
        XdsaSecretKey { seed: xdsa_generate_seed() }
    }

    /// Creates a private key from a 64-byte seed; rejects any other length.
    pub fn from_bytes(bytes: Vec<u8>) -> (r: Result<Self, KeyError>)
        ensures
            bytes@.len() == XDSA_SECRET_KEY_SIZE <==> (r matches Ok(k) && k@ == bytes@),
            bytes@.len() != XDSA_SECRET_KEY_SIZE <==> r == Err::<Self, KeyError>(
                KeyError::BadLength,
            ),
    {
        if bytes.len() == XDSA_SECRET_KEY_SIZE {
            Ok(XdsaSecretKey { seed: bytes })
        } else {
            Err(KeyError::BadLength)
        }
    }

    /// Serializes the private key to its 64-byte seed.
    pub fn to_bytes(&self) -> (r: Vec<u8>)
        ensures
            r@ == self@,
            r@.len() == XDSA_SECRET_KEY_SIZE,
    {
        proof {
            use_type_invariant(self);
        }
        let mut r: Vec<u8> = Vec::new();
        crate::codec::push_vec(&mut r, &self.seed);
        r
    }

    /// Returns the public key corresponding to this private key.
    pub fn public_key(&self) -> (r: XdsaPublicKey)
        ensures
            r@ == xdsa_public_of(self@),
    {
        proof {
            use_type_invariant(self);
        }
        XdsaPublicKey { bytes: xdsa_public_from_seed(&self.seed) }
    }

    /// Returns the 32-byte fingerprint of this key's public half.
    pub fn fingerprint(&self) -> (r: XdsaFingerprint)
        ensures
            r@ == xdsa_fingerprint_of(xdsa_public_of(self@)),
            r@.len() == XDSA_FINGERPRINT_SIZE,
    {
        self.public_key().fingerprint()
    }

    /// Signs a message, returning a composite signature that the matching
    /// public key accepts.
    pub fn sign(&self, message: Vec<u8>) -> (r: XdsaSignature)
        ensures
            r@.len() == XDSA_SIGNATURE_SIZE,
            xdsa_sig_ok(xdsa_public_of(self@), message@, r@),
    {
        proof {
            use_type_invariant(self);
        }
        XdsaSignature { bytes: xdsa_sign_bytes(&self.seed, &message) }
    }
}

impl XdsaPublicKey {
    #[verifier::type_invariant]
    spec fn inv(&self) -> bool {
        self.bytes@.len() == XDSA_PUBLIC_KEY_SIZE && xdsa_key_wf(self.bytes@)
    }

    /// Creates a public key from its 1984-byte encoding, validating it.
    pub fn from_bytes(bytes: Vec<u8>) -> (r: Result<Self, KeyError>)
        ensures
            bytes@.len() == XDSA_PUBLIC_KEY_SIZE && xdsa_key_wf(bytes@) <==> (r matches Ok(k)
                && k@ == bytes@),
            bytes@.len() != XDSA_PUBLIC_KEY_SIZE <==> r == Err::<Self, KeyError>(
                KeyError::BadLength,
            ),
            bytes@.len() == XDSA_PUBLIC_KEY_SIZE && !xdsa_key_wf(bytes@) <==> r == Err::<
                Self,
                KeyError,
            >(KeyError::Invalid),
    {
        if bytes.len() != XDSA_PUBLIC_KEY_SIZE {
            Err(KeyError::BadLength)
        } else if xdsa_check_public(&bytes) {
            Ok(XdsaPublicKey { bytes })
        } else {
            Err(KeyError::Invalid)
        }
    }

    /// Serializes the public key to its 1984-byte encoding, which is always a
    /// valid key encoding.
    pub fn to_bytes(&self) -> (r: Vec<u8>)
        ensures
            r@ == self@,
            r@.len() == XDSA_PUBLIC_KEY_SIZE,
            xdsa_key_wf(r@),
    {
        proof {
            use_type_invariant(self);
        }
        let mut r: Vec<u8> = Vec::new();
        crate::codec::push_vec(&mut r, &self.bytes);
        r
    }

    /// Returns the 32-byte fingerprint of this key.
    pub fn fingerprint(&self) -> (r: XdsaFingerprint)
        ensures
            r@ == xdsa_fingerprint_of(self@),
            r@.len() == XDSA_FINGERPRINT_SIZE,
    {
        proof {
            use_type_invariant(self);
        }
        XdsaFingerprint { bytes: xdsa_fingerprint_bytes(&self.bytes) }
    }

    /// Verifies a signature against a message: succeeds exactly when the
    /// primitive accepts the triple of key, message and signature bytes.
    pub fn verify(&self, message: Vec<u8>, signature: &XdsaSignature) -> (r: Result<
        (),
        crate::errors::CoseError,
    >)
        ensures
            r matches Ok(()) <==> xdsa_sig_ok(self@, message@, signature@),
            r matches Err(e) ==> e == crate::errors::CoseError::BadSignature,
    {
        proof {
            use_type_invariant(self);
            use_type_invariant(signature);
        }
        if xdsa_verify_bytes(&self.bytes, &message, &signature.bytes) {
            Ok(())
        } else {
            Err(crate::errors::CoseError::BadSignature)
        }
    }
}

impl XdsaSignature {
    #[verifier::type_invariant]
    spec fn inv(&self) -> bool {
        self.bytes@.len() == XDSA_SIGNATURE_SIZE
    }

    /// Creates a signature from its 3373-byte encoding; rejects any other
    /// length.
    pub fn from_bytes(bytes: Vec<u8>) -> (r: Result<Self, KeyError>)
        ensures
            bytes@.len() == XDSA_SIGNATURE_SIZE <==> (r matches Ok(s) && s@ == bytes@),
            bytes@.len() != XDSA_SIGNATURE_SIZE <==> r == Err::<Self, KeyError>(
                KeyError::BadLength,
            ),
    {
        if bytes.len() == XDSA_SIGNATURE_SIZE {
            Ok(XdsaSignature { bytes })
        } else {
            Err(KeyError::BadLength)
        }
    }

    /// Serializes the signature to its 3373-byte encoding.
    pub fn to_bytes(&self) -> (r: Vec<u8>)
        ensures
            r@ == self@,
            r@.len() == XDSA_SIGNATURE_SIZE,
    {
        proof {
            use_type_invariant(self);
        }
        let mut r: Vec<u8> = Vec::new();
        crate::codec::push_vec(&mut r, &self.bytes);
        r
    }
}

impl XdsaFingerprint {
    #[verifier::type_invariant]
    spec fn inv(&self) -> bool {
        self.bytes@.len() == XDSA_FINGERPRINT_SIZE
    }

    /// Creates a fingerprint from its 32-byte encoding; rejects any other
    /// length.
    pub fn from_bytes(bytes: Vec<u8>) -> (r: Result<Self, KeyError>)
        ensures
            bytes@.len() == XDSA_FINGERPRINT_SIZE <==> (r matches Ok(f) && f@ == bytes@),
            bytes@.len() != XDSA_FINGERPRINT_SIZE <==> r == Err::<Self, KeyError>(
                KeyError::BadLength,
            ),
    {
        if bytes.len() == XDSA_FINGERPRINT_SIZE {
            Ok(XdsaFingerprint { bytes })
        } else {
            Err(KeyError::BadLength)
        }
    }

    /// Serializes the fingerprint to its 32-byte encoding.
    pub fn to_bytes(&self) -> (r: Vec<u8>)
        ensures
            r@ == self@,
            r@.len() == XDSA_FINGERPRINT_SIZE,
    {
        proof {
            use_type_invariant(self);
        }
        let mut r: Vec<u8> = Vec::new();
        crate::codec::push_vec(&mut r, &self.bytes);
        r
    }
}

/// Relies on `xdsa::SecretKey::generate` and `to_bytes`: a fresh random key,
/// serialized as its 64-byte seed. Nothing is assumed of the value beyond its
/// length.
#[verifier::external_body]
fn xdsa_generate_seed() -> (r: Vec<u8>)
    ensures
        r@.len() == XDSA_SECRET_KEY_SIZE,
{
    darkbio_crypto::xdsa::SecretKey::generate().to_bytes().to_vec()
}

/// Relies on `xdsa::SecretKey::from_bytes` and `PublicKey::to_bytes`: the
/// public half is a function of the seed alone, 1984 bytes long, and its
/// encoding parses back as a valid key.
#[verifier::external_body]
fn xdsa_public_from_seed(seed: &Vec<u8>) -> (r: Vec<u8>)
    requires
        seed@.len() == XDSA_SECRET_KEY_SIZE,
    ensures
        r@ == xdsa_public_of(seed@),
        r@.len() == XDSA_PUBLIC_KEY_SIZE,
        xdsa_key_wf(r@),
{
    let seed: [u8; 64] = seed.as_slice().try_into().unwrap();
    let key = darkbio_crypto::xdsa::SecretKey::from_bytes(&seed);
    key.public_key().to_bytes().to_vec()
}

/// Relies on `xdsa::PublicKey::from_bytes`: whether a 1984-byte encoding is a
/// valid public key is a function of the bytes alone.
#[verifier::external_body]
fn xdsa_check_public(pk: &Vec<u8>) -> (r: bool)
    requires
        pk@.len() == XDSA_PUBLIC_KEY_SIZE,
    ensures
        r == xdsa_key_wf(pk@),
{
    let pk: [u8; 1984] = pk.as_slice().try_into().unwrap();
    darkbio_crypto::xdsa::PublicKey::from_bytes(&pk).is_ok()
}

/// Relies on `xdsa::PublicKey::fingerprint`: a 32-byte digest that is a
/// function of the public encoding alone.
#[verifier::external_body]
fn xdsa_fingerprint_bytes(pk: &Vec<u8>) -> (r: Vec<u8>)
    requires
        pk@.len() == XDSA_PUBLIC_KEY_SIZE,
        xdsa_key_wf(pk@),
    ensures
        r@ == xdsa_fingerprint_of(pk@),
        r@.len() == XDSA_FINGERPRINT_SIZE,
{
    let pk: [u8; 1984] = pk.as_slice().try_into().unwrap();
    let key = darkbio_crypto::xdsa::PublicKey::from_bytes(&pk).unwrap();
    key.fingerprint().to_bytes().to_vec()
}

/// Relies on `xdsa::SecretKey::sign`: the signature is 3373 bytes and the
/// public key derived from the same seed accepts it over the signed message.
#[verifier::external_body]
fn xdsa_sign_bytes(seed: &Vec<u8>, msg: &Vec<u8>) -> (r: Vec<u8>)
    requires
        seed@.len() == XDSA_SECRET_KEY_SIZE,
    ensures
        r@.len() == XDSA_SIGNATURE_SIZE,
        xdsa_sig_ok(xdsa_public_of(seed@), msg@, r@),
{
    let seed: [u8; 64] = seed.as_slice().try_into().unwrap();
    let key = darkbio_crypto::xdsa::SecretKey::from_bytes(&seed);
    key.sign(msg.as_slice()).to_bytes().to_vec()
}

/// Relies on `xdsa::PublicKey::verify`: acceptance is a deterministic
/// function of the key, message and signature bytes.
#[verifier::external_body]
fn xdsa_verify_bytes(pk: &Vec<u8>, msg: &Vec<u8>, sig: &Vec<u8>) -> (r: bool)
    requires
        pk@.len() == XDSA_PUBLIC_KEY_SIZE,
        xdsa_key_wf(pk@),
        sig@.len() == XDSA_SIGNATURE_SIZE,
    ensures
        r == xdsa_sig_ok(pk@, msg@, sig@),
{
    let pk: [u8; 1984] = pk.as_slice().try_into().unwrap();
    let key = darkbio_crypto::xdsa::PublicKey::from_bytes(&pk).unwrap();
    let sig: [u8; 3373] = sig.as_slice().try_into().unwrap();
    let sig = darkbio_crypto::xdsa::Signature::from_bytes(&sig);
    key.verify(msg.as_slice(), &sig).is_ok()
}

} // verus!
