//! Hybrid encryption identities: an X-Wing (X25519 + ML-KEM-768) key pair
//! with fixed-length byte encodings, a 32-byte fingerprint, and seal/open
//! primitives binding authenticated data and a domain separator.
//!
//! As with the signature keys, the types hold the documented fixed-length
//! encodings as plain bytes; the primitives run in the outside cryptography
//! crate behind trusted wrappers. Decryption is deterministic in the seed,
//! encapsulated key, ciphertext, authenticated data and domain, and is named
//! `xhpke_open_of`; encryption is randomized, so its contract promises only
//! that a secret key whose public half is the recipient opens the result.

use vstd::prelude::*;

use crate::errors::{CoseError, KeyError};

verus! {

/// Length in bytes of a secret-key seed.
pub const XHPKE_SECRET_KEY_SIZE: usize = 32;

/// Length in bytes of an encoded public key.
pub const XHPKE_PUBLIC_KEY_SIZE: usize = 1216;

/// Length in bytes of an encapsulated per-message session key.
pub const XHPKE_ENCAP_KEY_SIZE: usize = 1120;

/// Length in bytes of a key fingerprint.
pub const XHPKE_FINGERPRINT_SIZE: usize = 32;

/// The public-key encoding derived from a 32-byte secret seed.
pub uninterp spec fn xhpke_public_of(seed: Seq<u8>) -> Seq<u8>;

/// The 32-byte fingerprint of an encoded public key.
pub uninterp spec fn xhpke_fingerprint_of(pk: Seq<u8>) -> Seq<u8>;

/// Whether a 1216-byte encoding parses as a valid public key.
pub uninterp spec fn xhpke_key_wf(pk: Seq<u8>) -> bool;

/// What opening a ciphertext returns: `Some` plaintext or a failure, as a
/// function of the secret seed, encapsulated key, ciphertext, authenticated
/// data and domain.
pub uninterp spec fn xhpke_open_of(
    seed: Seq<u8>,
    encap: Seq<u8>,
    ct: Seq<u8>,
    aad: Seq<u8>,
    domain: Seq<u8>,
) -> Option<Seq<u8>>;

/// A hybrid encryption secret key, held as its 32-byte seed.
pub struct XhpkeSecretKey {
    seed: Vec<u8>,
}

/// A hybrid encryption public key, held as its validated 1216-byte encoding.
pub struct XhpkePublicKey {
    bytes: Vec<u8>,
}

/// A 32-byte identifier of a hybrid encryption key.
pub struct XhpkeFingerprint {
    bytes: Vec<u8>,
}

impl View for XhpkeSecretKey {
    type V = Seq<u8>;

    closed spec fn view(&self) -> Seq<u8> {
        self.seed@
    }
}

impl View for XhpkePublicKey {
    type V = Seq<u8>;

    closed spec fn view(&self) -> Seq<u8> {
        self.bytes@
    }
}

impl View for XhpkeFingerprint {
    type V = Seq<u8>;

    closed spec fn view(&self) -> Seq<u8> {
        self.bytes@
    }
}

impl XhpkeSecretKey {
    #[verifier::type_invariant]
    spec fn inv(&self) -> bool {
        self.seed@.len() == XHPKE_SECRET_KEY_SIZE
    }

    /// Generates a new random private key.
    pub fn generate() -> (r: Self)
        ensures
            r@.len() == XHPKE_SECRET_KEY_SIZE,
    {
        XhpkeSecretKey { seed: xhpke_generate_seed() }
    }

    /// Creates a private key from a 32-byte seed; rejects any other length.
    pub fn from_bytes(bytes: Vec<u8>) -> (r: Result<Self, KeyError>)
        ensures
            bytes@.len() == XHPKE_SECRET_KEY_SIZE <==> (r matches Ok(k) && k@ == bytes@),
            bytes@.len() != XHPKE_SECRET_KEY_SIZE <==> r == Err::<Self, KeyError>(
                KeyError::BadLength,
            ),
    {
        if bytes.len() == XHPKE_SECRET_KEY_SIZE {
            Ok(XhpkeSecretKey { seed: bytes })
        } else {
            Err(KeyError::BadLength)
        }
    }

    /// Serializes the private key to its 32-byte seed.
    pub fn to_bytes(&self) -> (r: Vec<u8>)
        ensures
            r@ == self@,
            r@.len() == XHPKE_SECRET_KEY_SIZE,
    {
        proof {
            use_type_invariant(self);
        }
        let mut r: Vec<u8> = Vec::new();
        crate::codec::push_vec(&mut r, &self.seed);
        r
    }

    /// Returns the public key corresponding to this private key.
    pub fn public_key(&self) -> (r: XhpkePublicKey)
        ensures
            r@ == xhpke_public_of(self@),
    {
        proof {
            use_type_invariant(self);
        }
        XhpkePublicKey { bytes: xhpke_public_from_seed(&self.seed) }
    }

    /// Returns the 32-byte fingerprint of this key's public half.
    pub fn fingerprint(&self) -> (r: XhpkeFingerprint)
        ensures
            r@ == xhpke_fingerprint_of(xhpke_public_of(self@)),
            r@.len() == XHPKE_FINGERPRINT_SIZE,
    {
        self.public_key().fingerprint()
    }

    /// Decrypts a message that was encrypted to this key's public
    /// counterpart. The 1120-byte session key, the authenticated data and the
    /// domain must all match the sealing call; the primitive's acceptance is a
    /// function of exactly those values and the ciphertext.
    pub fn open(
        &self,
        session_key: Vec<u8>,
        msg_to_open: Vec<u8>,
        msg_to_auth: Vec<u8>,
        domain: Vec<u8>,
    ) -> (r: Result<Vec<u8>, CoseError>)
        ensures
            r matches Ok(p) ==> session_key@.len() == XHPKE_ENCAP_KEY_SIZE && xhpke_open_of(
                self@,
                session_key@,
                msg_to_open@,
                msg_to_auth@,
                domain@,
            ) == Some(p@),
            session_key@.len() == XHPKE_ENCAP_KEY_SIZE && (xhpke_open_of(
                self@,
                session_key@,
                msg_to_open@,
                msg_to_auth@,
                domain@,
            ) matches Some(p)) ==> (r matches Ok(q) && q@ == xhpke_open_of(
                self@,
                session_key@,
                msg_to_open@,
                msg_to_auth@,
                domain@,
            )->Some_0),
            r == Err::<Vec<u8>, CoseError>(CoseError::BadEncapKey) <==> session_key@.len()
                != XHPKE_ENCAP_KEY_SIZE,
            r == Err::<Vec<u8>, CoseError>(CoseError::DecryptFailed) <==> session_key@.len()
                == XHPKE_ENCAP_KEY_SIZE && xhpke_open_of(
                self@,
                session_key@,
                msg_to_open@,
                msg_to_auth@,
                domain@,
            ) is None,
    {
        proof {
            use_type_invariant(self);
        }
        if session_key.len() != XHPKE_ENCAP_KEY_SIZE {
            return Err(CoseError::BadEncapKey);
        }
        match xhpke_open_bytes(&self.seed, &session_key, &msg_to_open, &msg_to_auth, &domain) {
            Some(p) => Ok(p),
            None => Err(CoseError::DecryptFailed),
        }
    }
}

impl XhpkePublicKey {
    #[verifier::type_invariant]
    spec fn inv(&self) -> bool {
        self.bytes@.len() == XHPKE_PUBLIC_KEY_SIZE && xhpke_key_wf(self.bytes@)
    }

    /// Creates a public key from its 1216-byte encoding, validating it.
    pub fn from_bytes(bytes: Vec<u8>) -> (r: Result<Self, KeyError>)
        ensures
            bytes@.len() == XHPKE_PUBLIC_KEY_SIZE && xhpke_key_wf(bytes@) <==> (r matches Ok(k)
                && k@ == bytes@),
            bytes@.len() != XHPKE_PUBLIC_KEY_SIZE <==> r == Err::<Self, KeyError>(
                KeyError::BadLength,
            ),
            bytes@.len() == XHPKE_PUBLIC_KEY_SIZE && !xhpke_key_wf(bytes@) <==> r == Err::<
                Self,
                KeyError,
            >(KeyError::Invalid),
    {
        if bytes.len() != XHPKE_PUBLIC_KEY_SIZE {
            Err(KeyError::BadLength)
        } else if xhpke_check_public(&bytes) {
            Ok(XhpkePublicKey { bytes })
        } else {
            Err(KeyError::Invalid)
        }
    }

    /// Serializes the public key to its 1216-byte encoding, which is always a
    /// valid key encoding.
    pub fn to_bytes(&self) -> (r: Vec<u8>)
        ensures
            r@ == self@,
            r@.len() == XHPKE_PUBLIC_KEY_SIZE,
            xhpke_key_wf(r@),
    {
        proof {
            use_type_invariant(self);
        }
        let mut r: Vec<u8> = Vec::new();
        crate::codec::push_vec(&mut r, &self.bytes);
        r
    }

    /// Returns the 32-byte fingerprint of this key.
    pub fn fingerprint(&self) -> (r: XhpkeFingerprint)
        ensures
            r@ == xhpke_fingerprint_of(self@),
            r@.len() == XHPKE_FINGERPRINT_SIZE,
    {
        proof {
            use_type_invariant(self);
        }
        XhpkeFingerprint { bytes: xhpke_fingerprint_bytes(&self.bytes) }
    }

    /// Encrypts a message to this public key, returning the 1120-byte
    /// encapsulated session key and the ciphertext. Any secret key whose
    /// public half is this key, given the same authenticated data and domain,
    /// opens the result to the sealed message.
    pub fn seal(&self, msg_to_seal: Vec<u8>, msg_to_auth: Vec<u8>, domain: Vec<u8>) -> (r: Result<
        (Vec<u8>, Vec<u8>),
        CoseError,
    >)
        ensures
            r matches Ok(t) ==> t.0@.len() == XHPKE_ENCAP_KEY_SIZE && forall|seed: Seq<u8>|
                xhpke_public_of(seed) == self@ ==> xhpke_open_of(
                    seed,
                    t.0@,
                    t.1@,
                    msg_to_auth@,
                    domain@,
                ) == Some(msg_to_seal@),
            r matches Err(e) ==> e == CoseError::DecryptFailed,
    {
        proof {
            use_type_invariant(self);
        }
        match xhpke_seal_bytes(&self.bytes, &msg_to_seal, &msg_to_auth, &domain) {
            Some(t) => Ok(t),
            None => Err(CoseError::DecryptFailed),
        }
    }
}

/// The ASCII code of the lower-case hexadecimal digit for `n`.
pub open spec fn hex_char(n: u8) -> u8
    recommends
        n < 16,
{
    if n < 10 {
        (48 + n) as u8
    } else {
        (87 + n) as u8
    }
}

/// The ASCII bytes of the lower-case hexadecimal rendering of `b`, two digits
/// per byte, high digit first.
pub open spec fn hex_of(b: Seq<u8>) -> Seq<u8>
    decreases b.len(),
{
    if b.len() == 0 {
        Seq::empty()
    } else {
        hex_of(b.drop_last()) + seq![hex_char(b.last() / 16), hex_char(b.last() % 16)]
    }
}

pub proof fn lemma_hex_of_len(b: Seq<u8>)
    ensures
        hex_of(b).len() == 2 * b.len(),
    decreases b.len(),
{
    if b.len() > 0 {
        lemma_hex_of_len(b.drop_last());
    }
}

/// The ASCII bytes of the lower-case hexadecimal rendering of `b`.
pub fn hex_ascii(b: &Vec<u8>) -> (r: Vec<u8>)
    ensures
        r@ == hex_of(b@),
        forall|i: int| 0 <= i < r@.len() ==> r@[i] < 128,
{
    let mut r: Vec<u8> = Vec::new();
    let mut i: usize = 0;
    proof {
        lemma_hex_of_len(b@);
    }
    while i < b.len()
        invariant
            i <= b.len(),
            r@ == hex_of(b@.subrange(0, i as int)),
            forall|j: int| 0 <= j < r@.len() ==> r@[j] < 128,
        decreases b.len() - i,
    {
        let x = b[i];
        let hi = x / 16;
        let lo = x % 16;
        r.push(if hi < 10 {
            48 + hi
        } else {
            87 + hi
        });
        r.push(if lo < 10 {
            48 + lo
        } else {
            87 + lo
        });
        i = i + 1;
        proof {
            assert(b@.subrange(0, i as int).drop_last() =~= b@.subrange(0, i - 1));
            assert(r@ =~= hex_of(b@.subrange(0, i as int)));
        }
    }
    proof {
        assert(b@.subrange(0, b@.len() as int) =~= b@);
    }
    r
}

impl XhpkeFingerprint {
    #[verifier::type_invariant]
    spec fn inv(&self) -> bool {
        self.bytes@.len() == XHPKE_FINGERPRINT_SIZE
    }

    /// Creates a fingerprint from its 32-byte encoding; rejects any other
    /// length.
    pub fn from_bytes(bytes: Vec<u8>) -> (r: Result<Self, KeyError>)
        ensures
            bytes@.len() == XHPKE_FINGERPRINT_SIZE <==> (r matches Ok(f) && f@ == bytes@),
            bytes@.len() != XHPKE_FINGERPRINT_SIZE <==> r == Err::<Self, KeyError>(
                KeyError::BadLength,
            ),
    {
        if bytes.len() == XHPKE_FINGERPRINT_SIZE {
            Ok(XhpkeFingerprint { bytes })
        } else {
            Err(KeyError::BadLength)
        }
    }

    /// Serializes the fingerprint to its 32-byte encoding.
    pub fn to_bytes(&self) -> (r: Vec<u8>)
        ensures
            r@ == self@,
            r@.len() == XHPKE_FINGERPRINT_SIZE,
    {
        proof {
            use_type_invariant(self);
        }
        let mut r: Vec<u8> = Vec::new();
        crate::codec::push_vec(&mut r, &self.bytes);
        r
    }

    /// Renders the fingerprint as a 64-digit lower-case hexadecimal string.
    pub fn to_hex(&self) -> (r: String)
        ensures
            r@.len() == 2 * self@.len(),
            forall|i: int| 0 <= i < r@.len() ==> r@[i] == hex_of(self@)[i] as char,
    {
        proof {
            use_type_invariant(self);
            lemma_hex_of_len(self@);
        }
        let ascii = hex_ascii(&self.bytes);
        ascii_to_string(ascii)
    }
}

/// Relies on `String::from_utf8`: ASCII bytes decode to one character per
/// byte, each the character with that code.
#[verifier::external_body]
fn ascii_to_string(bytes: Vec<u8>) -> (r: String)
    requires
        forall|i: int| 0 <= i < bytes@.len() ==> bytes@[i] < 128,
    ensures
        r@.len() == bytes@.len(),
        forall|i: int| 0 <= i < bytes@.len() ==> r@[i] == bytes@[i] as char,
{
    String::from_utf8(bytes).unwrap()
}

/// Relies on `xhpke::SecretKey::generate` and `to_bytes`: a fresh random key,
/// serialized as its 32-byte seed. Nothing is assumed of the value beyond its
/// length.
#[verifier::external_body]
fn xhpke_generate_seed() -> (r: Vec<u8>)
    ensures
        r@.len() == XHPKE_SECRET_KEY_SIZE,
{
    darkbio_crypto::xhpke::SecretKey::generate().to_bytes().to_vec()
}

/// Relies on `xhpke::SecretKey::from_bytes` and `PublicKey::to_bytes`: the
/// public half is a function of the seed alone, 1216 bytes long, and its
/// encoding parses back as a valid key.
#[verifier::external_body]
fn xhpke_public_from_seed(seed: &Vec<u8>) -> (r: Vec<u8>)
    requires
        seed@.len() == XHPKE_SECRET_KEY_SIZE,
    ensures
        r@ == xhpke_public_of(seed@),
        r@.len() == XHPKE_PUBLIC_KEY_SIZE,
        xhpke_key_wf(r@),
{
    let seed: [u8; 32] = seed.as_slice().try_into().unwrap();
    let key = darkbio_crypto::xhpke::SecretKey::from_bytes(&seed);
    key.public_key().to_bytes().to_vec()
}

/// Relies on `xhpke::PublicKey::from_bytes`: whether a 1216-byte encoding is
/// a valid public key is a function of the bytes alone.
#[verifier::external_body]
fn xhpke_check_public(pk: &Vec<u8>) -> (r: bool)
    requires
        pk@.len() == XHPKE_PUBLIC_KEY_SIZE,
    ensures
        r == xhpke_key_wf(pk@),
{
    let pk: [u8; 1216] = pk.as_slice().try_into().unwrap();
    darkbio_crypto::xhpke::PublicKey::from_bytes(&pk).is_ok()
}

/// Relies on `xhpke::PublicKey::fingerprint`: a 32-byte digest that is a
/// function of the public encoding alone.
#[verifier::external_body]
fn xhpke_fingerprint_bytes(pk: &Vec<u8>) -> (r: Vec<u8>)
    requires
        pk@.len() == XHPKE_PUBLIC_KEY_SIZE,
        xhpke_key_wf(pk@),
    ensures
        r@ == xhpke_fingerprint_of(pk@),
        r@.len() == XHPKE_FINGERPRINT_SIZE,
{
    let pk: [u8; 1216] = pk.as_slice().try_into().unwrap();
    let key = darkbio_crypto::xhpke::PublicKey::from_bytes(&pk).unwrap();
    key.fingerprint().to_bytes().to_vec()
}

/// Relies on `xhpke::PublicKey::seal`: a successful call returns a 1120-byte
/// encapsulated key and a ciphertext that `xhpke::SecretKey::open` under a
/// secret key with this public half, the same authenticated data and the same
/// domain returns the plaintext from.
#[verifier::external_body]
fn xhpke_seal_bytes(pk: &Vec<u8>, pt: &Vec<u8>, aad: &Vec<u8>, domain: &Vec<u8>) -> (r: Option<
    (Vec<u8>, Vec<u8>),
>)
    requires
        pk@.len() == XHPKE_PUBLIC_KEY_SIZE,
        xhpke_key_wf(pk@),
    ensures
        r matches Some(t) ==> t.0@.len() == XHPKE_ENCAP_KEY_SIZE && forall|seed: Seq<u8>|
            xhpke_public_of(seed) == pk@ ==> xhpke_open_of(seed, t.0@, t.1@, aad@, domain@) == Some(
                pt@,
            ),
{
    let pk: [u8; 1216] = pk.as_slice().try_into().unwrap();
    let key = darkbio_crypto::xhpke::PublicKey::from_bytes(&pk).unwrap();
    match key.seal(pt.as_slice(), aad.as_slice(), domain.as_slice()) {
        Ok((encap, ct)) => Some((encap.to_vec(), ct)),
        Err(_) => None,
    }
}

/// Relies on `xhpke::SecretKey::open`: acceptance and the returned plaintext
/// are a deterministic function of the seed, encapsulated key, ciphertext,
/// authenticated data and domain.
#[verifier::external_body]
fn xhpke_open_bytes(
    seed: &Vec<u8>,
    encap: &Vec<u8>,
    ct: &Vec<u8>,
    aad: &Vec<u8>,
    domain: &Vec<u8>,
) -> (r: Option<Vec<u8>>)
    requires
        seed@.len() == XHPKE_SECRET_KEY_SIZE,
        encap@.len() == XHPKE_ENCAP_KEY_SIZE,
    ensures
        r matches Some(p) ==> xhpke_open_of(seed@, encap@, ct@, aad@, domain@) == Some(p@),
        r is None ==> xhpke_open_of(seed@, encap@, ct@, aad@, domain@) is None,
{
    let seed: [u8; 32] = seed.as_slice().try_into().unwrap();
    let key = darkbio_crypto::xhpke::SecretKey::from_bytes(&seed);
    let encap: [u8; 1120] = encap.as_slice().try_into().unwrap();
    key.open(&encap, ct.as_slice(), aad.as_slice(), domain.as_slice()).ok()
}

} // verus!
