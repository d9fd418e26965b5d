//! Short-lived identity certificates: a canonical record binding a subject
//! public key, a validity window and identity names, signed by the issuer
//! through the envelope engine's signing primitive. Certificates are issued
//! once and immutable; validation recomputes the issuer's signature over the
//! whole record. Current time is deliberately not checked here: a
//! certificate's validity window is a statement about a period, and
//! enforcing it against a clock — or against a message's own timestamp — is
//! the caller's responsibility.

use vstd::prelude::*;

use crate::codec::{
    enc_arr, enc_bstr, hdr, is_match_at, lemma_match_join, lemma_match_split, parse_bstr,
    parse_hdr, push_bstr, push_hdr, CBOR_NULL,
};
use crate::cose::{cose_sign_at, cose_verify_at, sign_produced, verify_ok, lemma_sign_then_verify};
use crate::errors::{CertError, CoseError};
use crate::xdsa::{xdsa_key_wf, xdsa_public_of, XdsaPublicKey, XdsaSecretKey};
use crate::xhpke::{xhpke_key_wf, XhpkePublicKey};

verus! {

/// The fixed domain separator under which every certificate is signed, so
/// that certificate signatures can never be confused with message
/// signatures under the same key.
pub open spec fn cert_domain() -> Seq<u8> {
    seq![105u8, 100, 101, 110, 116, 105, 116, 121, 45, 99, 101, 114, 116]
}

/// The executable certificate domain separator (`identity-cert` in ASCII).
pub fn build_cert_domain() -> (r: Vec<u8>)
    ensures
        r@ == cert_domain(),
{
    let mut r: Vec<u8> = Vec::new();
    r.push(105);
    r.push(100);
    r.push(101);
    r.push(110);
    r.push(116);
    r.push(105);
    r.push(116);
    r.push(121);
    r.push(45);
    r.push(99);
    r.push(101);
    r.push(114);
    r.push(116);
    proof {
        assert(r@ =~= cert_domain());
    }
    r
}

/// The optional path-length field: an unsigned integer, or null when the
/// certificate carries no constraint.
pub open spec fn path_piece(path_len: Option<u8>) -> Seq<u8> {
    match path_len {
        Some(n) => hdr(0, n as u64),
        None => seq![CBOR_NULL],
    }
}

/// The certificate record: subject name, issuer name, the validity window in
/// Unix seconds, the CA flag, the optional maximum intermediate path length,
/// and the embedded subject public key, in a seven-element array.
pub open spec fn cert_body_enc(
    subject: Seq<u8>,
    issuer: Seq<u8>,
    not_before: u64,
    not_after: u64,
    is_ca: bool,
    path_len: Option<u8>,
    pk: Seq<u8>,
) -> Seq<u8> {
    enc_arr(7) + enc_bstr(subject) + enc_bstr(issuer) + hdr(0, not_before) + hdr(0, not_after)
        + hdr(
        7,
        if is_ca {
            21
        } else {
            20
        },
    ) + path_piece(path_len) + enc_bstr(pk)
}

/// Builds the certificate record.
pub fn build_cert_body(
    subject: &Vec<u8>,
    issuer: &Vec<u8>,
    not_before: u64,
    not_after: u64,
    is_ca: bool,
    path_len: Option<u8>,
    pk: &Vec<u8>,
) -> (r: Vec<u8>)
    ensures
        r@ == cert_body_enc(subject@, issuer@, not_before, not_after, is_ca, path_len, pk@),
{
    let mut r: Vec<u8> = Vec::new();
    push_hdr(&mut r, 4, 7);
    push_bstr(&mut r, subject);
    push_bstr(&mut r, issuer);
    push_hdr(&mut r, 0, not_before);
    push_hdr(&mut r, 0, not_after);
    push_hdr(&mut r, 7, if is_ca {
        21
    } else {
        20
    });
    match path_len {
        Some(n) => push_hdr(&mut r, 0, n as u64),
        None => r.push(CBOR_NULL),
    }
    push_bstr(&mut r, pk);
    proof {
        assert(seq![CBOR_NULL] =~= hdr(7, 22));
        assert(r@ =~= cert_body_enc(subject@, issuer@, not_before, not_after, is_ca, path_len, pk@));
    }
    r
}

/// Splits a certificate-record match into matches of its pieces.
proof fn cert_body_pieces(
    b: Seq<u8>,
    subject: Seq<u8>,
    issuer: Seq<u8>,
    not_before: u64,
    not_after: u64,
    is_ca: bool,
    path_len: Option<u8>,
    pk: Seq<u8>,
)
    requires
        is_match_at(b, 0, cert_body_enc(subject, issuer, not_before, not_after, is_ca, path_len, pk)),
    ensures
        is_match_at(b, 0, enc_arr(7)),
        is_match_at(b, enc_arr(7).len() as int, enc_bstr(subject)),
        is_match_at(b, (enc_arr(7) + enc_bstr(subject)).len() as int, enc_bstr(issuer)),
        is_match_at(
            b,
            (enc_arr(7) + enc_bstr(subject) + enc_bstr(issuer)).len() as int,
            hdr(0, not_before),
        ),
        is_match_at(
            b,
            (enc_arr(7) + enc_bstr(subject) + enc_bstr(issuer) + hdr(0, not_before)).len() as int,
            hdr(0, not_after),
        ),
        is_match_at(
            b,
            (enc_arr(7) + enc_bstr(subject) + enc_bstr(issuer) + hdr(0, not_before) + hdr(
                0,
                not_after,
            )).len() as int,
            hdr(
                7,
                if is_ca {
                    21
                } else {
                    20
                },
            ),
        ),
        is_match_at(
            b,
            (enc_arr(7) + enc_bstr(subject) + enc_bstr(issuer) + hdr(0, not_before) + hdr(
                0,
                not_after,
            ) + hdr(
                7,
                if is_ca {
                    21
                } else {
                    20
                },
            )).len() as int,
            path_piece(path_len),
        ),
        is_match_at(
            b,
            (enc_arr(7) + enc_bstr(subject) + enc_bstr(issuer) + hdr(0, not_before) + hdr(
                0,
                not_after,
            ) + hdr(
                7,
                if is_ca {
                    21
                } else {
                    20
                },
            ) + path_piece(path_len)).len() as int,
            enc_bstr(pk),
        ),
{
    let flag = hdr(
        7,
        if is_ca {
            21
        } else {
            20
        },
    );
    let p1 = enc_arr(7);
    let p2 = p1 + enc_bstr(subject);
    let p3 = p2 + enc_bstr(issuer);
    let p4 = p3 + hdr(0, not_before);
    let p5 = p4 + hdr(0, not_after);
    let p6 = p5 + flag;
    let p7 = p6 + path_piece(path_len);
    lemma_match_split(b, 0, p7, enc_bstr(pk));
    lemma_match_split(b, 0, p6, path_piece(path_len));
    lemma_match_split(b, 0, p5, flag);
    lemma_match_split(b, 0, p4, hdr(0, not_after));
    lemma_match_split(b, 0, p3, hdr(0, not_before));
    lemma_match_split(b, 0, p2, enc_bstr(issuer));
    lemma_match_split(b, 0, p1, enc_bstr(subject));
}

/// Parses a whole buffer as a certificate record. Sound and complete with
/// respect to `cert_body_enc` over subject keys of the two fixed key
/// lengths.
#[verifier::rlimit(100)]
pub fn parse_cert_body(b: &Vec<u8>) -> (r: Option<(Vec<u8>, Vec<u8>, u64, u64, bool, Option<u8>, Vec<u8>)>)
    ensures
        r matches Some(t) ==> (t.6@.len() == 1984 || t.6@.len() == 1216) && b@ == cert_body_enc(
            t.0@,
            t.1@,
            t.2,
            t.3,
            t.4,
            t.5,
            t.6@,
        ),
        forall|
            subject: Seq<u8>,
            issuer: Seq<u8>,
            nb: u64,
            na: u64,
            is_ca: bool,
            path_len: Option<u8>,
            pk: Seq<u8>,
        |
            (pk.len() == 1984 || pk.len() == 1216) && b@ == #[trigger] cert_body_enc(
                subject,
                issuer,
                nb,
                na,
                is_ca,
                path_len,
                pk,
            ) ==> (r matches Some(t) && t.0@ == subject && t.1@ == issuer && t.2 == nb && t.3 == na
                && t.4 == is_ca && t.5 == path_len && t.6@ == pk),
{
    proof {
        assert(seq![CBOR_NULL] =~= hdr(7, 22));
        assert forall|
            subject: Seq<u8>,
            issuer: Seq<u8>,
            nb: u64,
            na: u64,
            is_ca: bool,
            path_len: Option<u8>,
            pk: Seq<u8>,
        |
            b@ == #[trigger] cert_body_enc(subject, issuer, nb, na, is_ca, path_len, pk) implies
        is_match_at(b@, 0, enc_arr(7)) && is_match_at(b@, enc_arr(7).len() as int, enc_bstr(subject))
            && is_match_at(b@, (enc_arr(7) + enc_bstr(subject)).len() as int, enc_bstr(issuer))
            && is_match_at(
            b@,
            (enc_arr(7) + enc_bstr(subject) + enc_bstr(issuer)).len() as int,
            hdr(0, nb),
        ) && is_match_at(
            b@,
            (enc_arr(7) + enc_bstr(subject) + enc_bstr(issuer) + hdr(0, nb)).len() as int,
            hdr(0, na),
        ) && is_match_at(
            b@,
            (enc_arr(7) + enc_bstr(subject) + enc_bstr(issuer) + hdr(0, nb) + hdr(
                0,
                na,
            )).len() as int,
            hdr(
                7,
                if is_ca {
                    21
                } else {
                    20
                },
            ),
        ) && is_match_at(
            b@,
            (enc_arr(7) + enc_bstr(subject) + enc_bstr(issuer) + hdr(0, nb) + hdr(0, na) + hdr(
                7,
                if is_ca {
                    21
                } else {
                    20
                },
            )).len() as int,
            path_piece(path_len),
        ) && is_match_at(
            b@,
            (enc_arr(7) + enc_bstr(subject) + enc_bstr(issuer) + hdr(0, nb) + hdr(0, na) + hdr(
                7,
                if is_ca {
                    21
                } else {
                    20
                },
            ) + path_piece(path_len)).len() as int,
            enc_bstr(pk),
        ) && b@.len() == cert_body_enc(subject, issuer, nb, na, is_ca, path_len, pk).len() && (
        path_len matches Some(n) ==> is_match_at(
            b@,
            (enc_arr(7) + enc_bstr(subject) + enc_bstr(issuer) + hdr(0, nb) + hdr(0, na) + hdr(
                7,
                if is_ca {
                    21
                } else {
                    20
                },
            )).len() as int,
            hdr(0, n as u64),
        )) by {
            assert(b@.subrange(0, b@.len() as int) =~= b@);
            cert_body_pieces(b@, subject, issuer, nb, na, is_ca, path_len, pk);
        }
    }
    let r0 = parse_hdr(b, 0);
    let p0 = match r0 {
        Some((4, 7, p)) => p,
        _ => {
            return None;
        },
    };
    let rs = parse_bstr(b, p0);
    let (subject, p1) = match rs {
        Some(t) => t,
        None => {
            return None;
        },
    };
    let ri = parse_bstr(b, p1);
    let (issuer, p2) = match ri {
        Some(t) => t,
        None => {
            return None;
        },
    };
    let rnb = parse_hdr(b, p2);
    let (nb, p3) = match rnb {
        Some((0, v, p)) => (v, p),
        _ => {
            return None;
        },
    };
    let rna = parse_hdr(b, p3);
    let (na, p4) = match rna {
        Some((0, v, p)) => (v, p),
        _ => {
            return None;
        },
    };
    let rflag = parse_hdr(b, p4);
    let (is_ca, p5) = match rflag {
        Some((7, 21, p)) => (true, p),
        Some((7, 20, p)) => (false, p),
        _ => {
            return None;
        },
    };
    let rpath = parse_hdr(b, p5);
    let (path_len, p6) = match rpath {
        Some((7, 22, p)) => (None, p),
        Some((0, v, p)) => {
            if v <= 255 {
                (Some(v as u8), p)
            } else {
                return None;
            }
        },
        _ => {
            return None;
        },
    };
    let rpk = parse_bstr(b, p6);
    let (pk, p7) = match rpk {
        Some(t) => t,
        None => {
            return None;
        },
    };
    if !(pk.len() == 1984 || pk.len() == 1216) {
        return None;
    }
    if p7 != b.len() {
        return None;
    }
    proof {
        let flag = hdr(
            7,
            if is_ca {
                21
            } else {
                20
            },
        );
        lemma_match_join(b@, 0, enc_arr(7), enc_bstr(subject@));
        lemma_match_join(b@, 0, enc_arr(7) + enc_bstr(subject@), enc_bstr(issuer@));
        lemma_match_join(
            b@,
            0,
            enc_arr(7) + enc_bstr(subject@) + enc_bstr(issuer@),
            hdr(0, nb),
        );
        lemma_match_join(
            b@,
            0,
            enc_arr(7) + enc_bstr(subject@) + enc_bstr(issuer@) + hdr(0, nb),
            hdr(0, na),
        );
        lemma_match_join(
            b@,
            0,
            enc_arr(7) + enc_bstr(subject@) + enc_bstr(issuer@) + hdr(0, nb) + hdr(0, na),
            flag,
        );
        lemma_match_join(
            b@,
            0,
            enc_arr(7) + enc_bstr(subject@) + enc_bstr(issuer@) + hdr(0, nb) + hdr(0, na) + flag,
            path_piece(path_len),
        );
        lemma_match_join(
            b@,
            0,
            enc_arr(7) + enc_bstr(subject@) + enc_bstr(issuer@) + hdr(0, nb) + hdr(0, na) + flag
                + path_piece(path_len),
            enc_bstr(pk@),
        );
        assert(b@ =~= cert_body_enc(subject@, issuer@, nb, na, is_ca, path_len, pk@));
    }
    Some((subject, issuer, nb, na, is_ca, path_len, pk))
}

/// A validated certificate: the embedded subject key encoding, the identity
/// names, the validity window, and the CA constraints.
pub struct ParsedCertificate {
    /// The subject public key, as its fixed-length encoding.
    pub subject_key_bytes: Vec<u8>,
    /// The subject's name bytes.
    pub subject_name: Vec<u8>,
    /// The issuer's name bytes.
    pub issuer_name: Vec<u8>,
    /// Start of the validity window, Unix seconds.
    pub not_before: u64,
    /// End of the validity window, Unix seconds.
    pub not_after: u64,
    /// Whether the certificate marks a certificate authority.
    pub is_ca: bool,
    /// The maximum number of intermediate authorities below this one,
    /// meaningful only when the CA flag is set.
    pub path_len: Option<u8>,
}

/// Issues a certificate: builds the record binding the subject key, names,
/// validity window and CA constraints, and signs it with the issuer's secret
/// key under the fixed certificate domain. Fails exactly when the validity
/// window is inverted.
pub fn issue(
    subject_key_bytes: Vec<u8>,
    issuer: &XdsaSecretKey,
    subject_name: Vec<u8>,
    issuer_name: Vec<u8>,
    not_before: u64,
    not_after: u64,
    is_ca: bool,
    path_len: Option<u8>,
) -> (r: Result<Vec<u8>, CertError>)
    ensures
        not_before > not_after <==> r == Err::<Vec<u8>, CertError>(CertError::InvalidWindow),
        r matches Ok(c) ==> sign_produced(
            c@,
            Some(
                cert_body_enc(
                    subject_name@,
                    issuer_name@,
                    not_before,
                    not_after,
                    is_ca,
                    path_len,
                    subject_key_bytes@,
                ),
            ),
            Seq::empty(),
            xdsa_public_of(issuer@),
            cert_domain(),
            0,
        ),
        not_before <= not_after ==> r matches Ok(_),
{
    if not_before > not_after {
        return Err(CertError::InvalidWindow);
    }
    let body = build_cert_body(
        &subject_name,
        &issuer_name,
        not_before,
        not_after,
        is_ca,
        path_len,
        &subject_key_bytes,
    );
    let aad: Vec<u8> = Vec::new();
    let domain = build_cert_domain();
    let cert = cose_sign_at(body, aad, issuer, domain, 0);
    Ok(cert)
}

/// Parses a certificate and checks the issuer's signature over the whole
/// record, returning the embedded subject key and the validity window.
/// Succeeds exactly on records signed under the given issuer key; the
/// validity window is returned, not compared against any clock.
pub fn parse_and_verify(cert: Vec<u8>, issuer: &XdsaPublicKey) -> (r: Result<
    ParsedCertificate,
    CertError,
>)
    ensures
        r matches Ok(c) ==> (c.subject_key_bytes@.len() == 1984 || c.subject_key_bytes@.len()
            == 1216) && verify_ok(
            cert@,
            cert_body_enc(
                c.subject_name@,
                c.issuer_name@,
                c.not_before,
                c.not_after,
                c.is_ca,
                c.path_len,
                c.subject_key_bytes@,
            ),
            Seq::empty(),
            issuer@,
            cert_domain(),
            None,
            0,
        ),
        forall|
            subject: Seq<u8>,
            issuer_name: Seq<u8>,
            nb: u64,
            na: u64,
            is_ca: bool,
            path_len: Option<u8>,
            pk: Seq<u8>,
        |
            (pk.len() == 1984 || pk.len() == 1216) && verify_ok(
                cert@,
                #[trigger] cert_body_enc(subject, issuer_name, nb, na, is_ca, path_len, pk),
                Seq::empty(),
                issuer@,
                cert_domain(),
                None,
                0,
            ) ==> (r matches Ok(c) && c.subject_name@ == subject && c.issuer_name@ == issuer_name
                && c.not_before == nb && c.not_after == na && c.is_ca == is_ca && c.path_len
                == path_len && c.subject_key_bytes@ == pk),
{
    let aad: Vec<u8> = Vec::new();
    let domain = build_cert_domain();
    let body = match cose_verify_at(cert, aad, issuer, domain, None, 0) {
        Ok(b) => b,
        Err(e) => {
            return Err(
                match e {
                    CoseError::WrongKey => CertError::BadSignature,
                    CoseError::BadSignature => CertError::BadSignature,
                    _ => CertError::Malformed,
                },
            );
        },
    };
    let (subject_name, issuer_name, not_before, not_after, is_ca, path_len, subject_key_bytes) =
        match parse_cert_body(&body) {
        Some(t) => t,
        None => {
            return Err(CertError::Malformed);
        },
    };
    Ok(
        ParsedCertificate {
            subject_key_bytes,
            subject_name,
            issuer_name,
            not_before,
            not_after,
            is_ca,
            path_len,
        },
    )
}

/// The text of a PEM block with the given type label and payload, as the
/// armor encoder renders it.
pub uninterp spec fn pem_of(kind: Seq<char>, data: Seq<u8>) -> Seq<char>;

/// What the PEM armor parser extracts from a text: the block type label and
/// the payload, or nothing when the text is not an armored block.
pub uninterp spec fn pem_parsed_of(s: Seq<char>) -> Option<(Seq<char>, Seq<u8>)>;

/// Relies on `pem::encode`: the armored text is a function of the label and
/// the payload, and `pem::decode` parses it back to exactly that label and
/// payload. The round trip needs a nonempty label free of line breaks: a
/// break inside the label would split the armor's first line, and the parser
/// refuses an empty block type, so both are excluded here.
#[verifier::external_body]
fn pem_encode(kind: &str, data: &Vec<u8>) -> (r: String)
    requires
        data@.len() > 0,
        kind@.len() > 0,
        forall|i: int| 0 <= i < kind@.len() ==> kind@[i] != '\n',
    ensures
        r@ == pem_of(kind@, data@),
        pem_parsed_of(r@) == Some((kind@, data@)),
{
    darkbio_crypto::pem::encode(kind, data.as_slice())
}

/// Relies on `pem::decode`: what it extracts is a function of the text
/// alone.
#[verifier::external_body]
fn pem_decode(s: &str) -> (r: Option<(String, Vec<u8>)>)
    ensures
        r matches Some(t) ==> pem_parsed_of(s@) == Some((t.0@, t.1@)),
        r is None ==> pem_parsed_of(s@) is None,
{
    match darkbio_crypto::pem::decode(s.as_bytes()) {
        Ok((kind, data)) => Some((kind, data.to_vec())),
        Err(_) => None,
    }
}

/// A certificate carrying `pk` with window `[nb, na]` validates under
/// `issuer` for some names and constraints.
pub open spec fn cert_validated(der: Seq<u8>, issuer: Seq<u8>, pk: Seq<u8>, nb: u64, na: u64) -> bool {
    exists|subject: Seq<u8>, issuer_name: Seq<u8>, is_ca: bool, path_len: Option<u8>|
        verify_ok(
            der,
            #[trigger] cert_body_enc(subject, issuer_name, nb, na, is_ca, path_len, pk),
            Seq::empty(),
            issuer,
            cert_domain(),
            None,
            0,
        )
}

impl XdsaPublicKey {
    /// Issues a certificate for this public key, signed by the given secret
    /// key, with the given names, validity window and CA constraints. Fails
    /// exactly when the window is inverted.
    pub fn to_cert_der(
        &self,
        signer: &XdsaSecretKey,
        subject_name: Vec<u8>,
        issuer_name: Vec<u8>,
        not_before: u64,
        not_after: u64,
        is_ca: bool,
        path_len: Option<u8>,
    ) -> (r: Result<Vec<u8>, CertError>)
        ensures
            not_before > not_after <==> r == Err::<Vec<u8>, CertError>(CertError::InvalidWindow),
            r matches Ok(c) ==> sign_produced(
                c@,
                Some(
                    cert_body_enc(
                        subject_name@,
                        issuer_name@,
                        not_before,
                        not_after,
                        is_ca,
                        path_len,
                        self@,
                    ),
                ),
                Seq::empty(),
                xdsa_public_of(signer@),
                cert_domain(),
                0,
            ),
            not_before <= not_after ==> r matches Ok(_),
    {
        issue(
            self.to_bytes(),
            signer,
            subject_name,
            issuer_name,
            not_before,
            not_after,
            is_ca,
            path_len,
        )
    }

    /// Issues a certificate for this public key as armored text.
    pub fn to_cert_pem(
        &self,
        signer: &XdsaSecretKey,
        subject_name: Vec<u8>,
        issuer_name: Vec<u8>,
        not_before: u64,
        not_after: u64,
        is_ca: bool,
        path_len: Option<u8>,
    ) -> (r: Result<String, CertError>)
        ensures
            not_before > not_after <==> r == Err::<String, CertError>(CertError::InvalidWindow),
            r matches Ok(s) ==> exists|der: Seq<u8>|
                s@ == #[trigger] pem_of("CERTIFICATE"@, der) && pem_parsed_of(s@) == Some(
                    ("CERTIFICATE"@, der),
                ) && sign_produced(
                    der,
                    Some(
                        cert_body_enc(
                            subject_name@,
                            issuer_name@,
                            not_before,
                            not_after,
                            is_ca,
                            path_len,
                            self@,
                        ),
                    ),
                    Seq::empty(),
                    xdsa_public_of(signer@),
                    cert_domain(),
                    0,
                ),
            not_before <= not_after ==> r matches Ok(_),
    {
        let der = match self.to_cert_der(
            signer,
            subject_name,
            issuer_name,
            not_before,
            not_after,
            is_ca,
            path_len,
        ) {
            Ok(d) => d,
            Err(e) => {
                return Err(e);
            },
        };
        proof {
            lemma_cert_nonempty(
                der@,
                subject_name@,
                issuer_name@,
                not_before,
                not_after,
                is_ca,
                path_len,
                self@,
                xdsa_public_of(signer@),
            );
        }
        proof {
            reveal_strlit("CERTIFICATE");
            assert("CERTIFICATE"@ =~= seq![
                'C', 'E', 'R', 'T', 'I', 'F', 'I', 'C', 'A', 'T', 'E',
            ]);
        }
        Ok(pem_encode("CERTIFICATE", &der))
    }

    /// Parses a certificate, checks the issuer's signature, and returns the
    /// embedded signature public key with its validity window.
    pub fn from_cert_der(der: Vec<u8>, signer: &XdsaPublicKey) -> (r: Result<
        (XdsaPublicKey, u64, u64),
        CertError,
    >)
        ensures
            r matches Ok(t) ==> cert_validated(der@, signer@, t.0@, t.1, t.2),
            forall|
                subject: Seq<u8>,
                issuer_name: Seq<u8>,
                nb: u64,
                na: u64,
                is_ca: bool,
                path_len: Option<u8>,
                pk: Seq<u8>,
            |
                pk.len() == 1984 && xdsa_key_wf(pk) && verify_ok(
                    der@,
                    #[trigger] cert_body_enc(subject, issuer_name, nb, na, is_ca, path_len, pk),
                    Seq::empty(),
                    signer@,
                    cert_domain(),
                    None,
                    0,
                ) ==> (r matches Ok(t) && t.0@ == pk && t.1 == nb && t.2 == na),
    {
        let c = match parse_and_verify(der, signer) {
            Ok(c) => c,
            Err(e) => {
                return Err(e);
            },
        };
        let key = match XdsaPublicKey::from_bytes(c.subject_key_bytes) {
            Ok(k) => k,
            Err(_) => {
                return Err(CertError::Malformed);
            },
        };
        proof {
            assert(cert_validated(der@, signer@, key@, c.not_before, c.not_after));
        }
        Ok((key, c.not_before, c.not_after))
    }

    /// Parses an armored certificate, checks the issuer's signature, and
    /// returns the embedded signature public key with its validity window.
    pub fn from_cert_pem(pem: String, signer: &XdsaPublicKey) -> (r: Result<
        (XdsaPublicKey, u64, u64),
        CertError,
    >)
        ensures
            r matches Ok(t) ==> (pem_parsed_of(pem@) matches Some(b) && b.0 == "CERTIFICATE"@
                && cert_validated(b.1, signer@, t.0@, t.1, t.2)),
            forall|
                subject: Seq<u8>,
                issuer_name: Seq<u8>,
                nb: u64,
                na: u64,
                is_ca: bool,
                path_len: Option<u8>,
                pk: Seq<u8>,
                der: Seq<u8>,
            |
                pem_parsed_of(pem@) == Some(("CERTIFICATE"@, der)) && pk.len() == 1984
                    && xdsa_key_wf(pk) && #[trigger] verify_ok(
                    der,
                    cert_body_enc(subject, issuer_name, nb, na, is_ca, path_len, pk),
                    Seq::empty(),
                    signer@,
                    cert_domain(),
                    None,
                    0,
                ) ==> (r matches Ok(t) && t.0@ == pk && t.1 == nb && t.2 == na),
    {
        let (kind, der) = match pem_decode(pem.as_str()) {
            Some(t) => t,
            None => {
                return Err(CertError::Malformed);
            },
        };
        if !(kind == String::from_str("CERTIFICATE")) {
            proof {
                reveal_strlit("CERTIFICATE");
            }
            return Err(CertError::Malformed);
        }
        XdsaPublicKey::from_cert_der(der, signer)
    }
}

impl XhpkePublicKey {
    /// Issues a certificate for this public key, signed by the given
    /// signature secret key, with the given names, validity window and CA
    /// constraints. Fails exactly when the window is inverted.
    pub fn to_cert_der(
        &self,
        signer: &XdsaSecretKey,
        subject_name: Vec<u8>,
        issuer_name: Vec<u8>,
        not_before: u64,
        not_after: u64,
        is_ca: bool,
        path_len: Option<u8>,
    ) -> (r: Result<Vec<u8>, CertError>)
        ensures
            not_before > not_after <==> r == Err::<Vec<u8>, CertError>(CertError::InvalidWindow),
            r matches Ok(c) ==> sign_produced(
                c@,
                Some(
                    cert_body_enc(
                        subject_name@,
                        issuer_name@,
                        not_before,
                        not_after,
                        is_ca,
                        path_len,
                        self@,
                    ),
                ),
                Seq::empty(),
                xdsa_public_of(signer@),
                cert_domain(),
                0,
            ),
            not_before <= not_after ==> r matches Ok(_),
    {
        issue(
            self.to_bytes(),
            signer,
            subject_name,
            issuer_name,
            not_before,
            not_after,
            is_ca,
            path_len,
        )
    }

    /// Issues a certificate for this public key as armored text.
    pub fn to_cert_pem(
        &self,
        signer: &XdsaSecretKey,
        subject_name: Vec<u8>,
        issuer_name: Vec<u8>,
        not_before: u64,
        not_after: u64,
        is_ca: bool,
        path_len: Option<u8>,
    ) -> (r: Result<String, CertError>)
        ensures
            not_before > not_after <==> r == Err::<String, CertError>(CertError::InvalidWindow),
            r matches Ok(s) ==> exists|der: Seq<u8>|
                s@ == #[trigger] pem_of("CERTIFICATE"@, der) && pem_parsed_of(s@) == Some(
                    ("CERTIFICATE"@, der),
                ) && sign_produced(
                    der,
                    Some(
                        cert_body_enc(
                            subject_name@,
                            issuer_name@,
                            not_before,
                            not_after,
                            is_ca,
                            path_len,
                            self@,
                        ),
                    ),
                    Seq::empty(),
                    xdsa_public_of(signer@),
                    cert_domain(),
                    0,
                ),
            not_before <= not_after ==> r matches Ok(_),
    {
        let der = match self.to_cert_der(
            signer,
            subject_name,
            issuer_name,
            not_before,
            not_after,
            is_ca,
            path_len,
        ) {
            Ok(d) => d,
            Err(e) => {
                return Err(e);
            },
        };
        proof {
            lemma_cert_nonempty(
                der@,
                subject_name@,
                issuer_name@,
                not_before,
                not_after,
                is_ca,
                path_len,
                self@,
                xdsa_public_of(signer@),
            );
        }
        proof {
            reveal_strlit("CERTIFICATE");
            assert("CERTIFICATE"@ =~= seq![
                'C', 'E', 'R', 'T', 'I', 'F', 'I', 'C', 'A', 'T', 'E',
            ]);
        }
        Ok(pem_encode("CERTIFICATE", &der))
    }

    /// Parses a certificate, checks the issuer's signature, and returns the
    /// embedded encryption public key with its validity window.
    pub fn from_cert_der(der: Vec<u8>, signer: &XdsaPublicKey) -> (r: Result<
        (XhpkePublicKey, u64, u64),
        CertError,
    >)
        ensures
            r matches Ok(t) ==> cert_validated(der@, signer@, t.0@, t.1, t.2),
            forall|
                subject: Seq<u8>,
                issuer_name: Seq<u8>,
                nb: u64,
                na: u64,
                is_ca: bool,
                path_len: Option<u8>,
                pk: Seq<u8>,
            |
                pk.len() == 1216 && xhpke_key_wf(pk) && verify_ok(
                    der@,
                    #[trigger] cert_body_enc(subject, issuer_name, nb, na, is_ca, path_len, pk),
                    Seq::empty(),
                    signer@,
                    cert_domain(),
                    None,
                    0,
                ) ==> (r matches Ok(t) && t.0@ == pk && t.1 == nb && t.2 == na),
    {
        let c = match parse_and_verify(der, signer) {
            Ok(c) => c,
            Err(e) => {
                return Err(e);
            },
        };
        let key = match XhpkePublicKey::from_bytes(c.subject_key_bytes) {
            Ok(k) => k,
            Err(_) => {
                return Err(CertError::Malformed);
            },
        };
        proof {
            assert(cert_validated(der@, signer@, key@, c.not_before, c.not_after));
        }
        Ok((key, c.not_before, c.not_after))
    }

    /// Parses an armored certificate, checks the issuer's signature, and
    /// returns the embedded encryption public key with its validity window.
    pub fn from_cert_pem(pem: String, signer: &XdsaPublicKey) -> (r: Result<
        (XhpkePublicKey, u64, u64),
        CertError,
    >)
        ensures
            r matches Ok(t) ==> (pem_parsed_of(pem@) matches Some(b) && b.0 == "CERTIFICATE"@
                && cert_validated(b.1, signer@, t.0@, t.1, t.2)),
            forall|
                subject: Seq<u8>,
                issuer_name: Seq<u8>,
                nb: u64,
                na: u64,
                is_ca: bool,
                path_len: Option<u8>,
                pk: Seq<u8>,
                der: Seq<u8>,
            |
                pem_parsed_of(pem@) == Some(("CERTIFICATE"@, der)) && pk.len() == 1216
                    && xhpke_key_wf(pk) && #[trigger] verify_ok(
                    der,
                    cert_body_enc(subject, issuer_name, nb, na, is_ca, path_len, pk),
                    Seq::empty(),
                    signer@,
                    cert_domain(),
                    None,
                    0,
                ) ==> (r matches Ok(t) && t.0@ == pk && t.1 == nb && t.2 == na),
    {
        let (kind, der) = match pem_decode(pem.as_str()) {
            Some(t) => t,
            None => {
                return Err(CertError::Malformed);
            },
        };
        if !(kind == String::from_str("CERTIFICATE")) {
            proof {
                reveal_strlit("CERTIFICATE");
            }
            return Err(CertError::Malformed);
        }
        XhpkePublicKey::from_cert_der(der, signer)
    }
}

/// A signed certificate is never an empty byte string.
proof fn lemma_cert_nonempty(
    cert: Seq<u8>,
    subject: Seq<u8>,
    issuer_name: Seq<u8>,
    not_before: u64,
    not_after: u64,
    is_ca: bool,
    path_len: Option<u8>,
    pk: Seq<u8>,
    issuer_pk: Seq<u8>,
)
    requires
        sign_produced(
            cert,
            Some(cert_body_enc(subject, issuer_name, not_before, not_after, is_ca, path_len, pk)),
            Seq::empty(),
            issuer_pk,
            cert_domain(),
            0,
        ),
    ensures
        cert.len() > 0,
{
    let body = cert_body_enc(subject, issuer_name, not_before, not_after, is_ca, path_len, pk);
    let sig = choose|sig: Seq<u8>|
        sig.len() == 3373 && cert == #[trigger] crate::format::sign1_enc(
            crate::format::sig_protected(
                crate::xdsa::xdsa_fingerprint_of(issuer_pk),
                0,
            ),
            Some(body),
            sig,
        ) && crate::xdsa::xdsa_sig_ok(
            issuer_pk,
            crate::format::sig_blob(
                crate::format::sig_protected(crate::xdsa::xdsa_fingerprint_of(issuer_pk), 0),
                crate::format::aad_env(cert_domain(), Seq::empty()),
                crate::cose::payload_bytes(Some(body)),
            ),
            sig,
        );
    crate::codec::lemma_hdr_len(4, 4);
}

/// Issuance then validation round-trips: a certificate issued under an
/// issuer key validates against that issuer's public key and yields back the
/// subject key, names, window and constraints, for every field assignment
/// with a well-ordered window.
pub proof fn lemma_issue_then_parse(
    cert: Seq<u8>,
    subject: Seq<u8>,
    issuer_name: Seq<u8>,
    not_before: u64,
    not_after: u64,
    is_ca: bool,
    path_len: Option<u8>,
    pk: Seq<u8>,
    issuer_pk: Seq<u8>,
)
    requires
        sign_produced(
            cert,
            Some(cert_body_enc(subject, issuer_name, not_before, not_after, is_ca, path_len, pk)),
            Seq::empty(),
            issuer_pk,
            cert_domain(),
            0,
        ),
    ensures
        verify_ok(
            cert,
            cert_body_enc(subject, issuer_name, not_before, not_after, is_ca, path_len, pk),
            Seq::empty(),
            issuer_pk,
            cert_domain(),
            None,
            0,
        ),
{
    lemma_sign_then_verify(
        cert,
        cert_body_enc(subject, issuer_name, not_before, not_after, is_ca, path_len, pk),
        Seq::empty(),
        issuer_pk,
        cert_domain(),
        0,
        None,
        0,
    );
}

} // verus!
