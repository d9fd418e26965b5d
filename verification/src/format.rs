//! The wire format of the envelope layer: the protected headers, the signed
//! and encrypted envelope records, and the signature and encryption input
//! structures, all as canonical byte strings of the codec.
//!
//! Every structure has a spec function giving its exact bytes, an executable
//! builder proved to emit those bytes, and (where the engine parses) an
//! executable parser proved sound and complete against the spec function.

use vstd::prelude::*;

use crate::codec::{
    enc_arr, enc_bstr, enc_i64, enc_map, enc_tstr, hdr, is_match_at, lemma_match_join,
    lemma_match_split, parse_bstr, parse_hdr, parse_i64, push_bstr, push_hdr, push_i64, push_vec,
};

verus! {

/// Private algorithm identifier of the composite signature scheme.
pub const ALGORITHM_ID_XDSA: i64 = -70000;

/// Private algorithm identifier of the hybrid encryption scheme.
pub const ALGORITHM_ID_XHPKE: i64 = -70001;

/// Private protected-header label of the signature timestamp.
pub const HEADER_TIMESTAMP: i64 = -70002;

/// Unprotected-header label carrying the encapsulated session key.
pub const HEADER_ENCAP_KEY: i64 = -4;

/// The fixed prefix joined to the caller's domain separator, so that domains
/// of this protocol family never collide with other users of the same keys.
pub open spec fn domain_prefix() -> Seq<u8> {
    seq![100u8, 97, 114, 107, 45, 98, 105, 111, 45, 118, 49, 58]
}

/// The context string of a signature input structure.
pub open spec fn sig_context() -> Seq<u8> {
    seq![83u8, 105, 103, 110, 97, 116, 117, 114, 101, 49]
}

/// The context string of an encryption input structure.
pub open spec fn enc_context() -> Seq<u8> {
    seq![69u8, 110, 99, 114, 121, 112, 116, 48]
}

/// The protected header of a signed envelope: a four-entry map holding an
/// algorithm identifier, the critical-header list, the signer's fingerprint,
/// and a timestamp, in canonical key order.
pub open spec fn sig_protected_gen(alg: i64, crit: i64, kid: Seq<u8>, ts: i64) -> Seq<u8> {
    enc_map(4) + enc_i64(1) + enc_i64(alg) + enc_i64(2) + enc_arr(1) + enc_i64(crit) + enc_i64(4)
        + enc_bstr(kid) + enc_i64(HEADER_TIMESTAMP) + enc_i64(ts)
}

/// The protected header an honest signer emits: the composite signature
/// algorithm, the timestamp label marked critical, the given fingerprint and
/// timestamp.
pub open spec fn sig_protected(kid: Seq<u8>, ts: i64) -> Seq<u8> {
    sig_protected_gen(ALGORITHM_ID_XDSA, HEADER_TIMESTAMP, kid, ts)
}

/// The externally supplied authenticated data as bound into the signature:
/// the prefixed domain and the caller's message, each a byte string, in a
/// two-element array.
pub open spec fn aad_env(domain: Seq<u8>, msg: Seq<u8>) -> Seq<u8> {
    enc_arr(2) + enc_bstr(domain_prefix() + domain) + enc_bstr(msg)
}

/// The signature input: context string, protected header, external
/// authenticated data, and the embedded (or empty, when detached) payload.
/// The signature of an envelope is computed over exactly these bytes; any
/// reordering or omission breaks verification.
pub open spec fn sig_blob(protected: Seq<u8>, ext_aad: Seq<u8>, payload: Seq<u8>) -> Seq<u8> {
    enc_arr(4) + enc_tstr(sig_context()) + enc_bstr(protected) + enc_bstr(ext_aad) + enc_bstr(
        payload,
    )
}

/// The view of an optional byte vector as an optional byte string.
pub open spec fn opt_view(p: Option<Vec<u8>>) -> Option<Seq<u8>> {
    match p {
        Some(v) => Some(v@),
        None => None,
    }
}

/// The payload field of a signed envelope: an embedded payload as a byte
/// string, or a null placeholder marking a detached payload.
pub open spec fn payload_piece(payload: Option<Seq<u8>>) -> Seq<u8> {
    match payload {
        Some(p) => enc_bstr(p),
        None => seq![crate::codec::CBOR_NULL],
    }
}

/// A signed envelope: protected header, empty unprotected header map, an
/// embedded payload or a null placeholder marking a detached payload, and the
/// signature.
pub open spec fn sign1_enc(protected: Seq<u8>, payload: Option<Seq<u8>>, sig: Seq<u8>) -> Seq<u8> {
    enc_arr(4) + enc_bstr(protected) + enc_map(0) + payload_piece(payload) + enc_bstr(sig)
}

/// The protected header of an encrypted envelope: algorithm identifier and
/// the recipient's fingerprint.
pub open spec fn enc_protected_gen(alg: i64, kid: Seq<u8>) -> Seq<u8> {
    enc_map(2) + enc_i64(1) + enc_i64(alg) + enc_i64(4) + enc_bstr(kid)
}

/// The protected header an honest sender emits.
pub open spec fn enc_protected(kid: Seq<u8>) -> Seq<u8> {
    enc_protected_gen(ALGORITHM_ID_XHPKE, kid)
}

/// The encryption input structure, passed to the hybrid encryption layer as
/// its authenticated data: context string, protected header, and the caller's
/// message wrapped twice (once as a byte string value, once as the byte
/// string field holding it).
pub open spec fn enc_blob(protected: Seq<u8>, msg: Seq<u8>) -> Seq<u8> {
    enc_arr(3) + enc_tstr(enc_context()) + enc_bstr(protected) + enc_bstr(enc_bstr(msg))
}

/// An encrypted envelope: protected header, the unprotected header map
/// holding the encapsulated session key, and the ciphertext.
pub open spec fn encrypt0_enc(protected: Seq<u8>, encap: Seq<u8>, ct: Seq<u8>) -> Seq<u8> {
    enc_arr(3) + enc_bstr(protected) + enc_map(1) + enc_i64(HEADER_ENCAP_KEY) + enc_bstr(encap)
        + enc_bstr(ct)
}

/// The executable prefixed domain: `domain_prefix() + domain`.
pub fn build_info(domain: &Vec<u8>) -> (r: Vec<u8>)
    ensures
        r@ == domain_prefix() + domain@,
{
    let mut r: Vec<u8> = Vec::new();
    r.push(100);
    r.push(97);
    r.push(114);
    r.push(107);
    r.push(45);
    r.push(98);
    r.push(105);
    r.push(111);
    r.push(45);
    r.push(118);
    r.push(49);
    r.push(58);
    proof {
        assert(r@ =~= domain_prefix());
    }
    push_vec(&mut r, domain);
    r
}

/// Builds the protected header of a signed envelope.
pub fn build_sig_protected(kid: &Vec<u8>, ts: i64) -> (r: Vec<u8>)
    ensures
        r@ == sig_protected(kid@, ts),
{
    let mut r: Vec<u8> = Vec::new();
    push_hdr(&mut r, 5, 4);
    push_i64(&mut r, 1);
    push_i64(&mut r, ALGORITHM_ID_XDSA);
    push_i64(&mut r, 2);
    push_hdr(&mut r, 4, 1);
    push_i64(&mut r, HEADER_TIMESTAMP);
    push_i64(&mut r, 4);
    push_bstr(&mut r, kid);
    push_i64(&mut r, HEADER_TIMESTAMP);
    push_i64(&mut r, ts);
    proof {
        assert(r@ =~= sig_protected(kid@, ts));
    }
    r
}

/// Builds the external authenticated data structure.
pub fn build_aad_env(domain: &Vec<u8>, msg: &Vec<u8>) -> (r: Vec<u8>)
    ensures
        r@ == aad_env(domain@, msg@),
{
    let info = build_info(domain);
    let mut r: Vec<u8> = Vec::new();
    push_hdr(&mut r, 4, 2);
    push_bstr(&mut r, &info);
    push_bstr(&mut r, msg);
    proof {
        assert(r@ =~= aad_env(domain@, msg@));
    }
    r
}

/// Builds the signature input over a protected header, external authenticated
/// data, and a payload (empty for detached signatures).
pub fn build_sig_blob(protected: &Vec<u8>, ext_aad: &Vec<u8>, payload: &Vec<u8>) -> (r: Vec<u8>)
    ensures
        r@ == sig_blob(protected@, ext_aad@, payload@),
{
    let mut r: Vec<u8> = Vec::new();
    push_hdr(&mut r, 4, 4);
    push_hdr(&mut r, 3, 10);
    r.push(83);
    r.push(105);
    r.push(103);
    r.push(110);
    r.push(97);
    r.push(116);
    r.push(117);
    r.push(114);
    r.push(101);
    r.push(49);
    proof {
        assert(r@ =~= enc_arr(4) + enc_tstr(sig_context()));
    }
    push_bstr(&mut r, protected);
    push_bstr(&mut r, ext_aad);
    push_bstr(&mut r, payload);
    proof {
        assert(r@ =~= sig_blob(protected@, ext_aad@, payload@));
    }
    r
}

/// Builds a signed envelope from its three parts.
pub fn build_sign1(protected: &Vec<u8>, payload: &Option<Vec<u8>>, sig: &Vec<u8>) -> (r: Vec<u8>)
    ensures
        r@ == sign1_enc(protected@, opt_view(*payload), sig@),
{
    let mut r: Vec<u8> = Vec::new();
    push_hdr(&mut r, 4, 4);
    push_bstr(&mut r, protected);
    push_hdr(&mut r, 5, 0);
    match payload {
        Some(p) => push_bstr(&mut r, p),
        None => r.push(crate::codec::CBOR_NULL),
    }
    push_bstr(&mut r, sig);
    proof {
        assert(r@ =~= sign1_enc(protected@, opt_view(*payload), sig@));
    }
    r
}

/// Builds the protected header of an encrypted envelope.
pub fn build_enc_protected(kid: &Vec<u8>) -> (r: Vec<u8>)
    ensures
        r@ == enc_protected(kid@),
{
    let mut r: Vec<u8> = Vec::new();
    push_hdr(&mut r, 5, 2);
    push_i64(&mut r, 1);
    push_i64(&mut r, ALGORITHM_ID_XHPKE);
    push_i64(&mut r, 4);
    push_bstr(&mut r, kid);
    proof {
        assert(r@ =~= enc_protected(kid@));
    }
    r
}

/// Builds the encryption input structure handed to the hybrid encryption
/// layer as authenticated data.
pub fn build_enc_blob(protected: &Vec<u8>, msg: &Vec<u8>) -> (r: Vec<u8>)
    ensures
        r@ == enc_blob(protected@, msg@),
{
    let mut inner: Vec<u8> = Vec::new();
    push_bstr(&mut inner, msg);
    let mut r: Vec<u8> = Vec::new();
    push_hdr(&mut r, 4, 3);
    push_hdr(&mut r, 3, 8);
    r.push(69);
    r.push(110);
    r.push(99);
    r.push(114);
    r.push(121);
    r.push(112);
    r.push(116);
    r.push(48);
    proof {
        assert(r@ =~= enc_arr(3) + enc_tstr(enc_context()));
    }
    push_bstr(&mut r, protected);
    push_bstr(&mut r, &inner);
    proof {
        assert(r@ =~= enc_blob(protected@, msg@));
    }
    r
}

/// The three parts of a parsed signed envelope.
pub struct Sign1Parts {
    /// The protected header bytes, still encoded.
    pub protected: Vec<u8>,
    /// The embedded payload, or none for a detached envelope.
    pub payload: Option<Vec<u8>>,
    /// The signature bytes.
    pub signature: Vec<u8>,
}

/// Splits a signed-envelope match into matches of its pieces.
proof fn sign1_pieces(b: Seq<u8>, prot: Seq<u8>, pay: Option<Seq<u8>>, sig: Seq<u8>)
    requires
        is_match_at(b, 0, sign1_enc(prot, pay, sig)),
    ensures
        is_match_at(b, 0, enc_arr(4)),
        is_match_at(b, enc_arr(4).len() as int, enc_bstr(prot)),
        is_match_at(b, (enc_arr(4) + enc_bstr(prot)).len() as int, enc_map(0)),
        is_match_at(
            b,
            (enc_arr(4) + enc_bstr(prot) + enc_map(0)).len() as int,
            payload_piece(pay),
        ),
        is_match_at(
            b,
            (enc_arr(4) + enc_bstr(prot) + enc_map(0) + payload_piece(pay)).len() as int,
            enc_bstr(sig),
        ),
{
    lemma_match_split(
        b,
        0,
        enc_arr(4) + enc_bstr(prot) + enc_map(0) + payload_piece(pay),
        enc_bstr(sig),
    );
    lemma_match_split(b, 0, enc_arr(4) + enc_bstr(prot) + enc_map(0), payload_piece(pay));
    lemma_match_split(b, 0, enc_arr(4) + enc_bstr(prot), enc_map(0));
    lemma_match_split(b, 0, enc_arr(4), enc_bstr(prot));
}

/// The protected-header field of a signed envelope is determined by the
/// envelope bytes: two decompositions of the same buffer carry the same
/// header.
pub proof fn lemma_sign1_protected_unique(
    env: Seq<u8>,
    prot1: Seq<u8>,
    pay1: Option<Seq<u8>>,
    sig1: Seq<u8>,
    prot2: Seq<u8>,
    pay2: Option<Seq<u8>>,
    sig2: Seq<u8>,
)
    requires
        is_match_at(env, 0, sign1_enc(prot1, pay1, sig1)),
        is_match_at(env, 0, sign1_enc(prot2, pay2, sig2)),
        prot1.len() <= u64::MAX,
        prot2.len() <= u64::MAX,
    ensures
        prot1 == prot2,
{
    sign1_pieces(env, prot1, pay1, sig1);
    sign1_pieces(env, prot2, pay2, sig2);
    crate::codec::lemma_bstr_unique(env, enc_arr(4).len() as int, prot1, prot2);
}

/// A signature protected header with the canonical algorithm, critical list
/// and key identifier pins its timestamp down.
pub proof fn lemma_sig_protected_ts_unique(prot: Seq<u8>, kid: Seq<u8>, ts1: i64, ts2: i64)
    requires
        prot == sig_protected(kid, ts1),
        prot == sig_protected(kid, ts2),
    ensures
        ts1 == ts2,
{
    assert(prot.subrange(0, prot.len() as int) =~= prot);
    sig_protected_pieces(prot, ALGORITHM_ID_XDSA, HEADER_TIMESTAMP, kid, ts1);
    sig_protected_pieces(prot, ALGORITHM_ID_XDSA, HEADER_TIMESTAMP, kid, ts2);
    crate::codec::lemma_i64_unique(
        prot,
        (enc_map(4) + enc_i64(1) + enc_i64(ALGORITHM_ID_XDSA) + enc_i64(2) + enc_arr(1) + enc_i64(
            HEADER_TIMESTAMP,
        ) + enc_i64(4) + enc_bstr(kid) + enc_i64(HEADER_TIMESTAMP)).len() as int,
        ts1,
        ts2,
    );
}

/// A signature protected header over a 32-byte key identifier is under a
/// hundred bytes.
pub proof fn lemma_sig_protected_len_bound(kid: Seq<u8>, ts: i64)
    requires
        kid.len() == 32,
    ensures
        sig_protected(kid, ts).len() <= 100,
{
    crate::codec::lemma_hdr_len(5, 4);
    crate::codec::lemma_hdr_len(0, 1);
    crate::codec::lemma_hdr_len(0, 2);
    crate::codec::lemma_hdr_len(0, 4);
    crate::codec::lemma_hdr_len(4, 1);
    crate::codec::lemma_hdr_len(1, 69999);
    crate::codec::lemma_hdr_len(1, 70001);
    crate::codec::lemma_hdr_len(2, 32);
    if ts >= 0 {
        crate::codec::lemma_hdr_len(0, ts as u64);
    } else {
        crate::codec::lemma_hdr_len(1, (-1 - ts) as u64);
    }
}

/// Parses one signed envelope starting at offset zero, returning its parts
/// and the offset just past it. Sound and complete with respect to
/// `sign1_enc` over signatures of the fixed length.
#[verifier::rlimit(100)]
pub fn parse_sign1_prefix(b: &Vec<u8>) -> (r: Option<(Sign1Parts, usize)>)
    ensures
        r matches Some(t) ==> t.0.signature@.len() == 3373 && t.1 <= b.len() && t.1 == sign1_enc(
            t.0.protected@,
            opt_view(t.0.payload),
            t.0.signature@,
        ).len() && is_match_at(
            b@,
            0,
            sign1_enc(t.0.protected@, opt_view(t.0.payload), t.0.signature@),
        ),
        forall|prot: Seq<u8>, pay: Option<Seq<u8>>, sig: Seq<u8>|
            sig.len() == 3373 && is_match_at(b@, 0, #[trigger] sign1_enc(prot, pay, sig)) ==> (
            r matches Some(t) && t.0.protected@ == prot && opt_view(t.0.payload) == pay
                && t.0.signature@ == sig),
{
    proof {
        assert forall|prot: Seq<u8>, pay: Option<Seq<u8>>, sig: Seq<u8>|
            is_match_at(b@, 0, #[trigger] sign1_enc(prot, pay, sig)) implies is_match_at(
            b@,
            0,
            enc_arr(4),
        ) && is_match_at(b@, enc_arr(4).len() as int, enc_bstr(prot)) && is_match_at(
            b@,
            (enc_arr(4) + enc_bstr(prot)).len() as int,
            enc_map(0),
        ) && is_match_at(
            b@,
            (enc_arr(4) + enc_bstr(prot) + enc_map(0)).len() as int,
            payload_piece(pay),
        ) && is_match_at(
            b@,
            (enc_arr(4) + enc_bstr(prot) + enc_map(0) + payload_piece(pay)).len() as int,
            enc_bstr(sig),
        ) && (pay matches Some(p) ==> is_match_at(
            b@,
            (enc_arr(4) + enc_bstr(prot) + enc_map(0)).len() as int,
            hdr(2, p.len() as u64),
        )) by {
            sign1_pieces(b@, prot, pay, sig);
            vstd::std_specs::vec::axiom_spec_len(b);
            if let Some(p) = pay {
                lemma_match_split(
                    b@,
                    (enc_arr(4) + enc_bstr(prot) + enc_map(0)).len() as int,
                    hdr(2, p.len() as u64),
                    p,
                );
            }
        }
        assert(seq![crate::codec::CBOR_NULL] =~= hdr(7, 22));
    }
    let r0 = parse_hdr(b, 0);
    let p0 = match r0 {
        Some((4, 4, p)) => p,
        _ => {
            return None;
        },
    };
    let r1 = parse_bstr(b, p0);
    let (protected, p1) = match r1 {
        Some(t) => t,
        None => {
            return None;
        },
    };
    let r2 = parse_hdr(b, p1);
    let p2 = match r2 {
        Some((5, 0, p)) => p,
        _ => {
            return None;
        },
    };
    let r3 = parse_hdr(b, p2);
    let (payload, p3) = match r3 {
        Some((7, 22, p)) => (None, p),
        Some((2, _, _)) => {
            match parse_bstr(b, p2) {
                Some((d, p)) => (Some(d), p),
                None => {
                    return None;
                },
            }
        },
        _ => {
            return None;
        },
    };
    let r4 = parse_bstr(b, p3);
    let (signature, p4) = match r4 {
        Some(t) => t,
        None => {
            return None;
        },
    };
    if signature.len() != 3373 {
        return None;
    }
    proof {
        lemma_match_join(b@, 0, enc_arr(4), enc_bstr(protected@));
        lemma_match_join(b@, 0, enc_arr(4) + enc_bstr(protected@), enc_map(0));
        lemma_match_join(
            b@,
            0,
            enc_arr(4) + enc_bstr(protected@) + enc_map(0),
            payload_piece(opt_view(payload)),
        );
        lemma_match_join(
            b@,
            0,
            enc_arr(4) + enc_bstr(protected@) + enc_map(0) + payload_piece(opt_view(payload)),
            enc_bstr(signature@),
        );
    }
    Some((Sign1Parts { protected, payload, signature }, p4))
}

/// Parses a whole buffer as one signed envelope, rejecting trailing bytes.
pub fn parse_sign1(b: &Vec<u8>) -> (r: Option<Sign1Parts>)
    ensures
        r matches Some(t) ==> t.signature@.len() == 3373 && b@ == sign1_enc(
            t.protected@,
            opt_view(t.payload),
            t.signature@,
        ),
        forall|prot: Seq<u8>, pay: Option<Seq<u8>>, sig: Seq<u8>|
            sig.len() == 3373 && b@ == #[trigger] sign1_enc(prot, pay, sig) ==> (r matches Some(t)
                && t.protected@ == prot && opt_view(t.payload) == pay && t.signature@ == sig),
{
    proof {
        assert forall|prot: Seq<u8>, pay: Option<Seq<u8>>, sig: Seq<u8>|
            b@ == #[trigger] sign1_enc(prot, pay, sig) implies is_match_at(
            b@,
            0,
            sign1_enc(prot, pay, sig),
        ) by {
            assert(b@.subrange(0, b@.len() as int) =~= b@);
        }
    }
    match parse_sign1_prefix(b) {
        Some((parts, end)) => {
            if end == b.len() {
                proof {
                    assert(b@.subrange(0, b@.len() as int) =~= b@);
                }
                Some(parts)
            } else {
                None
            }
        },
        None => None,
    }
}

/// Splits a signature protected-header match into matches of its pieces.
proof fn sig_protected_pieces(b: Seq<u8>, alg: i64, crit: i64, kid: Seq<u8>, ts: i64)
    requires
        is_match_at(b, 0, sig_protected_gen(alg, crit, kid, ts)),
    ensures
        is_match_at(b, 0, enc_map(4)),
        is_match_at(b, enc_map(4).len() as int, enc_i64(1)),
        is_match_at(b, (enc_map(4) + enc_i64(1)).len() as int, enc_i64(alg)),
        is_match_at(b, (enc_map(4) + enc_i64(1) + enc_i64(alg)).len() as int, enc_i64(2)),
        is_match_at(
            b,
            (enc_map(4) + enc_i64(1) + enc_i64(alg) + enc_i64(2)).len() as int,
            enc_arr(1),
        ),
        is_match_at(
            b,
            (enc_map(4) + enc_i64(1) + enc_i64(alg) + enc_i64(2) + enc_arr(1)).len() as int,
            enc_i64(crit),
        ),
        is_match_at(
            b,
            (enc_map(4) + enc_i64(1) + enc_i64(alg) + enc_i64(2) + enc_arr(1) + enc_i64(
                crit,
            )).len() as int,
            enc_i64(4),
        ),
        is_match_at(
            b,
            (enc_map(4) + enc_i64(1) + enc_i64(alg) + enc_i64(2) + enc_arr(1) + enc_i64(crit)
                + enc_i64(4)).len() as int,
            enc_bstr(kid),
        ),
        is_match_at(
            b,
            (enc_map(4) + enc_i64(1) + enc_i64(alg) + enc_i64(2) + enc_arr(1) + enc_i64(crit)
                + enc_i64(4) + enc_bstr(kid)).len() as int,
            enc_i64(HEADER_TIMESTAMP),
        ),
        is_match_at(
            b,
            (enc_map(4) + enc_i64(1) + enc_i64(alg) + enc_i64(2) + enc_arr(1) + enc_i64(crit)
                + enc_i64(4) + enc_bstr(kid) + enc_i64(HEADER_TIMESTAMP)).len() as int,
            enc_i64(ts),
        ),
{
    let p1 = enc_map(4);
    let p2 = p1 + enc_i64(1);
    let p3 = p2 + enc_i64(alg);
    let p4 = p3 + enc_i64(2);
    let p5 = p4 + enc_arr(1);
    let p6 = p5 + enc_i64(crit);
    let p7 = p6 + enc_i64(4);
    let p8 = p7 + enc_bstr(kid);
    let p9 = p8 + enc_i64(HEADER_TIMESTAMP);
    lemma_match_split(b, 0, p9, enc_i64(ts));
    lemma_match_split(b, 0, p8, enc_i64(HEADER_TIMESTAMP));
    lemma_match_split(b, 0, p7, enc_bstr(kid));
    lemma_match_split(b, 0, p6, enc_i64(4));
    lemma_match_split(b, 0, p5, enc_i64(crit));
    lemma_match_split(b, 0, p4, enc_arr(1));
    lemma_match_split(b, 0, p3, enc_i64(2));
    lemma_match_split(b, 0, p2, enc_i64(alg));
    lemma_match_split(b, 0, p1, enc_i64(1));
}

/// Parses a whole buffer as the protected header of a signed envelope,
/// returning the algorithm, critical label, 32-byte key identifier and
/// timestamp. Sound and complete with respect to `sig_protected_gen`.
#[verifier::rlimit(100)]
pub fn parse_sig_protected(b: &Vec<u8>) -> (r: Option<(i64, i64, Vec<u8>, i64)>)
    ensures
        r matches Some(t) ==> t.2@.len() == 32 && b@ == sig_protected_gen(t.0, t.1, t.2@, t.3),
        forall|alg: i64, crit: i64, kid: Seq<u8>, ts: i64|
            kid.len() == 32 && b@ == #[trigger] sig_protected_gen(alg, crit, kid, ts) ==> (
            r matches Some(t) && t.0 == alg && t.1 == crit && t.2@ == kid && t.3 == ts),
{
    proof {
        assert forall|alg: i64, crit: i64, kid: Seq<u8>, ts: i64|
            b@ == #[trigger] sig_protected_gen(alg, crit, kid, ts) implies is_match_at(
            b@,
            0,
            sig_protected_gen(alg, crit, kid, ts),
        ) by {
            assert(b@.subrange(0, b@.len() as int) =~= b@);
        }
        assert forall|alg: i64, crit: i64, kid: Seq<u8>, ts: i64|
            is_match_at(b@, 0, #[trigger] sig_protected_gen(alg, crit, kid, ts)) implies
        is_match_at(b@, 0, enc_map(4)) && is_match_at(b@, enc_map(4).len() as int, enc_i64(1))
            && is_match_at(b@, (enc_map(4) + enc_i64(1)).len() as int, enc_i64(alg)) && is_match_at(
            b@,
            (enc_map(4) + enc_i64(1) + enc_i64(alg)).len() as int,
            enc_i64(2),
        ) && is_match_at(
            b@,
            (enc_map(4) + enc_i64(1) + enc_i64(alg) + enc_i64(2)).len() as int,
            enc_arr(1),
        ) && is_match_at(
            b@,
            (enc_map(4) + enc_i64(1) + enc_i64(alg) + enc_i64(2) + enc_arr(1)).len() as int,
            enc_i64(crit),
        ) && is_match_at(
            b@,
            (enc_map(4) + enc_i64(1) + enc_i64(alg) + enc_i64(2) + enc_arr(1) + enc_i64(
                crit,
            )).len() as int,
            enc_i64(4),
        ) && is_match_at(
            b@,
            (enc_map(4) + enc_i64(1) + enc_i64(alg) + enc_i64(2) + enc_arr(1) + enc_i64(crit)
                + enc_i64(4)).len() as int,
            enc_bstr(kid),
        ) && is_match_at(
            b@,
            (enc_map(4) + enc_i64(1) + enc_i64(alg) + enc_i64(2) + enc_arr(1) + enc_i64(crit)
                + enc_i64(4) + enc_bstr(kid)).len() as int,
            enc_i64(HEADER_TIMESTAMP),
        ) && is_match_at(
            b@,
            (enc_map(4) + enc_i64(1) + enc_i64(alg) + enc_i64(2) + enc_arr(1) + enc_i64(crit)
                + enc_i64(4) + enc_bstr(kid) + enc_i64(HEADER_TIMESTAMP)).len() as int,
            enc_i64(ts),
        ) by {
            sig_protected_pieces(b@, alg, crit, kid, ts);
        }
    }
    let r0 = parse_hdr(b, 0);
    let p0 = match r0 {
        Some((5, 4, p)) => p,
        _ => {
            return None;
        },
    };
    let rk1 = parse_i64(b, p0);
    let p1 = match rk1 {
        Some((1, p)) => p,
        _ => {
            return None;
        },
    };
    let ra = parse_i64(b, p1);
    let (alg, p2) = match ra {
        Some(t) => t,
        None => {
            return None;
        },
    };
    let rk2 = parse_i64(b, p2);
    let p3 = match rk2 {
        Some((2, p)) => p,
        _ => {
            return None;
        },
    };
    let rarr = parse_hdr(b, p3);
    let p4 = match rarr {
        Some((4, 1, p)) => p,
        _ => {
            return None;
        },
    };
    let rc = parse_i64(b, p4);
    let (crit, p5) = match rc {
        Some(t) => t,
        None => {
            return None;
        },
    };
    let rk4 = parse_i64(b, p5);
    let p6 = match rk4 {
        Some((4, p)) => p,
        _ => {
            return None;
        },
    };
    let rkid = parse_bstr(b, p6);
    let (kid, p7) = match rkid {
        Some(t) => t,
        None => {
            return None;
        },
    };
    if kid.len() != 32 {
        return None;
    }
    let rkt = parse_i64(b, p7);
    let p8 = match rkt {
        Some((t, p)) => {
            if t == HEADER_TIMESTAMP {
                p
            } else {
                return None;
            }
        },
        None => {
            return None;
        },
    };
    let rt = parse_i64(b, p8);
    let (ts, p9) = match rt {
        Some(t) => t,
        None => {
            return None;
        },
    };
    if p9 != b.len() {
        return None;
    }
    proof {
        let w = enc_map(4) + enc_i64(1) + enc_i64(alg) + enc_i64(2) + enc_arr(1) + enc_i64(crit)
            + enc_i64(4) + enc_bstr(kid@) + enc_i64(HEADER_TIMESTAMP) + enc_i64(ts);
        lemma_match_join(b@, 0, enc_map(4), enc_i64(1));
        lemma_match_join(b@, 0, enc_map(4) + enc_i64(1), enc_i64(alg));
        lemma_match_join(b@, 0, enc_map(4) + enc_i64(1) + enc_i64(alg), enc_i64(2));
        lemma_match_join(b@, 0, enc_map(4) + enc_i64(1) + enc_i64(alg) + enc_i64(2), enc_arr(1));
        lemma_match_join(
            b@,
            0,
            enc_map(4) + enc_i64(1) + enc_i64(alg) + enc_i64(2) + enc_arr(1),
            enc_i64(crit),
        );
        lemma_match_join(
            b@,
            0,
            enc_map(4) + enc_i64(1) + enc_i64(alg) + enc_i64(2) + enc_arr(1) + enc_i64(crit),
            enc_i64(4),
        );
        lemma_match_join(
            b@,
            0,
            enc_map(4) + enc_i64(1) + enc_i64(alg) + enc_i64(2) + enc_arr(1) + enc_i64(crit)
                + enc_i64(4),
            enc_bstr(kid@),
        );
        lemma_match_join(
            b@,
            0,
            enc_map(4) + enc_i64(1) + enc_i64(alg) + enc_i64(2) + enc_arr(1) + enc_i64(crit)
                + enc_i64(4) + enc_bstr(kid@),
            enc_i64(HEADER_TIMESTAMP),
        );
        lemma_match_join(
            b@,
            0,
            enc_map(4) + enc_i64(1) + enc_i64(alg) + enc_i64(2) + enc_arr(1) + enc_i64(crit)
                + enc_i64(4) + enc_bstr(kid@) + enc_i64(HEADER_TIMESTAMP),
            enc_i64(ts),
        );
        assert(b@ =~= w);
    }
    Some((alg, crit, kid, ts))
}

/// Splits an encrypted-envelope match into matches of its pieces.
proof fn encrypt0_pieces(b: Seq<u8>, prot: Seq<u8>, encap: Seq<u8>, ct: Seq<u8>)
    requires
        is_match_at(b, 0, encrypt0_enc(prot, encap, ct)),
    ensures
        is_match_at(b, 0, enc_arr(3)),
        is_match_at(b, enc_arr(3).len() as int, enc_bstr(prot)),
        is_match_at(b, (enc_arr(3) + enc_bstr(prot)).len() as int, enc_map(1)),
        is_match_at(
            b,
            (enc_arr(3) + enc_bstr(prot) + enc_map(1)).len() as int,
            enc_i64(HEADER_ENCAP_KEY),
        ),
        is_match_at(
            b,
            (enc_arr(3) + enc_bstr(prot) + enc_map(1) + enc_i64(HEADER_ENCAP_KEY)).len() as int,
            enc_bstr(encap),
        ),
        is_match_at(
            b,
            (enc_arr(3) + enc_bstr(prot) + enc_map(1) + enc_i64(HEADER_ENCAP_KEY) + enc_bstr(
                encap,
            )).len() as int,
            enc_bstr(ct),
        ),
{
    let p1 = enc_arr(3);
    let p2 = p1 + enc_bstr(prot);
    let p3 = p2 + enc_map(1);
    let p4 = p3 + enc_i64(HEADER_ENCAP_KEY);
    let p5 = p4 + enc_bstr(encap);
    lemma_match_split(b, 0, p5, enc_bstr(ct));
    lemma_match_split(b, 0, p4, enc_bstr(encap));
    lemma_match_split(b, 0, p3, enc_i64(HEADER_ENCAP_KEY));
    lemma_match_split(b, 0, p2, enc_map(1));
    lemma_match_split(b, 0, p1, enc_bstr(prot));
}

/// Parses a whole buffer as an encrypted envelope, returning the protected
/// header bytes, encapsulated key and ciphertext. Sound and complete with
/// respect to `encrypt0_enc`.
#[verifier::rlimit(100)]
pub fn parse_encrypt0(b: &Vec<u8>) -> (r: Option<(Vec<u8>, Vec<u8>, Vec<u8>)>)
    ensures
        r matches Some(t) ==> b@ == encrypt0_enc(t.0@, t.1@, t.2@),
        forall|prot: Seq<u8>, encap: Seq<u8>, ct: Seq<u8>|
            b@ == #[trigger] encrypt0_enc(prot, encap, ct) ==> (r matches Some(t) && t.0@ == prot
                && t.1@ == encap && t.2@ == ct),
{
    proof {
        assert forall|prot: Seq<u8>, encap: Seq<u8>, ct: Seq<u8>|
            b@ == #[trigger] encrypt0_enc(prot, encap, ct) implies is_match_at(
            b@,
            0,
            enc_arr(3),
        ) && is_match_at(b@, enc_arr(3).len() as int, enc_bstr(prot)) && is_match_at(
            b@,
            (enc_arr(3) + enc_bstr(prot)).len() as int,
            enc_map(1),
        ) && is_match_at(
            b@,
            (enc_arr(3) + enc_bstr(prot) + enc_map(1)).len() as int,
            enc_i64(HEADER_ENCAP_KEY),
        ) && is_match_at(
            b@,
            (enc_arr(3) + enc_bstr(prot) + enc_map(1) + enc_i64(HEADER_ENCAP_KEY)).len() as int,
            enc_bstr(encap),
        ) && is_match_at(
            b@,
            (enc_arr(3) + enc_bstr(prot) + enc_map(1) + enc_i64(HEADER_ENCAP_KEY) + enc_bstr(
                encap,
            )).len() as int,
            enc_bstr(ct),
        ) && b@.len() == encrypt0_enc(prot, encap, ct).len() by {
            assert(b@.subrange(0, b@.len() as int) =~= b@);
            encrypt0_pieces(b@, prot, encap, ct);
        }
    }
    let r0 = parse_hdr(b, 0);
    let p0 = match r0 {
        Some((4, 3, p)) => p,
        _ => {
            return None;
        },
    };
    let rp = parse_bstr(b, p0);
    let (prot, p1) = match rp {
        Some(t) => t,
        None => {
            return None;
        },
    };
    let r2 = parse_hdr(b, p1);
    let p2 = match r2 {
        Some((5, 1, p)) => p,
        _ => {
            return None;
        },
    };
    let rk = parse_i64(b, p2);
    let p3 = match rk {
        Some((k, p)) => {
            if k == HEADER_ENCAP_KEY {
                p
            } else {
                return None;
            }
        },
        None => {
            return None;
        },
    };
    let re = parse_bstr(b, p3);
    let (encap, p4) = match re {
        Some(t) => t,
        None => {
            return None;
        },
    };
    let rc = parse_bstr(b, p4);
    let (ct, p5) = match rc {
        Some(t) => t,
        None => {
            return None;
        },
    };
    if p5 != b.len() {
        return None;
    }
    proof {
        lemma_match_join(b@, 0, enc_arr(3), enc_bstr(prot@));
        lemma_match_join(b@, 0, enc_arr(3) + enc_bstr(prot@), enc_map(1));
        lemma_match_join(
            b@,
            0,
            enc_arr(3) + enc_bstr(prot@) + enc_map(1),
            enc_i64(HEADER_ENCAP_KEY),
        );
        lemma_match_join(
            b@,
            0,
            enc_arr(3) + enc_bstr(prot@) + enc_map(1) + enc_i64(HEADER_ENCAP_KEY),
            enc_bstr(encap@),
        );
        lemma_match_join(
            b@,
            0,
            enc_arr(3) + enc_bstr(prot@) + enc_map(1) + enc_i64(HEADER_ENCAP_KEY) + enc_bstr(
                encap@,
            ),
            enc_bstr(ct@),
        );
        assert(b@ =~= encrypt0_enc(prot@, encap@, ct@));
    }
    Some((prot, encap, ct))
}

/// Splits an encryption protected-header match into matches of its pieces.
proof fn enc_protected_pieces(b: Seq<u8>, alg: i64, kid: Seq<u8>)
    requires
        is_match_at(b, 0, enc_protected_gen(alg, kid)),
    ensures
        is_match_at(b, 0, enc_map(2)),
        is_match_at(b, enc_map(2).len() as int, enc_i64(1)),
        is_match_at(b, (enc_map(2) + enc_i64(1)).len() as int, enc_i64(alg)),
        is_match_at(b, (enc_map(2) + enc_i64(1) + enc_i64(alg)).len() as int, enc_i64(4)),
        is_match_at(
            b,
            (enc_map(2) + enc_i64(1) + enc_i64(alg) + enc_i64(4)).len() as int,
            enc_bstr(kid),
        ),
{
    let p1 = enc_map(2);
    let p2 = p1 + enc_i64(1);
    let p3 = p2 + enc_i64(alg);
    let p4 = p3 + enc_i64(4);
    lemma_match_split(b, 0, p4, enc_bstr(kid));
    lemma_match_split(b, 0, p3, enc_i64(4));
    lemma_match_split(b, 0, p2, enc_i64(alg));
    lemma_match_split(b, 0, p1, enc_i64(1));
}

/// Parses a whole buffer as the protected header of an encrypted envelope,
/// returning the algorithm and the 32-byte key identifier. Sound and complete
/// with respect to `enc_protected_gen`.
#[verifier::rlimit(100)]
pub fn parse_enc_protected(b: &Vec<u8>) -> (r: Option<(i64, Vec<u8>)>)
    ensures
        r matches Some(t) ==> t.1@.len() == 32 && b@ == enc_protected_gen(t.0, t.1@),
        forall|alg: i64, kid: Seq<u8>|
            kid.len() == 32 && b@ == #[trigger] enc_protected_gen(alg, kid) ==> (r matches Some(t)
                && t.0 == alg && t.1@ == kid),
{
    proof {
        assert forall|alg: i64, kid: Seq<u8>|
            b@ == #[trigger] enc_protected_gen(alg, kid) implies is_match_at(b@, 0, enc_map(2))
            && is_match_at(b@, enc_map(2).len() as int, enc_i64(1)) && is_match_at(
            b@,
            (enc_map(2) + enc_i64(1)).len() as int,
            enc_i64(alg),
        ) && is_match_at(b@, (enc_map(2) + enc_i64(1) + enc_i64(alg)).len() as int, enc_i64(4))
            && is_match_at(
            b@,
            (enc_map(2) + enc_i64(1) + enc_i64(alg) + enc_i64(4)).len() as int,
            enc_bstr(kid),
        ) && b@.len() == enc_protected_gen(alg, kid).len() by {
            assert(b@.subrange(0, b@.len() as int) =~= b@);
            enc_protected_pieces(b@, alg, kid);
        }
    }
    let r0 = parse_hdr(b, 0);
    let p0 = match r0 {
        Some((5, 2, p)) => p,
        _ => {
            return None;
        },
    };
    let rk1 = parse_i64(b, p0);
    let p1 = match rk1 {
        Some((1, p)) => p,
        _ => {
            return None;
        },
    };
    let ra = parse_i64(b, p1);
    let (alg, p2) = match ra {
        Some(t) => t,
        None => {
            return None;
        },
    };
    let rk4 = parse_i64(b, p2);
    let p3 = match rk4 {
        Some((4, p)) => p,
        _ => {
            return None;
        },
    };
    let rkid = parse_bstr(b, p3);
    let (kid, p4) = match rkid {
        Some(t) => t,
        None => {
            return None;
        },
    };
    if kid.len() != 32 {
        return None;
    }
    if p4 != b.len() {
        return None;
    }
    proof {
        lemma_match_join(b@, 0, enc_map(2), enc_i64(1));
        lemma_match_join(b@, 0, enc_map(2) + enc_i64(1), enc_i64(alg));
        lemma_match_join(b@, 0, enc_map(2) + enc_i64(1) + enc_i64(alg), enc_i64(4));
        lemma_match_join(b@, 0, enc_map(2) + enc_i64(1) + enc_i64(alg) + enc_i64(4), enc_bstr(kid@));
        assert(b@ =~= enc_protected_gen(alg, kid@));
    }
    Some((alg, kid))
}

/// Builds an encrypted envelope from its three parts.
pub fn build_encrypt0(protected: &Vec<u8>, encap: &Vec<u8>, ct: &Vec<u8>) -> (r: Vec<u8>)
    ensures
        r@ == encrypt0_enc(protected@, encap@, ct@),
{
    let mut r: Vec<u8> = Vec::new();
    push_hdr(&mut r, 4, 3);
    push_bstr(&mut r, protected);
    push_hdr(&mut r, 5, 1);
    push_i64(&mut r, HEADER_ENCAP_KEY);
    push_bstr(&mut r, encap);
    push_bstr(&mut r, ct);
    proof {
        assert(r@ =~= encrypt0_enc(protected@, encap@, ct@));
    }
    r
}

} // verus!
