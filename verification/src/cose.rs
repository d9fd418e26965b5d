//! The envelope engine: signing, verification, encryption, decryption and
//! the combined seal/open operations over the wire format of `format`.
//!
//! A signature covers the canonical encoding of the protected header, the
//! externally supplied authenticated data joined with the prefixed domain
//! separator, and the embedded (or empty, when detached) payload; the
//! verifier recomputes exactly that structure. Verification fails closed:
//! no payload is returned unless every check passed. The inspection helpers
//! (`cose_signer`, `cose_peek`, `cose_recipient`) perform no cryptographic
//! check at all — their results are untrusted routing metadata until a
//! subsequent verification succeeds.

use vstd::prelude::*;

use crate::codec::{bytes_eq, copy_range, is_match_at};
use crate::errors::CoseError;
use crate::format::{
    aad_env, build_aad_env, build_enc_blob, build_enc_protected, build_encrypt0, build_sig_blob,
    build_sig_protected, build_sign1, enc_blob, enc_protected, enc_protected_gen, encrypt0_enc,
    opt_view, parse_enc_protected, parse_encrypt0, parse_sig_protected, parse_sign1,
    parse_sign1_prefix, sig_blob, sig_protected, sig_protected_gen, sign1_enc, Sign1Parts,
    ALGORITHM_ID_XDSA, ALGORITHM_ID_XHPKE, HEADER_TIMESTAMP,
};
use crate::xdsa::{
    xdsa_fingerprint_of, xdsa_public_of, xdsa_sig_ok, XdsaFingerprint, XdsaPublicKey,
    XdsaSecretKey, XdsaSignature,
};
use crate::xhpke::{
    xhpke_fingerprint_of, xhpke_open_of, xhpke_public_of, XhpkeFingerprint, XhpkePublicKey,
    XhpkeSecretKey,
};

verus! {

/// Whether a header timestamp passes the drift check: always when no bound
/// was requested, otherwise exactly when `|now - ts| <= bound`.
pub open spec fn drift_ok(max_drift: Option<u64>, now: i64, ts: i64) -> bool {
    match max_drift {
        None => true,
        Some(d) => (if now >= ts {
            now - ts
        } else {
            ts - now
        }) <= d,
    }
}

/// The signed bytes belonging to an optional embedded payload: the payload
/// itself, or the empty string in detached mode.
pub open spec fn payload_bytes(payload: Option<Seq<u8>>) -> Seq<u8> {
    match payload {
        Some(p) => p,
        None => Seq::empty(),
    }
}

/// What signing produces: an envelope carrying the canonical protected
/// header with the signer's fingerprint and the timestamp, the given
/// payload, and a signature that the signer's public key accepts over the
/// signature input rebuilt from header, domain, authenticated data and
/// payload.
pub open spec fn sign_produced(
    env: Seq<u8>,
    payload: Option<Seq<u8>>,
    aad: Seq<u8>,
    pk: Seq<u8>,
    domain: Seq<u8>,
    ts: i64,
) -> bool {
    exists|sig: Seq<u8>|
        sig.len() == 3373 && env == #[trigger] sign1_enc(
            sig_protected(xdsa_fingerprint_of(pk), ts),
            payload,
            sig,
        ) && xdsa_sig_ok(
            pk,
            sig_blob(
                sig_protected(xdsa_fingerprint_of(pk), ts),
                aad_env(domain, aad),
                payload_bytes(payload),
            ),
            sig,
        )
}

/// The exact condition under which embedded verification succeeds and
/// returns `payload`: the envelope is the canonical encoding of a header
/// naming the verifier's fingerprint and some timestamp within the drift
/// bound, and the signature verifies over the recomputed signature input.
pub open spec fn verify_ok(
    env: Seq<u8>,
    payload: Seq<u8>,
    aad: Seq<u8>,
    pk: Seq<u8>,
    domain: Seq<u8>,
    max_drift: Option<u64>,
    now: i64,
) -> bool {
    exists|ts: i64, sig: Seq<u8>|
        sig.len() == 3373 && env == #[trigger] sign1_enc(
            sig_protected(xdsa_fingerprint_of(pk), ts),
            Some(payload),
            sig,
        ) && drift_ok(max_drift, now, ts) && xdsa_sig_ok(
            pk,
            sig_blob(sig_protected(xdsa_fingerprint_of(pk), ts), aad_env(domain, aad), payload),
            sig,
        )
}

/// The exact condition under which detached verification succeeds: as for
/// embedded verification, but the envelope holds no payload and the
/// signature input carries the empty payload string.
pub open spec fn verify_detached_ok(
    env: Seq<u8>,
    aad: Seq<u8>,
    pk: Seq<u8>,
    domain: Seq<u8>,
    max_drift: Option<u64>,
    now: i64,
) -> bool {
    exists|ts: i64, sig: Seq<u8>|
        sig.len() == 3373 && env == #[trigger] sign1_enc(
            sig_protected(xdsa_fingerprint_of(pk), ts),
            None,
            sig,
        ) && drift_ok(max_drift, now, ts) && xdsa_sig_ok(
            pk,
            sig_blob(
                sig_protected(xdsa_fingerprint_of(pk), ts),
                aad_env(domain, aad),
                Seq::empty(),
            ),
            sig,
        )
}

/// A decomposition of an envelope into its three parts, with the fixed
/// signature length.
pub open spec fn sign1_decomp(
    env: Seq<u8>,
    prot: Seq<u8>,
    pay: Option<Seq<u8>>,
    sig: Seq<u8>,
) -> bool {
    sig.len() == 3373 && env == sign1_enc(prot, pay, sig)
}

/// Whether a buffer is a well-formed signed envelope.
pub open spec fn sign1_wf(env: Seq<u8>) -> bool {
    exists|prot: Seq<u8>, pay: Option<Seq<u8>>, sig: Seq<u8>|
        #[trigger] sign1_decomp(env, prot, pay, sig)
}

/// A decomposition of protected-header bytes into its four fields.
pub open spec fn prot_decomp(prot: Seq<u8>, alg: i64, crit: i64, kid: Seq<u8>, ts: i64) -> bool {
    kid.len() == 32 && prot == sig_protected_gen(alg, crit, kid, ts)
}

/// Whether a buffer is a well-formed signature protected header.
pub open spec fn prot_wf(prot: Seq<u8>) -> bool {
    exists|alg: i64, crit: i64, kid: Seq<u8>, ts: i64| #[trigger] prot_decomp(
        prot,
        alg,
        crit,
        kid,
        ts,
    )
}

/// What a successful signer extraction means: the buffer is a signed
/// envelope whose protected header carries `fp` as its key identifier. No
/// signature check is involved.
pub open spec fn signer_ok(env: Seq<u8>, fp: Seq<u8>) -> bool {
    exists|prot: Seq<u8>, pay: Option<Seq<u8>>, sig: Seq<u8>|
        #[trigger] sign1_decomp(env, prot, pay, sig) && (exists|alg: i64, crit: i64, ts: i64|
            #[trigger] prot_decomp(prot, alg, crit, fp, ts))
}

/// What a successful peek means: the buffer is a signed envelope embedding
/// `p`. No signature check is involved.
pub open spec fn peek_ok(env: Seq<u8>, p: Seq<u8>) -> bool {
    exists|prot: Seq<u8>, sig: Seq<u8>| #[trigger] sign1_decomp(env, prot, Some(p), sig)
}

/// What a successful recipient extraction means: the buffer is an encrypted
/// envelope whose protected header carries `fp` as its key identifier. No
/// decryption is involved.
pub open spec fn recipient_ok(env: Seq<u8>, fp: Seq<u8>) -> bool {
    exists|prot: Seq<u8>, encap: Seq<u8>, ct: Seq<u8>|
        #[trigger] e0_decomp(env, prot, encap, ct) && (exists|alg: i64| #[trigger] eprot_decomp(
            prot,
            alg,
            fp,
        ))
}

/// Relies on `std::time::SystemTime::now` and `duration_since`: the number
/// of whole seconds since the Unix epoch as the system clock reads now, and
/// zero if the clock precedes the epoch. Nothing else is assumed of the
/// value.
#[verifier::external_body]
fn now_unix() -> (r: i64)
    ensures
        r >= 0,
{
    match std::time::SystemTime::now().duration_since(std::time::UNIX_EPOCH) {
        Ok(d) => i64::try_from(d.as_secs()).unwrap_or(i64::MAX),
        Err(_) => 0,
    }
}

/// Creates a signed envelope with an embedded payload and an explicit header
/// timestamp.
///
/// - `msg_to_embed`: the payload, embedded and signed
/// - `msg_to_auth`: authenticated data, signed but not embedded
/// - `signer`: the signature secret key
/// - `domain`: the application domain separator
/// - `timestamp`: Unix seconds to place in the protected header
pub fn cose_sign_at(
    msg_to_embed: Vec<u8>,
    msg_to_auth: Vec<u8>,
    signer: &XdsaSecretKey,
    domain: Vec<u8>,
    timestamp: i64,
) -> (r: Vec<u8>)
    ensures
        sign_produced(
            r@,
            Some(msg_to_embed@),
            msg_to_auth@,
            xdsa_public_of(signer@),
            domain@,
            timestamp,
        ),
{
    let fpb = signer.fingerprint().to_bytes();
    let protected = build_sig_protected(&fpb, timestamp);
    let aad = build_aad_env(&domain, &msg_to_auth);
    let blob = build_sig_blob(&protected, &aad, &msg_to_embed);
    let sig = signer.sign(blob);
    let sigb = sig.to_bytes();
    let payload = Some(msg_to_embed);
    let env = build_sign1(&protected, &payload, &sigb);
    proof {
        assert(sign_produced(
            env@,
            opt_view(payload),
            msg_to_auth@,
            xdsa_public_of(signer@),
            domain@,
            timestamp,
        ));
    }
    env
}

/// Creates a signed envelope with an embedded payload, stamped with the
/// current system time.
pub fn cose_sign(
    msg_to_embed: Vec<u8>,
    msg_to_auth: Vec<u8>,
    signer: &XdsaSecretKey,
    domain: Vec<u8>,
) -> (r: Vec<u8>)
    ensures
        exists|ts: i64| #[trigger] sign_produced(
            r@,
            Some(msg_to_embed@),
            msg_to_auth@,
            xdsa_public_of(signer@),
            domain@,
            ts,
        ),
{
    let now = now_unix();
    cose_sign_at(msg_to_embed, msg_to_auth, signer, domain, now)
}

/// Creates a detached signed envelope — the caller's message is signed but
/// not embedded, and the envelope payload is a null placeholder — with an
/// explicit header timestamp.
pub fn cose_sign_detached_at(
    msg_to_auth: Vec<u8>,
    signer: &XdsaSecretKey,
    domain: Vec<u8>,
    timestamp: i64,
) -> (r: Vec<u8>)
    ensures
        sign_produced(
            r@,
            None,
            msg_to_auth@,
            xdsa_public_of(signer@),
            domain@,
            timestamp,
        ),
{
    let fpb = signer.fingerprint().to_bytes();
    let protected = build_sig_protected(&fpb, timestamp);
    let aad = build_aad_env(&domain, &msg_to_auth);
    let empty: Vec<u8> = Vec::new();
    let blob = build_sig_blob(&protected, &aad, &empty);
    let sig = signer.sign(blob);
    let sigb = sig.to_bytes();
    let payload: Option<Vec<u8>> = None;
    let env = build_sign1(&protected, &payload, &sigb);
    env
}

/// Creates a detached signed envelope stamped with the current system time.
pub fn cose_sign_detached(msg_to_auth: Vec<u8>, signer: &XdsaSecretKey, domain: Vec<u8>) -> (r:
    Vec<u8>)
    ensures
        exists|ts: i64| #[trigger] sign_produced(
            r@,
            None,
            msg_to_auth@,
            xdsa_public_of(signer@),
            domain@,
            ts,
        ),
{
    let now = now_unix();
    cose_sign_detached_at(msg_to_auth, signer, domain, now)
}

/// Verifies a signed envelope against an explicit current time and returns
/// the embedded payload.
///
/// Succeeds exactly on the envelopes described by `verify_ok`; every other
/// input is rejected with the error naming the first failed stage: malformed
/// structure, missing payload, unexpected algorithm or critical list, a
/// fingerprint naming another key, a stale timestamp, or a signature that
/// does not verify. No payload is ever returned on failure.
pub fn cose_verify_at(
    msg_to_check: Vec<u8>,
    msg_to_auth: Vec<u8>,
    verifier: &XdsaPublicKey,
    domain: Vec<u8>,
    max_drift: Option<u64>,
    now: i64,
) -> (r: Result<Vec<u8>, CoseError>)
    ensures
        r matches Ok(p) ==> verify_ok(
            msg_to_check@,
            p@,
            msg_to_auth@,
            verifier@,
            domain@,
            max_drift,
            now,
        ),
        forall|p: Seq<u8>|
            #[trigger] verify_ok(msg_to_check@, p, msg_to_auth@, verifier@, domain@, max_drift, now)
                ==> (r matches Ok(q) && q@ == p),
        !sign1_wf(msg_to_check@) ==> r == Err::<Vec<u8>, CoseError>(CoseError::Malformed),
        forall|prot: Seq<u8>, pay: Option<Seq<u8>>, sig: Seq<u8>|
            #[trigger] sign1_decomp(msg_to_check@, prot, pay, sig) && pay is None ==> r == Err::<
                Vec<u8>,
                CoseError,
            >(CoseError::MissingPayload),
        forall|prot: Seq<u8>, pay: Option<Seq<u8>>, sig: Seq<u8>|
            #[trigger] sign1_decomp(msg_to_check@, prot, pay, sig) && pay is Some && !prot_wf(prot)
                ==> r == Err::<Vec<u8>, CoseError>(CoseError::Malformed),
        forall|prot: Seq<u8>, pay: Option<Seq<u8>>, sig: Seq<u8>, alg: i64, crit: i64, kid: Seq<
            u8,
        >, ts: i64|
            #![trigger sign1_decomp(msg_to_check@, prot, pay, sig), prot_decomp(prot, alg, crit, kid, ts)]
            sign1_decomp(msg_to_check@, prot, pay, sig) && pay is Some && prot_decomp(
                prot,
                alg,
                crit,
                kid,
                ts,
            ) ==> (if !(alg == ALGORITHM_ID_XDSA && crit == HEADER_TIMESTAMP) {
                r == Err::<Vec<u8>, CoseError>(CoseError::WrongAlgorithm)
            } else if kid != xdsa_fingerprint_of(verifier@) {
                r == Err::<Vec<u8>, CoseError>(CoseError::WrongKey)
            } else if !drift_ok(max_drift, now, ts) {
                r == Err::<Vec<u8>, CoseError>(CoseError::Stale)
            } else if !xdsa_sig_ok(
                verifier@,
                sig_blob(prot, aad_env(domain@, msg_to_auth@), payload_bytes(pay)),
                sig,
            ) {
                r == Err::<Vec<u8>, CoseError>(CoseError::BadSignature)
            } else {
                r matches Ok(q) && Some(q@) == pay
            }),
{
    let fpb = verifier.fingerprint().to_bytes();
    let parts = match parse_sign1(&msg_to_check) {
        Some(p) => p,
        None => {
            return Err(CoseError::Malformed);
        },
    };
    proof {
        assert(sign1_decomp(
            msg_to_check@,
            parts.protected@,
            opt_view(parts.payload),
            parts.signature@,
        ));
    }
    let Sign1Parts { protected, payload, signature } = parts;
    let payload = match payload {
        Some(p) => p,
        None => {
            return Err(CoseError::MissingPayload);
        },
    };
    let (alg, crit, kid, ts) = match parse_sig_protected(&protected) {
        Some(t) => t,
        None => {
            return Err(CoseError::Malformed);
        },
    };
    proof {
        assert(prot_decomp(protected@, alg, crit, kid@, ts));
    }
    if !(alg == ALGORITHM_ID_XDSA && crit == HEADER_TIMESTAMP) {
        return Err(CoseError::WrongAlgorithm);
    }
    if !bytes_eq(&kid, &fpb) {
        return Err(CoseError::WrongKey);
    }
    if !drift_check(max_drift, now, ts) {
        return Err(CoseError::Stale);
    }
    let aad = build_aad_env(&domain, &msg_to_auth);
    let blob = build_sig_blob(&protected, &aad, &payload);
    let sig = match XdsaSignature::from_bytes(signature) {
        Ok(s) => s,
        Err(_) => {
            proof {
                assert(false);
            }
            return Err(CoseError::Malformed);
        },
    };
    match verifier.verify(blob, &sig) {
        Ok(()) => {
            proof {
                let fp = xdsa_fingerprint_of(verifier@);
                assert(protected@ == sig_protected(fp, ts));
                assert(msg_to_check@ == sign1_enc(sig_protected(fp, ts), Some(payload@), sig@));
                assert(xdsa_sig_ok(
                    verifier@,
                    sig_blob(sig_protected(fp, ts), aad_env(domain@, msg_to_auth@), payload@),
                    sig@,
                ));
                assert(verify_ok(
                    msg_to_check@,
                    payload@,
                    msg_to_auth@,
                    verifier@,
                    domain@,
                    max_drift,
                    now,
                ));
            }
            Ok(payload)
        },
        Err(_) => Err(CoseError::BadSignature),
    }
}

/// Verifies a signed envelope against the current system time and returns
/// the embedded payload. With `max_drift` absent the clock is not read and
/// no freshness check is made.
pub fn cose_verify(
    msg_to_check: Vec<u8>,
    msg_to_auth: Vec<u8>,
    verifier: &XdsaPublicKey,
    domain: Vec<u8>,
    max_drift: Option<u64>,
) -> (r: Result<Vec<u8>, CoseError>)
    ensures
        r matches Ok(p) ==> exists|now: i64| #[trigger] verify_ok(
            msg_to_check@,
            p@,
            msg_to_auth@,
            verifier@,
            domain@,
            max_drift,
            now,
        ),
        max_drift is None ==> (forall|p: Seq<u8>, now: i64|
            #[trigger] verify_ok(msg_to_check@, p, msg_to_auth@, verifier@, domain@, max_drift, now)
                ==> (r matches Ok(q) && q@ == p)),
{
    let now = if max_drift.is_some() {
        now_unix()
    } else {
        0
    };
    let r = cose_verify_at(msg_to_check, msg_to_auth, verifier, domain, max_drift, now);
    proof {
        if max_drift is None {
            assert forall|p: Seq<u8>, now2: i64|
                #[trigger] verify_ok(
                    msg_to_check@,
                    p,
                    msg_to_auth@,
                    verifier@,
                    domain@,
                    max_drift,
                    now2,
                ) implies verify_ok(
                msg_to_check@,
                p,
                msg_to_auth@,
                verifier@,
                domain@,
                max_drift,
                now,
            ) by {
                let (ts, sig) = choose|ts: i64, sig: Seq<u8>|
                    sig.len() == 3373 && msg_to_check@ == #[trigger] sign1_enc(
                        sig_protected(xdsa_fingerprint_of(verifier@), ts),
                        Some(p),
                        sig,
                    ) && drift_ok(max_drift, now2, ts) && xdsa_sig_ok(
                        verifier@,
                        sig_blob(
                            sig_protected(xdsa_fingerprint_of(verifier@), ts),
                            aad_env(domain@, msg_to_auth@),
                            p,
                        ),
                        sig,
                    );
                assert(drift_ok(max_drift, now, ts));
            }
        }
    }
    r
}

/// Verifies a detached signed envelope against an explicit current time.
/// The envelope must hold no payload; the caller's message is authenticated
/// through the signature input alone.
pub fn cose_verify_detached_at(
    msg_to_check: Vec<u8>,
    msg_to_auth: Vec<u8>,
    verifier: &XdsaPublicKey,
    domain: Vec<u8>,
    max_drift: Option<u64>,
    now: i64,
) -> (r: Result<(), CoseError>)
    ensures
        r matches Ok(()) ==> verify_detached_ok(
            msg_to_check@,
            msg_to_auth@,
            verifier@,
            domain@,
            max_drift,
            now,
        ),
        verify_detached_ok(msg_to_check@, msg_to_auth@, verifier@, domain@, max_drift, now) ==> r
            matches Ok(()),
        !sign1_wf(msg_to_check@) ==> r == Err::<(), CoseError>(CoseError::Malformed),
        forall|prot: Seq<u8>, pay: Option<Seq<u8>>, sig: Seq<u8>|
            #[trigger] sign1_decomp(msg_to_check@, prot, pay, sig) && pay is Some ==> r == Err::<
                (),
                CoseError,
            >(CoseError::UnexpectedPayload),
        forall|prot: Seq<u8>, pay: Option<Seq<u8>>, sig: Seq<u8>|
            #[trigger] sign1_decomp(msg_to_check@, prot, pay, sig) && pay is None && !prot_wf(prot)
                ==> r == Err::<(), CoseError>(CoseError::Malformed),
        forall|prot: Seq<u8>, pay: Option<Seq<u8>>, sig: Seq<u8>, alg: i64, crit: i64, kid: Seq<
            u8,
        >, ts: i64|
            #![trigger sign1_decomp(msg_to_check@, prot, pay, sig), prot_decomp(prot, alg, crit, kid, ts)]
            sign1_decomp(msg_to_check@, prot, pay, sig) && pay is None && prot_decomp(
                prot,
                alg,
                crit,
                kid,
                ts,
            ) ==> (if !(alg == ALGORITHM_ID_XDSA && crit == HEADER_TIMESTAMP) {
                r == Err::<(), CoseError>(CoseError::WrongAlgorithm)
            } else if kid != xdsa_fingerprint_of(verifier@) {
                r == Err::<(), CoseError>(CoseError::WrongKey)
            } else if !drift_ok(max_drift, now, ts) {
                r == Err::<(), CoseError>(CoseError::Stale)
            } else if !xdsa_sig_ok(
                verifier@,
                sig_blob(prot, aad_env(domain@, msg_to_auth@), Seq::empty()),
                sig,
            ) {
                r == Err::<(), CoseError>(CoseError::BadSignature)
            } else {
                r matches Ok(())
            }),
{
    let fpb = verifier.fingerprint().to_bytes();
    let parts = match parse_sign1(&msg_to_check) {
        Some(p) => p,
        None => {
            return Err(CoseError::Malformed);
        },
    };
    proof {
        assert(sign1_decomp(
            msg_to_check@,
            parts.protected@,
            opt_view(parts.payload),
            parts.signature@,
        ));
    }
    let Sign1Parts { protected, payload, signature } = parts;
    match payload {
        Some(_) => {
            return Err(CoseError::UnexpectedPayload);
        },
        None => {},
    }
    let (alg, crit, kid, ts) = match parse_sig_protected(&protected) {
        Some(t) => t,
        None => {
            return Err(CoseError::Malformed);
        },
    };
    proof {
        assert(prot_decomp(protected@, alg, crit, kid@, ts));
    }
    if !(alg == ALGORITHM_ID_XDSA && crit == HEADER_TIMESTAMP) {
        return Err(CoseError::WrongAlgorithm);
    }
    if !bytes_eq(&kid, &fpb) {
        return Err(CoseError::WrongKey);
    }
    if !drift_check(max_drift, now, ts) {
        return Err(CoseError::Stale);
    }
    let aad = build_aad_env(&domain, &msg_to_auth);
    let empty: Vec<u8> = Vec::new();
    let blob = build_sig_blob(&protected, &aad, &empty);
    let sig = match XdsaSignature::from_bytes(signature) {
        Ok(s) => s,
        Err(_) => {
            proof {
                assert(false);
            }
            return Err(CoseError::Malformed);
        },
    };
    match verifier.verify(blob, &sig) {
        Ok(()) => {
            proof {
                let fp = xdsa_fingerprint_of(verifier@);
                assert(protected@ == sig_protected(fp, ts));
                assert(msg_to_check@ == sign1_enc(sig_protected(fp, ts), None, sig@));
                assert(xdsa_sig_ok(
                    verifier@,
                    sig_blob(sig_protected(fp, ts), aad_env(domain@, msg_to_auth@), Seq::empty()),
                    sig@,
                ));
                assert(verify_detached_ok(
                    msg_to_check@,
                    msg_to_auth@,
                    verifier@,
                    domain@,
                    max_drift,
                    now,
                ));
            }
            Ok(())
        },
        Err(_) => Err(CoseError::BadSignature),
    }
}

/// Verifies a detached signed envelope against the current system time. With
/// `max_drift` absent the clock is not read and no freshness check is made.
pub fn cose_verify_detached(
    msg_to_check: Vec<u8>,
    msg_to_auth: Vec<u8>,
    verifier: &XdsaPublicKey,
    domain: Vec<u8>,
    max_drift: Option<u64>,
) -> (r: Result<(), CoseError>)
    ensures
        r matches Ok(()) ==> exists|now: i64| #[trigger] verify_detached_ok(
            msg_to_check@,
            msg_to_auth@,
            verifier@,
            domain@,
            max_drift,
            now,
        ),
        max_drift is None ==> (forall|now: i64|
            #[trigger] verify_detached_ok(
                msg_to_check@,
                msg_to_auth@,
                verifier@,
                domain@,
                max_drift,
                now,
            ) ==> r matches Ok(())),
{
    let now = if max_drift.is_some() {
        now_unix()
    } else {
        0
    };
    let r = cose_verify_detached_at(msg_to_check, msg_to_auth, verifier, domain, max_drift, now);
    proof {
        if max_drift is None {
            assert forall|now2: i64|
                #[trigger] verify_detached_ok(
                    msg_to_check@,
                    msg_to_auth@,
                    verifier@,
                    domain@,
                    max_drift,
                    now2,
                ) implies verify_detached_ok(
                msg_to_check@,
                msg_to_auth@,
                verifier@,
                domain@,
                max_drift,
                now,
            ) by {
                let (ts, sig) = choose|ts: i64, sig: Seq<u8>|
                    sig.len() == 3373 && msg_to_check@ == #[trigger] sign1_enc(
                        sig_protected(xdsa_fingerprint_of(verifier@), ts),
                        None,
                        sig,
                    ) && drift_ok(max_drift, now2, ts) && xdsa_sig_ok(
                        verifier@,
                        sig_blob(
                            sig_protected(xdsa_fingerprint_of(verifier@), ts),
                            aad_env(domain@, msg_to_auth@),
                            Seq::empty(),
                        ),
                        sig,
                    );
                assert(drift_ok(max_drift, now, ts));
            }
        }
    }
    r
}

/// The executable drift check, equal to `drift_ok`.
fn drift_check(max_drift: Option<u64>, now: i64, ts: i64) -> (r: bool)
    ensures
        r == drift_ok(max_drift, now, ts),
{
    match max_drift {
        None => true,
        Some(d) => {
            let ad: i128 = if now >= ts {
                (now as i128) - (ts as i128)
            } else {
                (ts as i128) - (now as i128)
            };
            ad <= (d as i128)
        },
    }
}

/// An envelope signed and verified with the same payload, authenticated
/// data, domain, key pair and a timestamp within the drift bound verifies
/// successfully and yields the payload back: the round trip of the sign and
/// verify pair, for every payload, authenticated data and domain.
pub proof fn lemma_sign_then_verify(
    env: Seq<u8>,
    payload: Seq<u8>,
    aad: Seq<u8>,
    pk: Seq<u8>,
    domain: Seq<u8>,
    ts: i64,
    max_drift: Option<u64>,
    now: i64,
)
    requires
        sign_produced(env, Some(payload), aad, pk, domain, ts),
        drift_ok(max_drift, now, ts),
    ensures
        verify_ok(env, payload, aad, pk, domain, max_drift, now),
{
    let sig = choose|sig: Seq<u8>|
        sig.len() == 3373 && env == #[trigger] sign1_enc(
            sig_protected(xdsa_fingerprint_of(pk), ts),
            Some(payload),
            sig,
        ) && xdsa_sig_ok(
            pk,
            sig_blob(
                sig_protected(xdsa_fingerprint_of(pk), ts),
                aad_env(domain, aad),
                payload_bytes(Some(payload)),
            ),
            sig,
        );
    assert(sig.len() == 3373 && env == sign1_enc(
        sig_protected(xdsa_fingerprint_of(pk), ts),
        Some(payload),
        sig,
    ) && drift_ok(max_drift, now, ts) && xdsa_sig_ok(
        pk,
        sig_blob(sig_protected(xdsa_fingerprint_of(pk), ts), aad_env(domain, aad), payload),
        sig,
    ));
}

/// A detached envelope signed and verified with the same authenticated data,
/// domain, key pair and a timestamp within the drift bound verifies
/// successfully.
pub proof fn lemma_sign_detached_then_verify_detached(
    env: Seq<u8>,
    aad: Seq<u8>,
    pk: Seq<u8>,
    domain: Seq<u8>,
    ts: i64,
    max_drift: Option<u64>,
    now: i64,
)
    requires
        sign_produced(env, None, aad, pk, domain, ts),
        drift_ok(max_drift, now, ts),
    ensures
        verify_detached_ok(env, aad, pk, domain, max_drift, now),
{
    let sig = choose|sig: Seq<u8>|
        sig.len() == 3373 && env == #[trigger] sign1_enc(
            sig_protected(xdsa_fingerprint_of(pk), ts),
            None,
            sig,
        ) && xdsa_sig_ok(
            pk,
            sig_blob(
                sig_protected(xdsa_fingerprint_of(pk), ts),
                aad_env(domain, aad),
                payload_bytes(None),
            ),
            sig,
        );
    assert(sig.len() == 3373 && env == sign1_enc(
        sig_protected(xdsa_fingerprint_of(pk), ts),
        None,
        sig,
    ) && drift_ok(max_drift, now, ts) && xdsa_sig_ok(
        pk,
        sig_blob(sig_protected(xdsa_fingerprint_of(pk), ts), aad_env(domain, aad), Seq::empty()),
        sig,
    ));
}

/// What encrypting to a recipient produces: an encrypted envelope whose
/// protected header names the recipient's fingerprint, carrying an
/// encapsulated session key and a ciphertext that any secret key with that
/// public half opens — under the recomputed encryption input structure and
/// the same domain — to the given plaintext.
pub open spec fn encrypt_produced(
    env: Seq<u8>,
    plaintext: Seq<u8>,
    aad: Seq<u8>,
    pk: Seq<u8>,
    domain: Seq<u8>,
) -> bool {
    exists|encap: Seq<u8>, ct: Seq<u8>|
        encap.len() == 1120 && env == #[trigger] encrypt0_enc(
            enc_protected(xhpke_fingerprint_of(pk)),
            encap,
            ct,
        ) && (forall|seed: Seq<u8>|
            xhpke_public_of(seed) == pk ==> #[trigger] xhpke_open_of(
                seed,
                encap,
                ct,
                enc_blob(enc_protected(xhpke_fingerprint_of(pk)), aad),
                domain,
            ) == Some(plaintext))
}

/// A decomposition of an encrypted envelope into its three parts.
pub open spec fn e0_decomp(env: Seq<u8>, prot: Seq<u8>, encap: Seq<u8>, ct: Seq<u8>) -> bool {
    env == encrypt0_enc(prot, encap, ct)
}

/// Whether a buffer is a well-formed encrypted envelope.
pub open spec fn e0_wf(env: Seq<u8>) -> bool {
    exists|prot: Seq<u8>, encap: Seq<u8>, ct: Seq<u8>| #[trigger] e0_decomp(env, prot, encap, ct)
}

/// A decomposition of encryption protected-header bytes into its fields.
pub open spec fn eprot_decomp(prot: Seq<u8>, alg: i64, kid: Seq<u8>) -> bool {
    kid.len() == 32 && prot == enc_protected_gen(alg, kid)
}

/// Whether a buffer is a well-formed encryption protected header.
pub open spec fn eprot_wf(prot: Seq<u8>) -> bool {
    exists|alg: i64, kid: Seq<u8>| #[trigger] eprot_decomp(prot, alg, kid)
}

/// Whether a buffer starts with one well-formed signed envelope.
pub open spec fn sign1_prefix_wf(pt: Seq<u8>) -> bool {
    exists|prot: Seq<u8>, pay: Option<Seq<u8>>, sig: Seq<u8>|
        sig.len() == 3373 && is_match_at(pt, 0, #[trigger] sign1_enc(prot, pay, sig))
}

/// `pt` is `s1` followed by zero bytes only.
pub open spec fn zero_padded(pt: Seq<u8>, s1: Seq<u8>) -> bool {
    s1.len() <= pt.len() && pt.subrange(0, s1.len() as int) == s1 && (forall|i: int|
        s1.len() <= i < pt.len() ==> pt[i] == 0)
}

/// The exact condition under which decryption succeeds and returns the
/// signed envelope `s1`: the input names the recipient's fingerprint, the
/// hybrid decryption of its ciphertext under the recomputed encryption input
/// succeeds, and the plaintext is one signed envelope followed by zeros.
pub open spec fn decrypt_ok(
    env: Seq<u8>,
    aad: Seq<u8>,
    seed: Seq<u8>,
    domain: Seq<u8>,
    s1: Seq<u8>,
) -> bool {
    exists|encap: Seq<u8>, ct: Seq<u8>, pt: Seq<u8>|
        #![trigger encrypt0_enc(enc_protected(xhpke_fingerprint_of(xhpke_public_of(seed))), encap, ct), zero_padded(pt, s1)]
        encap.len() == 1120 && env == encrypt0_enc(
            enc_protected(xhpke_fingerprint_of(xhpke_public_of(seed))),
            encap,
            ct,
        ) && xhpke_open_of(
            seed,
            encap,
            ct,
            enc_blob(enc_protected(xhpke_fingerprint_of(xhpke_public_of(seed))), aad),
            domain,
        ) == Some(pt) && zero_padded(pt, s1) && sign1_wf(s1)
}

/// Encrypts an already-signed envelope to a recipient, binding the caller's
/// message and domain as encryption-layer authenticated data. The input is
/// not validated here: a buffer that is not a signed envelope encrypts, and
/// decryption rejects it. Prefer `cose_seal`, which signs and encrypts in
/// one step; this entry point serves re-encryption of a decrypted-but-still-
/// signed message to a new recipient.
pub fn cose_encrypt(
    sign1: Vec<u8>,
    msg_to_auth: Vec<u8>,
    recipient: &XhpkePublicKey,
    domain: Vec<u8>,
) -> (r: Result<Vec<u8>, CoseError>)
    ensures
        r matches Ok(c) ==> encrypt_produced(c@, sign1@, msg_to_auth@, recipient@, domain@),
        r matches Err(e) ==> e == CoseError::DecryptFailed,
{
    let fpb = recipient.fingerprint().to_bytes();
    let protected = build_enc_protected(&fpb);
    let blob = build_enc_blob(&protected, &msg_to_auth);
    match recipient.seal(sign1, blob, domain) {
        Ok((encap, ct)) => {
            let env = build_encrypt0(&protected, &encap, &ct);
            Ok(env)
        },
        Err(_) => Err(CoseError::DecryptFailed),
    }
}

/// Decrypts an encrypted envelope and returns the inner signed envelope,
/// still unverified: callers must pass the result to `cose_signer` and
/// `cose_verify` before trusting it. Zero bytes after the inner envelope are
/// stripped, whatever their number; a nonzero byte there is rejected.
pub fn cose_decrypt(
    msg_to_open: Vec<u8>,
    msg_to_auth: Vec<u8>,
    recipient: &XhpkeSecretKey,
    domain: Vec<u8>,
) -> (r: Result<Vec<u8>, CoseError>)
    ensures
        r matches Ok(s1) ==> decrypt_ok(msg_to_open@, msg_to_auth@, recipient@, domain@, s1@),
        forall|s1: Seq<u8>|
            #[trigger] decrypt_ok(msg_to_open@, msg_to_auth@, recipient@, domain@, s1) ==> (
            r matches Ok(q) && q@ == s1),
        !e0_wf(msg_to_open@) ==> r == Err::<Vec<u8>, CoseError>(CoseError::Malformed),
        forall|prot: Seq<u8>, encap: Seq<u8>, ct: Seq<u8>|
            #[trigger] e0_decomp(msg_to_open@, prot, encap, ct) && !eprot_wf(prot) ==> r == Err::<
                Vec<u8>,
                CoseError,
            >(CoseError::Malformed),
        forall|prot: Seq<u8>, encap: Seq<u8>, ct: Seq<u8>, alg: i64, kid: Seq<u8>|
            #![trigger e0_decomp(msg_to_open@, prot, encap, ct), eprot_decomp(prot, alg, kid)]
            e0_decomp(msg_to_open@, prot, encap, ct) && eprot_decomp(prot, alg, kid) ==> (if alg
                != ALGORITHM_ID_XHPKE {
                r == Err::<Vec<u8>, CoseError>(CoseError::WrongAlgorithm)
            } else if kid != xhpke_fingerprint_of(xhpke_public_of(recipient@)) {
                r == Err::<Vec<u8>, CoseError>(CoseError::WrongKey)
            } else if encap.len() != 1120 {
                r == Err::<Vec<u8>, CoseError>(CoseError::BadEncapKey)
            } else if xhpke_open_of(
                recipient@,
                encap,
                ct,
                enc_blob(prot, msg_to_auth@),
                domain@,
            ) is None {
                r == Err::<Vec<u8>, CoseError>(CoseError::DecryptFailed)
            } else if !sign1_prefix_wf(
                xhpke_open_of(
                    recipient@,
                    encap,
                    ct,
                    enc_blob(prot, msg_to_auth@),
                    domain@,
                )->Some_0,
            ) {
                r == Err::<Vec<u8>, CoseError>(CoseError::Malformed)
            } else {
                r matches Ok(_) || r == Err::<Vec<u8>, CoseError>(CoseError::BadPadding)
            }),
{
    let fpb = recipient.fingerprint().to_bytes();
    let (prot, encap, ct) = match parse_encrypt0(&msg_to_open) {
        Some(t) => t,
        None => {
            return Err(CoseError::Malformed);
        },
    };
    proof {
        assert(e0_decomp(msg_to_open@, prot@, encap@, ct@));
    }
    let (alg, kid) = match parse_enc_protected(&prot) {
        Some(t) => t,
        None => {
            return Err(CoseError::Malformed);
        },
    };
    proof {
        assert(eprot_decomp(prot@, alg, kid@));
    }
    if alg != ALGORITHM_ID_XHPKE {
        return Err(CoseError::WrongAlgorithm);
    }
    if !bytes_eq(&kid, &fpb) {
        return Err(CoseError::WrongKey);
    }
    if encap.len() != 1120 {
        return Err(CoseError::BadEncapKey);
    }
    let blob = build_enc_blob(&prot, &msg_to_auth);
    let pt = match recipient.open(encap, ct, blob, domain) {
        Ok(p) => p,
        Err(_) => {
            return Err(CoseError::DecryptFailed);
        },
    };
    let (parts, end) = match parse_sign1_prefix(&pt) {
        Some(t) => t,
        None => {
            return Err(CoseError::Malformed);
        },
    };
    proof {
        assert(sign1_decomp(
            pt@.subrange(0, end as int),
            parts.protected@,
            opt_view(parts.payload),
            parts.signature@,
        )) by {
            assert(pt@.subrange(0, end as int) =~= sign1_enc(
                parts.protected@,
                opt_view(parts.payload),
                parts.signature@,
            ));
        }
    }
    if !all_zero_from(&pt, end) {
        return Err(CoseError::BadPadding);
    }
    let s1 = copy_range(&pt, 0, end);
    proof {
        assert(zero_padded(pt@, s1@));
        assert(decrypt_ok(msg_to_open@, msg_to_auth@, recipient@, domain@, s1@));
    }
    Ok(s1)
}

/// Signs a message with an explicit timestamp, then encrypts the signed
/// envelope to a recipient, binding the same authenticated data and domain
/// at both layers.
pub fn cose_seal_at(
    msg_to_seal: Vec<u8>,
    msg_to_auth: Vec<u8>,
    signer: &XdsaSecretKey,
    recipient: &XhpkePublicKey,
    domain: Vec<u8>,
    timestamp: i64,
) -> (r: Result<Vec<u8>, CoseError>)
    ensures
        r matches Ok(c) ==> exists|s1: Seq<u8>|
            #[trigger] sign_produced(
                s1,
                Some(msg_to_seal@),
                msg_to_auth@,
                xdsa_public_of(signer@),
                domain@,
                timestamp,
            ) && encrypt_produced(c@, s1, msg_to_auth@, recipient@, domain@),
        r matches Err(e) ==> e == CoseError::DecryptFailed,
{
    let aad2 = clone_bytes(&msg_to_auth);
    let domain2 = clone_bytes(&domain);
    let s1 = cose_sign_at(msg_to_seal, aad2, signer, domain2, timestamp);
    cose_encrypt(s1, msg_to_auth, recipient, domain)
}

/// Signs a message stamped with the current system time, then encrypts the
/// signed envelope to a recipient: the recommended entry point for
/// produce-once messages.
pub fn cose_seal(
    msg_to_seal: Vec<u8>,
    msg_to_auth: Vec<u8>,
    signer: &XdsaSecretKey,
    recipient: &XhpkePublicKey,
    domain: Vec<u8>,
) -> (r: Result<Vec<u8>, CoseError>)
    ensures
        r matches Ok(c) ==> exists|s1: Seq<u8>, ts: i64|
            #[trigger] sign_produced(
                s1,
                Some(msg_to_seal@),
                msg_to_auth@,
                xdsa_public_of(signer@),
                domain@,
                ts,
            ) && encrypt_produced(c@, s1, msg_to_auth@, recipient@, domain@),
        r matches Err(e) ==> e == CoseError::DecryptFailed,
{
    let now = now_unix();
    cose_seal_at(msg_to_seal, msg_to_auth, signer, recipient, domain, now)
}

/// Decrypts a sealed message against an explicit current time, then verifies
/// the inner signature: the single recommended entry point for consume-once
/// messages. Any failure of either stage is reported as an error and no
/// partial data is returned.
pub fn cose_open_at(
    msg_to_open: Vec<u8>,
    msg_to_auth: Vec<u8>,
    recipient: &XhpkeSecretKey,
    sender: &XdsaPublicKey,
    domain: Vec<u8>,
    max_drift: Option<u64>,
    now: i64,
) -> (r: Result<Vec<u8>, CoseError>)
    ensures
        r matches Ok(p) ==> exists|s1: Seq<u8>|
            #[trigger] decrypt_ok(msg_to_open@, msg_to_auth@, recipient@, domain@, s1)
                && verify_ok(s1, p@, msg_to_auth@, sender@, domain@, max_drift, now),
        forall|s1: Seq<u8>, p: Seq<u8>|
            #![trigger decrypt_ok(msg_to_open@, msg_to_auth@, recipient@, domain@, s1), verify_ok(s1, p, msg_to_auth@, sender@, domain@, max_drift, now)]
            decrypt_ok(msg_to_open@, msg_to_auth@, recipient@, domain@, s1) && verify_ok(
                s1,
                p,
                msg_to_auth@,
                sender@,
                domain@,
                max_drift,
                now,
            ) ==> (r matches Ok(q) && q@ == p),
{
    let aad2 = clone_bytes(&msg_to_auth);
    let domain2 = clone_bytes(&domain);
    let s1 = match cose_decrypt(msg_to_open, aad2, recipient, domain2) {
        Ok(s) => s,
        Err(e) => {
            return Err(e);
        },
    };
    cose_verify_at(s1, msg_to_auth, sender, domain, max_drift, now)
}

/// Decrypts a sealed message against the current system time, then verifies
/// the inner signature. With `max_drift` absent the clock is not read and no
/// freshness check is made.
pub fn cose_open(
    msg_to_open: Vec<u8>,
    msg_to_auth: Vec<u8>,
    recipient: &XhpkeSecretKey,
    sender: &XdsaPublicKey,
    domain: Vec<u8>,
    max_drift: Option<u64>,
) -> (r: Result<Vec<u8>, CoseError>)
    ensures
        r matches Ok(p) ==> exists|s1: Seq<u8>, now: i64|
            #[trigger] decrypt_ok(msg_to_open@, msg_to_auth@, recipient@, domain@, s1)
                && #[trigger] verify_ok(s1, p@, msg_to_auth@, sender@, domain@, max_drift, now),
        max_drift is None ==> (forall|s1: Seq<u8>, p: Seq<u8>, now2: i64|
            #![trigger decrypt_ok(msg_to_open@, msg_to_auth@, recipient@, domain@, s1), verify_ok(s1, p, msg_to_auth@, sender@, domain@, max_drift, now2)]
            decrypt_ok(msg_to_open@, msg_to_auth@, recipient@, domain@, s1) && verify_ok(
                s1,
                p,
                msg_to_auth@,
                sender@,
                domain@,
                max_drift,
                now2,
            ) ==> (r matches Ok(q) && q@ == p)),
{
    let now = if max_drift.is_some() {
        now_unix()
    } else {
        0
    };
    let r = cose_open_at(msg_to_open, msg_to_auth, recipient, sender, domain, max_drift, now);
    proof {
        if max_drift is None {
            assert forall|s1: Seq<u8>, p: Seq<u8>, now2: i64|
                decrypt_ok(msg_to_open@, msg_to_auth@, recipient@, domain@, s1) && #[trigger]
            verify_ok(s1, p, msg_to_auth@, sender@, domain@, max_drift, now2) implies verify_ok(
                s1,
                p,
                msg_to_auth@,
                sender@,
                domain@,
                max_drift,
                now,
            ) by {
                let (ts, sig) = choose|ts: i64, sig: Seq<u8>|
                    sig.len() == 3373 && s1 == #[trigger] sign1_enc(
                        sig_protected(xdsa_fingerprint_of(sender@), ts),
                        Some(p),
                        sig,
                    ) && drift_ok(max_drift, now2, ts) && xdsa_sig_ok(
                        sender@,
                        sig_blob(
                            sig_protected(xdsa_fingerprint_of(sender@), ts),
                            aad_env(domain@, msg_to_auth@),
                            p,
                        ),
                        sig,
                    );
                assert(drift_ok(max_drift, now, ts));
            }
        }
    }
    r
}

/// Extracts the claimed signer fingerprint from a signed envelope without
/// any cryptographic check: the result is untrusted metadata for key lookup
/// until a verification against the corresponding public key succeeds.
#[verifier::rlimit(100)]
pub fn cose_signer(signature: Vec<u8>) -> (r: Result<XdsaFingerprint, CoseError>)
    ensures
        r matches Ok(f) ==> signer_ok(signature@, f@),
        forall|prot: Seq<u8>, pay: Option<Seq<u8>>, sig: Seq<u8>, alg: i64, crit: i64, kid: Seq<
            u8,
        >, ts: i64|
            #![trigger sign1_decomp(signature@, prot, pay, sig), prot_decomp(prot, alg, crit, kid, ts)]
            sign1_decomp(signature@, prot, pay, sig) && prot_decomp(prot, alg, crit, kid, ts) ==> (
            r matches Ok(f) && f@ == kid),
        r matches Err(e) ==> e == CoseError::Malformed,
{
    let parts = match parse_sign1(&signature) {
        Some(p) => p,
        None => {
            return Err(CoseError::Malformed);
        },
    };
    proof {
        assert(sign1_decomp(
            signature@,
            parts.protected@,
            opt_view(parts.payload),
            parts.signature@,
        ));
    }
    let (alg, crit, kid, ts) = match parse_sig_protected(&parts.protected) {
        Some(t) => t,
        None => {
            return Err(CoseError::Malformed);
        },
    };
    proof {
        assert(prot_decomp(parts.protected@, alg, crit, kid@, ts));
    }
    let f = match XdsaFingerprint::from_bytes(kid) {
        Ok(f) => f,
        Err(_) => {
            proof {
                assert(false);
            }
            return Err(CoseError::Malformed);
        },
    };
    proof {
        assert(prot_decomp(parts.protected@, alg, crit, f@, ts));
        assert(signer_ok(signature@, f@));
    }
    Ok(f)
}

/// Extracts the embedded payload from a signed envelope without any
/// cryptographic check. The result is unauthenticated and must not be
/// trusted until a verification succeeds.
#[verifier::rlimit(100)]
pub fn cose_peek(signature: Vec<u8>) -> (r: Result<Vec<u8>, CoseError>)
    ensures
        r matches Ok(p) ==> peek_ok(signature@, p@),
        forall|prot: Seq<u8>, pay: Option<Seq<u8>>, sig: Seq<u8>|
            #[trigger] sign1_decomp(signature@, prot, pay, sig) ==> ((pay matches Some(pp) ==> (
            r matches Ok(q) && q@ == pp)) && (pay is None ==> r == Err::<Vec<u8>, CoseError>(
                CoseError::MissingPayload,
            ))),
        !sign1_wf(signature@) ==> r == Err::<Vec<u8>, CoseError>(CoseError::Malformed),
{
    let parts = match parse_sign1(&signature) {
        Some(p) => p,
        None => {
            return Err(CoseError::Malformed);
        },
    };
    proof {
        assert(sign1_decomp(
            signature@,
            parts.protected@,
            opt_view(parts.payload),
            parts.signature@,
        ));
    }
    match parts.payload {
        Some(p) => {
            proof {
                assert(sign1_decomp(signature@, parts.protected@, Some(p@), parts.signature@));
                assert(peek_ok(signature@, p@));
            }
            Ok(p)
        },
        None => Err(CoseError::MissingPayload),
    }
}

/// Extracts the claimed recipient fingerprint from an encrypted envelope
/// without decrypting, for key-lookup dispatch. The result is untrusted
/// metadata: decryption still authenticates against the domain and the
/// caller's message.
#[verifier::rlimit(100)]
pub fn cose_recipient(ciphertext: Vec<u8>) -> (r: Result<XhpkeFingerprint, CoseError>)
    ensures
        r matches Ok(f) ==> recipient_ok(ciphertext@, f@),
        forall|prot: Seq<u8>, encap: Seq<u8>, ct: Seq<u8>, alg: i64, kid: Seq<u8>|
            #![trigger e0_decomp(ciphertext@, prot, encap, ct), eprot_decomp(prot, alg, kid)]
            e0_decomp(ciphertext@, prot, encap, ct) && eprot_decomp(prot, alg, kid) ==> (r matches
                Ok(f) && f@ == kid),
        r matches Err(e) ==> e == CoseError::Malformed,
{
    let (prot, encap, ct) = match parse_encrypt0(&ciphertext) {
        Some(t) => t,
        None => {
            return Err(CoseError::Malformed);
        },
    };
    proof {
        assert(e0_decomp(ciphertext@, prot@, encap@, ct@));
    }
    let (alg, kid) = match parse_enc_protected(&prot) {
        Some(t) => t,
        None => {
            return Err(CoseError::Malformed);
        },
    };
    proof {
        assert(eprot_decomp(prot@, alg, kid@));
    }
    let f = match XhpkeFingerprint::from_bytes(kid) {
        Ok(f) => f,
        Err(_) => {
            proof {
                assert(false);
            }
            return Err(CoseError::Malformed);
        },
    };
    proof {
        assert(eprot_decomp(prot@, alg, f@));
        assert(recipient_ok(ciphertext@, f@));
    }
    Ok(f)
}

/// Whether every byte of `b` at or after `from` is zero.
fn all_zero_from(b: &Vec<u8>, from: usize) -> (r: bool)
    requires
        from <= b.len(),
    ensures
        r == (forall|j: int| from <= j < b@.len() ==> b@[j] == 0),
{
    let mut i: usize = from;
    while i < b.len()
        invariant
            from <= i <= b@.len(),
            forall|j: int| from <= j < i ==> b@[j] == 0,
        decreases b@.len() - i,
    {
        if b[i] != 0 {
            return false;
        }
        i = i + 1;
    }
    true
}

/// A copy of a byte vector.
fn clone_bytes(b: &Vec<u8>) -> (r: Vec<u8>)
    ensures
        r@ == b@,
{
    copy_range(b, 0, b.len())
}

/// Sealing then opening round-trips: a message signed and encrypted under
/// matching keys, authenticated data and domain decrypts to the signed
/// envelope and verifies back to the message, for every message,
/// authenticated data and domain, provided the recipient's secret key
/// matches the encryption key and the timestamp lies within the drift bound.
pub proof fn lemma_seal_then_open(
    env: Seq<u8>,
    s1: Seq<u8>,
    payload: Seq<u8>,
    aad: Seq<u8>,
    sig_pk: Seq<u8>,
    enc_pk: Seq<u8>,
    seed: Seq<u8>,
    domain: Seq<u8>,
    ts: i64,
    max_drift: Option<u64>,
    now: i64,
)
    requires
        sign_produced(s1, Some(payload), aad, sig_pk, domain, ts),
        encrypt_produced(env, s1, aad, enc_pk, domain),
        xhpke_public_of(seed) == enc_pk,
        drift_ok(max_drift, now, ts),
    ensures
        decrypt_ok(env, aad, seed, domain, s1),
        verify_ok(s1, payload, aad, sig_pk, domain, max_drift, now),
{
    lemma_sign_then_verify(s1, payload, aad, sig_pk, domain, ts, max_drift, now);
    let sig = choose|sig: Seq<u8>|
        sig.len() == 3373 && s1 == #[trigger] sign1_enc(
            sig_protected(xdsa_fingerprint_of(sig_pk), ts),
            Some(payload),
            sig,
        ) && xdsa_sig_ok(
            sig_pk,
            sig_blob(
                sig_protected(xdsa_fingerprint_of(sig_pk), ts),
                aad_env(domain, aad),
                payload_bytes(Some(payload)),
            ),
            sig,
        );
    assert(sign1_decomp(s1, sig_protected(xdsa_fingerprint_of(sig_pk), ts), Some(payload), sig));
    let (encap, ct) = choose|encap: Seq<u8>, ct: Seq<u8>|
        encap.len() == 1120 && env == #[trigger] encrypt0_enc(
            enc_protected(xhpke_fingerprint_of(enc_pk)),
            encap,
            ct,
        ) && (forall|seed2: Seq<u8>|
            xhpke_public_of(seed2) == enc_pk ==> #[trigger] xhpke_open_of(
                seed2,
                encap,
                ct,
                enc_blob(enc_protected(xhpke_fingerprint_of(enc_pk)), aad),
                domain,
            ) == Some(s1));
    assert(xhpke_open_of(
        seed,
        encap,
        ct,
        enc_blob(enc_protected(xhpke_fingerprint_of(enc_pk)), aad),
        domain,
    ) == Some(s1));
    assert(zero_padded(s1, s1)) by {
        assert(s1.subrange(0, s1.len() as int) =~= s1);
    }
    assert(decrypt_ok(env, aad, seed, domain, s1));
}

/// The clock-drift boundary: an envelope signed with header timestamp `ts`
/// verifies under a drift bound of `d` seconds exactly when `|now - ts|` is
/// at most `d`, and always verifies when no bound is requested.
pub proof fn lemma_clock_drift_boundary(
    env: Seq<u8>,
    payload: Seq<u8>,
    aad: Seq<u8>,
    pk: Seq<u8>,
    domain: Seq<u8>,
    ts: i64,
    d: u64,
    now: i64,
)
    requires
        sign_produced(env, Some(payload), aad, pk, domain, ts),
        xdsa_fingerprint_of(pk).len() == 32,
    ensures
        verify_ok(env, payload, aad, pk, domain, Some(d), now) <==> drift_ok(Some(d), now, ts),
        verify_ok(env, payload, aad, pk, domain, None, now),
{
    lemma_sign_then_verify(env, payload, aad, pk, domain, ts, None, now);
    if drift_ok(Some(d), now, ts) {
        lemma_sign_then_verify(env, payload, aad, pk, domain, ts, Some(d), now);
    }
    if verify_ok(env, payload, aad, pk, domain, Some(d), now) {
        let fp = xdsa_fingerprint_of(pk);
        let sig1 = choose|sig: Seq<u8>|
            sig.len() == 3373 && env == #[trigger] sign1_enc(
                sig_protected(fp, ts),
                Some(payload),
                sig,
            ) && xdsa_sig_ok(
                pk,
                sig_blob(
                    sig_protected(fp, ts),
                    aad_env(domain, aad),
                    payload_bytes(Some(payload)),
                ),
                sig,
            );
        let (ts2, sig2) = choose|ts2: i64, sig2: Seq<u8>|
            sig2.len() == 3373 && env == #[trigger] sign1_enc(
                sig_protected(fp, ts2),
                Some(payload),
                sig2,
            ) && drift_ok(Some(d), now, ts2) && xdsa_sig_ok(
                pk,
                sig_blob(sig_protected(fp, ts2), aad_env(domain, aad), payload),
                sig2,
            );
        assert(env.subrange(0, env.len() as int) =~= env);
        crate::format::lemma_sig_protected_len_bound(fp, ts);
        crate::format::lemma_sig_protected_len_bound(fp, ts2);
        crate::format::lemma_sign1_protected_unique(
            env,
            sig_protected(fp, ts),
            Some(payload),
            sig1,
            sig_protected(fp, ts2),
            Some(payload),
            sig2,
        );
        crate::format::lemma_sig_protected_ts_unique(sig_protected(fp, ts), fp, ts, ts2);
    }
}

/// Detached and embedded signing stand or fall together: for envelopes
/// honestly produced under the same authenticated data, domain and key, with
/// timestamps within the drift bound, detached verification of the one
/// succeeds exactly when embedded verification of the other does — the
/// signature's validity depends only on the authenticated data, the domain
/// and the key, never on the embedded payload.
pub proof fn lemma_detached_embedded_equivalence(
    env_detached: Seq<u8>,
    env_embedded: Seq<u8>,
    payload: Seq<u8>,
    aad: Seq<u8>,
    pk: Seq<u8>,
    domain: Seq<u8>,
    ts_detached: i64,
    ts_embedded: i64,
    max_drift: Option<u64>,
    now: i64,
)
    requires
        sign_produced(env_detached, None, aad, pk, domain, ts_detached),
        sign_produced(env_embedded, Some(payload), aad, pk, domain, ts_embedded),
        drift_ok(max_drift, now, ts_detached),
        drift_ok(max_drift, now, ts_embedded),
    ensures
        verify_detached_ok(env_detached, aad, pk, domain, max_drift, now) <==> verify_ok(
            env_embedded,
            payload,
            aad,
            pk,
            domain,
            max_drift,
            now,
        ),
{
    lemma_sign_detached_then_verify_detached(env_detached, aad, pk, domain, ts_detached, max_drift, now);
    lemma_sign_then_verify(env_embedded, payload, aad, pk, domain, ts_embedded, max_drift, now);
}

} // verus!
