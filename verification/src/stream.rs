//! Chunked authenticated encryption for payloads too large to hold as one
//! ciphertext: the plaintext is split into fixed 64 KiB chunks, each sealed
//! under a per-chunk nonce made of an incrementing counter and an
//! end-of-stream flag. The flag on the final chunk's nonce is the sole
//! truncation defense: a ciphertext missing its final chunk fails to
//! decrypt rather than yielding a silently shortened plaintext.
//!
//! The symmetric key must never be reused across two encryption calls; this
//! layer cannot detect reuse and treats the caller's key-freshness guarantee
//! as a precondition.

use vstd::prelude::*;

use chacha20poly1305::aead::{Aead, KeyInit};

use crate::codec::{be_bytes, be_vec, copy_range, lemma_be_bytes_len, push_vec};
use crate::errors::StreamError;

verus! {

/// Plaintext bytes per chunk.
pub const CHUNK_SIZE: usize = 65536;

/// Authentication tag bytes per chunk.
pub const TAG_SIZE: usize = 16;

/// Ciphertext bytes per full chunk.
pub const ENCRYPTED_CHUNK_SIZE: usize = 65552;

/// The ciphertext-and-tag bytes of one sealed chunk, as a function of key,
/// nonce and plaintext. Only its length is specified here; its contents are
/// whatever the cipher computes.
pub uninterp spec fn chacha_seal_core(key: Seq<u8>, nonce: Seq<u8>, pt: Seq<u8>) -> Seq<u8>;

/// One sealed chunk: sixteen bytes longer than its plaintext, with the
/// cipher's bytes.
pub open spec fn chacha_seal_of(key: Seq<u8>, nonce: Seq<u8>, pt: Seq<u8>) -> Seq<u8> {
    Seq::new(pt.len() + 16, |i: int| chacha_seal_core(key, nonce, pt)[i])
}

/// The twelve-byte chunk nonce: an 11-byte big-endian counter and a final
/// flag byte marking the end of the stream.
pub open spec fn nonce_bytes(counter: u64, last: bool) -> Seq<u8> {
    be_bytes(counter as nat, 11) + seq![
        if last {
            1u8
        } else {
            0u8
        },
    ]
}

/// The whole-stream ciphertext for a plaintext, starting at a given chunk
/// counter: every chunk but the last is full and sealed with the flag clear;
/// the final chunk — possibly empty, possibly full — is sealed with the flag
/// set.
pub open spec fn stream_enc_from(key: Seq<u8>, pt: Seq<u8>, counter: u64) -> Seq<u8>
    decreases pt.len(),
{
    if pt.len() <= CHUNK_SIZE {
        chacha_seal_of(key, nonce_bytes(counter, true), pt)
    } else {
        chacha_seal_of(key, nonce_bytes(counter, false), pt.take(CHUNK_SIZE as int))
            + stream_enc_from(key, pt.skip(CHUNK_SIZE as int), (counter + 1) as u64)
    }
}

/// A stream ciphertext is its plaintext plus sixteen tag bytes per chunk,
/// and never empty.
pub proof fn lemma_stream_enc_len(key: Seq<u8>, pt: Seq<u8>, counter: u64)
    ensures
        stream_enc_from(key, pt, counter).len() >= pt.len() + 16,
        pt.len() <= CHUNK_SIZE ==> stream_enc_from(key, pt, counter).len() == pt.len() + 16,
        pt.len() > CHUNK_SIZE ==> stream_enc_from(key, pt, counter).len() > ENCRYPTED_CHUNK_SIZE,
    decreases pt.len(),
{
    if pt.len() > CHUNK_SIZE {
        lemma_stream_enc_len(key, pt.skip(CHUNK_SIZE as int), (counter + 1) as u64);
    }
}

/// The executable chunk nonce.
fn chunk_nonce(counter: u64, last: bool) -> (r: Vec<u8>)
    ensures
        r@ == nonce_bytes(counter, last),
        r@.len() == 12,
{
    let mut r = be_vec(counter, 11);
    r.push(if last {
        1
    } else {
        0
    });
    proof {
        lemma_be_bytes_len(counter as nat, 11);
        assert(r@ =~= nonce_bytes(counter, last));
    }
    r
}

/// Relies on `chacha20poly1305::ChaCha20Poly1305::encrypt`: the sealed chunk
/// is a function of key, nonce and plaintext, sixteen bytes longer than the
/// plaintext.
#[verifier::external_body]
fn aead_encrypt_chunk(key: &Vec<u8>, nonce: &Vec<u8>, pt: &Vec<u8>) -> (r: Vec<u8>)
    requires
        key@.len() == 32,
        nonce@.len() == 12,
        pt@.len() <= CHUNK_SIZE,
    ensures
        r@ == chacha_seal_core(key@, nonce@, pt@),
        r@ == chacha_seal_of(key@, nonce@, pt@),
{
    let key: [u8; 32] = key.as_slice().try_into().unwrap();
    let nonce: [u8; 12] = nonce.as_slice().try_into().unwrap();
    let cipher = chacha20poly1305::ChaCha20Poly1305::new(&key.into());
    cipher.encrypt(&nonce.into(), pt.as_slice()).unwrap()
}

/// Relies on `chacha20poly1305::ChaCha20Poly1305::decrypt`: opening succeeds
/// exactly on the bytes that sealing the returned plaintext produces, under
/// the same key and nonce.
#[verifier::external_body]
fn aead_decrypt_chunk(key: &Vec<u8>, nonce: &Vec<u8>, ct: &Vec<u8>) -> (r: Option<Vec<u8>>)
    requires
        key@.len() == 32,
        nonce@.len() == 12,
    ensures
        r matches Some(p) ==> ct@ == chacha_seal_of(key@, nonce@, p@),
        r matches Some(q) ==> (forall|p: Seq<u8>|
            ct@ == #[trigger] chacha_seal_of(key@, nonce@, p) ==> p == q@),
        r is None ==> (forall|p: Seq<u8>| ct@ != #[trigger] chacha_seal_of(key@, nonce@, p)),
{
    let key: [u8; 32] = key.as_slice().try_into().unwrap();
    let nonce: [u8; 12] = nonce.as_slice().try_into().unwrap();
    let cipher = chacha20poly1305::ChaCha20Poly1305::new(&key.into());
    cipher.decrypt(&nonce.into(), ct.as_slice()).ok()
}

/// Encrypts a plaintext under a single-use 32-byte key with the chunked
/// construction. The ciphertext is exactly `stream_enc_from(key, plaintext,
/// 0)`; a key of any other length is rejected.
pub fn stream_encrypt(key: Vec<u8>, plaintext: Vec<u8>) -> (r: Result<Vec<u8>, StreamError>)
    ensures
        key@.len() == 32 <==> (r matches Ok(c) && c@ == stream_enc_from(key@, plaintext@, 0)),
        key@.len() != 32 <==> r == Err::<Vec<u8>, StreamError>(StreamError::BadKeyLength),
{
    if key.len() != 32 {
        return Err(StreamError::BadKeyLength);
    }
    let mut out: Vec<u8> = Vec::new();
    let mut offset: usize = 0;
    let mut counter: u64 = 0;
    proof {
        assert(plaintext@.skip(0) =~= plaintext@);
        assert(out@ + stream_enc_from(key@, plaintext@, 0) =~= stream_enc_from(
            key@,
            plaintext@,
            0,
        ));
    }
    while plaintext.len() - offset > CHUNK_SIZE
        invariant
            key@.len() == 32,
            offset <= plaintext@.len(),
            counter * CHUNK_SIZE == offset,
            stream_enc_from(key@, plaintext@, 0) == out@ + stream_enc_from(
                key@,
                plaintext@.skip(offset as int),
                counter,
            ),
        decreases plaintext@.len() - offset,
    {
        proof {
            assert(counter < 0xffffffffffffffff) by (nonlinear_arith)
                requires
                    counter * CHUNK_SIZE == offset,
                    CHUNK_SIZE == 65536,
                    0 <= offset <= 0xffffffffffffffff,
                    counter >= 0,
            ;
        }
        let chunk = copy_range(&plaintext, offset, offset + CHUNK_SIZE);
        let nonce = chunk_nonce(counter, false);
        let ct = aead_encrypt_chunk(&key, &nonce, &chunk);
        let ghost pre_out = out@;
        let ghost rest = plaintext@.skip(offset as int);
        push_vec(&mut out, &ct);
        proof {
            assert(rest.take(CHUNK_SIZE as int) =~= chunk@);
            assert(rest.skip(CHUNK_SIZE as int) =~= plaintext@.skip(offset + CHUNK_SIZE));
            assert(pre_out + stream_enc_from(key@, rest, counter) =~= out@ + stream_enc_from(
                key@,
                plaintext@.skip(offset + CHUNK_SIZE),
                (counter + 1) as u64,
            ));
        }
        offset = offset + CHUNK_SIZE;
        counter = counter + 1;
    }
    let chunk = copy_range(&plaintext, offset, plaintext.len());
    let nonce = chunk_nonce(counter, true);
    let ct = aead_encrypt_chunk(&key, &nonce, &chunk);
    let ghost pre_out = out@;
    push_vec(&mut out, &ct);
    proof {
        assert(plaintext@.skip(offset as int) =~= chunk@);
        assert(stream_enc_from(key@, plaintext@, 0) =~= out@);
    }
    Ok(out)
}

/// Decrypts a chunked-construction ciphertext under its 32-byte key.
///
/// Succeeds exactly on the ciphertexts that `stream_encrypt` produces under
/// the same key, returning the original plaintext; every other input — a
/// truncated stream missing its flagged final chunk, a chunk failing
/// authentication, or a trailing empty chunk after earlier data — is
/// rejected with no plaintext released.
pub fn stream_decrypt(key: Vec<u8>, ciphertext: Vec<u8>) -> (r: Result<Vec<u8>, StreamError>)
    ensures
        r matches Ok(p) ==> key@.len() == 32 && ciphertext@ == stream_enc_from(key@, p@, 0),
        key@.len() == 32 ==> (forall|p: Seq<u8>|
            ciphertext@ == #[trigger] stream_enc_from(key@, p, 0) ==> (r matches Ok(q) && q@
                == p)),
        key@.len() != 32 <==> r == Err::<Vec<u8>, StreamError>(StreamError::BadKeyLength),
{
    if key.len() != 32 {
        return Err(StreamError::BadKeyLength);
    }
    proof {
        assert forall|p: Seq<u8>|
            ciphertext@ == #[trigger] stream_enc_from(key@, p, 0) implies ciphertext@.len()
            >= 16 by {
            lemma_stream_enc_len(key@, p, 0);
        }
    }
    if ciphertext.len() == 0 {
        return Err(StreamError::Integrity);
    }
    let mut out: Vec<u8> = Vec::new();
    let mut offset: usize = 0;
    let mut counter: u64 = 0;
    proof {
        assert forall|rest: Seq<u8>| rest.len() > 0 implies #[trigger] stream_enc_from(
            key@,
            out@ + rest,
            0,
        ) == ciphertext@.take(0) + stream_enc_from(key@, rest, 0) by {
            assert(out@ + rest =~= rest);
            assert(ciphertext@.take(0) + stream_enc_from(key@, rest, 0) =~= stream_enc_from(
                key@,
                rest,
                0,
            ));
        }
        assert forall|p: Seq<u8>|
            ciphertext@ == #[trigger] stream_enc_from(key@, p, 0) implies out@ == p.take(
            out@.len() as int,
        ) && ciphertext@.skip(0) == stream_enc_from(key@, p.skip(0), 0) by {
            assert(out@ =~= p.take(0));
            assert(p.skip(0) =~= p);
            assert(ciphertext@.skip(0) =~= ciphertext@);
        }
    }
    while ciphertext.len() - offset > ENCRYPTED_CHUNK_SIZE
        invariant
            key@.len() == 32,
            offset <= ciphertext@.len(),
            counter * ENCRYPTED_CHUNK_SIZE == offset,
            counter * CHUNK_SIZE == out@.len(),
            forall|rest: Seq<u8>|
                rest.len() > 0 ==> #[trigger] stream_enc_from(key@, out@ + rest, 0)
                    == ciphertext@.take(offset as int) + stream_enc_from(key@, rest, counter),
            forall|p: Seq<u8>|
                ciphertext@ == #[trigger] stream_enc_from(key@, p, 0) ==> out@.len() <= p.len()
                    && out@ == p.take(out@.len() as int) && ciphertext@.skip(offset as int)
                    == stream_enc_from(key@, p.skip(out@.len() as int), counter) && (counter > 0
                    ==> p.len() > out@.len()),
        decreases ciphertext@.len() - offset,
    {
        proof {
            assert(counter < 0xffffffffffffffff) by (nonlinear_arith)
                requires
                    counter * ENCRYPTED_CHUNK_SIZE == offset,
                    ENCRYPTED_CHUNK_SIZE == 65552,
                    0 <= offset <= 0xffffffffffffffff,
                    counter >= 0,
            ;
        }
        let piece = copy_range(&ciphertext, offset, offset + ENCRYPTED_CHUNK_SIZE);
        let nonce = chunk_nonce(counter, false);
        let chunk = match aead_decrypt_chunk(&key, &nonce, &piece) {
            Some(c) => c,
            None => {
                proof {
                    assert forall|p: Seq<u8>|
                        ciphertext@ == #[trigger] stream_enc_from(key@, p, 0) implies false by {
                        let rest = p.skip(out@.len() as int);
                        lemma_stream_enc_len(key@, rest, counter);
                        assert(rest.len() > CHUNK_SIZE);
                        assert(piece@ =~= chacha_seal_of(
                            key@,
                            nonce_bytes(counter, false),
                            rest.take(CHUNK_SIZE as int),
                        ));
                    }
                }
                return Err(StreamError::Integrity);
            },
        };
        let ghost pre_out = out@;
        push_vec(&mut out, &chunk);
        proof {
            assert(piece@.len() == ENCRYPTED_CHUNK_SIZE);
            assert(piece@ == chacha_seal_of(key@, nonce@, chunk@));
            assert(chacha_seal_of(key@, nonce@, chunk@).len() == chunk@.len() + 16);
            assert(chunk@.len() == CHUNK_SIZE);
            assert forall|rest: Seq<u8>| rest.len() > 0 implies #[trigger] stream_enc_from(
                key@,
                out@ + rest,
                0,
            ) == ciphertext@.take(offset + ENCRYPTED_CHUNK_SIZE) + stream_enc_from(
                key@,
                rest,
                (counter + 1) as u64,
            ) by {
                assert(out@ + rest =~= pre_out + (chunk@ + rest));
                assert(stream_enc_from(key@, pre_out + (chunk@ + rest), 0) == ciphertext@.take(
                    offset as int,
                ) + stream_enc_from(key@, chunk@ + rest, counter));
                assert((chunk@ + rest).take(CHUNK_SIZE as int) =~= chunk@);
                assert((chunk@ + rest).skip(CHUNK_SIZE as int) =~= rest);
                assert(ciphertext@.take(offset as int) + piece@ =~= ciphertext@.take(
                    offset + ENCRYPTED_CHUNK_SIZE,
                ));
                assert(ciphertext@.take(offset as int) + (piece@ + stream_enc_from(
                    key@,
                    rest,
                    (counter + 1) as u64,
                )) =~= ciphertext@.take(offset + ENCRYPTED_CHUNK_SIZE) + stream_enc_from(
                    key@,
                    rest,
                    (counter + 1) as u64,
                ));
            }
            assert forall|p: Seq<u8>|
                ciphertext@ == #[trigger] stream_enc_from(key@, p, 0) implies out@.len() <= p.len()
                && out@ == p.take(out@.len() as int) && ciphertext@.skip(
                offset + ENCRYPTED_CHUNK_SIZE,
            ) == stream_enc_from(key@, p.skip(out@.len() as int), (counter + 1) as u64) && p.len()
                > out@.len() by {
                let rest = p.skip(pre_out.len() as int);
                lemma_stream_enc_len(key@, rest, counter);
                assert(rest.len() > CHUNK_SIZE);
                assert(piece@ =~= chacha_seal_of(
                    key@,
                    nonce_bytes(counter, false),
                    rest.take(CHUNK_SIZE as int),
                ));
                assert(chunk@ == rest.take(CHUNK_SIZE as int));
                assert(out@ =~= p.take(out@.len() as int));
                assert(rest.skip(CHUNK_SIZE as int) =~= p.skip(out@.len() as int));
                assert(ciphertext@.skip(offset + ENCRYPTED_CHUNK_SIZE) =~= ciphertext@.skip(
                    offset as int,
                ).skip(ENCRYPTED_CHUNK_SIZE as int));
                lemma_stream_enc_len(key@, rest.skip(CHUNK_SIZE as int), (counter + 1) as u64);
            }
        }
        offset = offset + ENCRYPTED_CHUNK_SIZE;
        counter = counter + 1;
    }
    let piece = copy_range(&ciphertext, offset, ciphertext.len());
    let nonce = chunk_nonce(counter, true);
    let chunk = match aead_decrypt_chunk(&key, &nonce, &piece) {
        Some(c) => c,
        None => {
            proof {
                assert forall|p: Seq<u8>|
                    ciphertext@ == #[trigger] stream_enc_from(key@, p, 0) implies false by {
                    let rest = p.skip(out@.len() as int);
                    lemma_stream_enc_len(key@, rest, counter);
                    assert(rest.len() <= CHUNK_SIZE);
                    assert(piece@ =~= chacha_seal_of(key@, nonce_bytes(counter, true), rest));
                }
            }
            return Err(StreamError::Integrity);
        },
    };
    if chunk.len() == 0 && counter > 0 {
        proof {
            assert forall|p: Seq<u8>|
                ciphertext@ == #[trigger] stream_enc_from(key@, p, 0) implies false by {
                let rest = p.skip(out@.len() as int);
                lemma_stream_enc_len(key@, rest, counter);
                assert(rest.len() <= CHUNK_SIZE);
                assert(piece@ =~= chacha_seal_of(key@, nonce_bytes(counter, true), rest));
                assert(chunk@ == rest);
            }
        }
        return Err(StreamError::Integrity);
    }
    let ghost pre_out = out@;
    push_vec(&mut out, &chunk);
    proof {
        if counter == 0 {
            assert(offset == 0 && pre_out =~= Seq::<u8>::empty());
            assert(piece@ =~= ciphertext@);
            assert(out@ =~= chunk@);
            assert(ciphertext@ == stream_enc_from(key@, out@, 0));
        } else {
            assert(chunk@.len() > 0);
            assert(stream_enc_from(key@, pre_out + chunk@, 0) == ciphertext@.take(offset as int)
                + stream_enc_from(key@, chunk@, counter));
            assert(piece@ =~= ciphertext@.subrange(offset as int, ciphertext@.len() as int));
            assert(ciphertext@.take(offset as int) + piece@ =~= ciphertext@);
            assert(out@ =~= pre_out + chunk@);
            assert(ciphertext@ == stream_enc_from(key@, out@, 0));
        }
        assert forall|p: Seq<u8>|
            ciphertext@ == #[trigger] stream_enc_from(key@, p, 0) implies out@ == p by {
            let rest = p.skip(pre_out.len() as int);
            lemma_stream_enc_len(key@, rest, counter);
            assert(rest.len() <= CHUNK_SIZE);
            assert(piece@ =~= chacha_seal_of(key@, nonce_bytes(counter, true), rest));
            assert(chunk@ == rest);
            assert(out@ =~= p);
        }
    }
    Ok(out)
}

} // verus!
