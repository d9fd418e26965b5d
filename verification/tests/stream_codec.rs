//! Streaming construction behaviour and interoperability with the outside
//! crate's reader and writer, plus codec validation.

use std::io::{Read, Write};

use secure_envelope::codec::cbor_verify;
use secure_envelope::errors::{CoseError, ErrorKind, StreamError};
use secure_envelope::stream::{stream_decrypt, stream_encrypt, CHUNK_SIZE, ENCRYPTED_CHUNK_SIZE};

fn key() -> Vec<u8> {
    vec![42u8; 32]
}

fn pattern(len: usize) -> Vec<u8> {
    let mut v = Vec::with_capacity(len);
    for i in 0..len {
        v.push((i % 251) as u8);
    }
    v
}

#[test]
fn stream_round_trip_lengths() {
    for len in [0, 1, CHUNK_SIZE - 1, CHUNK_SIZE, CHUNK_SIZE + 1, 10 * CHUNK_SIZE] {
        let p = pattern(len);
        let ct = stream_encrypt(key(), p.clone()).unwrap();
        let chunks = if len <= CHUNK_SIZE { 1 } else { (len + CHUNK_SIZE - 1) / CHUNK_SIZE };
        assert_eq!(ct.len(), len + 16 * chunks, "length {len}");
        let back = stream_decrypt(key(), ct).unwrap();
        assert_eq!(back, p, "length {len}");
    }
}

#[test]
fn stream_truncation_fails() {
    // Removing the final chunk must fail, never return a prefix of the
    // plaintext.
    let p = pattern(10 * CHUNK_SIZE);
    let ct = stream_encrypt(key(), p).unwrap();
    let truncated = ct[..ct.len() - ENCRYPTED_CHUNK_SIZE].to_vec();
    assert_eq!(stream_decrypt(key(), truncated), Err(StreamError::Integrity));
    // An empty ciphertext is a truncated stream too.
    assert_eq!(stream_decrypt(key(), Vec::new()), Err(StreamError::Integrity));
}

#[test]
fn stream_tamper_and_reorder_fail() {
    let p = pattern(3 * CHUNK_SIZE + 5);
    let ct = stream_encrypt(key(), p).unwrap();
    // A flipped bit in any chunk aborts.
    for pos in [0, ENCRYPTED_CHUNK_SIZE + 7, ct.len() - 1] {
        let mut bad = ct.clone();
        bad[pos] ^= 1;
        assert_eq!(stream_decrypt(key(), bad), Err(StreamError::Integrity));
    }
    // Swapping the first two chunks aborts: each nonce binds its position.
    let mut swapped = Vec::new();
    swapped.extend_from_slice(&ct[ENCRYPTED_CHUNK_SIZE..2 * ENCRYPTED_CHUNK_SIZE]);
    swapped.extend_from_slice(&ct[..ENCRYPTED_CHUNK_SIZE]);
    swapped.extend_from_slice(&ct[2 * ENCRYPTED_CHUNK_SIZE..]);
    assert_eq!(stream_decrypt(key(), swapped), Err(StreamError::Integrity));
    // The wrong key aborts.
    assert_eq!(stream_decrypt(vec![43u8; 32], ct), Err(StreamError::Integrity));
}

#[test]
fn stream_bad_key_length() {
    assert_eq!(stream_encrypt(vec![1u8; 31], b"x".to_vec()), Err(StreamError::BadKeyLength));
    assert_eq!(stream_decrypt(vec![1u8; 33], b"x".to_vec()), Err(StreamError::BadKeyLength));
    assert_eq!(StreamError::BadKeyLength.kind(), ErrorKind::MalformedInput);
    assert_eq!(StreamError::Integrity.kind(), ErrorKind::StreamIntegrityError);
}

#[test]
fn stream_interop_with_outside_writer() {
    // A stream produced by the outside crate's writer decrypts here.
    for len in [0, 5, CHUNK_SIZE, 2 * CHUNK_SIZE + 3] {
        let p = pattern(len);
        let payload_key =
            darkbio_crypto::stream::PayloadKey::from_bytes(&[42u8; 32]);
        let mut ct = Vec::new();
        let mut writer = darkbio_crypto::stream::Stream::encrypt(payload_key, &mut ct);
        writer.write_all(&p).unwrap();
        writer.finish().unwrap();
        let back = stream_decrypt(key(), ct).unwrap();
        assert_eq!(back, p, "length {len}");
    }
}

#[test]
fn stream_interop_with_outside_reader() {
    // A stream produced here decrypts through the outside crate's reader.
    for len in [0, 5, CHUNK_SIZE, 2 * CHUNK_SIZE + 3] {
        let p = pattern(len);
        let ct = stream_encrypt(key(), p.clone()).unwrap();
        let payload_key =
            darkbio_crypto::stream::PayloadKey::from_bytes(&[42u8; 32]);
        let mut reader =
            darkbio_crypto::stream::Stream::decrypt(payload_key, ct.as_slice());
        let mut back = Vec::new();
        reader.read_to_end(&mut back).unwrap();
        assert_eq!(back, p, "length {len}");
    }
}

#[test]
fn cbor_validation() {
    // A canonical item passes.
    assert!(cbor_verify(vec![0x83, 0x01, 0x62, 0x68, 0x69, 0x41, 0x03]).is_ok());
    // Non-shortest-form integers, bare prefixes and trailing bytes fail.
    assert_eq!(cbor_verify(vec![0x18, 0x00]), Err(CoseError::Malformed));
    assert_eq!(cbor_verify(vec![0x82, 0x01]), Err(CoseError::Malformed));
    assert_eq!(cbor_verify(vec![0x01, 0x01]), Err(CoseError::Malformed));
}
