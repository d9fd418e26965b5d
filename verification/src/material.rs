//! Key-material helpers consumed before envelope operations begin: a secure
//! random source and a password-based key-derivation function. Neither has
//! protocol state of its own; both are thin trusted fronts over the outside
//! cryptography crate.

use vstd::prelude::*;

verus! {

/// The Argon2id-derived key for a password, salt and cost parameters: a
/// deterministic function of exactly those inputs.
pub uninterp spec fn argon2_of(
    password: Seq<u8>,
    salt: Seq<u8>,
    time: u32,
    memory: u32,
    threads: u32,
    key_length: usize,
) -> Seq<u8>;

/// Generates cryptographically secure random bytes.
///
/// Relies on `rand::generate`: a buffer of exactly the requested length
/// filled from the system's secure random source. Nothing is assumed of the
/// contents.
#[verifier::external_body]
pub fn random_bytes(length: usize) -> (r: Vec<u8>)
    ensures
        r@.len() == length,
{
    darkbio_crypto::rand::generate(length)
}

/// Derives a key of `key_length` bytes from a password with Argon2id.
///
/// Relies on `argon2::key_with_len`: the derived key is a function of the
/// password, salt and cost parameters alone. The preconditions keep the
/// parameters inside the ranges the primitive accepts without panicking:
/// at least one iteration, one to 2^24 lanes, at least eight memory blocks
/// per lane, a salt of eight bytes or more, and an output of at least four
/// bytes.
#[verifier::external_body]
pub fn argon2_key(
    password: Vec<u8>,
    salt: Vec<u8>,
    time: u32,
    memory: u32,
    threads: u32,
    key_length: usize,
) -> (r: Vec<u8>)
    requires
        time >= 1,
        1 <= threads <= 0xffffff,
        memory >= 8 * threads,
        4 <= key_length <= 0xffffffff,
        8 <= salt@.len() <= 0xffffffff,
        password@.len() <= 0xffffffff,
    ensures
        r@.len() == key_length,
        r@ == argon2_of(password@, salt@, time, memory, threads, key_length),
{
    darkbio_crypto::argon2::key_with_len(
        password.as_slice(),
        salt.as_slice(),
        time,
        memory,
        threads,
        key_length,
    ).to_vec()
}

} // verus!
