//! A secure-envelope protocol engine: it builds, signs, encrypts and verifies
//! self-describing authenticated messages for peer-to-peer or store-and-forward
//! exchange, using composite post-quantum key algorithms supplied by an
//! external cryptography crate.
//!
//! The envelope layer (signing, verification, encryption, decryption and the
//! combined seal/open operations), the certificate subsystem and the chunked
//! streaming construction are implemented and verified here; the asymmetric
//! key primitives, the random source and the key-derivation function are
//! external collaborators reached through a small set of trusted wrappers.

pub mod cert;
pub mod codec;
pub mod cose;
pub mod errors;
pub mod format;
pub mod material;
pub mod stream;
pub mod xdsa;
pub mod xhpke;

