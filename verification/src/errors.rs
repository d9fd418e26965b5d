//! Closed error enumerations, one per component, so callers can branch on the
//! kind of a failure rather than on message text.

use vstd::prelude::*;

verus! {

/// The broad failure classes shared by every component: malformed input,
/// authentication failure, freshness failure, a validity-window error at
/// certificate issuance, and a stream-integrity failure.
#[derive(Clone, Copy, Debug, PartialEq, Eq, Structural)]
pub enum ErrorKind {
    /// Wrong fixed length, malformed encoding, or a structurally invalid record.
    MalformedInput,
    /// Signature mismatch, AEAD tag mismatch, or a key identifier mismatch.
    AuthenticationFailure,
    /// A header timestamp drifted beyond the caller's bound.
    FreshnessFailure,
    /// A validity window with `not_before` after `not_after` at issuance.
    ValidityWindowError,
    /// A chunk tag mismatch, a missing terminal chunk, or trailing data.
    StreamIntegrityError,
}

/// Failures of the envelope operations.
#[derive(Clone, Copy, Debug, PartialEq, Eq, Structural)]
pub enum CoseError {
    /// The envelope, a header or a payload is not a well-formed record.
    Malformed,
    /// The protected header names an unexpected algorithm or critical list.
    WrongAlgorithm,
    /// The envelope names a different key than the caller supplied.
    WrongKey,
    /// An embedded-payload operation found no payload.
    MissingPayload,
    /// A detached-payload operation found an embedded payload.
    UnexpectedPayload,
    /// The encapsulated session key has the wrong fixed length.
    BadEncapKey,
    /// The signature timestamp drifted beyond the allowed bound.
    Stale,
    /// The signature does not verify.
    BadSignature,
    /// Decryption failed: wrong key, tampered data or mismatched message.
    DecryptFailed,
    /// The decrypted plaintext holds a nonzero byte after its signed envelope.
    BadPadding,
}

impl CoseError {
    /// The broad class this failure falls under.
    pub fn kind(&self) -> (k: ErrorKind)
        ensures
            k == self.kind_spec(),
    {
        match self {
            CoseError::Malformed => ErrorKind::MalformedInput,
            CoseError::WrongAlgorithm => ErrorKind::MalformedInput,
            CoseError::MissingPayload => ErrorKind::MalformedInput,
            CoseError::UnexpectedPayload => ErrorKind::MalformedInput,
            CoseError::BadEncapKey => ErrorKind::MalformedInput,
            CoseError::BadPadding => ErrorKind::MalformedInput,
            CoseError::WrongKey => ErrorKind::AuthenticationFailure,
            CoseError::BadSignature => ErrorKind::AuthenticationFailure,
            CoseError::DecryptFailed => ErrorKind::AuthenticationFailure,
            CoseError::Stale => ErrorKind::FreshnessFailure,
        }
    }

    /// The class of each variant, for use in contracts.
    pub open spec fn kind_spec(&self) -> ErrorKind {
        match self {
            CoseError::Malformed => ErrorKind::MalformedInput,
            CoseError::WrongAlgorithm => ErrorKind::MalformedInput,
            CoseError::MissingPayload => ErrorKind::MalformedInput,
            CoseError::UnexpectedPayload => ErrorKind::MalformedInput,
            CoseError::BadEncapKey => ErrorKind::MalformedInput,
            CoseError::BadPadding => ErrorKind::MalformedInput,
            CoseError::WrongKey => ErrorKind::AuthenticationFailure,
            CoseError::BadSignature => ErrorKind::AuthenticationFailure,
            CoseError::DecryptFailed => ErrorKind::AuthenticationFailure,
            CoseError::Stale => ErrorKind::FreshnessFailure,
        }
    }

    /// A human-readable description of the failure.
    pub fn message(&self) -> String {
        match self {
            CoseError::Malformed => String::from_str("malformed envelope"),
            CoseError::WrongAlgorithm => String::from_str("unexpected algorithm"),
            CoseError::WrongKey => String::from_str("unexpected key"),
            CoseError::MissingPayload => String::from_str("missing payload in embedded signature"),
            CoseError::UnexpectedPayload => String::from_str(
                "unexpected payload in detached signature",
            ),
            CoseError::BadEncapKey => String::from_str("invalid encapsulated key size"),
            CoseError::Stale => String::from_str("signature stale: time drift exceeds bound"),
            CoseError::BadSignature => String::from_str("signature verification failed"),
            CoseError::DecryptFailed => String::from_str("decryption failed"),
            CoseError::BadPadding => String::from_str("invalid padding"),
        }
    }
}

/// Failures of certificate issuance and validation.
#[derive(Clone, Copy, Debug, PartialEq, Eq, Structural)]
pub enum CertError {
    /// The certificate bytes are not a well-formed record.
    Malformed,
    /// The issuer signature does not verify, or the issuer key is wrong.
    BadSignature,
    /// `not_before` lies after `not_after` at issuance time.
    InvalidWindow,
}

impl CertError {
    /// The broad class this failure falls under.
    pub fn kind(&self) -> (k: ErrorKind)
        ensures
            k == self.kind_spec(),
    {
        match self {
            CertError::Malformed => ErrorKind::MalformedInput,
            CertError::BadSignature => ErrorKind::AuthenticationFailure,
            CertError::InvalidWindow => ErrorKind::ValidityWindowError,
        }
    }

    /// The class of each variant, for use in contracts.
    pub open spec fn kind_spec(&self) -> ErrorKind {
        match self {
            CertError::Malformed => ErrorKind::MalformedInput,
            CertError::BadSignature => ErrorKind::AuthenticationFailure,
            CertError::InvalidWindow => ErrorKind::ValidityWindowError,
        }
    }

    /// A human-readable description of the failure.
    pub fn message(&self) -> String {
        match self {
            CertError::Malformed => String::from_str("malformed certificate"),
            CertError::BadSignature => String::from_str("certificate signature mismatch"),
            CertError::InvalidWindow => String::from_str("validity window starts after it ends"),
        }
    }
}

/// Failures of the streaming construction.
#[derive(Clone, Copy, Debug, PartialEq, Eq, Structural)]
pub enum StreamError {
    /// The key is not exactly 32 bytes.
    BadKeyLength,
    /// A chunk failed authentication, the stream is truncated, or a trailing
    /// empty chunk follows earlier data.
    Integrity,
}

impl StreamError {
    /// The broad class this failure falls under.
    pub fn kind(&self) -> (k: ErrorKind)
        ensures
            k == self.kind_spec(),
    {
        match self {
            StreamError::BadKeyLength => ErrorKind::MalformedInput,
            StreamError::Integrity => ErrorKind::StreamIntegrityError,
        }
    }

    /// The class of each variant, for use in contracts.
    pub open spec fn kind_spec(&self) -> ErrorKind {
        match self {
            StreamError::BadKeyLength => ErrorKind::MalformedInput,
            StreamError::Integrity => ErrorKind::StreamIntegrityError,
        }
    }

    /// A human-readable description of the failure.
    pub fn message(&self) -> String {
        match self {
            StreamError::BadKeyLength => String::from_str("invalid key length, expected 32 bytes"),
            StreamError::Integrity => String::from_str("stream integrity failure"),
        }
    }
}

/// Failures of key construction from fixed-length encodings.
#[derive(Clone, Copy, Debug, PartialEq, Eq, Structural)]
pub enum KeyError {
    /// The encoding has the wrong fixed length.
    BadLength,
    /// The bytes have the right length but are not a valid key.
    Invalid,
}

impl KeyError {
    /// The broad class this failure falls under.
    pub fn kind(&self) -> (k: ErrorKind)
        ensures
            k == ErrorKind::MalformedInput,
    {
        match self {
            KeyError::BadLength => ErrorKind::MalformedInput,
            KeyError::Invalid => ErrorKind::MalformedInput,
        }
    }

    /// A human-readable description of the failure.
    pub fn message(&self) -> String {
        match self {
            KeyError::BadLength => String::from_str("invalid length"),
            KeyError::Invalid => String::from_str("invalid key encoding"),
        }
    }
}

} // verus!
