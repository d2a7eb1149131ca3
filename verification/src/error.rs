use vstd::prelude::*;

verus! {

/// Errors that can occur during cryptographic operations.
#[derive(Debug, Copy, Clone, PartialEq, Eq, Structural)]
pub enum Error {
    /// The output buffer was too small for the requested operation.
    InvalidBufferLength,
    /// Parameter length (e.g. key/nonce) exceeded the maximum absorb rate.
    InvalidParameterLength,
    /// An operation requiring a key (like encryption) was called on an unkeyed instance.
    KeyRequired,
    /// Decryption tag verification failed (ciphertext is corrupted or key/nonce is invalid).
    TagMismatch,
}

/// The human-readable description of each error.
pub open spec fn error_message(e: Error) -> Seq<char> {
    match e {
        Error::InvalidBufferLength => "Invalid buffer length"@,
        Error::InvalidParameterLength => "Key too long"@,
        Error::KeyRequired => "A key is required"@,
        Error::TagMismatch => "Tag mismatch"@,
    }
}

impl Error {
    /// The text that describes this error, as it is displayed.
    pub fn message(&self) -> (s: String)
        ensures
            s@ == error_message(*self),
    {
        match self {
            Error::InvalidBufferLength => "Invalid buffer length".to_owned(),
            Error::InvalidParameterLength => "Key too long".to_owned(),
            Error::KeyRequired => "A key is required".to_owned(),
            Error::TagMismatch => "Tag mismatch".to_owned(),
        }
    }
}

} // verus!
