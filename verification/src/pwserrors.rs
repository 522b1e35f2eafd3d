//! The flat error taxonomy of the library.  Every error is fatal to the
//! enclosing `open` or `unlock` operation; no component recovers locally.
use vstd::prelude::*;

verus! {

/// Everything that can go wrong while opening or unlocking a safe.
///
/// The structural variants (`FileNotFound`, `FailedToOpenFile`,
/// `FileReadError`) are produced by the I/O shell around the library; the
/// rest are produced by the container decoder, the key derivation, the MAC
/// check and the TLV parser in this crate.
#[derive(Debug, Clone, Copy, PartialEq, Eq, Structural)]
pub enum PwSafeError {
    /// The path named no file (I/O shell only).
    FileNotFound,
    /// The file could not be opened (I/O shell only).
    FailedToOpenFile,
    /// The file could not be read (I/O shell only).
    FileReadError,
    /// The leading 4-byte tag is not `PWS3`.
    FileNotSupported,
    /// The bytes after the EOF sentinel cannot hold the 32-byte MAC tag.
    FileTooSmall,
    /// The EOF sentinel sits before the end of the fixed key block.
    EofPositionError,
    /// No EOF sentinel occurs anywhere in the file.
    EofSentinelMissing,
    /// The stored iteration count is zero, so no key can be stretched.
    IterationsNotInitialized,
    /// The passphrase does not match the stored stretched-key hash.
    InvalidKey,
    /// The MAC construction rejected the unwrapped key L.  Never produced
    /// here: HMAC-SHA-256 accepts keys of any length, so the variant is
    /// kept only to cover the format's full error taxonomy.
    MacKeyRejected,
    /// The computed MAC differs from the stored tag.
    InvalidSignature,
    /// A string-typed TLV payload is not valid UTF-8.
    InvalidUtf8InStringField,
    /// The plaintext ended inside an element.
    UnexpectedEndOfPlaintext,
}

} // verus!
