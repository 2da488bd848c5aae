//! Failures that the library reports. Every one is returned to the caller;
//! none aborts the process.

use vstd::prelude::*;

verus! {

/// Failure of key derivation, encryption or decryption.
#[derive(Clone, Copy, Debug, PartialEq, Eq, Structural)]
pub enum CryptoError {
    /// The key could not be derived.
    KeyDerivation,
    /// The key is not 32 bytes long, or the nonce is not 12 bytes long.
    InvalidKeyOrNonce,
    /// The authentication tag does not verify: wrong key, wrong nonce, or
    /// altered ciphertext.
    Authentication,
    /// The decrypted bytes are not valid UTF-8 where text was expected.
    Encoding,
}

/// Failure of building a container or of reading an entry from one.
#[derive(Clone, Copy, Debug, PartialEq, Eq, Structural)]
pub enum ArchiveError {
    /// Two sources resolve to the same entry name.
    DuplicateEntryName,
    /// The container holds no entry of the requested name.
    EntryNotFound,
    /// A source could not be taken in, or the container could not be written.
    Io,
    /// The bytes are not a well-formed container.
    Format,
}

} // verus!
