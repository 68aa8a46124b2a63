//! A single-record encrypted key-value store: an authenticated cipher over a
//! process-wide key, a record store with upsert semantics, and the request
//! handling that composes them.

pub mod crypto;
pub mod db;
pub mod service;

use vstd::prelude::*;

verus! {

/// The errors that the cipher and the record store can surface.
#[derive(Clone, Copy, Debug, PartialEq, Eq)]
pub enum CoreError {
    /// A cipher operation was attempted before the key was set.
    NotInitialized,
    /// The key was set a second time.
    AlreadyInitialized,
    /// A sealed blob is too short to hold a nonce and a tag.
    MalformedInput,
    /// The authentication tag did not verify.
    AuthenticationFailure,
    /// The decrypted bytes are not valid document text.
    InvalidEncoding,
    /// A caller-supplied request violates a precondition.
    InvalidInput,
    /// The persistence backend failed.
    StorageError,
}

} // verus!
