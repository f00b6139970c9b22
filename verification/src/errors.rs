//! The failure taxonomy of the store.
//!
//! Contention outcomes (a key already locked, a key already occupied) that
//! arise while acquiring a lock are ordinary return values of the lock
//! operations, not faults; the variants here carry them only where a caller
//! asked for a plain success/failure answer.

use vstd::prelude::*;

verus! {

/// Everything that can go wrong in a store operation.
#[derive(Debug)]
pub enum StorageError {
    /// A lock or read was attempted on a key that holds no item.
    NotFound,
    /// A create was attempted on a key that already holds an item.
    AlreadyExists,
    /// The key is currently locked; the field names the current holder.
    AlreadyLocked { holder: String },
    /// The presented token is not the one the key's lock record holds,
    /// or the key is not locked at all.
    LockMismatch,
    /// Stored bytes, or an identifier's textual form, could not be decoded.
    CodecError,
    /// Identifier generation failed to find a free key within the retry bound.
    AllocationExhausted,
    /// The wipe confirmation phrase was missing or wrong.
    ConfirmationRequired,
    /// The backend could not serve the request.
    BackendUnavailable,
}

impl StorageError {
    /// The fixed description rendered for each variant by [`Self::message`].
    pub open spec fn spec_message(&self) -> Seq<char> {
        match self {
            StorageError::NotFound => "no item under this key"@,
            StorageError::AlreadyExists => "an item already occupies this key"@,
            StorageError::AlreadyLocked { holder: _ } => "the key is locked by another holder"@,
            StorageError::LockMismatch => "the presented lock token is stale or wrong"@,
            StorageError::CodecError => "stored data could not be decoded"@,
            StorageError::AllocationExhausted => "no free identifier found within the retry bound"@,
            StorageError::ConfirmationRequired => "wipe refused without the exact confirmation phrase"@,
            StorageError::BackendUnavailable => "the backend could not serve the request"@,
        }
    }

    /// A short diagnostic description of the failure.
    pub fn message(&self) -> (r: &'static str)
        ensures
            r@ == self.spec_message(),
    {
        match self {
            StorageError::NotFound => "no item under this key",
            StorageError::AlreadyExists => "an item already occupies this key",
            StorageError::AlreadyLocked { holder: _ } => "the key is locked by another holder",
            StorageError::LockMismatch => "the presented lock token is stale or wrong",
            StorageError::CodecError => "stored data could not be decoded",
            StorageError::AllocationExhausted => "no free identifier found within the retry bound",
            StorageError::ConfirmationRequired => "wipe refused without the exact confirmation phrase",
            StorageError::BackendUnavailable => "the backend could not serve the request",
        }
    }
}

} // verus!
