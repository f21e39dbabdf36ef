use vstd::prelude::*;

verus! {

/// Why a memo payload was rejected before allocation.
#[derive(Clone, Copy, Debug, PartialEq, Eq, Structural)]
pub enum MemoError {
    /// The payload holds no bytes at all.
    TextEmpty,
    /// The payload is longer than the allowed maximum.
    TextTooLong,
}

/// Why a store or close operation failed.
#[derive(Clone, Copy, Debug, PartialEq, Eq, Structural)]
pub enum StoreError {
    /// The payload holds no bytes at all.
    TextEmpty,
    /// The payload is longer than the allowed maximum.
    TextTooLong,
    /// The whole disambiguation range was searched and no usable address came out.
    AddressExhausted,
    /// The derived address already holds a record.
    AddressAlreadyInUse,
    /// The caller cannot cover the storage deposit for the record.
    AllocationFailed,
    /// The requester is not the author of the record.
    Unauthorized,
    /// No record lives at the given address.
    NotFound,
}

impl StoreError {
    /// Carries a validation failure over unchanged into the store's error space.
    pub fn from_validation(e: MemoError) -> (r: StoreError)
        ensures
            e == MemoError::TextEmpty ==> r == StoreError::TextEmpty,
            e == MemoError::TextTooLong ==> r == StoreError::TextTooLong,
    {
        match e {
            MemoError::TextEmpty => StoreError::TextEmpty,
            MemoError::TextTooLong => StoreError::TextTooLong,
        }
    }
}

} // verus!
