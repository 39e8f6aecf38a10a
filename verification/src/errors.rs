//! The typed failures that the store's operations surface.

use vstd::prelude::*;

verus! {

/// Why a store operation failed.
#[derive(Clone, Copy, PartialEq, Eq, Structural, Debug)]
pub enum StoreError {
    /// The referenced profile id does not exist in the collection.
    NotFound,
    /// The operation required an existing store document but none exists.
    StoreUninitialized,
    /// Creation collides with an existing profile's id.
    DuplicateField,
    /// A persisted document fails to parse, or a document does not have
    /// the expected shape.
    MalformedInput,
    /// An underlying filesystem read, write or create-directory failed.
    IoFailure,
}

} // verus!
