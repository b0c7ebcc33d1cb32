use vstd::prelude::*;

verus! {

/// Every way a lifecycle operation can fail. Any error aborts the whole
/// operation with no state change.
#[derive(Clone, Copy, Debug, PartialEq, Eq, Structural)]
pub enum JournalError {
    /// Create found a record already allocated at the derived address.
    AlreadyExists,
    /// Update or Delete found no record at the derived address.
    NotFound,
    /// The caller identity does not match the required owner or funder.
    Unauthorized,
    /// The funding identity cannot cover the required storage deposit.
    InsufficientFunds,
    /// A title or message exceeds its declared capacity.
    FieldTooLong,
    /// The derivation primitive found no valid address for the pair; this is
    /// astronomically improbable for any fixed program identifier.
    DerivationFailed,
}

} // verus!
