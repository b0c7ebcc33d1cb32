//! The space accountant: sizes a record's storage allocation and prices the
//! deposit that funds it.

use vstd::prelude::*;

verus! {

/// Greatest length, in bytes, of a journal entry's title.
pub const MAX_TITLE_LEN: u64 = 60;

/// Greatest length, in bytes, of a journal entry's message.
pub const MAX_MESSAGE_LEN: u64 = 300;

/// Bytes of the record tag that prefixes every stored record.
pub const DISCRIMINATOR_LEN: u64 = 8;

/// Bytes of a stored owner identity.
pub const OWNER_LEN: u64 = 32;

/// Bytes of the length prefix that precedes each variable-length field.
pub const LEN_PREFIX_LEN: u64 = 4;

/// Storage size that covers a record with both fields at capacity; every
/// creation allocates this worst-case size.
pub const MAX_RECORD_SPACE: u64 = DISCRIMINATOR_LEN + OWNER_LEN + LEN_PREFIX_LEN
    + MAX_TITLE_LEN + LEN_PREFIX_LEN + MAX_MESSAGE_LEN;

/// Exact storage size for a record whose fields have the given lengths: the
/// record tag, the owner identity, and each field behind its length prefix.
pub open spec fn spec_required_space(title_len: int, message_len: int) -> int {
    DISCRIMINATOR_LEN + OWNER_LEN + LEN_PREFIX_LEN + title_len + LEN_PREFIX_LEN + message_len
}

/// Computes the exact storage size for a record with the given field lengths.
pub fn required_space(title_len: usize, message_len: usize) -> (r: u64)
    requires
        title_len <= MAX_TITLE_LEN,
        message_len <= MAX_MESSAGE_LEN,
    ensures
        r == spec_required_space(title_len as int, message_len as int),
{
    DISCRIMINATOR_LEN + OWNER_LEN + LEN_PREFIX_LEN + (title_len as u64)
        + LEN_PREFIX_LEN + (message_len as u64)
}

/// Deposit required to fund `size` bytes of storage for the life of a record,
/// under the ledger's default storage-economics configuration.
pub uninterp spec fn deposit_of(size: u64) -> u64;

/// Relies on `Rent::minimum_balance` (through anchor_lang's prelude): with the
/// default `Rent` configuration the required deposit is a deterministic
/// function of the allocation size alone.
#[verifier::external_body]
pub(crate) fn rent_deposit(size: u64) -> (r: u64)
    ensures
        r == deposit_of(size),
{
    anchor_lang::prelude::Rent::default().minimum_balance(size as usize)
}

} // verus!
