//! A verified core for a minimal journal-entry service on a deterministic,
//! replicated ledger.
//!
//! Each record (a titled text entry) lives at a storage address derived
//! deterministically from its `(title, owner)` pair. The library proves the
//! record lifecycle: creation charges the funding identity a storage deposit,
//! updates resize the allocation to fit the new message, and deletion
//! reclaims the storage and refunds the deposit to the stored owner. All
//! mutations pass an explicit authorization gate that compares the proven
//! caller identity against the required owner.

pub mod addr;
pub mod error;
pub mod ident;
pub mod journal;
pub mod laws;
pub mod space;
pub mod store;

pub use addr::derive_address;
pub use error::JournalError;
pub use ident::{authorize, Identity};
pub use journal::{
    create_journal_entry, delete_journal_entry, update_journal_entry, CreateOutcome, UpdateOutcome,
};
pub use store::{JournalEntryState, RecordStore, Refund};
pub use space::{MAX_MESSAGE_LEN, MAX_RECORD_SPACE, MAX_TITLE_LEN};
