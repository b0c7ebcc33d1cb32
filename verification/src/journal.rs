//! The lifecycle operations: Create, Update and Delete orchestrate address
//! derivation, the authorization gate, the space accountant and the record
//! store. Each operation's contract equals a spec-level transition function
//! over the store's map model, so the state machine `Absent -> Present ->
//! Absent` is pinned down exactly.

use vstd::prelude::*;

use crate::addr::{derive_address, pda_of};
use crate::error::JournalError;
use crate::ident::{authorize, Identity};
use crate::space::{
    deposit_of, required_space, spec_required_space, MAX_MESSAGE_LEN, MAX_RECORD_SPACE,
    MAX_TITLE_LEN,
};
use crate::store::{EntryModel, JournalEntryState, RecordStore, Refund, SlotModel};

verus! {

/// What a successful Create reports: the funder's balance after the charge,
/// and the exact deposit charged for the worst-case allocation.
#[derive(Debug)]
pub struct CreateOutcome {
    pub new_balance: u64,
    pub charged: u64,
}

/// What a successful Update reports: the funder's balance after any charge,
/// the amount charged when the allocation grew, and the amount refunded when
/// it shrank. At most one of `charged` and `refunded` is nonzero.
#[derive(Debug)]
pub struct UpdateOutcome {
    pub new_balance: u64,
    pub charged: u64,
    pub refunded: u64,
}

/// The Create transition, `Absent -> Present`: reject over-long fields;
/// derive the address; fail with `AlreadyExists` if it is occupied; require
/// the caller to be the designated funder, who becomes the owner; charge the
/// deposit for a worst-case allocation, failing with `InsufficientFunds` if
/// the funder's balance cannot cover it. On success the new record holds the
/// funder as owner and exactly the given fields, and the result carries the
/// funder's new balance with the amount charged.
pub open spec fn spec_create(
    m: Map<Seq<u8>, SlotModel>,
    caller: Seq<u8>,
    funder: Seq<u8>,
    title: Seq<u8>,
    message: Seq<u8>,
    funder_balance: u64,
) -> (Map<Seq<u8>, SlotModel>, Result<(u64, u64), JournalError>) {
    if title.len() > MAX_TITLE_LEN || message.len() > MAX_MESSAGE_LEN {
        (m, Err(JournalError::FieldTooLong))
    } else {
        match pda_of(title, funder) {
            None => (m, Err(JournalError::DerivationFailed)),
            Some(pair) => {
                let a = pair.0;
                if m.contains_key(a) {
                    (m, Err(JournalError::AlreadyExists))
                } else if caller != funder {
                    (m, Err(JournalError::Unauthorized))
                } else if deposit_of(MAX_RECORD_SPACE) > funder_balance {
                    (m, Err(JournalError::InsufficientFunds))
                } else {
                    let dep = deposit_of(MAX_RECORD_SPACE);
                    (
                        m.insert(
                            a,
                            SlotModel {
                                entry: EntryModel { owner: funder, title, message },
                                size: MAX_RECORD_SPACE,
                                deposit: dep,
                            },
                        ),
                        Ok(((funder_balance - dep) as u64, dep)),
                    )
                }
            },
        }
    }
}

/// The Update transition, `Present -> Present`: reject over-long fields;
/// derive the address; fail with `NotFound` if it is vacant; require the
/// caller to equal the stored owner; resize the allocation to exactly fit
/// the stored title and the replacement message, charging a growth or
/// refunding a shrink; replace the message, leaving owner and title
/// untouched.
pub open spec fn spec_update(
    m: Map<Seq<u8>, SlotModel>,
    caller: Seq<u8>,
    owner: Seq<u8>,
    title: Seq<u8>,
    message: Seq<u8>,
    funder_balance: u64,
) -> (Map<Seq<u8>, SlotModel>, Result<(u64, u64, u64), JournalError>) {
    if title.len() > MAX_TITLE_LEN || message.len() > MAX_MESSAGE_LEN {
        (m, Err(JournalError::FieldTooLong))
    } else {
        match pda_of(title, owner) {
            None => (m, Err(JournalError::DerivationFailed)),
            Some(pair) => {
                let a = pair.0;
                if !m.contains_key(a) {
                    (m, Err(JournalError::NotFound))
                } else if caller != m[a].entry.owner {
                    (m, Err(JournalError::Unauthorized))
                } else {
                    let new_size = spec_required_space(
                        m[a].entry.title.len() as int,
                        message.len() as int,
                    ) as u64;
                    let old_deposit = m[a].deposit;
                    let new_deposit = deposit_of(new_size);
                    if new_deposit > old_deposit && new_deposit - old_deposit > funder_balance {
                        (m, Err(JournalError::InsufficientFunds))
                    } else {
                        let charged: int = if new_deposit > old_deposit {
                            new_deposit - old_deposit
                        } else {
                            0
                        };
                        let refunded: int = if new_deposit > old_deposit {
                            0
                        } else {
                            old_deposit - new_deposit
                        };
                        (
                            m.insert(
                                a,
                                SlotModel {
                                    entry: EntryModel {
                                        owner: m[a].entry.owner,
                                        title: m[a].entry.title,
                                        message: message,
                                    },
                                    size: new_size,
                                    deposit: new_deposit,
                                },
                            ),
                            Ok(
                                (
                                    (funder_balance - charged) as u64,
                                    charged as u64,
                                    refunded as u64,
                                ),
                            ),
                        )
                    }
                }
            },
        }
    }
}

/// The Delete transition, `Present -> Absent`: reject an over-long title;
/// derive the address; fail with `NotFound` if it is vacant; require the
/// caller to equal the stored owner; then reclaim the storage, owing the
/// record's exact deposit to the stored owner.
pub open spec fn spec_delete(
    m: Map<Seq<u8>, SlotModel>,
    caller: Seq<u8>,
    owner: Seq<u8>,
    title: Seq<u8>,
) -> (Map<Seq<u8>, SlotModel>, Result<(Seq<u8>, u64), JournalError>) {
    if title.len() > MAX_TITLE_LEN {
        (m, Err(JournalError::FieldTooLong))
    } else {
        match pda_of(title, owner) {
            None => (m, Err(JournalError::DerivationFailed)),
            Some(pair) => {
                let a = pair.0;
                if !m.contains_key(a) {
                    (m, Err(JournalError::NotFound))
                } else if caller != m[a].entry.owner {
                    (m, Err(JournalError::Unauthorized))
                } else {
                    (m.remove(a), Ok((m[a].entry.owner, m[a].deposit)))
                }
            },
        }
    }
}

/// Creates the journal entry for `(title, funder)`; the caller must be the
/// funder, who becomes the record's owner. Implements `spec_create` exactly.
pub fn create_journal_entry(
    store: &mut RecordStore,
    caller: &Identity,
    funder: &Identity,
    title: Vec<u8>,
    message: Vec<u8>,
    funder_balance: u64,
) -> (r: Result<CreateOutcome, JournalError>)
    requires
        old(store).wf(),
    ensures
        final(store).wf(),
        ({
            let t = spec_create(old(store)@, caller@, funder@, title@, message@, funder_balance);
            &&& final(store)@ == t.0
            &&& match r {
                Ok(o) => t.1 == Ok::<(u64, u64), JournalError>((o.new_balance, o.charged)),
                Err(e) => t.1 == Err::<(u64, u64), JournalError>(e),
            }
        }),
{
    if title.len() > MAX_TITLE_LEN as usize || message.len() > MAX_MESSAGE_LEN as usize {
        return Err(JournalError::FieldTooLong);
    }
    let addr = match derive_address(&title, funder) {
        Some(pair) => pair.0,
        None => {
            return Err(JournalError::DerivationFailed);
        },
    };
    if store.read(&addr).is_ok() {
        return Err(JournalError::AlreadyExists);
    }
    if let Err(e) = authorize(caller, funder) {
        return Err(e);
    }
    let entry = JournalEntryState { owner: funder.duplicate(), title, message };
    match store.create(addr, entry, MAX_RECORD_SPACE, funder_balance) {
        Ok(pair) => Ok(CreateOutcome { new_balance: pair.0, charged: pair.1 }),
        Err(e) => Err(e),
    }
}

/// Replaces the message of the journal entry for `(title, owner)`; the
/// caller must equal the stored owner. The storage is resized, with zero
/// fill, to exactly fit the stored title and the new message. Implements
/// `spec_update` exactly.
pub fn update_journal_entry(
    store: &mut RecordStore,
    caller: &Identity,
    owner: &Identity,
    title: &Vec<u8>,
    message: Vec<u8>,
    funder_balance: u64,
) -> (r: Result<UpdateOutcome, JournalError>)
    requires
        old(store).wf(),
    ensures
        final(store).wf(),
        ({
            let t = spec_update(old(store)@, caller@, owner@, title@, message@, funder_balance);
            &&& final(store)@ == t.0
            &&& match r {
                Ok(o) => t.1 == Ok::<(u64, u64, u64), JournalError>(
                    (o.new_balance, o.charged, o.refunded),
                ),
                Err(e) => t.1 == Err::<(u64, u64, u64), JournalError>(e),
            }
        }),
{
    if title.len() > MAX_TITLE_LEN as usize || message.len() > MAX_MESSAGE_LEN as usize {
        return Err(JournalError::FieldTooLong);
    }
    let addr = match derive_address(title, owner) {
        Some(pair) => pair.0,
        None => {
            return Err(JournalError::DerivationFailed);
        },
    };
    proof {
        store.lemma_wf_model();
    }
    let stored_title_len: usize;
    match store.read(&addr) {
        Ok(entry) => {
            if let Err(e) = authorize(caller, &entry.owner) {
                return Err(e);
            }
            stored_title_len = entry.title.len();
        },
        Err(e) => {
            return Err(e);
        },
    }
    let new_size = required_space(stored_title_len, message.len());
    let outcome = match store.resize(&addr, new_size, true, funder_balance) {
        Ok(o) => o,
        Err(e) => {
            return Err(e);
        },
    };
    match store.write_message(&addr, message) {
        Ok(()) => {
            proof {
                let t = spec_update(
                    old(store)@,
                    caller@,
                    owner@,
                    title@,
                    message@,
                    funder_balance,
                );
                assert(final(store)@ =~= t.0);
            }
            Ok(
                UpdateOutcome {
                    new_balance: outcome.new_balance,
                    charged: outcome.charged,
                    refunded: outcome.refunded,
                },
            )
        },
        Err(_) => {
            proof {
                assert(false);
            }
            Err(JournalError::NotFound)
        },
    }
}

/// Deletes the journal entry for `(title, owner)`; the caller must equal the
/// stored owner, and the record's exact deposit is owed back to that owner.
/// Implements `spec_delete` exactly.
pub fn delete_journal_entry(
    store: &mut RecordStore,
    caller: &Identity,
    owner: &Identity,
    title: &Vec<u8>,
) -> (r: Result<Refund, JournalError>)
    requires
        old(store).wf(),
    ensures
        final(store).wf(),
        ({
            let t = spec_delete(old(store)@, caller@, owner@, title@);
            &&& final(store)@ == t.0
            &&& match r {
                Ok(refund) => t.1 == Ok::<(Seq<u8>, u64), JournalError>(
                    (refund.beneficiary@, refund.amount),
                ),
                Err(e) => t.1 == Err::<(Seq<u8>, u64), JournalError>(e),
            }
        }),
{
    if title.len() > MAX_TITLE_LEN as usize {
        return Err(JournalError::FieldTooLong);
    }
    let addr = match derive_address(title, owner) {
        Some(pair) => pair.0,
        None => {
            return Err(JournalError::DerivationFailed);
        },
    };
    match store.read(&addr) {
        Ok(entry) => {
            if let Err(e) = authorize(caller, &entry.owner) {
                return Err(e);
            }
        },
        Err(e) => {
            return Err(e);
        },
    }
    match store.delete_and_refund(&addr) {
        Ok(refund) => Ok(refund),
        Err(_) => {
            proof {
                assert(false);
            }
            Err(JournalError::NotFound)
        },
    }
}

} // verus!
