//! The library's stated laws: proof functions over the derivation name and
//! the lifecycle transitions, each holding for every input its `requires`
//! admits.

use vstd::prelude::*;

use crate::addr::pda_of;
use crate::error::JournalError;
use crate::journal::{spec_create, spec_delete, spec_update};
use crate::space::{
    deposit_of, spec_required_space, MAX_MESSAGE_LEN, MAX_RECORD_SPACE, MAX_TITLE_LEN,
};
use crate::store::{EntryModel, SlotModel};

verus! {

/// Address derivation is deterministic: any two results of the derivation
/// for the same `(title, owner)` pair are identical, address and nonce both.
pub proof fn lemma_derivation_deterministic(
    title: Seq<u8>,
    owner: Seq<u8>,
    r1: Option<(Seq<u8>, u8)>,
    r2: Option<(Seq<u8>, u8)>,
)
    requires
        r1 == pda_of(title, owner),
        r2 == pda_of(title, owner),
    ensures
        r1 == r2,
{
}

/// Create, then Delete, then Create again on the same `(title, owner)` pair:
/// the delete and the second create both succeed - the address is reusable
/// after deletion - and the final record reflects only the second creation's
/// inputs.
pub proof fn lemma_create_delete_create(
    m: Map<Seq<u8>, SlotModel>,
    owner: Seq<u8>,
    title: Seq<u8>,
    message1: Seq<u8>,
    message2: Seq<u8>,
    balance1: u64,
    balance2: u64,
)
    requires
        spec_create(m, owner, owner, title, message1, balance1).1 is Ok,
        message2.len() <= MAX_MESSAGE_LEN,
        deposit_of(MAX_RECORD_SPACE) <= balance2,
    ensures
        ({
            let m1 = spec_create(m, owner, owner, title, message1, balance1).0;
            let d = spec_delete(m1, owner, owner, title);
            let c2 = spec_create(d.0, owner, owner, title, message2, balance2);
            let a = (pda_of(title, owner)->Some_0).0;
            &&& d.1 is Ok
            &&& c2.1 is Ok
            &&& c2.0.contains_key(a)
            &&& c2.0[a].entry == (EntryModel { owner: owner, title: title, message: message2 })
        }),
{
}

/// Create on an address that already holds a record fails with
/// `AlreadyExists` and leaves the store - the existing record included -
/// unmodified.
pub proof fn lemma_create_occupied(
    m: Map<Seq<u8>, SlotModel>,
    caller: Seq<u8>,
    funder: Seq<u8>,
    title: Seq<u8>,
    message: Seq<u8>,
    funder_balance: u64,
)
    requires
        title.len() <= MAX_TITLE_LEN,
        message.len() <= MAX_MESSAGE_LEN,
        pda_of(title, funder) is Some,
        m.contains_key((pda_of(title, funder)->Some_0).0),
    ensures
        spec_create(m, caller, funder, title, message, funder_balance) == (
            m,
            Err::<(u64, u64), JournalError>(JournalError::AlreadyExists),
        ),
{
}

/// Update by a caller other than the stored owner fails with `Unauthorized`
/// and leaves the store - the record's message included - unchanged.
pub proof fn lemma_update_unauthorized(
    m: Map<Seq<u8>, SlotModel>,
    caller: Seq<u8>,
    owner: Seq<u8>,
    title: Seq<u8>,
    message: Seq<u8>,
    funder_balance: u64,
)
    requires
        title.len() <= MAX_TITLE_LEN,
        message.len() <= MAX_MESSAGE_LEN,
        pda_of(title, owner) is Some,
        m.contains_key((pda_of(title, owner)->Some_0).0),
        caller != m[(pda_of(title, owner)->Some_0).0].entry.owner,
    ensures
        spec_update(m, caller, owner, title, message, funder_balance) == (
            m,
            Err::<(u64, u64, u64), JournalError>(JournalError::Unauthorized),
        ),
{
}

/// A successful Update replaces exactly the message: the record keeps its
/// owner and its title, its size becomes the accountant's size for the
/// stored title and the new message, and every other address is untouched.
pub proof fn lemma_update_replaces_only_message(
    m: Map<Seq<u8>, SlotModel>,
    caller: Seq<u8>,
    owner: Seq<u8>,
    title: Seq<u8>,
    message: Seq<u8>,
    funder_balance: u64,
)
    requires
        spec_update(m, caller, owner, title, message, funder_balance).1 is Ok,
    ensures
        ({
            let u = spec_update(m, caller, owner, title, message, funder_balance);
            let a = (pda_of(title, owner)->Some_0).0;
            &&& u.0[a].entry.owner == m[a].entry.owner
            &&& u.0[a].entry.title == m[a].entry.title
            &&& u.0[a].entry.message == message
            &&& u.0[a].size == spec_required_space(
                m[a].entry.title.len() as int,
                message.len() as int,
            ) as u64
            &&& forall|b: Seq<u8>| b != a ==> (#[trigger] u.0.contains_key(b)) == m.contains_key(b)
            &&& forall|b: Seq<u8>| b != a && #[trigger] u.0.contains_key(b) ==> u.0[b] == m[b]
        }),
{
}

/// After a successful Create, a Delete by the owner is owed exactly the
/// deposit the creation charged, the refund goes to the stored owner, and
/// the address holds no record afterwards.
pub proof fn lemma_delete_refunds_charge(
    m: Map<Seq<u8>, SlotModel>,
    owner: Seq<u8>,
    title: Seq<u8>,
    message: Seq<u8>,
    funder_balance: u64,
)
    requires
        spec_create(m, owner, owner, title, message, funder_balance).1 is Ok,
    ensures
        ({
            let c = spec_create(m, owner, owner, title, message, funder_balance);
            let d = spec_delete(c.0, owner, owner, title);
            let a = (pda_of(title, owner)->Some_0).0;
            &&& d.1 == Ok::<(Seq<u8>, u64), JournalError>((owner, (c.1->Ok_0).1))
            &&& !d.0.contains_key(a)
        }),
{
}

/// After a successful Update, the deposit owed back by a Delete is exactly
/// the repriced deposit of the resized allocation, paid to the stored owner,
/// and the address holds no record afterwards.
pub proof fn lemma_delete_refunds_after_update(
    m: Map<Seq<u8>, SlotModel>,
    caller: Seq<u8>,
    owner: Seq<u8>,
    title: Seq<u8>,
    message: Seq<u8>,
    funder_balance: u64,
)
    requires
        spec_update(m, caller, owner, title, message, funder_balance).1 is Ok,
    ensures
        ({
            let u = spec_update(m, caller, owner, title, message, funder_balance);
            let a = (pda_of(title, owner)->Some_0).0;
            let d = spec_delete(u.0, caller, owner, title);
            &&& u.0[a].deposit == deposit_of(u.0[a].size)
            &&& d.1 == Ok::<(Seq<u8>, u64), JournalError>((u.0[a].entry.owner, u.0[a].deposit))
            &&& !d.0.contains_key(a)
        }),
{
}

} // verus!
