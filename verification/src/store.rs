//! The record store: durable keyed storage with four primitive operations on
//! a derived address - create, read, resize and delete-with-refund - plus the
//! record rewrite that pairs with a resize.
//!
//! The store is modelled as a map from address bytes to allocations. Each
//! allocation holds the persisted entry, its size in bytes, and the deposit
//! locked to fund it. Funds themselves live with the surrounding environment:
//! an operation that charges or refunds reports the exact amount, and the
//! environment settles the balances.

use vstd::prelude::*;

use crate::error::JournalError;
use crate::ident::{bytes_eq, Identity};
use crate::space::{deposit_of, rent_deposit, MAX_MESSAGE_LEN, MAX_TITLE_LEN};

verus! {

/// A journal entry as persisted: the owning identity, the title that keyed
/// the derivation, and the message text.
#[derive(Debug)]
pub struct JournalEntryState {
    pub owner: Identity,
    pub title: Vec<u8>,
    pub message: Vec<u8>,
}

/// Mathematical model of a persisted entry.
pub ghost struct EntryModel {
    pub owner: Seq<u8>,
    pub title: Seq<u8>,
    pub message: Seq<u8>,
}

impl JournalEntryState {
    /// The entry's mathematical model.
    pub open spec fn model(&self) -> EntryModel {
        EntryModel { owner: self.owner@, title: self.title@, message: self.message@ }
    }
}

/// One allocation: the address it lives at, the persisted entry, the
/// allocation size in bytes, and the deposit locked for it.
#[derive(Debug)]
pub struct Slot {
    pub addr: Vec<u8>,
    pub entry: JournalEntryState,
    pub size: u64,
    pub deposit: u64,
}

/// Mathematical model of an allocation.
pub ghost struct SlotModel {
    pub entry: EntryModel,
    pub size: u64,
    pub deposit: u64,
}

impl Slot {
    /// The allocation's mathematical model.
    pub open spec fn model(&self) -> SlotModel {
        SlotModel { entry: self.entry.model(), size: self.size, deposit: self.deposit }
    }
}

/// What a delete reports back: the reclaimed deposit and the stored owner it
/// is owed to. The surrounding environment credits that identity.
#[derive(Debug)]
pub struct Refund {
    pub beneficiary: Identity,
    pub amount: u64,
}

/// What a resize reports back: the funder's balance after any charge, and
/// the amount refunded when the allocation shrank. At most one of `charged`
/// and `refunded` is nonzero.
#[derive(Debug)]
pub struct ResizeOutcome {
    pub new_balance: u64,
    pub charged: u64,
    pub refunded: u64,
}

/// The map a sequence of allocations denotes.
pub open spec fn map_of(s: Seq<Slot>) -> Map<Seq<u8>, SlotModel>
    decreases s.len(),
{
    if s.len() == 0 {
        Map::empty()
    } else {
        map_of(s.drop_last()).insert(s.last().addr@, s.last().model())
    }
}

/// No two allocations share an address.
pub open spec fn unique_addrs(s: Seq<Slot>) -> bool {
    forall|i: int, j: int|
        #![trigger s[i].addr, s[j].addr]
        0 <= i < j < s.len() ==> s[i].addr@ != s[j].addr@
}

/// Every stored entry respects the declared field capacities.
pub open spec fn entries_bounded(s: Seq<Slot>) -> bool {
    forall|i: int|
        0 <= i < s.len() ==> (#[trigger] s[i]).entry.title@.len() <= MAX_TITLE_LEN
            && s[i].entry.message@.len() <= MAX_MESSAGE_LEN
}

/// Every record in a store model respects the declared field capacities.
pub open spec fn wf_model(m: Map<Seq<u8>, SlotModel>) -> bool {
    forall|a: Seq<u8>|
        #[trigger] m.contains_key(a) ==> m[a].entry.title.len() <= MAX_TITLE_LEN
            && m[a].entry.message.len() <= MAX_MESSAGE_LEN
}

/// The in-memory record store: the durable keyed storage that the lifecycle
/// operations mutate.
pub struct RecordStore {
    slots: Vec<Slot>,
}

impl View for RecordStore {
    type V = Map<Seq<u8>, SlotModel>;

    closed spec fn view(&self) -> Map<Seq<u8>, SlotModel> {
        map_of(self.slots@)
    }
}

proof fn lemma_map_of_contains(s: Seq<Slot>, a: Seq<u8>)
    ensures
        map_of(s).contains_key(a) <==> exists|i: int| 0 <= i < s.len() && s[i].addr@ == a,
    decreases s.len(),
{
    if s.len() > 0 {
        lemma_map_of_contains(s.drop_last(), a);
        if s.last().addr@ == a {
            assert(s[s.len() - 1].addr@ == a);
        } else if map_of(s).contains_key(a) {
            let i = choose|i: int| 0 <= i < s.drop_last().len() && s.drop_last()[i].addr@ == a;
            assert(s[i].addr@ == a);
        } else if exists|i: int| 0 <= i < s.len() && s[i].addr@ == a {
            let i = choose|i: int| 0 <= i < s.len() && s[i].addr@ == a;
            assert(s.drop_last()[i].addr@ == a);
        }
    }
}

proof fn lemma_map_of_index(s: Seq<Slot>, i: int)
    requires
        unique_addrs(s),
        0 <= i < s.len(),
    ensures
        map_of(s).contains_key(s[i].addr@),
        map_of(s)[s[i].addr@] == s[i].model(),
    decreases s.len(),
{
    if i < s.len() - 1 {
        assert(unique_addrs(s.drop_last()));
        lemma_map_of_index(s.drop_last(), i);
        assert(s.drop_last()[i] == s[i]);
        assert(s[i].addr@ != s.last().addr@);
    }
}

proof fn lemma_map_of_update(s: Seq<Slot>, i: int, x: Slot)
    requires
        unique_addrs(s),
        0 <= i < s.len(),
        x.addr@ == s[i].addr@,
    ensures
        map_of(s.update(i, x)) == map_of(s).insert(x.addr@, x.model()),
    decreases s.len(),
{
    let t = s.update(i, x);
    if i == s.len() - 1 {
        assert(t.drop_last() =~= s.drop_last());
        assert(t.last() == x);
        assert(map_of(s.drop_last()).insert(s.last().addr@, s.last().model()).insert(
            x.addr@,
            x.model(),
        ) =~= map_of(s.drop_last()).insert(x.addr@, x.model()));
    } else {
        assert(unique_addrs(s.drop_last()));
        lemma_map_of_update(s.drop_last(), i, x);
        assert(t.drop_last() =~= s.drop_last().update(i, x));
        assert(t.last() == s.last());
        assert(s[i].addr@ != s.last().addr@);
        assert(map_of(s.drop_last()).insert(x.addr@, x.model()).insert(
            s.last().addr@,
            s.last().model(),
        ) =~= map_of(s.drop_last()).insert(s.last().addr@, s.last().model()).insert(
            x.addr@,
            x.model(),
        ));
    }
}

proof fn lemma_map_of_remove(s: Seq<Slot>, i: int)
    requires
        unique_addrs(s),
        0 <= i < s.len(),
    ensures
        map_of(s.remove(i)) == map_of(s).remove(s[i].addr@),
    decreases s.len(),
{
    s.remove_ensures(i);
    if i == s.len() - 1 {
        assert(s.remove(i) =~= s.drop_last());
        lemma_map_of_contains(s.drop_last(), s[i].addr@);
        assert(!map_of(s.drop_last()).contains_key(s[i].addr@));
        assert(map_of(s.drop_last()).insert(s.last().addr@, s.last().model()).remove(s[i].addr@)
            =~= map_of(s.drop_last()));
    } else {
        assert(unique_addrs(s.drop_last()));
        lemma_map_of_remove(s.drop_last(), i);
        s.drop_last().remove_ensures(i);
        assert(s.remove(i).drop_last() =~= s.drop_last().remove(i));
        assert(s.remove(i).last() == s.last());
        assert(s[i].addr@ != s.last().addr@);
        assert(map_of(s.drop_last()).remove(s[i].addr@).insert(s.last().addr@, s.last().model())
            =~= map_of(s.drop_last()).insert(s.last().addr@, s.last().model()).remove(
            s[i].addr@,
        ));
    }
}

impl RecordStore {
    /// Internal consistency: addresses unique, every entry within bounds.
    pub closed spec fn wf(&self) -> bool {
        unique_addrs(self.slots@) && entries_bounded(self.slots@)
    }

    /// A well-formed store's model keeps every record within the declared
    /// field capacities.
    pub proof fn lemma_wf_model(&self)
        requires
            self.wf(),
        ensures
            wf_model(self@),
    {
        assert forall|a: Seq<u8>| #[trigger] self@.contains_key(a) implies self@[a].entry.title.len()
            <= MAX_TITLE_LEN && self@[a].entry.message.len() <= MAX_MESSAGE_LEN by {
            lemma_map_of_contains(self.slots@, a);
            let i = choose|i: int| 0 <= i < self.slots@.len() && self.slots@[i].addr@ == a;
            lemma_map_of_index(self.slots@, i);
        }
    }

    /// An empty store.
    pub fn new() -> (r: RecordStore)
        ensures
            r.wf(),
            r@ == Map::<Seq<u8>, SlotModel>::empty(),
    {
        RecordStore { slots: Vec::new() }
    }

    /// The index of the allocation at `addr`, if any.
    fn find_slot(&self, addr: &Vec<u8>) -> (r: Option<usize>)
        ensures
            match r {
                Some(i) => i < self.slots@.len() && self.slots@[i as int].addr@ == addr@,
                None => forall|j: int| 0 <= j < self.slots@.len() ==> self.slots@[j].addr@ != addr@,
            },
    {
        let mut i: usize = 0;
        while i < self.slots.len()
            invariant
                i <= self.slots@.len(),
                forall|j: int| 0 <= j < i ==> self.slots@[j].addr@ != addr@,
            decreases self.slots@.len() - i,
        {
            if bytes_eq(&self.slots[i].addr, addr) {
                return Some(i);
            }
            i = i + 1;
        }
        None
    }

    /// Reads the record at `addr`, or reports `NotFound`.
    pub fn read(&self, addr: &Vec<u8>) -> (r: Result<&JournalEntryState, JournalError>)
        requires
            self.wf(),
        ensures
            match r {
                Ok(entry) => self@.contains_key(addr@) && entry.model() == self@[addr@].entry,
                Err(e) => e == JournalError::NotFound && !self@.contains_key(addr@),
            },
    {
        proof {
            lemma_map_of_contains(self.slots@, addr@);
        }
        match self.find_slot(addr) {
            Some(i) => {
                proof {
                    lemma_map_of_index(self.slots@, i as int);
                }
                Ok(&self.slots[i].entry)
            },
            None => Err(JournalError::NotFound),
        }
    }

    /// The deposit locked for the allocation at `addr`.
    pub fn deposit_at(&self, addr: &Vec<u8>) -> (r: Result<u64, JournalError>)
        requires
            self.wf(),
        ensures
            match r {
                Ok(d) => self@.contains_key(addr@) && d == self@[addr@].deposit,
                Err(e) => e == JournalError::NotFound && !self@.contains_key(addr@),
            },
    {
        proof {
            lemma_map_of_contains(self.slots@, addr@);
        }
        match self.find_slot(addr) {
            Some(i) => {
                proof {
                    lemma_map_of_index(self.slots@, i as int);
                }
                Ok(self.slots[i].deposit)
            },
            None => Err(JournalError::NotFound),
        }
    }

    /// The size, in bytes, of the allocation at `addr`.
    pub fn size_at(&self, addr: &Vec<u8>) -> (r: Result<u64, JournalError>)
        requires
            self.wf(),
        ensures
            match r {
                Ok(s) => self@.contains_key(addr@) && s == self@[addr@].size,
                Err(e) => e == JournalError::NotFound && !self@.contains_key(addr@),
            },
    {
        proof {
            lemma_map_of_contains(self.slots@, addr@);
        }
        match self.find_slot(addr) {
            Some(i) => {
                proof {
                    lemma_map_of_index(self.slots@, i as int);
                }
                Ok(self.slots[i].size)
            },
            None => Err(JournalError::NotFound),
        }
    }

    /// Allocates exactly `size` bytes at `addr`, writes `entry` into the
    /// allocation, and charges the funder the deposit that prices `size`.
    /// Fails with `AlreadyExists` if the address is already allocated, and
    /// with `InsufficientFunds` if `funder_balance` cannot cover the deposit;
    /// either failure leaves the store unchanged. On success the returned
    /// pair holds the funder's new balance and the exact amount charged.
    pub fn create(
        &mut self,
        addr: Vec<u8>,
        entry: JournalEntryState,
        size: u64,
        funder_balance: u64,
    ) -> (r: Result<(u64, u64), JournalError>)
        requires
            old(self).wf(),
            entry.title@.len() <= MAX_TITLE_LEN,
            entry.message@.len() <= MAX_MESSAGE_LEN,
        ensures
            final(self).wf(),
            match r {
                Ok(pair) => !old(self)@.contains_key(addr@) && deposit_of(size) <= funder_balance
                    && pair.0 == funder_balance - deposit_of(size) && pair.1 == deposit_of(size)
                    && final(self)@ == old(self)@.insert(
                    addr@,
                    (SlotModel { entry: entry.model(), size: size, deposit: deposit_of(size) }),
                ),
                Err(e) => final(self)@ == old(self)@ && match e {
                    JournalError::AlreadyExists => old(self)@.contains_key(addr@),
                    JournalError::InsufficientFunds => !old(self)@.contains_key(addr@)
                        && deposit_of(size) > funder_balance,
                    _ => false,
                },
            },
    {
        proof {
            lemma_map_of_contains(self.slots@, addr@);
        }
        if let Some(_) = self.find_slot(&addr) {
            return Err(JournalError::AlreadyExists);
        }
        let deposit = rent_deposit(size);
        if deposit > funder_balance {
            return Err(JournalError::InsufficientFunds);
        }
        let new_balance = funder_balance - deposit;
        let slot = Slot { addr, entry, size, deposit };
        let ghost old_slots = self.slots@;
        self.slots.push(slot);
        proof {
            assert(self.slots@.drop_last() =~= old_slots);
        }
        Ok((new_balance, deposit))
    }

    /// Grows or shrinks the allocation at `addr` to exactly `new_size` bytes,
    /// repricing its deposit. A growth charges the funder the difference and
    /// fails with `InsufficientFunds` when `funder_balance` cannot cover it;
    /// a shrink reports the difference as a refund owed to the record's
    /// owner. Fails with `NotFound` if nothing is allocated at `addr`. When
    /// `zero_fill` is set, storage exposed by a later regrowth is zeroed
    /// before the record is rewritten; this store persists the entry in
    /// structured form, so no stale bytes are representable in the model and
    /// the flag has no further contractual effect here.
    pub fn resize(
        &mut self,
        addr: &Vec<u8>,
        new_size: u64,
        zero_fill: bool,
        funder_balance: u64,
    ) -> (r: Result<ResizeOutcome, JournalError>)
        requires
            old(self).wf(),
        ensures
            final(self).wf(),
            match r {
                Ok(outcome) => old(self)@.contains_key(addr@) && {
                    let old_deposit = old(self)@[addr@].deposit;
                    let new_deposit = deposit_of(new_size);
                    &&& final(self)@ == old(self)@.insert(
                        addr@,
                        (SlotModel {
                            entry: old(self)@[addr@].entry,
                            size: new_size,
                            deposit: new_deposit,
                        }),
                    )
                    &&& new_deposit > old_deposit ==> outcome.charged == new_deposit - old_deposit
                        && outcome.charged <= funder_balance && outcome.refunded == 0
                        && outcome.new_balance == funder_balance - outcome.charged
                    &&& new_deposit <= old_deposit ==> outcome.charged == 0 && outcome.refunded
                        == old_deposit - new_deposit && outcome.new_balance == funder_balance
                },
                Err(e) => final(self)@ == old(self)@ && match e {
                    JournalError::NotFound => !old(self)@.contains_key(addr@),
                    JournalError::InsufficientFunds => old(self)@.contains_key(addr@)
                        && deposit_of(new_size) > old(self)@[addr@].deposit
                        && deposit_of(new_size) - old(self)@[addr@].deposit > funder_balance,
                    _ => false,
                },
            },
    {
        let _ = zero_fill;
        proof {
            lemma_map_of_contains(self.slots@, addr@);
        }
        let i = match self.find_slot(addr) {
            Some(i) => i,
            None => {
                return Err(JournalError::NotFound);
            },
        };
        proof {
            lemma_map_of_index(self.slots@, i as int);
        }
        let old_deposit = self.slots[i].deposit;
        let new_deposit = rent_deposit(new_size);
        let charged: u64 = if new_deposit > old_deposit {
            new_deposit - old_deposit
        } else {
            0
        };
        if charged > funder_balance {
            return Err(JournalError::InsufficientFunds);
        }
        let refunded: u64 = if new_deposit > old_deposit {
            0
        } else {
            old_deposit - new_deposit
        };
        let new_balance = funder_balance - charged;
        let slot = &self.slots[i];
        let new_slot = Slot {
            addr: crate::ident::copy_bytes(&slot.addr),
            entry: JournalEntryState {
                owner: slot.entry.owner.duplicate(),
                title: crate::ident::copy_bytes(&slot.entry.title),
                message: crate::ident::copy_bytes(&slot.entry.message),
            },
            size: new_size,
            deposit: new_deposit,
        };
        let ghost old_slots = self.slots@;
        self.slots.set(i, new_slot);
        proof {
            lemma_map_of_update(old_slots, i as int, self.slots@[i as int]);
            assert(unique_addrs(self.slots@));
            assert(entries_bounded(self.slots@));
        }
        Ok(ResizeOutcome { new_balance, charged, refunded })
    }

    /// Overwrites the message of the record at `addr`, leaving its owner,
    /// title, allocation size and deposit untouched. Fails with `NotFound`
    /// if nothing is allocated there.
    pub fn write_message(&mut self, addr: &Vec<u8>, message: Vec<u8>) -> (r: Result<
        (),
        JournalError,
    >)
        requires
            old(self).wf(),
            message@.len() <= MAX_MESSAGE_LEN,
        ensures
            final(self).wf(),
            match r {
                Ok(()) => old(self)@.contains_key(addr@) && final(self)@ == old(self)@.insert(
                    addr@,
                    (SlotModel {
                        entry: EntryModel {
                            owner: old(self)@[addr@].entry.owner,
                            title: old(self)@[addr@].entry.title,
                            message: message@,
                        },
                        size: old(self)@[addr@].size,
                        deposit: old(self)@[addr@].deposit,
                    }),
                ),
                Err(e) => e == JournalError::NotFound && !old(self)@.contains_key(addr@)
                    && final(self)@ == old(self)@,
            },
    {
        proof {
            lemma_map_of_contains(self.slots@, addr@);
        }
        let i = match self.find_slot(addr) {
            Some(i) => i,
            None => {
                return Err(JournalError::NotFound);
            },
        };
        proof {
            lemma_map_of_index(self.slots@, i as int);
        }
        let slot = &self.slots[i];
        let new_slot = Slot {
            addr: crate::ident::copy_bytes(&slot.addr),
            entry: JournalEntryState {
                owner: slot.entry.owner.duplicate(),
                title: crate::ident::copy_bytes(&slot.entry.title),
                message,
            },
            size: slot.size,
            deposit: slot.deposit,
        };
        let ghost old_slots = self.slots@;
        self.slots.set(i, new_slot);
        proof {
            lemma_map_of_update(old_slots, i as int, self.slots@[i as int]);
            assert(unique_addrs(self.slots@));
            assert(entries_bounded(self.slots@));
        }
        Ok(())
    }

    /// Deallocates the storage at `addr` and reports the exact deposit it
    /// held as a refund owed to the stored owner. Fails with `NotFound` if
    /// nothing is allocated there.
    pub fn delete_and_refund(&mut self, addr: &Vec<u8>) -> (r: Result<Refund, JournalError>)
        requires
            old(self).wf(),
        ensures
            final(self).wf(),
            match r {
                Ok(refund) => old(self)@.contains_key(addr@) && refund.beneficiary@ == old(
                    self,
                )@[addr@].entry.owner && refund.amount == old(self)@[addr@].deposit && final(self)@
                    == old(self)@.remove(addr@),
                Err(e) => e == JournalError::NotFound && !old(self)@.contains_key(addr@)
                    && final(self)@ == old(self)@,
            },
    {
        proof {
            lemma_map_of_contains(self.slots@, addr@);
        }
        let i = match self.find_slot(addr) {
            Some(i) => i,
            None => {
                return Err(JournalError::NotFound);
            },
        };
        proof {
            lemma_map_of_index(self.slots@, i as int);
            lemma_map_of_remove(self.slots@, i as int);
            self.slots@.remove_ensures(i as int);
        }
        let ghost old_slots = self.slots@;
        let slot = self.slots.remove(i);
        proof {
            assert(unique_addrs(self.slots@)) by {
                old_slots.remove_ensures(i as int);
            }
            assert(entries_bounded(self.slots@)) by {
                old_slots.remove_ensures(i as int);
            }
        }
        Ok(Refund { beneficiary: slot.entry.owner, amount: slot.deposit })
    }
}

} // verus!
