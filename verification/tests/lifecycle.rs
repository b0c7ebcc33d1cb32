//! End-to-end exercises of the record lifecycle against the real derivation
//! and storage-economics primitives.

use cruddapp::journal::{create_journal_entry, delete_journal_entry, update_journal_entry};
use cruddapp::space::required_space;
use cruddapp::store::RecordStore;
use cruddapp::{Identity, JournalError, MAX_RECORD_SPACE};

fn ident(tag: u8) -> Identity {
    Identity::from_bytes(vec![tag; 32]).unwrap()
}

#[test]
fn create_then_read_back() {
    let mut store = RecordStore::new();
    let a = ident(1);
    let title = b"T".to_vec();
    let outcome =
        create_journal_entry(&mut store, &a, &a, title.clone(), b"hello".to_vec(), u64::MAX)
            .unwrap();
    assert!(outcome.charged > 0);
    assert_ne!(outcome.charged, MAX_RECORD_SPACE);
    assert_eq!(outcome.new_balance, u64::MAX - outcome.charged);

    let (addr, _bump) = cruddapp::derive_address(&title, &a).unwrap();
    let entry = store.read(&addr).unwrap();
    assert_eq!(entry.title, title);
    assert_eq!(entry.message, b"hello".to_vec());
    assert_eq!(entry.owner.as_bytes(), a.as_bytes());
    assert_eq!(store.size_at(&addr).unwrap(), MAX_RECORD_SPACE);
}

#[test]
fn create_delete_create_reuses_address() {
    let mut store = RecordStore::new();
    let a = ident(2);
    let title = b"reusable".to_vec();

    create_journal_entry(&mut store, &a, &a, title.clone(), b"first".to_vec(), u64::MAX).unwrap();
    delete_journal_entry(&mut store, &a, &a, &title).unwrap();
    create_journal_entry(&mut store, &a, &a, title.clone(), b"second".to_vec(), u64::MAX)
        .unwrap();

    let (addr, _bump) = cruddapp::derive_address(&title, &a).unwrap();
    let entry = store.read(&addr).unwrap();
    assert_eq!(entry.message, b"second".to_vec());
}

#[test]
fn create_on_occupied_address_already_exists() {
    let mut store = RecordStore::new();
    let a = ident(3);
    let title = b"dup".to_vec();

    create_journal_entry(&mut store, &a, &a, title.clone(), b"first words".to_vec(), u64::MAX)
        .unwrap();
    let err = create_journal_entry(&mut store, &a, &a, title.clone(), b"clobber".to_vec(),
        u64::MAX)
        .unwrap_err();
    assert_eq!(err, JournalError::AlreadyExists);

    let (addr, _bump) = cruddapp::derive_address(&title, &a).unwrap();
    assert_eq!(store.read(&addr).unwrap().message, b"first words".to_vec());
}

#[test]
fn update_by_non_owner_unauthorized() {
    let mut store = RecordStore::new();
    let owner = ident(4);
    let intruder = ident(5);
    let title = b"guarded".to_vec();

    create_journal_entry(&mut store, &owner, &owner, title.clone(), b"keep me".to_vec(),
        u64::MAX)
        .unwrap();
    let err = update_journal_entry(&mut store, &intruder, &owner, &title,
        b"overwritten".to_vec(), u64::MAX)
        .unwrap_err();
    assert_eq!(err, JournalError::Unauthorized);

    let (addr, _bump) = cruddapp::derive_address(&title, &owner).unwrap();
    assert_eq!(store.read(&addr).unwrap().message, b"keep me".to_vec());
}

#[test]
fn delete_refunds_exact_deposit() {
    let mut store = RecordStore::new();
    let a = ident(6);
    let title = b"funded".to_vec();

    let created =
        create_journal_entry(&mut store, &a, &a, title.clone(), b"msg".to_vec(), u64::MAX)
            .unwrap();
    let (addr_before, _bump) = cruddapp::derive_address(&title, &a).unwrap();
    assert_eq!(store.deposit_at(&addr_before).unwrap(), created.charged);
    let refund = delete_journal_entry(&mut store, &a, &a, &title).unwrap();
    assert_eq!(refund.amount, created.charged);
    assert_eq!(refund.beneficiary.as_bytes(), a.as_bytes());

    let (addr, _bump) = cruddapp::derive_address(&title, &a).unwrap();
    assert_eq!(store.read(&addr).unwrap_err(), JournalError::NotFound);
}

#[test]
fn delete_refunds_deposit_of_last_resize() {
    let mut store = RecordStore::new();
    let a = ident(7);
    let title = b"resized".to_vec();

    let created =
        create_journal_entry(&mut store, &a, &a, title.clone(), b"long message here".to_vec(),
            u64::MAX)
            .unwrap();
    let updated =
        update_journal_entry(&mut store, &a, &a, &title, b"tiny".to_vec(), u64::MAX).unwrap();
    // The shrink refunds part of the deposit; the rest comes back at delete.
    let refund = delete_journal_entry(&mut store, &a, &a, &title).unwrap();
    assert_eq!(updated.charged, 0);
    assert!(updated.refunded > 0);
    assert_eq!(refund.amount + updated.refunded, created.charged);
}

#[test]
fn end_to_end_create_update_delete() {
    let mut store = RecordStore::new();
    let a = ident(8);
    let title = b"T".to_vec();

    create_journal_entry(&mut store, &a, &a, title.clone(), b"hello".to_vec(), u64::MAX)
        .unwrap();
    let message = b"hello world, much longer".to_vec();
    update_journal_entry(&mut store, &a, &a, &title, message.clone(), u64::MAX).unwrap();

    let (addr, _bump) = cruddapp::derive_address(&title, &a).unwrap();
    assert_eq!(
        store.size_at(&addr).unwrap(),
        required_space(title.len(), message.len())
    );
    let entry = store.read(&addr).unwrap();
    assert_eq!(entry.owner.as_bytes(), a.as_bytes());
    assert_eq!(entry.message, message);

    delete_journal_entry(&mut store, &a, &a, &title).unwrap();
    assert_eq!(store.read(&addr).unwrap_err(), JournalError::NotFound);
}

#[test]
fn field_length_boundaries() {
    let mut store = RecordStore::new();
    let a = ident(9);

    let title60 = vec![b't'; 60];
    let message300 = vec![b'm'; 300];
    create_journal_entry(&mut store, &a, &a, title60.clone(), message300.clone(), u64::MAX)
        .unwrap();
    let (addr, _bump) = cruddapp::derive_address(&title60, &a).unwrap();
    assert_eq!(store.read(&addr).unwrap().message, message300);

    let title61 = vec![b't'; 61];
    let err =
        create_journal_entry(&mut store, &a, &a, title61, b"m".to_vec(), u64::MAX).unwrap_err();
    assert_eq!(err, JournalError::FieldTooLong);

    let message301 = vec![b'm'; 301];
    let err = create_journal_entry(&mut store, &a, &a, b"other".to_vec(), message301.clone(),
        u64::MAX)
        .unwrap_err();
    assert_eq!(err, JournalError::FieldTooLong);

    let err =
        update_journal_entry(&mut store, &a, &a, &title60, message301, u64::MAX).unwrap_err();
    assert_eq!(err, JournalError::FieldTooLong);
}

#[test]
fn update_and_delete_absent_not_found() {
    let mut store = RecordStore::new();
    let a = ident(10);
    let title = b"missing".to_vec();

    let err =
        update_journal_entry(&mut store, &a, &a, &title, b"m".to_vec(), u64::MAX).unwrap_err();
    assert_eq!(err, JournalError::NotFound);
    let err = delete_journal_entry(&mut store, &a, &a, &title).unwrap_err();
    assert_eq!(err, JournalError::NotFound);
}

#[test]
fn create_without_funds_insufficient() {
    let mut store = RecordStore::new();
    let a = ident(11);
    let err = create_journal_entry(&mut store, &a, &a, b"poor".to_vec(), b"m".to_vec(), 0)
        .unwrap_err();
    assert_eq!(err, JournalError::InsufficientFunds);

    // A failed creation leaves the address vacant.
    let (addr, _bump) = cruddapp::derive_address(&b"poor".to_vec(), &a).unwrap();
    assert_eq!(store.read(&addr).unwrap_err(), JournalError::NotFound);
}

#[test]
fn update_growth_charges_difference() {
    let mut store = RecordStore::new();
    let a = ident(12);
    let title = b"grow".to_vec();

    create_journal_entry(&mut store, &a, &a, title.clone(), b"a".to_vec(), u64::MAX).unwrap();
    let shrunk = update_journal_entry(&mut store, &a, &a, &title, b"bb".to_vec(), u64::MAX)
        .unwrap();
    assert_eq!(shrunk.charged, 0);
    let grown = update_journal_entry(&mut store, &a, &a, &title, vec![b'c'; 200], u64::MAX)
        .unwrap();
    assert_eq!(grown.refunded, 0);
    assert!(grown.charged > 0);

    // Growing from a shrunken allocation with no funds at hand fails.
    let small = update_journal_entry(&mut store, &a, &a, &title, b"dd".to_vec(), u64::MAX)
        .unwrap();
    assert_eq!(small.charged, 0);
    let err = update_journal_entry(&mut store, &a, &a, &title, vec![b'e'; 250], 0).unwrap_err();
    assert_eq!(err, JournalError::InsufficientFunds);
}
