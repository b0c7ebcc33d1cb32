//! Exercises of the address derivation and the authorization gate.

use cruddapp::{authorize, derive_address, Identity, JournalError};

fn ident_from(bytes: [u8; 32]) -> Identity {
    Identity::from_bytes(bytes.to_vec()).unwrap()
}

struct Lcg(u64);

impl Lcg {
    fn next(&mut self) -> u64 {
        self.0 = self
            .0
            .wrapping_mul(6364136223846793005)
            .wrapping_add(1442695040888963407);
        self.0
    }

    fn bytes32(&mut self) -> [u8; 32] {
        let mut out = [0u8; 32];
        for chunk in out.chunks_mut(8) {
            chunk.copy_from_slice(&self.next().to_le_bytes());
        }
        out
    }
}

#[test]
fn derivation_is_deterministic() {
    let owner = ident_from([7u8; 32]);
    let title = b"a stable title".to_vec();
    let first = derive_address(&title, &owner).unwrap();
    let second = derive_address(&title, &owner).unwrap();
    assert_eq!(first.0, second.0);
    assert_eq!(first.1, second.1);
    // The address is a hash output, not the title handed back.
    assert_eq!(first.0.len(), 32);
    assert_ne!(first.0, title);
}

#[test]
fn distinct_pairs_derive_distinct_addresses() {
    let mut rng = Lcg(0x5eed);
    let mut addresses: Vec<Vec<u8>> = Vec::new();
    for round in 0..40 {
        let owner = ident_from(rng.bytes32());
        let title = vec![rng.next() as u8; (round % 32) + 1];
        let (addr, _bump) = derive_address(&title, &owner).unwrap();
        assert!(!addresses.contains(&addr));
        addresses.push(addr);
    }
    // The same owner under many titles also collides nowhere.
    let owner = ident_from(rng.bytes32());
    for len in 1..=60usize {
        let title = vec![b'x'; len];
        let (addr, _bump) = derive_address(&title, &owner).unwrap();
        assert!(!addresses.contains(&addr));
        addresses.push(addr);
    }
}

#[test]
fn long_titles_derive_like_short_ones() {
    // Titles beyond a single 32-byte seed chunk still derive, so the full
    // declared capacity of 60 bytes is usable.
    let owner = ident_from([9u8; 32]);
    let title = vec![b'q'; 60];
    let (addr, _bump) = derive_address(&title, &owner).unwrap();
    assert_eq!(addr.len(), 32);
}

#[test]
fn authorize_compares_identities() {
    let a = ident_from([1u8; 32]);
    let a_again = ident_from([1u8; 32]);
    let b = ident_from([2u8; 32]);
    assert!(authorize(&a, &a_again).is_ok());
    assert_eq!(authorize(&a, &b).unwrap_err(), JournalError::Unauthorized);
}

#[test]
fn identity_needs_exactly_32_bytes() {
    assert!(Identity::from_bytes(vec![0u8; 31]).is_none());
    assert!(Identity::from_bytes(vec![0u8; 33]).is_none());
    assert!(Identity::from_bytes(vec![0u8; 32]).is_some());
}
