//! Address derivation: the pure map from a `(title, owner)` pair to the
//! record's storage address and its disambiguation nonce.

use vstd::prelude::*;

use crate::ident::Identity;

verus! {

/// The storage address and nonce derived for a `(title, owner)` pair, or
/// `None` in the improbable event that no nonce yields a valid address.
/// The derivation hashes the title bytes, the owner bytes and a nonce into
/// the address space; its exact value is fixed by the derivation primitive
/// and the program's identifier, and is never restated here.
pub uninterp spec fn pda_of(title: Seq<u8>, owner: Seq<u8>) -> Option<(Seq<u8>, u8)>;

/// Relies on `Pubkey::try_find_program_address` (through anchor_lang's
/// prelude): the result is a deterministic function of the seeds and the
/// fixed program identifier, searching nonce values downward from the
/// maximum; `None` comes back only when no nonce yields a valid address.
/// The title is passed as two chunks of at most 32 bytes each, since the
/// primitive caps a single seed's length below the title capacity; the
/// underlying hash concatenates all seeds, so chunking leaves the hashed
/// bytes - title, owner, nonce - unchanged.
#[verifier::external_body]
fn find_pda(title: &Vec<u8>, owner: &Identity) -> (r: Option<(Vec<u8>, u8)>)
    ensures
        match r {
            Some(pair) => pda_of(title@, owner@) == Some((pair.0@, pair.1)),
            None => pda_of(title@, owner@) is None,
        },
{
    let program_id = anchor_lang::prelude::Pubkey::from_str_const(
        "a2rmSXDqpnuLEKR2GTRCktq83Fa9jZi1hSkwt8dV6xG",
    );
    let split = if title.len() < 32 { title.len() } else { 32 };
    let (head, tail) = title.as_slice().split_at(split);
    let found = anchor_lang::prelude::Pubkey::try_find_program_address(
        &[head, tail, owner.as_bytes().as_slice()],
        &program_id,
    );
    found.map(|(pk, bump)| (pk.to_bytes().to_vec(), bump))
}

/// Derives the storage address and nonce for a `(title, owner)` pair. Pure:
/// the same pair always yields the same result, so Create, Update and Delete
/// agree on a record's location without any lookup table.
pub fn derive_address(title: &Vec<u8>, owner: &Identity) -> (r: Option<(Vec<u8>, u8)>)
    ensures
        match r {
            Some(pair) => pda_of(title@, owner@) == Some((pair.0@, pair.1)),
            None => pda_of(title@, owner@) is None,
        },
{
    find_pda(title, owner)
}

} // verus!
