//! Owner identities and the authorization gate.

use vstd::prelude::*;

use crate::error::JournalError;
use crate::space::OWNER_LEN;

verus! {

/// A fixed-size account identity. The surrounding runtime proves, by
/// signature verification, that a request really comes from the identity it
/// names; this library receives that identity as a plain value.
#[derive(Debug)]
pub struct Identity {
    bytes: Vec<u8>,
}

impl View for Identity {
    type V = Seq<u8>;

    closed spec fn view(&self) -> Seq<u8> {
        self.bytes@
    }
}

impl Identity {
    /// A well-formed identity holds exactly `OWNER_LEN` bytes.
    pub open spec fn wf(&self) -> bool {
        self@.len() == OWNER_LEN
    }

    /// Wraps raw bytes as an identity; refuses anything but exactly
    /// `OWNER_LEN` bytes.
    pub fn from_bytes(bytes: Vec<u8>) -> (r: Option<Identity>)
        ensures
            match r {
                Some(id) => id.wf() && id@ == bytes@,
                None => bytes@.len() != OWNER_LEN,
            },
    {
        if bytes.len() == OWNER_LEN as usize {
            Some(Identity { bytes })
        } else {
            None
        }
    }

    /// The identity's bytes, as handed to the derivation primitive.
    pub fn as_bytes(&self) -> (r: &Vec<u8>)
        ensures
            r@ == self@,
    {
        &self.bytes
    }

    /// An owned copy of this identity.
    pub fn duplicate(&self) -> (r: Identity)
        ensures
            r@ == self@,
    {
        let mut bytes: Vec<u8> = Vec::new();
        let mut i: usize = 0;
        while i < self.bytes.len()
            invariant
                i <= self.bytes@.len(),
                bytes@ == self.bytes@.subrange(0, i as int),
            decreases self.bytes@.len() - i,
        {
            bytes.push(self.bytes[i]);
            proof {
                assert(bytes@ =~= self.bytes@.subrange(0, i + 1));
            }
            i = i + 1;
        }
        proof {
            assert(bytes@ =~= self.bytes@);
        }
        Identity { bytes }
    }

    /// Whether two identities are the same, with its meaning pinned to the
    /// views.
    pub fn matches(&self, other: &Identity) -> (r: bool)
        ensures
            r == (self@ == other@),
    {
        bytes_eq(&self.bytes, &other.bytes)
    }
}

/// Byte-for-byte equality of two byte vectors.
pub(crate) fn bytes_eq(a: &Vec<u8>, b: &Vec<u8>) -> (r: bool)
    ensures
        r == (a@ == b@),
{
    if a.len() != b.len() {
        return false;
    }
    let mut i: usize = 0;
    while i < a.len()
        invariant
            a@.len() == b@.len(),
            i <= a@.len(),
            forall|k: int| 0 <= k < i ==> a@[k] == b@[k],
        decreases a@.len() - i,
    {
        if a[i] != b[i] {
            return false;
        }
        i = i + 1;
    }
    proof {
        assert(a@ =~= b@);
    }
    true
}

/// An owned copy of a byte vector.
pub(crate) fn copy_bytes(v: &Vec<u8>) -> (r: Vec<u8>)
    ensures
        r@ == v@,
{
    let mut r: Vec<u8> = Vec::new();
    let mut i: usize = 0;
    while i < v.len()
        invariant
            i <= v@.len(),
            r@ == v@.subrange(0, i as int),
        decreases v@.len() - i,
    {
        r.push(v[i]);
        proof {
            assert(r@ =~= v@.subrange(0, i + 1));
        }
        i = i + 1;
    }
    proof {
        assert(r@ =~= v@);
    }
    r
}

/// The authorization gate: a mutation may proceed only when the proven
/// caller identity equals the required owner or funder identity.
pub fn authorize(caller: &Identity, required: &Identity) -> (r: Result<(), JournalError>)
    ensures
        r is Ok <==> caller@ == required@,
        r is Err ==> r->Err_0 == JournalError::Unauthorized,
{
    if caller.matches(required) {
        Ok(())
    } else {
        Err(JournalError::Unauthorized)
    }
}

} // verus!
