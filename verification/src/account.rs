//! Identities and small byte-vector helpers.
//!
//! On chain an identity is an opaque 32-byte public key; here it is a plain
//! byte vector with that length as its invariant, so that contracts can
//! compare and store identities as ordinary sequences of bytes.

use vstd::prelude::*;

verus! {

/// The number of bytes in an account identity.
pub const ACCOUNT_ID_LEN: usize = 32;

/// An opaque 32-byte identity: an issuer, an owner, a sender or a recipient.
pub struct AccountId {
    pub bytes: Vec<u8>,
}

impl View for AccountId {
    type V = Seq<u8>;

    open spec fn view(&self) -> Seq<u8> {
        self.bytes@
    }
}

impl AccountId {
    /// An identity is exactly 32 bytes long.
    pub open spec fn well_formed(&self) -> bool {
        self@.len() == ACCOUNT_ID_LEN
    }

    /// Wraps a 32-byte key as an identity.
    pub fn from_bytes(bytes: Vec<u8>) -> (r: AccountId)
        requires
            bytes@.len() == ACCOUNT_ID_LEN,
        ensures
            r@ == bytes@,
            r.well_formed(),
    {
        AccountId { bytes }
    }

    /// Compares two identities byte for byte.
    pub fn matches(&self, other: &AccountId) -> (r: bool)
        ensures
            r == (self@ == other@),
    {
        bytes_eq(&self.bytes, &other.bytes)
    }
}

impl Clone for AccountId {
    fn clone(&self) -> (r: AccountId)
        ensures
            r@ == self@,
    {
        AccountId { bytes: copy_bytes(&self.bytes) }
    }
}

/// Returns a fresh vector holding the same bytes.
pub fn copy_bytes(v: &Vec<u8>) -> (r: Vec<u8>)
    ensures
        r@ == v@,
{
    let mut out: Vec<u8> = Vec::new();
    let mut i: usize = 0;
    while i < v.len()
        invariant
            i <= v@.len(),
            out@ == v@.subrange(0, i as int),
        decreases v@.len() - i,
    {
        out.push(v[i]);
        i = i + 1;
    }
    assert(out@ =~= v@);
    out
}

/// Compares two byte vectors for equality of contents.
pub fn bytes_eq(a: &Vec<u8>, b: &Vec<u8>) -> (r: bool)
    ensures
        r == (a@ == b@),
{
    if a.len() != b.len() {
        assert(a@ != b@);
        return false;
    }
    let mut i: usize = 0;
    while i < a.len()
        invariant
            i <= a@.len(),
            a@.len() == b@.len(),
            forall|j: int| 0 <= j < i ==> a@[j] == b@[j],
        decreases a@.len() - i,
    {
        if a[i] != b[i] {
            return false;
        }
        i = i + 1;
    }
    assert(a@ =~= b@);
    true
}

} // verus!
