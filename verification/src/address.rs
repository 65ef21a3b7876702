//! Fixed-width account addresses.

use vstd::prelude::*;

verus! {

/// Width of an account address in bytes.
pub const ADDRESS_LENGTH: usize = 32;

/// A fixed-width account identifier, externally supplied and immutable.
#[derive(Debug)]
pub struct Address {
    pub bytes: Vec<u8>,
}

impl Address {
    /// The address as a mathematical byte sequence.
    pub open spec fn model(self) -> Seq<u8> {
        self.bytes@
    }

    /// An address holds exactly `ADDRESS_LENGTH` bytes.
    pub open spec fn wf(self) -> bool {
        self.bytes@.len() == ADDRESS_LENGTH
    }

    /// Builds an address from raw bytes; rejects any slice that is not
    /// exactly `ADDRESS_LENGTH` bytes long.
    pub fn from_bytes(bytes: Vec<u8>) -> (r: Option<Address>)
        ensures
            match r {
                Some(a) => a.wf() && a.model() == bytes@,
                None => bytes@.len() != ADDRESS_LENGTH,
            },
    {
        if bytes.len() == ADDRESS_LENGTH {
            Some(Address { bytes })
        } else {
            None
        }
    }

    /// The raw bytes of the address.
    pub fn bytes(&self) -> (r: &Vec<u8>)
        ensures
            r@ == self.model(),
    {
        &self.bytes
    }

    /// A copy with the same model.
    pub fn duplicate(&self) -> (r: Address)
        ensures
            r.model() == self.model(),
            r.wf() == self.wf(),
    {
        Address { bytes: vstd::slice::slice_to_vec(self.bytes.as_slice()) }
    }

    /// Byte-for-byte equality of two addresses.
    pub fn matches(&self, other: &Address) -> (r: bool)
        ensures
            r == (self.model() == other.model()),
    {
        crate::address::bytes_eq(&self.bytes, &other.bytes)
    }
}

/// Element-wise equality of two byte vectors.
pub fn bytes_eq(a: &Vec<u8>, b: &Vec<u8>) -> (r: bool)
    ensures
        r == (a@ == b@),
{
    if a.len() != b.len() {
        assert(a@ != b@) by {
            assert(a@.len() != b@.len());
        }
        return false;
    }
    let n = a.len();
    let mut i: usize = 0;
    while i < n
        invariant
            n == a@.len() == b@.len(),
            0 <= i <= n,
            forall|j: int| 0 <= j < i ==> a@[j] == b@[j],
        decreases n - i,
    {
        if a[i] != b[i] {
            assert(a@ != b@);
            return false;
        }
        i += 1;
    }
    assert(a@ =~= b@);
    true
}

} // verus!
