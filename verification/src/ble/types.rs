use vstd::prelude::*;

verus! {

/// Whether two byte arrays hold the same bytes.
pub fn same_bytes(a: &[u8], b: &[u8]) -> (same: bool)
    ensures
        same == (a@ == b@),
{
    if a.len() != b.len() {
        return false;
    }
    let mut i: usize = 0;
    while i < a.len()
        invariant
            a@.len() == b@.len(),
            i <= a@.len(),
            forall|j: int| 0 <= j < i ==> a@[j] == b@[j],
        decreases a@.len() - i,
    {
        if a[i] != b[i] {
            return false;
        }
        i = i + 1;
    }
    assert(a@ =~= b@);
    true
}

/// A Bluetooth device address.
#[derive(Clone, Copy, Debug)]
pub struct Address {
    pub flags: u8,
    pub bytes: [u8; 6],
}

/// Whether `address` is the address of zeros, which marks an empty bond
/// slot: 00:00:00:00:00:00 is technically valid but known to cause problems
/// with most operating systems, so it is taken as no address.
pub open spec fn is_no_address(address: Address) -> bool {
    address.flags == 0 && address.bytes@ == Seq::new(6, |i: int| 0u8)
}

impl Address {
    /// The address of zeros.
    pub fn none() -> (address: Address)
        ensures
            is_no_address(address),
    {
        let address = Address { flags: 0, bytes: [0u8; 6] };
        assert(address.bytes@ =~= Seq::new(6, |i: int| 0u8));
        address
    }

    /// Whether this is the address of zeros.
    pub fn is_none(&self) -> (none: bool)
        ensures
            none == is_no_address(*self),
    {
        let zeros: [u8; 6] = [0u8; 6];
        let none = self.flags == 0 && same_bytes(&self.bytes, &zeros);
        proof {
            assert(zeros@ =~= Seq::new(6, |i: int| 0u8));
        }
        none
    }

    /// Whether the two addresses are the same.
    pub fn same(&self, other: &Address) -> (same: bool)
        ensures
            same == (*self == *other),
    {
        let same = self.flags == other.flags && same_bytes(&self.bytes, &other.bytes);
        proof {
            if self.flags == other.flags && self.bytes@ == other.bytes@ {
                assert(self.bytes == other.bytes);
            }
        }
        same
    }
}

/// Identifies the keys of a bonded central.
#[derive(Clone, Copy, Debug)]
pub struct MasterId {
    pub ediv: u16,
    pub rand: [u8; 8],
}

impl MasterId {
    /// Whether the two ids are the same.
    pub fn same(&self, other: &MasterId) -> (same: bool)
        ensures
            same == (*self == *other),
    {
        let same = self.ediv == other.ediv && same_bytes(&self.rand, &other.rand);
        proof {
            if self.ediv == other.ediv && self.rand@ == other.rand@ {
                assert(self.rand == other.rand);
            }
        }
        same
    }
}

/// A long-term encryption key.
#[derive(Clone, Copy, Debug)]
pub struct EncryptionInfo {
    pub ltk: [u8; 16],
    pub flags: u8,
}

/// An identity resolution key.
#[derive(Clone, Copy, Debug)]
pub struct IdentityResolutionKey {
    pub irk: [u8; 16],
}

/// The identity of a peer.
#[derive(Clone, Copy, Debug)]
pub struct IdentityKey {
    pub irk: IdentityResolutionKey,
    pub addr: Address,
}

} // verus!
