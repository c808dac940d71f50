//! Account addresses and their deterministic derivation from seeds.

use vstd::prelude::*;

verus! {

/// Number of bytes of an address.
pub const ADDRESS_BYTES: usize = 32;

/// A 32-byte account address.
#[derive(Clone, Copy, Debug, PartialEq, Eq)]
pub struct Address {
    pub bytes: [u8; 32],
}

impl View for Address {
    type V = Seq<u8>;

    open spec fn view(&self) -> Seq<u8> {
        self.bytes@
    }
}

impl Address {
    pub fn new(bytes: [u8; 32]) -> (r: Address)
        ensures
            r.bytes == bytes,
    {
        Address { bytes }
    }

    /// The address that the bytes hold, where they are 32.
    pub fn from_slice(bytes: &[u8]) -> (r: Option<Address>)
        ensures
            match r {
                Some(address) => bytes@.len() == ADDRESS_BYTES && address@ == bytes@,
                None => bytes@.len() != ADDRESS_BYTES,
            },
    {
        if bytes.len() != ADDRESS_BYTES {
            return None;
        }
        let mut out: [u8; 32] = [0u8; 32];
        let mut i: usize = 0;
        while i < ADDRESS_BYTES
            invariant
                i <= ADDRESS_BYTES == bytes@.len(),
                forall|k: int| 0 <= k < i ==> out@[k] == bytes@[k],
            decreases ADDRESS_BYTES - i,
        {
            out[i] = bytes[i];
            i += 1;
        }
        let address = Address { bytes: out };
        Some(address)
    }

    /// Whether two addresses hold the same bytes.
    pub fn same(&self, other: &Address) -> (r: bool)
        ensures
            r == (*self == *other),
            r == (self@ == other@),
    {
        let mut i: usize = 0;
        while i < 32
            invariant
                i <= 32,
                forall|k: int| 0 <= k < i ==> self.bytes@[k] == other.bytes@[k],
            decreases 32 - i,
        {
            if self.bytes[i] != other.bytes[i] {
                return false;
            }
            i += 1;
        }
        proof {
            assert(self@ =~= other@);
            same_bytes_same_address(*self, *other);
        }
        true
    }

    /// The bytes of the address.
    pub fn to_vec(&self) -> (r: Vec<u8>)
        ensures
            r@ == self@,
    {
        let mut out: Vec<u8> = Vec::new();
        let mut i: usize = 0;
        while i < 32
            invariant
                i <= 32,
                out@ == self@.subrange(0, i as int),
            decreases 32 - i,
        {
            out.push(self.bytes[i]);
            i += 1;
        }
        out
    }
}

/// Two addresses of the same bytes are the same address.
pub proof fn same_bytes_same_address(a: Address, b: Address)
    requires
        a@ == b@,
    ensures
        a == b,
{
    assert(a.bytes =~= b.bytes);
}

} // verus!
