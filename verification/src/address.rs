use vstd::prelude::*;
use vstd::std_specs::cmp::PartialEqSpecImpl;

verus! {

/// Number of bytes in an [`Address`].
pub const ADDRESS_BYTES: usize = 32;

/// The identifier of an account on the ledger: 32 opaque bytes.
#[derive(Clone, Copy, Debug)]
pub struct Address {
    pub bytes: [u8; 32],
}

impl View for Address {
    type V = Seq<u8>;

    open spec fn view(&self) -> Seq<u8> {
        self.bytes@
    }
}

impl Address {
    /// The address made of the given bytes.
    pub fn new(bytes: [u8; 32]) -> (address: Address)
        ensures
            address.bytes == bytes,
            address@ == bytes@,
    {
        Address { bytes }
    }

    /// The bytes of this address.
    pub fn to_bytes(&self) -> (bytes: [u8; 32])
        ensures
            bytes == self.bytes,
            bytes@ == self@,
    {
        self.bytes
    }
}

impl PartialEq for Address {
    /// Two addresses are equal where all their bytes are.
    fn eq(&self, other: &Address) -> (r: bool) {
        let mut i: usize = 0;
        while i < ADDRESS_BYTES
            invariant
                i <= ADDRESS_BYTES,
                forall|j: int| 0 <= j < i ==> self.bytes@[j] == other.bytes@[j],
            decreases ADDRESS_BYTES - i,
        {
            if self.bytes[i] != other.bytes[i] {
                return false;
            }
            i += 1;
        }
        assert(self.bytes@ =~= other.bytes@);
        true
    }
}

impl Eq for Address {

}

impl PartialEqSpecImpl for Address {
    open spec fn obeys_eq_spec() -> bool {
        true
    }

    open spec fn eq_spec(&self, other: &Address) -> bool {
        self@ == other@
    }
}

/// Addresses with the same bytes are the same address.
pub proof fn lemma_address_determined_by_bytes(a: Address, b: Address)
    ensures
        a@ == b@ <==> a == b,
{
    if a@ == b@ {
        assert(a.bytes =~= b.bytes);
    }
}

} // verus!
