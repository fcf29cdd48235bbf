//! Account addresses: 32 bytes, compared byte by byte.

use vstd::prelude::*;

verus! {

/// The address of an account, as its 32 bytes.
#[derive(Clone, Copy, Debug, Eq)]
pub struct Address {
    pub bytes: [u8; 32],
}

impl View for Address {
    type V = Seq<u8>;

    open spec fn view(&self) -> Seq<u8> {
        self.bytes@
    }
}

impl PartialEq for Address {
    fn eq(&self, other: &Address) -> (r: bool) {
        let mut i: usize = 0;
        while i < 32
            invariant
                i <= 32,
                forall|j: int| 0 <= j < i ==> self.bytes[j] == other.bytes[j],
            decreases 32 - i,
        {
            if self.bytes[i] != other.bytes[i] {
                return false;
            }
            i += 1;
        }
        proof {
            assert(self.bytes =~= other.bytes);
        }
        true
    }
}

impl vstd::std_specs::cmp::PartialEqSpecImpl for Address {
    open spec fn obeys_eq_spec() -> bool {
        true
    }

    open spec fn eq_spec(&self, other: &Address) -> bool {
        *self == *other
    }
}

impl Address {
    /// The address as a vector of its 32 bytes, in order.
    pub fn to_vec(&self) -> (r: Vec<u8>)
        ensures
            r@ == self@,
    {
        let mut out: Vec<u8> = Vec::new();
        let mut i: usize = 0;
        while i < 32
            invariant
                i <= 32,
                out@ == self@.subrange(0, i as int),
            decreases 32 - i,
        {
            out.push(self.bytes[i]);
            i += 1;
            assert(out@ =~= self@.subrange(0, i as int));
        }
        assert(self@.subrange(0, 32) =~= self@);
        out
    }
}

/// Two addresses with the same bytes are the same address.
pub proof fn lemma_address_by_bytes(a: Address, b: Address)
    requires
        a@ == b@,
    ensures
        a == b,
{
    assert forall|i: int| 0 <= i < 32 implies a.bytes[i] == b.bytes[i] by {
        assert(a@[i] == b@[i]);
    }
    assert(a.bytes =~= b.bytes);
}

} // verus!
