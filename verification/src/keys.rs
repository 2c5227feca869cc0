//! Account addresses.

use vstd::prelude::*;

verus! {

/// The 32 bytes that name an account or a program.
#[derive(Clone, Copy, Debug, Eq)]
pub struct Pubkey {
    pub bytes: [u8; 32],
}

impl PartialEq for Pubkey {
    fn eq(&self, other: &Self) -> (same: bool) {
        let mut i: usize = 0;
        while i < 32
            invariant
                i <= 32,
                forall|j: int| 0 <= j < i ==> self.bytes[j] == other.bytes[j],
            decreases 32 - i,
        {
            if self.bytes[i] != other.bytes[i] {
                return false;
            }
            i = i + 1;
        }
        assert(self.bytes@ =~= other.bytes@);
        assert(self.bytes =~= other.bytes);
        true
    }
}

impl vstd::std_specs::cmp::PartialEqSpecImpl for Pubkey {
    open spec fn obeys_eq_spec() -> bool {
        true
    }

    open spec fn eq_spec(&self, other: &Self) -> bool {
        *self == *other
    }
}

impl Default for Pubkey {
    /// The address of 32 zero bytes, which stands for "no account".
    fn default() -> (key: Self)
        ensures
            key.is_zero(),
            forall|other: Pubkey| #[trigger] other.is_zero() ==> other == key,
    {
        let key = Pubkey { bytes: [0u8; 32] };
        assert(key.bytes@ =~= Seq::new(32, |i: int| 0u8));
        proof {
            assert forall|other: Pubkey| #[trigger] other.is_zero() implies other == key by {
                assert(other.bytes =~= key.bytes);
            }
        }
        key
    }
}

impl Pubkey {
    /// Every byte of the address is zero.
    pub open spec fn is_zero(self) -> bool {
        self.bytes@ == Seq::new(32, |i: int| 0u8)
    }
}

} // verus!
