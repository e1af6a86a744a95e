use vstd::prelude::*;

verus! {

/// A 32-byte account address, as the runtime hands it to a program.
#[derive(Clone, Copy, Debug)]
pub struct Pubkey {
    pub bytes: [u8; 32],
}

/// Whether every byte of `k` is zero (the value of a freshly created field).
pub open spec fn is_zero_key(k: Pubkey) -> bool {
    forall|i: int| 0 <= i < 32 ==> #[trigger] k.bytes@[i] == 0u8
}

impl Pubkey {
    /// The address with the given bytes.
    pub fn new(bytes: [u8; 32]) -> (r: Pubkey)
        ensures
            r.bytes == bytes,
    {
        Pubkey { bytes }
    }

    /// The all-zero address, the value of an address field that was never set.
    pub fn zeroed() -> (r: Pubkey)
        ensures
            is_zero_key(r),
    {
        let bytes: [u8; 32] = [0u8; 32];
        Pubkey { bytes }
    }
}

impl Pubkey {
    /// Whether every byte is zero.
    pub fn is_zero(&self) -> (r: bool)
        ensures
            r == is_zero_key(*self),
    {
        let mut i: usize = 0;
        while i < 32
            invariant
                0 <= i <= 32,
                forall|j: int| 0 <= j < i ==> self.bytes@[j] == 0u8,
            decreases 32 - i,
        {
            if self.bytes[i] != 0 {
                return false;
            }
            i = i + 1;
        }
        true
    }
}

impl PartialEq for Pubkey {
    fn eq(&self, other: &Pubkey) -> (r: bool) {
        let mut i: usize = 0;
        while i < 32
            invariant
                0 <= i <= 32,
                forall|j: int| 0 <= j < i ==> self.bytes@[j] == other.bytes@[j],
            decreases 32 - i,
        {
            if self.bytes[i] != other.bytes[i] {
                return false;
            }
            i = i + 1;
        }
        proof {
            assert(self.bytes@ =~= other.bytes@);
            vstd::array::axiom_array_ext_equal(self.bytes, other.bytes);
        }
        true
    }
}

impl Eq for Pubkey {}

impl vstd::std_specs::cmp::PartialEqSpecImpl for Pubkey {
    open spec fn obeys_eq_spec() -> bool {
        true
    }

    open spec fn eq_spec(&self, other: &Pubkey) -> bool {
        *self == *other
    }
}

} // verus!
