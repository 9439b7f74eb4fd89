//! The address of a token mint.

use vstd::prelude::*;
use vstd::std_specs::cmp::PartialEqSpecImpl;

verus! {

/// The 32-byte address that names a token mint.
///
/// Two keys are the same mint exactly when all 32 bytes agree.
#[derive(Debug, Clone, Copy)]
pub struct MintKey {
    pub bytes: [u8; 32],
}

impl View for MintKey {
    type V = Seq<u8>;

    open spec fn view(&self) -> Seq<u8> {
        self.bytes@
    }
}

impl MintKey {
    /// Wraps 32 raw address bytes.
    pub fn new(bytes: [u8; 32]) -> (key: MintKey)
        ensures
            key.bytes == bytes,
            key@ == bytes@,
    {
        MintKey { bytes }
    }

    /// Equal views mean equal keys.
    pub proof fn lemma_view_injective(self, other: MintKey)
        ensures
            (self@ == other@) <==> (self == other),
    {
        if self@ == other@ {
            assert(self.bytes =~= other.bytes);
        }
    }
}

impl PartialEq for MintKey {
    fn eq(&self, other: &MintKey) -> (r: bool) {
        let mut i: usize = 0;
        while i < 32
            invariant
                i <= 32,
                forall|j: int| 0 <= j < i ==> self.bytes[j] == other.bytes[j],
            decreases 32 - i,
        {
            if self.bytes[i] != other.bytes[i] {
                return false;
            }
            i += 1;
        }
        proof {
            assert(self.bytes =~= other.bytes);
        }
        true
    }
}

impl PartialEqSpecImpl for MintKey {
    open spec fn obeys_eq_spec() -> bool {
        true
    }

    open spec fn eq_spec(&self, other: &MintKey) -> bool {
        *self == *other
    }
}

impl Eq for MintKey {}

} // verus!
