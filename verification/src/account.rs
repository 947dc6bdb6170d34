//! Account identifiers.

use vstd::prelude::*;
use crate::keyed::MapKey;

verus! {

/// The fixed-width identifier of an account. The ledger never looks inside
/// it: it only tells one account from another.
#[derive(Clone, Copy, Debug, PartialEq, Eq)]
pub struct AccountId {
    pub bytes: [u8; 32],
}

impl AccountId {
    /// The account with the given identifier bytes.
    pub fn new(bytes: [u8; 32]) -> (r: Self)
        ensures
            r.bytes == bytes,
    {
        AccountId { bytes }
    }
}

impl MapKey for AccountId {
    fn same_key(&self, other: &Self) -> (r: bool) {
        let mut i: usize = 0;
        while i < 32
            invariant
                i <= 32,
                forall|j: int| 0 <= j < i ==> self.bytes[j] == other.bytes[j],
            decreases 32 - i,
        {
            if self.bytes[i] != other.bytes[i] {
                return false;
            }
            i += 1;
        }
        assert(self.bytes =~= other.bytes);
        true
    }
}

} // verus!
