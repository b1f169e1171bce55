use vstd::prelude::*;

use crate::address::Address;

verus! {

/// One investor's cumulative holding in one farm.
///
/// There is at most one record per (farm, investor) pair; a purchase creates
/// the record on first use and only ever increases `quantity` afterwards.
pub struct UserStake {
    /// Whether this record has been populated.
    pub is_initialized: bool,
    /// The investor's key.
    pub owner: u64,
    /// The farm record this stake belongs to (non-owning back-reference).
    pub farm: Address,
    /// Cumulative shares held by this investor in this farm.
    pub quantity: u64,
    /// Revenue-accounting offset reserved for future distribution logic;
    /// reset to zero on every purchase.
    pub debt_claimed: u128,
    /// Disambiguation byte of the record's derived address.
    pub bump: u8,
}

impl UserStake {
    /// Internal consistency of one stake record: populated, and pointing at
    /// a farm record address.
    pub open spec fn wf(self) -> bool {
        &&& self.is_initialized
        &&& self.farm is FarmRecord
    }
}

} // verus!
