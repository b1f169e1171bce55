use vstd::prelude::*;

use crate::address::{Address, DERIVATION_BUMP};
use crate::farm::Farm;
use crate::sums::{lemma_sum_where_element, lemma_sum_where_push, sum_where};
use crate::user_stake::UserStake;

verus! {

/// The farm registry and the stake ledger: every farm record, and every
/// per-(farm, investor) stake record, of the system.
///
/// `wf` carries the two central invariants: each farm has
/// `minted_shares <= total_shares`, and the stakes of each farm sum exactly
/// to its `minted_shares`.
pub struct Registry {
    /// All farm records, unique by owner (so unique by derived address).
    pub farms: Vec<Farm>,
    /// All stake records, unique by (farm, investor).
    pub stakes: Vec<UserStake>,
}

impl Registry {
    /// The shares of one farm accounted for in the stake ledger: the sum of
    /// `quantity` over the stakes whose back-reference is `farm`.
    pub open spec fn stake_sum(self, farm: Address) -> int {
        sum_where(self.stakes@, |s: UserStake| s.farm == farm, |s: UserStake| s.quantity as int)
    }

    /// Whether a farm record exists at address `a`.
    pub open spec fn has_farm(self, a: Address) -> bool {
        exists|i: int| 0 <= i < self.farms@.len() && self.farms@[i].record_address() == a
    }

    /// The index of the farm record at `a` (meaningful when `has_farm(a)`).
    pub open spec fn farm_index(self, a: Address) -> int {
        choose|i: int| 0 <= i < self.farms@.len() && self.farms@[i].record_address() == a
    }

    /// The farm record at `a` (meaningful when `has_farm(a)`).
    pub open spec fn farm_at(self, a: Address) -> Farm {
        self.farms@[self.farm_index(a)]
    }

    /// Whether a stake record exists for the (farm, investor) pair.
    pub open spec fn has_stake(self, farm: Address, investor: u64) -> bool {
        exists|k: int|
            0 <= k < self.stakes@.len() && self.stakes@[k].farm == farm && self.stakes@[k].owner
                == investor
    }

    /// The index of the stake record of the pair (meaningful when
    /// `has_stake(farm, investor)`).
    pub open spec fn stake_index(self, farm: Address, investor: u64) -> int {
        choose|k: int|
            0 <= k < self.stakes@.len() && self.stakes@[k].farm == farm && self.stakes@[k].owner
                == investor
    }

    /// The stake record of the pair (meaningful when `has_stake`).
    pub open spec fn stake_at(self, farm: Address, investor: u64) -> UserStake {
        self.stakes@[self.stake_index(farm, investor)]
    }

    /// The registry's invariants: well-formed unique farms, well-formed
    /// stakes with unique keys pointing at existing farms, and each farm's
    /// stakes summing to its minted shares.
    pub open spec fn wf(self) -> bool {
        &&& forall|i: int| 0 <= i < self.farms@.len() ==> (#[trigger] self.farms@[i]).wf()
        &&& forall|i: int, j: int|
            0 <= i < j < self.farms@.len() ==> self.farms@[i].owner != self.farms@[j].owner
        &&& forall|k: int|
            0 <= k < self.stakes@.len() ==> (#[trigger] self.stakes@[k]).wf() && self.has_farm(
                self.stakes@[k].farm,
            )
        &&& forall|k: int, l: int|
            0 <= k < l < self.stakes@.len() ==> !(self.stakes@[k].farm == self.stakes@[l].farm
                && self.stakes@[k].owner == self.stakes@[l].owner)
        &&& forall|i: int|
            0 <= i < self.farms@.len() ==> self.stake_sum(
                (#[trigger] self.farms@[i]).record_address(),
            ) == self.farms@[i].minted_shares
    }

    /// An empty registry.
    pub fn new() -> (r: Registry)
        ensures
            r.wf(),
            r.farms@.len() == 0,
            r.stakes@.len() == 0,
    {
        Registry { farms: Vec::new(), stakes: Vec::new() }
    }

    /// A farm found at an index is the farm the address observations speak
    /// of.
    pub proof fn lemma_farm_index_is(self, a: Address, i: int)
        requires
            self.wf(),
            0 <= i < self.farms@.len(),
            self.farms@[i].record_address() == a,
        ensures
            self.has_farm(a),
            self.farm_index(a) == i,
            self.farm_at(a) == self.farms@[i],
    {
        assert(self.has_farm(a));
        let i2 = self.farm_index(a);
        assert(0 <= i2 < self.farms@.len() && self.farms@[i2].record_address() == a);
        assert(i2 == i);
    }

    /// A stake found at an index is the stake the key observations speak of.
    pub proof fn lemma_stake_index_is(self, farm: Address, investor: u64, k: int)
        requires
            self.wf(),
            0 <= k < self.stakes@.len(),
            self.stakes@[k].farm == farm,
            self.stakes@[k].owner == investor,
        ensures
            self.has_stake(farm, investor),
            self.stake_index(farm, investor) == k,
            self.stake_at(farm, investor) == self.stakes@[k],
    {
        assert(self.has_stake(farm, investor));
        let k2 = self.stake_index(farm, investor);
        assert(0 <= k2 < self.stakes@.len() && self.stakes@[k2].farm == farm
            && self.stakes@[k2].owner == investor);
        assert(k2 == k);
    }

    /// The supply-cap law: in a well-formed registry every farm has issued
    /// at most its supply cap.
    pub proof fn lemma_minted_within_cap(self, i: int)
        requires
            self.wf(),
            0 <= i < self.farms@.len(),
        ensures
            self.farms@[i].minted_shares <= self.farms@[i].total_shares,
    {
    }

    /// The accounting law: in a well-formed registry the stakes of every
    /// farm sum exactly to its minted shares.
    pub proof fn lemma_stakes_account_for_minted(self, i: int)
        requires
            self.wf(),
            0 <= i < self.farms@.len(),
        ensures
            self.stake_sum(self.farms@[i].record_address()) == self.farms@[i].minted_shares,
    {
    }

    /// One investor's stake never exceeds what its farm has minted.
    pub proof fn lemma_stake_quantity_bounded(self, k: int)
        requires
            self.wf(),
            0 <= k < self.stakes@.len(),
        ensures
            self.has_farm(self.stakes@[k].farm),
            self.stakes@[k].quantity <= self.farm_at(self.stakes@[k].farm).minted_shares,
    {
        let a = self.stakes@[k].farm;
        let i = self.farm_index(a);
        assert(0 <= i < self.farms@.len() && self.farms@[i].record_address() == a);
        lemma_sum_where_element(
            self.stakes@,
            |s: UserStake| s.farm == a,
            |s: UserStake| s.quantity as int,
            k,
        );
        assert(self.stake_sum(a) == self.farms@[i].minted_shares);
    }

    /// The first index holding the farm record at `a`, if any.
    pub fn find_farm(&self, a: Address) -> (r: Option<usize>)
        ensures
            match r {
                Some(i) => i < self.farms@.len() && self.farms@[i as int].record_address() == a,
                None => !self.has_farm(a),
            },
    {
        let mut k: usize = 0;
        while k < self.farms.len()
            invariant
                k <= self.farms@.len(),
                forall|i: int| 0 <= i < k ==> self.farms@[i].record_address() != a,
            decreases self.farms@.len() - k,
        {
            if (Address::FarmRecord { owner: self.farms[k].owner }) == a {
                return Some(k);
            }
            k += 1;
        }
        None
    }

    /// The first index holding the stake record of the pair, if any.
    pub fn find_stake(&self, farm: Address, investor: u64) -> (r: Option<usize>)
        ensures
            match r {
                Some(k) => k < self.stakes@.len() && self.stakes@[k as int].farm == farm
                    && self.stakes@[k as int].owner == investor,
                None => !self.has_stake(farm, investor),
            },
    {
        let mut k: usize = 0;
        while k < self.stakes.len()
            invariant
                k <= self.stakes@.len(),
                forall|i: int|
                    0 <= i < k ==> !(self.stakes@[i].farm == farm && self.stakes@[i].owner
                        == investor),
            decreases self.stakes@.len() - k,
        {
            if self.stakes[k].farm == farm && self.stakes[k].owner == investor {
                return Some(k);
            }
            k += 1;
        }
        None
    }

    /// Returns the index of the stake record for (farm, investor), creating
    /// an empty one first where none exists.
    ///
    /// Safe to call repeatedly: a second call returns the same record
    /// instead of creating a duplicate. Creation adds a zero quantity, so no
    /// farm's stake sum changes.
    pub fn get_or_create_stake(&mut self, farm: Address, investor: u64) -> (k: usize)
        requires
            old(self).wf(),
            old(self).has_farm(farm),
        ensures
            final(self).wf(),
            final(self).farms@ == old(self).farms@,
            k < final(self).stakes@.len(),
            final(self).stakes@[k as int].farm == farm,
            final(self).stakes@[k as int].owner == investor,
            forall|a: Address| final(self).stake_sum(a) == old(self).stake_sum(a),
            if old(self).has_stake(farm, investor) {
                final(self).stakes@ == old(self).stakes@ && k == old(self).stake_index(
                    farm,
                    investor,
                )
            } else {
                final(self).stakes@ == old(self).stakes@.push(
                    UserStake {
                        is_initialized: true,
                        owner: investor,
                        farm,
                        quantity: 0,
                        debt_claimed: 0,
                        bump: DERIVATION_BUMP,
                    },
                )
            },
    {
        match self.find_stake(farm, investor) {
            Some(k) => {
                proof {
                    self.lemma_stake_index_is(farm, investor, k as int);
                }
                k
            },
            None => {
                let stake = UserStake {
                    is_initialized: true,
                    owner: investor,
                    farm,
                    quantity: 0,
                    debt_claimed: 0,
                    bump: DERIVATION_BUMP,
                };
                let k = self.stakes.len();
                self.stakes.push(stake);
                proof {
                    let i = old(self).farm_index(farm);
                    assert(0 <= i < old(self).farms@.len() && old(self).farms@[
                        i].record_address() == farm);
                    assert(self.stakes@[k as int].wf());
                    assert forall|a: Address|
                        #[trigger] self.stake_sum(a) == old(self).stake_sum(a) by {
                        lemma_sum_where_push(
                            old(self).stakes@,
                            |s: UserStake| s.farm == a,
                            |s: UserStake| s.quantity as int,
                            stake,
                        );
                    }
                    assert forall|i2: int| 0 <= i2 < self.farms@.len() implies self.stake_sum(
                        (#[trigger] self.farms@[i2]).record_address(),
                    ) == self.farms@[i2].minted_shares by {
                        assert(old(self).stake_sum(self.farms@[i2].record_address()) == self.farms@[
                            i2].minted_shares);
                    }
                }
                k
            },
        }
    }
}

} // verus!
