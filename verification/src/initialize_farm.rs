use vstd::prelude::*;

use crate::address::{Address, DERIVATION_BUMP};
use crate::errors::ErrorCode;
use crate::farm::Farm;
use crate::ledger::{AssetLedger, TokenAccount, TokenMint};
use crate::registry::Registry;
use crate::system::{consistent, farm_backed, lemma_backed_extends};

verus! {

/// The accounts a farm-creation call names explicitly: the owner signing the
/// call and the external asset accepted as payment. Everything else the farm
/// needs — its record, its signing identity, its share mint, and its two
/// vaults — lives at addresses derived from the owner's key.
#[derive(Clone, Copy, Debug, PartialEq, Eq, Structural)]
pub struct InitializeFarm {
    /// The controlling party's key.
    pub owner: u64,
    /// The external asset investors pay with.
    pub payment_mint: Address,
}

/// What a created farm record holds: the supplied configuration, an empty
/// name, zeroed counters, and every derived reference in place.
pub open spec fn created_farm_props(
    f: Farm,
    accounts: InitializeFarm,
    total_shares: u64,
    price_per_share: u64,
) -> bool {
    &&& f.owner == accounts.owner
    &&& f.name@ == Seq::<char>::empty()
    &&& f.payment_mint == accounts.payment_mint
    &&& f.total_shares == total_shares
    &&& f.minted_shares == 0
    &&& f.price_per_share == price_per_share
    &&& f.account_revenue_per_share == 0
    &&& f.bump == DERIVATION_BUMP
    &&& f.signer_bump == DERIVATION_BUMP
    &&& f.farm_token_mint == (Address::ShareMint { owner: accounts.owner })
    &&& f.farm_payment_vault == (Address::PaymentVault { owner: accounts.owner })
    &&& f.farm_revenue_vault == (Address::RevenueVault { owner: accounts.owner })
}

/// Why farm creation would be rejected, or `None` where it succeeds —
/// including the idempotent case of an owner whose farm already exists; the
/// checks run in this order.
pub open spec fn initialize_error(
    r: Registry,
    l: AssetLedger,
    accounts: InitializeFarm,
    total_shares: u64,
) -> Option<ErrorCode> {
    if total_shares == 0 {
        Some(ErrorCode::InvalidConfiguration)
    } else if r.has_farm(Address::FarmRecord { owner: accounts.owner }) {
        None
    } else if !accounts.payment_mint.is_external_key() {
        Some(ErrorCode::InvalidConfiguration)
    } else if !l.has_mint(accounts.payment_mint) {
        Some(ErrorCode::AccountNotFound)
    } else if l.has_mint(Address::ShareMint { owner: accounts.owner }) {
        Some(ErrorCode::AccountInUse)
    } else if l.has_account(Address::PaymentVault { owner: accounts.owner }) {
        Some(ErrorCode::AccountInUse)
    } else if l.has_account(Address::RevenueVault { owner: accounts.owner }) {
        Some(ErrorCode::AccountInUse)
    } else {
        None
    }
}

/// Everything farm creation promises, relating the states before
/// (`r0`, `l0`) and after (`r1`, `l1`) to the result: invariants and
/// consistency hold afterwards; on success either the farm already existed
/// and nothing changed, or exactly one record, one mint, and two empty
/// vaults were created; on error nothing changed and `initialize_error`
/// names the error.
pub open spec fn initialize_post(
    r0: Registry,
    l0: AssetLedger,
    r1: Registry,
    l1: AssetLedger,
    accounts: InitializeFarm,
    total_shares: u64,
    price_per_share: u64,
    res: Result<(), ErrorCode>,
) -> bool {
    &&& r1.wf()
    &&& l1.wf()
    &&& consistent(r1, l1)
    &&& match res {
            Ok(()) => {
                &&& initialize_error(r0, l0, accounts, total_shares) is None
                &&& r1.has_farm(Address::FarmRecord { owner: accounts.owner })
                &&& if r0.has_farm(Address::FarmRecord { owner: accounts.owner }) {
                    &&& r1 == r0
                    &&& l1 == l0
                } else {
                    &&& r1.farms@.len() == r0.farms@.len() + 1
                    &&& r1.farms@ == r0.farms@.push(r1.farms@.last())
                    &&& created_farm_props(
                        r1.farms@.last(),
                        accounts,
                        total_shares,
                        price_per_share,
                    )
                    &&& r1.stakes@ == r0.stakes@
                    &&& l1.mints@ == l0.mints@.push(
                        (TokenMint {
                            addr: Address::ShareMint { owner: accounts.owner },
                            authority: Address::FarmSigner { owner: accounts.owner },
                        }),
                    )
                    &&& l1.accounts@ == l0.accounts@.push(
                        (TokenAccount {
                            addr: Address::PaymentVault { owner: accounts.owner },
                            mint: accounts.payment_mint,
                            authority: Address::FarmSigner { owner: accounts.owner },
                            balance: 0,
                        }),
                    ).push(
                        (TokenAccount {
                            addr: Address::RevenueVault { owner: accounts.owner },
                            mint: Address::ShareMint { owner: accounts.owner },
                            authority: Address::FarmSigner { owner: accounts.owner },
                            balance: 0,
                        }),
                    )
                    &&& forall|a: Address| l1.balance_of(a) == l0.balance_of(a)
                }
            },
            Err(e) => {
                &&& initialize_error(r0, l0, accounts, total_shares) == Some(e)
                &&& r1 == r0
                &&& l1 == l0
            },
        }
}

/// Creates a farm: allocates its record with the supplied supply cap and
/// price, and creates its share mint and its two custody vaults in the asset
/// ledger, all controlled by the farm's derived signing identity.
///
/// Called again for the same owner it is an idempotent no-op: it succeeds
/// and changes nothing, and never creates a second record. A zero supply cap
/// is rejected with `InvalidConfiguration`; on any error nothing changes.
pub fn initialize_farm(
    registry: &mut Registry,
    ledger: &mut AssetLedger,
    accounts: InitializeFarm,
    total_shares: u64,
    price_per_share: u64,
) -> (r: Result<(), ErrorCode>)
    requires
        old(registry).wf(),
        old(ledger).wf(),
        consistent(*old(registry), *old(ledger)),
    ensures
        initialize_post(
            *old(registry),
            *old(ledger),
            *final(registry),
            *final(ledger),
            accounts,
            total_shares,
            price_per_share,
            r,
        ),
{
    if total_shares == 0 {
        return Err(ErrorCode::InvalidConfiguration);
    }
    let farm_addr = Address::FarmRecord { owner: accounts.owner };
    match registry.find_farm(farm_addr) {
        Some(i) => {
            proof {
                registry.lemma_farm_index_is(farm_addr, i as int);
            }
            return Ok(());
        },
        None => {},
    }
    if !matches!(accounts.payment_mint, Address::Key { .. }) {
        return Err(ErrorCode::InvalidConfiguration);
    }
    let share_mint = Address::ShareMint { owner: accounts.owner };
    let signer = Address::FarmSigner { owner: accounts.owner };
    let payment_vault = Address::PaymentVault { owner: accounts.owner };
    let revenue_vault = Address::RevenueVault { owner: accounts.owner };
    let pm_found = ledger.find_mint(accounts.payment_mint);
    if pm_found.is_none() {
        return Err(ErrorCode::AccountNotFound);
    }
    if ledger.find_mint(share_mint).is_some() {
        return Err(ErrorCode::AccountInUse);
    }
    if ledger.find_account(payment_vault).is_some() {
        return Err(ErrorCode::AccountInUse);
    }
    if ledger.find_account(revenue_vault).is_some() {
        return Err(ErrorCode::AccountInUse);
    }
    let ghost l0 = *ledger;
    let r1 = ledger.create_mint(share_mint, signer);
    proof {
        assert(r1 is Ok);
    }
    let ghost l1 = *ledger;
    let r2 = ledger.create_account(payment_vault, accounts.payment_mint, signer);
    proof {
        let j = pm_found->Some_0 as int;
        assert(l1.mints@[j] == l0.mints@[j]);
        assert(l1.has_mint(accounts.payment_mint));
        assert(r2 is Ok);
    }
    let ghost l2 = *ledger;
    let r3 = ledger.create_account(revenue_vault, share_mint, signer);
    proof {
        assert(l2.mints@[l0.mints@.len() as int].addr == share_mint);
        assert(l2.has_mint(share_mint));
        assert forall|j: int|
            0 <= j < l2.accounts@.len() implies l2.accounts@[j].addr != revenue_vault by {
            if j < l0.accounts@.len() {
                assert(!l0.has_account(revenue_vault));
            }
        }
        assert(!l2.has_account(revenue_vault));
        assert(r3 is Ok);
    }
    let name = String::new();
    let farm = Farm {
        owner: accounts.owner,
        name,
        farm_token_mint: share_mint,
        payment_mint: accounts.payment_mint,
        farm_payment_vault: payment_vault,
        farm_revenue_vault: revenue_vault,
        total_shares,
        minted_shares: 0,
        price_per_share,
        account_revenue_per_share: 0,
        bump: DERIVATION_BUMP,
        signer_bump: DERIVATION_BUMP,
    };
    registry.farms.push(farm);
    proof {
        let r_old = *old(registry);
        let r_new = *registry;
        let n = r_old.farms@.len() as int;
        // the new record's owner is fresh, so farms stay unique
        assert forall|i: int| 0 <= i < n implies r_old.farms@[i].owner != accounts.owner by {
            if r_old.farms@[i].owner == accounts.owner {
                r_old.lemma_farm_index_is(farm_addr, i);
            }
        }
        // no stake can point at a farm that did not exist
        assert forall|k: int|
            0 <= k < r_new.stakes@.len() implies r_new.stakes@[k].farm != farm_addr by {
            assert(r_old.has_farm(r_old.stakes@[k].farm));
        }
        crate::sums::lemma_sum_where_zero(
            r_new.stakes@,
            |s: crate::user_stake::UserStake| s.farm == farm_addr,
            |s: crate::user_stake::UserStake| s.quantity as int,
        );
        // stakes still point at existing farms, and old sums carry over
        assert forall|k: int|
            0 <= k < r_new.stakes@.len() implies (#[trigger] r_new.stakes@[k]).wf()
                && r_new.has_farm(r_new.stakes@[k].farm) by {
            assert(r_old.has_farm(r_old.stakes@[k].farm));
            let i = r_old.farm_index(r_old.stakes@[k].farm);
            assert(r_new.farms@[i] == r_old.farms@[i]);
        }
        assert forall|i: int| 0 <= i < r_new.farms@.len() implies r_new.stake_sum(
            (#[trigger] r_new.farms@[i]).record_address(),
        ) == r_new.farms@[i].minted_shares by {
            if i < n {
                assert(r_new.farms@[i] == r_old.farms@[i]);
                assert(r_old.stake_sum(r_old.farms@[i].record_address()) == r_old.farms@[
                    i].minted_shares);
            }
        }
        assert(r_new.wf());
        assert(r_new.has_farm(farm_addr)) by {
            assert(r_new.farms@[n].record_address() == farm_addr);
        }
        // every old farm stays backed after the three creations
        assert(l0.mints@.is_prefix_of(ledger.mints@));
        assert(l0.accounts@.is_prefix_of(ledger.accounts@));
        assert forall|i: int| 0 <= i < r_new.farms@.len() implies farm_backed(
            #[trigger] r_new.farms@[i],
            *ledger,
        ) by {
            if i < n {
                assert(farm_backed(r_old.farms@[i], l0));
                lemma_backed_extends(r_old.farms@[i], l0, *ledger);
            } else {
                ledger.lemma_mint_index_is(share_mint, l0.mints@.len() as int);
                ledger.lemma_account_index_is(payment_vault, l0.accounts@.len() as int);
                ledger.lemma_account_index_is(revenue_vault, l0.accounts@.len() as int + 1);
            }
        }
    }
    Ok(())
}

} // verus!
