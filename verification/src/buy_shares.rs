use vstd::prelude::*;

use crate::address::Address;
use crate::errors::ErrorCode;
use crate::farm::Farm;
use crate::ledger::AssetLedger;
use crate::registry::Registry;
use crate::sums::lemma_sum_where_update;
use crate::system::{consistent, farm_backed, lemma_consistent_same_shape};
use crate::user_stake::UserStake;

verus! {

/// The accounts a purchase names explicitly: the farm bought from, the
/// investor signing and paying, the investor's payment account, and the
/// investor's share holding account. The farm's vaults, share mint, and
/// signing identity are derived from the farm record.
#[derive(Clone, Copy, Debug, PartialEq, Eq, Structural)]
pub struct BuyShares {
    /// The farm record's address.
    pub farm: Address,
    /// The investor's key; the payment moves under this authority.
    pub payer: u64,
    /// The investor's account holding the payment asset.
    pub payer_ata: Address,
    /// The investor's account holding the farm's share asset.
    pub investor_farm_token_ata: Address,
}

/// The investor's holding before a purchase: the stake's quantity, or zero
/// where no stake record exists yet.
pub open spec fn prior_quantity(r: Registry, farm: Address, investor: u64) -> int {
    if r.has_stake(farm, investor) {
        r.stake_at(farm, investor).quantity as int
    } else {
        0
    }
}

/// Why a purchase would be rejected, or `None` where it succeeds; the checks
/// run in this order. The supply check comes before any ledger movement, so
/// an over-subscription is rejected without side effects.
pub open spec fn buy_error(
    r: Registry,
    l: AssetLedger,
    accounts: BuyShares,
    amount: u64,
    pay_amount: u64,
) -> Option<ErrorCode> {
    if amount == 0 {
        Some(ErrorCode::InvalidShares)
    } else if !r.has_farm(accounts.farm) {
        Some(ErrorCode::AccountNotFound)
    } else if r.farm_at(accounts.farm).minted_shares + amount > u64::MAX {
        Some(ErrorCode::ArithmeticOverflow)
    } else if r.farm_at(accounts.farm).minted_shares + amount > r.farm_at(
        accounts.farm,
    ).total_shares {
        Some(ErrorCode::SupplyExceeded)
    } else {
        match l.transfer_error(
            accounts.payer_ata,
            r.farm_at(accounts.farm).farm_payment_vault,
            Address::Key { id: accounts.payer },
            pay_amount,
        ) {
            Some(e) => Some(e),
            None => l.mint_to_error(
                r.farm_at(accounts.farm).farm_token_mint,
                accounts.investor_farm_token_ata,
                r.farm_at(accounts.farm).signer_address(),
                amount,
            ),
        }
    }
}

/// Everything a purchase promises, relating the states before (`r0`, `l0`)
/// and after (`r1`, `l1`) to the result: invariants and consistency hold
/// afterwards; on success the payment moved, the shares were issued, the
/// farm's counter and the investor's stake grew by the bought amount, and
/// nothing else changed; on error nothing changed and `buy_error` names the
/// error.
pub open spec fn buy_post(
    r0: Registry,
    l0: AssetLedger,
    r1: Registry,
    l1: AssetLedger,
    accounts: BuyShares,
    amount: u64,
    pay_amount: u64,
    res: Result<(), ErrorCode>,
) -> bool {
    &&& r1.wf()
    &&& l1.wf()
    &&& consistent(r1, l1)
    &&& match res {
            Err(e) => {
                &&& buy_error(r0, l0, accounts, amount, pay_amount) == Some(e)
                &&& r1 == r0
                &&& l1 == l0
            },
            Ok(()) => {
                &&& buy_error(r0, l0, accounts, amount, pay_amount) is None
                &&& r0.has_farm(accounts.farm)
                &&& r1.has_farm(accounts.farm)
                &&& r1.farm_at(accounts.farm) == (Farm {
                    minted_shares: (r0.farm_at(accounts.farm).minted_shares
                        + amount) as u64,
                    ..r0.farm_at(accounts.farm)
                })
                &&& r1.farms@.len() == r0.farms@.len()
                &&& forall|a: Address|
                    a != accounts.farm ==> r1.has_farm(a) == r0.has_farm(a)
                        && (r0.has_farm(a) ==> r1.farm_at(a) == r0.farm_at(a))
                &&& r1.has_stake(accounts.farm, accounts.payer)
                &&& r1.stake_at(accounts.farm, accounts.payer).quantity
                    == prior_quantity(r0, accounts.farm, accounts.payer) + amount
                &&& r1.stake_at(accounts.farm, accounts.payer).debt_claimed == 0
                &&& r1.stake_at(accounts.farm, accounts.payer).is_initialized
                &&& r1.stake_at(accounts.farm, accounts.payer).owner == accounts.payer
                &&& r1.stake_at(accounts.farm, accounts.payer).farm == accounts.farm
                &&& r1.stakes@.len() == r0.stakes@.len() + (if r0.has_stake(accounts.farm, accounts.payer) {
                    0int
                } else {
                    1int
                })
                &&& forall|fa: Address, ow: u64|
                    !(fa == accounts.farm && ow == accounts.payer) ==> r1.has_stake(
                        fa,
                        ow,
                    ) == r0.has_stake(fa, ow) && (r0.has_stake(fa, ow) ==>
                    r1.stake_at(fa, ow) == r0.stake_at(fa, ow))
                &&& l0.same_shape(l1)
                &&& l1.balance_of(accounts.payer_ata) == l0.balance_of(
                    accounts.payer_ata,
                ) - pay_amount
                &&& l1.balance_of(
                    r0.farm_at(accounts.farm).farm_payment_vault,
                ) == l0.balance_of(
                    r0.farm_at(accounts.farm).farm_payment_vault,
                ) + pay_amount
                &&& l1.balance_of(accounts.investor_farm_token_ata) == l0.balance_of(accounts.investor_farm_token_ata) + amount
                &&& forall|a: Address|
                    a != accounts.payer_ata && a != r0.farm_at(
                        accounts.farm,
                    ).farm_payment_vault && a != accounts.investor_farm_token_ata ==> l1.balance_of(a) == l0.balance_of(a)
            },
        }
}

/// Sells `amount` shares of the farm to the investor for `pay_amount` units
/// of the payment asset, atomically: the payment moves into the farm's
/// vault, the shares are issued to the investor under the farm's derived
/// signing identity, the farm's issuance counter grows, and the investor's
/// stake record is created on first purchase and accumulated afterwards,
/// with `debt_claimed` reset. Every check — validity, overflow, supply cap,
/// and both ledger steps — passes before anything is applied, so on any
/// error nothing changes.
pub fn buy_shares(
    registry: &mut Registry,
    ledger: &mut AssetLedger,
    accounts: BuyShares,
    amount: u64,
    pay_amount: u64,
) -> (r: Result<(), ErrorCode>)
    requires
        old(registry).wf(),
        old(ledger).wf(),
        consistent(*old(registry), *old(ledger)),
    ensures
        buy_post(
            *old(registry),
            *old(ledger),
            *final(registry),
            *final(ledger),
            accounts,
            amount,
            pay_amount,
            r,
        ),

{
    if amount == 0 {
        return Err(ErrorCode::InvalidShares);
    }
    let fi = match registry.find_farm(accounts.farm) {
        Some(i) => i,
        None => {
            return Err(ErrorCode::AccountNotFound);
        },
    };
    proof {
        registry.lemma_farm_index_is(accounts.farm, fi as int);
    }
    let minted = registry.farms[fi].minted_shares;
    let new_minted = match minted.checked_add(amount) {
        Some(v) => v,
        None => {
            return Err(ErrorCode::ArithmeticOverflow);
        },
    };
    if new_minted > registry.farms[fi].total_shares {
        return Err(ErrorCode::SupplyExceeded);
    }
    let vault = registry.farms[fi].farm_payment_vault;
    let share_mint = registry.farms[fi].farm_token_mint;
    let owner = registry.farms[fi].owner;
    let signer = Address::FarmSigner { owner };
    proof {
        assert(farm_backed(registry.farms@[fi as int], *ledger));
    }
    // every check runs before anything is applied
    match ledger.check_transfer(
        accounts.payer_ata,
        vault,
        Address::Key { id: accounts.payer },
        pay_amount,
    ) {
        Err(e) => {
            return Err(e);
        },
        Ok(()) => {},
    }
    match ledger.check_mint_to(share_mint, accounts.investor_farm_token_ata, signer, amount) {
        Err(e) => {
            return Err(e);
        },
        Ok(()) => {},
    }
    let q0 = match registry.find_stake(accounts.farm, accounts.payer) {
        Some(k) => {
            proof {
                registry.lemma_stake_index_is(accounts.farm, accounts.payer, k as int);
                registry.lemma_stake_quantity_bounded(k as int);
            }
            registry.stakes[k].quantity
        },
        None => 0,
    };
    let new_q = match q0.checked_add(amount) {
        Some(v) => v,
        None => {
            // the stake never exceeds the farm's minted shares, and the new
            // total fits below the supply cap, so this cannot happen
            proof {
                assert(false);
            }
            return Err(ErrorCode::ArithmeticOverflow);
        },
    };
    // move the payment into the vault
    let ghost l0 = *ledger;
    let tr = ledger.transfer(
        accounts.payer_ata,
        vault,
        Address::Key { id: accounts.payer },
        pay_amount,
    );
    proof {
        assert(tr is Ok);
    }
    let ghost l1 = *ledger;
    proof {
        // the issuance step still succeeds after the payment moved: the
        // investor's share account holds the share asset, while both sides
        // of the payment transfer hold the external payment asset, so its
        // balance did not move; and the mints did not change.
        let to = accounts.investor_farm_token_ata;
        let ti0 = l0.account_index(to);
        assert(l0.has_account(to));
        l0.lemma_account_index_is(to, ti0);
        assert(l0.account_at(to).mint == share_mint);
        assert(to != accounts.payer_ata && to != vault) by {
            let pi0 = l0.account_index(accounts.payer_ata);
            l0.lemma_account_index_is(accounts.payer_ata, pi0);
            let vi0 = l0.account_index(vault);
            l0.lemma_account_index_is(vault, vi0);
        }
        assert(l1.balance_of(to) == l0.balance_of(to));
        assert(l1.accounts@[ti0].addr == to);
        l1.lemma_account_index_is(to, ti0);
        assert(l1.account_at(to).balance == l0.account_at(to).balance);
        let mi0 = l0.mint_index(share_mint);
        assert(l0.has_mint(share_mint));
        assert(l1.mints@[mi0] == l0.mints@[mi0]);
        l1.lemma_mint_index_is(share_mint, mi0);
        assert(l1.mint_to_error(share_mint, to, signer, amount) is None);
    }
    // issue the shares to the investor
    let mr = ledger.mint_to(share_mint, accounts.investor_farm_token_ata, signer, amount);
    proof {
        assert(mr is Ok);
    }
    let ghost l2 = *ledger;
    // record the purchase in the registry
    let si = registry.get_or_create_stake(accounts.farm, accounts.payer);
    let ghost r1 = *registry;
    registry.stakes[si].quantity = new_q;
    registry.stakes[si].debt_claimed = 0;
    let ghost r2 = *registry;
    registry.farms[fi].minted_shares = new_minted;
    proof {
        assert(r2.stakes@ =~= r1.stakes@.update(
            si as int,
            (UserStake { quantity: new_q, debt_claimed: 0, ..r1.stakes@[si as int] }),
        ));
        lemma_buy_bookkeeping(
            *old(registry),
            r1,
            r2,
            *registry,
            accounts,
            amount,
            fi as int,
            si as int,
            q0,
            new_q,
            new_minted,
        );
        // the ledger stayed consistent with the registry throughout
        lemma_consistent_same_shape(*old(registry), l0, l1);
        lemma_consistent_same_shape(*old(registry), l1, l2);
        assert(l0.same_shape(l2));
        assert forall|i: int| 0 <= i < registry.farms@.len() implies farm_backed(
            #[trigger] registry.farms@[i],
            l2,
        ) by {
            assert(farm_backed(old(registry).farms@[i], l2));
        }
    }
    Ok(())
}

/// The registry bookkeeping behind a successful purchase: updating the
/// stake's quantity by the bought amount and the farm's counter to match
/// keeps every invariant, changes no other farm and no other stake, and
/// moves the one farm's stake sum by exactly the bought amount.
proof fn lemma_buy_bookkeeping(
    r0: Registry,
    r1: Registry,
    r2: Registry,
    r3: Registry,
    accounts: BuyShares,
    amount: u64,
    fi: int,
    si: int,
    q0: u64,
    new_q: u64,
    new_minted: u64,
)
    requires
        r0.wf(),
        r1.wf(),
        0 <= fi < r0.farms@.len(),
        r0.farms@[fi].record_address() == accounts.farm,
        amount > 0,
        new_minted == r0.farms@[fi].minted_shares + amount,
        new_minted <= r0.farms@[fi].total_shares,
        q0 as int == prior_quantity(r0, accounts.farm, accounts.payer),
        new_q == q0 + amount,
        // r1: the stake record exists (created empty if needed)
        r1.farms@ == r0.farms@,
        0 <= si < r1.stakes@.len(),
        r1.stakes@[si].farm == accounts.farm,
        r1.stakes@[si].owner == accounts.payer,
        r1.stakes@[si].quantity == q0,
        forall|a: Address| r1.stake_sum(a) == r0.stake_sum(a),
        if r0.has_stake(accounts.farm, accounts.payer) {
            r1.stakes@ == r0.stakes@ && si == r0.stake_index(accounts.farm, accounts.payer)
        } else {
            r1.stakes@ == r0.stakes@.push(
                (UserStake {
                    is_initialized: true,
                    owner: accounts.payer,
                    farm: accounts.farm,
                    quantity: 0,
                    debt_claimed: 0,
                    bump: crate::address::DERIVATION_BUMP,
                }),
            )
        },
        // r2: the stake accumulated the purchase
        r2.farms@ == r1.farms@,
        r2.stakes@ == r1.stakes@.update(
            si,
            (UserStake { quantity: new_q, debt_claimed: 0, ..r1.stakes@[si] }),
        ),
        // r3: the farm's counter caught up
        r3.stakes@ == r2.stakes@,
        r3.farms@ == r2.farms@.update(
            fi,
            (Farm { minted_shares: new_minted, ..r2.farms@[fi] }),
        ),
    ensures
        r3.wf(),
        r3.has_farm(accounts.farm),
        r3.farm_at(accounts.farm) == (Farm {
            minted_shares: (r0.farm_at(accounts.farm).minted_shares + amount) as u64,
            ..r0.farm_at(accounts.farm)
        }),
        r3.farms@.len() == r0.farms@.len(),
        forall|a: Address|
            a != accounts.farm ==> r3.has_farm(a) == r0.has_farm(a) && (r0.has_farm(a)
                ==> r3.farm_at(a) == r0.farm_at(a)),
        r3.has_stake(accounts.farm, accounts.payer),
        r3.stake_at(accounts.farm, accounts.payer).quantity == prior_quantity(
            r0,
            accounts.farm,
            accounts.payer,
        ) + amount,
        r3.stake_at(accounts.farm, accounts.payer).debt_claimed == 0,
        r3.stake_at(accounts.farm, accounts.payer).is_initialized,
        r3.stake_at(accounts.farm, accounts.payer).owner == accounts.payer,
        r3.stake_at(accounts.farm, accounts.payer).farm == accounts.farm,
        r3.stakes@.len() == r0.stakes@.len() + (if r0.has_stake(accounts.farm, accounts.payer) {
            0int
        } else {
            1int
        }),
        forall|fa: Address, ow: u64|
            !(fa == accounts.farm && ow == accounts.payer) ==> r3.has_stake(fa, ow)
                == r0.has_stake(fa, ow) && (r0.has_stake(fa, ow) ==> r3.stake_at(fa, ow)
                == r0.stake_at(fa, ow)),
{
    r0.lemma_farm_index_is(accounts.farm, fi);
    let s_new = UserStake { quantity: new_q, debt_claimed: 0, ..r1.stakes@[si] };
    let f_new = Farm { minted_shares: new_minted, ..r2.farms@[fi] };
    // each farm's stake sum after the update
    assert forall|a: Address|
        #[trigger] r3.stake_sum(a) == r1.stake_sum(a) + (if a == accounts.farm {
            amount as int
        } else {
            0
        }) by {
        lemma_sum_where_update(
            r1.stakes@,
            |s: UserStake| s.farm == a,
            |s: UserStake| s.quantity as int,
            si,
            s_new,
        );
    }
    // the sum invariant holds for every farm
    assert forall|i: int| 0 <= i < r3.farms@.len() implies r3.stake_sum(
        (#[trigger] r3.farms@[i]).record_address(),
    ) == r3.farms@[i].minted_shares by {
        if i == fi {
            assert(r3.farms@[i].record_address() == accounts.farm);
        } else {
            assert(r3.farms@[i] == r0.farms@[i]);
            assert(r3.farms@[i].record_address() != accounts.farm);
            assert(r0.stake_sum(r0.farms@[i].record_address()) == r0.farms@[i].minted_shares);
        }
    }
    // stakes stay well-formed, unique, and pointed at existing farms
    assert forall|k: int|
        0 <= k < r3.stakes@.len() implies (#[trigger] r3.stakes@[k]).wf() && r3.has_farm(
        r3.stakes@[k].farm,
    ) by {
        assert(r1.stakes@[k].wf() && r1.has_farm(r1.stakes@[k].farm));
        let i = r1.farm_index(r1.stakes@[k].farm);
        assert(r3.farms@[i].record_address() == r1.farms@[i].record_address());
        assert(r3.stakes@[k].farm == r1.stakes@[k].farm);
    }
    assert(r3.wf());
    r3.lemma_farm_index_is(accounts.farm, fi);
    r3.lemma_stake_index_is(accounts.farm, accounts.payer, si);
    // other farms are untouched
    assert forall|a: Address|
        a != accounts.farm implies r3.has_farm(a) == r0.has_farm(a) && (r0.has_farm(a)
        ==> r3.farm_at(a) == r0.farm_at(a)) by {
        if r0.has_farm(a) {
            let i = r0.farm_index(a);
            assert(r3.farms@[i] == r0.farms@[i]);
            r3.lemma_farm_index_is(a, i);
        }
        if r3.has_farm(a) {
            let i = r3.farm_index(a);
            assert(r3.farms@[i].owner == r0.farms@[i].owner);
            assert(r0.farms@[i].record_address() == a);
        }
    }
    // other stakes are untouched
    assert forall|fa: Address, ow: u64|
        !(fa == accounts.farm && ow == accounts.payer) implies r3.has_stake(fa, ow)
        == r0.has_stake(fa, ow) && (r0.has_stake(fa, ow) ==> r3.stake_at(fa, ow) == r0.stake_at(
        fa,
        ow,
    )) by {
        if r0.has_stake(fa, ow) {
            let k = r0.stake_index(fa, ow);
            assert(r0.stakes@[k].farm == fa && r0.stakes@[k].owner == ow);
            assert(k != si);
            assert(r3.stakes@[k] == r0.stakes@[k]);
            r3.lemma_stake_index_is(fa, ow, k);
            r0.lemma_stake_index_is(fa, ow, k);
        }
        if r3.has_stake(fa, ow) {
            let k = r3.stake_index(fa, ow);
            assert(r3.stakes@[k].farm == fa && r3.stakes@[k].owner == ow);
            assert(k != si);
            if k < r0.stakes@.len() {
                assert(r3.stakes@[k] == r0.stakes@[k]);
                assert(r0.has_stake(fa, ow));
            }
        }
    }
}

/// However purchases are serialized, none can over-mint: every purchase
/// outcome leaves each farm within its supply cap, and a purchase succeeds
/// only when the requested amount still fits under the cap. Runs of
/// purchases against the same farm therefore end with exactly the ones that
/// fit succeeding and the rest rejected with `SupplyExceeded`.
pub proof fn lemma_never_overmint(
    r0: Registry,
    l0: AssetLedger,
    r1: Registry,
    l1: AssetLedger,
    accounts: BuyShares,
    amount: u64,
    pay_amount: u64,
    res: Result<(), ErrorCode>,
)
    requires
        buy_post(r0, l0, r1, l1, accounts, amount, pay_amount, res),
    ensures
        forall|i: int|
            0 <= i < r1.farms@.len() ==> (#[trigger] r1.farms@[i]).minted_shares
                <= r1.farms@[i].total_shares,
        res is Ok ==> r0.farm_at(accounts.farm).minted_shares + amount <= r0.farm_at(
            accounts.farm,
        ).total_shares,
        res is Err && amount > 0 && r0.has_farm(accounts.farm) && r0.farm_at(
            accounts.farm,
        ).minted_shares + amount <= u64::MAX && r0.farm_at(accounts.farm).minted_shares + amount
            > r0.farm_at(accounts.farm).total_shares ==> res == Err::<(), ErrorCode>(
            ErrorCode::SupplyExceeded,
        ),
{
}

} // verus!

