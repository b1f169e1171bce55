//! A fractional-ownership ledger: an issuer (a "farm") defines a fixed supply
//! of ownership shares, sells them against a payment asset, and tracks each
//! investor's holding. The crate proves the supply-cap invariant
//! (`minted_shares <= total_shares`), the stake-accounting invariant (the
//! stakes of a farm sum to its minted shares), overflow-safe arithmetic, and
//! that every failed operation leaves all state unchanged.

pub mod address;
pub mod buy_shares;
pub mod errors;
pub mod farm;
pub mod initialize_farm;
pub mod ledger;
pub mod registry;
pub mod sums;
pub mod system;
pub mod user_stake;

use vstd::prelude::*;

use crate::buy_shares::{buy_post, BuyShares};
use crate::errors::ErrorCode;
use crate::initialize_farm::{initialize_post, InitializeFarm};
use crate::ledger::AssetLedger;
use crate::registry::Registry;
use crate::system::consistent;

verus! {

/// The entry point for farm creation; forwards to
/// [`initialize_farm::initialize_farm`] and promises the same.
pub fn farm_initialize(
    registry: &mut Registry,
    ledger: &mut AssetLedger,
    accounts: InitializeFarm,
    total_shares: u64,
    price_per_share: u64,
) -> (r: Result<(), ErrorCode>)
    requires
        old(registry).wf(),
        old(ledger).wf(),
        consistent(*old(registry), *old(ledger)),
    ensures
        initialize_post(
            *old(registry),
            *old(ledger),
            *final(registry),
            *final(ledger),
            accounts,
            total_shares,
            price_per_share,
            r,
        ),
{
    crate::initialize_farm::initialize_farm(registry, ledger, accounts, total_shares, price_per_share)
}

/// The entry point for a share purchase; forwards to
/// [`buy_shares::buy_shares`] and promises the same.
pub fn share_buying(
    registry: &mut Registry,
    ledger: &mut AssetLedger,
    accounts: BuyShares,
    amount: u64,
    pay_amount: u64,
) -> (r: Result<(), ErrorCode>)
    requires
        old(registry).wf(),
        old(ledger).wf(),
        consistent(*old(registry), *old(ledger)),
    ensures
        buy_post(
            *old(registry),
            *old(ledger),
            *final(registry),
            *final(ledger),
            accounts,
            amount,
            pay_amount,
            r,
        ),
{
    crate::buy_shares::buy_shares(registry, ledger, accounts, amount, pay_amount)
}

} // verus!
