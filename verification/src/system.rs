use vstd::prelude::*;

use crate::farm::Farm;
use crate::ledger::AssetLedger;
use crate::registry::Registry;

verus! {

/// One farm's backing in the asset ledger: its share mint exists and is
/// issued only by the farm's signing identity, and its two custody vaults
/// exist, hold the right assets, and answer to the same identity.
pub open spec fn farm_backed(f: Farm, l: AssetLedger) -> bool {
    &&& l.has_mint(f.farm_token_mint)
    &&& l.mint_at(f.farm_token_mint).authority == f.signer_address()
    &&& l.has_account(f.farm_payment_vault)
    &&& l.account_at(f.farm_payment_vault).mint == f.payment_mint
    &&& l.account_at(f.farm_payment_vault).authority == f.signer_address()
    &&& l.has_account(f.farm_revenue_vault)
    &&& l.account_at(f.farm_revenue_vault).mint == f.farm_token_mint
    &&& l.account_at(f.farm_revenue_vault).authority == f.signer_address()
}

/// The registry and the asset ledger agree: every registered farm is backed.
pub open spec fn consistent(r: Registry, l: AssetLedger) -> bool {
    forall|i: int| 0 <= i < r.farms@.len() ==> farm_backed(#[trigger] r.farms@[i], l)
}

/// A ledger change that keeps every account's address, asset, and authority
/// (only balances move) keeps a farm backed.
pub proof fn lemma_backed_same_shape(f: Farm, l: AssetLedger, l2: AssetLedger)
    requires
        l.wf(),
        l.same_shape(l2),
        farm_backed(f, l),
    ensures
        l2.wf(),
        farm_backed(f, l2),
{
    assert(l2.wf());
    let j = l.mint_index(f.farm_token_mint);
    l2.lemma_mint_index_is(f.farm_token_mint, j);
    let jp = l.account_index(f.farm_payment_vault);
    l2.lemma_account_index_is(f.farm_payment_vault, jp);
    let jr = l.account_index(f.farm_revenue_vault);
    l2.lemma_account_index_is(f.farm_revenue_vault, jr);
}

/// The same, for the whole registry at once.
pub proof fn lemma_consistent_same_shape(r: Registry, l: AssetLedger, l2: AssetLedger)
    requires
        l.wf(),
        l.same_shape(l2),
        consistent(r, l),
    ensures
        l2.wf(),
        consistent(r, l2),
{
    assert forall|i: int| 0 <= i < r.farms@.len() implies farm_backed(
        #[trigger] r.farms@[i],
        l2,
    ) by {
        lemma_backed_same_shape(r.farms@[i], l, l2);
    }
}

/// Adding new mints and accounts at the end of the ledger keeps a farm
/// backed.
pub proof fn lemma_backed_extends(f: Farm, l: AssetLedger, l2: AssetLedger)
    requires
        l.wf(),
        l2.wf(),
        farm_backed(f, l),
        l.mints@.is_prefix_of(l2.mints@),
        l.accounts@.is_prefix_of(l2.accounts@),
    ensures
        farm_backed(f, l2),
{
    let j = l.mint_index(f.farm_token_mint);
    assert(l2.mints@[j] == l.mints@[j]);
    l2.lemma_mint_index_is(f.farm_token_mint, j);
    let jp = l.account_index(f.farm_payment_vault);
    assert(l2.accounts@[jp] == l.accounts@[jp]);
    l2.lemma_account_index_is(f.farm_payment_vault, jp);
    let jr = l.account_index(f.farm_revenue_vault);
    assert(l2.accounts@[jr] == l.accounts@[jr]);
    l2.lemma_account_index_is(f.farm_revenue_vault, jr);
}

} // verus!
