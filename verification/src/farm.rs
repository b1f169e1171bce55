use vstd::prelude::*;

use crate::address::Address;

verus! {

/// One issuer's farm record: the supply cap, the issuance counter, and the
/// references to the farm's share asset, payment asset, and custody vaults.
///
/// `total_shares` is fixed at creation; `minted_shares` only ever grows and
/// never passes `total_shares`. The share mint, the two vaults, and the
/// farm's signing identity all live at addresses derived from `owner`, so
/// `wf` pins them to their derived values.
pub struct Farm {
    /// The controlling party's key; set once, never reassigned.
    pub owner: u64,
    /// Display label, at most 50 characters.
    pub name: String,
    /// The mint of the farm's share asset.
    pub farm_token_mint: Address,
    /// The external asset accepted as purchase currency.
    pub payment_mint: Address,
    /// Custody account collecting incoming payments.
    pub farm_payment_vault: Address,
    /// Custody account reserved for distributable revenue.
    pub farm_revenue_vault: Address,
    /// Immutable supply cap, greater than zero.
    pub total_shares: u64,
    /// Shares issued so far; never exceeds `total_shares`.
    pub minted_shares: u64,
    /// Reference price per share; informational, not enforced per purchase.
    pub price_per_share: u64,
    /// Accumulator reserved for future revenue distribution; no operation
    /// here updates it.
    pub account_revenue_per_share: u128,
    /// Disambiguation byte of the farm record's derived address.
    pub bump: u8,
    /// Disambiguation byte of the farm's signing identity.
    pub signer_bump: u8,
}

impl Farm {
    /// The derived address this farm record lives at.
    pub open spec fn record_address(self) -> Address {
        Address::FarmRecord { owner: self.owner }
    }

    /// The farm's derived signing identity.
    pub open spec fn signer_address(self) -> Address {
        Address::FarmSigner { owner: self.owner }
    }

    /// Internal consistency of one farm record: the supply cap is positive
    /// and not exceeded, the name is bounded, the payment asset is external,
    /// and every derived reference matches its derivation from `owner`.
    pub open spec fn wf(self) -> bool {
        &&& 0 < self.total_shares
        &&& self.minted_shares <= self.total_shares
        &&& self.name@.len() <= 50
        &&& self.payment_mint.is_external_key()
        &&& self.farm_token_mint == (Address::ShareMint { owner: self.owner })
        &&& self.farm_payment_vault == (Address::PaymentVault { owner: self.owner })
        &&& self.farm_revenue_vault == (Address::RevenueVault { owner: self.owner })
    }
}

} // verus!
