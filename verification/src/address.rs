use vstd::prelude::*;

verus! {

/// A deterministic account address.
///
/// Ordinary participants own key-pair addresses (`Key`). Every sub-account a
/// farm needs is content-addressed: its address is the key tuple it is derived
/// from, so it can be recomputed from the farm owner's key alone, without a
/// directory lookup. Distinct variants never collide, which is what makes the
/// derivation collision-free.
#[derive(Clone, Copy, Debug, PartialEq, Eq, Structural)]
pub enum Address {
    /// An externally held key-pair address (an investor, an external asset).
    Key { id: u64 },
    /// The farm record of the given owner; one per owner.
    FarmRecord { owner: u64 },
    /// The farm's own signing identity, derived from its record; it
    /// authorizes vault movements and share issuance without a stored secret.
    FarmSigner { owner: u64 },
    /// The mint of the farm's share asset.
    ShareMint { owner: u64 },
    /// The custody account that collects incoming payments.
    PaymentVault { owner: u64 },
    /// The custody account reserved for distributable revenue.
    RevenueVault { owner: u64 },
}

impl Address {
    /// Whether this address is an externally held key-pair address.
    pub open spec fn is_external_key(self) -> bool {
        self is Key
    }
}

/// The disambiguation byte recorded beside each derived address. Derivation
/// in this model is exact, so the byte is always zero; it is persisted so a
/// record's address can be recomputed from the record alone.
pub const DERIVATION_BUMP: u8 = 0;

} // verus!
