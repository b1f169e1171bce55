use vstd::prelude::*;

verus! {

/// Why a farm-tokenization operation was rejected.
///
/// The variants fall into four groups: input validation (`InvalidShares`,
/// `InvalidConfiguration`), business rules (`SupplyExceeded`), arithmetic
/// safety (`ArithmeticOverflow`), and asset-ledger failures (`AccountNotFound`,
/// `AccountInUse`, `AccountMismatch`, `Unauthorized`, `InsufficientBalance`).
/// Every operation that returns an error leaves all state unchanged.
#[derive(Clone, Copy, Debug, PartialEq, Eq, Structural)]
pub enum ErrorCode {
    /// A purchase requested zero shares.
    InvalidShares,
    /// A farm was configured with no shares to sell, or with a payment
    /// asset that is not an external key-pair address.
    InvalidConfiguration,
    /// Issuing the requested shares would push `minted_shares` past
    /// `total_shares`.
    SupplyExceeded,
    /// A counter update would overflow its width.
    ArithmeticOverflow,
    /// A referenced ledger account, mint, or farm record does not exist.
    AccountNotFound,
    /// An account or mint was to be created at an address already taken.
    AccountInUse,
    /// An account exists but its configuration does not fit the operation
    /// (wrong asset, or the same account on both sides of a transfer).
    AccountMismatch,
    /// The supplied authority does not control the account or mint.
    Unauthorized,
    /// A transfer asked for more than the source account holds.
    InsufficientBalance,
}

} // verus!
