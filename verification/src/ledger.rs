use vstd::prelude::*;

use crate::address::Address;
use crate::errors::ErrorCode;
use crate::sums::{
    lemma_sum_where_push, lemma_sum_where_single, lemma_sum_where_update, lemma_sum_where_zero,
    sum_where,
};

verus! {

/// A mint: the record that defines one fungible asset and names the single
/// authority allowed to issue new units of it.
pub struct TokenMint {
    /// The asset's address.
    pub addr: Address,
    /// The only identity allowed to issue new units.
    pub authority: Address,
}

/// One holding account: units of one asset, controlled by one authority.
pub struct TokenAccount {
    /// The account's address.
    pub addr: Address,
    /// The asset this account holds.
    pub mint: Address,
    /// The identity allowed to move value out of this account.
    pub authority: Address,
    /// Units held.
    pub balance: u64,
}

/// The external asset ledger the farm system settles against, modeled as an
/// explicit store of mints and holding accounts with standard create,
/// transfer, and mint semantics. Every operation either applies in full or
/// returns an error and changes nothing.
pub struct AssetLedger {
    /// All mints, unique by address.
    pub mints: Vec<TokenMint>,
    /// All holding accounts, unique by address.
    pub accounts: Vec<TokenAccount>,
}

impl AssetLedger {
    /// Internal consistency: addresses are unique among mints and among
    /// accounts, so an address observation is unambiguous.
    pub open spec fn wf(self) -> bool {
        &&& forall|i: int, j: int|
            0 <= i < j < self.mints@.len() ==> self.mints@[i].addr != self.mints@[j].addr
        &&& forall|i: int, j: int|
            0 <= i < j < self.accounts@.len() ==> self.accounts@[i].addr != self.accounts@[j].addr
    }

    /// Whether a mint exists at `a`.
    pub open spec fn has_mint(self, a: Address) -> bool {
        exists|j: int| 0 <= j < self.mints@.len() && self.mints@[j].addr == a
    }

    /// The index of the mint at `a` (meaningful when `has_mint(a)`).
    pub open spec fn mint_index(self, a: Address) -> int {
        choose|j: int| 0 <= j < self.mints@.len() && self.mints@[j].addr == a
    }

    /// The mint at `a` (meaningful when `has_mint(a)`).
    pub open spec fn mint_at(self, a: Address) -> TokenMint {
        self.mints@[self.mint_index(a)]
    }

    /// Whether a holding account exists at `a`.
    pub open spec fn has_account(self, a: Address) -> bool {
        exists|j: int| 0 <= j < self.accounts@.len() && self.accounts@[j].addr == a
    }

    /// The index of the account at `a` (meaningful when `has_account(a)`).
    pub open spec fn account_index(self, a: Address) -> int {
        choose|j: int| 0 <= j < self.accounts@.len() && self.accounts@[j].addr == a
    }

    /// The account at `a` (meaningful when `has_account(a)`).
    pub open spec fn account_at(self, a: Address) -> TokenAccount {
        self.accounts@[self.account_index(a)]
    }

    /// The units held at address `a`: the balances of all accounts at `a`
    /// summed, which is the one account's balance under `wf`, and zero when
    /// no account exists there.
    pub open spec fn balance_of(self, a: Address) -> int {
        sum_where(
            self.accounts@,
            |t: TokenAccount| t.addr == a,
            |t: TokenAccount| t.balance as int,
        )
    }

    /// Two ledgers with the same mints and the same accounts up to balances.
    pub open spec fn same_shape(self, other: AssetLedger) -> bool {
        &&& self.mints@ == other.mints@
        &&& self.accounts@.len() == other.accounts@.len()
        &&& forall|j: int|
            0 <= j < self.accounts@.len() ==> {
                &&& self.accounts@[j].addr == other.accounts@[j].addr
                &&& self.accounts@[j].mint == other.accounts@[j].mint
                &&& self.accounts@[j].authority == other.accounts@[j].authority
            }
    }

    /// An account found at an index is the account the address observations
    /// speak of.
    pub proof fn lemma_account_index_is(self, a: Address, j: int)
        requires
            self.wf(),
            0 <= j < self.accounts@.len(),
            self.accounts@[j].addr == a,
        ensures
            self.has_account(a),
            self.account_index(a) == j,
            self.account_at(a) == self.accounts@[j],
            self.balance_of(a) == self.accounts@[j].balance as int,
    {
        assert(self.has_account(a));
        let k = self.account_index(a);
        assert(0 <= k < self.accounts@.len() && self.accounts@[k].addr == a);
        assert(k == j);
        lemma_sum_where_single(
            self.accounts@,
            |t: TokenAccount| t.addr == a,
            |t: TokenAccount| t.balance as int,
            j,
        );
    }

    /// A mint found at an index is the mint the address observations speak of.
    pub proof fn lemma_mint_index_is(self, a: Address, j: int)
        requires
            self.wf(),
            0 <= j < self.mints@.len(),
            self.mints@[j].addr == a,
        ensures
            self.has_mint(a),
            self.mint_index(a) == j,
            self.mint_at(a) == self.mints@[j],
    {
        assert(self.has_mint(a));
        let k = self.mint_index(a);
        assert(0 <= k < self.mints@.len() && self.mints@[k].addr == a);
        assert(k == j);
    }

    /// Where no account exists, nothing is held.
    pub proof fn lemma_balance_absent(self, a: Address)
        requires
            !self.has_account(a),
        ensures
            self.balance_of(a) == 0,
    {
        lemma_sum_where_zero(
            self.accounts@,
            |t: TokenAccount| t.addr == a,
            |t: TokenAccount| t.balance as int,
        );
    }

    /// An empty ledger.
    pub fn new() -> (r: AssetLedger)
        ensures
            r.wf(),
            r.mints@.len() == 0,
            r.accounts@.len() == 0,
    {
        AssetLedger { mints: Vec::new(), accounts: Vec::new() }
    }

    /// The first index holding a mint at `a`, if any.
    pub fn find_mint(&self, a: Address) -> (r: Option<usize>)
        ensures
            match r {
                Some(j) => j < self.mints@.len() && self.mints@[j as int].addr == a,
                None => !self.has_mint(a),
            },
    {
        let mut k: usize = 0;
        while k < self.mints.len()
            invariant
                k <= self.mints@.len(),
                forall|j: int| 0 <= j < k ==> self.mints@[j].addr != a,
            decreases self.mints@.len() - k,
        {
            if self.mints[k].addr == a {
                return Some(k);
            }
            k += 1;
        }
        None
    }

    /// The first index holding an account at `a`, if any.
    pub fn find_account(&self, a: Address) -> (r: Option<usize>)
        ensures
            match r {
                Some(j) => j < self.accounts@.len() && self.accounts@[j as int].addr == a,
                None => !self.has_account(a),
            },
    {
        let mut k: usize = 0;
        while k < self.accounts.len()
            invariant
                k <= self.accounts@.len(),
                forall|j: int| 0 <= j < k ==> self.accounts@[j].addr != a,
            decreases self.accounts@.len() - k,
        {
            if self.accounts[k].addr == a {
                return Some(k);
            }
            k += 1;
        }
        None
    }

    /// The balance held at `a`, or `None` where no account exists.
    pub fn balance(&self, a: Address) -> (r: Option<u64>)
        requires
            self.wf(),
        ensures
            match r {
                Some(b) => self.has_account(a) && b as int == self.balance_of(a),
                None => !self.has_account(a) && self.balance_of(a) == 0,
            },
    {
        match self.find_account(a) {
            Some(j) => {
                proof {
                    self.lemma_account_index_is(a, j as int);
                }
                Some(self.accounts[j].balance)
            },
            None => {
                proof {
                    self.lemma_balance_absent(a);
                }
                None
            },
        }
    }

    /// Creates the mint that defines a new asset.
    ///
    /// Fails with `AccountInUse` where a mint already exists at `addr`;
    /// otherwise records `authority` as the asset's issuing authority.
    pub fn create_mint(&mut self, addr: Address, authority: Address) -> (r: Result<(), ErrorCode>)
        requires
            old(self).wf(),
        ensures
            final(self).wf(),
            match r {
                Ok(()) => {
                    &&& !old(self).has_mint(addr)
                    &&& final(self).mints@ == old(self).mints@.push(TokenMint { addr, authority })
                    &&& final(self).accounts@ == old(self).accounts@
                },
                Err(e) => {
                    &&& e == ErrorCode::AccountInUse
                    &&& old(self).has_mint(addr)
                    &&& *final(self) == *old(self)
                },
            },
    {
        match self.find_mint(addr) {
            Some(_) => Err(ErrorCode::AccountInUse),
            None => {
                self.mints.push(TokenMint { addr, authority });
                Ok(())
            },
        }
    }

    /// Creates an empty holding account for an existing asset.
    ///
    /// Fails with `AccountNotFound` where no mint exists at `mint`, and with
    /// `AccountInUse` where an account already exists at `addr`; otherwise
    /// the new account starts at balance zero, so no held amount changes.
    pub fn create_account(&mut self, addr: Address, mint: Address, authority: Address) -> (r:
        Result<(), ErrorCode>)
        requires
            old(self).wf(),
        ensures
            final(self).wf(),
            match r {
                Ok(()) => {
                    &&& old(self).has_mint(mint)
                    &&& !old(self).has_account(addr)
                    &&& final(self).mints@ == old(self).mints@
                    &&& final(self).accounts@ == old(self).accounts@.push(
                        TokenAccount { addr, mint, authority, balance: 0 },
                    )
                    &&& forall|a: Address| final(self).balance_of(a) == old(self).balance_of(a)
                },
                Err(e) => {
                    &&& (e == ErrorCode::AccountNotFound <==> !old(self).has_mint(mint))
                    &&& (e == ErrorCode::AccountInUse <==> old(self).has_mint(mint)
                        && old(self).has_account(addr))
                    &&& (e == ErrorCode::AccountNotFound || e == ErrorCode::AccountInUse)
                    &&& *final(self) == *old(self)
                },
            },
    {
        if self.find_mint(mint).is_none() {
            return Err(ErrorCode::AccountNotFound);
        }
        match self.find_account(addr) {
            Some(_) => Err(ErrorCode::AccountInUse),
            None => {
                self.accounts.push(TokenAccount { addr, mint, authority, balance: 0 });
                proof {
                    assert forall|a: Address|
                        self.balance_of(a) == old(self).balance_of(a) by {
                        lemma_sum_where_push(
                            old(self).accounts@,
                            |t: TokenAccount| t.addr == a,
                            |t: TokenAccount| t.balance as int,
                            TokenAccount { addr, mint, authority, balance: 0 },
                        );
                    }
                }
                Ok(())
            },
        }
    }
    /// Why a transfer would fail, or `None` where it succeeds; the checks
    /// run in this order.
    pub open spec fn transfer_error(
        self,
        from: Address,
        to: Address,
        authority: Address,
        amount: u64,
    ) -> Option<ErrorCode> {
        if !self.has_account(from) {
            Some(ErrorCode::AccountNotFound)
        } else if !self.has_account(to) {
            Some(ErrorCode::AccountNotFound)
        } else if from == to {
            Some(ErrorCode::AccountMismatch)
        } else if self.account_at(from).authority != authority {
            Some(ErrorCode::Unauthorized)
        } else if self.account_at(from).mint != self.account_at(to).mint {
            Some(ErrorCode::AccountMismatch)
        } else if self.account_at(from).balance < amount {
            Some(ErrorCode::InsufficientBalance)
        } else if self.account_at(to).balance + amount > u64::MAX {
            Some(ErrorCode::ArithmeticOverflow)
        } else {
            None
        }
    }

    /// Decides, without moving anything, whether a transfer would succeed,
    /// returning the error it would fail with. A coordinator composing a
    /// transfer with further steps checks first, so that nothing applies
    /// when a later step would fail.
    pub fn check_transfer(&self, from: Address, to: Address, authority: Address, amount: u64) -> (r:
        Result<(), ErrorCode>)
        requires
            self.wf(),
        ensures
            match r {
                Ok(()) => self.transfer_error(from, to, authority, amount) is None,
                Err(e) => self.transfer_error(from, to, authority, amount) == Some(e),
            },
    {
        let fi = match self.find_account(from) {
            Some(j) => j,
            None => {
                return Err(ErrorCode::AccountNotFound);
            },
        };
        let ti = match self.find_account(to) {
            Some(j) => j,
            None => {
                return Err(ErrorCode::AccountNotFound);
            },
        };
        proof {
            self.lemma_account_index_is(from, fi as int);
            self.lemma_account_index_is(to, ti as int);
        }
        if from == to {
            return Err(ErrorCode::AccountMismatch);
        }
        if self.accounts[fi].authority != authority {
            return Err(ErrorCode::Unauthorized);
        }
        if self.accounts[fi].mint != self.accounts[ti].mint {
            return Err(ErrorCode::AccountMismatch);
        }
        if self.accounts[fi].balance < amount {
            return Err(ErrorCode::InsufficientBalance);
        }
        if self.accounts[ti].balance.checked_add(amount).is_none() {
            return Err(ErrorCode::ArithmeticOverflow);
        }
        Ok(())
    }

    /// Moves `amount` units from `from` to `to`, authorized by `authority`.
    ///
    /// Succeeds exactly when both accounts exist and are distinct, the
    /// authority controls `from`, the accounts hold the same asset, `from`
    /// covers the amount, and `to` does not overflow; then only the two
    /// balances change. On any error nothing changes.
    pub fn transfer(&mut self, from: Address, to: Address, authority: Address, amount: u64) -> (r:
        Result<(), ErrorCode>)
        requires
            old(self).wf(),
        ensures
            final(self).wf(),
            match r {
                Ok(()) => {
                    &&& old(self).transfer_error(from, to, authority, amount) is None
                    &&& old(self).same_shape(*final(self))
                    &&& final(self).balance_of(from) == old(self).balance_of(from) - amount
                    &&& final(self).balance_of(to) == old(self).balance_of(to) + amount
                    &&& forall|a: Address|
                        a != from && a != to ==> final(self).balance_of(a) == old(self).balance_of(
                            a,
                        )
                },
                Err(e) => {
                    &&& old(self).transfer_error(from, to, authority, amount) == Some(e)
                    &&& *final(self) == *old(self)
                },
            },
    {
        let fi = match self.find_account(from) {
            Some(j) => j,
            None => {
                return Err(ErrorCode::AccountNotFound);
            },
        };
        let ti = match self.find_account(to) {
            Some(j) => j,
            None => {
                return Err(ErrorCode::AccountNotFound);
            },
        };
        proof {
            self.lemma_account_index_is(from, fi as int);
            self.lemma_account_index_is(to, ti as int);
        }
        if from == to {
            return Err(ErrorCode::AccountMismatch);
        }
        if self.accounts[fi].authority != authority {
            return Err(ErrorCode::Unauthorized);
        }
        if self.accounts[fi].mint != self.accounts[ti].mint {
            return Err(ErrorCode::AccountMismatch);
        }
        if self.accounts[fi].balance < amount {
            return Err(ErrorCode::InsufficientBalance);
        }
        match self.accounts[ti].balance.checked_add(amount) {
            None => Err(ErrorCode::ArithmeticOverflow),
            Some(nb) => {
                let fb = self.accounts[fi].balance;
                self.accounts[fi].balance = fb - amount;
                self.accounts[ti].balance = nb;
                proof {
                    self.lemma_transfer_effects(*old(self), from, to, fi as int, ti as int, amount);
                }
                Ok(())
            },
        }
    }

    /// The balance bookkeeping behind a successful transfer: updating the
    /// two balances moves `amount` between the two addresses and leaves
    /// every other address, and the ledger's shape, unchanged.
    proof fn lemma_transfer_effects(
        self,
        pre: AssetLedger,
        from: Address,
        to: Address,
        fi: int,
        ti: int,
        amount: u64,
    )
        requires
            pre.wf(),
            0 <= fi < pre.accounts@.len(),
            0 <= ti < pre.accounts@.len(),
            fi != ti,
            pre.accounts@[fi].addr == from,
            pre.accounts@[ti].addr == to,
            pre.accounts@[fi].balance >= amount,
            pre.accounts@[ti].balance + amount <= u64::MAX,
            self.mints@ == pre.mints@,
            self.accounts@ == pre.accounts@.update(
                fi,
                TokenAccount { balance: (pre.accounts@[fi].balance - amount) as u64, ..pre.accounts@[fi] },
            ).update(
                ti,
                TokenAccount { balance: (pre.accounts@[ti].balance + amount) as u64, ..pre.accounts@[ti] },
            ),
        ensures
            self.wf(),
            pre.same_shape(self),
            self.balance_of(from) == pre.balance_of(from) - amount,
            self.balance_of(to) == pre.balance_of(to) + amount,
            forall|a: Address| a != from && a != to ==> self.balance_of(a) == pre.balance_of(a),
    {
        let mid = pre.accounts@.update(
            fi,
            TokenAccount { balance: (pre.accounts@[fi].balance - amount) as u64, ..pre.accounts@[fi] },
        );
        assert(pre.same_shape(self));
        assert(self.wf());
        assert forall|a: Address| #[trigger] self.balance_of(a) == pre.balance_of(a) + (if a == to {
            amount as int
        } else {
            0
        }) - (if a == from {
            amount as int
        } else {
            0
        }) by {
            let key = |t: TokenAccount| t.addr == a;
            let val = |t: TokenAccount| t.balance as int;
            lemma_sum_where_update(
                pre.accounts@,
                key,
                val,
                fi,
                TokenAccount { balance: (pre.accounts@[fi].balance - amount) as u64, ..pre.accounts@[fi] },
            );
            lemma_sum_where_update(
                mid,
                key,
                val,
                ti,
                TokenAccount { balance: (pre.accounts@[ti].balance + amount) as u64, ..pre.accounts@[ti] },
            );
            assert(mid[ti] == pre.accounts@[ti]);
        }
    }

    /// Why issuing new units would fail, or `None` where it succeeds; the
    /// checks run in this order.
    pub open spec fn mint_to_error(
        self,
        mint: Address,
        to: Address,
        authority: Address,
        amount: u64,
    ) -> Option<ErrorCode> {
        if !self.has_mint(mint) {
            Some(ErrorCode::AccountNotFound)
        } else if !self.has_account(to) {
            Some(ErrorCode::AccountNotFound)
        } else if self.mint_at(mint).authority != authority {
            Some(ErrorCode::Unauthorized)
        } else if self.account_at(to).mint != mint {
            Some(ErrorCode::AccountMismatch)
        } else if self.account_at(to).balance + amount > u64::MAX {
            Some(ErrorCode::ArithmeticOverflow)
        } else {
            None
        }
    }

    /// Decides, without issuing anything, whether `mint_to` would succeed,
    /// returning the error it would fail with.
    pub fn check_mint_to(&self, mint: Address, to: Address, authority: Address, amount: u64) -> (r:
        Result<(), ErrorCode>)
        requires
            self.wf(),
        ensures
            match r {
                Ok(()) => self.mint_to_error(mint, to, authority, amount) is None,
                Err(e) => self.mint_to_error(mint, to, authority, amount) == Some(e),
            },
    {
        let mi = match self.find_mint(mint) {
            Some(j) => j,
            None => {
                return Err(ErrorCode::AccountNotFound);
            },
        };
        let ti = match self.find_account(to) {
            Some(j) => j,
            None => {
                return Err(ErrorCode::AccountNotFound);
            },
        };
        proof {
            self.lemma_mint_index_is(mint, mi as int);
            self.lemma_account_index_is(to, ti as int);
        }
        if self.mints[mi].authority != authority {
            return Err(ErrorCode::Unauthorized);
        }
        if self.accounts[ti].mint != mint {
            return Err(ErrorCode::AccountMismatch);
        }
        if self.accounts[ti].balance.checked_add(amount).is_none() {
            return Err(ErrorCode::ArithmeticOverflow);
        }
        Ok(())
    }

    /// Issues `amount` new units of `mint` into `to`, authorized by the
    /// asset's issuing authority.
    ///
    /// Succeeds exactly when the mint and the account exist, the authority
    /// is the mint's, the account holds that asset, and its balance does not
    /// overflow; then only that balance changes. On any error nothing
    /// changes.
    pub fn mint_to(&mut self, mint: Address, to: Address, authority: Address, amount: u64) -> (r:
        Result<(), ErrorCode>)
        requires
            old(self).wf(),
        ensures
            final(self).wf(),
            match r {
                Ok(()) => {
                    &&& old(self).mint_to_error(mint, to, authority, amount) is None
                    &&& old(self).same_shape(*final(self))
                    &&& final(self).balance_of(to) == old(self).balance_of(to) + amount
                    &&& forall|a: Address|
                        a != to ==> final(self).balance_of(a) == old(self).balance_of(a)
                },
                Err(e) => {
                    &&& old(self).mint_to_error(mint, to, authority, amount) == Some(e)
                    &&& *final(self) == *old(self)
                },
            },
    {
        let mi = match self.find_mint(mint) {
            Some(j) => j,
            None => {
                return Err(ErrorCode::AccountNotFound);
            },
        };
        let ti = match self.find_account(to) {
            Some(j) => j,
            None => {
                return Err(ErrorCode::AccountNotFound);
            },
        };
        proof {
            self.lemma_mint_index_is(mint, mi as int);
            self.lemma_account_index_is(to, ti as int);
        }
        if self.mints[mi].authority != authority {
            return Err(ErrorCode::Unauthorized);
        }
        if self.accounts[ti].mint != mint {
            return Err(ErrorCode::AccountMismatch);
        }
        match self.accounts[ti].balance.checked_add(amount) {
            None => Err(ErrorCode::ArithmeticOverflow),
            Some(nb) => {
                self.accounts[ti].balance = nb;
                proof {
                    let key = |t: TokenAccount| t.addr == to;
                    let val = |t: TokenAccount| t.balance as int;
                    assert(old(self).same_shape(*self));
                    assert forall|a: Address|
                        a != to implies self.balance_of(a) == old(self).balance_of(a) by {
                        lemma_sum_where_update(
                            old(self).accounts@,
                            |t: TokenAccount| t.addr == a,
                            |t: TokenAccount| t.balance as int,
                            ti as int,
                            TokenAccount { balance: nb, ..old(self).accounts@[ti as int] },
                        );
                    }
                    lemma_sum_where_update(
                        old(self).accounts@,
                        key,
                        val,
                        ti as int,
                        TokenAccount { balance: nb, ..old(self).accounts@[ti as int] },
                    );
                }
                Ok(())
            },
        }
    }
}

} // verus!
