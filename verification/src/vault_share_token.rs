//! The share ledger: a mint/burn token whose balances stand for tokenized
//! claims on the vault.
//!
//! The vault records this ledger's address and never calls it itself; the
//! surrounding system mints shares against deposits and burns them against
//! claims. Authorization by the host environment is modeled as an explicit
//! `caller` argument that must equal the administrator.

use vstd::prelude::*;
use crate::errors::Error;
use crate::store::AmountMap;
use crate::store::read;

verus! {

/// The mathematical model of the share ledger's state.
#[verifier::ext_equal]
pub ghost struct VaultShareTokenView {
    pub initialized: bool,
    pub admin: u64,
    pub name: Seq<char>,
    pub symbol: Seq<char>,
    pub decimals: u32,
    pub balances: Map<u64, int>,
}

/// Every share balance is non-negative.
pub open spec fn share_inv(v: VaultShareTokenView) -> bool {
    forall|p: u64| #[trigger] read(v.balances, p) >= 0
}

/// The share ledger.
pub struct VaultShareToken {
    pub initialized: bool,
    pub admin: u64,
    pub name: String,
    pub symbol: String,
    pub decimals: u32,
    pub balances: AmountMap,
}

impl View for VaultShareToken {
    type V = VaultShareTokenView;

    open spec fn view(&self) -> VaultShareTokenView {
        VaultShareTokenView {
            initialized: self.initialized,
            admin: self.admin,
            name: self.name@,
            symbol: self.symbol@,
            decimals: self.decimals,
            balances: self.balances@,
        }
    }
}

impl VaultShareToken {
    /// Well-formedness: a key-unique balance container, non-negative
    /// balances, and a circulating total within the amount type's range.
    pub open spec fn wf(&self) -> bool {
        &&& self.balances.wf()
        &&& share_inv(self@)
        &&& self.balances.sum() <= i128::MAX
    }

    /// A ledger that has not been initialized: every field empty or zero.
    pub fn new() -> (t: VaultShareToken)
        ensures
            t.wf(),
            !t@.initialized,
            t@.balances == Map::<u64, int>::empty(),
    {
        VaultShareToken {
            initialized: false,
            admin: 0,
            name: String::new(),
            symbol: String::new(),
            decimals: 0,
            balances: AmountMap::new(),
        }
    }

    /// Records the administrator and the token metadata exactly once, with
    /// an empty balance ledger. Fails with `AlreadyInitialized` on a second
    /// call, writing nothing.
    pub fn initialize(
        &mut self,
        admin: u64,
        name: String,
        symbol: String,
        decimals: u32,
    ) -> (r: Result<(), Error>)
        requires
            old(self).wf(),
        ensures
            final(self).wf(),
            old(self)@.initialized ==> r == Err::<(), Error>(Error::AlreadyInitialized)
                && final(self)@ == old(self)@,
            !old(self)@.initialized ==> {
                &&& r == Ok::<(), Error>(())
                &&& final(self)@ == (VaultShareTokenView {
                    initialized: true,
                    admin,
                    name: name@,
                    symbol: symbol@,
                    decimals,
                    balances: Map::<u64, int>::empty(),
                })
            },
    {
        if self.initialized {
            return Err(Error::AlreadyInitialized);
        }
        self.admin = admin;
        self.name = name;
        self.symbol = symbol;
        self.decimals = decimals;
        self.balances = AmountMap::new();
        self.initialized = true;
        Ok(())
    }

    /// Creates `amount` new shares on `to`'s balance. Only the administrator
    /// may mint; any other caller fails with `NotAuthorized` and nothing is
    /// written.
    pub fn mint(&mut self, caller: u64, to: u64, amount: i128) -> (r: Result<(), Error>)
        requires
            old(self).wf(),
            old(self)@.initialized,
            0 <= amount,
            old(self).balances.sum() + amount <= i128::MAX,
        ensures
            final(self).wf(),
            caller != old(self)@.admin ==> r == Err::<(), Error>(Error::NotAuthorized)
                && final(self)@ == old(self)@,
            caller == old(self)@.admin ==> r == Ok::<(), Error>(())
                && final(self)@ == (VaultShareTokenView {
                    balances: old(self)@.balances.insert(
                        to,
                        read(old(self)@.balances, to) + amount,
                    ),
                    ..old(self)@
                }),
    {
        if caller != self.admin {
            return Err(Error::NotAuthorized);
        }
        let current = self.balances.get_or_zero(to);
        proof {
            self.balances.lemma_read_le_sum(to);
        }
        self.balances.set(to, current + amount);
        proof {
            assert forall|p: u64| #[trigger] read(self@.balances, p) >= 0 by {
                assert(read(old(self)@.balances, p) >= 0);
            }
        }
        Ok(())
    }

    /// Destroys `amount` shares from `from`'s balance. Only the
    /// administrator may burn; any other caller fails with `NotAuthorized`,
    /// and a balance that does not cover `amount` fails with
    /// `InsufficientBalance`, in both cases writing nothing.
    pub fn burn(&mut self, caller: u64, from: u64, amount: i128) -> (r: Result<(), Error>)
        requires
            old(self).wf(),
            old(self)@.initialized,
            0 <= amount,
        ensures
            final(self).wf(),
            caller != old(self)@.admin ==> r == Err::<(), Error>(Error::NotAuthorized)
                && final(self)@ == old(self)@,
            caller == old(self)@.admin && read(old(self)@.balances, from) < amount ==> r
                == Err::<(), Error>(Error::InsufficientBalance) && final(self)@ == old(self)@,
            caller == old(self)@.admin && read(old(self)@.balances, from) >= amount ==> r
                == Ok::<(), Error>(())
                && final(self)@ == (VaultShareTokenView {
                    balances: old(self)@.balances.insert(
                        from,
                        read(old(self)@.balances, from) - amount,
                    ),
                    ..old(self)@
                }),
    {
        if caller != self.admin {
            return Err(Error::NotAuthorized);
        }
        let current = self.balances.get_or_zero(from);
        if current < amount {
            return Err(Error::InsufficientBalance);
        }
        proof {
            self.balances.lemma_read_le_sum(from);
        }
        self.balances.set(from, current - amount);
        proof {
            assert forall|p: u64| #[trigger] read(self@.balances, p) >= 0 by {
                assert(read(old(self)@.balances, p) >= 0);
            }
        }
        Ok(())
    }

    /// The share balance held by `user`, zero when none has been recorded.
    pub fn balance_of(&self, user: u64) -> (r: i128)
        requires
            self.wf(),
            self@.initialized,
        ensures
            r as int == read(self@.balances, user),
    {
        self.balances.get_or_zero(user)
    }

    /// The number of decimal places the share amounts are denominated in.
    pub fn decimals(&self) -> (r: u32)
        requires
            self@.initialized,
        ensures
            r == self@.decimals,
    {
        self.decimals
    }

    /// The token's name.
    pub fn name(&self) -> (r: String)
        requires
            self@.initialized,
        ensures
            r@ == self@.name,
    {
        self.name.clone()
    }

    /// The token's symbol.
    pub fn symbol(&self) -> (r: String)
        requires
            self@.initialized,
        ensures
            r@ == self@.symbol,
    {
        self.symbol.clone()
    }
}

} // verus!
