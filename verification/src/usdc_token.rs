//! The asset ledger: a conventional balance/allowance token.
//!
//! The vault records this ledger's address and leaves the actual movement of
//! value to it. Authorization by the host environment ("the transaction is
//! signed by principal X") is modeled as an explicit `caller` argument that
//! must equal the principal whose funds or rights the operation exercises.

use vstd::prelude::*;
use crate::errors::Error;
use crate::store::AllowanceMap;
use crate::store::AmountMap;
use crate::store::read;

verus! {

/// The mathematical model of the asset ledger's state.
#[verifier::ext_equal]
pub ghost struct UsdcTokenView {
    pub initialized: bool,
    pub admin: u64,
    pub name: Seq<char>,
    pub symbol: Seq<char>,
    pub decimals: u32,
    pub balances: Map<u64, int>,
    pub allowances: Map<(u64, u64), int>,
}

/// Every balance is non-negative.
pub open spec fn usdc_inv(v: UsdcTokenView) -> bool {
    forall|p: u64| #[trigger] read(v.balances, p) >= 0
}

/// The asset ledger.
pub struct UsdcToken {
    pub initialized: bool,
    pub admin: u64,
    pub name: String,
    pub symbol: String,
    pub decimals: u32,
    pub balances: AmountMap,
    pub allowances: AllowanceMap,
}

impl View for UsdcToken {
    type V = UsdcTokenView;

    open spec fn view(&self) -> UsdcTokenView {
        UsdcTokenView {
            initialized: self.initialized,
            admin: self.admin,
            name: self.name@,
            symbol: self.symbol@,
            decimals: self.decimals,
            balances: self.balances@,
            allowances: self.allowances@,
        }
    }
}

impl UsdcToken {
    /// Well-formedness: key-unique containers, non-negative balances, and a
    /// circulating total within the amount type's range.
    pub open spec fn wf(&self) -> bool {
        &&& self.balances.wf()
        &&& self.allowances.wf()
        &&& usdc_inv(self@)
        &&& self.balances.sum() <= i128::MAX
    }

    /// A ledger that has not been initialized: every field empty or zero.
    pub fn new() -> (t: UsdcToken)
        ensures
            t.wf(),
            !t@.initialized,
            t@.balances == Map::<u64, int>::empty(),
            t@.allowances == Map::<(u64, u64), int>::empty(),
    {
        UsdcToken {
            initialized: false,
            admin: 0,
            name: String::new(),
            symbol: String::new(),
            decimals: 0,
            balances: AmountMap::new(),
            allowances: AllowanceMap::new(),
        }
    }

    /// Records the administrator and the token metadata exactly once, with
    /// empty balance and allowance ledgers. Fails with `AlreadyInitialized`
    /// on a second call, writing nothing.
    pub fn initialize(
        &mut self,
        admin: u64,
        name: String,
        symbol: String,
        decimals: u32,
    ) -> (r: Result<(), Error>)
        requires
            old(self).wf(),
        ensures
            final(self).wf(),
            old(self)@.initialized ==> r == Err::<(), Error>(Error::AlreadyInitialized)
                && final(self)@ == old(self)@,
            !old(self)@.initialized ==> {
                &&& r == Ok::<(), Error>(())
                &&& final(self)@ == (UsdcTokenView {
                    initialized: true,
                    admin,
                    name: name@,
                    symbol: symbol@,
                    decimals,
                    balances: Map::<u64, int>::empty(),
                    allowances: Map::<(u64, u64), int>::empty(),
                })
            },
    {
        if self.initialized {
            return Err(Error::AlreadyInitialized);
        }
        self.admin = admin;
        self.name = name;
        self.symbol = symbol;
        self.decimals = decimals;
        self.balances = AmountMap::new();
        self.allowances = AllowanceMap::new();
        self.initialized = true;
        Ok(())
    }

    /// Creates `amount` new units on `to`'s balance. Only the administrator
    /// may mint; any other caller fails with `NotAuthorized` and nothing is
    /// written.
    pub fn mint(&mut self, caller: u64, to: u64, amount: i128) -> (r: Result<(), Error>)
        requires
            old(self).wf(),
            old(self)@.initialized,
            0 <= amount,
            old(self).balances.sum() + amount <= i128::MAX,
        ensures
            final(self).wf(),
            caller != old(self)@.admin ==> r == Err::<(), Error>(Error::NotAuthorized)
                && final(self)@ == old(self)@,
            caller == old(self)@.admin ==> r == Ok::<(), Error>(())
                && final(self)@ == (UsdcTokenView {
                    balances: old(self)@.balances.insert(
                        to,
                        read(old(self)@.balances, to) + amount,
                    ),
                    ..old(self)@
                }),
    {
        if caller != self.admin {
            return Err(Error::NotAuthorized);
        }
        let balance = self.balances.get_or_zero(to);
        proof {
            self.balances.lemma_read_le_sum(to);
        }
        self.balances.set(to, balance + amount);
        proof {
            lemma_nonneg_after_credit(old(self)@.balances, self@.balances, to, amount as int);
        }
        Ok(())
    }

    /// Moves `amount` from `from` to `to`. Only `from` may spend their own
    /// balance; fails with `NotAuthorized` for any other caller and with
    /// `InsufficientBalance` when the balance does not cover `amount`, in
    /// both cases writing nothing.
    pub fn transfer(&mut self, caller: u64, from: u64, to: u64, amount: i128) -> (r: Result<
        (),
        Error,
    >)
        requires
            old(self).wf(),
            old(self)@.initialized,
            0 <= amount,
        ensures
            final(self).wf(),
            caller != from ==> r == Err::<(), Error>(Error::NotAuthorized)
                && final(self)@ == old(self)@,
            caller == from && read(old(self)@.balances, from) < amount ==> r == Err::<(), Error>(
                Error::InsufficientBalance,
            ) && final(self)@ == old(self)@,
            caller == from && read(old(self)@.balances, from) >= amount ==> r == Ok::<(), Error>(())
                && final(self)@ == (UsdcTokenView {
                    balances: moved(old(self)@.balances, from, to, amount as int),
                    ..old(self)@
                }),
    {
        if caller != from {
            return Err(Error::NotAuthorized);
        }
        let from_balance = self.balances.get_or_zero(from);
        if from_balance < amount {
            return Err(Error::InsufficientBalance);
        }
        self.balances.set(from, from_balance - amount);
        proof {
            lemma_nonneg_after_debit(old(self)@.balances, self@.balances, from, amount as int);
            self.balances.lemma_read_le_sum(to);
        }
        let to_balance = self.balances.get_or_zero(to);
        self.balances.set(to, to_balance + amount);
        proof {
            lemma_nonneg_after_credit(
                old(self)@.balances.insert(from, read(old(self)@.balances, from) - amount),
                self@.balances,
                to,
                amount as int,
            );
        }
        Ok(())
    }

    /// Sets the allowance that `spender` may later move out of `owner`'s
    /// balance. Only `owner` may grant it; any other caller fails with
    /// `NotAuthorized` and nothing is written.
    pub fn approve(&mut self, caller: u64, owner: u64, spender: u64, amount: i128) -> (r: Result<
        (),
        Error,
    >)
        requires
            old(self).wf(),
            old(self)@.initialized,
        ensures
            final(self).wf(),
            caller != owner ==> r == Err::<(), Error>(Error::NotAuthorized)
                && final(self)@ == old(self)@,
            caller == owner ==> r == Ok::<(), Error>(())
                && final(self)@ == (UsdcTokenView {
                    allowances: old(self)@.allowances.insert((owner, spender), amount as int),
                    ..old(self)@
                }),
    {
        if caller != owner {
            return Err(Error::NotAuthorized);
        }
        self.allowances.set(owner, spender, amount);
        Ok(())
    }

    /// Moves `amount` from `from` to `to` on `spender`'s authority, burning
    /// that much of the allowance `from` granted `spender`. Only `spender`
    /// may exercise it; fails with `NotAuthorized` for any other caller,
    /// with `InsufficientAllowance` when the allowance does not cover
    /// `amount`, and with `InsufficientBalance` when `from`'s balance does
    /// not, in each case writing nothing.
    pub fn transfer_from(
        &mut self,
        caller: u64,
        spender: u64,
        from: u64,
        to: u64,
        amount: i128,
    ) -> (r: Result<(), Error>)
        requires
            old(self).wf(),
            old(self)@.initialized,
            0 <= amount,
        ensures
            final(self).wf(),
            caller != spender ==> r == Err::<(), Error>(Error::NotAuthorized)
                && final(self)@ == old(self)@,
            caller == spender && read(old(self)@.allowances, (from, spender)) < amount ==> r
                == Err::<(), Error>(Error::InsufficientAllowance) && final(self)@ == old(self)@,
            caller == spender && read(old(self)@.allowances, (from, spender)) >= amount && read(
                old(self)@.balances,
                from,
            ) < amount ==> r == Err::<(), Error>(Error::InsufficientBalance)
                && final(self)@ == old(self)@,
            caller == spender && read(old(self)@.allowances, (from, spender)) >= amount && read(
                old(self)@.balances,
                from,
            ) >= amount ==> r == Ok::<(), Error>(())
                && final(self)@ == (UsdcTokenView {
                    balances: moved(old(self)@.balances, from, to, amount as int),
                    allowances: old(self)@.allowances.insert(
                        (from, spender),
                        read(old(self)@.allowances, (from, spender)) - amount,
                    ),
                    ..old(self)@
                }),
    {
        if caller != spender {
            return Err(Error::NotAuthorized);
        }
        let allowance = self.allowances.get_or_zero(from, spender);
        if allowance < amount {
            return Err(Error::InsufficientAllowance);
        }
        let from_balance = self.balances.get_or_zero(from);
        if from_balance < amount {
            return Err(Error::InsufficientBalance);
        }
        self.allowances.set(from, spender, allowance - amount);
        self.balances.set(from, from_balance - amount);
        proof {
            lemma_nonneg_after_debit(old(self)@.balances, self@.balances, from, amount as int);
            self.balances.lemma_read_le_sum(to);
        }
        let to_balance = self.balances.get_or_zero(to);
        self.balances.set(to, to_balance + amount);
        proof {
            lemma_nonneg_after_credit(
                old(self)@.balances.insert(from, read(old(self)@.balances, from) - amount),
                self@.balances,
                to,
                amount as int,
            );
        }
        Ok(())
    }

    /// The balance held by `user`, zero when none has been recorded.
    pub fn balance(&self, user: u64) -> (r: i128)
        requires
            self.wf(),
            self@.initialized,
        ensures
            r as int == read(self@.balances, user),
    {
        self.balances.get_or_zero(user)
    }
}

/// A balance map after a debit followed by a credit of the same amount:
/// `from` loses `amount`, then `to` gains it back. With `from == to` the two
/// cancel out.
pub open spec fn moved(balances: Map<u64, int>, from: u64, to: u64, amount: int) -> Map<u64, int> {
    let debited = balances.insert(from, read(balances, from) - amount);
    debited.insert(to, read(debited, to) + amount)
}

/// Crediting a non-negative amount to one key of an everywhere-non-negative
/// balance map keeps every balance non-negative.
proof fn lemma_nonneg_after_credit(before: Map<u64, int>, after: Map<u64, int>, to: u64, amount: int)
    requires
        forall|p: u64| #[trigger] read(before, p) >= 0,
        after == before.insert(to, read(before, to) + amount),
        amount >= 0,
    ensures
        forall|p: u64| #[trigger] read(after, p) >= 0,
{
    assert forall|p: u64| #[trigger] read(after, p) >= 0 by {
        assert(read(before, p) >= 0);
    }
}

/// Debiting a covered amount from one key of an everywhere-non-negative
/// balance map keeps every balance non-negative.
proof fn lemma_nonneg_after_debit(
    before: Map<u64, int>,
    after: Map<u64, int>,
    from: u64,
    amount: int,
)
    requires
        forall|p: u64| #[trigger] read(before, p) >= 0,
        after == before.insert(from, read(before, from) - amount),
        read(before, from) >= amount,
    ensures
        forall|p: u64| #[trigger] read(after, p) >= 0,
{
    assert forall|p: u64| #[trigger] read(after, p) >= 0 by {
        assert(read(before, p) >= 0);
    }
}

} // verus!
