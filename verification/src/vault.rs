//! The vault controller: the lifecycle state machine and the entry points
//! that mutate the accounting state.
//!
//! A vault collects deposits from many principals toward a capital target
//! while in the `Funding` phase, records the borrower's repayments, and pays
//! each depositor their pro-rata share of repaid capital through
//! [`crate::claim_calculator::calculate_claimable_amount`]. The durable state
//! is held as plain fields; its mathematical model is [`VaultView`], and the
//! well-formedness every operation preserves is [`Vault::wf`].

use vstd::prelude::*;
use vstd::arithmetic::mul::lemma_mul_nonnegative;
use vstd::arithmetic::mul::lemma_mul_inequality;
use crate::errors::Error;
use crate::store::AmountMap;
use crate::store::read;

verus! {

/// The lifecycle phase of a vault.
///
/// The full intended state space is declared here, though this core only
/// ever assigns `Funding` (at initialization): no operation advances the
/// phase, so the remaining transitions belong to the surrounding system.
#[derive(Clone, Copy, Debug, PartialEq, Eq, Structural)]
pub enum VaultState {
    Funding,
    Funded,
    Repayment,
    Claimable,
    Closed,
}

impl VaultState {
    /// The short symbol under which a phase is recorded.
    pub open spec fn symbol(self) -> Seq<char> {
        match self {
            VaultState::Funding => "funding"@,
            VaultState::Funded => "funded"@,
            VaultState::Repayment => "repay"@,
            VaultState::Claimable => "claim"@,
            VaultState::Closed => "closed"@,
        }
    }

    /// Whether `s` is the symbol of some phase.
    pub open spec fn is_state_symbol(s: Seq<char>) -> bool {
        ||| s == "funding"@
        ||| s == "funded"@
        ||| s == "repay"@
        ||| s == "claim"@
        ||| s == "closed"@
    }

    /// The symbol of this phase.
    pub fn to_symbol(&self) -> (r: String)
        ensures
            r@ == self.symbol(),
    {
        match self {
            VaultState::Funding => "funding".to_owned(),
            VaultState::Funded => "funded".to_owned(),
            VaultState::Repayment => "repay".to_owned(),
            VaultState::Claimable => "claim".to_owned(),
            VaultState::Closed => "closed".to_owned(),
        }
    }

    /// The phase a symbol denotes.
    pub fn from_symbol(sym: &String) -> (r: VaultState)
        requires
            Self::is_state_symbol(sym@),
        ensures
            r.symbol() == sym@,
            sym@ == "funding"@ ==> r == VaultState::Funding,
            sym@ == "funded"@ ==> r == VaultState::Funded,
            sym@ == "repay"@ ==> r == VaultState::Repayment,
            sym@ == "claim"@ ==> r == VaultState::Claimable,
            sym@ == "closed"@ ==> r == VaultState::Closed,
    {
        proof {
            reveal_strlit("funding");
            reveal_strlit("funded");
            reveal_strlit("repay");
            reveal_strlit("claim");
            reveal_strlit("closed");
            assert(!("funding"@ =~= "funded"@));
            assert(!("funding"@ =~= "repay"@));
            assert(!("funding"@ =~= "claim"@));
            assert(!("funding"@ =~= "closed"@));
            assert(!("funded"@ =~= "repay"@));
            assert(!("funded"@ =~= "claim"@));
            assert("funded"@[0] == 'f' && "closed"@[0] == 'c');
            assert("funded"@ != "closed"@);
            assert("repay"@[0] == 'r' && "claim"@[0] == 'c');
            assert("repay"@ != "claim"@);
            assert(!("repay"@ =~= "closed"@));
            assert(!("claim"@ =~= "closed"@));
        }
        let funding = "funding".to_owned();
        let funded = "funded".to_owned();
        let repay = "repay".to_owned();
        let claim = "claim".to_owned();
        if *sym == funding {
            VaultState::Funding
        } else if *sym == funded {
            VaultState::Funded
        } else if *sym == repay {
            VaultState::Repayment
        } else if *sym == claim {
            VaultState::Claimable
        } else {
            VaultState::Closed
        }
    }
}

/// The mathematical model of a vault's durable state.
#[verifier::ext_equal]
pub ghost struct VaultView {
    pub initialized: bool,
    pub admin: u64,
    pub borrower: u64,
    pub token: u64,
    pub share_token: u64,
    pub cap: i128,
    pub installment_dates: Seq<u64>,
    pub installment_amounts: Seq<i128>,
    pub funding_duration: u64,
    pub raised: int,
    pub repaid: int,
    pub state: VaultState,
    pub deposits: Map<u64, int>,
    pub claimed: Map<u64, int>,
}

/// No claim has been settled for any principal.
pub open spec fn no_claims(v: VaultView) -> bool {
    forall|p: u64| read(v.claimed, p) == 0
}

/// The integer form of the pro-rata bound: no principal has been paid more
/// than the floor of their proportional entitlement,
/// `claimed[p] <= deposits[p] * repaid / raised`.
pub open spec fn claim_bound(v: VaultView) -> bool {
    forall|p: u64|
        #[trigger] read(v.claimed, p) * v.raised <= read(v.deposits, p) * v.repaid
}

/// The structural invariant of the model: totals and per-principal records
/// are non-negative, the installment schedule's two sequences agree in
/// length, nothing is claimed while nothing is raised, and an instance not
/// yet initialized holds only the empty state.
pub open spec fn inv(v: VaultView) -> bool {
    &&& v.raised >= 0
    &&& v.repaid >= 0
    &&& forall|p: u64| #[trigger] read(v.deposits, p) >= 0
    &&& forall|p: u64| #[trigger] read(v.claimed, p) >= 0
    &&& v.installment_dates.len() == v.installment_amounts.len()
    &&& (v.raised == 0 ==> no_claims(v))
    &&& (!v.initialized ==> v.raised == 0 && v.repaid == 0
        && v.deposits == Map::<u64, int>::empty() && v.claimed == Map::<u64, int>::empty()
        && v.state == VaultState::Funding)
}

/// The pooled-funding vault: a capital target, two running totals, the
/// installment schedule, the lifecycle phase, and the two per-principal
/// records that the pro-rata distribution is computed from.
pub struct Vault {
    pub initialized: bool,
    pub admin: u64,
    pub borrower: u64,
    pub token: u64,
    pub share_token: u64,
    pub cap: i128,
    pub installment_dates: Vec<u64>,
    pub installment_amounts: Vec<i128>,
    pub funding_duration: u64,
    pub raised: i128,
    pub repaid: i128,
    pub state: VaultState,
    pub deposits: AmountMap,
    pub claimed: AmountMap,
}

impl View for Vault {
    type V = VaultView;

    open spec fn view(&self) -> VaultView {
        VaultView {
            initialized: self.initialized,
            admin: self.admin,
            borrower: self.borrower,
            token: self.token,
            share_token: self.share_token,
            cap: self.cap,
            installment_dates: self.installment_dates@,
            installment_amounts: self.installment_amounts@,
            funding_duration: self.funding_duration,
            raised: self.raised as int,
            repaid: self.repaid as int,
            state: self.state,
            deposits: self.deposits@,
            claimed: self.claimed@,
        }
    }
}

impl Vault {
    /// Well-formedness: the model invariant holds, the two per-principal
    /// containers are key-unique, and `raised` is exactly the sum of all
    /// recorded deposits.
    pub open spec fn wf(&self) -> bool {
        &&& self.deposits.wf()
        &&& self.claimed.wf()
        &&& inv(self@)
        &&& self.raised as int == self.deposits.sum()
    }

    /// A vault that has not been initialized: every field empty or zero.
    pub fn new() -> (v: Vault)
        ensures
            v.wf(),
            !v@.initialized,
            v@.raised == 0,
            v@.repaid == 0,
            v@.state == VaultState::Funding,
            v@.deposits == Map::<u64, int>::empty(),
            v@.claimed == Map::<u64, int>::empty(),
    {
        Vault {
            initialized: false,
            admin: 0,
            borrower: 0,
            token: 0,
            share_token: 0,
            cap: 0,
            installment_dates: Vec::new(),
            installment_amounts: Vec::new(),
            funding_duration: 0,
            raised: 0,
            repaid: 0,
            state: VaultState::Funding,
            deposits: AmountMap::new(),
            claimed: AmountMap::new(),
        }
    }

    /// Sets up the vault exactly once: records the principals, the target,
    /// the installment schedule and the funding window, and starts the
    /// lifecycle in `Funding` with nothing raised, repaid or claimed.
    ///
    /// Fails with `AlreadyInitialized` on a second call and with
    /// `ScheduleMismatch` when the two schedule sequences differ in length;
    /// on failure no state is written.
    pub fn initialize(
        &mut self,
        admin: u64,
        borrower: u64,
        token: u64,
        share_token: u64,
        cap: i128,
        installment_dates: Vec<u64>,
        installment_amounts: Vec<i128>,
        funding_duration: u64,
    ) -> (r: Result<(), Error>)
        requires
            old(self).wf(),
        ensures
            final(self).wf(),
            old(self)@.initialized ==> r == Err::<(), Error>(Error::AlreadyInitialized)
                && final(self)@ == old(self)@,
            !old(self)@.initialized && installment_dates@.len() != installment_amounts@.len()
                ==> r == Err::<(), Error>(Error::ScheduleMismatch) && final(self)@ == old(self)@,
            !old(self)@.initialized && installment_dates@.len() == installment_amounts@.len() ==> {
                &&& r == Ok::<(), Error>(())
                &&& final(self)@ == (VaultView {
                    initialized: true,
                    admin,
                    borrower,
                    token,
                    share_token,
                    cap,
                    installment_dates: installment_dates@,
                    installment_amounts: installment_amounts@,
                    funding_duration,
                    raised: 0,
                    repaid: 0,
                    state: VaultState::Funding,
                    deposits: Map::<u64, int>::empty(),
                    claimed: Map::<u64, int>::empty(),
                })
                &&& no_claims(final(self)@)
                &&& claim_bound(final(self)@)
            },
    {
        if self.initialized {
            return Err(Error::AlreadyInitialized);
        }
        if installment_dates.len() != installment_amounts.len() {
            return Err(Error::ScheduleMismatch);
        }
        self.admin = admin;
        self.borrower = borrower;
        self.token = token;
        self.share_token = share_token;
        self.cap = cap;
        self.installment_dates = installment_dates;
        self.installment_amounts = installment_amounts;
        self.funding_duration = funding_duration;
        self.raised = 0;
        self.repaid = 0;
        self.state = VaultState::Funding;
        self.deposits = AmountMap::new();
        self.claimed = AmountMap::new();
        self.initialized = true;
        proof {
            lemma_claim_bound_from_inv(self@);
        }
        Ok(())
    }

    /// Adds `amount` to the caller's cumulative deposit and to the raised
    /// total. Allowed only while the vault is in the `Funding` phase; fails
    /// with `WrongPhase` in any other phase, writing nothing. The capital
    /// target `cap` is recorded but deliberately not enforced here: a
    /// deposit may raise past it.
    ///
    /// Repeated deposits never decrease `raised` nor any recorded deposit,
    /// and a deposit made before any claim has been settled preserves the
    /// pro-rata claim bound.
    pub fn deposit(&mut self, from: u64, amount: i128) -> (r: Result<(), Error>)
        requires
            old(self).wf(),
            old(self)@.initialized,
            0 <= amount,
            old(self)@.raised + amount <= i128::MAX,
        ensures
            final(self).wf(),
            old(self)@.state != VaultState::Funding ==> r == Err::<(), Error>(Error::WrongPhase)
                && final(self)@ == old(self)@,
            old(self)@.state == VaultState::Funding ==> {
                &&& r == Ok::<(), Error>(())
                &&& final(self)@ == (VaultView {
                    raised: old(self)@.raised + amount,
                    deposits: old(self)@.deposits.insert(
                        from,
                        read(old(self)@.deposits, from) + amount,
                    ),
                    ..old(self)@
                })
            },
            final(self)@.raised >= old(self)@.raised,
            forall|p: u64|
                #[trigger] read(final(self)@.deposits, p) >= read(old(self)@.deposits, p),
            final(self)@.repaid == old(self)@.repaid,
            final(self)@.claimed == old(self)@.claimed,
            claim_bound(old(self)@) && no_claims(old(self)@) ==> claim_bound(final(self)@),
    {
        if self.state != VaultState::Funding {
            return Err(Error::WrongPhase);
        }
        let current = self.deposits.get_or_zero(from);
        proof {
            self.deposits.lemma_read_le_sum(from);
        }
        self.deposits.set(from, current + amount);
        self.raised = self.raised + amount;
        proof {
            assert forall|p: u64| #[trigger] read(self@.deposits, p) >= 0 by {
                if p == from {
                    assert(read(old(self)@.deposits, from) >= 0);
                    assert(read(self@.deposits, from) == read(old(self)@.deposits, from) + amount);
                } else {
                    assert(read(self@.deposits, p) == read(old(self)@.deposits, p));
                    assert(read(old(self)@.deposits, p) >= 0);
                }
            }
            assert forall|p: u64| #[trigger] read(self@.claimed, p) >= 0 by {
                assert(read(old(self)@.claimed, p) >= 0);
            }
            if self@.raised == 0 {
                assert forall|p: u64| #[trigger] read(self@.claimed, p) == 0 by {
                    assert(read(old(self)@.claimed, p) == 0);
                }
            }
            if claim_bound(old(self)@) && no_claims(old(self)@) {
                assert forall|p: u64| #[trigger] read(self@.claimed, p) == 0 by {
                    assert(read(old(self)@.claimed, p) == 0);
                }
                lemma_claim_bound_from_inv(self@);
            }
        }
        Ok(())
    }

    /// Adds `amount` to the repaid total. Only the borrower recorded at
    /// initialization may repay; any other payer fails with `NotAuthorized`
    /// and nothing is written. No phase is demanded: the borrower may repay
    /// in any phase.
    ///
    /// Repeated repayments never decrease `repaid`, and repaying preserves
    /// the pro-rata claim bound.
    pub fn repay(&mut self, from: u64, amount: i128) -> (r: Result<(), Error>)
        requires
            old(self).wf(),
            old(self)@.initialized,
            0 <= amount,
            old(self)@.repaid + amount <= i128::MAX,
        ensures
            final(self).wf(),
            from != old(self)@.borrower ==> r == Err::<(), Error>(Error::NotAuthorized)
                && final(self)@ == old(self)@,
            from == old(self)@.borrower ==> r == Ok::<(), Error>(())
                && final(self)@ == (VaultView { repaid: old(self)@.repaid + amount, ..old(self)@ }),
            final(self)@.repaid >= old(self)@.repaid,
            final(self)@.raised == old(self)@.raised,
            final(self)@.deposits == old(self)@.deposits,
            final(self)@.claimed == old(self)@.claimed,
            claim_bound(old(self)@) ==> claim_bound(final(self)@),
    {
        if from != self.borrower {
            return Err(Error::NotAuthorized);
        }
        self.repaid = self.repaid + amount;
        proof {
            if claim_bound(old(self)@) {
                assert forall|p: u64|
                    #[trigger] read(self@.claimed, p) * self@.raised
                        <= read(self@.deposits, p) * self@.repaid by {
                    lemma_mul_inequality(old(self)@.repaid, self@.repaid, read(self@.deposits, p));
                }
            }
        }
        Ok(())
    }

    /// Settles and returns the amount newly claimable by `user` since their
    /// last claim; see [`crate::claim_calculator::calculate_claimable_amount`]
    /// for the computation and its guarantees.
    pub fn claim(&mut self, user: u64) -> (r: i128)
        requires
            old(self).wf(),
            read(old(self)@.deposits, user) * old(self)@.repaid <= i128::MAX,
        ensures
            final(self).wf(),
            r >= 0,
            final(self)@ == crate::claim_calculator::claim_step(old(self)@, user).0,
            r as int == crate::claim_calculator::claim_step(old(self)@, user).1,
            read(old(self)@.deposits, user) == 0 || old(self)@.raised == 0
                || old(self)@.repaid == 0 ==> r == 0 && final(self)@ == old(self)@,
            claim_bound(old(self)@) ==> claim_bound(final(self)@),
    {
        crate::claim_calculator::calculate_claimable_amount(self, user)
    }

    /// The read-only projection `(state, raised, repaid)`.
    pub fn get_vault_info(&self) -> (r: (VaultState, i128, i128))
        ensures
            r.0 == self@.state,
            r.1 as int == self@.raised,
            r.2 as int == self@.repaid,
    {
        (self.state, self.raised, self.repaid)
    }
}

/// Under the structural invariant, a vault in which nothing is claimed while
/// nothing is raised and every record is non-negative satisfies the pro-rata
/// claim bound as soon as nothing has been claimed at all — in particular a
/// freshly initialized vault.
proof fn lemma_claim_bound_from_inv(v: VaultView)
    requires
        inv(v),
        no_claims(v),
    ensures
        claim_bound(v),
{
    assert forall|p: u64|
        #[trigger] read(v.claimed, p) * v.raised <= read(v.deposits, p) * v.repaid by {
        assert(read(v.claimed, p) == 0);
        assert(read(v.deposits, p) >= 0);
        lemma_mul_nonnegative(read(v.deposits, p), v.repaid);
        assert(read(v.claimed, p) * v.raised == 0);
        assert(read(v.deposits, p) * v.repaid >= 0);
    }
}

} // verus!
