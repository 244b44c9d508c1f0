//! The claim calculator: for one principal, the amount newly claimable
//! since their last claim, and the atomic advance of their claim watermark.
//!
//! The entitlement is recomputed fresh on every call as
//! `floor(deposit * repaid / raised)` rather than accumulated incrementally,
//! so a principal who never claims accumulates entitlement silently and
//! receives it correctly whenever they do call.

use vstd::prelude::*;
use vstd::arithmetic::div_mod::lemma_div_basics_4;
use vstd::arithmetic::div_mod::lemma_div_basics_5;
use vstd::arithmetic::div_mod::lemma_fundamental_div_mod;
use vstd::arithmetic::div_mod::lemma_mod_bound;
use vstd::arithmetic::mul::lemma_mul_nonnegative;
use crate::store::read;
use crate::vault::Vault;
use crate::vault::VaultView;
use crate::vault::claim_bound;

verus! {

/// A principal's entire proportional entitlement to repaid capital to date:
/// `floor(deposit * repaid / raised)`, and zero whenever their deposit, the
/// raised total or the repaid total is zero.
pub open spec fn total_claimable_of(deposit: int, raised: int, repaid: int) -> int {
    if deposit == 0 || raised == 0 || repaid == 0 {
        0
    } else {
        deposit * repaid / raised
    }
}

/// The amount newly due to a principal whose claim watermark stands at
/// `already`: the part of their entitlement not yet paid out, and zero when
/// the watermark already covers the entitlement.
pub open spec fn claim_amount_of(deposit: int, raised: int, repaid: int, already: int) -> int {
    let total = total_claimable_of(deposit, raised, repaid);
    if already >= total {
        0
    } else {
        total - already
    }
}

/// One claim by `user` as a step on the model: the state afterwards and the
/// amount paid out. The watermark is written only when something is due.
pub open spec fn claim_step(v: VaultView, user: u64) -> (VaultView, int) {
    let r = claim_amount_of(read(v.deposits, user), v.raised, v.repaid, read(v.claimed, user));
    if r > 0 {
        (
            (VaultView { claimed: v.claimed.insert(user, read(v.claimed, user) + r), ..v }),
            r,
        )
    } else {
        (v, 0)
    }
}

/// Computes the amount newly claimable by `user` and settles it into their
/// claim watermark, all in one step against the current store.
///
/// Returns zero — and leaves every record unchanged — whenever `user` has
/// no deposit, nothing has been raised, nothing has been repaid, or the
/// watermark already covers the entitlement. A claim never pays out more
/// than the pro-rata bound allows, and it preserves that bound.
pub fn calculate_claimable_amount(vault: &mut Vault, user: u64) -> (r: i128)
    requires
        old(vault).wf(),
        read(old(vault)@.deposits, user) * old(vault)@.repaid <= i128::MAX,
    ensures
        final(vault).wf(),
        r >= 0,
        final(vault)@ == claim_step(old(vault)@, user).0,
        r as int == claim_step(old(vault)@, user).1,
        read(old(vault)@.deposits, user) == 0 || old(vault)@.raised == 0
            || old(vault)@.repaid == 0 ==> r == 0 && final(vault)@ == old(vault)@,
        claim_bound(old(vault)@) ==> claim_bound(final(vault)@),
{
    let user_deposit = vault.deposits.get_or_zero(user);
    if user_deposit == 0 {
        proof {
            assert(read(old(vault)@.claimed, user) >= 0);
        }
        return 0;
    }
    let raised = vault.raised;
    let repaid = vault.repaid;
    if raised == 0 || repaid == 0 {
        proof {
            assert(read(old(vault)@.claimed, user) >= 0);
        }
        return 0;
    }
    proof {
        assert(read(old(vault)@.deposits, user) >= 0);
        lemma_mul_nonnegative(user_deposit as int, repaid as int);
        lemma_div_basics_4(user_deposit as int * repaid as int, raised as int);
        lemma_div_basics_5(user_deposit as int * repaid as int, raised as int);
    }
    let total_claimable = user_deposit * repaid / raised;
    let already_claimed = vault.claimed.get_or_zero(user);
    proof {
        assert(read(old(vault)@.claimed, user) >= 0);
    }
    if already_claimed >= total_claimable {
        return 0;
    }
    let to_claim = total_claimable - already_claimed;
    vault.claimed.set(user, already_claimed + to_claim);
    proof {
        let d = user_deposit as int;
        let rep = repaid as int;
        let ra = raised as int;
        lemma_fundamental_div_mod(d * rep, ra);
        lemma_mod_bound(d * rep, ra);
        assert(total_claimable as int == d * rep / ra);
        assert(ra * (d * rep / ra) <= d * rep);
        assert(total_claimable as int * ra <= d * rep);
        assert forall|p: u64| #[trigger] read(vault@.claimed, p) >= 0 by {
            if p != user {
                assert(read(vault@.claimed, p) == read(old(vault)@.claimed, p));
                assert(read(old(vault)@.claimed, p) >= 0);
            }
        }
        if claim_bound(old(vault)@) {
            assert forall|p: u64|
                #[trigger] read(vault@.claimed, p) * vault@.raised
                    <= read(vault@.deposits, p) * vault@.repaid by {
                if p == user {
                    assert(read(vault@.claimed, user) == total_claimable as int);
                } else {
                    assert(read(vault@.claimed, p) == read(old(vault)@.claimed, p));
                    assert(read(old(vault)@.claimed, p) * old(vault)@.raised
                        <= read(old(vault)@.deposits, p) * old(vault)@.repaid);
                }
            }
        }
    }
    to_claim
}

/// Idempotence of claiming: a second claim by the same principal, with no
/// intervening change to the store, pays out nothing and changes nothing.
pub proof fn lemma_claim_idempotent(v: VaultView, user: u64)
    ensures
        claim_step(claim_step(v, user).0, user).1 == 0,
        claim_step(claim_step(v, user).0, user).0 == claim_step(v, user).0,
{
}

} // verus!
