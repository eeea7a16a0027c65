//! Properties that hold across the operations of the contract.
use vstd::prelude::*;
use crate::assoc::{get_or, has_key, key_index, keys_distinct, lemma_key_index_unique, lemma_put, lemma_put_put, lemma_sum_values_update, put, sum_values, value_of};
use crate::credits::{after_deposit_credit, after_withdraw_credit, deposit_credit_in_bounds, deposit_credit_result, deposited_view, withdraw_credit_in_bounds, withdraw_credit_result};
use crate::reward::{reward_in_bounds, reward_pool, staking_reward, unstake_quote, unstake_quote_in_bounds};
use crate::types::{BONUS_DURATION, BONUS_RATE_RATIO};
use vstd::arithmetic::div_mod::lemma_div_is_ordered;
use vstd::arithmetic::mul::lemma_mul_inequality;
use crate::staking::{after_stake, after_unstake, stake_in_bounds, stake_result, staked_view, unstake_in_bounds, unstake_result, unstaked_view};
use crate::state::{empty_stake, owner_stake, placed_credits, state_wf, StakeView, StateView};
use crate::tiers::{credit_computable, credit_for, tier_count};
use crate::contract::{unstake_answer, with_safe};
use crate::types::{AccountAddress, Address, ContractAddress, LockState, TierBaseState, ViewUnstakeResponse};

verus! {

/// The staked amount of each holder, in the order of the stakes.
pub open spec fn stake_amounts(s: Seq<(Address, StakeView)>) -> Seq<(Address, u64)> {
    s.map_values(|p: (Address, StakeView)| (p.0, p.1.amount))
}

/// The staked total is the sum of what the holders have staked.
pub open spec fn total_matches_stakes(v: StateView) -> bool {
    sum_values(stake_amounts(v.stakes)) == v.total_staked_amount
}

/// Every holder's credits are split between the available credits and those
/// placed with projects.
pub open spec fn credits_balanced(v: StateView) -> bool {
    forall|i: int|
        0 <= i < v.stakes.len() ==> (#[trigger] v.stakes[i]).1.available + placed_credits(
            v.stakes[i].1,
        ) == v.stakes[i].1.ovl_credit_amount
}

/// The sum of the amounts after `put` replaces the holder's amount.
proof fn lemma_amounts_put(s: Seq<(Address, StakeView)>, k: Address, x: StakeView)
    requires
        keys_distinct(s),
    ensures
        sum_values(stake_amounts(put(s, k, x))) == sum_values(stake_amounts(s)) - get_or(
            s,
            k,
            empty_stake(),
        ).amount + x.amount,
{
    if has_key(s, k) {
        let i = key_index(s, k);
        lemma_key_index_unique(s, k, i);
        assert(stake_amounts(put(s, k, x)) =~= stake_amounts(s).update(i, (k, x.amount)));
        lemma_sum_values_update(stake_amounts(s), i, k, x.amount);
    } else {
        assert(stake_amounts(put(s, k, x)) =~= stake_amounts(s).push((k, x.amount)));
        assert(stake_amounts(s).push((k, x.amount)).drop_last() =~= stake_amounts(s));
    }
}

/// Staking keeps the staked total equal to the sum of the holders' stakes.
pub proof fn law_stake_keeps_total(v: StateView, owner: Address, amount: u64, duration: u16, start_at: u64)
    requires
        state_wf(v),
        total_matches_stakes(v),
        stake_in_bounds(v, owner, amount, duration, start_at),
    ensures
        total_matches_stakes(after_stake(v, owner, amount, duration, start_at)),
{
    if stake_result(start_at, duration) is Ok {
        lemma_amounts_put(v.stakes, owner, staked_view(v, owner, amount, duration, start_at));
    } else {
        lemma_amounts_put(v.stakes, owner, owner_stake(v, owner));
    }
}

/// Unstaking keeps the staked total equal to the sum of the holders' stakes.
pub proof fn law_unstake_keeps_total(v: StateView, owner: Address, start_at: u64)
    requires
        state_wf(v),
        total_matches_stakes(v),
        unstake_in_bounds(v, owner, start_at),
    ensures
        total_matches_stakes(after_unstake(v, owner, start_at)),
{
    if unstake_result(v, owner, start_at) is Ok {
        lemma_amounts_put(v.stakes, owner, unstaked_view(v, owner, start_at));
    }
}

/// Placing credits keeps the staked total equal to the sum of the holders'
/// stakes.
pub proof fn law_deposit_credit_keeps_total(
    v: StateView,
    owner: Address,
    project: ContractAddress,
    amount: u64,
)
    requires
        state_wf(v),
        total_matches_stakes(v),
    ensures
        total_matches_stakes(after_deposit_credit(v, owner, project, amount)),
{
    if deposit_credit_result(v, owner, amount) is Ok {
        lemma_amounts_put(v.stakes, owner, deposited_view(v, owner, project, amount));
    } else {
        lemma_amounts_put(v.stakes, owner, owner_stake(v, owner));
    }
}

/// Taking credits back keeps the staked total equal to the sum of the
/// holders' stakes.
pub proof fn law_withdraw_credit_keeps_total(
    v: StateView,
    owner: Address,
    project: ContractAddress,
    amount: u64,
)
    requires
        state_wf(v),
        total_matches_stakes(v),
    ensures
        total_matches_stakes(after_withdraw_credit(v, owner, project, amount)),
{
    if withdraw_credit_result(v, owner, project, amount) is Ok {
        lemma_amounts_put(v.stakes, owner, crate::credits::withdrawn_view(v, owner, project, amount));
    }
}

/// A stake whose credits are split between available and placed ones.
pub open spec fn stake_balanced(x: StakeView) -> bool {
    x.available + placed_credits(x) == x.ovl_credit_amount
}

/// `put` of a balanced stake keeps all credits balanced.
proof fn lemma_balanced_put(v: StateView, owner: Address, x: StakeView)
    requires
        state_wf(v),
        credits_balanced(v),
        stake_balanced(x),
    ensures
        credits_balanced(StateView { stakes: put(v.stakes, owner, x), ..v }),
{
    lemma_put(v.stakes, owner, x);
    let t = put(v.stakes, owner, x);
    assert forall|i: int| 0 <= i < t.len() implies (#[trigger] t[i]).1.available + placed_credits(
        t[i].1,
    ) == t[i].1.ovl_credit_amount by {
        if has_key(v.stakes, owner) {
            let k = key_index(v.stakes, owner);
            if i != k {
                assert(t[i] == v.stakes[i]);
            }
        } else if i < v.stakes.len() {
            assert(t[i] == v.stakes[i]);
        }
    }
}

/// The stake that `owner_stake` finds is balanced.
proof fn lemma_owner_stake_balanced(v: StateView, owner: Address)
    requires
        credits_balanced(v),
    ensures
        stake_balanced(owner_stake(v, owner)),
{
    if has_key(v.stakes, owner) {
        let k = key_index(v.stakes, owner);
    }
}

/// Staking keeps every holder's credits split between available and placed
/// ones.
pub proof fn law_stake_keeps_credits_balanced(
    v: StateView,
    owner: Address,
    amount: u64,
    duration: u16,
    start_at: u64,
)
    requires
        state_wf(v),
        credits_balanced(v),
        stake_in_bounds(v, owner, amount, duration, start_at),
    ensures
        credits_balanced(after_stake(v, owner, amount, duration, start_at)),
{
    lemma_owner_stake_balanced(v, owner);
    if stake_result(start_at, duration) is Ok {
        let s0 = owner_stake(v, owner);
        let n = (s0.amount + amount) as u64;
        let c = tier_count(v.tier_bases, n);
        if c > 0 {
            let prod = n * v.tier_bases[c - 1].1.rate;
            assert(prod / 100 <= prod);
        }
        assert(0 <= credit_for(v.tier_bases, n) <= u64::MAX);
        crate::assoc::lemma_sum_values_bounds(s0.credits);
        lemma_balanced_put(v, owner, staked_view(v, owner, amount, duration, start_at));
    } else {
        lemma_balanced_put(v, owner, owner_stake(v, owner));
    }
}

/// Unstaking keeps every holder's credits split between available and placed
/// ones.
pub proof fn law_unstake_keeps_credits_balanced(v: StateView, owner: Address, start_at: u64)
    requires
        state_wf(v),
        credits_balanced(v),
        unstake_in_bounds(v, owner, start_at),
    ensures
        credits_balanced(after_unstake(v, owner, start_at)),
{
    if unstake_result(v, owner, start_at) is Ok {
        let s = value_of(v.stakes, owner);
        let n = (s.amount - s.locks[start_at].amount) as u64;
        let c = tier_count(v.tier_bases, n);
        if c > 0 {
            let prod = n * v.tier_bases[c - 1].1.rate;
            assert(prod / 100 <= prod);
        }
        assert(0 <= credit_for(v.tier_bases, n) <= u64::MAX);
        crate::assoc::lemma_sum_values_bounds(s.credits);
        lemma_balanced_put(v, owner, unstaked_view(v, owner, start_at));
    }
}

/// Placing credits keeps every holder's credits split between available and
/// placed ones.
pub proof fn law_deposit_credit_keeps_credits_balanced(
    v: StateView,
    owner: Address,
    project: ContractAddress,
    amount: u64,
)
    requires
        state_wf(v),
        credits_balanced(v),
        deposit_credit_in_bounds(v, owner, project, amount),
    ensures
        credits_balanced(after_deposit_credit(v, owner, project, amount)),
{
    lemma_owner_stake_balanced(v, owner);
    if deposit_credit_result(v, owner, amount) is Ok {
        let s = owner_stake(v, owner);
        crate::assoc::lemma_sum_values_put(
            s.credits,
            project,
            (get_or(s.credits, project, 0u64) + amount) as u64,
        );
        lemma_balanced_put(v, owner, deposited_view(v, owner, project, amount));
    } else {
        lemma_balanced_put(v, owner, owner_stake(v, owner));
    }
}

/// Taking credits back keeps every holder's credits split between available
/// and placed ones.
pub proof fn law_withdraw_credit_keeps_credits_balanced(
    v: StateView,
    owner: Address,
    project: ContractAddress,
    amount: u64,
)
    requires
        state_wf(v),
        credits_balanced(v),
        withdraw_credit_in_bounds(v, owner, project, amount),
    ensures
        credits_balanced(after_withdraw_credit(v, owner, project, amount)),
{
    if withdraw_credit_result(v, owner, project, amount) is Ok {
        lemma_owner_stake_balanced(v, owner);
        let s = value_of(v.stakes, owner);
        crate::assoc::lemma_sum_values_put(
            s.credits,
            project,
            (value_of(s.credits, project) - amount) as u64,
        );
        lemma_balanced_put(v, owner, crate::credits::withdrawn_view(v, owner, project, amount));
    }
}

/// Taking back the credits just placed with a project is accepted, and
/// restores the holder's available credits and the credits placed with every
/// project; where the project already held credits of the holder, the whole
/// state is as before.
pub proof fn law_withdraw_undoes_deposit(v: StateView, owner: Address, project: ContractAddress, amount: u64)
    requires
        state_wf(v),
        deposit_credit_in_bounds(v, owner, project, amount),
        deposit_credit_result(v, owner, amount) is Ok,
    ensures
        ({
            let v1 = after_deposit_credit(v, owner, project, amount);
            let v2 = after_withdraw_credit(v1, owner, project, amount);
            &&& withdraw_credit_result(v1, owner, project, amount) is Ok
            &&& withdraw_credit_in_bounds(v1, owner, project, amount)
            &&& owner_stake(v2, owner).available == owner_stake(v, owner).available
            &&& owner_stake(v2, owner).amount == owner_stake(v, owner).amount
            &&& owner_stake(v2, owner).locks == owner_stake(v, owner).locks
            &&& forall|q: ContractAddress|
                get_or(owner_stake(v2, owner).credits, q, 0u64) == get_or(
                    owner_stake(v, owner).credits,
                    q,
                    0u64,
                )
            &&& (has_key(v.stakes, owner) && has_key(owner_stake(v, owner).credits, project))
                ==> v2 == v
        }),
{
    let s0 = owner_stake(v, owner);
    crate::state::lemma_owner_stake_wf(v, owner);
    let d = deposited_view(v, owner, project, amount);
    let x = (get_or(s0.credits, project, 0u64) + amount) as u64;
    lemma_put(s0.credits, project, x);
    lemma_put(v.stakes, owner, d);
    let v1 = after_deposit_credit(v, owner, project, amount);
    assert(has_key(v1.stakes, owner) && value_of(v1.stakes, owner) == d);
    assert(owner_stake(v1, owner) == d);
    let w = crate::credits::withdrawn_view(v1, owner, project, amount);
    lemma_put_put(v.stakes, owner, d, w);
    lemma_put(v.stakes, owner, w);
    let v2 = after_withdraw_credit(v1, owner, project, amount);
    assert(v2.stakes == put(v.stakes, owner, w));
    assert(owner_stake(v2, owner) == w);
    let y = get_or(s0.credits, project, 0u64);
    lemma_put_put(s0.credits, project, x, y);
    lemma_put(s0.credits, project, y);
    assert(w.credits == put(s0.credits, project, y));
    assert forall|q: ContractAddress|
        get_or(w.credits, q, 0u64) == get_or(s0.credits, q, 0u64) by {}
    if has_key(v.stakes, owner) && has_key(s0.credits, project) {
        crate::assoc::lemma_put_same(s0.credits, project);
        assert(w == s0);
        crate::assoc::lemma_put_same(v.stakes, owner);
        assert(v2 =~= v);
    }
}

/// Unstaking a lock just staked gives back the amount and the staked total
/// as they were, removes the lock, and sets tier and credits by the amount as
/// it was. It is refused only where those credits do not cover the credits
/// already placed.
pub proof fn law_unstake_undoes_stake(
    v: StateView,
    owner: Address,
    amount: u64,
    duration: u16,
    start_at: u64,
)
    requires
        state_wf(v),
        stake_in_bounds(v, owner, amount, duration, start_at),
        stake_result(start_at, duration) is Ok,
        !owner_stake(v, owner).locks.contains_key(start_at),
    ensures
        ({
            let s0 = owner_stake(v, owner);
            let v1 = after_stake(v, owner, amount, duration, start_at);
            let c = credit_for(v.tier_bases, s0.amount);
            &&& unstake_result(v1, owner, start_at) == if c >= placed_credits(s0) {
                Ok::<(), crate::errors::ContractError>(())
            } else {
                Err(crate::errors::ContractError::InsufficientOvlCredit)
            }
            &&& unstake_result(v1, owner, start_at) is Ok ==> after_unstake(v1, owner, start_at)
                == (StateView {
                stakes: put(
                    v.stakes,
                    owner,
                    StakeView {
                        amount: s0.amount,
                        tier: tier_count(v.tier_bases, s0.amount) as u8,
                        credits: s0.credits,
                        ovl_credit_amount: c as u64,
                        available: (c - placed_credits(s0)) as u64,
                        locks: s0.locks,
                    },
                ),
                ..v
            })
        }),
{
    let s0 = owner_stake(v, owner);
    let sv = staked_view(v, owner, amount, duration, start_at);
    lemma_put(v.stakes, owner, sv);
    let v1 = after_stake(v, owner, amount, duration, start_at);
    assert(has_key(v1.stakes, owner) && value_of(v1.stakes, owner) == sv);
    assert(sv.locks.contains_key(start_at));
    assert(sv.locks[start_at].amount == amount);
    assert((sv.amount - amount) as u64 == s0.amount);
    if unstake_result(v1, owner, start_at) is Ok {
        let u = unstaked_view(v1, owner, start_at);
        assert(u.locks =~= s0.locks);
        lemma_put_put(v.stakes, owner, sv, u);
        assert(after_unstake(v1, owner, start_at) =~= StateView {
            stakes: put(v.stakes, owner, u),
            ..v
        });
    }
}

/// The tier and credits of a stake are those that its amount gives, and its
/// credits are split between available and placed ones.
pub open spec fn stake_derived(t: Seq<(u64, TierBaseState)>, x: StakeView) -> bool {
    &&& x.tier == tier_count(t, x.amount) as u8
    &&& x.ovl_credit_amount == credit_for(t, x.amount)
    &&& stake_balanced(x)
}

/// Unstaking a lock just staked, under a start time the holder had no lock
/// for, is accepted and gives the holder's stake and the staked total back
/// as they were, where the holder's tier and credits were those of the
/// holder's amount. A holder who had no stake is left with an empty one.
pub proof fn law_unstake_restores_stake(
    v: StateView,
    owner: Address,
    amount: u64,
    duration: u16,
    start_at: u64,
)
    requires
        state_wf(v),
        stake_in_bounds(v, owner, amount, duration, start_at),
        stake_result(start_at, duration) is Ok,
        !owner_stake(v, owner).locks.contains_key(start_at),
        stake_derived(v.tier_bases, owner_stake(v, owner)),
        credit_computable(v.tier_bases, owner_stake(v, owner).amount),
    ensures
        ({
            let v1 = after_stake(v, owner, amount, duration, start_at);
            let v2 = after_unstake(v1, owner, start_at);
            &&& unstake_in_bounds(v1, owner, start_at)
            &&& unstake_result(v1, owner, start_at) is Ok
            &&& owner_stake(v2, owner) == owner_stake(v, owner)
            &&& v2.total_staked_amount == v.total_staked_amount
            &&& v2 == (StateView { stakes: put(v.stakes, owner, owner_stake(v, owner)), ..v })
            &&& has_key(v.stakes, owner) ==> v2 == v
        }),
{
    let s0 = owner_stake(v, owner);
    law_unstake_undoes_stake(v, owner, amount, duration, start_at);
    let sv = staked_view(v, owner, amount, duration, start_at);
    lemma_put(v.stakes, owner, sv);
    let v1 = after_stake(v, owner, amount, duration, start_at);
    assert(has_key(v1.stakes, owner) && value_of(v1.stakes, owner) == sv);
    assert(sv.locks[start_at].amount == amount);
    assert((sv.amount - amount) as u64 == s0.amount);
    assert(unstake_in_bounds(v1, owner, start_at));
    let c = credit_for(v.tier_bases, s0.amount);
    assert(c >= placed_credits(s0));
    let back = StakeView {
        amount: s0.amount,
        tier: tier_count(v.tier_bases, s0.amount) as u8,
        credits: s0.credits,
        ovl_credit_amount: c as u64,
        available: (c - placed_credits(s0)) as u64,
        locks: s0.locks,
    };
    assert(back =~= s0);
    let v2 = after_unstake(v1, owner, start_at);
    lemma_put(v.stakes, owner, s0);
    assert(owner_stake(v2, owner) == s0);
    if has_key(v.stakes, owner) {
        crate::assoc::lemma_put_same(v.stakes, owner);
        assert(v2 =~= v);
    }
}

/// What an unstake pays adds up: the amount sent and the fee kept make the
/// staked amount and the reward, and the fee never exceeds the staked amount.
pub proof fn law_unstake_payout_adds_up(v: StateView, owner: Address, start_at: u64, now: u64)
    requires
        unstake_quote_in_bounds(v, owner, start_at, now),
    ensures
        unstake_quote(v, owner, start_at, now) matches Ok(q) ==> {
            &&& q.send_amount + q.early_fee == q.staked_amount + q.staking_reward
            &&& q.early_fee <= q.staked_amount
        },
{
}

/// The tokens held in a holder's locks, added up.
pub open spec fn lock_total(m: Map<u64, LockState>) -> int
    decreases m.dom().len(),
    when m.dom().finite()
{
    if m.dom().len() == 0 {
        0
    } else {
        let k = m.dom().choose();
        m[k].amount + lock_total(m.remove(k))
    }
}

/// Taking any one lock out of the sum leaves the sum of the others.
pub proof fn lemma_lock_total_remove(m: Map<u64, LockState>, k: u64)
    requires
        m.dom().finite(),
        m.dom().contains(k),
    ensures
        lock_total(m) == m[k].amount + lock_total(m.remove(k)),
    decreases m.dom().len(),
{
    let c = m.dom().choose();
    assert(m.dom().len() > 0);
    if c != k {
        assert(m.remove(c).dom() =~= m.dom().remove(c));
        assert(m.remove(k).dom() =~= m.dom().remove(k));
        lemma_lock_total_remove(m.remove(c), k);
        lemma_lock_total_remove(m.remove(k), c);
        assert(m.remove(c).remove(k) =~= m.remove(k).remove(c));
    }
}

/// A stake's amount is what its locks hold.
pub open spec fn stake_locks_match(x: StakeView) -> bool {
    &&& x.locks.dom().finite()
    &&& x.amount == lock_total(x.locks)
}

/// Every holder's amount is what the holder's locks hold.
pub open spec fn locks_match(v: StateView) -> bool {
    forall|i: int| 0 <= i < v.stakes.len() ==> stake_locks_match(#[trigger] v.stakes[i].1)
}

/// `put` of a stake whose amount matches its locks keeps all amounts
/// matching.
proof fn lemma_locks_put(v: StateView, owner: Address, x: StakeView)
    requires
        state_wf(v),
        locks_match(v),
        stake_locks_match(x),
    ensures
        locks_match(StateView { stakes: put(v.stakes, owner, x), ..v }),
{
    lemma_put(v.stakes, owner, x);
    let t = put(v.stakes, owner, x);
    assert forall|i: int| 0 <= i < t.len() implies stake_locks_match(#[trigger] t[i].1) by {
        if has_key(v.stakes, owner) {
            let k = key_index(v.stakes, owner);
            if i != k {
                assert(t[i] == v.stakes[i]);
            }
        } else if i < v.stakes.len() {
            assert(t[i] == v.stakes[i]);
        }
    }
}

/// The stake that `owner_stake` finds matches its locks.
proof fn lemma_owner_stake_locks(v: StateView, owner: Address)
    requires
        locks_match(v),
    ensures
        stake_locks_match(owner_stake(v, owner)),
{
    if has_key(v.stakes, owner) {
        let k = key_index(v.stakes, owner);
        assert(stake_locks_match(v.stakes[k].1));
    } else {
        assert(empty_stake().locks.dom() =~= Set::<u64>::empty());
    }
}

/// Staking under a start time that the holder has no lock for keeps every
/// holder's amount equal to what the holder's locks hold.
pub proof fn law_stake_keeps_locks_match(
    v: StateView,
    owner: Address,
    amount: u64,
    duration: u16,
    start_at: u64,
)
    requires
        state_wf(v),
        locks_match(v),
        stake_in_bounds(v, owner, amount, duration, start_at),
        !owner_stake(v, owner).locks.contains_key(start_at),
    ensures
        locks_match(after_stake(v, owner, amount, duration, start_at)),
{
    lemma_owner_stake_locks(v, owner);
    if stake_result(start_at, duration) is Ok {
        let s0 = owner_stake(v, owner);
        let x = staked_view(v, owner, amount, duration, start_at);
        assert(x.locks.dom() =~= s0.locks.dom().insert(start_at));
        lemma_lock_total_remove(x.locks, start_at);
        assert(x.locks.remove(start_at) =~= s0.locks);
        lemma_locks_put(v, owner, x);
    } else {
        lemma_locks_put(v, owner, owner_stake(v, owner));
    }
}

/// Unstaking keeps every holder's amount equal to what the holder's locks
/// hold.
pub proof fn law_unstake_keeps_locks_match(v: StateView, owner: Address, start_at: u64)
    requires
        state_wf(v),
        locks_match(v),
        unstake_in_bounds(v, owner, start_at),
    ensures
        locks_match(after_unstake(v, owner, start_at)),
{
    if unstake_result(v, owner, start_at) is Ok {
        lemma_owner_stake_locks(v, owner);
        let s = value_of(v.stakes, owner);
        lemma_lock_total_remove(s.locks, start_at);
        let x = unstaked_view(v, owner, start_at);
        assert(x.locks.dom() =~= s.locks.dom().remove(start_at));
        lemma_locks_put(v, owner, x);
    }
}

/// Placing credits leaves every holder's amount and locks as they were, so
/// amounts keep matching the locks.
pub proof fn law_deposit_credit_keeps_locks_match(
    v: StateView,
    owner: Address,
    project: ContractAddress,
    amount: u64,
)
    requires
        state_wf(v),
        locks_match(v),
    ensures
        locks_match(after_deposit_credit(v, owner, project, amount)),
{
    lemma_owner_stake_locks(v, owner);
    if deposit_credit_result(v, owner, amount) is Ok {
        lemma_locks_put(v, owner, deposited_view(v, owner, project, amount));
    } else {
        lemma_locks_put(v, owner, owner_stake(v, owner));
    }
}

/// Taking credits back leaves every holder's amount and locks as they were,
/// so amounts keep matching the locks.
pub proof fn law_withdraw_credit_keeps_locks_match(
    v: StateView,
    owner: Address,
    project: ContractAddress,
    amount: u64,
)
    requires
        state_wf(v),
        locks_match(v),
    ensures
        locks_match(after_withdraw_credit(v, owner, project, amount)),
{
    if withdraw_credit_result(v, owner, project, amount) is Ok {
        lemma_owner_stake_locks(v, owner);
        lemma_locks_put(v, owner, crate::credits::withdrawn_view(v, owner, project, amount));
    }
}

/// The consistency of the stakes: the total is the sum of the amounts, each
/// amount is what its locks hold, and each holder's credits are split
/// between available and placed ones.
pub open spec fn stakes_consistent(v: StateView) -> bool {
    &&& total_matches_stakes(v)
    &&& locks_match(v)
    &&& credits_balanced(v)
}

/// Staking under a start time that the holder has no lock for keeps the
/// stakes consistent.
pub proof fn law_stake_keeps_consistent(
    v: StateView,
    owner: Address,
    amount: u64,
    duration: u16,
    start_at: u64,
)
    requires
        state_wf(v),
        stakes_consistent(v),
        stake_in_bounds(v, owner, amount, duration, start_at),
        !owner_stake(v, owner).locks.contains_key(start_at),
    ensures
        stakes_consistent(after_stake(v, owner, amount, duration, start_at)),
{
    law_stake_keeps_total(v, owner, amount, duration, start_at);
    law_stake_keeps_locks_match(v, owner, amount, duration, start_at);
    law_stake_keeps_credits_balanced(v, owner, amount, duration, start_at);
}

/// Unstaking keeps the stakes consistent.
pub proof fn law_unstake_keeps_consistent(v: StateView, owner: Address, start_at: u64)
    requires
        state_wf(v),
        stakes_consistent(v),
        unstake_in_bounds(v, owner, start_at),
    ensures
        stakes_consistent(after_unstake(v, owner, start_at)),
{
    law_unstake_keeps_total(v, owner, start_at);
    law_unstake_keeps_locks_match(v, owner, start_at);
    law_unstake_keeps_credits_balanced(v, owner, start_at);
}

/// Placing credits keeps the holder's own credits split between available
/// and placed ones, whatever the other holders' stakes are, whether placing
/// is accepted or refused.
pub proof fn law_deposit_credit_keeps_owner_balanced(
    v: StateView,
    owner: Address,
    project: ContractAddress,
    amount: u64,
)
    requires
        state_wf(v),
        !has_key(v.stakes, owner) || stake_balanced(value_of(v.stakes, owner)),
        deposit_credit_in_bounds(v, owner, project, amount),
    ensures
        stake_balanced(owner_stake(after_deposit_credit(v, owner, project, amount), owner)),
{
    let s = owner_stake(v, owner);
    if deposit_credit_result(v, owner, amount) is Ok {
        crate::state::lemma_owner_stake_wf(v, owner);
        crate::assoc::lemma_sum_values_put(
            s.credits,
            project,
            (get_or(s.credits, project, 0u64) + amount) as u64,
        );
        lemma_put(v.stakes, owner, deposited_view(v, owner, project, amount));
    } else {
        lemma_put(v.stakes, owner, s);
    }
}

/// Taking credits back keeps the holder's own credits split between
/// available and placed ones, whatever the other holders' stakes are,
/// whether taking back is accepted or refused.
pub proof fn law_withdraw_credit_keeps_owner_balanced(
    v: StateView,
    owner: Address,
    project: ContractAddress,
    amount: u64,
)
    requires
        state_wf(v),
        !has_key(v.stakes, owner) || stake_balanced(value_of(v.stakes, owner)),
        withdraw_credit_in_bounds(v, owner, project, amount),
    ensures
        stake_balanced(owner_stake(after_withdraw_credit(v, owner, project, amount), owner)),
{
    if withdraw_credit_result(v, owner, project, amount) is Ok {
        crate::state::lemma_owner_stake_wf(v, owner);
        let s = value_of(v.stakes, owner);
        crate::assoc::lemma_sum_values_put(
            s.credits,
            project,
            (value_of(s.credits, project) - amount) as u64,
        );
        lemma_put(v.stakes, owner, crate::credits::withdrawn_view(v, owner, project, amount));
    }
}

/// The daily bonus of a safe is a product that fits in a `u128`.
proof fn lemma_safe_rate_bounds(safe: u64, rate: u16)
    ensures
        0 <= safe * rate <= u128::MAX,
{
    assert(0 <= safe * rate <= u64::MAX * u16::MAX) by (nonlinear_arith)
        requires
            safe <= u64::MAX,
            rate <= u16::MAX,
    ;
}

/// Dividing a larger product by the same positive pool and the same ratios
/// never gives less.
proof fn lemma_reward_ordered(p: int, q: int, m: int, pool: int)
    requires
        0 <= p <= q,
        0 <= m,
        0 < pool,
    ensures
        p * m / pool / (BONUS_RATE_RATIO as int) / (BONUS_DURATION as int) <= q * m / pool / (
        BONUS_RATE_RATIO as int) / (BONUS_DURATION as int),
{
    lemma_mul_inequality(p, q, m);
    lemma_div_is_ordered(p * m, q * m, pool);
    lemma_div_is_ordered(p * m / pool, q * m / pool, BONUS_RATE_RATIO as int);
    lemma_div_is_ordered(
        p * m / pool / (BONUS_RATE_RATIO as int),
        q * m / pool / (BONUS_RATE_RATIO as int),
        BONUS_DURATION as int,
    );
}

/// Counting more days never lowers the reward: where the reward over more
/// days is given, the reward over fewer days is given too and is no larger.
pub proof fn law_reward_monotone_in_days(
    v: StateView,
    amount: u64,
    bonus_rate: u16,
    duration: u16,
    fewer_days: u16,
    more_days: u16,
    already_staked: bool,
)
    requires
        fewer_days <= more_days,
        reward_in_bounds(v, amount, bonus_rate, duration, more_days, already_staked),
    ensures
        staking_reward(v, amount, bonus_rate, duration, more_days, already_staked) is Ok ==> {
            &&& staking_reward(v, amount, bonus_rate, duration, fewer_days, already_staked) is Ok
            &&& staking_reward(v, amount, bonus_rate, duration, fewer_days, already_staked)->Ok_0
                <= staking_reward(v, amount, bonus_rate, duration, more_days, already_staked)->Ok_0
        },
{
    let p1 = v.ovl_safe_amount * bonus_rate;
    lemma_safe_rate_bounds(v.ovl_safe_amount, bonus_rate);
    assert(0 <= p1 * fewer_days <= p1 * more_days) by (nonlinear_arith)
        requires
            0 <= p1,
            fewer_days <= more_days,
    ;
    lemma_mul_inequality(p1 * fewer_days, p1 * more_days, amount as int);
    assert(0 <= p1 * fewer_days * amount) by (nonlinear_arith)
        requires 0 <= p1 * fewer_days;
    let pool = reward_pool(v, amount, already_staked);
    if p1 * more_days * amount <= u128::MAX {
        lemma_reward_ordered(
            p1 * fewer_days * amount,
            p1 * more_days * amount,
            BONUS_DURATION + duration,
            pool,
        );
        lemma_mul_inequality(
            p1 * fewer_days * amount,
            p1 * more_days * amount,
            BONUS_DURATION + duration,
        );
    }
}

/// A larger safe never lowers the reward: where the reward from the larger
/// safe is given, the reward from the smaller one is given too and is no
/// larger.
pub proof fn law_reward_monotone_in_safe(
    v: StateView,
    larger_safe: u64,
    amount: u64,
    bonus_rate: u16,
    duration: u16,
    staking_days: u16,
    already_staked: bool,
)
    requires
        v.ovl_safe_amount <= larger_safe,
        reward_in_bounds(
            StateView { ovl_safe_amount: larger_safe, ..v },
            amount,
            bonus_rate,
            duration,
            staking_days,
            already_staked,
        ),
    ensures
        ({
            let w = StateView { ovl_safe_amount: larger_safe, ..v };
            staking_reward(w, amount, bonus_rate, duration, staking_days, already_staked) is Ok ==> {
                &&& staking_reward(v, amount, bonus_rate, duration, staking_days, already_staked) is Ok
                &&& staking_reward(v, amount, bonus_rate, duration, staking_days, already_staked)->Ok_0
                    <= staking_reward(w, amount, bonus_rate, duration, staking_days, already_staked)->Ok_0
            }
        }),
{
    let w = StateView { ovl_safe_amount: larger_safe, ..v };
    let a1 = v.ovl_safe_amount * bonus_rate;
    let b1 = larger_safe * bonus_rate;
    lemma_mul_inequality(v.ovl_safe_amount as int, larger_safe as int, bonus_rate as int);
    lemma_safe_rate_bounds(v.ovl_safe_amount, bonus_rate);
    lemma_mul_inequality(a1, b1, staking_days as int);
    assert(0 <= a1 * staking_days) by (nonlinear_arith)
        requires 0 <= a1;
    lemma_mul_inequality(a1 * staking_days, b1 * staking_days, amount as int);
    assert(0 <= a1 * staking_days * amount) by (nonlinear_arith)
        requires 0 <= a1 * staking_days;
    assert(reward_pool(w, amount, already_staked) == reward_pool(v, amount, already_staked));
    if b1 * staking_days * amount <= u128::MAX {
        lemma_reward_ordered(
            a1 * staking_days * amount,
            b1 * staking_days * amount,
            BONUS_DURATION + duration,
            reward_pool(v, amount, already_staked),
        );
        lemma_mul_inequality(
            a1 * staking_days * amount,
            b1 * staking_days * amount,
            BONUS_DURATION + duration,
        );
    }
}

/// Over no days the reward is nothing.
pub proof fn law_reward_zero_days(
    v: StateView,
    amount: u64,
    bonus_rate: u16,
    duration: u16,
    already_staked: bool,
)
    requires
        reward_in_bounds(v, amount, bonus_rate, duration, 0, already_staked),
    ensures
        staking_reward(v, amount, bonus_rate, duration, 0, already_staked) == Ok::<u64, crate::errors::ContractError>(0),
{
    let p1 = v.ovl_safe_amount * bonus_rate;
    lemma_safe_rate_bounds(v.ovl_safe_amount, bonus_rate);
    assert(p1 * 0 == 0) by (nonlinear_arith);
    assert(0int * amount == 0) by (nonlinear_arith);
    assert(0int * (BONUS_DURATION + duration) == 0) by (nonlinear_arith);
    let pool = reward_pool(v, amount, already_staked);
    assert(0int / pool == 0) by (nonlinear_arith)
        requires
            pool > 0,
    ;
    assert(0int / (BONUS_RATE_RATIO as int) == 0);
    assert(0int / (BONUS_DURATION as int) == 0);
}

/// An amount not staked yet earns what it would earn once staked: the
/// reward measured against the total plus the amount equals the reward in a
/// state whose total already holds the amount.
pub proof fn law_reward_pool_counts_amount(
    v: StateView,
    amount: u64,
    bonus_rate: u16,
    duration: u16,
    staking_days: u16,
)
    requires
        v.total_staked_amount + amount <= u64::MAX,
    ensures
        ({
            let w = StateView { total_staked_amount: (v.total_staked_amount + amount) as u64, ..v };
            &&& staking_reward(v, amount, bonus_rate, duration, staking_days, false) == staking_reward(
                w,
                amount,
                bonus_rate,
                duration,
                staking_days,
                true,
            )
            &&& reward_in_bounds(v, amount, bonus_rate, duration, staking_days, false)
                == reward_in_bounds(w, amount, bonus_rate, duration, staking_days, true)
        }),
{
}

/// The unstake entrypoint agrees with the unstake view: its quote for the
/// invoker is the view's answer for the invoker's account; once the payout is
/// made, the safe loses the reward and gains the fee, and the stakes and the
/// staked total are those that unstaking leaves, with the same answer as
/// unstaking the state as it was. The administrator, the pause flag, the
/// token and the tier table stay.
pub proof fn law_unstake_entry_agrees_with_view(
    v: StateView,
    invoker: AccountAddress,
    start_at: u64,
    now: u64,
    quote: ViewUnstakeResponse,
)
    requires
        state_wf(v),
        unstake_answer(v, Address::Account(invoker), start_at, now) == Ok::<
            ViewUnstakeResponse,
            crate::errors::ContractError,
        >(quote),
        quote.staking_reward <= v.ovl_safe_amount,
        v.ovl_safe_amount - quote.staking_reward + quote.early_fee <= u64::MAX,
    ensures
        ({
            let owner = Address::Account(invoker);
            let mid = with_safe(v, (v.ovl_safe_amount - quote.staking_reward + quote.early_fee) as u64);
            let after = after_unstake(mid, owner, start_at);
            &&& !v.paused
            &&& unstake_in_bounds(mid, owner, start_at) == unstake_in_bounds(v, owner, start_at)
            &&& unstake_result(mid, owner, start_at) == unstake_result(v, owner, start_at)
            &&& after.ovl_safe_amount == v.ovl_safe_amount - quote.staking_reward + quote.early_fee
            &&& after.stakes == after_unstake(v, owner, start_at).stakes
            &&& after.total_staked_amount == after_unstake(v, owner, start_at).total_staked_amount
            &&& after.admin == v.admin
            &&& after.paused == v.paused
            &&& after.token_address == v.token_address
            &&& after.tier_bases == v.tier_bases
        }),
{
}

/// Holding more never gives a lower tier.
pub proof fn law_tier_monotone(t: Seq<(u64, TierBaseState)>, a: u64, b: u64)
    requires
        a <= b,
    ensures
        tier_count(t, a) <= tier_count(t, b),
    decreases t.len(),
{
    if t.len() > 0 {
        law_tier_monotone(t.drop_last(), a, b);
    }
}

} // verus!
