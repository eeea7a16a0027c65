//! The contract's rules stated by their numbers: which inputs each operation
//! accepts, what it computes, and what it records, each over all inputs.
use vstd::prelude::*;
use crate::assoc::{get_or, has_key, lemma_put, value_of};
use crate::contract::{early_fee_estimate, unstake_answer};
use crate::encoding::le_u16_prefix;
use crate::errors::ContractError;
use crate::order::{address_bytes, bytes_lt, le_bytes, stored_before};
use crate::credits::{
    after_deposit_credit, after_withdraw_credit, deposit_credit_in_bounds, deposit_credit_result,
    withdraw_credit_in_bounds, withdraw_credit_result,
};
use crate::reward::{early_fee_days, lock_reward_in_bounds, lock_staking_reward, reward_in_bounds, staking_reward, unstake_quote, unstake_quote_in_bounds};
use crate::staking::{after_stake, after_unstake, stake_in_bounds, stake_result, unstake_in_bounds, unstake_result};
use crate::state::{owner_stake, placed_credits, state_wf, StateView};
use crate::tiers::{base_of, credit_computable, credit_for, is_first_threshold, lemma_tier_count_prefix, table_of_params, thresholds_increasing, tier_count};
use crate::time::MILLIS_PER_DAY;
use crate::types::{
    Address, ContractAddress, LockState, TierBaseParams, TierBaseState, ViewCalcEarlyFeeParams, ViewUnstakeResponse, BONUS_DURATION, BONUS_RATE, BONUS_RATE_RATIO,
    MAX_STAKING_DURATION, MIN_STAKING_DURATION,
};

verus! {

/// An early exit is charged over half the lock's days, rounded down, but
/// never fewer than thirty days.
pub proof fn law_early_fee_days(d: u16)
    ensures
        early_fee_days(d) == (if d / 2 < 30 {
            30
        } else {
            d / 2
        }),
        d >= 60 ==> early_fee_days(d) * 2 + d % 2 == d,
        d < 60 ==> early_fee_days(d) == 30,
        early_fee_days(d) >= 30,
{
}

/// Staking accepts every duration from thirty to seven hundred thirty days
/// whose end is a representable time; shorter locks are refused as too
/// short, longer ones as too long, and those whose end does not fit as
/// invalid.
pub proof fn law_stake_durations(start_at: u64, d: u16)
    ensures
        d < 30 ==> stake_result(start_at, d) == Err::<(), ContractError>(
            ContractError::NotEnoughMinStakingDuration,
        ),
        d > 730 ==> stake_result(start_at, d) == Err::<(), ContractError>(
            ContractError::OverMaxStakingDuration,
        ),
        30 <= d <= 730 && start_at + d * 86400000 <= u64::MAX ==> stake_result(start_at, d) == Ok::<
            (),
            ContractError,
        >(()),
        30 <= d <= 730 && start_at + d * 86400000 > u64::MAX ==> stake_result(start_at, d) == Err::<
            (),
            ContractError,
        >(ContractError::InvalidDuration),
{
}

/// Placing credits with a project is accepted exactly when the holder's
/// available credits cover the amount, and otherwise refused for want of
/// credits; what is already placed elsewhere does not count again.
pub proof fn law_deposit_accepted_iff_available(v: StateView, owner: Address, amount: u64)
    ensures
        deposit_credit_result(v, owner, amount) is Ok <==> amount <= owner_stake(v, owner).available,
        amount > owner_stake(v, owner).available ==> deposit_credit_result(v, owner, amount) == Err::<
            (),
            ContractError,
        >(ContractError::InsufficientOvlCredit),
{
}

/// The reward is the safe times the bonus rate (in millionths) times the
/// days times the amount, times `(100 + duration) / 100`, divided by the
/// staked pool (the total, plus the amount where it is not staked yet). It
/// is refused as an overflow only where a product exceeds a `u128` or the
/// reward exceeds a `u64`, whatever the number of days.
pub proof fn law_reward_formula(
    v: StateView,
    amount: u64,
    bonus_rate: u16,
    duration: u16,
    staking_days: u16,
    already_staked: bool,
)
    ensures
        ({
            let pool: int = if already_staked {
                v.total_staked_amount as int
            } else {
                v.total_staked_amount + amount
            };
            let base = v.ovl_safe_amount * bonus_rate * staking_days * amount;
            let q = base * (100 + duration) / pool / 1000000 / 100;
            &&& base > u128::MAX ==> staking_reward(
                v,
                amount,
                bonus_rate,
                duration,
                staking_days,
                already_staked,
            ) == Err::<u64, ContractError>(ContractError::OverflowError)
            &&& base <= u128::MAX && q <= u64::MAX ==> staking_reward(
                v,
                amount,
                bonus_rate,
                duration,
                staking_days,
                already_staked,
            ) == Ok::<u64, ContractError>(q as u64)
            &&& base <= u128::MAX && q > u64::MAX ==> staking_reward(
                v,
                amount,
                bonus_rate,
                duration,
                staking_days,
                already_staked,
            ) == Err::<u64, ContractError>(ContractError::OverflowError)
        }),
{
    let p1 = v.ovl_safe_amount * bonus_rate;
    assert(0 <= p1 <= u64::MAX * u16::MAX) by (nonlinear_arith)
        requires
            p1 == v.ovl_safe_amount * bonus_rate,
    ;
    assert(0 <= p1 * staking_days <= u64::MAX * u16::MAX * u16::MAX) by (nonlinear_arith)
        requires
            0 <= p1 <= u64::MAX * u16::MAX,
            staking_days <= u16::MAX,
    ;
}

/// In an increasing tier table, an amount below every threshold has tier 0
/// and earns credits equal to itself; an amount that reaches the threshold
/// at position `i` but not the next has tier `i + 1` and earns the amount
/// times that threshold's rate, in percent, rounded down.
pub proof fn law_tier_and_credits(t: Seq<(u64, TierBaseState)>, amount: u64, i: int)
    requires
        thresholds_increasing(t),
    ensures
        (forall|k: int| 0 <= k < t.len() ==> t[k].0 > amount) ==> tier_count(t, amount) == 0
            && credit_for(t, amount) == amount,
        0 <= i < t.len() && t[i].0 <= amount && (i + 1 < t.len() ==> amount < t[i + 1].0) ==> tier_count(
            t,
            amount,
        ) == i + 1 && credit_for(t, amount) == amount * t[i].1.rate / 100,
{
    lemma_tier_count_prefix(t, amount);
    let c = tier_count(t, amount) as int;
    if forall|k: int| 0 <= k < t.len() ==> t[k].0 > amount {
        if c > 0 {
            assert(t[0].0 <= amount);
        }
    }
    if 0 <= i < t.len() && t[i].0 <= amount && (i + 1 < t.len() ==> amount < t[i + 1].0) {
        if c < i + 1 {
            assert(t[i].0 > amount);
        }
        if c > i + 1 {
            assert(t[i + 1].0 <= amount);
        }
    }
}

/// The numbers of the rules: locks last thirty to seven hundred thirty
/// days, a new lock's bonus rate is 166 millionths a day, the duration
/// multiplier is counted in hundredths, and a day is 86 400 000
/// milliseconds.
pub proof fn law_rule_numbers()
    ensures
        MIN_STAKING_DURATION == 30,
        MAX_STAKING_DURATION == 730,
        BONUS_RATE == 166,
        BONUS_RATE_RATIO == 1000000,
        BONUS_DURATION == 100,
        MILLIS_PER_DAY == 86400000,
{
}

/// Where staking is accepted, the holder's amount grows by the amount
/// staked, a lock of that amount is recorded under its start time with the
/// duration, the bonus rate 166 and an end `duration` days later, the
/// credits placed stay, the tier and credits follow the new amount (the
/// available credits being the credits less those placed), and the staked
/// total grows by the amount. Where it is refused, the holder's stake and
/// the total stay. No other holder's stake changes, nor anything else.
pub proof fn law_stake_records(v: StateView, owner: Address, amount: u64, duration: u16, start_at: u64)
    requires
        state_wf(v),
        stake_in_bounds(v, owner, amount, duration, start_at),
    ensures
        ({
            let v1 = after_stake(v, owner, amount, duration, start_at);
            let s0 = owner_stake(v, owner);
            let s1 = owner_stake(v1, owner);
            &&& stake_result(start_at, duration) is Ok ==> {
                &&& s1.amount == s0.amount + amount
                &&& s1.locks == s0.locks.insert(
                    start_at,
                    LockState {
                        amount,
                        duration,
                        bonus_rate: 166,
                        start_at,
                        end_at: (start_at + duration * 86400000) as u64,
                    },
                )
                &&& s1.credits == s0.credits
                &&& s1.tier == tier_count(v.tier_bases, s1.amount) as u8
                &&& s1.ovl_credit_amount == credit_for(v.tier_bases, s1.amount)
                &&& s1.available + placed_credits(s1) == s1.ovl_credit_amount
                &&& v1.total_staked_amount == v.total_staked_amount + amount
            }
            &&& stake_result(start_at, duration) is Err ==> s1 == s0 && v1.total_staked_amount
                == v.total_staked_amount
            &&& forall|o: Address| o != owner ==> #[trigger] owner_stake(v1, o) == owner_stake(v, o)
            &&& v1.admin == v.admin && v1.paused == v.paused && v1.token_address == v.token_address
            &&& v1.tier_bases == v.tier_bases && v1.ovl_safe_amount == v.ovl_safe_amount
        }),
{
    let v1 = after_stake(v, owner, amount, duration, start_at);
    if stake_result(start_at, duration) is Ok {
        let x = crate::staking::staked_view(v, owner, amount, duration, start_at);
        lemma_put(v.stakes, owner, x);
        crate::assoc::lemma_sum_values_bounds(owner_stake(v, owner).credits);
    } else {
        lemma_put(v.stakes, owner, owner_stake(v, owner));
    }
}

/// Unstaking refuses a holder without a stake, a start time without a lock,
/// and a lock larger than the holder's amount. Where it is accepted, the
/// holder's amount shrinks by the lock's amount, the lock is removed, the
/// credits placed stay, the tier and credits follow the new amount, and the
/// staked total shrinks by the lock's amount; no other holder's stake
/// changes. Where it is refused, nothing changes.
pub proof fn law_unstake_records(v: StateView, owner: Address, start_at: u64)
    requires
        state_wf(v),
        unstake_in_bounds(v, owner, start_at),
    ensures
        ({
            let v1 = after_unstake(v, owner, start_at);
            let s0 = owner_stake(v, owner);
            let s1 = owner_stake(v1, owner);
            let r = unstake_result(v, owner, start_at);
            &&& !has_key(v.stakes, owner) ==> r == Err::<(), ContractError>(
                ContractError::StakeOwnerNotFound,
            )
            &&& has_key(v.stakes, owner) && !s0.locks.contains_key(start_at) ==> r == Err::<
                (),
                ContractError,
            >(ContractError::LockNotFound)
            &&& has_key(v.stakes, owner) && s0.locks.contains_key(start_at) && s0.amount
                < s0.locks[start_at].amount ==> r == Err::<(), ContractError>(
                ContractError::InsufficientOvl,
            )
            &&& r is Ok <==> (has_key(v.stakes, owner) && s0.locks.contains_key(start_at) && s0.amount
                >= s0.locks[start_at].amount && credit_for(
                v.tier_bases,
                (s0.amount - s0.locks[start_at].amount) as u64,
            ) >= placed_credits(s0))
            &&& has_key(v.stakes, owner) && s0.locks.contains_key(start_at) && s0.amount
                >= s0.locks[start_at].amount && credit_for(
                v.tier_bases,
                (s0.amount - s0.locks[start_at].amount) as u64,
            ) < placed_credits(s0) ==> r == Err::<(), ContractError>(
                ContractError::InsufficientOvlCredit,
            )
            &&& r is Ok ==> {
                &&& s1.amount == s0.amount - s0.locks[start_at].amount
                &&& s1.locks == s0.locks.remove(start_at)
                &&& s1.credits == s0.credits
                &&& s1.tier == tier_count(v.tier_bases, s1.amount) as u8
                &&& s1.ovl_credit_amount == credit_for(v.tier_bases, s1.amount)
                &&& s1.available + placed_credits(s1) == s1.ovl_credit_amount
                &&& v1.total_staked_amount == v.total_staked_amount - s0.locks[start_at].amount
                &&& forall|o: Address| o != owner ==> #[trigger] owner_stake(v1, o) == owner_stake(v, o)
            }
            &&& r is Err ==> v1 == v
        }),
{
    if unstake_result(v, owner, start_at) is Ok {
        let x = crate::staking::unstaked_view(v, owner, start_at);
        lemma_put(v.stakes, owner, x);
        crate::assoc::lemma_sum_values_bounds(owner_stake(v, owner).credits);
    }
}

/// Where placing credits is accepted, the holder's available credits shrink
/// by the amount and the credits placed with the project grow by it; the
/// credits placed with other projects, the amount, the locks, the tier and
/// the holder's credits stay, as does every other holder's stake. Where it
/// is refused, the holder's stake stays.
pub proof fn law_deposit_records(v: StateView, owner: Address, project: ContractAddress, amount: u64)
    requires
        state_wf(v),
        deposit_credit_in_bounds(v, owner, project, amount),
    ensures
        ({
            let v1 = after_deposit_credit(v, owner, project, amount);
            let s0 = owner_stake(v, owner);
            let s1 = owner_stake(v1, owner);
            &&& deposit_credit_result(v, owner, amount) is Ok ==> {
                &&& s1.available == s0.available - amount
                &&& get_or(s1.credits, project, 0u64) == get_or(s0.credits, project, 0u64) + amount
                &&& forall|q: ContractAddress|
                    q != project ==> #[trigger] get_or(s1.credits, q, 0u64) == get_or(
                        s0.credits,
                        q,
                        0u64,
                    )
                &&& s1.amount == s0.amount && s1.locks == s0.locks && s1.tier == s0.tier
                &&& s1.ovl_credit_amount == s0.ovl_credit_amount
            }
            &&& deposit_credit_result(v, owner, amount) is Err ==> s1 == s0
            &&& forall|o: Address| o != owner ==> #[trigger] owner_stake(v1, o) == owner_stake(v, o)
            &&& v1.total_staked_amount == v.total_staked_amount
        }),
{
    crate::state::lemma_owner_stake_wf(v, owner);
    if deposit_credit_result(v, owner, amount) is Ok {
        let s0 = owner_stake(v, owner);
        lemma_put(s0.credits, project, (get_or(s0.credits, project, 0u64) + amount) as u64);
        lemma_put(v.stakes, owner, crate::credits::deposited_view(v, owner, project, amount));
    } else {
        lemma_put(v.stakes, owner, owner_stake(v, owner));
    }
}

/// Taking credits back is accepted exactly when the holder has a stake,
/// has credits placed with the project, and those cover the amount; an
/// unknown holder or project is refused as not found, too large an amount
/// as not deposited. Where it is accepted, the available credits grow by the
/// amount and the credits placed with the project shrink by it, the rest of
/// the holder's stake and every other stake staying; where it is refused,
/// nothing changes.
pub proof fn law_withdraw_records(v: StateView, owner: Address, project: ContractAddress, amount: u64)
    requires
        state_wf(v),
        withdraw_credit_in_bounds(v, owner, project, amount),
    ensures
        ({
            let v1 = after_withdraw_credit(v, owner, project, amount);
            let s0 = owner_stake(v, owner);
            let s1 = owner_stake(v1, owner);
            let r = withdraw_credit_result(v, owner, project, amount);
            &&& r is Ok <==> (has_key(v.stakes, owner) && has_key(s0.credits, project) && amount
                <= value_of(s0.credits, project))
            &&& (!has_key(v.stakes, owner) || !has_key(s0.credits, project)) ==> r == Err::<
                (),
                ContractError,
            >(ContractError::ProjectNotFound)
            &&& has_key(v.stakes, owner) && has_key(s0.credits, project) && amount > value_of(
                s0.credits,
                project,
            ) ==> r == Err::<(), ContractError>(ContractError::InsufficientDepositedOvlCredit)
            &&& r is Ok ==> {
                &&& s1.available == s0.available + amount
                &&& get_or(s1.credits, project, 0u64) == get_or(s0.credits, project, 0u64) - amount
                &&& forall|q: ContractAddress|
                    q != project ==> #[trigger] get_or(s1.credits, q, 0u64) == get_or(
                        s0.credits,
                        q,
                        0u64,
                    )
                &&& s1.amount == s0.amount && s1.locks == s0.locks && s1.tier == s0.tier
                &&& s1.ovl_credit_amount == s0.ovl_credit_amount
                &&& forall|o: Address| o != owner ==> #[trigger] owner_stake(v1, o) == owner_stake(v, o)
            }
            &&& r is Err ==> v1 == v
        }),
{
    if withdraw_credit_result(v, owner, project, amount) is Ok {
        crate::state::lemma_owner_stake_wf(v, owner);
        let s0 = owner_stake(v, owner);
        lemma_put(s0.credits, project, (value_of(s0.credits, project) - amount) as u64);
        lemma_put(v.stakes, owner, crate::credits::withdrawn_view(v, owner, project, amount));
    }
}

/// The quote for unstaking a lock: an unknown holder or lock is refused.
/// Before the lock ends, nothing is earned, the fee is the reward over the
/// early-fee days (half the lock, at least thirty) but at most the amount,
/// the rest of the amount is sent, and the days staked are the whole days
/// since the start. From its end on, no fee is charged and the amount is sent
/// with the reward over the whole duration. A reward that cannot be computed
/// refuses the quote with the same error.
pub proof fn law_unstake_quote_figures(v: StateView, owner: Address, start_at: u64, now: u64)
    ensures
        !has_key(v.stakes, owner) ==> unstake_quote(v, owner, start_at, now) == Err::<
            crate::types::ViewUnstakeResponse,
            ContractError,
        >(ContractError::StakeOwnerNotFound),
        has_key(v.stakes, owner) && !value_of(v.stakes, owner).locks.contains_key(start_at)
            ==> unstake_quote(v, owner, start_at, now) == Err::<
            crate::types::ViewUnstakeResponse,
            ContractError,
        >(ContractError::LockNotFound),
        ({
            let l = value_of(v.stakes, owner).locks[start_at];
            let fee = staking_reward(v, l.amount, l.bonus_rate, l.duration, early_fee_days(l.duration), true);
            let full = staking_reward(v, l.amount, l.bonus_rate, l.duration, l.duration, true);
            let elapsed: int = if now >= l.start_at {
                now - l.start_at
            } else {
                l.start_at - now
            };
            let q = unstake_quote(v, owner, start_at, now);
            has_key(v.stakes, owner) && value_of(v.stakes, owner).locks.contains_key(start_at) ==> {
                &&& now < l.end_at ==> {
                    &&& fee is Err ==> q == Err::<crate::types::ViewUnstakeResponse, ContractError>(fee->Err_0)
                    &&& fee is Ok ==> q is Ok && {
                        let r = q->Ok_0;
                        &&& r.staked_amount == l.amount
                        &&& r.staking_reward == 0
                        &&& r.early_fee_days == early_fee_days(l.duration)
                        &&& r.early_fee == (if fee->Ok_0 < l.amount {
                            fee->Ok_0
                        } else {
                            l.amount
                        })
                        &&& r.send_amount == l.amount - r.early_fee
                        &&& r.staking_days == (elapsed / 86400000) as u16
                        &&& r.left_days == (l.duration - r.staking_days) as u16
                    }
                }
                &&& now >= l.end_at ==> {
                    &&& full is Err ==> q == Err::<crate::types::ViewUnstakeResponse, ContractError>(full->Err_0)
                    &&& full is Ok ==> q is Ok && {
                        let r = q->Ok_0;
                        &&& r.staked_amount == l.amount
                        &&& r.staking_reward == full->Ok_0
                        &&& r.early_fee == 0
                        &&& r.early_fee_days == 0
                        &&& r.left_days == 0
                        &&& r.staking_days == l.duration
                        &&& r.send_amount == (l.amount + full->Ok_0) as u64
                    }
                }
            }
        }),
{
}

/// The reward of a lock is the reward of its amount at its bonus rate and
/// duration, counted over the days asked for or, by default, its whole
/// duration, measured against the staked total (which already holds it).
/// An unknown holder or lock is refused.
pub proof fn law_lock_reward(v: StateView, owner: Address, start_at: u64, days: Option<u16>)
    ensures
        !has_key(v.stakes, owner) ==> lock_staking_reward(v, owner, start_at, days) == Err::<
            u64,
            ContractError,
        >(ContractError::StakeOwnerNotFound),
        has_key(v.stakes, owner) && !value_of(v.stakes, owner).locks.contains_key(start_at)
            ==> lock_staking_reward(v, owner, start_at, days) == Err::<u64, ContractError>(
            ContractError::LockNotFound,
        ),
        ({
            let l = value_of(v.stakes, owner).locks[start_at];
            has_key(v.stakes, owner) && value_of(v.stakes, owner).locks.contains_key(start_at) ==> {
                &&& lock_staking_reward(v, owner, start_at, None) == staking_reward(
                    v,
                    l.amount,
                    l.bonus_rate,
                    l.duration,
                    l.duration,
                    true,
                )
                &&& forall|d: u16|
                    #[trigger] lock_staking_reward(v, owner, start_at, Some(d)) == staking_reward(
                        v,
                        l.amount,
                        l.bonus_rate,
                        l.duration,
                        d,
                        true,
                    )
            }
        }),
{
}

/// The lock duration that comes with staked tokens is read from the first
/// two bytes, least significant first; further bytes are ignored, and
/// fewer than two bytes give nothing.
pub proof fn law_duration_bytes(data: Seq<u8>)
    ensures
        data.len() < 2 ==> le_u16_prefix(data) is None,
        data.len() >= 2 ==> le_u16_prefix(data) == Some((data[0] + 256 * data[1]) as u16),
        data.len() >= 2 ==> le_u16_prefix(data)->Some_0 == data[0] + 256 * data[1],
{
}

/// Storage lists projects by the bytes of their index first, least
/// significant byte first: of two projects whose indexes differ in their
/// lowest byte, the one with the smaller lowest byte comes first.
pub proof fn law_storage_order_lowest_byte(a: ContractAddress, b: ContractAddress)
    ensures
        a.index % 256 < b.index % 256 ==> stored_before(a, b),
        a.index % 256 < b.index % 256 ==> !stored_before(b, a),
{
    let x = a.index;
    let y = b.index;
    assert(((x >> 0u64) & 0xff) as u8 == x % 256) by (bit_vector);
    assert(((y >> 0u64) & 0xff) as u8 == y % 256) by (bit_vector);
    let ba = address_bytes(a);
    let bb = address_bytes(b);
    assert(le_bytes(x).len() == 8);
    assert(ba[0] == le_bytes(x)[0]);
    assert(bb[0] == le_bytes(y)[0]);
}

/// Of two projects with one index, the subindex decides the order, by its
/// bytes, least significant first.
pub proof fn law_storage_order_same_index(a: ContractAddress, b: ContractAddress)
    requires
        a.index == b.index,
    ensures
        stored_before(a, b) == bytes_lt(le_bytes(a.subindex), le_bytes(b.subindex)),
{
    lemma_bytes_lt_common_prefix(le_bytes(a.index), le_bytes(a.subindex), le_bytes(b.subindex));
}

/// Byte strings that start alike compare as their rests do.
proof fn lemma_bytes_lt_common_prefix(p: Seq<u8>, x: Seq<u8>, y: Seq<u8>)
    ensures
        bytes_lt(p + x, p + y) == bytes_lt(x, y),
    decreases p.len(),
{
    if p.len() > 0 {
        assert((p + x).drop_first() =~= p.drop_first() + x);
        assert((p + y).drop_first() =~= p.drop_first() + y);
        lemma_bytes_lt_common_prefix(p.drop_first(), x, y);
    } else {
        assert(p + x =~= x);
        assert(p + y =~= y);
    }
}

/// The early-exit estimate for an amount not staked yet: the fee is the
/// reward of the amount at the rate 166 over the early-fee days (half the
/// lock, at least thirty), measured against the total plus the amount; the
/// amount less the fee (nothing, where the fee reaches it) is sent; the days
/// left are the lock's days less those staked; nothing is earned.
pub proof fn law_early_fee_estimate(v: StateView, params: ViewCalcEarlyFeeParams)
    requires
        params.staking_days <= params.duration,
    ensures
        ({
            let fee = staking_reward(
                v,
                params.amount,
                166,
                params.duration,
                early_fee_days(params.duration),
                false,
            );
            let e = early_fee_estimate(v, params);
            &&& fee is Err ==> e == Err::<ViewUnstakeResponse, ContractError>(fee->Err_0)
            &&& fee is Ok ==> e is Ok && {
                let r = e->Ok_0;
                &&& r.staked_amount == params.amount
                &&& r.staking_days == params.staking_days
                &&& r.early_fee_days == early_fee_days(params.duration)
                &&& r.left_days == params.duration - params.staking_days
                &&& r.early_fee == fee->Ok_0
                &&& r.staking_reward == 0
                &&& r.send_amount + (if fee->Ok_0 < params.amount {
                    fee->Ok_0 as int
                } else {
                    params.amount as int
                }) == params.amount
            }
        }),
{
}

/// A tier table built from parameters holds exactly the thresholds that
/// occur in them, each with the values of its first occurrence: a later
/// entry with a threshold already seen changes nothing.
pub proof fn law_tier_params_first_wins(ps: Seq<TierBaseParams>, m: Map<u64, TierBaseState>)
    requires
        table_of_params(ps, m),
    ensures
        forall|k: u64| m.contains_key(k) <==> exists|j: int| 0 <= j < ps.len() && ps[j].threshold == k,
        forall|j: int|
            0 <= j < ps.len() && (forall|i: int| 0 <= i < j ==> ps[i].threshold != ps[j].threshold)
                ==> m.contains_key(#[trigger] ps[j].threshold) && m[ps[j].threshold] == (TierBaseState {
                max_alloc: ps[j].max_alloc,
                rate: ps[j].rate,
            }),
{
    assert forall|j: int|
        0 <= j < ps.len() && (forall|i: int| 0 <= i < j ==> ps[i].threshold != ps[j].threshold)
            implies m.contains_key(#[trigger] ps[j].threshold) && m[ps[j].threshold] == (TierBaseState {
            max_alloc: ps[j].max_alloc,
            rate: ps[j].rate,
        }) by {
        let k = ps[j].threshold;
        assert(m.contains_key(k));
        let j2 = choose|j2: int|
            #![trigger is_first_threshold(ps, j2, k)]
            j2 < ps.len() && is_first_threshold(ps, j2, k) && m[k] == base_of(ps[j2]);
        if j2 < j {
            assert(ps[j2].threshold != k);
        } else if j2 > j {
            assert(ps[j].threshold != k);
        }
    }
}

/// While paused the unstake entrypoint and view answer `ContractPaused`;
/// otherwise they give the quote.
pub proof fn law_unstake_answer_paused(v: StateView, owner: Address, start_at: u64, now: u64)
    ensures
        v.paused ==> unstake_answer(v, owner, start_at, now) == Err::<ViewUnstakeResponse, ContractError>(
            ContractError::ContractPaused,
        ),
        !v.paused ==> unstake_answer(v, owner, start_at, now) == unstake_quote(v, owner, start_at, now),
{
}

/// Staking completes on every input it refuses, and on those it accepts
/// exactly where the holder's new amount and the staked total fit in a
/// `u64`, the credits placed fit in a `u64`, the credit computation for the
/// new amount stays within its limits and its credits cover those placed.
pub proof fn law_stake_limits(v: StateView, owner: Address, amount: u64, duration: u16, start_at: u64)
    ensures
        !(30 <= duration <= 730 && start_at + duration * 86400000 <= u64::MAX) ==> stake_in_bounds(
            v,
            owner,
            amount,
            duration,
            start_at,
        ),
        30 <= duration <= 730 && start_at + duration * 86400000 <= u64::MAX ==> (stake_in_bounds(
            v,
            owner,
            amount,
            duration,
            start_at,
        ) <==> {
            let s0 = owner_stake(v, owner);
            &&& s0.amount + amount <= u64::MAX
            &&& v.total_staked_amount + amount <= u64::MAX
            &&& placed_credits(s0) <= u64::MAX
            &&& credit_computable(v.tier_bases, (s0.amount + amount) as u64)
            &&& credit_for(v.tier_bases, (s0.amount + amount) as u64) >= placed_credits(s0)
        }),
{
}

/// The credit computation for an amount stays within its limits exactly
/// where the amount reaches no threshold, or its product with the rate of
/// the highest threshold reached fits in a `u64` and has at least three
/// digits.
pub proof fn law_credit_limits(t: Seq<(u64, TierBaseState)>, amount: u64)
    ensures
        credit_computable(t, amount) <==> (tier_count(t, amount) == 0 || (100 <= amount * t[tier_count(
            t,
            amount,
        ) - 1].1.rate <= u64::MAX)),
{
}

/// Unstaking completes exactly where, once the holder, the lock and enough
/// stake are found, the credits placed fit in a `u64` and the credit
/// computation for the remaining amount stays within its limits, and where
/// it is accepted the staked total covers the lock.
pub proof fn law_unstake_limits(v: StateView, owner: Address, start_at: u64)
    ensures
        unstake_in_bounds(v, owner, start_at) <==> {
            let s = value_of(v.stakes, owner);
            &&& (has_key(v.stakes, owner) && s.locks.contains_key(start_at) && s.amount
                >= s.locks[start_at].amount) ==> placed_credits(s) <= u64::MAX && credit_computable(
                v.tier_bases,
                (s.amount - s.locks[start_at].amount) as u64,
            )
            &&& unstake_result(v, owner, start_at) is Ok ==> v.total_staked_amount
                >= s.locks[start_at].amount
        },
{
}

/// The reward computation completes exactly where the pool fits in a `u64`
/// and, once the product of safe, rate, days and amount fits in a `u128`,
/// the pool is not empty and that product times `100 + duration` fits in a
/// `u128`; the number of days sets no other limit.
pub proof fn law_reward_limits(
    v: StateView,
    amount: u64,
    bonus_rate: u16,
    duration: u16,
    staking_days: u16,
    already_staked: bool,
)
    ensures
        ({
            let pool: int = if already_staked {
                v.total_staked_amount as int
            } else {
                v.total_staked_amount + amount
            };
            let base = v.ovl_safe_amount * bonus_rate * staking_days * amount;
            reward_in_bounds(v, amount, bonus_rate, duration, staking_days, already_staked) <==> {
                &&& pool <= u64::MAX
                &&& base <= u128::MAX ==> pool != 0 && base * (100 + duration) <= u128::MAX
            }
        }),
{
}

/// Placing credits completes wherever it is refused, and where it is
/// accepted exactly when the credits placed with the project stay within a
/// `u64`; taking credits back completes wherever it is refused, and where it
/// is accepted exactly when the available credits stay within a `u64`.
pub proof fn law_credit_move_limits(v: StateView, owner: Address, project: ContractAddress, amount: u64)
    ensures
        deposit_credit_in_bounds(v, owner, project, amount) <==> (amount <= owner_stake(v, owner).available
            ==> get_or(owner_stake(v, owner).credits, project, 0u64) + amount <= u64::MAX),
        withdraw_credit_in_bounds(v, owner, project, amount) <==> (withdraw_credit_result(
            v,
            owner,
            project,
            amount,
        ) is Ok ==> owner_stake(v, owner).available + amount <= u64::MAX),
{
}

/// The unstake quote completes where the lock is missing, and otherwise
/// exactly where: before the lock ends, the days staked (taken to 16 bits)
/// do not exceed its duration and the reward over the early-fee days can be
/// computed; from its end on, the reward over the whole duration can be
/// computed and, added to the amount, fits in a `u64`.
pub proof fn law_unstake_quote_limits(v: StateView, owner: Address, start_at: u64, now: u64)
    ensures
        !(has_key(v.stakes, owner) && value_of(v.stakes, owner).locks.contains_key(start_at))
            ==> unstake_quote_in_bounds(v, owner, start_at, now),
        ({
            let l = value_of(v.stakes, owner).locks[start_at];
            let elapsed: int = if now >= l.start_at {
                now - l.start_at
            } else {
                l.start_at - now
            };
            has_key(v.stakes, owner) && value_of(v.stakes, owner).locks.contains_key(start_at) ==> (
            unstake_quote_in_bounds(v, owner, start_at, now) <==> if now < l.end_at {
                &&& (elapsed / 86400000) as u16 <= l.duration
                &&& reward_in_bounds(
                    v,
                    l.amount,
                    l.bonus_rate,
                    l.duration,
                    early_fee_days(l.duration),
                    true,
                )
            } else {
                &&& reward_in_bounds(v, l.amount, l.bonus_rate, l.duration, l.duration, true)
                &&& staking_reward(v, l.amount, l.bonus_rate, l.duration, l.duration, true) is Ok
                    ==> l.amount + staking_reward(
                    v,
                    l.amount,
                    l.bonus_rate,
                    l.duration,
                    l.duration,
                    true,
                )->Ok_0 <= u64::MAX
            })
        }),
{
}

/// The reward of a lock completes where the lock is missing, and otherwise
/// exactly where the reward of its amount at its rate and duration over the
/// days asked for (by default its duration), against the staked total, can
/// be computed.
pub proof fn law_lock_reward_limits(v: StateView, owner: Address, start_at: u64, days: Option<u16>)
    ensures
        !(has_key(v.stakes, owner) && value_of(v.stakes, owner).locks.contains_key(start_at))
            ==> lock_reward_in_bounds(v, owner, start_at, days),
        ({
            let l = value_of(v.stakes, owner).locks[start_at];
            let d: u16 = match days {
                Some(d) => d,
                None => l.duration,
            };
            has_key(v.stakes, owner) && value_of(v.stakes, owner).locks.contains_key(start_at) ==> (
            lock_reward_in_bounds(v, owner, start_at, days) <==> reward_in_bounds(
                v,
                l.amount,
                l.bonus_rate,
                l.duration,
                d,
                true,
            ))
        }),
{
}

} // verus!
