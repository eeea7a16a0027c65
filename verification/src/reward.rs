//! Staking rewards and early-exit fees.
//!
//! A lock earns, from the safe, a share of `safe × bonus rate × days` in
//! proportion to its amount against all staked tokens, with a multiplier that
//! grows with the lock's length: `(100 + duration) / 100`, and the bonus rate
//! counted in millionths.
use vstd::prelude::*;
use crate::assoc::{has_key, value_of};
use crate::errors::{ContractError, ContractResult};
use crate::state::{state_wf, State, StateView};
use crate::time::{duration_days, timestamp_duration_between, MILLIS_PER_DAY};
use crate::types::{Address, ViewUnstakeResponse, BONUS_DURATION, BONUS_RATE_RATIO, MIN_STAKING_DURATION};

verus! {

/// The staked total that a reward is measured against: the current total,
/// plus the amount itself where it is not staked yet.
pub open spec fn reward_pool(v: StateView, amount: u64, already_staked: bool) -> int {
    if already_staked {
        v.total_staked_amount as int
    } else {
        v.total_staked_amount + amount
    }
}

/// The reward for `amount` locked `duration` days at `bonus_rate`, counted
/// over `staking_days` days. Refused with `OverflowError` where one of the
/// products `safe × rate`, `… × days`, `… × amount` exceeds a `u128`, or the
/// reward exceeds a `u64`.
pub open spec fn staking_reward(
    v: StateView,
    amount: u64,
    bonus_rate: u16,
    duration: u16,
    staking_days: u16,
    already_staked: bool,
) -> ContractResult<u64> {
    let p1 = v.ovl_safe_amount * bonus_rate;
    let p2 = p1 * staking_days;
    let p3 = p2 * amount;
    if p1 > u128::MAX || p2 > u128::MAX || p3 > u128::MAX {
        Err(ContractError::OverflowError)
    } else {
        let r = p3 * (BONUS_DURATION + duration) / reward_pool(v, amount, already_staked)
            / (BONUS_RATE_RATIO as int) / (BONUS_DURATION as int);
        if r > u64::MAX {
            Err(ContractError::OverflowError)
        } else {
            Ok(r as u64)
        }
    }
}

/// The inputs on which the reward computation completes: the pool fits in a
/// `u64`; once the checked products fit, the pool is not empty and the
/// product with the duration multiplier fits in a `u128`.
pub open spec fn reward_in_bounds(
    v: StateView,
    amount: u64,
    bonus_rate: u16,
    duration: u16,
    staking_days: u16,
    already_staked: bool,
) -> bool {
    let p3 = v.ovl_safe_amount * bonus_rate * staking_days * amount;
    &&& reward_pool(v, amount, already_staked) <= u64::MAX
    &&& p3 <= u128::MAX ==> {
        &&& reward_pool(v, amount, already_staked) != 0
        &&& p3 * (BONUS_DURATION + duration) <= u128::MAX
    }
}

/// The lock of `owner` that started at `start_at`; meaningful where both
/// exist.
pub open spec fn lock_of(v: StateView, owner: Address, start_at: u64) -> crate::types::LockState {
    value_of(v.stakes, owner).locks[start_at]
}

/// Both the holder and the lock exist.
pub open spec fn lock_found(v: StateView, owner: Address, start_at: u64) -> bool {
    has_key(v.stakes, owner) && value_of(v.stakes, owner).locks.contains_key(start_at)
}

/// The reward of an existing lock, counted over `staking_days` days or, by
/// default, its whole duration.
pub open spec fn lock_staking_reward(
    v: StateView,
    owner: Address,
    start_at: u64,
    staking_days: Option<u16>,
) -> ContractResult<u64> {
    if !has_key(v.stakes, owner) {
        Err(ContractError::StakeOwnerNotFound)
    } else if !value_of(v.stakes, owner).locks.contains_key(start_at) {
        Err(ContractError::LockNotFound)
    } else {
        let l = lock_of(v, owner, start_at);
        staking_reward(
            v,
            l.amount,
            l.bonus_rate,
            l.duration,
            match staking_days {
                Some(d) => d,
                None => l.duration,
            },
            true,
        )
    }
}

/// Where the lock exists, its reward computation completes.
pub open spec fn lock_reward_in_bounds(
    v: StateView,
    owner: Address,
    start_at: u64,
    staking_days: Option<u16>,
) -> bool {
    lock_found(v, owner, start_at) ==> {
        let l = lock_of(v, owner, start_at);
        reward_in_bounds(
            v,
            l.amount,
            l.bonus_rate,
            l.duration,
            match staking_days {
                Some(d) => d,
                None => l.duration,
            },
            true,
        )
    }
}

/// The days over which an early exit is charged: half the lock, at least the
/// shortest lock.
pub open spec fn early_fee_days(duration: u16) -> u16 {
    if duration / 2 < MIN_STAKING_DURATION {
        MIN_STAKING_DURATION
    } else {
        (duration / 2) as u16
    }
}

/// Whole days between two times, whichever is later.
pub open spec fn days_between(a: u64, b: u64) -> int {
    (if a >= b {
        a - b
    } else {
        b - a
    }) / (MILLIS_PER_DAY as int)
}

/// What unstaking the lock at time `now` pays. Before the lock ends, the
/// reward over the early-fee days is charged as a fee (at most the staked
/// amount) and the rest of the amount is sent; from its end on, the amount
/// is sent with the reward over the whole duration.
pub open spec fn unstake_quote(v: StateView, owner: Address, start_at: u64, now: u64) -> ContractResult<
    ViewUnstakeResponse,
> {
    if !has_key(v.stakes, owner) {
        Err(ContractError::StakeOwnerNotFound)
    } else if !value_of(v.stakes, owner).locks.contains_key(start_at) {
        Err(ContractError::LockNotFound)
    } else {
        let l = lock_of(v, owner, start_at);
        let staked = l.amount;
        if now < l.end_at {
            let days = days_between(now, l.start_at) as u16;
            let efd = early_fee_days(l.duration);
            match staking_reward(v, l.amount, l.bonus_rate, l.duration, efd, true) {
                Err(e) => Err(e),
                Ok(fee) => Ok(
                    ViewUnstakeResponse {
                        staked_amount: staked,
                        staking_days: days,
                        early_fee_days: efd,
                        left_days: (l.duration - days) as u16,
                        early_fee: if fee < staked {
                            fee
                        } else {
                            staked
                        },
                        staking_reward: 0,
                        send_amount: if fee < staked {
                            (staked - fee) as u64
                        } else {
                            0
                        },
                    },
                ),
            }
        } else {
            match staking_reward(v, l.amount, l.bonus_rate, l.duration, l.duration, true) {
                Err(e) => Err(e),
                Ok(reward) => Ok(
                    ViewUnstakeResponse {
                        staked_amount: staked,
                        staking_days: l.duration,
                        early_fee_days: 0,
                        left_days: 0,
                        early_fee: 0,
                        staking_reward: reward,
                        send_amount: (staked + reward) as u64,
                    },
                ),
            }
        }
    }
}

/// The inputs on which the quote completes: before the end, the days staked
/// (wrapped to 16 bits) do not exceed the duration and the fee computation
/// completes; from the end on, the reward computation completes and the sum
/// of amount and reward fits in a `u64`.
pub open spec fn unstake_quote_in_bounds(v: StateView, owner: Address, start_at: u64, now: u64) -> bool {
    lock_found(v, owner, start_at) ==> {
        let l = lock_of(v, owner, start_at);
        if now < l.end_at {
            &&& days_between(now, l.start_at) as u16 <= l.duration
            &&& reward_in_bounds(
                v,
                l.amount,
                l.bonus_rate,
                l.duration,
                early_fee_days(l.duration),
                true,
            )
        } else {
            &&& reward_in_bounds(v, l.amount, l.bonus_rate, l.duration, l.duration, true)
            &&& staking_reward(v, l.amount, l.bonus_rate, l.duration, l.duration, true) matches Ok(
                reward,
            ) ==> l.amount + reward <= u64::MAX
        }
    }
}

impl State {
    /// The reward for `amount` locked `duration` days at `bonus_rate`,
    /// counted over `staking_days` days; `already_staked` tells whether
    /// `amount` is already part of the staked total.
    pub fn calc_staking_reward(
        &self,
        amount: u64,
        bonus_rate: u16,
        duration: u16,
        staking_days: u16,
        already_staked: bool,
    ) -> (r: ContractResult<u64>)
        requires
            reward_in_bounds(self@, amount, bonus_rate, duration, staking_days, already_staked),
        ensures
            r == staking_reward(self@, amount, bonus_rate, duration, staking_days, already_staked),
    {
        let total_ovl_safe_amount: u128 = self.ovl_safe_amount as u128;
        let mut total_staked_ovl_amount: u64 = self.total_staked_amount;
        if !already_staked {
            total_staked_ovl_amount = total_staked_ovl_amount + amount;
        }
        let total_staked_amount: u128 = total_staked_ovl_amount as u128;
        let staked_amount: u128 = amount as u128;
        let bonus_rate: u128 = bonus_rate as u128;
        let staking_days: u128 = staking_days as u128;
        let duration: u128 = duration as u128;

        let daily_bonus_amount: u128 = match total_ovl_safe_amount.checked_mul(bonus_rate) {
            Some(x) => x,
            None => {
                return Err(ContractError::OverflowError);
            },
        };
        let mut total_bonus_amount: u128 = match daily_bonus_amount.checked_mul(staking_days) {
            Some(x) => x,
            None => {
                return Err(ContractError::OverflowError);
            },
        };
        total_bonus_amount = match total_bonus_amount.checked_mul(staked_amount) {
            Some(x) => x,
            None => {
                return Err(ContractError::OverflowError);
            },
        };

        let mut staking_reward_u128: u128 = total_bonus_amount * (BONUS_DURATION + duration);
        // divide the largest number first: the share of all staked tokens
        staking_reward_u128 = staking_reward_u128 / total_staked_amount;
        // the bonus rate is counted in millionths
        staking_reward_u128 = staking_reward_u128 / BONUS_RATE_RATIO;
        // the multiplier grows over this many days
        staking_reward_u128 = staking_reward_u128 / BONUS_DURATION;

        if !(staking_reward_u128 <= 18446744073709551615u128) {
            return Err(ContractError::OverflowError);
        }
        Ok(staking_reward_u128 as u64)
    }

    /// The reward of the lock of `owner` that started at `start_at`, counted
    /// over `staking_days` days or, by default, its whole duration.
    pub fn calc_lock_staking_reward(
        &self,
        owner: &Address,
        start_at: u64,
        staking_days: Option<u16>,
    ) -> (r: ContractResult<u64>)
        requires
            state_wf(self@),
            lock_reward_in_bounds(self@, *owner, start_at, staking_days),
        ensures
            r == lock_staking_reward(self@, *owner, start_at, staking_days),
    {
        let i = match self.find_stake(owner) {
            Some(i) => i,
            None => {
                return Err(ContractError::StakeOwnerNotFound);
            },
        };
        assert(self.stakes@[i as int].1@ == value_of(self@.stakes, *owner));
        let lock_state = match self.stakes[i].1.locks.get(&start_at) {
            Some(l) => *l,
            None => {
                return Err(ContractError::LockNotFound);
            },
        };
        let amount = lock_state.amount;
        let bonus_rate = lock_state.bonus_rate;
        let duration = lock_state.duration;
        let staking_days: u16 = match staking_days {
            Some(d) => d,
            None => duration,
        };
        self.calc_staking_reward(amount, bonus_rate, duration, staking_days, true)
    }

    /// What unstaking the lock of `owner` that started at `start_at` pays at
    /// time `now`.
    pub fn unstake_quote(&self, owner: &Address, start_at: u64, now: u64) -> (r: ContractResult<
        ViewUnstakeResponse,
    >)
        requires
            state_wf(self@),
            unstake_quote_in_bounds(self@, *owner, start_at, now),
        ensures
            r == unstake_quote(self@, *owner, start_at, now),
    {
        let i = match self.find_stake(owner) {
            Some(i) => i,
            None => {
                return Err(ContractError::StakeOwnerNotFound);
            },
        };
        assert(self.stakes@[i as int].1@ == value_of(self@.stakes, *owner));
        let lock_state = match self.stakes[i].1.locks.get(&start_at) {
            Some(l) => *l,
            None => {
                return Err(ContractError::LockNotFound);
            },
        };
        let mut staking_reward: u64 = 0;
        let mut send_amount: u64 = 0;
        let mut early_fee: u64 = 0;
        let mut left_days: u16 = 0;
        let mut staking_days: u16 = lock_state.duration;
        let mut early_fee_days: u16 = 0;
        let staked_amount: u64 = lock_state.amount;

        if now < lock_state.end_at {
            // early fee
            staking_days = duration_days(timestamp_duration_between(now, lock_state.start_at)) as u16;
            early_fee_days = lock_state.duration / 2;
            if early_fee_days < MIN_STAKING_DURATION {
                early_fee_days = MIN_STAKING_DURATION;
            }
            left_days = lock_state.duration - staking_days;
            early_fee = match self.calc_lock_staking_reward(owner, start_at, Some(early_fee_days)) {
                Ok(x) => x,
                Err(e) => {
                    return Err(e);
                },
            };
            if early_fee < staked_amount {
                send_amount = staked_amount - early_fee;
            } else {
                early_fee = staked_amount;
            }
        } else {
            staking_reward = match self.calc_lock_staking_reward(owner, start_at, None) {
                Ok(x) => x,
                Err(e) => {
                    return Err(e);
                },
            };
            send_amount = staked_amount + staking_reward;
        }
        Ok(
            ViewUnstakeResponse {
                staked_amount,
                staking_days,
                early_fee_days,
                left_days,
                early_fee,
                staking_reward,
                send_amount,
            },
        )
    }
}

} // verus!
