//! Staking and unstaking: locks, the staked totals, and the tier and credits
//! that follow from the amount a holder has staked.
use vstd::prelude::*;
use crate::assoc::{has_key, lemma_put, lemma_put_put, put, value_of};
use crate::errors::{ContractError, ContractResult};
use crate::state::{credit_total, lemma_owner_stake_wf, lemma_put_stake_wf, owner_stake, placed_credits, state_wf, State, StakeState, StakeView, StateView};
use crate::tiers::{credit_computable, credit_for, credit_for_amount, matching_tier, table_entries, tier_count};
use crate::time::{days_to_millis, timestamp_checked_add, MILLIS_PER_DAY};
use crate::types::{Address, LockState, BONUS_RATE, MAX_STAKING_DURATION, MIN_STAKING_DURATION};

verus! {

/// When a lock that starts at `start_at` and lasts `duration` days ends.
pub open spec fn lock_end(start_at: u64, duration: u16) -> int {
    start_at + duration * MILLIS_PER_DAY
}

/// What staking answers: the duration must lie within the allowed days, and
/// the end of the lock must be a representable time.
pub open spec fn stake_result(start_at: u64, duration: u16) -> ContractResult<()> {
    if duration < MIN_STAKING_DURATION {
        Err(ContractError::NotEnoughMinStakingDuration)
    } else if duration > MAX_STAKING_DURATION {
        Err(ContractError::OverMaxStakingDuration)
    } else if lock_end(start_at, duration) > u64::MAX {
        Err(ContractError::InvalidDuration)
    } else {
        Ok(())
    }
}

/// The holder's stake after a successful stake: the amount grows, the tier
/// and credits follow the new amount, the placed credits stay, and a lock is
/// recorded under its start time (replacing one with the same start).
pub open spec fn staked_view(
    v: StateView,
    owner: Address,
    amount: u64,
    duration: u16,
    start_at: u64,
) -> StakeView {
    let s0 = owner_stake(v, owner);
    let new_amount = (s0.amount + amount) as u64;
    let c = credit_for(v.tier_bases, new_amount);
    StakeView {
        amount: new_amount,
        tier: tier_count(v.tier_bases, new_amount) as u8,
        credits: s0.credits,
        ovl_credit_amount: c as u64,
        available: (c - placed_credits(s0)) as u64,
        locks: s0.locks.insert(
            start_at,
            LockState {
                amount,
                duration,
                bonus_rate: BONUS_RATE,
                start_at,
                end_at: lock_end(start_at, duration) as u64,
            },
        ),
    }
}

/// The state after staking. A holder without a stake gets an empty one even
/// where staking is refused.
pub open spec fn after_stake(
    v: StateView,
    owner: Address,
    amount: u64,
    duration: u16,
    start_at: u64,
) -> StateView {
    if stake_result(start_at, duration) is Ok {
        StateView {
            stakes: put(v.stakes, owner, staked_view(v, owner, amount, duration, start_at)),
            total_staked_amount: (v.total_staked_amount + amount) as u64,
            ..v
        }
    } else {
        StateView { stakes: put(v.stakes, owner, owner_stake(v, owner)), ..v }
    }
}

/// The inputs on which staking completes: where it is accepted, the new
/// amount, the placed credits and the total fit in a `u64`, the credit
/// computation stays within its limits, and the new credits cover those
/// already placed.
pub open spec fn stake_in_bounds(
    v: StateView,
    owner: Address,
    amount: u64,
    duration: u16,
    start_at: u64,
) -> bool {
    stake_result(start_at, duration) is Ok ==> {
        let s0 = owner_stake(v, owner);
        let new_amount = s0.amount + amount;
        &&& new_amount <= u64::MAX
        &&& placed_credits(s0) <= u64::MAX
        &&& credit_computable(v.tier_bases, new_amount as u64)
        &&& credit_for(v.tier_bases, new_amount as u64) >= placed_credits(s0)
        &&& v.total_staked_amount + amount <= u64::MAX
    }
}

/// What unstaking the lock of `owner` that started at `start_at` answers:
/// the holder and the lock must exist, the holder's stake must cover the lock,
/// and the credits for the remaining amount must cover those placed.
pub open spec fn unstake_result(v: StateView, owner: Address, start_at: u64) -> ContractResult<()> {
    if !has_key(v.stakes, owner) {
        Err(ContractError::StakeOwnerNotFound)
    } else {
        let s = value_of(v.stakes, owner);
        if !s.locks.contains_key(start_at) {
            Err(ContractError::LockNotFound)
        } else if s.amount < s.locks[start_at].amount {
            Err(ContractError::InsufficientOvl)
        } else if credit_for(v.tier_bases, (s.amount - s.locks[start_at].amount) as u64)
            < placed_credits(s) {
            Err(ContractError::InsufficientOvlCredit)
        } else {
            Ok(())
        }
    }
}

/// The holder's stake after a successful unstake: the lock's amount leaves
/// the stake, the tier and credits follow the remaining amount, the lock is
/// removed.
pub open spec fn unstaked_view(v: StateView, owner: Address, start_at: u64) -> StakeView {
    let s = value_of(v.stakes, owner);
    let after = (s.amount - s.locks[start_at].amount) as u64;
    let c = credit_for(v.tier_bases, after);
    StakeView {
        amount: after,
        tier: tier_count(v.tier_bases, after) as u8,
        credits: s.credits,
        ovl_credit_amount: c as u64,
        available: (c - placed_credits(s)) as u64,
        locks: s.locks.remove(start_at),
    }
}

/// The state after unstaking; unchanged where unstaking is refused.
pub open spec fn after_unstake(v: StateView, owner: Address, start_at: u64) -> StateView {
    if unstake_result(v, owner, start_at) is Ok {
        StateView {
            stakes: put(v.stakes, owner, unstaked_view(v, owner, start_at)),
            total_staked_amount: (v.total_staked_amount - value_of(
                v.stakes,
                owner,
            ).locks[start_at].amount) as u64,
            ..v
        }
    } else {
        v
    }
}

/// The inputs on which unstaking completes: once the holder, the lock and
/// enough stake are found, the placed credits fit in a `u64` and the credit
/// computation stays within its limits; where it is accepted, the total
/// covers the lock.
pub open spec fn unstake_in_bounds(v: StateView, owner: Address, start_at: u64) -> bool {
    let s = value_of(v.stakes, owner);
    &&& (has_key(v.stakes, owner) && s.locks.contains_key(start_at) && s.amount
        >= s.locks[start_at].amount) ==> {
        &&& placed_credits(s) <= u64::MAX
        &&& credit_computable(v.tier_bases, (s.amount - s.locks[start_at].amount) as u64)
    }
    &&& unstake_result(v, owner, start_at) is Ok ==> v.total_staked_amount
        >= s.locks[start_at].amount
}

impl State {
    /// Ends the lock of `owner` that started at `start_at`.
    pub fn unstake(&mut self, owner: &Address, start_at: u64) -> (r: ContractResult<()>)
        requires
            state_wf(old(self)@),
            unstake_in_bounds(old(self)@, *owner, start_at),
        ensures
            state_wf(final(self)@),
            r == unstake_result(old(self)@, *owner, start_at),
            final(self)@ == after_unstake(old(self)@, *owner, start_at),
    {
        let ghost v = self@;
        let i = match self.find_stake(owner) {
            Some(i) => i,
            None => {
                return Err(ContractError::StakeOwnerNotFound);
            },
        };
        assert(self.stakes@[i as int].1@ == value_of(v.stakes, *owner));
        let lock_amount = match self.stakes[i].1.locks.get(&start_at) {
            Some(l) => l.amount,
            None => {
                return Err(ContractError::LockNotFound);
            },
        };
        let curr_amount = self.stakes[i].1.amount;
        if !(curr_amount >= lock_amount) {
            return Err(ContractError::InsufficientOvl);
        }
        let after_amount = curr_amount - lock_amount;
        let staked_ovl_credit = credit_total(&self.stakes[i].1.staked_ovl_credits);
        let tiers = table_entries(&self.tier_bases);
        let index = matching_tier(&tiers, after_amount);
        let ovl_credit_amount = credit_for_amount(&tiers, index, after_amount);
        if !(ovl_credit_amount >= staked_ovl_credit) {
            return Err(ContractError::InsufficientOvlCredit);
        }
        let mut stake = self.swap_stake(i, StakeState::new());
        stake.amount = after_amount;
        stake.tier = index as u8;
        stake.ovl_credit_amount = ovl_credit_amount;
        stake.available_ovl_credit_amount = ovl_credit_amount - staked_ovl_credit;
        stake.locks.remove(&start_at);
        self.total_staked_amount = self.total_staked_amount - lock_amount;
        assert(stake@ == unstaked_view(v, *owner, start_at));
        self.swap_stake(i, stake);
        proof {
            lemma_owner_stake_wf(v, *owner);
            lemma_put_stake_wf(v, *owner, unstaked_view(v, *owner, start_at));
            lemma_put(v.stakes, *owner, unstaked_view(v, *owner, start_at));
            assert(self@ =~= after_unstake(v, *owner, start_at));
        }
        Ok(())
    }

    /// Stakes `amount` tokens of `owner` for `duration` days from `start_at`.
    pub fn stake(&mut self, owner: &Address, amount: u64, duration: u16, start_at: u64) -> (r:
        ContractResult<()>)
        requires
            state_wf(old(self)@),
            stake_in_bounds(old(self)@, *owner, amount, duration, start_at),
        ensures
            state_wf(final(self)@),
            r == stake_result(start_at, duration),
            final(self)@ == after_stake(old(self)@, *owner, amount, duration, start_at),
    {
        let ghost v = self@;
        let i = self.stake_entry(owner);
        proof {
            lemma_owner_stake_wf(v, *owner);
            lemma_put(v.stakes, *owner, owner_stake(v, *owner));
        }
        if !(MIN_STAKING_DURATION <= duration) {
            return Err(ContractError::NotEnoughMinStakingDuration);
        }
        if !(duration <= MAX_STAKING_DURATION) {
            return Err(ContractError::OverMaxStakingDuration);
        }
        let end_at = match timestamp_checked_add(start_at, days_to_millis(duration as u64)) {
            Some(e) => e,
            None => {
                return Err(ContractError::InvalidDuration);
            },
        };
        let lock_state = LockState::new(amount, duration, BONUS_RATE, start_at, end_at);
        let mut stake = self.swap_stake(i, StakeState::new());
        assert(stake@ == owner_stake(v, *owner));
        stake.amount = stake.amount + amount;
        let staked_ovl_credit = credit_total(&stake.staked_ovl_credits);
        let tiers = table_entries(&self.tier_bases);
        let index = matching_tier(&tiers, stake.amount);
        let ovl_credit_amount = credit_for_amount(&tiers, index, stake.amount);
        stake.tier = index as u8;
        stake.ovl_credit_amount = ovl_credit_amount;
        stake.available_ovl_credit_amount = ovl_credit_amount - staked_ovl_credit;
        stake.locks.insert(start_at, lock_state);
        self.total_staked_amount = self.total_staked_amount + amount;
        assert(stake@ == staked_view(v, *owner, amount, duration, start_at));
        self.swap_stake(i, stake);
        proof {
            lemma_put_put(v.stakes, *owner, owner_stake(v, *owner), staked_view(v, *owner, amount, duration, start_at));
            lemma_put_stake_wf(v, *owner, staked_view(v, *owner, amount, duration, start_at));
            assert(self@ =~= after_stake(v, *owner, amount, duration, start_at));
        }
        Ok(())
    }
}

} // verus!
