//! Tests of the conditions under which the operations complete: callers that
//! Verus does not check (the host glue) ask these before an operation, and
//! abort where the operation would not complete.
use vstd::prelude::*;
use crate::assoc::{keys_distinct, sum_values, value_of};
use crate::contract::with_safe;
use crate::credits::{deposit_credit_in_bounds, withdraw_credit_in_bounds};
use crate::reward::{early_fee_days, lock_reward_in_bounds, reward_in_bounds, unstake_quote_in_bounds};
use crate::staking::{stake_in_bounds, stake_result, unstake_in_bounds};
use crate::state::{lemma_sum_prefix, owner_stake, state_wf, State};
use crate::tiers::{credit_computable, lemma_table_seq, matching_tier, table_entries, thresholds_increasing};
use crate::time::{days_to_millis, duration_days, timestamp_checked_add, timestamp_duration_between};
use crate::types::{AccountAddress, Address, ContractAddress, ViewCalcEarlyFeeParams, ViewUnstakeResponse, BONUS_RATE, TierBaseState, MAX_STAKING_DURATION, MIN_STAKING_DURATION};

verus! {

/// The sum of the credits, where it fits in a `u64`.
pub fn placed_total(credits: &Vec<(ContractAddress, u64)>) -> (r: Option<u64>)
    ensures
        match r {
            Some(t) => t == sum_values(credits@),
            None => sum_values(credits@) > u64::MAX,
        },
{
    let mut total: u64 = 0;
    let mut j: usize = 0;
    while j < credits.len()
        invariant
            j <= credits@.len(),
            total == sum_values(credits@.take(j as int)),
        decreases credits@.len() - j,
    {
        proof {
            lemma_sum_prefix(credits@, j as int);
            lemma_sum_prefix(credits@, j as int + 1);
        }
        total = match total.checked_add(credits[j].1) {
            Some(t) => t,
            None => {
                proof {
                    lemma_sum_prefix(credits@, j as int + 1);
                }
                return None;
            },
        };
        j = j + 1;
    }
    proof {
        assert(credits@.take(j as int) =~= credits@);
    }
    Some(total)
}

/// Whether the credit computation for `amount` stays within its limits.
pub fn credit_in_bounds(t: &Vec<(u64, TierBaseState)>, amount: u64) -> (r: bool)
    requires
        thresholds_increasing(t@),
    ensures
        r == credit_computable(t@, amount),
{
    let index = matching_tier(t, amount);
    if index == 0 {
        true
    } else {
        let rate = t[index - 1].1.rate;
        assert((amount as u128) * (rate as u128) <= u128::MAX) by (nonlinear_arith);
        let product: u128 = (amount as u128) * (rate as u128);
        100 <= product && product <= 18446744073709551615u128
    }
}

impl State {
    /// Whether the state keeps its invariant: no holder occurs twice and no
    /// project occurs twice in a holder's credits (the tier table, read in
    /// order of threshold, always increases).
    #[verifier::loop_isolation(false)]
    pub fn is_well_formed(&self) -> (r: bool)
        ensures
            r == state_wf(self@),
    {
        proof {
            lemma_table_seq(self.tier_bases@);
        }
        assert(thresholds_increasing(self@.tier_bases));
        let mut a: usize = 0;
        while a < self.stakes.len()
            invariant
                a <= self.stakes@.len(),
                forall|x: int, y: int| 0 <= x < a && 0 <= y < self.stakes@.len() && x != y ==> self@.stakes[x].0 != self@.stakes[y].0,
                forall|x: int| 0 <= x < a ==> keys_distinct(#[trigger] self@.stakes[x].1.credits),
            decreases self.stakes@.len() - a,
        {
            let mut b: usize = 0;
            while b < self.stakes.len()
                invariant
                    a < self.stakes@.len(),
                    b <= self.stakes@.len(),
                    forall|y: int| 0 <= y < b && y != a ==> self@.stakes[a as int].0 != self@.stakes[y].0,
                decreases self.stakes@.len() - b,
            {
                if b != a && self.stakes[a].0 == self.stakes[b].0 {
                    assert(self@.stakes[a as int].0 == self@.stakes[b as int].0);
                    return false;
                }
                b = b + 1;
            }
            let credits = &self.stakes[a].1.staked_ovl_credits;
            let mut x: usize = 0;
            while x < credits.len()
                invariant
                    x <= credits@.len(),
                    forall|p: int, q: int| 0 <= p < x && 0 <= q < credits@.len() && p != q ==> credits@[p].0 != credits@[q].0,
                decreases credits@.len() - x,
            {
                let mut y: usize = 0;
                while y < credits.len()
                    invariant
                        x < credits@.len(),
                        y <= credits@.len(),
                        forall|q: int| 0 <= q < y && q != x ==> credits@[x as int].0 != credits@[q].0,
                    decreases credits@.len() - y,
                {
                    if y != x && credits[x].0 == credits[y].0 {
                        assert(self@.stakes[a as int].1.credits[x as int].0 == self@.stakes[a as int].1.credits[y as int].0);
                        return false;
                    }
                    y = y + 1;
                }
                x = x + 1;
            }
            assert(keys_distinct(self@.stakes[a as int].1.credits));
            a = a + 1;
        }
        true
    }

    /// Whether a reward computation completes (see `reward_in_bounds`).
    pub fn reward_completes(
        &self,
        amount: u64,
        bonus_rate: u16,
        duration: u16,
        staking_days: u16,
        already_staked: bool,
    ) -> (r: bool)
        ensures
            r == reward_in_bounds(self@, amount, bonus_rate, duration, staking_days, already_staked),
    {
        let pool: u128 = if already_staked {
            self.total_staked_amount as u128
        } else {
            (self.total_staked_amount as u128) + (amount as u128)
        };
        if pool > 18446744073709551615u128 {
            return false;
        }
        let safe = self.ovl_safe_amount;
        assert((safe as u128) * (bonus_rate as u128) <= 0xffff_ffff_ffff_ffff_ffffu128) by (nonlinear_arith);
        assert((safe as u128) * (bonus_rate as u128) * (staking_days as u128) <= u128::MAX) by (nonlinear_arith)
            requires
                (safe as u128) * (bonus_rate as u128) <= 0xffff_ffff_ffff_ffff_ffffu128,
        ;
        let p2: u128 = (safe as u128) * (bonus_rate as u128) * (staking_days as u128);
        assert(p2 == self.ovl_safe_amount * bonus_rate * staking_days) by (nonlinear_arith)
            requires
                p2 == (self.ovl_safe_amount as u128) * (bonus_rate as u128) * (staking_days as u128),
        ;
        match p2.checked_mul(amount as u128) {
            None => true,
            Some(p3) => pool != 0 && p3.checked_mul(100u128 + (duration as u128)).is_some(),
        }
    }

    /// Whether staking completes (see `stake_in_bounds`).
    pub fn stake_completes(&self, owner: &Address, amount: u64, duration: u16, start_at: u64) -> (r: bool)
        requires
            state_wf(self@),
        ensures
            r == stake_in_bounds(self@, *owner, amount, duration, start_at),
    {
        if duration < MIN_STAKING_DURATION || duration > MAX_STAKING_DURATION {
            return true;
        }
        if timestamp_checked_add(start_at, days_to_millis(duration as u64)).is_none() {
            return true;
        }
        assert(stake_result(start_at, duration) is Ok);
        let (held, placed) = match self.find_stake(owner) {
            Some(i) => {
                assert(self.stakes@[i as int].1@ == owner_stake(self@, *owner));
                (self.stakes[i].1.amount, placed_total(&self.stakes[i].1.staked_ovl_credits))
            },
            None => {
                assert(owner_stake(self@, *owner).credits =~= Seq::empty());
                (0u64, Some(0u64))
            },
        };
        let placed = match placed {
            Some(p) => p,
            None => {
                return false;
            },
        };
        let new_amount = match held.checked_add(amount) {
            Some(n) => n,
            None => {
                return false;
            },
        };
        let tiers = table_entries(&self.tier_bases);
        if !credit_in_bounds(&tiers, new_amount) {
            return false;
        }
        let index = matching_tier(&tiers, new_amount);
        let credit = crate::tiers::credit_for_amount(&tiers, index, new_amount);
        credit >= placed && self.total_staked_amount.checked_add(amount).is_some()
    }

    /// Whether unstaking completes (see `unstake_in_bounds`).
    pub fn unstake_completes(&self, owner: &Address, start_at: u64) -> (r: bool)
        requires
            state_wf(self@),
        ensures
            r == unstake_in_bounds(self@, *owner, start_at),
    {
        let i = match self.find_stake(owner) {
            Some(i) => i,
            None => {
                return true;
            },
        };
        assert(self.stakes@[i as int].1@ == value_of(self@.stakes, *owner));
        let lock_amount = match self.stakes[i].1.locks.get(&start_at) {
            Some(l) => l.amount,
            None => {
                return true;
            },
        };
        let held = self.stakes[i].1.amount;
        if held < lock_amount {
            return true;
        }
        let placed = match placed_total(&self.stakes[i].1.staked_ovl_credits) {
            Some(p) => p,
            None => {
                return false;
            },
        };
        let after = held - lock_amount;
        let tiers = table_entries(&self.tier_bases);
        if !credit_in_bounds(&tiers, after) {
            return false;
        }
        let index = matching_tier(&tiers, after);
        let credit = crate::tiers::credit_for_amount(&tiers, index, after);
        credit < placed || self.total_staked_amount >= lock_amount
    }

    /// Whether the reward of a lock completes (see `lock_reward_in_bounds`).
    pub fn lock_reward_completes(&self, owner: &Address, start_at: u64, staking_days: Option<u16>) -> (r: bool)
        requires
            state_wf(self@),
        ensures
            r == lock_reward_in_bounds(self@, *owner, start_at, staking_days),
    {
        let i = match self.find_stake(owner) {
            Some(i) => i,
            None => {
                return true;
            },
        };
        assert(self.stakes@[i as int].1@ == value_of(self@.stakes, *owner));
        let l = match self.stakes[i].1.locks.get(&start_at) {
            Some(l) => *l,
            None => {
                return true;
            },
        };
        let days = match staking_days {
            Some(d) => d,
            None => l.duration,
        };
        self.reward_completes(l.amount, l.bonus_rate, l.duration, days, true)
    }

    /// Whether an unstake quote completes (see `unstake_quote_in_bounds`).
    pub fn unstake_quote_completes(&self, owner: &Address, start_at: u64, now: u64) -> (r: bool)
        requires
            state_wf(self@),
        ensures
            r == unstake_quote_in_bounds(self@, *owner, start_at, now),
    {
        let i = match self.find_stake(owner) {
            Some(i) => i,
            None => {
                return true;
            },
        };
        assert(self.stakes@[i as int].1@ == value_of(self@.stakes, *owner));
        let l = match self.stakes[i].1.locks.get(&start_at) {
            Some(l) => *l,
            None => {
                return true;
            },
        };
        if now < l.end_at {
            let days = duration_days(timestamp_duration_between(now, l.start_at)) as u16;
            let mut fee_days = l.duration / 2;
            if fee_days < MIN_STAKING_DURATION {
                fee_days = MIN_STAKING_DURATION;
            }
            days <= l.duration && self.reward_completes(l.amount, l.bonus_rate, l.duration, fee_days, true)
        } else {
            if !self.reward_completes(l.amount, l.bonus_rate, l.duration, l.duration, true) {
                return false;
            }
            match self.calc_staking_reward(l.amount, l.bonus_rate, l.duration, l.duration, true) {
                Ok(reward) => l.amount.checked_add(reward).is_some(),
                Err(_) => true,
            }
        }
    }

    /// Whether placing credits completes (see `deposit_credit_in_bounds`).
    #[verifier::loop_isolation(false)]
    pub fn deposit_credit_completes(&self, owner: &Address, project: ContractAddress, amount: u64) -> (r: bool)
        requires
            state_wf(self@),
        ensures
            r == deposit_credit_in_bounds(self@, *owner, project, amount),
    {
        let i = match self.find_stake(owner) {
            Some(i) => i,
            None => {
                return true;
            },
        };
        assert(self.stakes@[i as int].1@ == owner_stake(self@, *owner));
        if self.stakes[i].1.available_ovl_credit_amount < amount {
            return true;
        }
        let credits = &self.stakes[i].1.staked_ovl_credits;
        let mut j: usize = 0;
        while j < credits.len()
            invariant
                j <= credits@.len(),
                forall|m: int| 0 <= m < j ==> credits@[m].0 != project,
            decreases credits@.len() - j,
        {
            if credits[j].0 == project {
                proof {
                    crate::state::lemma_owner_stake_wf(self@, *owner);
                    crate::assoc::lemma_key_index_unique(credits@, project, j as int);
                }
                return credits[j].1.checked_add(amount).is_some();
            }
            j = j + 1;
        }
        true
    }

    /// Whether taking credits back completes (see
    /// `withdraw_credit_in_bounds`).
    #[verifier::loop_isolation(false)]
    pub fn withdraw_credit_completes(&self, owner: &Address, project: ContractAddress, amount: u64) -> (r: bool)
        requires
            state_wf(self@),
        ensures
            r == withdraw_credit_in_bounds(self@, *owner, project, amount),
    {
        let i = match self.find_stake(owner) {
            Some(i) => i,
            None => {
                return true;
            },
        };
        assert(self.stakes@[i as int].1@ == value_of(self@.stakes, *owner));
        let credits = &self.stakes[i].1.staked_ovl_credits;
        let mut j: usize = 0;
        while j < credits.len()
            invariant
                j <= credits@.len(),
                forall|m: int| 0 <= m < j ==> credits@[m].0 != project,
            decreases credits@.len() - j,
        {
            if credits[j].0 == project {
                proof {
                    crate::state::lemma_owner_stake_wf(self@, *owner);
                    crate::assoc::lemma_key_index_unique(credits@, project, j as int);
                }
                if credits[j].1 < amount {
                    return true;
                }
                return self.stakes[i].1.available_ovl_credit_amount.checked_add(amount).is_some();
            }
            j = j + 1;
        }
        true
    }

    /// Whether finishing an unstake with a quote completes (the
    /// requirements of `contract_unstake_finish`).
    pub fn unstake_finish_completes(&self, invoker: AccountAddress, start_at: u64, quote: &ViewUnstakeResponse) -> (r: bool)
        requires
            state_wf(self@),
        ensures
            r == ({
                &&& quote.staking_reward <= self@.ovl_safe_amount
                &&& self@.ovl_safe_amount - quote.staking_reward + quote.early_fee <= u64::MAX
                &&& unstake_in_bounds(
                    with_safe(
                        self@,
                        (self@.ovl_safe_amount - quote.staking_reward + quote.early_fee) as u64,
                    ),
                    Address::Account(invoker),
                    start_at,
                )
            }),
    {
        if quote.staking_reward > self.ovl_safe_amount {
            return false;
        }
        if (self.ovl_safe_amount - quote.staking_reward).checked_add(quote.early_fee).is_none() {
            return false;
        }
        self.unstake_completes(&Address::Account(invoker), start_at)
    }

    /// Whether the early-fee view completes (the requirement of
    /// `contract_view_calc_early_fee`).
    pub fn view_calc_early_fee_completes(&self, params: ViewCalcEarlyFeeParams) -> (r: bool)
        ensures
            r == (!self@.paused ==> params.staking_days <= params.duration && reward_in_bounds(
                self@,
                params.amount,
                BONUS_RATE,
                params.duration,
                early_fee_days(params.duration),
                false,
            )),
    {
        if self.paused {
            return true;
        }
        let mut fee_days = params.duration / 2;
        if fee_days < MIN_STAKING_DURATION {
            fee_days = MIN_STAKING_DURATION;
        }
        params.staking_days <= params.duration && self.reward_completes(
            params.amount,
            BONUS_RATE,
            params.duration,
            fee_days,
            false,
        )
    }
}

} // verus!
