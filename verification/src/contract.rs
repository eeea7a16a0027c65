//! The decisions of the contract's entrypoints. Each function takes what the
//! entrypoint reads from its context (sender, invoker, time) and its parsed
//! parameter, checks in the entrypoint's order, and changes the state or
//! answers. Token transfers that an entrypoint makes are returned as a
//! `TokenTransfer` for the host to carry out, and the state change that
//! follows a transfer is a function of its own.
use vstd::prelude::*;
use crate::assoc::{has_key, value_of};
use crate::encoding::{le_u16_prefix, parse_stake_duration};
use crate::errors::{ContractError, ContractResult};
use crate::credits::{
    after_deposit_credit, after_withdraw_credit, deposit_credit_in_bounds, deposit_credit_result,
    withdraw_credit_in_bounds, withdraw_credit_result,
};
use crate::reward::{
    early_fee_days, lock_reward_in_bounds, lock_staking_reward, reward_in_bounds, staking_reward,
    unstake_quote, unstake_quote_in_bounds,
};
use crate::staking::{after_unstake, unstake_in_bounds, unstake_result};
use crate::state::{state_wf, State, StateView};
use crate::tiers::{lemma_table_seq, table_entries, table_of_params, tier_table_from_params};
use crate::types::{
    AccountAddress, Address, ContractAddress, DepositOvlCreditParams, InitParams, SetPausedParams,
    TierBaseParams, TokenTransfer, ViewCalcEarlyFeeParams, ViewCalcStakingRewardParams,
    ViewLockStakingRewardParams, ViewResponse, ViewStakeParams, ViewStakeResponse,
    ViewStakingRewardResponse, ViewTierBaseParams, ViewUnstakeParams, ViewUnstakeResponse,
    BONUS_RATE, MAX_STAKING_DURATION, MIN_STAKING_DURATION,
};

verus! {

/// What the contract answers about unstaking the lock of `owner` that
/// started at `start_at`, at time `now`: refused while paused, else the
/// quote.
pub open spec fn unstake_answer(v: StateView, owner: Address, start_at: u64, now: u64) -> ContractResult<
    ViewUnstakeResponse,
> {
    if v.paused {
        Err(ContractError::ContractPaused)
    } else {
        unstake_quote(v, owner, start_at, now)
    }
}

/// The early-exit figures for an amount not staked yet, locked `duration`
/// days and left after `staking_days`: the fee is the reward over the
/// early-fee days, not capped, and what it leaves of the amount is sent.
pub open spec fn early_fee_estimate(v: StateView, params: ViewCalcEarlyFeeParams) -> ContractResult<
    ViewUnstakeResponse,
> {
    match staking_reward(
        v,
        params.amount,
        BONUS_RATE,
        params.duration,
        early_fee_days(params.duration),
        false,
    ) {
        Ok(fee) => Ok(
            ViewUnstakeResponse {
                staked_amount: params.amount,
                staking_days: params.staking_days,
                early_fee_days: early_fee_days(params.duration),
                left_days: (params.duration - params.staking_days) as u16,
                early_fee: fee,
                staking_reward: 0,
                send_amount: if fee < params.amount {
                    (params.amount - fee) as u64
                } else {
                    0
                },
            },
        ),
        Err(e) => Err(e),
    }
}

/// The state with only the safe changed.
pub open spec fn with_safe(v: StateView, safe: u64) -> StateView {
    StateView { ovl_safe_amount: safe, ..v }
}

impl State {
    /// The state a new contract instance starts in: the origin of the
    /// initialisation is the administrator, and the tier table is built from
    /// the parameters (first occurrence of a threshold wins).
    pub fn contract_init(origin: AccountAddress, params: &InitParams) -> (r: State)
        ensures
            state_wf(r@),
            r@.admin == Address::Account(origin),
            !r@.paused,
            r@.token_address == params.token_address,
            table_of_params(params.tier_bases@, r.tier_bases@),
            r@.stakes == Seq::<(Address, crate::state::StakeView)>::empty(),
            r@.total_staked_amount == 0,
            r@.ovl_safe_amount == 0,
    {
        let tier_bases = tier_table_from_params(&params.tier_bases);
        State::new(Address::Account(origin), params.token_address, tier_bases)
    }

    /// Refuses with `Unauthorized` a sender that is not the administrator.
    pub fn check_admin(&self, sender: &Address) -> (r: ContractResult<()>)
        ensures
            r == (if *sender == self.admin {
                Ok::<(), ContractError>(())
            } else {
                Err(ContractError::Unauthorized)
            }),
    {
        if *sender == self.admin {
            Ok(())
        } else {
            Err(ContractError::Unauthorized)
        }
    }

    /// Refuses with `ContractPaused` while the contract is paused.
    pub fn ensure_not_paused(&self) -> (r: ContractResult<()>)
        ensures
            r == (if self.paused {
                Err(ContractError::ContractPaused)
            } else {
                Ok::<(), ContractError>(())
            }),
    {
        if self.paused {
            Err(ContractError::ContractPaused)
        } else {
            Ok(())
        }
    }

    /// Replaces the tier table; only the administrator may.
    pub fn contract_update_tier_base(&mut self, sender: &Address, params: &Vec<TierBaseParams>) -> (r:
        ContractResult<()>)
        requires
            state_wf(old(self)@),
        ensures
            state_wf(final(self)@),
            *sender != old(self)@.admin ==> r == Err::<(), ContractError>(ContractError::Unauthorized)
                && final(self)@ == old(self)@,
            *sender == old(self)@.admin ==> r is Ok && final(self)@ == (StateView {
                tier_bases: final(self)@.tier_bases,
                ..old(self)@
            }) && table_of_params(params@, final(self).tier_bases@),
    {
        if !(*sender == self.admin) {
            return Err(ContractError::Unauthorized);
        }
        self.tier_bases = tier_table_from_params(params);
        proof {
            lemma_table_seq(self.tier_bases@);
        }
        Ok(())
    }

    /// Answers the contract address of a sender that is a contract, and
    /// refuses an account with `InvalidSender`.
    pub fn contract_sender(sender: &Address) -> (r: ContractResult<ContractAddress>)
        ensures
            r == (match *sender {
                Address::Account(_) => Err(ContractError::InvalidSender),
                Address::Contract(c) => Ok(c),
            }),
    {
        match sender {
            Address::Account(_) => Err(ContractError::InvalidSender),
            Address::Contract(c) => Ok(*c),
        }
    }

    /// Adds tokens received from the token contract to the safe. Only the
    /// token contract may send them.
    pub fn contract_deposit_ovl_safe(&mut self, sender: &Address, amount: u64) -> (r: ContractResult<()>)
        requires
            *sender == Address::Contract(old(self)@.token_address) ==> old(self)@.ovl_safe_amount
                + amount <= u64::MAX,
        ensures
            *sender != Address::Contract(old(self)@.token_address) ==> r == Err::<
                (),
                ContractError,
            >(ContractError::InvalidSender) && final(self)@ == old(self)@,
            *sender == Address::Contract(old(self)@.token_address) ==> r is Ok && final(self)@
                == with_safe(old(self)@, (old(self)@.ovl_safe_amount + amount) as u64),
    {
        let sender_contract = match sender {
            Address::Account(_) => {
                return Err(ContractError::InvalidSender);
            },
            Address::Contract(c) => *c,
        };
        if !(self.token_address == sender_contract) {
            return Err(ContractError::InvalidSender);
        }
        self.ovl_safe_amount = self.ovl_safe_amount + amount;
        Ok(())
    }

    /// Checks a request to take tokens from the safe: the sender must be the
    /// administrator's account. Answers that account.
    pub fn authorize_withdraw_ovl_safe(&self, sender: &Address) -> (r: ContractResult<AccountAddress>)
        ensures
            r == (match *sender {
                Address::Contract(_) => Err(ContractError::InvalidSender),
                Address::Account(a) => if *sender == self.admin {
                    Ok(a)
                } else {
                    Err(ContractError::Unauthorized)
                },
            }),
    {
        let account = match sender {
            Address::Account(a) => *a,
            Address::Contract(_) => {
                return Err(ContractError::InvalidSender);
            },
        };
        if !(*sender == self.admin) {
            return Err(ContractError::Unauthorized);
        }
        Ok(account)
    }

    /// The transfer that taking `amount` tokens from the safe makes: to the
    /// administrator's account, refused with `NotEnoughOvlSafe` beyond the
    /// safe.
    pub fn contract_withdraw_ovl_safe(&self, sender: &Address, amount: u64) -> (r: ContractResult<
        TokenTransfer,
    >)
        ensures
            match *sender {
                Address::Contract(_) => r == Err::<TokenTransfer, ContractError>(
                    ContractError::InvalidSender,
                ),
                Address::Account(a) => if *sender != self.admin {
                    r == Err::<TokenTransfer, ContractError>(ContractError::Unauthorized)
                } else if amount > self.ovl_safe_amount {
                    r == Err::<TokenTransfer, ContractError>(ContractError::NotEnoughOvlSafe)
                } else {
                    r == Ok::<TokenTransfer, ContractError>(TokenTransfer { to: a, amount })
                },
            },
    {
        let to = match self.authorize_withdraw_ovl_safe(sender) {
            Ok(a) => a,
            Err(e) => {
                return Err(e);
            },
        };
        if !(amount <= self.ovl_safe_amount) {
            return Err(ContractError::NotEnoughOvlSafe);
        }
        Ok(TokenTransfer { to, amount })
    }

    /// Takes the transferred tokens out of the safe, once the transfer was
    /// made.
    pub fn settle_withdraw_ovl_safe(&mut self, amount: u64)
        requires
            amount <= old(self)@.ovl_safe_amount,
        ensures
            final(self)@ == with_safe(old(self)@, (old(self)@.ovl_safe_amount - amount) as u64),
    {
        self.ovl_safe_amount = self.ovl_safe_amount - amount;
    }

    /// Checks the sender of received tokens to stake: refused while paused,
    /// and unless sent by the token contract.
    pub fn check_stake_sender(&self, sender: &Address) -> (r: ContractResult<()>)
        ensures
            r == (if self.paused {
                Err(ContractError::ContractPaused)
            } else if *sender != Address::Contract(self.token_address) {
                Err(ContractError::InvalidSender)
            } else {
                Ok::<(), ContractError>(())
            }),
    {
        if self.paused {
            return Err(ContractError::ContractPaused);
        }
        let sender_contract = match sender {
            Address::Account(_) => {
                return Err(ContractError::InvalidSender);
            },
            Address::Contract(c) => *c,
        };
        if !(self.token_address == sender_contract) {
            return Err(ContractError::InvalidSender);
        }
        Ok(())
    }

    /// Stakes tokens received from the token contract for the invoker, for
    /// the number of days that the first two bytes of `data` give, from
    /// `now`. Fewer than two bytes are refused with `ParseParams`. The
    /// duration is refused with `InvalidStakingDuration` unless it is shorter
    /// than the shortest lock and at once longer than the longest, which no
    /// duration is: every call is refused and the state stays as it was.
    pub fn contract_stake(
        &mut self,
        sender: &Address,
        invoker: AccountAddress,
        amount: u64,
        data: &[u8],
        now: u64,
    ) -> (r: ContractResult<()>)
        requires
            state_wf(old(self)@),
        ensures
            r == Err::<(), ContractError>(
                if old(self)@.paused {
                    ContractError::ContractPaused
                } else if *sender != Address::Contract(old(self)@.token_address) {
                    ContractError::InvalidSender
                } else if le_u16_prefix(data@) is None {
                    ContractError::ParseParams
                } else {
                    ContractError::InvalidStakingDuration
                },
            ),
            final(self)@ == old(self)@,
    {
        match self.check_stake_sender(sender) {
            Ok(()) => {},
            Err(e) => {
                return Err(e);
            },
        }
        let duration = match parse_stake_duration(data) {
            Ok(d) => d,
            Err(e) => {
                return Err(e);
            },
        };
        if !(duration < MIN_STAKING_DURATION) {
            return Err(ContractError::InvalidStakingDuration);
        }
        if !(MAX_STAKING_DURATION < duration) {
            return Err(ContractError::InvalidStakingDuration);
        }
        self.stake(&Address::Account(invoker), amount, duration, now)
    }

    /// What unstaking the invoker's lock that started at `start_at` pays at
    /// time `now`; refused while paused. The host then sends `send_amount`
    /// to the invoker and calls `contract_unstake_finish`.
    pub fn contract_unstake_quote(&self, invoker: AccountAddress, start_at: u64, now: u64) -> (r:
        ContractResult<ViewUnstakeResponse>)
        requires
            state_wf(self@),
            !self@.paused ==> unstake_quote_in_bounds(self@, Address::Account(invoker), start_at, now),
        ensures
            r == unstake_answer(self@, Address::Account(invoker), start_at, now),
    {
        match self.ensure_not_paused() {
            Ok(()) => {},
            Err(e) => {
                return Err(e);
            },
        }
        self.unstake_quote(&Address::Account(invoker), start_at, now)
    }

    /// After the payout of an unstake: the reward leaves the safe, the early
    /// fee enters it, and the lock is unstaked.
    pub fn contract_unstake_finish(
        &mut self,
        invoker: AccountAddress,
        start_at: u64,
        quote: &ViewUnstakeResponse,
    ) -> (r: ContractResult<()>)
        requires
            state_wf(old(self)@),
            quote.staking_reward <= old(self)@.ovl_safe_amount,
            old(self)@.ovl_safe_amount - quote.staking_reward + quote.early_fee <= u64::MAX,
            unstake_in_bounds(
                with_safe(
                    old(self)@,
                    (old(self)@.ovl_safe_amount - quote.staking_reward + quote.early_fee) as u64,
                ),
                Address::Account(invoker),
                start_at,
            ),
        ensures
            state_wf(final(self)@),
            ({
                let mid = with_safe(
                    old(self)@,
                    (old(self)@.ovl_safe_amount - quote.staking_reward + quote.early_fee) as u64,
                );
                &&& r == unstake_result(mid, Address::Account(invoker), start_at)
                &&& final(self)@ == after_unstake(mid, Address::Account(invoker), start_at)
            }),
    {
        self.ovl_safe_amount = self.ovl_safe_amount - quote.staking_reward;
        self.ovl_safe_amount = self.ovl_safe_amount + quote.early_fee;
        self.unstake(&Address::Account(invoker), start_at)
    }

    /// Places credits of the invoker with a project; refused while paused.
    pub fn contract_deposit_ovl_credit(&mut self, invoker: AccountAddress, params: DepositOvlCreditParams) -> (r:
        ContractResult<()>)
        requires
            state_wf(old(self)@),
            deposit_credit_in_bounds(
                old(self)@,
                Address::Account(invoker),
                params.project_address,
                params.ovl_credit_amount,
            ),
        ensures
            state_wf(final(self)@),
            old(self)@.paused ==> r == Err::<(), ContractError>(ContractError::ContractPaused)
                && final(self)@ == old(self)@,
            !old(self)@.paused ==> r == deposit_credit_result(
                old(self)@,
                Address::Account(invoker),
                params.ovl_credit_amount,
            ) && final(self)@ == after_deposit_credit(
                old(self)@,
                Address::Account(invoker),
                params.project_address,
                params.ovl_credit_amount,
            ),
    {
        match self.ensure_not_paused() {
            Ok(()) => {},
            Err(e) => {
                return Err(e);
            },
        }
        let sender = Address::Account(invoker);
        self.deposit_ovl_credit(&sender, params.project_address, params.ovl_credit_amount)
    }

    /// Takes credits of the invoker back from a project; refused while
    /// paused.
    pub fn contract_withdraw_ovl_credit(&mut self, invoker: AccountAddress, params: DepositOvlCreditParams) -> (r:
        ContractResult<()>)
        requires
            state_wf(old(self)@),
            withdraw_credit_in_bounds(
                old(self)@,
                Address::Account(invoker),
                params.project_address,
                params.ovl_credit_amount,
            ),
        ensures
            state_wf(final(self)@),
            old(self)@.paused ==> r == Err::<(), ContractError>(ContractError::ContractPaused)
                && final(self)@ == old(self)@,
            !old(self)@.paused ==> r == withdraw_credit_result(
                old(self)@,
                Address::Account(invoker),
                params.project_address,
                params.ovl_credit_amount,
            ) && final(self)@ == after_withdraw_credit(
                old(self)@,
                Address::Account(invoker),
                params.project_address,
                params.ovl_credit_amount,
            ),
    {
        match self.ensure_not_paused() {
            Ok(()) => {},
            Err(e) => {
                return Err(e);
            },
        }
        let sender = Address::Account(invoker);
        self.withdraw_ovl_credit(&sender, params.project_address, params.ovl_credit_amount)
    }

    /// The general figures of the contract.
    pub fn contract_view(&self) -> (r: ViewResponse)
        ensures
            r == (ViewResponse {
                admin: self.admin,
                paused: self.paused,
                token_address: self.token_address,
                total_staked_amount: self.total_staked_amount,
                ovl_safe_amount: self.ovl_safe_amount,
            }),
    {
        ViewResponse {
            admin: self.admin,
            paused: self.paused,
            token_address: self.token_address,
            total_staked_amount: self.total_staked_amount,
            ovl_safe_amount: self.ovl_safe_amount,
        }
    }

    /// The reward of a lock over its whole duration; refused while paused.
    pub fn contract_view_lock_staking_reward(&self, params: ViewLockStakingRewardParams) -> (r:
        ContractResult<ViewStakingRewardResponse>)
        requires
            state_wf(self@),
            !self@.paused ==> lock_reward_in_bounds(self@, params.owner, params.start_at, None),
        ensures
            self@.paused ==> r == Err::<ViewStakingRewardResponse, ContractError>(
                ContractError::ContractPaused,
            ),
            !self@.paused ==> r == (match lock_staking_reward(self@, params.owner, params.start_at, None) {
                Ok(x) => Ok(ViewStakingRewardResponse { staking_reward: x }),
                Err(e) => Err(e),
            }),
    {
        match self.ensure_not_paused() {
            Ok(()) => {},
            Err(e) => {
                return Err(e);
            },
        }
        match self.calc_lock_staking_reward(&params.owner, params.start_at, None) {
            Ok(x) => Ok(ViewStakingRewardResponse { staking_reward: x }),
            Err(e) => Err(e),
        }
    }

    /// The reward that staking `amount` for `duration` days would earn over
    /// the whole duration; refused while paused.
    pub fn contract_view_calc_staking_reward(&self, params: ViewCalcStakingRewardParams) -> (r:
        ContractResult<ViewStakingRewardResponse>)
        requires
            !self@.paused ==> reward_in_bounds(
                self@,
                params.amount,
                BONUS_RATE,
                params.duration,
                params.duration,
                false,
            ),
        ensures
            self@.paused ==> r == Err::<ViewStakingRewardResponse, ContractError>(
                ContractError::ContractPaused,
            ),
            !self@.paused ==> r == (match staking_reward(
                self@,
                params.amount,
                BONUS_RATE,
                params.duration,
                params.duration,
                false,
            ) {
                Ok(x) => Ok(ViewStakingRewardResponse { staking_reward: x }),
                Err(e) => Err(e),
            }),
    {
        match self.ensure_not_paused() {
            Ok(()) => {},
            Err(e) => {
                return Err(e);
            },
        }
        match self.calc_staking_reward(params.amount, BONUS_RATE, params.duration, params.duration, false) {
            Ok(x) => Ok(ViewStakingRewardResponse { staking_reward: x }),
            Err(e) => Err(e),
        }
    }

    /// What unstaking a lock of `owner` would pay at time `now`; refused
    /// while paused.
    pub fn contract_view_unstake(&self, params: ViewUnstakeParams, now: u64) -> (r: ContractResult<
        ViewUnstakeResponse,
    >)
        requires
            state_wf(self@),
            !self@.paused ==> unstake_quote_in_bounds(self@, params.owner, params.start_at, now),
        ensures
            r == unstake_answer(self@, params.owner, params.start_at, now),
    {
        match self.ensure_not_paused() {
            Ok(()) => {},
            Err(e) => {
                return Err(e);
            },
        }
        self.unstake_quote(&params.owner, params.start_at, now)
    }

    /// The early-exit figures for an amount not staked yet, locked
    /// `duration` days and left after `staking_days`; refused while paused.
    /// The fee is the reward over the early-fee days; it is not capped here.
    pub fn contract_view_calc_early_fee(&self, params: ViewCalcEarlyFeeParams) -> (r: ContractResult<
        ViewUnstakeResponse,
    >)
        requires
            !self@.paused ==> params.staking_days <= params.duration && reward_in_bounds(
                self@,
                params.amount,
                BONUS_RATE,
                params.duration,
                early_fee_days(params.duration),
                false,
            ),
        ensures
            self@.paused ==> r == Err::<ViewUnstakeResponse, ContractError>(
                ContractError::ContractPaused,
            ),
            !self@.paused ==> r == early_fee_estimate(self@, params),
    {
        match self.ensure_not_paused() {
            Ok(()) => {},
            Err(e) => {
                return Err(e);
            },
        }
        let staking_reward: u64 = 0;
        let mut send_amount: u64 = 0;
        let staked_amount: u64 = params.amount;
        let duration: u16 = params.duration;

        // early fee
        let staking_days = params.staking_days;
        let mut early_fee_days = duration / 2;
        if early_fee_days < MIN_STAKING_DURATION {
            early_fee_days = MIN_STAKING_DURATION;
        }
        let left_days = duration - staking_days;
        let early_fee: u64 = match self.calc_staking_reward(
            params.amount,
            BONUS_RATE,
            params.duration,
            early_fee_days,
            false,
        ) {
            Ok(x) => x,
            Err(e) => {
                return Err(e);
            },
        };
        if early_fee < staked_amount {
            send_amount = staked_amount - early_fee;
        }
        Ok(
            ViewUnstakeResponse {
                staked_amount,
                staking_days: params.staking_days,
                early_fee_days,
                left_days,
                early_fee,
                staking_reward,
                send_amount,
            },
        )
    }

    /// The tier table, numbered from 1 in increasing order of threshold.
    pub fn contract_view_tier_bases(&self) -> (r: Vec<(u8, ViewTierBaseParams)>)
        requires
            self@.tier_bases.len() <= 254,
        ensures
            r@.len() == self@.tier_bases.len(),
            forall|i: int|
                0 <= i < r@.len() ==> #[trigger] r@[i] == (
                    (i + 1) as u8,
                    ViewTierBaseParams {
                        threshold: self@.tier_bases[i].0,
                        max_alloc: self@.tier_bases[i].1.max_alloc,
                        rate: self@.tier_bases[i].1.rate,
                    },
                ),
    {
        let tier_bases = table_entries(&self.tier_bases);
        let mut tier_bases_response: Vec<(u8, ViewTierBaseParams)> = Vec::new();
        let mut index: u8 = 1;
        let mut j: usize = 0;
        while j < tier_bases.len()
            invariant
                j <= tier_bases@.len(),
                tier_bases@.len() <= 254,
                index == j + 1,
                tier_bases_response@.len() == j,
                forall|i: int|
                    0 <= i < j ==> #[trigger] tier_bases_response@[i] == (
                        (i + 1) as u8,
                        ViewTierBaseParams {
                            threshold: tier_bases@[i].0,
                            max_alloc: tier_bases@[i].1.max_alloc,
                            rate: tier_bases@[i].1.rate,
                        },
                    ),
            decreases tier_bases@.len() - j,
        {
            let (threshold, tier_base) = tier_bases[j];
            tier_bases_response.push(
                (
                    index,
                    ViewTierBaseParams {
                        threshold: threshold,
                        max_alloc: tier_base.max_alloc,
                        rate: tier_base.rate,
                    },
                ),
            );
            index = index + 1;
            j = j + 1;
        }
        tier_bases_response
    }

    /// The stake of `owner`, whose stake must exist.
    pub fn contract_view_stake(&self, params: ViewStakeParams) -> (r: ViewStakeResponse)
        requires
            state_wf(self@),
            has_key(self@.stakes, params.owner),
        ensures
            ({
                let s = value_of(self@.stakes, params.owner);
                &&& r.amount == s.amount
                &&& r.tier == s.tier
                &&& crate::state::sorted_by_storage(r.staked_ovl_credits@)
                &&& forall|e: (ContractAddress, u64)|
                    r.staked_ovl_credits@.contains(e) <==> s.credits.contains(e)
                &&& r.ovl_credit_amount == s.ovl_credit_amount
                &&& r.available_ovl_credit_amount == s.available
                &&& r.locks@ == s.locks
            }),
    {
        let staked_ovl_credits = self.get_staked_ovl_credits(&params.owner);
        let i = self.find_stake(&params.owner).unwrap();
        let stake_state = &self.stakes[i].1;
        assert(stake_state@ == value_of(self@.stakes, params.owner));
        ViewStakeResponse {
            amount: stake_state.amount,
            tier: stake_state.tier,
            staked_ovl_credits: staked_ovl_credits,
            ovl_credit_amount: stake_state.ovl_credit_amount,
            available_ovl_credit_amount: stake_state.available_ovl_credit_amount,
            locks: stake_state.locks.clone(),
        }
    }

    /// Hands the administrator's role to `new_admin`; only the administrator
    /// may.
    pub fn contract_update_admin(&mut self, sender: &Address, new_admin: Address) -> (r:
        ContractResult<()>)
        ensures
            *sender != old(self)@.admin ==> r == Err::<(), ContractError>(ContractError::Unauthorized)
                && final(self)@ == old(self)@,
            *sender == old(self)@.admin ==> r is Ok && final(self)@ == (StateView {
                admin: new_admin,
                ..old(self)@
            }),
    {
        if !(*sender == self.admin) {
            return Err(ContractError::Unauthorized);
        }
        self.admin = new_admin;
        Ok(())
    }

    /// Pauses or resumes the contract; only the administrator may.
    pub fn contract_set_paused(&mut self, sender: &Address, params: SetPausedParams) -> (r:
        ContractResult<()>)
        ensures
            *sender != old(self)@.admin ==> r == Err::<(), ContractError>(ContractError::Unauthorized)
                && final(self)@ == old(self)@,
            *sender == old(self)@.admin ==> r is Ok && final(self)@ == (StateView {
                paused: params.paused,
                ..old(self)@
            }),
    {
        if !(*sender == self.admin) {
            return Err(ContractError::Unauthorized);
        }
        self.paused = params.paused;
        Ok(())
    }
}

/// The error view: every error once, in declaration order.
pub fn contract_view_errors() -> (r: Vec<ContractError>)
    ensures
        r@ == crate::errors::all_errors_spec(),
{
    ContractError::all()
}

} // verus!
