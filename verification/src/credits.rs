//! Placing credits with projects and taking them back.
use vstd::prelude::*;
use crate::assoc::{
    get_or, has_key, key_index, keys_distinct, lemma_key_index_unique, lemma_put, lemma_put_put,
    put, value_of,
};
use crate::errors::{ContractError, ContractResult};
use crate::state::{
    lemma_owner_stake_wf, lemma_put_stake_wf, owner_stake, state_wf, State, StakeState, StakeView,
    StateView,
};
use crate::types::{Address, ContractAddress};

verus! {

/// Where `project` sits among the credits, if anywhere.
fn find_credit(credits: &Vec<(ContractAddress, u64)>, project: ContractAddress) -> (r: Option<
    usize,
>)
    requires
        keys_distinct(credits@),
    ensures
        match r {
            Some(i) => {
                &&& i < credits@.len()
                &&& has_key(credits@, project)
                &&& key_index(credits@, project) == i
            },
            None => !has_key(credits@, project),
        },
{
    let mut i: usize = 0;
    while i < credits.len()
        invariant
            i <= credits@.len(),
            keys_distinct(credits@),
            forall|j: int| 0 <= j < i ==> credits@[j].0 != project,
        decreases credits@.len() - i,
    {
        if credits[i].0 == project {
            proof {
                lemma_key_index_unique(credits@, project, i as int);
            }
            return Some(i);
        }
        i = i + 1;
    }
    None
}

/// Sets the credits placed with `project`.
fn set_credit(credits: &mut Vec<(ContractAddress, u64)>, project: ContractAddress, value: u64)
    requires
        keys_distinct(old(credits)@),
    ensures
        final(credits)@ == put(old(credits)@, project, value),
        keys_distinct(final(credits)@),
{
    proof {
        lemma_put(credits@, project, value);
    }
    match find_credit(credits, project) {
        Some(i) => {
            credits.set(i, (project, value));
        },
        None => {
            credits.push((project, value));
        },
    }
}

/// What placing `amount` credits of `owner` answers: refused where the
/// holder's available credits do not cover it.
pub open spec fn deposit_credit_result(v: StateView, owner: Address, amount: u64) -> ContractResult<()> {
    if owner_stake(v, owner).available < amount {
        Err(ContractError::InsufficientOvlCredit)
    } else {
        Ok(())
    }
}

/// The holder's stake after placing credits: they leave the available
/// credits and are added to those placed with the project.
pub open spec fn deposited_view(
    v: StateView,
    owner: Address,
    project: ContractAddress,
    amount: u64,
) -> StakeView {
    let s = owner_stake(v, owner);
    StakeView {
        available: (s.available - amount) as u64,
        credits: put(s.credits, project, (get_or(s.credits, project, 0u64) + amount) as u64),
        ..s
    }
}

/// The state after placing credits. A holder without a stake gets an empty
/// one even where placing is refused.
pub open spec fn after_deposit_credit(
    v: StateView,
    owner: Address,
    project: ContractAddress,
    amount: u64,
) -> StateView {
    if deposit_credit_result(v, owner, amount) is Ok {
        StateView { stakes: put(v.stakes, owner, deposited_view(v, owner, project, amount)), ..v }
    } else {
        StateView { stakes: put(v.stakes, owner, owner_stake(v, owner)), ..v }
    }
}

/// Where placing is accepted, the credits placed with the project stay
/// within a `u64`.
pub open spec fn deposit_credit_in_bounds(
    v: StateView,
    owner: Address,
    project: ContractAddress,
    amount: u64,
) -> bool {
    deposit_credit_result(v, owner, amount) is Ok ==> get_or(
        owner_stake(v, owner).credits,
        project,
        0u64,
    ) + amount <= u64::MAX
}

/// What taking back `amount` credits of `owner` from `project` answers: the
/// holder and the project must be found, and the credits placed must cover
/// the amount.
pub open spec fn withdraw_credit_result(
    v: StateView,
    owner: Address,
    project: ContractAddress,
    amount: u64,
) -> ContractResult<()> {
    if !has_key(v.stakes, owner) {
        Err(ContractError::ProjectNotFound)
    } else if !has_key(value_of(v.stakes, owner).credits, project) {
        Err(ContractError::ProjectNotFound)
    } else if value_of(value_of(v.stakes, owner).credits, project) < amount {
        Err(ContractError::InsufficientDepositedOvlCredit)
    } else {
        Ok(())
    }
}

/// The holder's stake after taking credits back: they return to the
/// available credits and leave those placed with the project.
pub open spec fn withdrawn_view(
    v: StateView,
    owner: Address,
    project: ContractAddress,
    amount: u64,
) -> StakeView {
    let s = value_of(v.stakes, owner);
    StakeView {
        available: (s.available + amount) as u64,
        credits: put(s.credits, project, (value_of(s.credits, project) - amount) as u64),
        ..s
    }
}

/// The state after taking credits back; unchanged where it is refused.
pub open spec fn after_withdraw_credit(
    v: StateView,
    owner: Address,
    project: ContractAddress,
    amount: u64,
) -> StateView {
    if withdraw_credit_result(v, owner, project, amount) is Ok {
        StateView { stakes: put(v.stakes, owner, withdrawn_view(v, owner, project, amount)), ..v }
    } else {
        v
    }
}

/// Where taking back is accepted, the available credits stay within a
/// `u64`.
pub open spec fn withdraw_credit_in_bounds(
    v: StateView,
    owner: Address,
    project: ContractAddress,
    amount: u64,
) -> bool {
    withdraw_credit_result(v, owner, project, amount) is Ok ==> value_of(v.stakes, owner).available
        + amount <= u64::MAX
}

impl State {
    /// Places `ovl_credit_amount` of the credits of `owner` with a project.
    pub fn deposit_ovl_credit(
        &mut self,
        owner: &Address,
        project_address: ContractAddress,
        ovl_credit_amount: u64,
    ) -> (r: ContractResult<()>)
        requires
            state_wf(old(self)@),
            deposit_credit_in_bounds(old(self)@, *owner, project_address, ovl_credit_amount),
        ensures
            state_wf(final(self)@),
            r == deposit_credit_result(old(self)@, *owner, ovl_credit_amount),
            final(self)@ == after_deposit_credit(
                old(self)@,
                *owner,
                project_address,
                ovl_credit_amount,
            ),
    {
        let ghost v = self@;
        let i = self.stake_entry(owner);
        proof {
            lemma_owner_stake_wf(v, *owner);
            lemma_put(v.stakes, *owner, owner_stake(v, *owner));
        }
        assert(self.stakes@[i as int].1@ == owner_stake(v, *owner));
        if !(self.stakes[i].1.available_ovl_credit_amount >= ovl_credit_amount) {
            return Err(ContractError::InsufficientOvlCredit);
        }
        let mut stake = self.swap_stake(i, StakeState::new());
        stake.available_ovl_credit_amount = stake.available_ovl_credit_amount - ovl_credit_amount;
        let current = match find_credit(&stake.staked_ovl_credits, project_address) {
            Some(j) => stake.staked_ovl_credits[j].1,
            None => 0u64,
        };
        set_credit(&mut stake.staked_ovl_credits, project_address, current + ovl_credit_amount);
        assert(stake@ == deposited_view(v, *owner, project_address, ovl_credit_amount));
        self.swap_stake(i, stake);
        proof {
            let d = deposited_view(v, *owner, project_address, ovl_credit_amount);
            lemma_put_put(v.stakes, *owner, owner_stake(v, *owner), d);
            lemma_put_stake_wf(v, *owner, d);
            assert(self@ =~= after_deposit_credit(v, *owner, project_address, ovl_credit_amount));
        }
        Ok(())
    }

    /// Takes `ovl_credit_amount` credits of `owner` back from a project.
    pub fn withdraw_ovl_credit(
        &mut self,
        owner: &Address,
        project_address: ContractAddress,
        ovl_credit_amount: u64,
    ) -> (r: ContractResult<()>)
        requires
            state_wf(old(self)@),
            withdraw_credit_in_bounds(old(self)@, *owner, project_address, ovl_credit_amount),
        ensures
            state_wf(final(self)@),
            r == withdraw_credit_result(old(self)@, *owner, project_address, ovl_credit_amount),
            final(self)@ == after_withdraw_credit(
                old(self)@,
                *owner,
                project_address,
                ovl_credit_amount,
            ),
    {
        let ghost v = self@;
        let i = match self.find_stake(owner) {
            Some(i) => i,
            None => {
                return Err(ContractError::ProjectNotFound);
            },
        };
        assert(self.stakes@[i as int].1@ == value_of(v.stakes, *owner));
        proof {
            lemma_owner_stake_wf(v, *owner);
        }
        let j = match find_credit(&self.stakes[i].1.staked_ovl_credits, project_address) {
            Some(j) => j,
            None => {
                return Err(ContractError::ProjectNotFound);
            },
        };
        let staked_ovl_credit = self.stakes[i].1.staked_ovl_credits[j].1;
        if !(staked_ovl_credit >= ovl_credit_amount) {
            return Err(ContractError::InsufficientDepositedOvlCredit);
        }
        let mut stake = self.swap_stake(i, StakeState::new());
        stake.available_ovl_credit_amount = stake.available_ovl_credit_amount + ovl_credit_amount;
        set_credit(
            &mut stake.staked_ovl_credits,
            project_address,
            staked_ovl_credit - ovl_credit_amount,
        );
        assert(stake@ == withdrawn_view(v, *owner, project_address, ovl_credit_amount));
        self.swap_stake(i, stake);
        proof {
            let w = withdrawn_view(v, *owner, project_address, ovl_credit_amount);
            lemma_put_stake_wf(v, *owner, w);
            lemma_put(v.stakes, *owner, w);
            assert(self@ =~= after_withdraw_credit(v, *owner, project_address, ovl_credit_amount));
        }
        Ok(())
    }
}

} // verus!
