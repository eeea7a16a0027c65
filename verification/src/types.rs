//! Plain value types of the staking contract: addresses, lock and tier
//! records, the parameters and responses of the entrypoints, and the error
//! type.
use vstd::prelude::*;
use vstd::std_specs::cmp::PartialEqSpecImpl;
use std::collections::BTreeMap;

verus! {

/// Daily bonus rate of a new lock, in millionths (see `BONUS_RATE_RATIO`).
pub const BONUS_RATE: u16 = 166;

/// Denominator of `BONUS_RATE`.
pub const BONUS_RATE_RATIO: u128 = 1000000;

/// Number of days over which the bonus multiplier grows.
pub const BONUS_DURATION: u128 = 100;

/// Shortest lock, in days.
pub const MIN_STAKING_DURATION: u16 = 30;

/// Longest lock, in days.
pub const MAX_STAKING_DURATION: u16 = 730;

/// An account address: 32 raw bytes.
#[derive(Clone, Copy, Debug)]
pub struct AccountAddress(pub [u8; 32]);

/// Compares two account addresses byte by byte.
pub fn account_bytes_equal(a: &[u8; 32], b: &[u8; 32]) -> (r: bool)
    ensures
        r == (*a == *b),
{
    let mut i: usize = 0;
    while i < 32
        invariant
            0 <= i <= 32,
            forall|j: int| 0 <= j < i ==> a[j] == b[j],
        decreases 32 - i,
    {
        if a[i] != b[i] {
            return false;
        }
        i = i + 1;
    }
    proof {
        broadcast use vstd::array::axiom_array_ext_equal;

        assert(*a =~= *b);
    }
    true
}

impl PartialEq for AccountAddress {
    fn eq(&self, other: &Self) -> (r: bool) {
        account_bytes_equal(&self.0, &other.0)
    }
}

impl PartialEqSpecImpl for AccountAddress {
    open spec fn obeys_eq_spec() -> bool {
        true
    }

    open spec fn eq_spec(&self, other: &AccountAddress) -> bool {
        self.0 == other.0
    }
}

impl Eq for AccountAddress {
}

/// The address of a contract instance.
#[derive(Clone, Copy, Debug, PartialEq, Eq, Structural)]
pub struct ContractAddress {
    pub index: u64,
    pub subindex: u64,
}

impl ContractAddress {
    pub fn new(index: u64, subindex: u64) -> (r: ContractAddress)
        ensures
            r == (ContractAddress { index, subindex }),
    {
        ContractAddress { index, subindex }
    }
}

/// Either an account or a contract instance.
#[derive(Clone, Copy, Debug)]
pub enum Address {
    Account(AccountAddress),
    Contract(ContractAddress),
}

impl PartialEq for Address {
    fn eq(&self, other: &Self) -> (r: bool) {
        match (self, other) {
            (Address::Account(x), Address::Account(y)) => account_bytes_equal(&x.0, &y.0),
            (Address::Contract(x), Address::Contract(y)) => x == y,
            _ => false,
        }
    }
}

impl PartialEqSpecImpl for Address {
    open spec fn obeys_eq_spec() -> bool {
        true
    }

    open spec fn eq_spec(&self, other: &Address) -> bool {
        *self == *other
    }
}

impl Eq for Address {
}

/// Compares two addresses.
pub fn same_address(a: &Address, b: &Address) -> (r: bool)
    ensures
        r == (*a == *b),
{
    a == b
}

/// The per-tier values of the tier table.
#[derive(Clone, Copy, Debug, PartialEq, Eq, Structural)]
pub struct TierBaseState {
    /// Maximal allocation of a sale for the tier.
    pub max_alloc: u64,
    /// Credit multiplier of the tier, in percent.
    pub rate: u64,
}

/// One tier as given by the administrator.
#[derive(Clone, Copy, Debug, PartialEq, Eq, Structural)]
pub struct TierBaseParams {
    pub threshold: u64,
    pub max_alloc: u64,
    pub rate: u64,
}

/// One tier as reported by the tier view.
#[derive(Clone, Copy, Debug, PartialEq, Eq, Structural)]
pub struct ViewTierBaseParams {
    pub threshold: u64,
    pub max_alloc: u64,
    pub rate: u64,
}

/// One lock of staked tokens. Times are milliseconds since the Unix epoch.
#[derive(Clone, Copy, Debug, PartialEq, Eq, Structural)]
pub struct LockState {
    pub amount: u64,
    /// Length of the lock in days.
    pub duration: u16,
    pub bonus_rate: u16,
    pub start_at: u64,
    pub end_at: u64,
}

impl LockState {
    pub fn new(amount: u64, duration: u16, bonus_rate: u16, start_at: u64, end_at: u64) -> (r:
        LockState)
        ensures
            r == (LockState { amount, duration, bonus_rate, start_at, end_at }),
    {
        LockState { amount: amount, duration: duration, bonus_rate: bonus_rate, start_at: start_at, end_at: end_at }
    }
}

/// Parameters of contract initialisation.
#[derive(Clone, Debug)]
pub struct InitParams {
    pub token_address: ContractAddress,
    pub tier_bases: Vec<TierBaseParams>,
}

#[derive(Clone, Copy, Debug)]
pub struct UnstakeParams {
    pub start_at: u64,
}

#[derive(Clone, Copy, Debug)]
pub struct ViewUnstakeParams {
    pub owner: Address,
    pub start_at: u64,
}

#[derive(Clone, Copy, Debug)]
pub struct ViewLockStakingRewardParams {
    pub owner: Address,
    pub start_at: u64,
}

#[derive(Clone, Copy, Debug)]
pub struct ViewCalcStakingRewardParams {
    pub amount: u64,
    pub duration: u16,
}

#[derive(Clone, Copy, Debug)]
pub struct ViewCalcEarlyFeeParams {
    pub amount: u64,
    pub duration: u16,
    pub staking_days: u16,
}

#[derive(Clone, Copy, Debug)]
pub struct WithdrawOvlSafeParameter {
    pub amount: u64,
}

#[derive(Clone, Copy, Debug)]
pub struct DepositOvlCreditParams {
    pub project_address: ContractAddress,
    pub ovl_credit_amount: u64,
}

#[derive(Clone, Copy, Debug)]
pub struct ViewStakeParams {
    pub owner: Address,
}

#[derive(Clone, Copy, Debug)]
pub struct SetPausedParams {
    pub paused: bool,
}

#[derive(Clone, Copy, Debug, PartialEq, Eq, Structural)]
pub struct ViewStakingRewardResponse {
    pub staking_reward: u64,
}

/// What an unstake of a lock pays out, now or at a given time.
#[derive(Clone, Copy, Debug, PartialEq, Eq, Structural)]
pub struct ViewUnstakeResponse {
    pub staked_amount: u64,
    pub staking_days: u16,
    pub early_fee_days: u16,
    pub left_days: u16,
    pub early_fee: u64,
    pub staking_reward: u64,
    pub send_amount: u64,
}

#[derive(Clone, Debug)]
pub struct ViewStakeResponse {
    pub amount: u64,
    pub tier: u8,
    pub staked_ovl_credits: Vec<(ContractAddress, u64)>,
    pub ovl_credit_amount: u64,
    pub available_ovl_credit_amount: u64,
    pub locks: BTreeMap<u64, LockState>,
}

#[derive(Clone, Copy, Debug)]
pub struct ViewResponse {
    pub admin: Address,
    pub paused: bool,
    pub token_address: ContractAddress,
    pub total_staked_amount: u64,
    pub ovl_safe_amount: u64,
}

/// A token transfer that the contract asks the token contract to make, from
/// its own holdings to an account.
#[derive(Clone, Copy, Debug)]
pub struct TokenTransfer {
    pub to: AccountAddress,
    pub amount: u64,
}

} // verus!
