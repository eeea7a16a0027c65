use ovl_staking::encoding::parse_stake_duration;
use ovl_staking::errors::{ContractError, LogFailure, UpgradeFailure};
use ovl_staking::order::is_stored_before;
use ovl_staking::tiers::table_entries;
use std::collections::BTreeMap;
use ovl_staking::state::State;
use ovl_staking::types::{
    AccountAddress, Address, ContractAddress, DepositOvlCreditParams, InitParams, LockState,
    SetPausedParams, TierBaseParams, TierBaseState, ViewCalcEarlyFeeParams,
    ViewCalcStakingRewardParams, ViewLockStakingRewardParams, ViewStakeParams, ViewTierBaseParams,
    ViewUnstakeParams, ViewUnstakeResponse,
};

const ADMIN_ACCOUNT: AccountAddress = AccountAddress([2u8; 32]);
const ADMIN_ADDRESS: Address = Address::Account(ADMIN_ACCOUNT);
const NEW_ADMIN_ACCOUNT: AccountAddress = AccountAddress([3u8; 32]);
const NEW_ADMIN_ADDRESS: Address = Address::Account(NEW_ADMIN_ACCOUNT);
const DAY: u64 = 86_400_000;

fn token_address() -> ContractAddress {
    ContractAddress::new(2250, 0)
}

fn initial_state() -> State {
    let tier_bases: BTreeMap<u64, TierBaseState> = BTreeMap::from([
        (1000u64, TierBaseState { max_alloc: 2, rate: 105 }),
        (2000u64, TierBaseState { max_alloc: 4, rate: 110 }),
        (3000u64, TierBaseState { max_alloc: 8, rate: 115 }),
        (4000u64, TierBaseState { max_alloc: 16, rate: 120 }),
        (5000u64, TierBaseState { max_alloc: 32, rate: 125 }),
    ]);
    State::new(ADMIN_ADDRESS, token_address(), tier_bases)
}

fn tier_params(rows: &[(u64, u64, u64)]) -> Vec<TierBaseParams> {
    rows.iter()
        .map(|&(threshold, max_alloc, rate)| TierBaseParams { threshold, max_alloc, rate })
        .collect()
}

#[test]
fn test_init() {
    let params = InitParams {
        token_address: token_address(),
        tier_bases: tier_params(&[
            (100_000_000_000, 2, 105),
            (200_000_000_000, 4, 110),
            (500_000_000_000, 8, 115),
            (1_250_000_000_000, 16, 120),
            (2_500_000_000_000, 32, 125),
        ]),
    };
    let state = State::contract_init(ADMIN_ACCOUNT, &params);
    assert!(state.admin == ADMIN_ADDRESS);
    assert!(!state.paused);
    assert_eq!(state.token_address, token_address());
    assert_eq!(state.total_staked_amount, 0);
    assert_eq!(state.ovl_safe_amount, 0);
    assert!(state.stakes.is_empty());
    assert_eq!(
        table_entries(&state.tier_bases),
        vec![
            (100_000_000_000, TierBaseState { max_alloc: 2, rate: 105 }),
            (200_000_000_000, TierBaseState { max_alloc: 4, rate: 110 }),
            (500_000_000_000, TierBaseState { max_alloc: 8, rate: 115 }),
            (1_250_000_000_000, TierBaseState { max_alloc: 16, rate: 120 }),
            (2_500_000_000_000, TierBaseState { max_alloc: 32, rate: 125 }),
        ]
    );
}

#[test]
fn init_keeps_first_of_repeated_thresholds_and_sorts() {
    let params = InitParams {
        token_address: token_address(),
        tier_bases: tier_params(&[(3000, 8, 115), (1000, 2, 105), (3000, 99, 999), (2000, 4, 110)]),
    };
    let state = State::contract_init(ADMIN_ACCOUNT, &params);
    assert_eq!(
        table_entries(&state.tier_bases),
        vec![
            (1000, TierBaseState { max_alloc: 2, rate: 105 }),
            (2000, TierBaseState { max_alloc: 4, rate: 110 }),
            (3000, TierBaseState { max_alloc: 8, rate: 115 }),
        ]
    );
}

#[test]
fn test_view() {
    let state = initial_state();
    let view = state.contract_view();
    assert!(view.admin == ADMIN_ADDRESS);
    assert!(!view.paused);
    assert_eq!(view.token_address, token_address());
    assert_eq!(view.total_staked_amount, 0);
    assert_eq!(view.ovl_safe_amount, 0);
}

#[test]
fn test_calc_lock_staking_reward() {
    let mut state = initial_state();
    let now = 100u64;
    assert_eq!(state.stake(&ADMIN_ADDRESS, 33000000_000000, 30, now), Ok(()));
    state.ovl_safe_amount += 100000000_000000;
    let result = state.contract_view_lock_staking_reward(ViewLockStakingRewardParams {
        owner: ADMIN_ADDRESS,
        start_at: now,
    });
    // 1e14 * 166 * 30 * 3.3e13 * 130 / 3.3e13 / 1e6 / 100
    assert_eq!(result.map(|r| r.staking_reward), Ok(647_400_000_000));
}

#[test]
fn test_calc_staking_reward() {
    let mut state = initial_state();
    state.ovl_safe_amount += 100000000_000000;
    let result = state.contract_view_calc_staking_reward(ViewCalcStakingRewardParams {
        amount: 33000000_000000,
        duration: 30,
    });
    assert_eq!(result.map(|r| r.staking_reward), Ok(647_400_000_000));
}

#[test]
fn test_stake() {
    let mut state = initial_state();
    assert_eq!(state.stake(&ADMIN_ADDRESS, 500, 30, 100), Ok(()));
    let view = state.contract_view_stake(ViewStakeParams { owner: ADMIN_ADDRESS });
    assert_eq!(view.amount, 500);
    assert_eq!(view.tier, 0);
    assert!(view.staked_ovl_credits.is_empty());
    assert_eq!(view.ovl_credit_amount, 500);
    assert_eq!(view.available_ovl_credit_amount, 500);
    assert_eq!(view.locks.len(), 1);
    assert_eq!(
        view.locks.get(&100),
        Some(&LockState { amount: 500, duration: 30, bonus_rate: 166, start_at: 100, end_at: 100 + 30 * DAY })
    );
    assert_eq!(state.total_staked_amount, 500);
}

#[test]
fn stake_reaching_every_threshold_gets_top_tier_and_rate() {
    let mut state = initial_state();
    assert_eq!(state.stake(&ADMIN_ADDRESS, 5000, 30, 100), Ok(()));
    let view = state.contract_view_stake(ViewStakeParams { owner: ADMIN_ADDRESS });
    assert_eq!(view.tier, 5);
    assert_eq!(view.ovl_credit_amount, 6250);
    assert_eq!(view.available_ovl_credit_amount, 6250);
}

#[test]
fn stake_between_thresholds_uses_highest_reached() {
    let mut state = initial_state();
    assert_eq!(state.stake(&ADMIN_ADDRESS, 2500, 30, 100), Ok(()));
    let view = state.contract_view_stake(ViewStakeParams { owner: ADMIN_ADDRESS });
    assert_eq!(view.tier, 2);
    // 2500 * 110 / 100
    assert_eq!(view.ovl_credit_amount, 2750);
}

#[test]
fn stake_refuses_bad_durations_but_registers_the_holder() {
    let mut state = initial_state();
    assert_eq!(state.stake(&ADMIN_ADDRESS, 500, 29, 100), Err(ContractError::NotEnoughMinStakingDuration));
    assert_eq!(state.stakes.len(), 1);
    assert_eq!(state.total_staked_amount, 0);
    assert_eq!(state.stake(&ADMIN_ADDRESS, 500, 731, 100), Err(ContractError::OverMaxStakingDuration));
    assert_eq!(state.stakes.len(), 1);
    assert_eq!(state.stake(&ADMIN_ADDRESS, 500, 30, u64::MAX - 1000), Err(ContractError::InvalidDuration));
    assert_eq!(state.stakes[0].1.amount, 0);
    assert_eq!(state.stakes[0].1.locks.len(), 0);
}

#[test]
fn test_unstake() {
    let mut state = initial_state();
    assert_eq!(state.stake(&ADMIN_ADDRESS, 5000, 30, 100), Ok(()));
    assert_eq!(state.unstake(&ADMIN_ADDRESS, 100), Ok(()));
    let view = state.contract_view_stake(ViewStakeParams { owner: ADMIN_ADDRESS });
    assert_eq!(view.amount, 0);
    assert_eq!(view.tier, 0);
    assert_eq!(view.ovl_credit_amount, 0);
    assert_eq!(view.available_ovl_credit_amount, 0);
    assert!(view.locks.is_empty());
    assert_eq!(state.total_staked_amount, 0);
}

#[test]
fn unstake_errors() {
    let mut state = initial_state();
    assert_eq!(state.unstake(&ADMIN_ADDRESS, 100), Err(ContractError::StakeOwnerNotFound));
    assert_eq!(state.stake(&ADMIN_ADDRESS, 5000, 30, 100), Ok(()));
    assert_eq!(state.unstake(&ADMIN_ADDRESS, 101), Err(ContractError::LockNotFound));
    // placed credits that the remaining amount does not earn
    let invoker = ADMIN_ACCOUNT;
    let params = DepositOvlCreditParams { project_address: token_address(), ovl_credit_amount: 6000 };
    assert_eq!(state.contract_deposit_ovl_credit(invoker, params), Ok(()));
    assert_eq!(state.unstake(&ADMIN_ADDRESS, 100), Err(ContractError::InsufficientOvlCredit));
    assert_eq!(state.total_staked_amount, 5000);
    // a stake that does not cover its lock
    state.stakes[0].1.amount = 10;
    assert_eq!(state.unstake(&ADMIN_ADDRESS, 100), Err(ContractError::InsufficientOvl));
}

#[test]
fn test_deposit_and_withdraw_ovl_credit() {
    let mut state = initial_state();
    assert_eq!(state.stake(&ADMIN_ADDRESS, 5000, 30, 100), Ok(()));
    let project = ContractAddress::new(2250, 0);
    let deposit = DepositOvlCreditParams { project_address: project, ovl_credit_amount: 2000 };
    assert_eq!(state.contract_deposit_ovl_credit(ADMIN_ACCOUNT, deposit), Ok(()));
    let withdraw = DepositOvlCreditParams { project_address: project, ovl_credit_amount: 1200 };
    assert_eq!(state.contract_withdraw_ovl_credit(ADMIN_ACCOUNT, withdraw), Ok(()));
    let view = state.contract_view_stake(ViewStakeParams { owner: ADMIN_ADDRESS });
    assert_eq!(view.amount, 5000);
    assert_eq!(view.tier, 5);
    assert_eq!(view.staked_ovl_credits, vec![(project, 800)]);
    assert_eq!(view.ovl_credit_amount, 6250);
    assert_eq!(view.available_ovl_credit_amount, 5450);
}

#[test]
fn credit_errors() {
    let mut state = initial_state();
    let project = ContractAddress::new(7, 1);
    let params = DepositOvlCreditParams { project_address: project, ovl_credit_amount: 1 };
    assert_eq!(state.contract_withdraw_ovl_credit(ADMIN_ACCOUNT, params), Err(ContractError::ProjectNotFound));
    assert_eq!(state.contract_deposit_ovl_credit(ADMIN_ACCOUNT, params), Err(ContractError::InsufficientOvlCredit));
    // the refused deposit still registered an empty stake
    assert_eq!(state.stakes.len(), 1);
    assert_eq!(state.contract_withdraw_ovl_credit(ADMIN_ACCOUNT, params), Err(ContractError::ProjectNotFound));
    assert_eq!(state.stake(&ADMIN_ADDRESS, 500, 30, 100), Ok(()));
    assert_eq!(state.contract_deposit_ovl_credit(ADMIN_ACCOUNT, params), Ok(()));
    let too_much = DepositOvlCreditParams { project_address: project, ovl_credit_amount: 2 };
    assert_eq!(
        state.contract_withdraw_ovl_credit(ADMIN_ACCOUNT, too_much),
        Err(ContractError::InsufficientDepositedOvlCredit)
    );
    state.paused = true;
    assert_eq!(state.contract_deposit_ovl_credit(ADMIN_ACCOUNT, params), Err(ContractError::ContractPaused));
    assert_eq!(state.contract_withdraw_ovl_credit(ADMIN_ACCOUNT, params), Err(ContractError::ContractPaused));
}

#[test]
fn withdraw_undoes_deposit() {
    let mut state = initial_state();
    assert_eq!(state.stake(&ADMIN_ADDRESS, 5000, 30, 100), Ok(()));
    let project = ContractAddress::new(3, 0);
    let params = DepositOvlCreditParams { project_address: project, ovl_credit_amount: 100 };
    assert_eq!(state.contract_deposit_ovl_credit(ADMIN_ACCOUNT, params), Ok(()));
    let before = state.get_staked_ovl_credits(&ADMIN_ADDRESS);
    let available = state.stakes[0].1.available_ovl_credit_amount;
    assert_eq!(state.contract_deposit_ovl_credit(ADMIN_ACCOUNT, params), Ok(()));
    assert_eq!(state.contract_withdraw_ovl_credit(ADMIN_ACCOUNT, params), Ok(()));
    assert_eq!(state.get_staked_ovl_credits(&ADMIN_ADDRESS), before);
    assert_eq!(state.stakes[0].1.available_ovl_credit_amount, available);
}

#[test]
fn test_update_admin() {
    let mut state = initial_state();
    assert!(state.admin == ADMIN_ADDRESS);
    assert_eq!(state.contract_update_admin(&ADMIN_ADDRESS, NEW_ADMIN_ADDRESS), Ok(()));
    assert!(state.admin == NEW_ADMIN_ADDRESS);
    assert_eq!(state.contract_update_admin(&ADMIN_ADDRESS, ADMIN_ADDRESS), Err(ContractError::Unauthorized));
    assert!(state.admin == NEW_ADMIN_ADDRESS);
}

#[test]
fn test_update_tier_base() {
    let mut state = initial_state();
    let params = tier_params(&[
        (150_000_000_000, 2, 105),
        (200_000_000_000, 4, 110),
        (300_000_000_000, 8, 120),
        (1_250_000_000_000, 16, 130),
        (3_000_000_000_000, 32, 140),
    ]);
    assert_eq!(state.contract_update_tier_base(&ADMIN_ADDRESS, &params), Ok(()));
    let tiers = state.contract_view_tier_bases();
    assert_eq!(
        tiers,
        vec![
            (1, ViewTierBaseParams { threshold: 150_000_000_000, max_alloc: 2, rate: 105 }),
            (2, ViewTierBaseParams { threshold: 200_000_000_000, max_alloc: 4, rate: 110 }),
            (3, ViewTierBaseParams { threshold: 300_000_000_000, max_alloc: 8, rate: 120 }),
            (4, ViewTierBaseParams { threshold: 1_250_000_000_000, max_alloc: 16, rate: 130 }),
            (5, ViewTierBaseParams { threshold: 3_000_000_000_000, max_alloc: 32, rate: 140 }),
        ]
    );
    assert_eq!(
        state.contract_update_tier_base(&NEW_ADMIN_ADDRESS, &params),
        Err(ContractError::Unauthorized)
    );
}

#[test]
fn set_paused_needs_admin() {
    let mut state = initial_state();
    assert_eq!(state.contract_set_paused(&NEW_ADMIN_ADDRESS, SetPausedParams { paused: true }), Err(ContractError::Unauthorized));
    assert!(!state.paused);
    assert_eq!(state.contract_set_paused(&ADMIN_ADDRESS, SetPausedParams { paused: true }), Ok(()));
    assert!(state.paused);
    assert_eq!(state.check_admin(&ADMIN_ADDRESS), Ok(()));
    assert_eq!(state.check_admin(&NEW_ADMIN_ADDRESS), Err(ContractError::Unauthorized));
}

#[test]
fn contract_stake_refuses_every_duration() {
    let mut state = initial_state();
    let token = Address::Contract(token_address());
    for duration in [0u16, 10, 29, 30, 31, 365, 730, 731, 800, u16::MAX] {
        assert_eq!(
            state.contract_stake(&token, ADMIN_ACCOUNT, 1000, &duration.to_le_bytes(), 100),
            Err(ContractError::InvalidStakingDuration)
        );
    }
    assert!(state.stakes.is_empty());
    assert_eq!(state.total_staked_amount, 0);
    assert_eq!(state.contract_stake(&token, ADMIN_ACCOUNT, 1000, &[30], 100), Err(ContractError::ParseParams));
    assert_eq!(state.contract_stake(&token, ADMIN_ACCOUNT, 1000, &[], 100), Err(ContractError::ParseParams));
    assert_eq!(
        state.contract_stake(&ADMIN_ADDRESS, ADMIN_ACCOUNT, 1000, &[30, 0], 100),
        Err(ContractError::InvalidSender)
    );
    let other = Address::Contract(ContractAddress::new(1, 0));
    assert_eq!(state.contract_stake(&other, ADMIN_ACCOUNT, 1000, &[30, 0], 100), Err(ContractError::InvalidSender));
    state.paused = true;
    assert_eq!(state.contract_stake(&token, ADMIN_ACCOUNT, 1000, &[30, 0], 100), Err(ContractError::ContractPaused));
}

#[test]
fn stake_duration_is_read_from_the_first_two_bytes() {
    assert_eq!(parse_stake_duration(&[0x2c, 0x01]), Ok(300));
    assert_eq!(parse_stake_duration(&[30, 0]), Ok(30));
    assert_eq!(parse_stake_duration(&[5, 0, 9, 9]), Ok(5));
    assert_eq!(parse_stake_duration(&[0xff, 0xff]), Ok(u16::MAX));
    assert_eq!(parse_stake_duration(&[7]), Err(ContractError::ParseParams));
    assert_eq!(parse_stake_duration(&[]), Err(ContractError::ParseParams));
}

#[test]
fn credits_are_listed_in_storage_order() {
    let mut state = initial_state();
    assert_eq!(state.stake(&ADMIN_ADDRESS, 5000, 30, 100), Ok(()));
    // stored under index then subindex, each least significant byte first
    let projects = [
        ContractAddress::new(2, 5),
        ContractAddress::new(1, 0),
        ContractAddress::new(256, 0),
        ContractAddress::new(2, 1),
    ];
    for (n, project) in projects.iter().enumerate() {
        let params = DepositOvlCreditParams { project_address: *project, ovl_credit_amount: 10 + n as u64 };
        assert_eq!(state.contract_deposit_ovl_credit(ADMIN_ACCOUNT, params), Ok(()));
    }
    let expected = vec![
        (ContractAddress::new(256, 0), 12),
        (ContractAddress::new(1, 0), 11),
        (ContractAddress::new(2, 1), 13),
        (ContractAddress::new(2, 5), 10),
    ];
    assert_eq!(state.get_staked_ovl_credits(&ADMIN_ADDRESS), expected);
    let view = state.contract_view_stake(ViewStakeParams { owner: ADMIN_ADDRESS });
    assert_eq!(view.staked_ovl_credits, expected);
    assert!(state.get_staked_ovl_credits(&NEW_ADMIN_ADDRESS).is_empty());
}

#[test]
fn storage_order_compares_bytes() {
    let a = ContractAddress::new(256, 0);
    let b = ContractAddress::new(1, 0);
    assert!(is_stored_before(&a, &b));
    assert!(!is_stored_before(&b, &a));
    assert!(!is_stored_before(&a, &a));
    assert!(is_stored_before(&ContractAddress::new(7, 1), &ContractAddress::new(7, 2)));
    assert!(is_stored_before(&ContractAddress::new(7, 0x100), &ContractAddress::new(7, 1)));
    assert!(is_stored_before(&ContractAddress::new(1, u64::MAX), &ContractAddress::new(2, 0)));
}

#[test]
fn amounts_match_the_locks() {
    let mut state = initial_state();
    let other = Address::Account(AccountAddress([9u8; 32]));
    assert_eq!(state.stake(&ADMIN_ADDRESS, 700, 30, 1), Ok(()));
    assert_eq!(state.stake(&other, 1500, 40, 2), Ok(()));
    assert_eq!(state.stake(&ADMIN_ADDRESS, 300, 50, 3), Ok(()));
    assert_eq!(state.stake(&ADMIN_ADDRESS, 900, 60, 4), Ok(()));
    assert_eq!(state.unstake(&ADMIN_ADDRESS, 3), Ok(()));
    for (_, s) in state.stakes.iter() {
        let locked: u64 = s.locks.values().map(|l| l.amount).sum();
        assert_eq!(s.amount, locked);
    }
    assert_eq!(state.stakes[0].1.amount, 1600);
}

#[test]
fn reward_grows_with_days_and_safe() {
    let mut state = initial_state();
    state.total_staked_amount = 33000000_000000;
    state.ovl_safe_amount = 100000000_000000;
    let amount = 33000000_000000;
    assert_eq!(state.calc_staking_reward(amount, 166, 30, 0, true), Ok(0));
    let r10 = state.calc_staking_reward(amount, 166, 30, 10, true).unwrap();
    let r30 = state.calc_staking_reward(amount, 166, 30, 30, true).unwrap();
    assert!(r10 <= r30);
    assert_eq!(r30, 647_400_000_000);
    state.ovl_safe_amount = 200000000_000000;
    let r30_larger = state.calc_staking_reward(amount, 166, 30, 30, true).unwrap();
    assert!(r30 <= r30_larger);
    assert_eq!(r30_larger, 1_294_800_000_000);
}

#[test]
fn unstaked_amount_counts_in_the_pool() {
    let mut state = initial_state();
    state.total_staked_amount = 1000;
    state.ovl_safe_amount = 100000000_000000;
    let fresh = state.calc_staking_reward(3000, 166, 90, 45, false);
    state.total_staked_amount = 4000;
    assert_eq!(state.calc_staking_reward(3000, 166, 90, 45, true), fresh);
    // 1e14 * 166 * 45 * 3000 * 190 / 4000 / 1e6 / 100
    assert_eq!(fresh, Ok(1_064_475_000_000));
}

#[test]
fn unstake_restores_the_stake() {
    let mut state = initial_state();
    assert_eq!(state.stake(&ADMIN_ADDRESS, 2500, 30, 1), Ok(()));
    let project = ContractAddress::new(3, 0);
    let params = DepositOvlCreditParams { project_address: project, ovl_credit_amount: 100 };
    assert_eq!(state.contract_deposit_ovl_credit(ADMIN_ACCOUNT, params), Ok(()));
    let (amount, tier, credit, available) = {
        let s = &state.stakes[0].1;
        (s.amount, s.tier, s.ovl_credit_amount, s.available_ovl_credit_amount)
    };
    let credits = state.get_staked_ovl_credits(&ADMIN_ADDRESS);
    let total = state.total_staked_amount;
    assert_eq!(state.stake(&ADMIN_ADDRESS, 4000, 30, 2), Ok(()));
    assert_eq!(state.unstake(&ADMIN_ADDRESS, 2), Ok(()));
    let after = &state.stakes[0].1;
    assert_eq!(after.amount, amount);
    assert_eq!(after.tier, tier);
    assert_eq!(after.ovl_credit_amount, credit);
    assert_eq!(after.available_ovl_credit_amount, available);
    assert_eq!((amount, tier, credit, available), (2500, 2, 2750, 2650));
    assert_eq!(state.get_staked_ovl_credits(&ADMIN_ADDRESS), credits);
    assert_eq!(after.locks.len(), 1);
    assert_eq!(state.total_staked_amount, total);
}

#[test]
fn deposit_then_withdraw_restores_credits() {
    let mut state = initial_state();
    assert_eq!(state.stake(&ADMIN_ADDRESS, 5000, 30, 100), Ok(()));
    let available = state.stakes[0].1.available_ovl_credit_amount;
    let project = ContractAddress::new(4, 2);
    let params = DepositOvlCreditParams { project_address: project, ovl_credit_amount: 250 };
    assert_eq!(state.contract_deposit_ovl_credit(ADMIN_ACCOUNT, params), Ok(()));
    assert_eq!(state.stakes[0].1.available_ovl_credit_amount, available - 250);
    assert_eq!(state.contract_withdraw_ovl_credit(ADMIN_ACCOUNT, params), Ok(()));
    assert_eq!(state.stakes[0].1.available_ovl_credit_amount, available);
    assert_eq!(state.get_staked_ovl_credits(&ADMIN_ADDRESS), vec![(project, 0)]);
}

#[test]
fn unstake_entry_agrees_with_the_view() {
    let mut state = initial_state();
    assert_eq!(state.stake(&ADMIN_ADDRESS, 33000000_000000, 30, 100), Ok(()));
    state.ovl_safe_amount = 100000000_000000;
    for now in [100, 100 + 10 * DAY, 100 + 30 * DAY] {
        let view = state.contract_view_unstake(ViewUnstakeParams { owner: ADMIN_ADDRESS, start_at: 100 }, now);
        assert_eq!(state.contract_unstake_quote(ADMIN_ACCOUNT, 100, now), view);
    }
    assert_eq!(state.contract_unstake_quote(ADMIN_ACCOUNT, 5, 100), Err(ContractError::LockNotFound));
    assert_eq!(state.contract_unstake_quote(NEW_ADMIN_ACCOUNT, 100, 100), Err(ContractError::StakeOwnerNotFound));
    state.paused = true;
    assert_eq!(state.contract_unstake_quote(ADMIN_ACCOUNT, 100, 100), Err(ContractError::ContractPaused));
    // while paused, even a state whose reward cannot be computed is answered
    state.ovl_safe_amount = 0;
    state.total_staked_amount = 0;
    assert_eq!(
        state.contract_view_unstake(ViewUnstakeParams { owner: ADMIN_ADDRESS, start_at: 100 }, 100),
        Err(ContractError::ContractPaused)
    );
}

#[test]
fn ovl_safe_deposit_and_withdraw() {
    let mut state = initial_state();
    assert_eq!(state.contract_deposit_ovl_safe(&ADMIN_ADDRESS, 10), Err(ContractError::InvalidSender));
    let other = Address::Contract(ContractAddress::new(1, 0));
    assert_eq!(state.contract_deposit_ovl_safe(&other, 10), Err(ContractError::InvalidSender));
    let token = Address::Contract(token_address());
    assert_eq!(state.contract_deposit_ovl_safe(&token, 1000), Ok(()));
    assert_eq!(state.ovl_safe_amount, 1000);

    assert_eq!(state.contract_withdraw_ovl_safe(&token, 10).map(|t| t.amount), Err(ContractError::InvalidSender));
    assert_eq!(state.contract_withdraw_ovl_safe(&NEW_ADMIN_ADDRESS, 10).map(|t| t.amount), Err(ContractError::Unauthorized));
    assert_eq!(state.contract_withdraw_ovl_safe(&ADMIN_ADDRESS, 1001).map(|t| t.amount), Err(ContractError::NotEnoughOvlSafe));
    let transfer = state.contract_withdraw_ovl_safe(&ADMIN_ADDRESS, 400).unwrap();
    assert!(transfer.to == ADMIN_ACCOUNT);
    assert_eq!(transfer.amount, 400);
    state.settle_withdraw_ovl_safe(transfer.amount);
    assert_eq!(state.ovl_safe_amount, 600);
}

#[test]
fn view_unstake_before_and_after_the_end() {
    let mut state = initial_state();
    assert_eq!(state.stake(&ADMIN_ADDRESS, 33000000_000000, 30, 100), Ok(()));
    state.ovl_safe_amount = 100000000_000000;
    let params = ViewUnstakeParams { owner: ADMIN_ADDRESS, start_at: 100 };
    let early = state.contract_view_unstake(params, 100 + 10 * DAY + 5).unwrap();
    assert_eq!(
        early,
        ViewUnstakeResponse {
            staked_amount: 33000000_000000,
            staking_days: 10,
            early_fee_days: 30,
            left_days: 20,
            early_fee: 647_400_000_000,
            staking_reward: 0,
            send_amount: 33000000_000000 - 647_400_000_000,
        }
    );
    let late = state.contract_view_unstake(params, 100 + 30 * DAY).unwrap();
    assert_eq!(
        late,
        ViewUnstakeResponse {
            staked_amount: 33000000_000000,
            staking_days: 30,
            early_fee_days: 0,
            left_days: 0,
            early_fee: 0,
            staking_reward: 647_400_000_000,
            send_amount: 33000000_000000 + 647_400_000_000,
        }
    );
    // the payout adds up
    assert_eq!(early.send_amount + early.early_fee, early.staked_amount + early.staking_reward);
    assert_eq!(late.send_amount + late.early_fee, late.staked_amount + late.staking_reward);
    let missing = ViewUnstakeParams { owner: NEW_ADMIN_ADDRESS, start_at: 100 };
    assert_eq!(state.contract_view_unstake(missing, 100), Err(ContractError::StakeOwnerNotFound));
    let no_lock = ViewUnstakeParams { owner: ADMIN_ADDRESS, start_at: 99 };
    assert_eq!(state.contract_view_unstake(no_lock, 100), Err(ContractError::LockNotFound));
    state.paused = true;
    assert_eq!(state.contract_view_unstake(params, 100), Err(ContractError::ContractPaused));
}

#[test]
fn early_fee_is_capped_at_the_staked_amount() {
    let mut state = initial_state();
    assert_eq!(state.stake(&ADMIN_ADDRESS, 1000, 60, 100), Ok(()));
    state.ovl_safe_amount = 10_000_000_000;
    let quote = state.contract_unstake_quote(ADMIN_ACCOUNT, 100, 100 + DAY).unwrap();
    // reward over 30 days: 1e10 * 166 * 30 * 1000 * 160 / 1000 / 1e6 / 100
    assert_eq!(quote.early_fee, 1000);
    assert_eq!(quote.send_amount, 0);
    assert_eq!(quote.early_fee_days, 30);
    assert_eq!(quote.left_days, 59);
}

#[test]
fn unstake_settles_the_safe() {
    let mut state = initial_state();
    assert_eq!(state.stake(&ADMIN_ADDRESS, 33000000_000000, 30, 100), Ok(()));
    state.ovl_safe_amount = 100000000_000000;
    let quote = state.contract_unstake_quote(ADMIN_ACCOUNT, 100, 100 + 30 * DAY).unwrap();
    assert_eq!(state.contract_unstake_finish(ADMIN_ACCOUNT, 100, &quote), Ok(()));
    assert_eq!(state.ovl_safe_amount, 100000000_000000 - 647_400_000_000);
    assert_eq!(state.total_staked_amount, 0);
    assert_eq!(state.stakes[0].1.amount, 0);
}

#[test]
fn view_calc_early_fee_figures() {
    let mut state = initial_state();
    state.ovl_safe_amount = 100000000_000000;
    let result = state
        .contract_view_calc_early_fee(ViewCalcEarlyFeeParams { amount: 33000000_000000, duration: 30, staking_days: 10 })
        .unwrap();
    assert_eq!(
        result,
        ViewUnstakeResponse {
            staked_amount: 33000000_000000,
            staking_days: 10,
            early_fee_days: 30,
            left_days: 20,
            early_fee: 647_400_000_000,
            staking_reward: 0,
            send_amount: 33000000_000000 - 647_400_000_000,
        }
    );
}

#[test]
fn reward_overflow_is_refused() {
    let mut state = initial_state();
    state.ovl_safe_amount = u64::MAX;
    state.total_staked_amount = 1;
    // safe * rate * days * amount exceeds a u128
    assert_eq!(
        state.calc_staking_reward(u64::MAX, u16::MAX, 30, u16::MAX, true),
        Err(ContractError::OverflowError)
    );
    // the reward itself exceeds a u64
    assert_eq!(
        state.calc_staking_reward(1_000_000_000_000, 166, 30, 30, true),
        Err(ContractError::OverflowError)
    );
}

#[test]
fn total_matches_the_sum_of_stakes() {
    let mut state = initial_state();
    let other = Address::Account(AccountAddress([9u8; 32]));
    assert_eq!(state.stake(&ADMIN_ADDRESS, 700, 30, 1), Ok(()));
    assert_eq!(state.stake(&other, 1500, 40, 2), Ok(()));
    assert_eq!(state.stake(&ADMIN_ADDRESS, 300, 50, 3), Ok(()));
    assert_eq!(state.unstake(&other, 2), Ok(()));
    let sum: u64 = state.stakes.iter().map(|(_, s)| s.amount).sum();
    assert_eq!(state.total_staked_amount, sum);
    assert_eq!(sum, 1000);
    for (_, s) in state.stakes.iter() {
        let placed: u64 = s.staked_ovl_credits.iter().map(|(_, c)| *c).sum();
        assert_eq!(s.available_ovl_credit_amount + placed, s.ovl_credit_amount);
    }
}

#[test]
fn unstake_undoes_stake() {
    let mut state = initial_state();
    assert_eq!(state.stake(&ADMIN_ADDRESS, 2500, 30, 1), Ok(()));
    let amount = state.stakes[0].1.amount;
    let tier = state.stakes[0].1.tier;
    let credit = state.stakes[0].1.ovl_credit_amount;
    assert_eq!(state.stake(&ADMIN_ADDRESS, 4000, 30, 2), Ok(()));
    assert_eq!(state.stakes[0].1.tier, 5);
    assert_eq!(state.unstake(&ADMIN_ADDRESS, 2), Ok(()));
    assert_eq!(state.stakes[0].1.amount, amount);
    assert_eq!(state.stakes[0].1.tier, tier);
    assert_eq!(state.stakes[0].1.ovl_credit_amount, credit);
    assert_eq!(state.stakes[0].1.locks.len(), 1);
    assert_eq!(state.total_staked_amount, 2500);
}

#[test]
fn tier_never_falls_as_the_amount_grows() {
    let state = initial_state();
    let mut last = 0;
    for amount in [0u64, 999, 1000, 1999, 2000, 3500, 4999, 5000, 1_000_000] {
        let tier = ovl_staking::tiers::matching_tier(&table_entries(&state.tier_bases), amount);
        assert!(tier >= last);
        last = tier;
    }
    assert_eq!(last, 5);
}

#[test]
fn view_errors_lists_every_error_in_order() {
    let errors = ovl_staking::contract::contract_view_errors();
    assert_eq!(errors.len(), 24);
    assert_eq!(errors[0], ContractError::ParseParams);
    assert_eq!(errors[9], ContractError::Unauthorized);
    assert_eq!(errors[23], ContractError::InvalidStakingDuration);
}

#[test]
fn host_failures_map_to_errors() {
    assert_eq!(ContractError::from_log_failure(LogFailure::Full), ContractError::LogFull);
    assert_eq!(ContractError::from_log_failure(LogFailure::Malformed), ContractError::LogMalformed);
    assert_eq!(ContractError::from_call_contract_failure(), ContractError::InvokeContractError);
    assert_eq!(ContractError::from_transfer_failure(), ContractError::InvokeTransferError);
    assert_eq!(
        ContractError::from_upgrade_failure(UpgradeFailure::MissingModule),
        ContractError::FailedUpgradeMissingModule
    );
    assert_eq!(
        ContractError::from_upgrade_failure(UpgradeFailure::MissingContract),
        ContractError::FailedUpgradeMissingContract
    );
    assert_eq!(
        ContractError::from_upgrade_failure(UpgradeFailure::UnsupportedModuleVersion),
        ContractError::FailedUpgradeUnsupportedModuleVersion
    );
}

#[test]
fn addresses_compare_by_content() {
    let a = Address::Account(AccountAddress([1u8; 32]));
    let mut bytes = [1u8; 32];
    bytes[31] = 2;
    let b = Address::Account(AccountAddress(bytes));
    assert!(ovl_staking::types::same_address(&a, &a));
    assert!(!ovl_staking::types::same_address(&a, &b));
    let c = Address::Contract(ContractAddress::new(1, 2));
    assert!(c == Address::Contract(ContractAddress::new(1, 2)));
    assert!(c != Address::Contract(ContractAddress::new(1, 3)));
    assert!(a != c);
}

#[test]
fn completion_checks_match_the_limits() {
    let mut state = initial_state();
    assert!(state.is_well_formed());
    // staking more than a u64 can hold does not complete
    assert!(state.stake_completes(&ADMIN_ADDRESS, 500, 30, 100));
    assert!(!state.stake_completes(&ADMIN_ADDRESS, u64::MAX / 100, 30, 100));
    // a product of amount and rate below 100 does not complete
    let mut small = State::new(
        ADMIN_ADDRESS,
        token_address(),
        BTreeMap::from([(1, TierBaseState { max_alloc: 1, rate: 50 })]),
    );
    assert!(!small.stake_completes(&ADMIN_ADDRESS, 1, 30, 100));
    assert!(small.stake_completes(&ADMIN_ADDRESS, 2, 30, 100));
    assert_eq!(small.stake(&ADMIN_ADDRESS, 2, 30, 100), Ok(()));
    assert_eq!(small.stakes[0].1.ovl_credit_amount, 1);
    // refused durations always complete
    assert!(state.stake_completes(&ADMIN_ADDRESS, u64::MAX, 10, 100));
    assert_eq!(state.stake(&ADMIN_ADDRESS, 5000, 30, 100), Ok(()));
    assert!(state.unstake_completes(&ADMIN_ADDRESS, 100));
    assert!(state.unstake_quote_completes(&ADMIN_ADDRESS, 100, 200));
    assert!(state.lock_reward_completes(&ADMIN_ADDRESS, 100, None));
    assert!(state.deposit_credit_completes(&ADMIN_ADDRESS, token_address(), 10));
    assert!(state.withdraw_credit_completes(&ADMIN_ADDRESS, token_address(), 10));
    // an empty pool does not complete
    let empty = initial_state();
    assert!(!empty.reward_completes(100, 166, 30, 30, true));
    assert!(empty.reward_completes(100, 166, 30, 30, false));
    assert!(empty.view_calc_early_fee_completes(ViewCalcEarlyFeeParams { amount: 10, duration: 30, staking_days: 30 }));
    assert!(!empty.view_calc_early_fee_completes(ViewCalcEarlyFeeParams { amount: 10, duration: 30, staking_days: 31 }));
    // a repeated holder breaks the invariant
    state.stakes.push((ADMIN_ADDRESS, ovl_staking::state::StakeState::new()));
    assert!(!state.is_well_formed());
}

#[test]
fn unstake_finish_check() {
    let mut state = initial_state();
    assert_eq!(state.stake(&ADMIN_ADDRESS, 1000, 30, 100), Ok(()));
    let quote = ViewUnstakeResponse {
        staked_amount: 1000,
        staking_days: 30,
        early_fee_days: 0,
        left_days: 0,
        early_fee: 0,
        staking_reward: 1,
        send_amount: 1001,
    };
    // the safe does not cover the reward
    assert!(!state.unstake_finish_completes(ADMIN_ACCOUNT, 100, &quote));
    state.ovl_safe_amount = 1;
    assert!(state.unstake_finish_completes(ADMIN_ACCOUNT, 100, &quote));
    assert_eq!(state.contract_unstake_finish(ADMIN_ACCOUNT, 100, &quote), Ok(()));
    assert_eq!(state.ovl_safe_amount, 0);
    assert_eq!(state.total_staked_amount, 0);
}
