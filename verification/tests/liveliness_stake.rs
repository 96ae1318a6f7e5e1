use core_mx_life_bonding::liveliness::{BondsInfo, ContractDetails, CoreMxLivelinessStake, LivelinessStake, StakeRewardsCall};
use core_mx_life_bonding::rewards::RewardsModule;
use core_mx_life_bonding::rewards::StorageCache;
use core_mx_life_bonding::types::{ContractError, Payment, State, Transfer, DIVISION_SAFETY_CONST};

const BOND_CONTRACT: u64 = 50;
const REWARDS_TOKEN: u64 = 9;
const ALICE: u64 = 1;

fn active_stake() -> LivelinessStake {
    let mut s = LivelinessStake::init();
    s.contract_state = State::Active;
    s.bond_contract_address = BOND_CONTRACT;
    s.rewards_token_identifier = REWARDS_TOKEN;
    s.rewards.rewards_state = State::Active;
    s.rewards.cache = StorageCache {
        rewards_reserve: 1_000,
        accumulated_rewards: 0,
        rewards_per_share: 0,
        rewards_per_block: 10,
        last_reward_block_nonce: 100,
    };
    s
}

fn full_info() -> BondsInfo {
    BondsInfo { total_staked_amount: 50, user_stake_amount: 50, liveliness_score: 10_000 }
}

#[test]
fn init_leaves_contract_inactive_and_empty() {
    let s = LivelinessStake::init();
    assert_eq!(s.contract_state, State::Inactive);
    assert_eq!(s.rewards.rewards_state, State::Inactive);
    assert_eq!(s.rewards.cache.rewards_reserve, 0);
    assert!(s.rewards.address_stack_rewards.is_empty());
}

#[test]
fn stake_upgrade_deactivates() {
    let mut s = active_stake();
    s.upgrade();
    assert_eq!(s.contract_state, State::Inactive);
    assert_eq!(s.rewards.cache.rewards_reserve, 1_000);
}

#[test]
fn rewards_since_last_allocation_is_per_block_rate_times_blocks() {
    let s = active_stake();
    let mut cache = s.rewards.cache;
    assert_eq!(s.rewards.calculate_rewards_since_last_allocation(&mut cache, 107), Ok(70));
    assert_eq!(cache.last_reward_block_nonce, 107);
    assert_eq!(s.rewards.calculate_rewards_since_last_allocation(&mut cache, 107), Ok(0));
    assert_eq!(s.rewards.calculate_rewards_since_last_allocation(&mut cache, 90), Ok(0));
    assert_eq!(cache.last_reward_block_nonce, 107);
}

#[test]
fn apr_bound_per_block() {
    let mut s = active_stake();
    s.rewards.max_apr = 1_000;
    // 10% of 5_256_000_000 over a year of 5_256_000 blocks is 100 per block.
    assert_eq!(s.rewards.get_amount_apr_bounded(5_256_000_000), Ok(100));
    // exact beyond the 128-bit range of the product
    s.rewards.max_apr = 2;
    assert_eq!(s.rewards.get_amount_apr_bounded(u128::MAX), Ok(12_948_339_684_967_217_026_764_634_985));
    s.rewards.max_apr = 20_000;
    assert_eq!(s.rewards.get_amount_apr_bounded(u128::MAX), Ok(129_483_396_849_672_170_267_646_349_859_881));
    // only a bound that itself exceeds 128 bits is refused
    s.rewards.max_apr = 2 * 10_000 * 5_256_000;
    assert_eq!(s.rewards.get_amount_apr_bounded(u128::MAX), Err(ContractError::Overflow));
}

#[test]
fn generation_moves_rewards_from_reserve() {
    let mut s = active_stake();
    assert_eq!(s.rewards.generate_rewards(110, 50), Ok(()));
    let c = s.rewards.cache;
    assert_eq!(c.rewards_reserve, 900);
    assert_eq!(c.accumulated_rewards, 100);
    assert_eq!(c.rewards_per_share, 100 * DIVISION_SAFETY_CONST as u128 / 50);
    assert_eq!(c.last_reward_block_nonce, 110);
    assert_eq!(c.rewards_reserve + c.accumulated_rewards, 1_000);
}

#[test]
fn generation_twice_in_one_block_adds_nothing() {
    let mut s = active_stake();
    s.rewards.generate_rewards(110, 50).unwrap();
    let first = s.rewards.cache;
    s.rewards.generate_rewards(110, 50).unwrap();
    assert_eq!(s.rewards.cache, first);
}

#[test]
fn generation_capped_by_apr() {
    let mut s = active_stake();
    s.rewards.max_apr = 1_000;
    s.rewards.cache.rewards_per_block = 500;
    s.rewards.cache.rewards_reserve = 1_000_000;
    // unbounded: 500 * 10 = 5000; bounded: 100 * 10 = 1000
    assert_eq!(s.rewards.generate_rewards(110, 5_256_000_000), Ok(()));
    assert_eq!(s.rewards.cache.accumulated_rewards, 1_000);
    assert_eq!(s.rewards.cache.rewards_reserve, 999_000);
}

#[test]
fn generation_skipped_when_reserve_is_short() {
    let mut s = active_stake();
    s.rewards.cache.rewards_reserve = 99;
    assert_eq!(s.rewards.generate_rewards(110, 50), Ok(()));
    assert_eq!(s.rewards.cache.accumulated_rewards, 0);
    assert_eq!(s.rewards.cache.rewards_reserve, 99);
    assert_eq!(s.rewards.cache.last_reward_block_nonce, 110);
}

#[test]
fn generation_off_changes_nothing() {
    let mut s = active_stake();
    s.rewards.rewards_state = State::Inactive;
    assert_eq!(s.rewards.generate_rewards(110, 50), Ok(()));
    assert_eq!(s.rewards.cache.last_reward_block_nonce, 100);
    assert_eq!(s.rewards.cache.rewards_reserve, 1_000);
}

#[test]
fn generation_with_nothing_staked_divides_by_zero() {
    let mut s = active_stake();
    assert_eq!(s.rewards.generate_rewards(110, 0), Err(ContractError::DivisionByZero));
    assert_eq!(s.rewards.cache.last_reward_block_nonce, 100);
    assert_eq!(s.rewards.cache.rewards_reserve, 1_000);
}

#[test]
fn generation_before_last_allocation_with_apr_is_negative() {
    let mut s = active_stake();
    s.rewards.max_apr = 1_000;
    assert_eq!(s.rewards.generate_rewards(90, 50), Err(ContractError::NegativeResult));
}

#[test]
fn share_is_stake_times_rewards_per_share_growth() {
    let mut s = active_stake();
    let mut cache = s.rewards.cache;
    cache.rewards_per_share = 3 * DIVISION_SAFETY_CONST as u128;
    cache.accumulated_rewards = 500;
    s.rewards.address_last_reward_per_share.insert(ALICE, DIVISION_SAFETY_CONST as u128);
    assert_eq!(s.rewards.calculate_caller_share_in_rewards(ALICE, 100, 40, &cache), Ok(80));
    assert_eq!(s.rewards.address_stack_rewards.get(&ALICE), Some(&80));
    assert_eq!(
        s.rewards.address_last_reward_per_share.get(&ALICE),
        Some(&(3 * DIVISION_SAFETY_CONST as u128))
    );
    // counted once only
    assert_eq!(s.rewards.calculate_caller_share_in_rewards(ALICE, 100, 40, &cache), Ok(0));
    assert_eq!(s.rewards.address_stack_rewards.get(&ALICE), Some(&80));
}

#[test]
fn share_needs_stake_and_accumulated_rewards() {
    let mut s = active_stake();
    let cache = s.rewards.cache;
    assert_eq!(s.rewards.calculate_caller_share_in_rewards(ALICE, 100, 40, &cache), Ok(0));
    assert!(s.rewards.address_last_reward_per_share.get(&ALICE).is_none());
}

#[test]
fn share_with_recorded_rate_above_current_is_negative() {
    let mut s = active_stake();
    let mut cache = s.rewards.cache;
    cache.accumulated_rewards = 1;
    cache.rewards_per_share = 5;
    s.rewards.address_last_reward_per_share.insert(ALICE, 6);
    assert_eq!(
        s.rewards.calculate_caller_share_in_rewards(ALICE, 100, 40, &cache),
        Err(ContractError::NegativeResult)
    );
    assert!(s.rewards.address_stack_rewards.get(&ALICE).is_none());
}

#[test]
fn claim_pays_stacked_rewards() {
    let mut s = active_stake();
    let r = s.claim_rewards(ALICE, 110, 50, full_info());
    assert_eq!(
        r,
        Ok(Some(Transfer {
            to: ALICE,
            payment: Payment { token_identifier: REWARDS_TOKEN, token_nonce: 0, amount: 100 }
        }))
    );
    assert_eq!(s.rewards.cache.accumulated_rewards, 0);
    assert_eq!(s.rewards.cache.rewards_reserve, 900);
    assert!(s.rewards.address_stack_rewards.get(&ALICE).is_none());
}

#[test]
fn second_claim_in_same_block_pays_nothing() {
    let mut s = active_stake();
    assert!(s.claim_rewards(ALICE, 110, 50, full_info()).unwrap().is_some());
    assert_eq!(s.claim_rewards(ALICE, 110, 50, full_info()), Ok(None));
}

#[test]
fn claim_reduced_by_liveliness_score() {
    let mut s = active_stake();
    let info = BondsInfo { liveliness_score: 5_000, ..full_info() };
    let r = s.claim_rewards(ALICE, 110, 50, info).unwrap().unwrap();
    assert_eq!(r.payment.amount, 50);
    assert_eq!(s.rewards.cache.accumulated_rewards, 50);
    // the withheld half is forfeited with the stacked rewards
    assert!(s.rewards.address_stack_rewards.get(&ALICE).is_none());
}

#[test]
fn claim_at_threshold_score_pays_everything() {
    let mut s = active_stake();
    let info = BondsInfo { liveliness_score: 9_500, ..full_info() };
    assert_eq!(s.claim_rewards(ALICE, 110, 50, info).unwrap().unwrap().payment.amount, 100);
}

#[test]
fn claim_on_inactive_contract_is_refused() {
    let mut s = active_stake();
    s.contract_state = State::Inactive;
    assert_eq!(s.claim_rewards(ALICE, 110, 50, full_info()), Err(ContractError::ContractNotReady));
    assert_eq!(s.rewards.cache.last_reward_block_nonce, 100);
}

#[test]
fn stake_rewards_sends_rewards_to_bond_contract() {
    let mut s = active_stake();
    let r = s.stake_rewards(ALICE, 77, 110, 50, full_info());
    assert_eq!(
        r,
        Ok(Some(StakeRewardsCall {
            original_caller: ALICE,
            token_identifier: 77,
            amount: 100,
            payment: Payment { token_identifier: REWARDS_TOKEN, token_nonce: 0, amount: 100 },
        }))
    );
    assert_eq!(s.rewards.cache.accumulated_rewards, 0);
}

#[test]
fn stack_rewards_only_for_bond_contract() {
    let mut s = active_stake();
    assert_eq!(
        s.stack_rewards(ALICE, ALICE, 110, 50, 50, 50),
        Err(ContractError::CallableOnlyByAcceptedCallers)
    );
    assert_eq!(s.stack_rewards(BOND_CONTRACT, ALICE, 110, 50, 50, 50), Ok(100));
    assert_eq!(s.rewards.address_stack_rewards.get(&ALICE), Some(&100));
    assert_eq!(s.rewards.cache.accumulated_rewards, 100);
}

#[test]
fn set_address_rewards_per_share_starts_new_address_at_current_rate() {
    let mut s = active_stake();
    s.rewards.cache.rewards_per_share = 42;
    assert_eq!(s.set_address_rewards_per_share(BOND_CONTRACT, ALICE, 110, 50, 50, 50), Ok(()));
    assert_eq!(s.rewards.address_last_reward_per_share.get(&ALICE), Some(&42));
    assert_eq!(s.rewards.cache.last_reward_block_nonce, 100);
    assert_eq!(
        s.set_address_rewards_per_share(ALICE, ALICE, 110, 50, 50, 50),
        Err(ContractError::CallableOnlyByAcceptedCallers)
    );
}

#[test]
fn set_address_rewards_per_share_stacks_known_address() {
    let mut s = active_stake();
    s.rewards.address_last_reward_per_share.insert(ALICE, 1);
    s.rewards.cache.rewards_per_share = 1;
    assert_eq!(s.set_address_rewards_per_share(BOND_CONTRACT, ALICE, 110, 50, 50, 50), Ok(()));
    assert_eq!(s.rewards.cache.accumulated_rewards, 100);
    assert_eq!(s.rewards.address_stack_rewards.get(&ALICE), Some(&100));
}

#[test]
fn contract_details_report_stored_values() {
    let mut s = active_stake();
    s.administrator = 4;
    s.rewards.max_apr = 700;
    assert_eq!(
        s.contract_details(),
        ContractDetails {
            rewards_reserve: 1_000,
            accumulated_rewards: 0,
            rewards_token_identifier: REWARDS_TOKEN,
            rewards_per_block: 10,
            rewards_per_share: 0,
            administrator: 4,
            bond_contract_address: BOND_CONTRACT,
            last_reward_block_nonce: 100,
            max_apr: 700,
        }
    );
}

#[test]
fn generation_capped_when_uncapped_rewards_exceed_128_bits() {
    let mut s = active_stake();
    s.rewards.max_apr = 1_000;
    s.rewards.cache.rewards_per_block = u128::MAX;
    s.rewards.cache.rewards_reserve = 1_000_000;
    // uncapped: u128::MAX * 10 blocks; capped: 100 * 10
    assert_eq!(s.rewards.generate_rewards(110, 5_256_000_000), Ok(()));
    assert_eq!(s.rewards.cache.accumulated_rewards, 1_000);
    assert_eq!(s.rewards.cache.last_reward_block_nonce, 110);
}

#[test]
fn generation_beyond_128_bits_exceeds_reserve() {
    let mut s = active_stake();
    s.rewards.cache.rewards_per_block = u128::MAX;
    assert_eq!(s.rewards.generate_rewards(110, 50), Ok(()));
    assert_eq!(s.rewards.cache.accumulated_rewards, 0);
    assert_eq!(s.rewards.cache.rewards_reserve, 1_000);
    assert_eq!(s.rewards.cache.last_reward_block_nonce, 110);
}
