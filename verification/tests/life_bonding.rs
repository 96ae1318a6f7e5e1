use core_mx_life_bonding::bonding::{Bond, Compensation, LifeBonding, LifeBondingContract, LivelinessCall, Refund};
use core_mx_life_bonding::types::{ContractError, Payment, State, Transfer};

const OWNER: u64 = 100;
const ADMIN: u64 = 101;
const TOP_UP_ADMIN: u64 = 102;
const STAKE_CONTRACT: u64 = 103;
const ALICE: u64 = 1;
const BOB: u64 = 2;
const CAROL: u64 = 3;
const ITHEUM: u64 = 500;
const DATA_NFT: u64 = 600;
const LOCK: u64 = 100;

fn ready_contract() -> LifeBonding {
    let mut c = LifeBonding::init();
    c.contract_state = State::Active;
    c.administrator = ADMIN;
    c.top_up_administrator = TOP_UP_ADMIN;
    c.liveliness_stake_address = STAKE_CONTRACT;
    c.bond_payment_token = ITHEUM;
    c.lock_periods = vec![LOCK];
    c.lock_period_bond_amount.insert(LOCK, 1_000);
    c
}

fn itheum(amount: u128) -> Payment {
    Payment { token_identifier: ITHEUM, token_nonce: 0, amount }
}

fn bonded_contract() -> LifeBonding {
    let mut c = ready_contract();
    c.bond(OWNER, false, OWNER, 1_000, ALICE, DATA_NFT, 1, LOCK, itheum(1_000)).unwrap();
    c
}

fn sum_of_remaining(c: &LifeBonding) -> u128 {
    c.bonds.iter().map(|id| c.bond_data.get(id).map(|b| b.remaining_amount).unwrap_or(0)).sum()
}

#[test]
fn init_sets_default_penalties() {
    let c = LifeBonding::init();
    assert_eq!(c.contract_state, State::Inactive);
    assert_eq!((c.minimum_penalty, c.maximum_penalty, c.withdraw_penalty), (500, 10_000, 8_000));
    assert_eq!(c.total_bond_amount, 0);
}

#[test]
fn bonding_upgrade_deactivates() {
    let mut c = ready_contract();
    c.upgrade();
    assert_eq!(c.contract_state, State::Inactive);
}

#[test]
fn bond_records_bond_and_compensation() {
    let mut c = ready_contract();
    let eff = c.bond(OWNER, false, OWNER, 1_000, ALICE, DATA_NFT, 1, LOCK, itheum(1_000)).unwrap();
    assert_eq!(
        eff.calls,
        vec![LivelinessCall::GenerateRewards, LivelinessCall::SetAddressRewardsPerShare(ALICE)]
    );
    assert!(eff.transfers.is_empty());
    assert_eq!(c.total_bond_amount, 1_000);
    assert_eq!(c.bonds, vec![1]);
    assert_eq!(c.address_bonds.get(&ALICE), Some(&vec![1]));
    assert_eq!(
        c.bond_data.get(&1),
        Some(&Bond {
            address: ALICE,
            token_identifier: DATA_NFT,
            nonce: 1,
            lock_period: LOCK,
            bond_timestamp: 1_000,
            unbond_timestamp: 1_100,
            bond_amount: 1_000,
            remaining_amount: 1_000,
        })
    );
    assert_eq!(c.compensations, vec![1]);
    assert_eq!(
        c.compensation_data.get(&1),
        Some(&Compensation { token_identifier: DATA_NFT, nonce: 1, accumulated_amount: 0, proof_amount: 0, end_date: 0 })
    );
    assert_eq!(c.total_bond_amount, sum_of_remaining(&c));
}

#[test]
fn bond_ids_are_handed_out_in_order() {
    let mut c = bonded_contract();
    c.bond(ADMIN, false, OWNER, 1_000, BOB, DATA_NFT, 2, LOCK, itheum(1_000)).unwrap();
    assert_eq!(c.bonds, vec![1, 2]);
    assert_eq!(c.bonds_ids.last_id, 2);
    assert_eq!(c.total_bond_amount, 2_000);
    assert_eq!(c.total_bond_amount, sum_of_remaining(&c));
}

#[test]
fn bond_accepted_from_listed_smart_contract_only() {
    let mut c = ready_contract();
    c.accepted_callers = vec![CAROL];
    assert_eq!(
        c.bond(CAROL, false, OWNER, 1_000, ALICE, DATA_NFT, 1, LOCK, itheum(1_000)).err(),
        Some(ContractError::CallableOnlyByAcceptedCallers)
    );
    assert!(c.bond(CAROL, true, OWNER, 1_000, ALICE, DATA_NFT, 1, LOCK, itheum(1_000)).is_ok());
}

#[test]
fn bond_errors() {
    let mut c = ready_contract();
    assert_eq!(
        c.bond(BOB, false, OWNER, 1_000, ALICE, DATA_NFT, 1, LOCK, itheum(1_000)).err(),
        Some(ContractError::CallableOnlyByAcceptedCallers)
    );
    assert_eq!(
        c.bond(OWNER, false, OWNER, 1_000, ALICE, DATA_NFT, 1, LOCK, Payment { token_identifier: 7, token_nonce: 0, amount: 1_000 }).err(),
        Some(ContractError::InvalidTokenIdentifier)
    );
    assert_eq!(
        c.bond(OWNER, false, OWNER, 1_000, ALICE, DATA_NFT, 1, 55, itheum(1_000)).err(),
        Some(ContractError::InvalidLockPeriod)
    );
    assert_eq!(
        c.bond(OWNER, false, OWNER, 1_000, ALICE, DATA_NFT, 1, LOCK, itheum(999)).err(),
        Some(ContractError::InvalidAmount)
    );
    assert_eq!(
        c.bond(OWNER, false, OWNER, u64::MAX, ALICE, DATA_NFT, 1, LOCK, itheum(1_000)).err(),
        Some(ContractError::Overflow)
    );
    assert_eq!(c.total_bond_amount, 0);
    assert!(c.bonds.is_empty());
    assert_eq!(c.bonds_ids.last_id, 0);
    c.contract_state = State::Inactive;
    assert_eq!(
        c.bond(OWNER, false, OWNER, 1_000, ALICE, DATA_NFT, 1, LOCK, itheum(1_000)).err(),
        Some(ContractError::ContractNotReady)
    );
}

#[test]
fn early_withdrawal_pays_penalty_into_compensation() {
    let mut c = bonded_contract();
    let eff = c.withdraw(ALICE, 1_050, DATA_NFT, 1).unwrap();
    assert_eq!(eff.calls, vec![LivelinessCall::StackRewards(ALICE)]);
    assert_eq!(eff.transfers, vec![Transfer { to: ALICE, payment: itheum(200) }]);
    assert_eq!(c.compensation_data.get(&1).unwrap().accumulated_amount, 800);
    assert_eq!(c.compensations, vec![1]);
    assert_eq!(c.total_bond_amount, 0);
    assert!(c.bonds.is_empty());
    assert!(c.bond_data.get(&1).is_none());
    assert_eq!(c.address_bonds.get(&ALICE), Some(&vec![]));
}

#[test]
fn late_withdrawal_pays_everything_and_closes_compensation() {
    let mut c = bonded_contract();
    let eff = c.withdraw(ALICE, 1_101, DATA_NFT, 1).unwrap();
    assert_eq!(eff.transfers, vec![Transfer { to: ALICE, payment: itheum(1_000) }]);
    assert!(c.compensations.is_empty());
    assert_eq!(c.total_bond_amount, 0);
}

#[test]
fn withdraw_keeps_other_bonds_accounted() {
    let mut c = bonded_contract();
    c.bond(OWNER, false, OWNER, 1_000, BOB, DATA_NFT, 2, LOCK, itheum(1_000)).unwrap();
    c.bond(OWNER, false, OWNER, 1_000, CAROL, DATA_NFT, 3, LOCK, itheum(1_000)).unwrap();
    c.withdraw(ALICE, 2_000, DATA_NFT, 1).unwrap();
    // the last bond takes the withdrawn one's place
    assert_eq!(c.bonds, vec![3, 2]);
    assert_eq!(c.total_bond_amount, 2_000);
    assert_eq!(c.total_bond_amount, sum_of_remaining(&c));
}

#[test]
fn withdraw_errors() {
    let mut c = bonded_contract();
    assert_eq!(c.withdraw(BOB, 1_050, DATA_NFT, 1).err(), Some(ContractError::BondNotFound));
    assert_eq!(c.withdraw(ALICE, 1_050, DATA_NFT, 9).err(), Some(ContractError::UnknownObject));
    c.withdraw_penalty = 10_000;
    assert_eq!(c.withdraw(ALICE, 1_050, DATA_NFT, 1).err(), Some(ContractError::PenaltiesExceedWithdrawalAmount));
    c.withdraw_penalty = 8_000;
    c.compensation_data.insert(1, Compensation { token_identifier: DATA_NFT, nonce: 1, accumulated_amount: 300, proof_amount: 0, end_date: 0 });
    assert_eq!(c.withdraw(ALICE, 1_050, DATA_NFT, 1).err(), Some(ContractError::PenaltiesExceedWithdrawalAmount));
    assert_eq!(c.total_bond_amount, 1_000);
    c.contract_state = State::Inactive;
    assert_eq!(c.withdraw(ALICE, 1_050, DATA_NFT, 1).err(), Some(ContractError::ContractNotReady));
}

#[test]
fn withdrawn_bond_is_gone() {
    let mut c = bonded_contract();
    c.withdraw(ALICE, 2_000, DATA_NFT, 1).unwrap();
    assert_eq!(c.withdraw(ALICE, 2_000, DATA_NFT, 1).err(), Some(ContractError::BondNotFound));
}

#[test]
fn renew_restarts_lock() {
    let mut c = bonded_contract();
    let eff = c.renew(ALICE, 5_000, DATA_NFT, 1).unwrap();
    assert_eq!(eff.calls, vec![LivelinessCall::StackRewards(ALICE)]);
    let b = c.bond_data.get(&1).unwrap();
    assert_eq!((b.bond_timestamp, b.unbond_timestamp), (5_000, 5_100));
    assert_eq!(c.renew(BOB, 5_000, DATA_NFT, 1).err(), Some(ContractError::BondNotFound));
    c.lock_periods.clear();
    assert_eq!(c.renew(ALICE, 5_000, DATA_NFT, 1).err(), Some(ContractError::InvalidLockPeriod));
}

#[test]
fn vault_top_up_grows_bond() {
    let mut c = bonded_contract();
    assert_eq!(c.top_up_vault(ALICE, 2_000, DATA_NFT, 1, itheum(50)).err(), Some(ContractError::VaultNonceNotSet));
    c.set_vault_nonce(ALICE, DATA_NFT, 1).unwrap();
    let eff = c.top_up_vault(ALICE, 2_000, DATA_NFT, 1, itheum(50)).unwrap();
    assert_eq!(eff.calls, vec![LivelinessCall::StackRewards(ALICE)]);
    let b = *c.bond_data.get(&1).unwrap();
    assert_eq!((b.bond_amount, b.remaining_amount, b.unbond_timestamp), (1_050, 1_050, 2_100));
    assert_eq!(c.total_bond_amount, 1_050);
    assert_eq!(c.total_bond_amount, sum_of_remaining(&c));
    assert_eq!(
        c.top_up_vault(ALICE, 2_000, DATA_NFT, 1, Payment { token_identifier: 7, token_nonce: 0, amount: 5 }).err(),
        Some(ContractError::InvalidTokenIdentifier)
    );
}

#[test]
fn set_vault_nonce_needs_own_bond() {
    let mut c = bonded_contract();
    assert_eq!(c.set_vault_nonce(BOB, DATA_NFT, 1).err(), Some(ContractError::BondNotFound));
    assert_eq!(c.set_vault_nonce(ALICE, DATA_NFT, 2).err(), Some(ContractError::UnknownObject));
}

#[test]
fn address_vault_top_up_by_administrator() {
    let mut c = ready_contract();
    c.bond(OWNER, false, OWNER, 1_000, TOP_UP_ADMIN, DATA_NFT, 1, LOCK, itheum(1_000)).unwrap();
    c.set_vault_nonce(TOP_UP_ADMIN, DATA_NFT, 1).unwrap();
    assert_eq!(
        c.top_up_address_vault(ALICE, 2_000, TOP_UP_ADMIN, DATA_NFT, 1, itheum(10)).err(),
        Some(ContractError::CallableOnlyByAcceptedCallers)
    );
    assert_eq!(
        c.top_up_address_vault(TOP_UP_ADMIN, 2_000, ALICE, DATA_NFT, 1, itheum(10)).err(),
        Some(ContractError::VaultNonceNotSet)
    );
    c.top_up_address_vault(TOP_UP_ADMIN, 2_000, TOP_UP_ADMIN, DATA_NFT, 1, itheum(10)).unwrap();
    assert_eq!(c.total_bond_amount, 1_010);
}

#[test]
fn rewards_staked_into_vault() {
    let mut c = bonded_contract();
    assert_eq!(c.stake_rewards(STAKE_CONTRACT, 2_000, ALICE, DATA_NFT, 30).err(), Some(ContractError::VaultNonceNotSet));
    c.set_vault_nonce(ALICE, DATA_NFT, 1).unwrap();
    assert_eq!(c.stake_rewards(ALICE, 2_000, ALICE, DATA_NFT, 30).err(), Some(ContractError::CallableOnlyByAcceptedCallers));
    c.stake_rewards(STAKE_CONTRACT, 2_000, ALICE, DATA_NFT, 30).unwrap();
    assert_eq!(c.bond_data.get(&1).unwrap().remaining_amount, 1_030);
    assert_eq!(c.total_bond_amount, 1_030);
}

fn compensation_with_proofs() -> LifeBonding {
    let mut c = bonded_contract();
    c.withdraw(ALICE, 1_050, DATA_NFT, 1).unwrap();
    let mut comp = *c.compensation_data.get(&1).unwrap();
    comp.end_date = 3_000;
    c.compensation_data.insert(1, comp);
    c.add_proof(BOB, 2_000, Payment { token_identifier: DATA_NFT, token_nonce: 1, amount: 1 }).unwrap();
    c.add_proof(CAROL, 2_000, Payment { token_identifier: DATA_NFT, token_nonce: 1, amount: 1 }).unwrap();
    c
}

#[test]
fn proofs_are_recorded() {
    let c = compensation_with_proofs();
    assert_eq!(c.compensation_data.get(&1).unwrap().proof_amount, 2);
    assert_eq!(c.compensation_data.get(&1).unwrap().accumulated_amount, 800);
    assert_eq!(c.address_refund.len(), 2);
    let deposited: u128 = c
        .address_refund
        .values()
        .filter(|r| r.compensation_id == 1)
        .map(|r| r.proof_of_refund.amount)
        .sum();
    assert_eq!(deposited, c.compensation_data.get(&1).unwrap().proof_amount);
}

#[test]
fn repeated_deposit_replaces_the_recorded_refund() {
    let mut c = compensation_with_proofs();
    c.add_proof(BOB, 2_500, Payment { token_identifier: DATA_NFT, token_nonce: 1, amount: 1 }).unwrap();
    // the compensation counts both deposits while one refund is recorded
    assert_eq!(c.compensation_data.get(&1).unwrap().proof_amount, 3);
    assert_eq!(c.address_refund.len(), 2);
}

#[test]
fn proof_outside_timeline_is_refused() {
    let mut c = compensation_with_proofs();
    let nft = Payment { token_identifier: DATA_NFT, token_nonce: 1, amount: 1 };
    assert_eq!(c.add_proof(BOB, 3_001, nft).err(), Some(ContractError::InvalidTimelineToProof));
    assert_eq!(
        c.add_proof(BOB, 2_000, Payment { token_nonce: 9, ..nft }).err(),
        Some(ContractError::UnknownObject)
    );
}

#[test]
fn refund_shares_accumulated_penalties() {
    let mut c = compensation_with_proofs();
    let nft = Payment { token_identifier: DATA_NFT, token_nonce: 1, amount: 1 };
    assert_eq!(c.claim_refund(BOB, 3_000 + 86_400, DATA_NFT, 1).err(), Some(ContractError::InvalidTimelineToRefund));
    let eff = c.claim_refund(BOB, 3_000 + 86_401, DATA_NFT, 1).unwrap();
    // 800 shared by two units of proof
    assert_eq!(eff.transfers, vec![Transfer { to: BOB, payment: nft }, Transfer { to: BOB, payment: itheum(400) }]);
    assert_eq!(c.compensation_data.get(&1).unwrap().accumulated_amount, 400);
    assert_eq!(c.compensation_data.get(&1).unwrap().proof_amount, 1);
    assert_eq!(c.claim_refund(BOB, 90_000, DATA_NFT, 1).err(), Some(ContractError::RefundNotFound));
    let eff = c.claim_refund(CAROL, 90_000, DATA_NFT, 1).unwrap();
    assert_eq!(eff.transfers[1], Transfer { to: CAROL, payment: itheum(400) });
    // nothing left: the compensation is unlisted
    assert!(c.compensations.is_empty());
}

#[test]
fn blacklisted_holder_gets_only_its_proof_back() {
    let mut c = compensation_with_proofs();
    let nft = Payment { token_identifier: DATA_NFT, token_nonce: 1, amount: 1 };
    c.compensation_blacklist.insert(1, vec![CAROL]);
    let eff = c.claim_refund(CAROL, 90_000, DATA_NFT, 1).unwrap();
    assert_eq!(eff.transfers, vec![Transfer { to: CAROL, payment: nft }]);
    assert_eq!(c.compensation_data.get(&1).unwrap().accumulated_amount, 800);
    assert_eq!(c.compensation_blacklist.get(&1), Some(&vec![]));
    // BOB's share no longer counts CAROL's withdrawn proof
    let eff = c.claim_refund(BOB, 90_000, DATA_NFT, 1).unwrap();
    assert_eq!(eff.transfers[1].payment.amount, 800);
}

#[test]
fn blacklisted_proofs_are_left_out_of_the_share() {
    let mut c = compensation_with_proofs();
    c.compensation_blacklist.insert(1, vec![CAROL]);
    let eff = c.claim_refund(BOB, 90_000, DATA_NFT, 1).unwrap();
    assert_eq!(eff.transfers[1].payment.amount, 800);
    assert_eq!(
        c.address_refund.values().next(),
        Some(&Refund {
            compensation_id: 1,
            address: CAROL,
            proof_of_refund: Payment { token_identifier: DATA_NFT, token_nonce: 1, amount: 1 }
        })
    );
}

#[test]
fn refund_with_only_blacklisted_proofs_divides_by_zero() {
    let mut c = compensation_with_proofs();
    c.compensation_blacklist.insert(1, vec![CAROL, BOB]);
    c.compensation_blacklist.insert(1, vec![CAROL]);
    let mut comp = *c.compensation_data.get(&1).unwrap();
    comp.proof_amount = 1;
    c.compensation_data.insert(1, comp);
    assert_eq!(c.claim_refund(BOB, 90_000, DATA_NFT, 1).err(), Some(ContractError::DivisionByZero));
}

#[test]
fn penalty_past_128_bits_exceeds_withdrawal() {
    let mut c = ready_contract();
    c.lock_period_bond_amount.insert(LOCK, u128::MAX);
    c.bond(OWNER, false, OWNER, 1_000, ALICE, DATA_NFT, 1, LOCK, itheum(u128::MAX)).unwrap();
    c.withdraw_penalty = u64::MAX;
    assert_eq!(c.withdraw(ALICE, 1_050, DATA_NFT, 1).err(), Some(ContractError::PenaltiesExceedWithdrawalAmount));
    assert_eq!(c.total_bond_amount, u128::MAX);
}

#[test]
fn blacklisted_proofs_past_128_bits_leave_a_negative_share() {
    let mut c = compensation_with_proofs();
    c.address_refund.insert(
        (CAROL as u128) << 64 | 1,
        Refund {
            compensation_id: 1,
            address: CAROL,
            proof_of_refund: Payment { token_identifier: DATA_NFT, token_nonce: 1, amount: u128::MAX },
        },
    );
    c.compensation_blacklist.insert(1, vec![CAROL, ALICE]);
    c.address_refund.insert(
        (ALICE as u128) << 64 | 1,
        Refund {
            compensation_id: 1,
            address: ALICE,
            proof_of_refund: Payment { token_identifier: DATA_NFT, token_nonce: 1, amount: 1 },
        },
    );
    assert_eq!(c.claim_refund(BOB, 90_000, DATA_NFT, 1).err(), Some(ContractError::NegativeResult));
}

#[test]
fn refund_is_claimed_once_across_other_calls() {
    let mut c = compensation_with_proofs();
    c.claim_refund(BOB, 90_000, DATA_NFT, 1).unwrap();
    // other holders and bonders act in between
    c.bond(OWNER, false, OWNER, 90_001, CAROL, DATA_NFT, 2, LOCK, itheum(1_000)).unwrap();
    assert_eq!(
        c.add_proof(BOB, 90_002, Payment { token_identifier: DATA_NFT, token_nonce: 1, amount: 1 }).err(),
        Some(ContractError::InvalidTimelineToProof)
    );
    c.claim_refund(CAROL, 90_003, DATA_NFT, 1).unwrap();
    c.upgrade();
    c.contract_state = State::Active;
    let before = c.address_refund.len();
    assert_eq!(c.claim_refund(BOB, 90_004, DATA_NFT, 1).err(), Some(ContractError::RefundNotFound));
    assert_eq!(c.address_refund.len(), before);
}
