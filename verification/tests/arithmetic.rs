use core_mx_life_bonding::arith::{add_amount, add_u64, div_amount, mul_amount, mul_div, sub_amount, wide_div, wide_mul};
use core_mx_life_bonding::types::ContractError;

#[test]
fn checked_amount_arithmetic() {
    assert_eq!(add_amount(2, 3), Ok(5));
    assert_eq!(add_amount(u128::MAX, 1), Err(ContractError::Overflow));
    assert_eq!(sub_amount(5, 3), Ok(2));
    assert_eq!(sub_amount(3, 5), Err(ContractError::NegativeResult));
    assert_eq!(mul_amount(1 << 64, 1 << 64), Err(ContractError::Overflow));
    assert_eq!(mul_amount(7, 6), Ok(42));
    assert_eq!(div_amount(7, 2), Ok(3));
    assert_eq!(div_amount(7, 0), Err(ContractError::DivisionByZero));
    assert_eq!(add_u64(u64::MAX, 1), Err(ContractError::Overflow));
}

#[test]
fn wide_product_halves() {
    assert_eq!(wide_mul(u128::MAX, u128::MAX), (u128::MAX - 1, 1));
    assert_eq!(wide_mul(1 << 100, 1 << 100), (1 << 72, 0));
    assert_eq!(wide_mul(12345, 678), (0, 12345 * 678));
}

#[test]
fn wide_quotient() {
    assert_eq!(wide_div(u128::MAX - 1, 1, u128::MAX), u128::MAX);
    assert_eq!(wide_div(1, 0, 2), 1 << 127);
    assert_eq!(wide_div(0, 100, 7), 14);
}

#[test]
fn mul_div_is_exact_past_the_product_range() {
    let stake: u128 = 1_000_000 * 10u128.pow(18);
    let per_share: u128 = 3 * 10u128.pow(18);
    // the product exceeds 128 bits, the quotient does not
    assert_eq!(mul_amount(stake, per_share), Err(ContractError::Overflow));
    assert_eq!(mul_div(stake, per_share, 10u128.pow(18)), Ok(3 * stake));
    assert_eq!(mul_div(u128::MAX, u128::MAX, u128::MAX), Ok(u128::MAX));
    assert_eq!(mul_div(u128::MAX, 2, 1), Err(ContractError::Overflow));
    assert_eq!(mul_div(5, 5, 0), Err(ContractError::DivisionByZero));
    assert_eq!(mul_div(10, 7, 3), Ok(23));
}
