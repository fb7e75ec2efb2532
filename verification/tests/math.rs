use perpetuals::error::PerpetualsError;
use perpetuals::math;

#[test]
fn checked_add_in_and_out_of_range() {
    assert_eq!(math::checked_add(2, 3), Ok(5));
    assert_eq!(math::checked_add(u64::MAX, 0), Ok(u64::MAX));
    assert_eq!(math::checked_add(u64::MAX, 1), Err(PerpetualsError::MathOverflow));
}

#[test]
fn checked_sub_in_and_out_of_range() {
    assert_eq!(math::checked_sub(5, 3), Ok(2));
    assert_eq!(math::checked_sub(3, 3), Ok(0));
    assert_eq!(math::checked_sub(3, 5), Err(PerpetualsError::MathOverflow));
}

#[test]
fn checked_mul_in_and_out_of_range() {
    assert_eq!(math::checked_mul(6, 7), Ok(42));
    assert_eq!(math::checked_mul(u128::MAX, 1), Ok(u128::MAX));
    assert_eq!(math::checked_mul(u128::MAX, 2), Err(PerpetualsError::MathOverflow));
}

#[test]
fn checked_div_rounds_down_and_refuses_zero() {
    assert_eq!(math::checked_div(7, 2), Ok(3));
    assert_eq!(math::checked_div(0, 9), Ok(0));
    assert_eq!(math::checked_div(7, 0), Err(PerpetualsError::MathOverflow));
}

#[test]
fn checked_as_u64_in_and_out_of_range() {
    assert_eq!(math::checked_as_u64(u64::MAX as u128), Ok(u64::MAX));
    assert_eq!(math::checked_as_u64(u64::MAX as u128 + 1), Err(PerpetualsError::MathOverflow));
}
