use amm::curve::{deposit_amounts, fee_amount, swap_out, withdraw_amounts};
use amm::error::AmmError;

#[test]
fn deposit_amounts_round_up() {
    // 10 of 30 LP tokens against 1000 x and 2000 y: 333.3.. and 666.6.., rounded up
    assert_eq!(deposit_amounts(10, 1000, 2000, 30), Ok((334, 667)));
}

#[test]
fn deposit_amounts_exact_share_is_not_rounded() {
    assert_eq!(deposit_amounts(10, 1000, 2000, 20), Ok((500, 1000)));
}

#[test]
fn deposit_amounts_overflow() {
    assert_eq!(deposit_amounts(u64::MAX, u64::MAX, 1, 1), Err(AmmError::Overflow));
    assert_eq!(deposit_amounts(1, 1, u64::MAX, 1), Ok((1, u64::MAX)));
}

#[test]
fn withdraw_amounts_round_down() {
    assert_eq!(withdraw_amounts(10, 1000, 2000, 30), Ok((333, 666)));
}

#[test]
fn withdraw_amounts_whole_supply_takes_whole_reserve() {
    assert_eq!(withdraw_amounts(30, 1000, 2000, 30), Ok((1000, 2000)));
}

#[test]
fn withdraw_amounts_zero_supply_overflows() {
    assert_eq!(withdraw_amounts(10, 1000, 2000, 0), Err(AmmError::Overflow));
}

#[test]
fn withdraw_amounts_quotient_too_large() {
    assert_eq!(withdraw_amounts(u64::MAX, u64::MAX, 1, 1), Err(AmmError::Overflow));
}

#[test]
fn swap_out_constant_product() {
    // 1000 * 100 / 1100 = 90.9.., rounded down
    assert_eq!(swap_out(100, 1000, 1000), Ok(90));
    assert_eq!(swap_out(1000, 1000, 1000), Ok(500));
}

#[test]
fn swap_out_reserve_overflow() {
    assert_eq!(swap_out(2, u64::MAX - 1, 1000), Err(AmmError::Overflow));
}

#[test]
fn swap_out_large_values_use_wide_product() {
    // reserve_out * amount_in is far past 64 bits
    assert_eq!(swap_out(u64::MAX / 2, u64::MAX / 2, u64::MAX), Ok(u64::MAX / 2));
}

#[test]
fn swap_out_keeps_product_on_examples() {
    for &(a, ri, ro) in &[(100u64, 1000u64, 1000u64), (7, 13, 29), (1, 1, 1), (999, 1, 1_000_000)] {
        let out = swap_out(a, ri, ro).unwrap();
        assert!(out < ro);
        assert!((ri as u128 + a as u128) * (ro - out) as u128 >= ri as u128 * ro as u128);
    }
}

#[test]
fn fee_amount_rounds_down() {
    assert_eq!(fee_amount(1000, 30), Ok(3));
    assert_eq!(fee_amount(333, 30), Ok(0));
    assert_eq!(fee_amount(10_000, 10_000), Ok(10_000));
}

#[test]
fn fee_amount_overflow_for_oversized_bps() {
    assert_eq!(fee_amount(u64::MAX, 20_000), Err(AmmError::Overflow));
}

#[test]
fn deposit_price_covers_withdrawal_on_examples() {
    for &(lp, r, s) in &[(10u64, 1000u64, 30u64), (1, 1, 3), (5, 5, 5), (123, 456, 789)] {
        let (up, _) = deposit_amounts(lp, r, r, s).unwrap();
        let (down, _) = withdraw_amounts(lp, r, r, s).unwrap();
        assert!(down <= up && up <= down + 1);
        assert!(up as u128 * s as u128 >= lp as u128 * r as u128);
        assert!(down as u128 * s as u128 <= lp as u128 * r as u128);
    }
}
