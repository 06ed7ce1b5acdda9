use amm::error::AmmError;
use amm::instructions::collect_fees::{CollectFees, FeeCollection};
use amm::instructions::deposit::{Deposit, DepositOutcome};
use amm::instructions::initialize::{Initialize, InitializeBumps};
use amm::instructions::lock::Lock;
use amm::instructions::swap::{Swap, SwapOutcome};
use amm::instructions::withdraw::{Withdraw, WithdrawOutcome};
use amm::state::Config;

fn config(fee: u16, protocol_fee: u16, locked: bool) -> Config {
    Config {
        seed: 7,
        authority: [1; 32],
        mint_x: [2; 32],
        mint_y: [3; 32],
        fee,
        protocol_fee,
        locked,
        config_bump: 250,
        lp_bump: 251,
        treasury_bump: 252,
    }
}

fn blank() -> Config {
    Config {
        seed: 0,
        authority: [0; 32],
        mint_x: [0; 32],
        mint_y: [0; 32],
        fee: 0,
        protocol_fee: 0,
        locked: false,
        config_bump: 0,
        lp_bump: 0,
        treasury_bump: 0,
    }
}

fn initializer() -> Initialize {
    Initialize { initializer: [9; 32], mint_x: [2; 32], mint_y: [3; 32], config: blank() }
}

const BUMPS: InitializeBumps = InitializeBumps { config: 254, mint_lp: 253, treasury: 252 };

#[test]
fn initialize_fills_in_unlocked_config() {
    let mut init = initializer();
    assert_eq!(init.initialize(42, 30, 5, &BUMPS), Ok(()));
    assert_eq!(
        init.config,
        Config {
            seed: 42,
            authority: [9; 32],
            mint_x: [2; 32],
            mint_y: [3; 32],
            fee: 30,
            protocol_fee: 5,
            locked: false,
            config_bump: 254,
            lp_bump: 253,
            treasury_bump: 252,
        }
    );
}

#[test]
fn initialize_refuses_fees_of_100_percent() {
    let mut init = initializer();
    assert_eq!(init.initialize(42, 9_000, 1_000, &BUMPS), Err(AmmError::InvalidFee));
    assert_eq!(init, initializer());
    assert_eq!(init.initialize(42, 9_000, 999, &BUMPS), Ok(()));
}

#[test]
fn initialize_fee_sum_does_not_wrap() {
    let mut init = initializer();
    assert_eq!(init.initialize(1, u16::MAX, u16::MAX, &BUMPS), Err(AmmError::InvalidFee));
}

#[test]
fn lock_and_unlock_flip_only_the_flag() {
    let mut l = Lock { authority: [1; 32], config: config(30, 5, false) };
    assert_eq!(l.lock(), Ok(()));
    assert_eq!(l.config, config(30, 5, true));
    assert_eq!(l.lock(), Ok(()));
    assert_eq!(l.config, config(30, 5, true));
    assert_eq!(l.unlock(), Ok(()));
    assert_eq!(l.config, config(30, 5, false));
}

#[test]
fn first_deposit_sets_the_price() {
    let d = Deposit { config: config(30, 5, false), lp_supply: 0, vault_x: 0, vault_y: 0 };
    assert_eq!(d.deposit(100, 1_000, 4_000), Ok(DepositOutcome { pay_x: 1_000, pay_y: 4_000, mint_lp: 100 }));
}

#[test]
fn first_deposit_needs_both_sides() {
    let d = Deposit { config: config(30, 5, false), lp_supply: 0, vault_x: 0, vault_y: 0 };
    assert_eq!(d.deposit(100, 0, 4_000), Err(AmmError::InvalidAmount));
}

#[test]
fn later_deposit_pays_pool_ratio_rounded_up() {
    let d = Deposit { config: config(30, 5, false), lp_supply: 30, vault_x: 1_000, vault_y: 2_000 };
    assert_eq!(d.deposit(10, 334, 667), Ok(DepositOutcome { pay_x: 334, pay_y: 667, mint_lp: 10 }));
    assert_eq!(d.deposit(10, 333, 667), Err(AmmError::SlippageExceeded));
    assert_eq!(d.deposit(10, 334, 666), Err(AmmError::SlippageExceeded));
}

#[test]
fn deposit_refusals() {
    let locked = Deposit { config: config(30, 5, true), lp_supply: 30, vault_x: 1_000, vault_y: 2_000 };
    assert_eq!(locked.deposit(10, 1_000, 1_000), Err(AmmError::PoolLocked));
    let open = Deposit { config: config(30, 5, false), lp_supply: 30, vault_x: 1_000, vault_y: 2_000 };
    assert_eq!(open.deposit(0, 1_000, 1_000), Err(AmmError::InvalidAmount));
    // an empty y vault prices y at zero
    let one_sided = Deposit { config: config(30, 5, false), lp_supply: 30, vault_x: 1_000, vault_y: 0 };
    assert_eq!(one_sided.deposit(10, 1_000, 1_000), Err(AmmError::InvalidAmount));
    let huge = Deposit { config: config(30, 5, false), lp_supply: 1, vault_x: u64::MAX, vault_y: 1 };
    assert_eq!(huge.deposit(2, u64::MAX, u64::MAX), Err(AmmError::Overflow));
}

#[test]
fn withdraw_pays_pool_ratio_rounded_down() {
    let w = Withdraw { config: config(30, 5, false), lp_supply: 30, vault_x: 1_000, vault_y: 2_000 };
    assert_eq!(w.withdraw(10, 333, 666), Ok(WithdrawOutcome { burn_lp: 10, receive_x: 333, receive_y: 666 }));
    assert_eq!(w.withdraw(10, 334, 0), Err(AmmError::SlippageExceeded));
    assert_eq!(w.withdraw(10, 0, 667), Err(AmmError::SlippageExceeded));
}

#[test]
fn withdraw_works_while_locked() {
    let w = Withdraw { config: config(30, 5, true), lp_supply: 30, vault_x: 1_000, vault_y: 2_000 };
    assert_eq!(w.withdraw(30, 0, 0), Ok(WithdrawOutcome { burn_lp: 30, receive_x: 1_000, receive_y: 2_000 }));
}

#[test]
fn withdraw_refusals() {
    let w = Withdraw { config: config(30, 5, false), lp_supply: 30, vault_x: 1_000, vault_y: 2_000 };
    assert_eq!(w.withdraw(0, 0, 0), Err(AmmError::InvalidAmount));
    let empty = Withdraw { config: config(30, 5, false), lp_supply: 0, vault_x: 1_000, vault_y: 2_000 };
    assert_eq!(empty.withdraw(1, 0, 0), Err(AmmError::NoLiquidity));
    let tiny = Withdraw { config: config(30, 5, false), lp_supply: 1, vault_x: u64::MAX, vault_y: 1 };
    assert_eq!(tiny.withdraw(2, 0, 0), Err(AmmError::Overflow));
}

#[test]
fn deposit_then_withdraw_returns_at_most_paid() {
    let d = Deposit { config: config(30, 5, false), lp_supply: 30, vault_x: 1_000, vault_y: 2_000 };
    let paid = d.deposit(10, u64::MAX, u64::MAX).unwrap();
    let w = Withdraw {
        config: d.config,
        lp_supply: d.lp_supply + paid.mint_lp,
        vault_x: d.vault_x + paid.pay_x,
        vault_y: d.vault_y + paid.pay_y,
    };
    let back = w.withdraw(paid.mint_lp, 0, 0).unwrap();
    assert!(back.receive_x <= paid.pay_x);
    assert!(back.receive_y <= paid.pay_y);
    assert_eq!(back, WithdrawOutcome { burn_lp: 10, receive_x: 333, receive_y: 666 });
}

#[test]
fn swap_takes_both_fees_off_the_top() {
    // fee 30 bps, protocol fee 10 bps on 10000 in: lp cut 30, protocol cut 10, net 9960
    let s = Swap { config: config(30, 10, false), vault_x: 100_000, vault_y: 200_000 };
    // out = 200000 * 9960 / 109960 = 18115.6..
    assert_eq!(
        s.swap(true, 10_000, 18_000),
        Ok(SwapOutcome { to_vault: 9_990, to_treasury: 10, out: 18_115 })
    );
}

#[test]
fn swap_the_other_way() {
    let s = Swap { config: config(0, 0, false), vault_x: 100_000, vault_y: 200_000 };
    // paying y: out = 100000 * 20000 / 220000 = 9090.9..
    assert_eq!(s.swap(false, 20_000, 0), Ok(SwapOutcome { to_vault: 20_000, to_treasury: 0, out: 9_090 }));
}

#[test]
fn swap_min_out_is_inclusive() {
    let s = Swap { config: config(0, 0, false), vault_x: 100_000, vault_y: 200_000 };
    assert!(s.swap(false, 20_000, 9_090).is_ok());
    assert_eq!(s.swap(false, 20_000, 9_091), Err(AmmError::SlippageExceeded));
}

#[test]
fn swap_refusals() {
    let locked = Swap { config: config(30, 10, true), vault_x: 100_000, vault_y: 200_000 };
    assert_eq!(locked.swap(true, 10_000, 0), Err(AmmError::PoolLocked));
    let open = Swap { config: config(30, 10, false), vault_x: 100_000, vault_y: 200_000 };
    assert_eq!(open.swap(true, 0, 0), Err(AmmError::InvalidAmount));
    let empty = Swap { config: config(30, 10, false), vault_x: 0, vault_y: 200_000 };
    assert_eq!(empty.swap(true, 10_000, 0), Err(AmmError::NoLiquidity));
    // too small to buy anything
    let deep = Swap { config: config(0, 0, false), vault_x: 1_000_000, vault_y: 10 };
    assert_eq!(deep.swap(true, 1, 0), Err(AmmError::InvalidAmount));
    // input vault plus input does not fit
    let full = Swap { config: config(0, 0, false), vault_x: u64::MAX, vault_y: 10 };
    assert_eq!(full.swap(true, 1, 0), Err(AmmError::Overflow));
    // fees over 100 percent (never set by initialize) leave no net amount
    let bad = Swap { config: config(6_000, 6_000, false), vault_x: 1_000, vault_y: 1_000 };
    assert_eq!(bad.swap(true, 10_000, 0), Err(AmmError::Overflow));
}

#[test]
fn swap_keeps_product_and_pays_exactly_amount_in() {
    let s = Swap { config: config(30, 10, false), vault_x: 100_000, vault_y: 200_000 };
    let o = s.swap(true, 10_000, 0).unwrap();
    assert_eq!(o.to_vault + o.to_treasury, 10_000);
    let before = 100_000u128 * 200_000u128;
    let after = (100_000u128 + o.to_vault as u128) * (200_000u128 - o.out as u128);
    assert!(after >= before);
}

#[test]
fn collect_fees_empties_treasury() {
    let c = CollectFees { config: config(30, 10, false), treasury_x: 77, treasury_y: 0 };
    assert_eq!(c.collect_fees(), FeeCollection { amount_x: 77, amount_y: 0 });
}
