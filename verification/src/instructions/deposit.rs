use vstd::prelude::*;

use crate::curve::{deposit_amounts, deposit_amounts_result};
use crate::error::AmmError;
use crate::state::Config;

verus! {

/// What a deposit reads: the pool's configuration, the LP supply and the two
/// vault balances.
#[derive(Clone, Copy, Debug, PartialEq, Eq)]
pub struct Deposit {
    pub config: Config,
    /// Supply of the LP mint.
    pub lp_supply: u64,
    /// Balance of the pool's x vault.
    pub vault_x: u64,
    /// Balance of the pool's y vault.
    pub vault_y: u64,
}

/// The token movements of an accepted deposit.
#[derive(Clone, Copy, Debug, PartialEq, Eq)]
pub struct DepositOutcome {
    /// x moved from the user to the x vault.
    pub pay_x: u64,
    /// y moved from the user to the y vault.
    pub pay_y: u64,
    /// LP tokens minted to the user.
    pub mint_lp: u64,
}

impl Deposit {
    /// What a request for `amount` LP tokens, paying at most `max_x` and
    /// `max_y`, is answered with.
    pub open spec fn deposit_result(self, amount: u64, max_x: u64, max_y: u64) -> Result<DepositOutcome, AmmError> {
        if self.config.locked {
            Err(AmmError::PoolLocked)
        } else if amount == 0 {
            Err(AmmError::InvalidAmount)
        } else {
            let priced = if self.lp_supply == 0 {
                Ok((max_x, max_y))
            } else {
                deposit_amounts_result(amount, self.vault_x, self.vault_y, self.lp_supply)
            };
            match priced {
                Err(e) => Err(e),
                Ok((x, y)) => if x == 0 || y == 0 {
                    Err(AmmError::InvalidAmount)
                } else if x > max_x || y > max_y {
                    Err(AmmError::SlippageExceeded)
                } else {
                    Ok(DepositOutcome { pay_x: x, pay_y: y, mint_lp: amount })
                },
            }
        }
    }

    /// Prices `amount` new LP tokens. The first depositor sets the price by
    /// paying `max_x` and `max_y`; after that the pool's current ratio is paid,
    /// rounded up, and must stay within `max_x` and `max_y`.
    pub fn deposit(&self, amount: u64, max_x: u64, max_y: u64) -> (r: Result<DepositOutcome, AmmError>)
        ensures
            r == self.deposit_result(amount, max_x, max_y),
    {
        if self.config.locked {
            return Err(AmmError::PoolLocked);
        }
        if amount == 0 {
            return Err(AmmError::InvalidAmount);
        }
        let (x, y) = if self.lp_supply == 0 {
            (max_x, max_y)
        } else {
            deposit_amounts(amount, self.vault_x, self.vault_y, self.lp_supply)?
        };
        if !(x > 0 && y > 0) {
            return Err(AmmError::InvalidAmount);
        }
        if !(x <= max_x && y <= max_y) {
            return Err(AmmError::SlippageExceeded);
        }
        Ok(DepositOutcome { pay_x: x, pay_y: y, mint_lp: amount })
    }
}

} // verus!
