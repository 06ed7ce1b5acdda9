use vstd::prelude::*;

use crate::curve::{withdraw_amounts, withdraw_amounts_result};
use crate::error::AmmError;
use crate::state::Config;

verus! {

/// What a withdrawal reads: the pool's configuration, the LP supply and the
/// two vault balances.
#[derive(Clone, Copy, Debug, PartialEq, Eq)]
pub struct Withdraw {
    pub config: Config,
    /// Supply of the LP mint.
    pub lp_supply: u64,
    /// Balance of the pool's x vault.
    pub vault_x: u64,
    /// Balance of the pool's y vault.
    pub vault_y: u64,
}

/// The token movements of an accepted withdrawal.
#[derive(Clone, Copy, Debug, PartialEq, Eq)]
pub struct WithdrawOutcome {
    /// LP tokens burned from the user.
    pub burn_lp: u64,
    /// x moved from the x vault to the user.
    pub receive_x: u64,
    /// y moved from the y vault to the user.
    pub receive_y: u64,
}

impl Withdraw {
    /// What burning `amount` LP tokens, for at least `min_x` and `min_y`, is
    /// answered with. The lock flag plays no part: LPs can always get out.
    pub open spec fn withdraw_result(self, amount: u64, min_x: u64, min_y: u64) -> Result<WithdrawOutcome, AmmError> {
        if amount == 0 {
            Err(AmmError::InvalidAmount)
        } else if self.lp_supply == 0 {
            Err(AmmError::NoLiquidity)
        } else {
            match withdraw_amounts_result(amount, self.vault_x, self.vault_y, self.lp_supply) {
                Err(e) => Err(e),
                Ok((x, y)) => if x < min_x || y < min_y {
                    Err(AmmError::SlippageExceeded)
                } else {
                    Ok(WithdrawOutcome { burn_lp: amount, receive_x: x, receive_y: y })
                },
            }
        }
    }

    /// Prices the burning of `amount` LP tokens at the pool's current ratio,
    /// rounded down, and holds it to the caller's minimums.
    pub fn withdraw(&self, amount: u64, min_x: u64, min_y: u64) -> (r: Result<WithdrawOutcome, AmmError>)
        ensures
            r == self.withdraw_result(amount, min_x, min_y),
    {
        if amount == 0 {
            return Err(AmmError::InvalidAmount);
        }
        if self.lp_supply == 0 {
            return Err(AmmError::NoLiquidity);
        }
        let (x, y) = withdraw_amounts(amount, self.vault_x, self.vault_y, self.lp_supply)?;
        if !(x >= min_x && y >= min_y) {
            return Err(AmmError::SlippageExceeded);
        }
        Ok(WithdrawOutcome { burn_lp: amount, receive_x: x, receive_y: y })
    }
}

} // verus!
