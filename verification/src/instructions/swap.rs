use vstd::prelude::*;

use crate::curve::{fee_amount, fee_amount_result, swap_out, swap_out_result};
use crate::error::AmmError;
use crate::state::Config;

verus! {

/// What a swap reads: the pool's configuration and the two vault balances.
#[derive(Clone, Copy, Debug, PartialEq, Eq)]
pub struct Swap {
    pub config: Config,
    /// Balance of the pool's x vault.
    pub vault_x: u64,
    /// Balance of the pool's y vault.
    pub vault_y: u64,
}

/// The token movements of an accepted swap, on the side the user pays in and
/// the side the user is paid out of.
#[derive(Clone, Copy, Debug, PartialEq, Eq)]
pub struct SwapOutcome {
    /// Moved from the user to the input vault: the input less the protocol cut,
    /// so the LP fee lands in the pool.
    pub to_vault: u64,
    /// Moved from the user to the input-side treasury (nothing moves when zero).
    pub to_treasury: u64,
    /// Moved from the output vault to the user.
    pub out: u64,
}

impl Swap {
    /// The balance of the vault paid into: x when `is_x`, else y.
    pub open spec fn reserve_in(self, is_x: bool) -> u64 {
        if is_x { self.vault_x } else { self.vault_y }
    }

    /// The balance of the vault paid out of: y when `is_x`, else x.
    pub open spec fn reserve_out(self, is_x: bool) -> u64 {
        if is_x { self.vault_y } else { self.vault_x }
    }

    /// What paying `amount_in` (of x when `is_x`, else of y) for at least
    /// `min_out` of the other token is answered with.
    pub open spec fn swap_result(self, is_x: bool, amount_in: u64, min_out: u64) -> Result<SwapOutcome, AmmError> {
        if self.config.locked {
            Err(AmmError::PoolLocked)
        } else if amount_in == 0 {
            Err(AmmError::InvalidAmount)
        } else if self.vault_x == 0 || self.vault_y == 0 {
            Err(AmmError::NoLiquidity)
        } else {
            match fee_amount_result(amount_in, self.config.protocol_fee) {
                Err(e) => Err(e),
                Ok(protocol_cut) => match fee_amount_result(amount_in, self.config.fee) {
                    Err(e) => Err(e),
                    Ok(lp_cut) => if lp_cut + protocol_cut > amount_in {
                        Err(AmmError::Overflow)
                    } else {
                        let net = (amount_in - lp_cut - protocol_cut) as u64;
                        match swap_out_result(net, self.reserve_in(is_x), self.reserve_out(is_x)) {
                            Err(e) => Err(e),
                            Ok(out) => if out == 0 {
                                Err(AmmError::InvalidAmount)
                            } else if out < min_out {
                                Err(AmmError::SlippageExceeded)
                            } else {
                                Ok(SwapOutcome {
                                    to_vault: (amount_in - protocol_cut) as u64,
                                    to_treasury: protocol_cut,
                                    out,
                                })
                            },
                        }
                    },
                },
            }
        }
    }

    /// Prices a swap of `amount_in`. Two cuts come off the top: the LP fee stays
    /// in the input vault, the protocol fee goes to the treasury; only the net
    /// amount moves the price.
    pub fn swap(&self, is_x: bool, amount_in: u64, min_out: u64) -> (r: Result<SwapOutcome, AmmError>)
        ensures
            r == self.swap_result(is_x, amount_in, min_out),
    {
        if self.config.locked {
            return Err(AmmError::PoolLocked);
        }
        if amount_in == 0 {
            return Err(AmmError::InvalidAmount);
        }
        if !(self.vault_x > 0 && self.vault_y > 0) {
            return Err(AmmError::NoLiquidity);
        }
        let protocol_cut = fee_amount(amount_in, self.config.protocol_fee)?;
        let lp_cut = fee_amount(amount_in, self.config.fee)?;
        let net = match amount_in.checked_sub(lp_cut) {
            Some(n) => match n.checked_sub(protocol_cut) {
                Some(m) => m,
                None => return Err(AmmError::Overflow),
            },
            None => return Err(AmmError::Overflow),
        };
        let (vault_in, vault_out) = if is_x {
            (self.vault_x, self.vault_y)
        } else {
            (self.vault_y, self.vault_x)
        };
        let out = swap_out(net, vault_in, vault_out)?;
        if !(out > 0) {
            return Err(AmmError::InvalidAmount);
        }
        if !(out >= min_out) {
            return Err(AmmError::SlippageExceeded);
        }
        Ok(SwapOutcome { to_vault: amount_in - protocol_cut, to_treasury: protocol_cut, out })
    }
}

} // verus!
