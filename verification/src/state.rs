use vstd::prelude::*;

use crate::curve::BPS_DENOMINATOR;

verus! {

/// A 32-byte account address.
pub type Address = [u8; 32];

/// The pool's configuration account.
#[derive(Clone, Copy, Debug, PartialEq, Eq)]
pub struct Config {
    pub seed: u64,
    /// The only key that can lock, unlock, or pull fees out of the treasury.
    pub authority: Address,
    pub mint_x: Address,
    pub mint_y: Address,
    /// Basis points of each swap that stay in the vaults for the LPs.
    pub fee: u16,
    /// Basis points of each swap that go to the treasury.
    pub protocol_fee: u16,
    pub locked: bool,
    pub config_bump: u8,
    pub lp_bump: u8,
    pub treasury_bump: u8,
}

impl Config {
    /// The two fees together stay strictly under 100 percent, as `initialize` demands.
    pub open spec fn fees_valid(self) -> bool {
        self.fee + self.protocol_fee < BPS_DENOMINATOR
    }

    /// This configuration with its lock flag set to `locked`.
    pub open spec fn with_locked(self, locked: bool) -> Config {
        Config { locked, ..self }
    }
}

} // verus!
