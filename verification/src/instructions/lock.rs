use vstd::prelude::*;

use crate::error::AmmError;
use crate::state::{Address, Config};

verus! {

/// What locking and unlocking read and write: the signing authority and the
/// pool's configuration (the account checks make them belong together).
#[derive(Clone, Copy, Debug, PartialEq, Eq)]
pub struct Lock {
    pub authority: Address,
    pub config: Config,
}

impl Lock {
    /// Locks the pool: deposits and swaps are refused until it is unlocked.
    pub fn lock(&mut self) -> (r: Result<(), AmmError>)
        ensures
            r == Ok::<(), AmmError>(()),
            final(self).config == old(self).config.with_locked(true),
            final(self).config.locked == true,
            final(self).config.seed == old(self).config.seed,
            final(self).config.authority == old(self).config.authority,
            final(self).config.mint_x == old(self).config.mint_x,
            final(self).config.mint_y == old(self).config.mint_y,
            final(self).config.fee == old(self).config.fee,
            final(self).config.protocol_fee == old(self).config.protocol_fee,
            final(self).config.config_bump == old(self).config.config_bump,
            final(self).config.lp_bump == old(self).config.lp_bump,
            final(self).config.treasury_bump == old(self).config.treasury_bump,
            final(self).authority == old(self).authority,
    {
        self.config.locked = true;
        Ok(())
    }

    /// Unlocks the pool.
    pub fn unlock(&mut self) -> (r: Result<(), AmmError>)
        ensures
            r == Ok::<(), AmmError>(()),
            final(self).config == old(self).config.with_locked(false),
            final(self).config.locked == false,
            final(self).config.seed == old(self).config.seed,
            final(self).config.authority == old(self).config.authority,
            final(self).config.mint_x == old(self).config.mint_x,
            final(self).config.mint_y == old(self).config.mint_y,
            final(self).config.fee == old(self).config.fee,
            final(self).config.protocol_fee == old(self).config.protocol_fee,
            final(self).config.config_bump == old(self).config.config_bump,
            final(self).config.lp_bump == old(self).config.lp_bump,
            final(self).config.treasury_bump == old(self).config.treasury_bump,
            final(self).authority == old(self).authority,
    {
        self.config.locked = false;
        Ok(())
    }
}

} // verus!
