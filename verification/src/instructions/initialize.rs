use vstd::prelude::*;

use crate::curve::BPS_DENOMINATOR;
use crate::error::AmmError;
use crate::state::{Address, Config};

verus! {

/// The bump seeds found for the pool's derived addresses.
#[derive(Clone, Copy, Debug, PartialEq, Eq)]
pub struct InitializeBumps {
    pub config: u8,
    pub mint_lp: u8,
    pub treasury: u8,
}

/// What creating a pool reads and writes: the creator, the two mints and the
/// configuration account being filled in.
#[derive(Clone, Copy, Debug, PartialEq, Eq)]
pub struct Initialize {
    pub initializer: Address,
    pub mint_x: Address,
    pub mint_y: Address,
    pub config: Config,
}

impl Initialize {
    /// The configuration a pool is created with.
    pub open spec fn initial_config(self, seed: u64, fee: u16, protocol_fee: u16, bumps: InitializeBumps) -> Config {
        Config {
            seed,
            authority: self.initializer,
            mint_x: self.mint_x,
            mint_y: self.mint_y,
            fee,
            protocol_fee,
            locked: false,
            config_bump: bumps.config,
            lp_bump: bumps.mint_lp,
            treasury_bump: bumps.treasury,
        }
    }

    /// Fills in the configuration of a new, unlocked pool owned by the
    /// initializer. The fees together have to stay strictly under 100 percent:
    /// at exactly 10000 basis points every swap would net to zero.
    pub fn initialize(&mut self, seed: u64, fee: u16, protocol_fee: u16, bumps: &InitializeBumps) -> (r: Result<(), AmmError>)
        ensures
            r is Ok <==> fee + protocol_fee < BPS_DENOMINATOR,
            r is Err ==> r == Err::<(), AmmError>(AmmError::InvalidFee) && *final(self) == *old(self),
            r is Ok ==> {
                &&& final(self).config == old(self).initial_config(seed, fee, protocol_fee, *bumps)
                &&& final(self).config.fees_valid()
                &&& final(self).config.seed == seed
                &&& final(self).config.authority == old(self).initializer
                &&& final(self).config.mint_x == old(self).mint_x
                &&& final(self).config.mint_y == old(self).mint_y
                &&& final(self).config.fee == fee
                &&& final(self).config.protocol_fee == protocol_fee
                &&& !final(self).config.locked
                &&& final(self).config.config_bump == bumps.config
                &&& final(self).config.lp_bump == bumps.mint_lp
                &&& final(self).config.treasury_bump == bumps.treasury
                &&& final(self).initializer == old(self).initializer
                &&& final(self).mint_x == old(self).mint_x
                &&& final(self).mint_y == old(self).mint_y
            },
    {
        if !((fee as u32) + (protocol_fee as u32) < 10_000) {
            return Err(AmmError::InvalidFee);
        }
        self.config = Config {
            seed,
            authority: self.initializer,
            mint_x: self.mint_x,
            mint_y: self.mint_y,
            fee,
            protocol_fee,
            locked: false,
            config_bump: bumps.config,
            lp_bump: bumps.mint_lp,
            treasury_bump: bumps.treasury,
        };
        Ok(())
    }
}

/// The configuration a pool is created with holds exactly what it was created
/// from: the seed the config address derives from, the initializer as
/// authority, the two mints, the two fees, the three bumps, and no lock.
pub proof fn lemma_initial_config_holds_arguments(init: Initialize, seed: u64, fee: u16, protocol_fee: u16, bumps: InitializeBumps)
    ensures
        init.initial_config(seed, fee, protocol_fee, bumps).seed == seed,
        init.initial_config(seed, fee, protocol_fee, bumps).authority == init.initializer,
        init.initial_config(seed, fee, protocol_fee, bumps).mint_x == init.mint_x,
        init.initial_config(seed, fee, protocol_fee, bumps).mint_y == init.mint_y,
        init.initial_config(seed, fee, protocol_fee, bumps).fee == fee,
        init.initial_config(seed, fee, protocol_fee, bumps).protocol_fee == protocol_fee,
        !init.initial_config(seed, fee, protocol_fee, bumps).locked,
        init.initial_config(seed, fee, protocol_fee, bumps).config_bump == bumps.config,
        init.initial_config(seed, fee, protocol_fee, bumps).lp_bump == bumps.mint_lp,
        init.initial_config(seed, fee, protocol_fee, bumps).treasury_bump == bumps.treasury,
{
}

} // verus!
