use vstd::prelude::*;

use crate::state::Config;

verus! {

/// What collecting fees reads: the pool's configuration and the two treasury
/// balances.
#[derive(Clone, Copy, Debug, PartialEq, Eq)]
pub struct CollectFees {
    pub config: Config,
    /// Balance of the treasury's x account.
    pub treasury_x: u64,
    /// Balance of the treasury's y account.
    pub treasury_y: u64,
}

/// The token movements of a fee collection, from the treasury to the authority.
#[derive(Clone, Copy, Debug, PartialEq, Eq)]
pub struct FeeCollection {
    pub amount_x: u64,
    pub amount_y: u64,
}

impl CollectFees {
    /// Empties both treasury accounts into the authority's wallet.
    pub fn collect_fees(&self) -> (r: FeeCollection)
        ensures
            r.amount_x == self.treasury_x,
            r.amount_y == self.treasury_y,
    {
        FeeCollection { amount_x: self.treasury_x, amount_y: self.treasury_y }
    }
}

} // verus!
