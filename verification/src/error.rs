use vstd::prelude::*;

verus! {

/// Every way the pool can refuse a request.
#[derive(Clone, Copy, Debug, PartialEq, Eq)]
pub enum AmmError {
    /// The two fees together are not strictly under 100 percent.
    InvalidFee,
    /// An amount that has to be positive is zero.
    InvalidAmount,
    /// The price moved past the limit the caller gave.
    SlippageExceeded,
    /// The pool is locked; only withdrawals go through.
    PoolLocked,
    /// The pool holds nothing to trade against or to withdraw.
    NoLiquidity,
    /// An intermediate or final amount does not fit.
    Overflow,
}

} // verus!
