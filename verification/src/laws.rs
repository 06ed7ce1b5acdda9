//! Properties of the pool that span its instructions.

use vstd::prelude::*;

use crate::curve::{
    fee_amount_result, lemma_deposit_amounts_are_ceilings, lemma_deposit_rounds_up, lemma_div_brackets,
    lemma_fee_amount_is_floor, lemma_swap_out_is_floor, lemma_withdraw_amounts_are_floors, lemma_fee_cuts_fit, lemma_swap_keeps_product,
    lemma_withdraw_rounds_down, mul_div_result,
};
use crate::error::AmmError;
use crate::instructions::deposit::{Deposit, DepositOutcome};
use crate::instructions::swap::{Swap, SwapOutcome};
use crate::instructions::withdraw::{Withdraw, WithdrawOutcome};
use crate::state::Config;

verus! {

/// A locked pool refuses every deposit and every swap with `PoolLocked`.
pub proof fn lemma_locked_pool_refuses(
    d: Deposit,
    amount: u64,
    max_x: u64,
    max_y: u64,
    s: Swap,
    is_x: bool,
    amount_in: u64,
    min_out: u64,
)
    requires
        d.config.locked,
        s.config.locked,
    ensures
        d.deposit_result(amount, max_x, max_y) == Err::<DepositOutcome, AmmError>(AmmError::PoolLocked),
        s.swap_result(is_x, amount_in, min_out) == Err::<SwapOutcome, AmmError>(AmmError::PoolLocked),
{
}

/// Withdrawals do not depend on the lock: LPs can always get out.
pub proof fn lemma_withdraw_ignores_lock(w: Withdraw, locked: bool, amount: u64, min_x: u64, min_y: u64)
    ensures
        (Withdraw { config: w.config.with_locked(locked), ..w }).withdraw_result(amount, min_x, min_y)
            == w.withdraw_result(amount, min_x, min_y),
{
}

/// Locking and then unlocking leaves the configuration as it was, but unlocked.
pub proof fn lemma_unlock_undoes_lock(c: Config)
    ensures
        c.with_locked(true).with_locked(false) == c.with_locked(false),
        !c.locked ==> c.with_locked(true).with_locked(false) == c,
{
}

/// An accepted deposit stays within the caller's limits, pays something on
/// both sides, and mints exactly the LP tokens asked for.
pub proof fn lemma_deposit_respects_limits(d: Deposit, amount: u64, max_x: u64, max_y: u64)
    ensures
        d.deposit_result(amount, max_x, max_y) matches Ok(o) ==> {
            &&& 0 < o.pay_x <= max_x
            &&& 0 < o.pay_y <= max_y
            &&& o.mint_lp == amount
            &&& amount > 0
            &&& !d.config.locked
        },
{
}

/// A deposit into a pool with LPs never dilutes them: the reserve backing each
/// LP token does not go down, `(vault + pay) * supply >= vault * (supply + minted)`
/// on both sides.
pub proof fn lemma_deposit_keeps_share_value(d: Deposit, amount: u64, max_x: u64, max_y: u64)
    requires
        d.lp_supply > 0,
    ensures
        d.deposit_result(amount, max_x, max_y) matches Ok(o) ==> {
            &&& (d.vault_x + o.pay_x) * d.lp_supply >= d.vault_x * (d.lp_supply + o.mint_lp)
            &&& (d.vault_y + o.pay_y) * d.lp_supply >= d.vault_y * (d.lp_supply + o.mint_lp)
        },
{
    lemma_deposit_rounds_up(amount, d.vault_x, d.lp_supply);
    lemma_deposit_rounds_up(amount, d.vault_y, d.lp_supply);
    if let Ok(o) = d.deposit_result(amount, max_x, max_y) {
        let s = d.lp_supply as int;
        let a = amount as int;
        let (vx, vy, px, py) = (d.vault_x as int, d.vault_y as int, o.pay_x as int, o.pay_y as int);
        assert((vx + px) * s >= vx * (s + a)) by (nonlinear_arith)
            requires
                a * vx <= px * s,
        {}
        assert((vy + py) * s >= vy * (s + a)) by (nonlinear_arith)
            requires
                a * vy <= py * s,
        {}
    }
}

/// A withdrawal never takes more than the burned LP tokens' share:
/// `receive * supply <= burned * vault` on both sides, so the reserve backing
/// each remaining LP token does not go down, and a withdrawal of at most the
/// whole supply never asks for more than a vault holds.
pub proof fn lemma_withdraw_keeps_share_value(w: Withdraw, amount: u64, min_x: u64, min_y: u64)
    ensures
        w.withdraw_result(amount, min_x, min_y) matches Ok(o) ==> {
            &&& o.burn_lp == amount
            &&& min_x <= o.receive_x && min_y <= o.receive_y
            &&& o.receive_x * w.lp_supply <= o.burn_lp * w.vault_x
            &&& o.receive_y * w.lp_supply <= o.burn_lp * w.vault_y
            &&& (w.vault_x - o.receive_x) * w.lp_supply >= w.vault_x * (w.lp_supply - o.burn_lp)
            &&& (w.vault_y - o.receive_y) * w.lp_supply >= w.vault_y * (w.lp_supply - o.burn_lp)
            &&& (amount <= w.lp_supply ==> o.receive_x <= w.vault_x && o.receive_y <= w.vault_y)
        },
{
    if let Ok(o) = w.withdraw_result(amount, min_x, min_y) {
        lemma_withdraw_rounds_down(amount, w.vault_x, w.lp_supply);
        lemma_withdraw_rounds_down(amount, w.vault_y, w.lp_supply);
        let s = w.lp_supply as int;
        let a = amount as int;
        let (vx, vy, rx, ry) = (w.vault_x as int, w.vault_y as int, o.receive_x as int, o.receive_y as int);
        assert((vx - rx) * s >= vx * (s - a) && (a <= s ==> rx <= vx)) by (nonlinear_arith)
            requires
                rx * s <= a * vx,
                s > 0,
                vx >= 0,
        {
            if a <= s && rx > vx {
                assert(rx * s > vx * s);
                assert(vx * s >= a * vx);
            }
        }
        assert((vy - ry) * s >= vy * (s - a) && (a <= s ==> ry <= vy)) by (nonlinear_arith)
            requires
                ry * s <= a * vy,
                s > 0,
                vy >= 0,
        {
            if a <= s && ry > vy {
                assert(ry * s > vy * s);
                assert(vy * s >= a * vy);
            }
        }
    }
}

/// The pool after `d` accepted a deposit of `amount` LP tokens paid with `pay_x` and `pay_y`.
pub open spec fn withdraw_after_deposit(d: Deposit, amount: u64, pay_x: u64, pay_y: u64) -> Withdraw {
    Withdraw {
        config: d.config,
        lp_supply: (d.lp_supply + amount) as u64,
        vault_x: (d.vault_x + pay_x) as u64,
        vault_y: (d.vault_y + pay_y) as u64,
    }
}

/// x/y paid out by burning `lp` of `supply + lp` LP tokens from a vault of
/// `vault + pay`, where `pay` bought those `lp` tokens, is at most `pay`.
proof fn lemma_round_trip_side(lp: u64, vault: u64, supply: u64, pay: u64)
    requires
        supply > 0 || vault == 0,
        lp > 0,
        supply > 0 ==> lp * vault <= pay * supply,
        supply + lp <= u64::MAX,
        vault + pay <= u64::MAX,
    ensures
        mul_div_result(lp, (vault + pay) as u64, (supply + lp) as u64) matches Ok(q) && q <= pay,
{
    let n = (supply + lp) as int;
    let m = (lp as int) * ((vault + pay) as int);
    lemma_div_brackets(m, n);
    let q = m / n;
    let (l, v, s, p) = (lp as int, vault as int, supply as int, pay as int);
    assert(q <= p) by (nonlinear_arith)
        requires
            n == s + l,
            n > 0,
            l > 0,
            s >= 0,
            v >= 0,
            p >= 0,
            m == l * (v + p),
            q * n <= m,
            s > 0 || v == 0,
            s > 0 ==> l * v <= p * s,
    {
        assert(l * v <= p * s);
        assert(m == l * v + l * p);
        assert(m <= p * s + p * l);
        assert(p * s + p * l == p * n);
        if q > p {
            assert(q * n >= (p + 1) * n);
        }
    }
}

/// Depositing for `amount` LP tokens and at once burning them again returns
/// at most what was paid, on both sides: rounding never lets a round trip
/// drain the pool. It holds whenever the pool has LPs or its vaults are empty
/// (a first deposit into vaults that already hold tokens gets those tokens too).
pub proof fn lemma_deposit_then_withdraw_returns_at_most_paid(d: Deposit, amount: u64, max_x: u64, max_y: u64)
    requires
        d.lp_supply > 0 || (d.vault_x == 0 && d.vault_y == 0),
    ensures
        d.deposit_result(amount, max_x, max_y) matches Ok(o) ==> {
            (d.lp_supply + amount <= u64::MAX && d.vault_x + o.pay_x <= u64::MAX
                && d.vault_y + o.pay_y <= u64::MAX) ==> {
                withdraw_after_deposit(d, amount, o.pay_x, o.pay_y).withdraw_result(amount, 0, 0) matches Ok(back)
                    && back.burn_lp == amount && back.receive_x <= o.pay_x && back.receive_y <= o.pay_y
            }
        },
{
    if let Ok(o) = d.deposit_result(amount, max_x, max_y) {
        if d.lp_supply + amount <= u64::MAX && d.vault_x + o.pay_x <= u64::MAX && d.vault_y + o.pay_y <= u64::MAX {
            if d.lp_supply > 0 {
                lemma_deposit_rounds_up(amount, d.vault_x, d.lp_supply);
                lemma_deposit_rounds_up(amount, d.vault_y, d.lp_supply);
            }
            lemma_round_trip_side(amount, d.vault_x, d.lp_supply, o.pay_x);
            lemma_round_trip_side(amount, d.vault_y, d.lp_supply, o.pay_y);
        }
    }
}

/// An accepted swap never lowers the product of the two vaults and never
/// empties the output vault; the user pays exactly `amount_in` (vault plus
/// treasury) and gets a positive amount no worse than `min_out`.
pub proof fn lemma_swap_keeps_pool_product(s: Swap, is_x: bool, amount_in: u64, min_out: u64)
    ensures
        s.swap_result(is_x, amount_in, min_out) matches Ok(o) ==> {
            &&& o.to_vault + o.to_treasury == amount_in
            &&& 0 < o.out && min_out <= o.out
            &&& o.out < s.reserve_out(is_x)
            &&& (s.reserve_in(is_x) + o.to_vault) * (s.reserve_out(is_x) - o.out)
                    >= s.reserve_in(is_x) * s.reserve_out(is_x)
        },
{
    if let Ok(o) = s.swap_result(is_x, amount_in, min_out) {
        let protocol_cut = fee_amount_result(amount_in, s.config.protocol_fee)->Ok_0;
        let lp_cut = fee_amount_result(amount_in, s.config.fee)->Ok_0;
        let net = (amount_in - lp_cut - protocol_cut) as u64;
        let rin = s.reserve_in(is_x);
        let rout = s.reserve_out(is_x);
        lemma_swap_keeps_product(net, rin, rout);
        let (ri, ro, n, tv, out) = (rin as int, rout as int, net as int, o.to_vault as int, o.out as int);
        assert((ri + tv) * (ro - out) >= ri * ro) by (nonlinear_arith)
            requires
                (ri + n) * (ro - out) >= ri * ro,
                n <= tv,
                out <= ro,
        {
            assert((ri + tv) * (ro - out) >= (ri + n) * (ro - out));
        }
    }
}

/// With fees that together stay under 100 percent, as every initialized pool
/// has, taking the two cuts never fails: a swap only overflows when the input
/// vault plus the input would not fit in 64 bits.
pub proof fn lemma_valid_fees_only_overflow_on_reserve(s: Swap, is_x: bool, amount_in: u64, min_out: u64)
    requires
        s.config.fees_valid(),
    ensures
        s.swap_result(is_x, amount_in, min_out) == Err::<SwapOutcome, AmmError>(AmmError::Overflow)
            ==> s.reserve_in(is_x) + amount_in > u64::MAX,
{
    lemma_fee_cuts_fit(amount_in, s.config.fee, s.config.protocol_fee);
    if !s.config.locked && amount_in > 0 && s.vault_x > 0 && s.vault_y > 0 {
        let protocol_cut = fee_amount_result(amount_in, s.config.protocol_fee)->Ok_0;
        let lp_cut = fee_amount_result(amount_in, s.config.fee)->Ok_0;
        let net = (amount_in - lp_cut - protocol_cut) as u64;
        let rin = s.reserve_in(is_x);
        let rout = s.reserve_out(is_x);
        if rin + amount_in <= u64::MAX {
            // the divisor is positive and the quotient is at most the output reserve
            let n = (rin + net) as int;
            let m = (rout as int) * (net as int);
            lemma_div_brackets(m, n);
            let q = m / n;
            assert(q <= rout) by (nonlinear_arith)
                requires
                    n > 0,
                    q * n <= m,
                    m == (rout as int) * (net as int),
                    net <= n,
                    rout >= 0,
            {
                assert((rout as int) * (net as int) <= (rout as int) * n);
                if q > rout {
                    assert(q * n >= (rout + 1) * n);
                }
            }
        }
    }
}

/// Setting the lock flag changes the flag and nothing else.
pub proof fn lemma_with_locked_only_sets_flag(c: Config, locked: bool)
    ensures
        c.with_locked(locked).locked == locked,
        c.with_locked(locked).seed == c.seed,
        c.with_locked(locked).authority == c.authority,
        c.with_locked(locked).mint_x == c.mint_x,
        c.with_locked(locked).mint_y == c.mint_y,
        c.with_locked(locked).fee == c.fee,
        c.with_locked(locked).protocol_fee == c.protocol_fee,
        c.with_locked(locked).config_bump == c.config_bump,
        c.with_locked(locked).lp_bump == c.lp_bump,
        c.with_locked(locked).treasury_bump == c.treasury_bump,
{
}

/// Every accepted swap, in either direction, is priced from the two fee cuts
/// off the top: the treasury gets `amount_in * protocol_fee / 10000` (rounded
/// down), the input vault gets the rest of `amount_in` (the LP cut
/// `amount_in * fee / 10000` included), and the user gets
/// `reserve_out * net / (reserve_in + net)` rounded down, where `net` is
/// `amount_in` less both cuts; the pool was open with both vaults non-empty,
/// and the result is positive and at least `min_out`.
pub proof fn lemma_swap_prices_from_net_input(s: Swap, is_x: bool, amount_in: u64, min_out: u64)
    ensures
        s.swap_result(is_x, amount_in, min_out) matches Ok(o) ==> {
            let protocol_cut = (amount_in as int) * (s.config.protocol_fee as int) / 10000;
            let lp_cut = (amount_in as int) * (s.config.fee as int) / 10000;
            let net = amount_in - lp_cut - protocol_cut;
            let rin: int = if is_x { s.vault_x as int } else { s.vault_y as int };
            let rout: int = if is_x { s.vault_y as int } else { s.vault_x as int };
            &&& o.to_treasury == protocol_cut
            &&& o.to_vault == amount_in - protocol_cut
            &&& o.to_vault + o.to_treasury == amount_in
            &&& 0 <= net
            &&& rin + net <= u64::MAX
            &&& o.out == rout * net / (rin + net)
            &&& 0 < o.out && min_out <= o.out
            &&& !s.config.locked && amount_in > 0 && s.vault_x > 0 && s.vault_y > 0
        },
{
    if let Ok(o) = s.swap_result(is_x, amount_in, min_out) {
        let protocol_cut = fee_amount_result(amount_in, s.config.protocol_fee)->Ok_0;
        let lp_cut = fee_amount_result(amount_in, s.config.fee)->Ok_0;
        let net = (amount_in - lp_cut - protocol_cut) as u64;
        lemma_swap_out_is_floor(net, s.reserve_in(is_x), s.reserve_out(is_x));
    }
}

/// How every swap is answered. A locked pool, a zero input and an empty vault
/// are refused in that order. Otherwise the protocol cut
/// `amount_in * protocol_fee / 10000` and the LP cut `amount_in * fee / 10000`
/// (both rounded down) come off the top; either not fitting in 64 bits, or the
/// two together exceeding `amount_in`, or the input vault plus the net not
/// fitting, is `Overflow`. The quote `reserve_out * net / (reserve_in + net)`
/// (rounded down) is then refused only when zero (`InvalidAmount`) or under
/// `min_out` (`SlippageExceeded`); else the treasury gets the protocol cut, the
/// input vault the rest of `amount_in`, and the user the quote.
pub proof fn lemma_swap_accepts(s: Swap, is_x: bool, amount_in: u64, min_out: u64)
    ensures
        s.config.locked ==> s.swap_result(is_x, amount_in, min_out) == Err::<SwapOutcome, AmmError>(AmmError::PoolLocked),
        !s.config.locked && amount_in == 0 ==>
            s.swap_result(is_x, amount_in, min_out) == Err::<SwapOutcome, AmmError>(AmmError::InvalidAmount),
        !s.config.locked && amount_in > 0 && (s.vault_x == 0 || s.vault_y == 0) ==>
            s.swap_result(is_x, amount_in, min_out) == Err::<SwapOutcome, AmmError>(AmmError::NoLiquidity),
        !s.config.locked && amount_in > 0 && s.vault_x > 0 && s.vault_y > 0 ==> {
            let protocol_cut = (amount_in as int) * (s.config.protocol_fee as int) / 10000;
            let lp_cut = (amount_in as int) * (s.config.fee as int) / 10000;
            let net = amount_in - lp_cut - protocol_cut;
            let rin: int = if is_x { s.vault_x as int } else { s.vault_y as int };
            let rout: int = if is_x { s.vault_y as int } else { s.vault_x as int };
            let out = rout * net / (rin + net);
            s.swap_result(is_x, amount_in, min_out) == if protocol_cut > u64::MAX || lp_cut > u64::MAX
                || net < 0 || rin + net > u64::MAX {
                Err::<SwapOutcome, AmmError>(AmmError::Overflow)
            } else if out == 0 {
                Err::<SwapOutcome, AmmError>(AmmError::InvalidAmount)
            } else if out < min_out {
                Err::<SwapOutcome, AmmError>(AmmError::SlippageExceeded)
            } else {
                Ok::<SwapOutcome, AmmError>(SwapOutcome {
                    to_vault: (amount_in - protocol_cut) as u64,
                    to_treasury: protocol_cut as u64,
                    out: out as u64,
                })
            }
        },
        // with fees under 100 percent, as `initialize` demands, the cuts always fit
        s.config.fee + s.config.protocol_fee < 10000 ==> {
            let protocol_cut = (amount_in as int) * (s.config.protocol_fee as int) / 10000;
            let lp_cut = (amount_in as int) * (s.config.fee as int) / 10000;
            protocol_cut <= u64::MAX && lp_cut <= u64::MAX && lp_cut + protocol_cut <= amount_in
        },
{
    lemma_fee_amount_is_floor(amount_in, s.config.fee);
    lemma_fee_amount_is_floor(amount_in, s.config.protocol_fee);
    if s.config.fee + s.config.protocol_fee < 10000 {
        lemma_fee_cuts_fit(amount_in, s.config.fee, s.config.protocol_fee);
    }
    if !s.config.locked && amount_in > 0 && s.vault_x > 0 && s.vault_y > 0 {
        if fee_amount_result(amount_in, s.config.protocol_fee) is Ok && fee_amount_result(amount_in, s.config.fee) is Ok {
            let protocol_cut = fee_amount_result(amount_in, s.config.protocol_fee)->Ok_0;
            let lp_cut = fee_amount_result(amount_in, s.config.fee)->Ok_0;
            if lp_cut + protocol_cut <= amount_in {
                let net = (amount_in - lp_cut - protocol_cut) as u64;
                lemma_swap_out_is_floor(net, s.reserve_in(is_x), s.reserve_out(is_x));
            }
        }
    }
}

/// A deposit on an open pool for a positive `amount` of LP tokens: the first
/// one (no LP supply) pays exactly `max_x` and `max_y`, which must both be
/// positive; any later one pays `amount * vault / lp_supply` rounded up on each
/// side, is refused with `Overflow` only when such a price does not fit, and is
/// accepted whenever both prices are positive and within `max_x` and `max_y`.
/// A locked pool and a zero amount are refused in that order.
pub proof fn lemma_deposit_accepts(d: Deposit, amount: u64, max_x: u64, max_y: u64)
    ensures
        d.config.locked ==> d.deposit_result(amount, max_x, max_y) == Err::<DepositOutcome, AmmError>(AmmError::PoolLocked),
        !d.config.locked && amount == 0 ==>
            d.deposit_result(amount, max_x, max_y) == Err::<DepositOutcome, AmmError>(AmmError::InvalidAmount),
        !d.config.locked && amount > 0 && d.lp_supply == 0 ==>
            d.deposit_result(amount, max_x, max_y) == if max_x == 0 || max_y == 0 {
                Err::<DepositOutcome, AmmError>(AmmError::InvalidAmount)
            } else {
                Ok::<DepositOutcome, AmmError>(DepositOutcome { pay_x: max_x, pay_y: max_y, mint_lp: amount })
            },
        !d.config.locked && amount > 0 && d.lp_supply > 0 ==> {
            let s = d.lp_supply as int;
            let px = ((amount as int) * (d.vault_x as int) + s - 1) / s;
            let py = ((amount as int) * (d.vault_y as int) + s - 1) / s;
            d.deposit_result(amount, max_x, max_y) == if px > u64::MAX || py > u64::MAX {
                Err::<DepositOutcome, AmmError>(AmmError::Overflow)
            } else if px == 0 || py == 0 {
                Err::<DepositOutcome, AmmError>(AmmError::InvalidAmount)
            } else if px > max_x || py > max_y {
                Err::<DepositOutcome, AmmError>(AmmError::SlippageExceeded)
            } else {
                Ok::<DepositOutcome, AmmError>(DepositOutcome { pay_x: px as u64, pay_y: py as u64, mint_lp: amount })
            }
        },
{
    if d.lp_supply > 0 {
        lemma_deposit_amounts_are_ceilings(amount, d.vault_x, d.vault_y, d.lp_supply);
    }
}

/// A withdrawal of a positive `amount` from a pool with LP supply pays
/// `amount * vault / lp_supply` rounded down on each side, is refused with
/// `Overflow` only when such an amount does not fit, and is accepted whenever
/// both amounts reach `min_x` and `min_y`; the lock plays no part. A zero
/// amount and an empty supply are refused in that order.
pub proof fn lemma_withdraw_accepts(w: Withdraw, amount: u64, min_x: u64, min_y: u64)
    ensures
        amount == 0 ==> w.withdraw_result(amount, min_x, min_y) == Err::<WithdrawOutcome, AmmError>(AmmError::InvalidAmount),
        amount > 0 && w.lp_supply == 0 ==>
            w.withdraw_result(amount, min_x, min_y) == Err::<WithdrawOutcome, AmmError>(AmmError::NoLiquidity),
        amount > 0 && w.lp_supply > 0 ==> {
            let s = w.lp_supply as int;
            let rx = (amount as int) * (w.vault_x as int) / s;
            let ry = (amount as int) * (w.vault_y as int) / s;
            w.withdraw_result(amount, min_x, min_y) == if rx > u64::MAX || ry > u64::MAX {
                Err::<WithdrawOutcome, AmmError>(AmmError::Overflow)
            } else if rx < min_x || ry < min_y {
                Err::<WithdrawOutcome, AmmError>(AmmError::SlippageExceeded)
            } else {
                Ok::<WithdrawOutcome, AmmError>(WithdrawOutcome { burn_lp: amount, receive_x: rx as u64, receive_y: ry as u64 })
            }
        },
{
    lemma_withdraw_amounts_are_floors(amount, w.vault_x, w.vault_y, w.lp_supply);
}

} // verus!
