//! The constant-product (x * y = k) arithmetic of the pool.
//!
//! Every product is formed in 128 bits, where two 64-bit factors always fit,
//! and only the final quotient has to fit back into 64 bits.

use vstd::prelude::*;
use vstd::arithmetic::div_mod::{lemma_fundamental_div_mod, lemma_div_is_ordered};
use vstd::arithmetic::mul::lemma_mul_upper_bound;

use crate::error::AmmError;

verus! {

/// Basis points in a whole.
pub const BPS_DENOMINATOR: u64 = 10_000;

/// `a * b / c`, rounded down.
pub open spec fn floor_mul_div(a: int, b: int, c: int) -> int {
    a * b / c
}

/// `a * b / c`, rounded up (for `c > 0`).
pub open spec fn ceil_mul_div(a: int, b: int, c: int) -> int {
    (a * b + c - 1) / c
}

/// What the rounded-down `a * b / c` answers: the quotient, or `Overflow`
/// when `c` is zero or the quotient does not fit in 64 bits.
pub open spec fn mul_div_result(a: u64, b: u64, c: u64) -> Result<u64, AmmError> {
    if c == 0 || floor_mul_div(a as int, b as int, c as int) > u64::MAX {
        Err(AmmError::Overflow)
    } else {
        Ok(floor_mul_div(a as int, b as int, c as int) as u64)
    }
}

/// What the rounded-up `a * b / c` answers for `c > 0`.
pub open spec fn mul_div_up_result(a: u64, b: u64, c: u64) -> Result<u64, AmmError> {
    if ceil_mul_div(a as int, b as int, c as int) > u64::MAX {
        Err(AmmError::Overflow)
    } else {
        Ok(ceil_mul_div(a as int, b as int, c as int) as u64)
    }
}

/// The x and y a depositor pays for `lp` new LP tokens (rounded up).
pub open spec fn deposit_amounts_result(lp: u64, reserve_x: u64, reserve_y: u64, supply: u64) -> Result<(u64, u64), AmmError> {
    match mul_div_up_result(lp, reserve_x, supply) {
        Err(e) => Err(e),
        Ok(x) => match mul_div_up_result(lp, reserve_y, supply) {
            Err(e) => Err(e),
            Ok(y) => Ok((x, y)),
        },
    }
}

/// The x and y a withdrawer receives for burning `lp` LP tokens (rounded down).
pub open spec fn withdraw_amounts_result(lp: u64, reserve_x: u64, reserve_y: u64, supply: u64) -> Result<(u64, u64), AmmError> {
    match mul_div_result(lp, reserve_x, supply) {
        Err(e) => Err(e),
        Ok(x) => match mul_div_result(lp, reserve_y, supply) {
            Err(e) => Err(e),
            Ok(y) => Ok((x, y)),
        },
    }
}

/// What a swap of `amount_in` pays out: `reserve_out * amount_in / (reserve_in + amount_in)`,
/// rounded down.
pub open spec fn swap_out_result(amount_in: u64, reserve_in: u64, reserve_out: u64) -> Result<u64, AmmError> {
    if reserve_in + amount_in > u64::MAX {
        Err(AmmError::Overflow)
    } else {
        mul_div_result(reserve_out, amount_in, (reserve_in + amount_in) as u64)
    }
}

/// `amount * bps / 10000`, rounded down.
pub open spec fn fee_amount_result(amount: u64, bps: u16) -> Result<u64, AmmError> {
    mul_div_result(amount, bps as u64, BPS_DENOMINATOR)
}

/// Two 64-bit factors always multiply within 128 bits, with room to add a 64-bit value.
proof fn lemma_product_fits_u128(a: u64, b: u64)
    ensures
        (a as int) * (b as int) + u64::MAX <= u128::MAX,
{
    lemma_mul_upper_bound(a as int, u64::MAX as int, b as int, u64::MAX as int);
    assert((u64::MAX as int) * (u64::MAX as int) + u64::MAX <= u128::MAX) by (nonlinear_arith);
}

/// The quotient of `x` by a positive `c` brackets `x` between two multiples of `c`.
pub(crate) proof fn lemma_div_brackets(x: int, c: int)
    requires
        c > 0,
    ensures
        (x / c) * c <= x < (x / c) * c + c,
{
    lemma_fundamental_div_mod(x, c);
    vstd::arithmetic::div_mod::lemma_mod_bound(x, c);
    vstd::arithmetic::mul::lemma_mul_is_commutative(c, x / c);
}

/// A withdrawal rounds against the withdrawer: what `lp` LP tokens pay out of a
/// reserve is the largest amount whose share of the supply does not exceed
/// `lp`'s share, so `x * supply <= lp * reserve < (x + 1) * supply`.
pub proof fn lemma_withdraw_rounds_down(lp: u64, reserve: u64, supply: u64)
    requires
        supply > 0,
    ensures
        mul_div_result(lp, reserve, supply) matches Ok(x) ==> {
            &&& x * supply <= lp * reserve
            &&& lp * reserve < (x + 1) * supply
        },
{
    lemma_div_brackets(lp * reserve, supply as int);
    let q = floor_mul_div(lp as int, reserve as int, supply as int);
    assert((q + 1) * supply == q * supply + supply) by (nonlinear_arith);
}

/// A deposit rounds against the depositor: the price of `lp` LP tokens is the
/// smallest amount whose share of the reserve covers `lp`'s share of the
/// supply, so `(x - 1) * supply < lp * reserve <= x * supply`.
pub proof fn lemma_deposit_rounds_up(lp: u64, reserve: u64, supply: u64)
    requires
        supply > 0,
    ensures
        mul_div_up_result(lp, reserve, supply) matches Ok(x) ==> {
            &&& lp * reserve <= x * supply
            &&& (x - 1) * supply < lp * reserve
        },
{
    let n = lp * reserve + supply - 1;
    lemma_div_brackets(n, supply as int);
    let q = n / (supply as int);
    assert((q - 1) * supply == q * supply - supply) by (nonlinear_arith);
}

/// Buying `lp` LP tokens never costs less than burning them pays out: the
/// rounded-up price is the rounded-down payout or one more.
pub proof fn lemma_deposit_price_covers_withdrawal(lp: u64, reserve: u64, supply: u64)
    requires
        supply > 0,
    ensures
        mul_div_up_result(lp, reserve, supply) matches Ok(up) ==>
            mul_div_result(lp, reserve, supply) matches Ok(down) && down <= up <= down + 1,
{
    lemma_withdraw_rounds_down(lp, reserve, supply);
    lemma_deposit_rounds_up(lp, reserve, supply);
    let s = supply as int;
    let m = (lp as int) * (reserve as int);
    let down = floor_mul_div(lp as int, reserve as int, s);
    let up = ceil_mul_div(lp as int, reserve as int, s);
    lemma_div_brackets(m, s);
    lemma_div_brackets(m + s - 1, s);
    if up <= u64::MAX {
        assert(down <= up <= down + 1) by (nonlinear_arith)
            requires
                s > 0,
                down * s <= m < down * s + s,
                up * s <= m + s - 1 < up * s + s,
        {
            assert(down * s < up * s + s);
            assert(up * s < down * s + 2 * s);
            if down > up {
                assert(down * s >= (up + 1) * s);
            }
            if up > down + 1 {
                assert(up * s >= (down + 2) * s);
            }
        }
    }
}

/// A swap never lowers the product of the reserves and never empties the
/// output side: after `amount_in` goes in and `out` comes out,
/// `(reserve_in + amount_in) * (reserve_out - out) >= reserve_in * reserve_out`,
/// `out <= reserve_out`, and `out < reserve_out` when both reserves are positive.
pub proof fn lemma_swap_keeps_product(amount_in: u64, reserve_in: u64, reserve_out: u64)
    ensures
        swap_out_result(amount_in, reserve_in, reserve_out) matches Ok(out) ==> {
            &&& out <= reserve_out
            &&& (reserve_in + amount_in) * (reserve_out - out) >= reserve_in * reserve_out
            &&& (reserve_in > 0 && reserve_out > 0 ==> out < reserve_out)
        },
{
    let n = reserve_in + amount_in;
    if n > 0 && n <= u64::MAX {
        let m = (reserve_out as int) * (amount_in as int);
        lemma_div_brackets(m, n);
        let q = m / n;
        let ri = reserve_in as int;
        let ro = reserve_out as int;
        let ai = amount_in as int;
        assert(q <= ro && n * (ro - q) >= ri * ro && (ri > 0 && ro > 0 ==> q < ro)) by (nonlinear_arith)
            requires
                n == ri + ai,
                n > 0,
                ri >= 0,
                ai >= 0,
                ro >= 0,
                m == ro * ai,
                q * n <= m,
        {
            assert(ro * ai <= ro * n);
            if q > ro {
                assert(q * n >= (ro + 1) * n);
            }
            if ri > 0 && ro > 0 {
                assert(ro * ai < ro * n);
                if q >= ro {
                    assert(q * n >= ro * n);
                }
            }
        }
    }
}

/// Two fees that together come to at most 100 percent always fit, and their
/// cuts of an amount together never exceed it.
pub proof fn lemma_fee_cuts_fit(amount: u64, fee: u16, protocol_fee: u16)
    requires
        fee + protocol_fee <= BPS_DENOMINATOR,
    ensures
        fee_amount_result(amount, fee) is Ok,
        fee_amount_result(amount, protocol_fee) is Ok,
        fee_amount_result(amount, fee)->Ok_0 + fee_amount_result(amount, protocol_fee)->Ok_0 <= amount,
{
    let a = amount as int;
    let f = fee as int;
    let p = protocol_fee as int;
    let d = BPS_DENOMINATOR as int;
    lemma_div_brackets(a * f, d);
    lemma_div_brackets(a * p, d);
    let cf = (a * f) / d;
    let cp = (a * p) / d;
    assert(cf + cp <= a && cf <= a && cp <= a) by (nonlinear_arith)
        requires
            d == 10000,
            f >= 0,
            p >= 0,
            a >= 0,
            f + p <= d,
            cf * d <= a * f,
            cp * d <= a * p,
            cf >= 0,
            cp >= 0,
    {
        assert((cf + cp) * d <= a * (f + p));
        assert(a * (f + p) <= a * d);
    }
}

/// A basis-point fee is `amount * bps / 10000` rounded down: whenever that
/// quotient fits it is the answer, `fee * 10000 <= amount * bps < (fee + 1) * 10000`;
/// only a quotient past 64 bits is refused, and none is for `bps <= 10000`.
pub proof fn lemma_fee_amount_is_floor(amount: u64, bps: u16)
    ensures
        (amount as int) * (bps as int) / 10000 <= u64::MAX ==>
            fee_amount_result(amount, bps) == Ok::<u64, AmmError>(((amount as int) * (bps as int) / 10000) as u64),
        (amount as int) * (bps as int) / 10000 > u64::MAX ==>
            fee_amount_result(amount, bps) == Err::<u64, AmmError>(AmmError::Overflow),
        fee_amount_result(amount, bps) matches Ok(f) ==>
            f * 10000 <= amount * bps && amount * bps < (f + 1) * 10000,
        bps <= 10000 ==> fee_amount_result(amount, bps) is Ok,
{
    let m = (amount as int) * (bps as int);
    lemma_div_brackets(m, 10000);
    let q = m / 10000;
    assert((q + 1) * 10000 == q * 10000 + 10000) by (nonlinear_arith);
    if bps <= 10000 {
        assert(q <= amount) by (nonlinear_arith)
            requires
                q * 10000 <= m,
                m == (amount as int) * (bps as int),
                bps <= 10000,
                amount >= 0,
        {
            assert((amount as int) * (bps as int) <= (amount as int) * 10000);
            if q > amount {
                assert(q * 10000 >= (amount + 1) * 10000);
            }
        }
    }
}

/// A swap quote is `reserve_out * amount_in / (reserve_in + amount_in)` rounded
/// down, formed without overflow: it is given whenever `reserve_in + amount_in`
/// fits and is positive (the quote itself then never exceeds `reserve_out`), and
/// refused with `Overflow` otherwise.
pub proof fn lemma_swap_out_is_floor(amount_in: u64, reserve_in: u64, reserve_out: u64)
    ensures
        0 < reserve_in + amount_in <= u64::MAX ==>
            swap_out_result(amount_in, reserve_in, reserve_out) == Ok::<u64, AmmError>(
                ((reserve_out as int) * (amount_in as int) / (reserve_in + amount_in)) as u64,
            )
            && (reserve_out as int) * (amount_in as int) / (reserve_in + amount_in) <= reserve_out,
        (reserve_in + amount_in > u64::MAX || reserve_in + amount_in == 0) ==>
            swap_out_result(amount_in, reserve_in, reserve_out) == Err::<u64, AmmError>(AmmError::Overflow),
        swap_out_result(amount_in, reserve_in, reserve_out) matches Ok(out) ==> {
            &&& out * (reserve_in + amount_in) <= reserve_out * amount_in
            &&& reserve_out * amount_in < (out + 1) * (reserve_in + amount_in)
        },
{
    let n = reserve_in + amount_in;
    if n > 0 {
        let m = (reserve_out as int) * (amount_in as int);
        lemma_div_brackets(m, n);
        let q = m / n;
        assert(q <= reserve_out && (q + 1) * n == q * n + n) by (nonlinear_arith)
            requires
                n > 0,
                q * n <= m,
                m == (reserve_out as int) * (amount_in as int),
                amount_in <= n,
                reserve_out >= 0,
        {
            assert((reserve_out as int) * (amount_in as int) <= (reserve_out as int) * n);
            if q > reserve_out {
                assert(q * n >= (reserve_out + 1) * n);
            }
        }
    }
}

/// The price of `lp` new LP tokens is `lp * reserve / supply` rounded up on
/// each side, with the product formed in 128 bits: whenever both rounded-up
/// amounts fit they are the answer, and only an amount past 64 bits is refused.
pub proof fn lemma_deposit_amounts_are_ceilings(lp: u64, reserve_x: u64, reserve_y: u64, supply: u64)
    requires
        supply > 0,
    ensures
        ((lp as int) * (reserve_x as int) + supply - 1) / (supply as int) <= u64::MAX
            && ((lp as int) * (reserve_y as int) + supply - 1) / (supply as int) <= u64::MAX
            ==> deposit_amounts_result(lp, reserve_x, reserve_y, supply) == Ok::<(u64, u64), AmmError>((
                (((lp as int) * (reserve_x as int) + supply - 1) / (supply as int)) as u64,
                (((lp as int) * (reserve_y as int) + supply - 1) / (supply as int)) as u64,
            )),
        ((lp as int) * (reserve_x as int) + supply - 1) / (supply as int) > u64::MAX
            || ((lp as int) * (reserve_y as int) + supply - 1) / (supply as int) > u64::MAX
            ==> deposit_amounts_result(lp, reserve_x, reserve_y, supply) == Err::<(u64, u64), AmmError>(AmmError::Overflow),
        deposit_amounts_result(lp, reserve_x, reserve_y, supply) matches Ok((x, y)) ==> {
            &&& (x - 1) * supply < lp * reserve_x && lp * reserve_x <= x * supply
            &&& (y - 1) * supply < lp * reserve_y && lp * reserve_y <= y * supply
        },
{
    lemma_deposit_rounds_up(lp, reserve_x, supply);
    lemma_deposit_rounds_up(lp, reserve_y, supply);
}

/// What burning `lp` LP tokens pays is `lp * reserve / supply` rounded down on
/// each side, with the product formed in 128 bits: whenever both amounts fit
/// they are the answer; an empty supply or an amount past 64 bits is refused.
pub proof fn lemma_withdraw_amounts_are_floors(lp: u64, reserve_x: u64, reserve_y: u64, supply: u64)
    ensures
        supply > 0
            && (lp as int) * (reserve_x as int) / (supply as int) <= u64::MAX
            && (lp as int) * (reserve_y as int) / (supply as int) <= u64::MAX
            ==> withdraw_amounts_result(lp, reserve_x, reserve_y, supply) == Ok::<(u64, u64), AmmError>((
                ((lp as int) * (reserve_x as int) / (supply as int)) as u64,
                ((lp as int) * (reserve_y as int) / (supply as int)) as u64,
            )),
        supply == 0 || (lp as int) * (reserve_x as int) / (supply as int) > u64::MAX
            || (lp as int) * (reserve_y as int) / (supply as int) > u64::MAX
            ==> withdraw_amounts_result(lp, reserve_x, reserve_y, supply) == Err::<(u64, u64), AmmError>(AmmError::Overflow),
        withdraw_amounts_result(lp, reserve_x, reserve_y, supply) matches Ok((x, y)) ==> {
            &&& x * supply <= lp * reserve_x && lp * reserve_x < (x + 1) * supply
            &&& y * supply <= lp * reserve_y && lp * reserve_y < (y + 1) * supply
        },
{
    if supply > 0 {
        lemma_withdraw_rounds_down(lp, reserve_x, supply);
        lemma_withdraw_rounds_down(lp, reserve_y, supply);
    }
}

/// `a * b / c` rounded down.
fn mul_div(a: u64, b: u64, c: u64) -> (r: Result<u64, AmmError>)
    ensures
        r == mul_div_result(a, b, c),
{
    proof {
        lemma_product_fits_u128(a, b);
    }
    let product = match (a as u128).checked_mul(b as u128) {
        Some(p) => p,
        None => return Err(AmmError::Overflow),
    };
    let out = match product.checked_div(c as u128) {
        Some(q) => q,
        None => return Err(AmmError::Overflow),
    };
    if out <= u64::MAX as u128 {
        Ok(out as u64)
    } else {
        Err(AmmError::Overflow)
    }
}

/// `a * b / c` rounded up.
fn mul_div_up(a: u64, b: u64, c: u64) -> (r: Result<u64, AmmError>)
    requires
        c > 0,
    ensures
        r == mul_div_up_result(a, b, c),
{
    proof {
        lemma_product_fits_u128(a, b);
    }
    let top = match (a as u128).checked_mul(b as u128) {
        Some(p) => p,
        None => return Err(AmmError::Overflow),
    };
    let padded = match top.checked_add(c as u128 - 1) {
        Some(t) => t,
        None => return Err(AmmError::Overflow),
    };
    let out = match padded.checked_div(c as u128) {
        Some(q) => q,
        None => return Err(AmmError::Overflow),
    };
    if out <= u64::MAX as u128 {
        Ok(out as u64)
    } else {
        Err(AmmError::Overflow)
    }
}

/// How much x and y it costs to receive `lp` new LP tokens from a pool holding
/// `reserve_x` and `reserve_y` against an LP supply of `supply`; rounded up,
/// against the depositor.
pub fn deposit_amounts(lp: u64, reserve_x: u64, reserve_y: u64, supply: u64) -> (r: Result<(u64, u64), AmmError>)
    requires
        supply > 0,
    ensures
        r == deposit_amounts_result(lp, reserve_x, reserve_y, supply),
{
    let x = mul_div_up(lp, reserve_x, supply)?;
    let y = mul_div_up(lp, reserve_y, supply)?;
    Ok((x, y))
}

/// How much x and y burning `lp` LP tokens pays out; rounded down, against the
/// withdrawer.
pub fn withdraw_amounts(lp: u64, reserve_x: u64, reserve_y: u64, supply: u64) -> (r: Result<(u64, u64), AmmError>)
    ensures
        r == withdraw_amounts_result(lp, reserve_x, reserve_y, supply),
{
    let x = mul_div(lp, reserve_x, supply)?;
    let y = mul_div(lp, reserve_y, supply)?;
    Ok((x, y))
}

/// What `amount_in` buys from a pool holding `reserve_in` and `reserve_out`:
/// `reserve_out * amount_in / (reserve_in + amount_in)`, rounded down so that
/// the product of the reserves never drops.
pub fn swap_out(amount_in: u64, reserve_in: u64, reserve_out: u64) -> (r: Result<u64, AmmError>)
    ensures
        r == swap_out_result(amount_in, reserve_in, reserve_out),
{
    let new_reserve_in = match reserve_in.checked_add(amount_in) {
        Some(n) => n,
        None => return Err(AmmError::Overflow),
    };
    mul_div(reserve_out, amount_in, new_reserve_in)
}

/// The cut of `amount` that a fee of `bps` basis points takes, rounded down.
pub fn fee_amount(amount: u64, bps: u16) -> (r: Result<u64, AmmError>)
    ensures
        r == fee_amount_result(amount, bps),
{
    mul_div(amount, bps as u64, BPS_DENOMINATOR)
}

} // verus!
