use vstd::prelude::*;
use crate::constants::{MINIMUM_LIQUIDITY, MIN_INITIAL_LIQUIDITY, MIN_SWAP_AMOUNT};
use crate::errors::AmmError;

verus! {

/// `r` is the integer square root of `y`: the largest natural number whose
/// square does not exceed `y`.
pub open spec fn is_integer_sqrt(r: nat, y: nat) -> bool {
    r * r <= y < (r + 1) * (r + 1)
}

/// The integer square root of `y`, that is `floor(sqrt(y))`.
pub open spec fn integer_sqrt(y: nat) -> nat {
    choose|r: nat| is_integer_sqrt(r, y)
}

/// At most one number is the integer square root of `y`.
pub proof fn lemma_integer_sqrt_unique(r: nat, s: nat, y: nat)
    requires
        is_integer_sqrt(r, y),
        is_integer_sqrt(s, y),
    ensures
        r == s,
{
    if r < s {
        assert((r + 1) * (r + 1) <= s * s) by (nonlinear_arith)
            requires
                r + 1 <= s,
        ;
    } else if s < r {
        assert((s + 1) * (s + 1) <= r * r) by (nonlinear_arith)
            requires
                s + 1 <= r,
        ;
    }
}

/// Zero is its own integer square root.
pub proof fn lemma_integer_sqrt_of_zero()
    ensures
        is_integer_sqrt(0, 0),
        integer_sqrt(0) == 0,
{
    assert(is_integer_sqrt(0, 0)) by (nonlinear_arith);
    lemma_integer_sqrt_unique(0, integer_sqrt(0), 0);
}

/// Every natural number has an integer square root.
pub proof fn lemma_integer_sqrt_exists(y: nat)
    ensures
        is_integer_sqrt(integer_sqrt(y), y),
    decreases y,
{
    if y == 0 {
        lemma_integer_sqrt_of_zero();
    } else {
        lemma_integer_sqrt_exists((y - 1) as nat);
        let r: nat = integer_sqrt((y - 1) as nat);
        if (r + 1) * (r + 1) <= y {
            assert(y < (r + 2) * (r + 2)) by (nonlinear_arith)
                requires
                    (r + 1) * (r + 1) == y,
            ;
            lemma_integer_sqrt_is(r + 1, y);
        } else {
            lemma_integer_sqrt_is(r, y);
        }
    }
}

/// A number that satisfies the defining inequalities is the integer square
/// root.
pub proof fn lemma_integer_sqrt_is(r: nat, y: nat)
    requires
        is_integer_sqrt(r, y),
    ensures
        integer_sqrt(y) == r,
{
    lemma_integer_sqrt_unique(r, integer_sqrt(y), y);
}

/// One step of Newton's iteration from any positive `x` lands on or above
/// the integer square root of `y`.
proof fn lemma_newton_step_stays_above(y: int, x: int)
    requires
        0 <= y,
        0 < x,
    ensures
        y < ((y / x + x) / 2 + 1) * ((y / x + x) / 2 + 1),
{
    let q: int = y / x;
    let z: int = (q + x) / 2;
    let s: int = q + 1 + x;
    assert(q * x <= y < (q + 1) * x && 0 <= q) by (nonlinear_arith)
        requires
            q == y / x,
            0 <= y,
            0 < x,
    ;
    assert(s <= 2 * (z + 1));
    assert(s * s >= 4 * ((q + 1) * x)) by (nonlinear_arith)
        requires
            s == q + 1 + x,
    ;
    assert(4 * ((z + 1) * (z + 1)) >= s * s) by (nonlinear_arith)
        requires
            0 <= s <= 2 * (z + 1),
    ;
}

/// Integer square root by Newton's (the Babylonian) method.
pub fn sqrt(y: u64) -> (r: u64)
    ensures
        is_integer_sqrt(r as nat, y as nat),
        r as nat == integer_sqrt(y as nat),
{
    if y == 0 {
        proof {
            lemma_integer_sqrt_of_zero();
        }
        return 0;
    }
    let mut z: u64 = y / 2 + y % 2;
    let mut x: u64 = y;
    assert(y < (x + 1) * (x + 1)) by (nonlinear_arith)
        requires
            x == y,
    ;
    while z < x
        invariant
            0 < y,
            0 < x,
            1 <= z <= 0x8000_0000_0000_0000,
            z as int == (y as int / x as int + x as int) / 2,
            y < (x + 1) * (x + 1),
        decreases x,
    {
        proof {
            lemma_newton_step_stays_above(y as int, x as int);
            if z >= 2 {
                assert(y as int / z as int <= 0x7fff_ffff_ffff_ffff) by (nonlinear_arith)
                    requires
                        z >= 2,
                        y <= 0xffff_ffff_ffff_ffff,
                ;
            } else {
                assert((z + 1) * (z + 1) == 4) by (nonlinear_arith)
                    requires
                        z == 1,
                ;
            }
        }
        x = z;
        z = (y / z + z) / 2;
        proof {
            if x == 1 {
                assert(y as int / x as int == y);
            }
        }
    }
    proof {
        let q: int = y as int / x as int;
        assert(q * x <= y && 0 <= q) by (nonlinear_arith)
            requires
                q == y as int / x as int,
                0 < x,
                0 < y,
        ;
        assert(q >= x);
        assert(x * x <= q * x) by (nonlinear_arith)
            requires
                0 < x <= q,
        ;
        lemma_integer_sqrt_is(x as nat, y as nat);
    }
    x
}

/// `floor(a * b / denom)` over the mathematical integers.
pub open spec fn mul_div_floor(a: int, b: int, denom: int) -> int
    recommends
        denom > 0,
{
    (a * b) / denom
}

/// What [`wide_mul_div`] returns: the floored quotient where it fits 64
/// bits, `DivisionByZero` for a zero divisor and `MathOverflow` for a
/// quotient above `u64::MAX`.
pub open spec fn wide_mul_div_result(a: u64, b: u64, denom: u64) -> Result<u64, AmmError> {
    if denom == 0 {
        Err(AmmError::DivisionByZero)
    } else if mul_div_floor(a as int, b as int, denom as int) > u64::MAX {
        Err(AmmError::MathOverflow)
    } else {
        Ok(mul_div_floor(a as int, b as int, denom as int) as u64)
    }
}

/// The product of two 64-bit values fits 128 bits.
pub proof fn lemma_product_fits_u128(a: u64, b: u64)
    ensures
        0 <= a as int * b as int <= u128::MAX as int,
{
    assert(0 <= a as int * b as int <= u128::MAX as int) by (nonlinear_arith)
        requires
            0 <= a as int <= 0xffff_ffff_ffff_ffff,
            0 <= b as int <= 0xffff_ffff_ffff_ffff,
            u128::MAX as int == 0xffff_ffff_ffff_ffff_ffff_ffff_ffff_ffff,
    ;
}

/// `floor(a * b / denom)` with the product held in 128 bits. The quotient
/// may exceed 64 bits.
fn mul_div_u128(a: u64, b: u64, denom: u128) -> (r: Result<u128, AmmError>)
    ensures
        denom == 0 ==> r == Err::<u128, AmmError>(AmmError::DivisionByZero),
        denom > 0 ==> r == Ok::<u128, AmmError>(
            mul_div_floor(a as int, b as int, denom as int) as u128,
        ),
        denom > 0 ==> 0 <= mul_div_floor(a as int, b as int, denom as int) <= a as int * b as int
            <= u128::MAX as int,
{
    proof {
        lemma_product_fits_u128(a, b);
    }
    let wide_a: u128 = a as u128;
    let wide_b: u128 = b as u128;
    let product: u128 = match wide_a.checked_mul(wide_b) {
        Some(p) => p,
        None => {
            return Err(AmmError::MathOverflow);
        },
    };
    match product.checked_div(denom) {
        Some(q) => {
            proof {
                let p: int = a as int * b as int;
                let d: int = denom as int;
                assert(0 <= p / d <= p) by (nonlinear_arith)
                    requires
                        0 <= p,
                        0 < d,
                ;
            }
            Ok(q)
        },
        None => Err(AmmError::DivisionByZero),
    }
}

/// Computes `floor(a * b / denom)` without losing the high bits of the
/// product.
pub fn wide_mul_div(a: u64, b: u64, denom: u64) -> (r: Result<u64, AmmError>)
    ensures
        r == wide_mul_div_result(a, b, denom),
{
    let quotient: u128 = match mul_div_u128(a, b, denom as u128) {
        Ok(q) => q,
        Err(e) => {
            return Err(e);
        },
    };
    if quotient > u64::MAX as u128 {
        return Err(AmmError::MathOverflow);
    }
    Ok(quotient as u64)
}

/// The fee withheld from `amount_in`: `floor(amount_in * fee_num / fee_den)`.
pub open spec fn swap_fee(amount_in: u64, fee_numerator: u64, fee_denominator: u64) -> int
    recommends
        fee_denominator > 0,
{
    mul_div_floor(amount_in as int, fee_numerator as int, fee_denominator as int)
}

/// The constant-product output for a net input `amount_in_net`:
/// `floor(net * reserve_out / (reserve_in + net))`.
pub open spec fn curve_output(amount_in_net: int, reserve_in: u64, reserve_out: u64) -> int
    recommends
        reserve_in > 0,
        amount_in_net >= 0,
{
    mul_div_floor(amount_in_net, reserve_out as int, reserve_in as int + amount_in_net)
}

/// What [`calculate_swap_output`] returns.
///
/// The fee is taken from the input first; the rest goes through the curve.
/// An input under the dust floor, or one whose output rounds to zero, is
/// `AmountTooSmall`; an empty reserve is `PoolNotInitialized`; a zero fee
/// denominator is `DivisionByZero`; a fee above the input is `MathOverflow`;
/// an output that would reach the whole output reserve is
/// `InsufficientLiquidity`.
pub open spec fn swap_output(
    amount_in: u64,
    reserve_in: u64,
    reserve_out: u64,
    fee_numerator: u64,
    fee_denominator: u64,
) -> Result<(u64, u64), AmmError> {
    if amount_in < MIN_SWAP_AMOUNT {
        Err(AmmError::AmountTooSmall)
    } else if reserve_in == 0 || reserve_out == 0 {
        Err(AmmError::PoolNotInitialized)
    } else if fee_denominator == 0 {
        Err(AmmError::DivisionByZero)
    } else if swap_fee(amount_in, fee_numerator, fee_denominator) > amount_in {
        Err(AmmError::MathOverflow)
    } else {
        let fee = swap_fee(amount_in, fee_numerator, fee_denominator);
        let out = curve_output(amount_in - fee, reserve_in, reserve_out);
        if out == 0 {
            Err(AmmError::AmountTooSmall)
        } else if out >= reserve_out {
            Err(AmmError::InsufficientLiquidity)
        } else {
            Ok((out as u64, fee as u64))
        }
    }
}

/// The curve pays out less than the output reserve, and never so much that
/// the product of the reserves would fall.
pub proof fn lemma_curve_output_bounds(net: int, reserve_in: u64, reserve_out: u64)
    requires
        0 <= net,
        0 < reserve_in,
    ensures
        0 <= curve_output(net, reserve_in, reserve_out),
        reserve_out > 0 ==> curve_output(net, reserve_in, reserve_out) < reserve_out,
        curve_output(net, reserve_in, reserve_out) <= reserve_out,
        curve_output(net, reserve_in, reserve_out) * (reserve_in + net) <= net * reserve_out,
{
    let d: int = reserve_in as int + net;
    let p: int = net * reserve_out as int;
    let ro: int = reserve_out as int;
    let q: int = p / d;
    assert(0 <= p) by (nonlinear_arith)
        requires
            p == net * ro,
            0 <= net,
            0 <= ro,
    ;
    assert(0 <= q && q * d <= p < (q + 1) * d) by (nonlinear_arith)
        requires
            q == p / d,
            0 <= p,
            0 < d,
    ;
    assert(p < ro * d || ro == 0) by (nonlinear_arith)
        requires
            p == net * ro,
            d > net,
            0 <= ro,
            0 <= net,
    ;
    assert(q < ro || ro == 0) by (nonlinear_arith)
        requires
            q * d <= p,
            p < ro * d || ro == 0,
            0 < d,
            0 <= q,
            0 <= ro,
    ;
    if ro == 0 {
        assert(p == 0) by (nonlinear_arith)
            requires
                p == net * ro,
                ro == 0,
        ;
        assert(q == 0) by (nonlinear_arith)
            requires
                q * d <= p,
                p == 0,
                0 < d,
                0 <= q,
        ;
    }
}

/// Calculate the output amount and the fee of a swap.
///
/// Returns `(amount_out, fee_amount)`.
pub fn calculate_swap_output(
    amount_in: u64,
    reserve_in: u64,
    reserve_out: u64,
    fee_numerator: u64,
    fee_denominator: u64,
) -> (r: Result<(u64, u64), AmmError>)
    ensures
        r == swap_output(amount_in, reserve_in, reserve_out, fee_numerator, fee_denominator),
        r matches Ok((amount_out, fee_amount)) ==> 0 < amount_out < reserve_out && fee_amount
            <= amount_in,
        r != Err::<(u64, u64), AmmError>(AmmError::InsufficientLiquidity),
{
    if amount_in < MIN_SWAP_AMOUNT {
        return Err(AmmError::AmountTooSmall);
    }
    if reserve_in == 0 || reserve_out == 0 {
        return Err(AmmError::PoolNotInitialized);
    }
    let fee_amount: u64 = match wide_mul_div(amount_in, fee_numerator, fee_denominator) {
        Ok(fee) => fee,
        Err(e) => {
            return Err(e);
        },
    };
    let amount_in_with_fee: u64 = match amount_in.checked_sub(fee_amount) {
        Some(rest) => rest,
        None => {
            return Err(AmmError::MathOverflow);
        },
    };
    let denominator: u128 = reserve_in as u128 + amount_in_with_fee as u128;
    proof {
        lemma_curve_output_bounds(amount_in_with_fee as int, reserve_in, reserve_out);
    }
    let wide_out: u128 = match mul_div_u128(amount_in_with_fee, reserve_out, denominator) {
        Ok(q) => q,
        Err(e) => {
            return Err(e);
        },
    };
    if wide_out == 0 {
        return Err(AmmError::AmountTooSmall);
    }
    if wide_out >= reserve_out as u128 {
        return Err(AmmError::InsufficientLiquidity);
    }
    Ok((wide_out as u64, fee_amount))
}

/// What [`calculate_initial_liquidity`] returns: the geometric mean of the
/// two amounts, rounded down.
///
/// Either amount under `MIN_INITIAL_LIQUIDITY`, or a mean under
/// `MINIMUM_LIQUIDITY`, is `InitialLiquidityTooSmall`; a product above
/// `u64::MAX` is `MathOverflow`.
pub open spec fn initial_liquidity(amount_a: u64, amount_b: u64) -> Result<u64, AmmError> {
    if amount_a < MIN_INITIAL_LIQUIDITY || amount_b < MIN_INITIAL_LIQUIDITY {
        Err(AmmError::InitialLiquidityTooSmall)
    } else if amount_a * amount_b > u64::MAX {
        Err(AmmError::MathOverflow)
    } else if integer_sqrt((amount_a * amount_b) as nat) < MINIMUM_LIQUIDITY {
        Err(AmmError::InitialLiquidityTooSmall)
    } else {
        Ok(integer_sqrt((amount_a * amount_b) as nat) as u64)
    }
}

/// The integer square root does not decrease when its argument grows.
pub proof fn lemma_integer_sqrt_monotonic(x: nat, y: nat)
    requires
        x <= y,
    ensures
        integer_sqrt(x) <= integer_sqrt(y),
{
    lemma_integer_sqrt_exists(x);
    lemma_integer_sqrt_exists(y);
    let r: nat = integer_sqrt(x);
    let s: nat = integer_sqrt(y);
    if s < r {
        assert((s + 1) * (s + 1) <= r * r) by (nonlinear_arith)
            requires
                s + 1 <= r,
        ;
    }
}

/// Calculate the shares to issue for the first deposit.
///
/// The result is the full geometric mean; locking `MINIMUM_LIQUIDITY` of it
/// is left to the caller.
pub fn calculate_initial_liquidity(amount_a: u64, amount_b: u64) -> (r: Result<u64, AmmError>)
    ensures
        r == initial_liquidity(amount_a, amount_b),
        r matches Ok(liquidity) ==> liquidity >= MINIMUM_LIQUIDITY && is_integer_sqrt(
            liquidity as nat,
            (amount_a * amount_b) as nat,
        ),
{
    if amount_a < MIN_INITIAL_LIQUIDITY || amount_b < MIN_INITIAL_LIQUIDITY {
        return Err(AmmError::InitialLiquidityTooSmall);
    }
    proof {
        lemma_product_fits_u128(amount_a, amount_b);
    }
    let wide_a: u128 = amount_a as u128;
    let wide_b: u128 = amount_b as u128;
    let product: u128 = match wide_a.checked_mul(wide_b) {
        Some(p) => p,
        None => {
            return Err(AmmError::MathOverflow);
        },
    };
    if product > u64::MAX as u128 {
        return Err(AmmError::MathOverflow);
    }
    let liquidity: u64 = sqrt(product as u64);
    if liquidity < MINIMUM_LIQUIDITY {
        return Err(AmmError::InitialLiquidityTooSmall);
    }
    Ok(liquidity)
}

/// The shares one side of a deposit would earn on its own:
/// `floor(amount * total_supply / reserve)`.
pub open spec fn share_for_side(amount: u64, reserve: u64, total_supply: u64) -> int
    recommends
        reserve > 0,
{
    mul_div_floor(amount as int, total_supply as int, reserve as int)
}

/// The smaller of two integers.
pub open spec fn min_int(x: int, y: int) -> int {
    if x <= y {
        x
    } else {
        y
    }
}

/// What [`calculate_liquidity_to_mint`] returns: the smaller of the shares
/// that the two sides of the deposit would earn.
///
/// An empty reserve or supply is `PoolNotInitialized`; a side whose share
/// exceeds `u64::MAX` is `MathOverflow`; a zero result is
/// `InsufficientLiquidityMinted`.
pub open spec fn liquidity_to_mint(
    amount_a: u64,
    amount_b: u64,
    reserve_a: u64,
    reserve_b: u64,
    total_supply: u64,
) -> Result<u64, AmmError> {
    if reserve_a == 0 || reserve_b == 0 || total_supply == 0 {
        Err(AmmError::PoolNotInitialized)
    } else {
        let liquidity_a = share_for_side(amount_a, reserve_a, total_supply);
        let liquidity_b = share_for_side(amount_b, reserve_b, total_supply);
        if liquidity_a > u64::MAX || liquidity_b > u64::MAX {
            Err(AmmError::MathOverflow)
        } else if min_int(liquidity_a, liquidity_b) == 0 {
            Err(AmmError::InsufficientLiquidityMinted)
        } else {
            Ok(min_int(liquidity_a, liquidity_b) as u64)
        }
    }
}

/// Calculate the shares to issue for a deposit into a pool that already
/// holds reserves.
pub fn calculate_liquidity_to_mint(
    amount_a: u64,
    amount_b: u64,
    reserve_a: u64,
    reserve_b: u64,
    total_supply: u64,
) -> (r: Result<u64, AmmError>)
    ensures
        r == liquidity_to_mint(amount_a, amount_b, reserve_a, reserve_b, total_supply),
        r matches Ok(liquidity) ==> {
            &&& liquidity > 0
            &&& liquidity <= share_for_side(amount_a, reserve_a, total_supply)
            &&& liquidity <= share_for_side(amount_b, reserve_b, total_supply)
            &&& (liquidity == share_for_side(amount_a, reserve_a, total_supply) || liquidity
                == share_for_side(amount_b, reserve_b, total_supply))
        },
{
    if reserve_a == 0 || reserve_b == 0 {
        return Err(AmmError::PoolNotInitialized);
    }
    if total_supply == 0 {
        return Err(AmmError::PoolNotInitialized);
    }
    let liquidity_a: u64 = match wide_mul_div(amount_a, total_supply, reserve_a) {
        Ok(share) => share,
        Err(e) => {
            return Err(e);
        },
    };
    let liquidity_b: u64 = match wide_mul_div(amount_b, total_supply, reserve_b) {
        Ok(share) => share,
        Err(e) => {
            return Err(e);
        },
    };
    let liquidity: u64 = if liquidity_a <= liquidity_b {
        liquidity_a
    } else {
        liquidity_b
    };
    if liquidity == 0 {
        return Err(AmmError::InsufficientLiquidityMinted);
    }
    Ok(liquidity)
}

/// What one side of the pool pays for `liquidity` shares out of
/// `total_supply`: `floor(reserve * liquidity / total_supply)`.
pub open spec fn amount_for_share(reserve: u64, liquidity: u64, total_supply: u64) -> int
    recommends
        total_supply > 0,
{
    mul_div_floor(reserve as int, liquidity as int, total_supply as int)
}

/// What [`calculate_amounts_for_liquidity`] returns: each reserve's
/// proportional part for the shares redeemed.
///
/// Zero shares, or more than the supply, are `InsufficientLiquidityBurned`;
/// an empty supply is `PoolNotInitialized`; a part that rounds to zero is
/// `InsufficientOutputAmount`.
pub open spec fn amounts_for_liquidity(
    liquidity: u64,
    reserve_a: u64,
    reserve_b: u64,
    total_supply: u64,
) -> Result<(u64, u64), AmmError> {
    if liquidity == 0 {
        Err(AmmError::InsufficientLiquidityBurned)
    } else if total_supply == 0 {
        Err(AmmError::PoolNotInitialized)
    } else if liquidity > total_supply {
        Err(AmmError::InsufficientLiquidityBurned)
    } else {
        let amount_a = amount_for_share(reserve_a, liquidity, total_supply);
        let amount_b = amount_for_share(reserve_b, liquidity, total_supply);
        if amount_a == 0 || amount_b == 0 {
            Err(AmmError::InsufficientOutputAmount)
        } else {
            Ok((amount_a as u64, amount_b as u64))
        }
    }
}

/// A share of the supply never pays out more than the reserve.
pub proof fn lemma_amount_for_share_bounded(reserve: u64, liquidity: u64, total_supply: u64)
    requires
        0 < total_supply,
        liquidity <= total_supply,
    ensures
        0 <= amount_for_share(reserve, liquidity, total_supply) <= reserve,
{
    let p: int = reserve as int * liquidity as int;
    let d: int = total_supply as int;
    let q: int = p / d;
    let r: int = reserve as int;
    assert(0 <= p <= r * d) by (nonlinear_arith)
        requires
            p == r * liquidity as int,
            0 <= liquidity as int <= d,
            0 <= r,
    ;
    assert(0 <= q && q * d <= p) by (nonlinear_arith)
        requires
            q == p / d,
            0 <= p,
            0 < d,
    ;
    assert(q <= r) by (nonlinear_arith)
        requires
            q * d <= p,
            p <= r * d,
            0 < d,
    ;
}

/// Calculate the amounts of both assets to pay out for shares redeemed.
///
/// Returns `(amount_a, amount_b)`.
pub fn calculate_amounts_for_liquidity(
    liquidity: u64,
    reserve_a: u64,
    reserve_b: u64,
    total_supply: u64,
) -> (r: Result<(u64, u64), AmmError>)
    ensures
        r == amounts_for_liquidity(liquidity, reserve_a, reserve_b, total_supply),
        r matches Ok((amount_a, amount_b)) ==> 0 < amount_a <= reserve_a && 0 < amount_b
            <= reserve_b,
{
    if liquidity == 0 {
        return Err(AmmError::InsufficientLiquidityBurned);
    }
    if total_supply == 0 {
        return Err(AmmError::PoolNotInitialized);
    }
    if liquidity > total_supply {
        return Err(AmmError::InsufficientLiquidityBurned);
    }
    proof {
        lemma_amount_for_share_bounded(reserve_a, liquidity, total_supply);
        lemma_amount_for_share_bounded(reserve_b, liquidity, total_supply);
    }
    let amount_a: u64 = match wide_mul_div(reserve_a, liquidity, total_supply) {
        Ok(amount) => amount,
        Err(e) => {
            return Err(e);
        },
    };
    let amount_b: u64 = match wide_mul_div(reserve_b, liquidity, total_supply) {
        Ok(amount) => amount,
        Err(e) => {
            return Err(e);
        },
    };
    if amount_a == 0 || amount_b == 0 {
        return Err(AmmError::InsufficientOutputAmount);
    }
    Ok((amount_a, amount_b))
}

/// The product of two reserves.
pub open spec fn invariant_product(reserve_a: u64, reserve_b: u64) -> int {
    reserve_a as int * reserve_b as int
}

/// What [`verify_invariant`] returns: `Ok` where the product of the new
/// reserves is at least that of the old ones, `InvariantViolation`
/// otherwise.
pub open spec fn invariant_check(
    old_reserve_a: u64,
    old_reserve_b: u64,
    new_reserve_a: u64,
    new_reserve_b: u64,
) -> Result<(), AmmError> {
    if invariant_product(new_reserve_a, new_reserve_b) >= invariant_product(
        old_reserve_a,
        old_reserve_b,
    ) {
        Ok(())
    } else {
        Err(AmmError::InvariantViolation)
    }
}

/// Verify that the product of the reserves does not decrease.
pub fn verify_invariant(
    old_reserve_a: u64,
    old_reserve_b: u64,
    new_reserve_a: u64,
    new_reserve_b: u64,
) -> (r: Result<(), AmmError>)
    ensures
        r == invariant_check(old_reserve_a, old_reserve_b, new_reserve_a, new_reserve_b),
{
    proof {
        lemma_product_fits_u128(old_reserve_a, old_reserve_b);
        lemma_product_fits_u128(new_reserve_a, new_reserve_b);
    }
    let old_a: u128 = old_reserve_a as u128;
    let old_b: u128 = old_reserve_b as u128;
    let new_a: u128 = new_reserve_a as u128;
    let new_b: u128 = new_reserve_b as u128;
    let k_old: u128 = match old_a.checked_mul(old_b) {
        Some(k) => k,
        None => {
            return Err(AmmError::MathOverflow);
        },
    };
    let k_new: u128 = match new_a.checked_mul(new_b) {
        Some(k) => k,
        None => {
            return Err(AmmError::MathOverflow);
        },
    };
    if k_new < k_old {
        return Err(AmmError::InvariantViolation);
    }
    Ok(())
}

} // verus!
