//! What holds of the curve arithmetic on every input.

use vstd::prelude::*;
use crate::constants::{MINIMUM_LIQUIDITY, MIN_INITIAL_LIQUIDITY};
use crate::clock::Clock;
use crate::errors::AmmError;
use crate::instructions::add_liquidity::{deposit_liquidity, pool_after_deposit};
use crate::instructions::remove_liquidity::withdrawal_amounts;
use crate::math::{
    amount_for_share, amounts_for_liquidity, curve_output, initial_liquidity, integer_sqrt,
    invariant_check, invariant_product, is_integer_sqrt, lemma_curve_output_bounds,
    lemma_integer_sqrt_exists, lemma_integer_sqrt_is, lemma_integer_sqrt_monotonic,
    liquidity_to_mint, min_int, share_for_side, swap_fee, swap_output,
};
use crate::state::pool::Pool;

verus! {

/// A swap never lowers the product of the reserves: with the whole input
/// added to one reserve and the output taken from the other, the new product
/// is at least the old one.
pub proof fn lemma_swap_keeps_product(
    amount_in: u64,
    reserve_in: u64,
    reserve_out: u64,
    fee_numerator: u64,
    fee_denominator: u64,
)
    requires
        swap_output(amount_in, reserve_in, reserve_out, fee_numerator, fee_denominator) is Ok,
    ensures
        ({
            let (amount_out, fee_amount) = swap_output(
                amount_in,
                reserve_in,
                reserve_out,
                fee_numerator,
                fee_denominator,
            )->Ok_0;
            (reserve_in + amount_in) * (reserve_out - amount_out) >= reserve_in * reserve_out
        }),
{
    let fee: int = swap_fee(amount_in, fee_numerator, fee_denominator);
    let net: int = amount_in - fee;
    let out: int = curve_output(net, reserve_in, reserve_out);
    let ri: int = reserve_in as int;
    let ro: int = reserve_out as int;
    let ai: int = amount_in as int;
    assert(0 <= fee) by (nonlinear_arith)
        requires
            fee == (amount_in as int * fee_numerator as int) / (fee_denominator as int),
            fee_denominator > 0,
    ;
    lemma_curve_output_bounds(net, reserve_in, reserve_out);
    assert((ri + ai) * (ro - out) >= ri * ro) by (nonlinear_arith)
        requires
            out * (ri + net) <= net * ro,
            0 <= net <= ai,
            0 <= out < ro,
            0 < ri,
    ;
}

/// The values a successful swap yields pass the check of the reserve
/// product, whichever reserve the input goes to.
pub proof fn lemma_swap_passes_invariant_check(
    amount_in: u64,
    reserve_in: u64,
    reserve_out: u64,
    fee_numerator: u64,
    fee_denominator: u64,
)
    requires
        swap_output(amount_in, reserve_in, reserve_out, fee_numerator, fee_denominator) is Ok,
        reserve_in + amount_in <= u64::MAX,
    ensures
        ({
            let (amount_out, fee_amount) = swap_output(
                amount_in,
                reserve_in,
                reserve_out,
                fee_numerator,
                fee_denominator,
            )->Ok_0;
            let new_in = (reserve_in + amount_in) as u64;
            let new_out = (reserve_out - amount_out) as u64;
            &&& invariant_check(reserve_in, reserve_out, new_in, new_out) is Ok
            &&& invariant_check(reserve_out, reserve_in, new_out, new_in) is Ok
        }),
{
    lemma_swap_keeps_product(amount_in, reserve_in, reserve_out, fee_numerator, fee_denominator);
    let amount_out: u64 = swap_output(
        amount_in,
        reserve_in,
        reserve_out,
        fee_numerator,
        fee_denominator,
    )->Ok_0.0;
    let new_in: int = reserve_in + amount_in;
    let new_out: int = reserve_out - amount_out;
    assert(new_out * new_in == new_in * new_out) by (nonlinear_arith);
    assert(reserve_out as int * reserve_in as int == reserve_in as int * reserve_out as int)
        by (nonlinear_arith);
}

/// A swap never pays out the whole output reserve: the output is positive
/// and strictly below the reserve, and no input is refused as draining it.
pub proof fn lemma_swap_output_below_reserve(
    amount_in: u64,
    reserve_in: u64,
    reserve_out: u64,
    fee_numerator: u64,
    fee_denominator: u64,
)
    ensures
        swap_output(amount_in, reserve_in, reserve_out, fee_numerator, fee_denominator)
            != Err::<(u64, u64), AmmError>(AmmError::InsufficientLiquidity),
        swap_output(
            amount_in,
            reserve_in,
            reserve_out,
            fee_numerator,
            fee_denominator,
        ) matches Ok((amount_out, fee_amount)) ==> 0 < amount_out < reserve_out && fee_amount
            <= amount_in,
{
    if reserve_in > 0 && fee_denominator > 0 {
        let fee: int = swap_fee(amount_in, fee_numerator, fee_denominator);
        assert(0 <= fee) by (nonlinear_arith)
            requires
                fee == (amount_in as int * fee_numerator as int) / (fee_denominator as int),
                fee_denominator > 0,
        ;
        if fee <= amount_in {
            lemma_curve_output_bounds(amount_in - fee, reserve_in, reserve_out);
        }
    }
}

/// The integer square root of a perfect square is its root.
pub proof fn lemma_integer_sqrt_of_square(r: nat)
    ensures
        integer_sqrt(r * r) == r,
{
    assert(is_integer_sqrt(r, r * r)) by (nonlinear_arith);
    lemma_integer_sqrt_is(r, r * r);
}

/// The integer square root is the floor of the true root: its square does
/// not exceed the argument, and the square of the next number does.
pub proof fn lemma_integer_sqrt_is_floor(y: nat)
    ensures
        integer_sqrt(y) * integer_sqrt(y) <= y < (integer_sqrt(y) + 1) * (integer_sqrt(y) + 1),
{
    lemma_integer_sqrt_exists(y);
}

/// A first deposit is accepted exactly when both amounts reach
/// `MIN_INITIAL_LIQUIDITY` and their product fits 64 bits; the shares it
/// earns are then at least `MINIMUM_LIQUIDITY`.
pub proof fn lemma_initial_liquidity_at_least_minimum(amount_a: u64, amount_b: u64)
    ensures
        initial_liquidity(amount_a, amount_b) is Ok <==> amount_a >= MIN_INITIAL_LIQUIDITY
            && amount_b >= MIN_INITIAL_LIQUIDITY && amount_a * amount_b <= u64::MAX,
        initial_liquidity(amount_a, amount_b) matches Ok(liquidity) ==> liquidity
            >= MINIMUM_LIQUIDITY,
{
    if amount_a >= MIN_INITIAL_LIQUIDITY && amount_b >= MIN_INITIAL_LIQUIDITY {
        let product: int = amount_a as int * amount_b as int;
        assert(product >= 1_000_000) by (nonlinear_arith)
            requires
                product == amount_a as int * amount_b as int,
                amount_a >= 1_000,
                amount_b >= 1_000,
        ;
        assert(is_integer_sqrt(1_000, 1_000_000)) by (nonlinear_arith);
        lemma_integer_sqrt_is(1_000, 1_000_000);
        lemma_integer_sqrt_monotonic(1_000_000, product as nat);
        lemma_integer_sqrt_is_floor(product as nat);
        let root: nat = integer_sqrt(product as nat);
        assert(root <= product) by (nonlinear_arith)
            requires
                root * root <= product,
        ;
    }
}

/// A deposit is credited with the smaller of the shares its two sides would
/// earn: never more than either, and always equal to one of them.
pub proof fn lemma_liquidity_to_mint_is_minimum(
    amount_a: u64,
    amount_b: u64,
    reserve_a: u64,
    reserve_b: u64,
    total_supply: u64,
)
    requires
        liquidity_to_mint(amount_a, amount_b, reserve_a, reserve_b, total_supply) is Ok,
    ensures
        ({
            let liquidity = liquidity_to_mint(
                amount_a,
                amount_b,
                reserve_a,
                reserve_b,
                total_supply,
            )->Ok_0;
            let share_a = share_for_side(amount_a, reserve_a, total_supply);
            let share_b = share_for_side(amount_b, reserve_b, total_supply);
            &&& liquidity == min_int(share_a, share_b)
            &&& liquidity <= share_a
            &&& liquidity <= share_b
            &&& share_a != share_b ==> liquidity < share_a || liquidity < share_b
        }),
{
}

/// `floor(a * s / r) * r <= a * s`, for a positive `r`.
proof fn lemma_share_times_reserve(amount: u64, reserve: u64, total_supply: u64)
    requires
        reserve > 0,
    ensures
        0 <= share_for_side(amount, reserve, total_supply),
        share_for_side(amount, reserve, total_supply) * reserve <= amount * total_supply,
{
    let p: int = amount as int * total_supply as int;
    let d: int = reserve as int;
    assert(0 <= p) by (nonlinear_arith)
        requires
            p == amount as int * total_supply as int,
    ;
    assert(0 <= p / d && (p / d) * d <= p) by (nonlinear_arith)
        requires
            0 <= p,
            0 < d,
    ;
}

/// If `reserve * liquidity <= amount * supply` then redeeming `liquidity`
/// out of `supply` pays at most `amount`.
proof fn lemma_redeem_at_most(reserve: u64, liquidity: u64, supply: u64, amount: int)
    requires
        supply > 0,
        0 <= amount,
        reserve * liquidity <= amount * supply,
    ensures
        amount_for_share(reserve, liquidity, supply) <= amount,
{
    let p: int = reserve as int * liquidity as int;
    let d: int = supply as int;
    let q: int = p / d;
    assert(0 <= p) by (nonlinear_arith)
        requires
            p == reserve as int * liquidity as int,
    ;
    assert(q * d <= p) by (nonlinear_arith)
        requires
            q == p / d,
            0 <= p,
            0 < d,
    ;
    assert(q <= amount) by (nonlinear_arith)
        requires
            q * d <= p,
            p <= amount * d,
            0 < d,
    ;
}

/// Depositing and at once redeeming the shares earned returns no more than
/// was deposited, on either side. The redemption is made against the pool as
/// the deposit left it: the reserves and the supply each grown by what came
/// in.
pub proof fn lemma_deposit_then_withdraw_returns_no_more(
    amount_a: u64,
    amount_b: u64,
    reserve_a: u64,
    reserve_b: u64,
    total_supply: u64,
)
    requires
        liquidity_to_mint(amount_a, amount_b, reserve_a, reserve_b, total_supply) is Ok,
        reserve_a + amount_a <= u64::MAX,
        reserve_b + amount_b <= u64::MAX,
        total_supply + liquidity_to_mint(
            amount_a,
            amount_b,
            reserve_a,
            reserve_b,
            total_supply,
        )->Ok_0 <= u64::MAX,
    ensures
        ({
            let liquidity = liquidity_to_mint(
                amount_a,
                amount_b,
                reserve_a,
                reserve_b,
                total_supply,
            )->Ok_0;
            amounts_for_liquidity(
                liquidity,
                (reserve_a + amount_a) as u64,
                (reserve_b + amount_b) as u64,
                (total_supply + liquidity) as u64,
            ) matches Ok((back_a, back_b)) ==> back_a <= amount_a && back_b <= amount_b
        }),
{
    let liquidity: u64 = liquidity_to_mint(
        amount_a,
        amount_b,
        reserve_a,
        reserve_b,
        total_supply,
    )->Ok_0;
    let new_a: u64 = (reserve_a + amount_a) as u64;
    let new_b: u64 = (reserve_b + amount_b) as u64;
    let new_supply: u64 = (total_supply + liquidity) as u64;
    lemma_share_times_reserve(amount_a, reserve_a, total_supply);
    lemma_share_times_reserve(amount_b, reserve_b, total_supply);
    let l: int = liquidity as int;
    let s: int = total_supply as int;
    assert(new_a as int * l <= amount_a as int * new_supply as int) by (nonlinear_arith)
        requires
            new_a as int == reserve_a as int + amount_a as int,
            new_supply as int == s + l,
            0 <= l <= share_for_side(amount_a, reserve_a, total_supply),
            share_for_side(amount_a, reserve_a, total_supply) * reserve_a <= amount_a * s,
            0 < reserve_a,
            0 <= amount_a,
    ;
    assert(new_b as int * l <= amount_b as int * new_supply as int) by (nonlinear_arith)
        requires
            new_b as int == reserve_b as int + amount_b as int,
            new_supply as int == s + l,
            0 <= l <= share_for_side(amount_b, reserve_b, total_supply),
            share_for_side(amount_b, reserve_b, total_supply) * reserve_b <= amount_b * s,
            0 < reserve_b,
            0 <= amount_b,
    ;
    lemma_redeem_at_most(new_a, liquidity, new_supply, amount_a as int);
    lemma_redeem_at_most(new_b, liquidity, new_supply, amount_b as int);
}

/// Redeeming the shares that a deposit would earn, against the same reserves
/// and the same supply the deposit was priced at, pays no more than the
/// deposit on either side.
pub proof fn lemma_shares_earned_redeem_for_no_more(
    amount_a: u64,
    amount_b: u64,
    reserve_a: u64,
    reserve_b: u64,
    total_supply: u64,
)
    requires
        liquidity_to_mint(amount_a, amount_b, reserve_a, reserve_b, total_supply) is Ok,
    ensures
        ({
            let liquidity = liquidity_to_mint(
                amount_a,
                amount_b,
                reserve_a,
                reserve_b,
                total_supply,
            )->Ok_0;
            amounts_for_liquidity(liquidity, reserve_a, reserve_b, total_supply) matches Ok(
                (back_a, back_b),
            ) ==> back_a <= amount_a && back_b <= amount_b
        }),
{
    let liquidity: u64 = liquidity_to_mint(
        amount_a,
        amount_b,
        reserve_a,
        reserve_b,
        total_supply,
    )->Ok_0;
    lemma_share_times_reserve(amount_a, reserve_a, total_supply);
    lemma_share_times_reserve(amount_b, reserve_b, total_supply);
    let l: int = liquidity as int;
    let s: int = total_supply as int;
    assert(reserve_a as int * l <= amount_a as int * s) by (nonlinear_arith)
        requires
            0 <= l <= share_for_side(amount_a, reserve_a, total_supply),
            share_for_side(amount_a, reserve_a, total_supply) * reserve_a <= amount_a * s,
            0 < reserve_a,
    ;
    assert(reserve_b as int * l <= amount_b as int * s) by (nonlinear_arith)
        requires
            0 <= l <= share_for_side(amount_b, reserve_b, total_supply),
            share_for_side(amount_b, reserve_b, total_supply) * reserve_b <= amount_b * s,
            0 < reserve_b,
    ;
    lemma_redeem_at_most(reserve_a, liquidity, total_supply, amount_a as int);
    lemma_redeem_at_most(reserve_b, liquidity, total_supply, amount_b as int);
}

/// Redeeming all or part of the shares of the first deposit, against the
/// pool it created, pays no more than that deposit on either side.
pub proof fn lemma_first_deposit_redeems_for_no_more(
    amount_a: u64,
    amount_b: u64,
    liquidity: u64,
)
    requires
        initial_liquidity(amount_a, amount_b) is Ok,
    ensures
        amounts_for_liquidity(
            liquidity,
            amount_a,
            amount_b,
            initial_liquidity(amount_a, amount_b)->Ok_0,
        ) matches Ok((back_a, back_b)) ==> back_a <= amount_a && back_b <= amount_b,
{
    let supply: u64 = initial_liquidity(amount_a, amount_b)->Ok_0;
    if 0 < liquidity <= supply {
        crate::math::lemma_amount_for_share_bounded(amount_a, liquidity, supply);
        crate::math::lemma_amount_for_share_bounded(amount_b, liquidity, supply);
    }
}

/// A redemption never raises the product of the reserves, and never pays
/// more than a reserve holds.
pub proof fn lemma_withdrawal_within_reserves(
    liquidity: u64,
    reserve_a: u64,
    reserve_b: u64,
    total_supply: u64,
)
    requires
        amounts_for_liquidity(liquidity, reserve_a, reserve_b, total_supply) is Ok,
    ensures
        ({
            let (amount_a, amount_b) = amounts_for_liquidity(
                liquidity,
                reserve_a,
                reserve_b,
                total_supply,
            )->Ok_0;
            &&& 0 < amount_a <= reserve_a
            &&& 0 < amount_b <= reserve_b
            &&& invariant_product((reserve_a - amount_a) as u64, (reserve_b - amount_b) as u64)
                <= invariant_product(reserve_a, reserve_b)
        }),
{
    crate::math::lemma_amount_for_share_bounded(reserve_a, liquidity, total_supply);
    crate::math::lemma_amount_for_share_bounded(reserve_b, liquidity, total_supply);
    let (amount_a, amount_b) = amounts_for_liquidity(
        liquidity,
        reserve_a,
        reserve_b,
        total_supply,
    )->Ok_0;
    let a: int = reserve_a as int - amount_a as int;
    let b: int = reserve_b as int - amount_b as int;
    assert(a * b <= reserve_a as int * reserve_b as int) by (nonlinear_arith)
        requires
            0 <= a <= reserve_a as int,
            0 <= b <= reserve_b as int,
    ;
}

/// The shares locked by a deposit into `pool`: `MINIMUM_LIQUIDITY` for the
/// first one, nothing afterwards.
pub open spec fn locked_by_deposit(pool: Pool) -> int {
    if pool.initialized() {
        0
    } else {
        MINIMUM_LIQUIDITY as int
    }
}

/// Whoever deposits into a pool and at once redeems the shares received
/// gets back no more than the deposit, on either side, whatever minimum was
/// asked for on the way.
pub proof fn lemma_deposit_then_withdraw_from_pool(
    pool: Pool,
    lp_supply: u64,
    amount_a: u64,
    amount_b: u64,
    min_liquidity: u64,
    min_amount_a: u64,
    min_amount_b: u64,
    clock: Clock,
)
    requires
        pool.well_formed(),
        pool.matches_supply(lp_supply as int),
        deposit_liquidity(pool, lp_supply, amount_a, amount_b, min_liquidity) is Ok,
        lp_supply + deposit_liquidity(pool, lp_supply, amount_a, amount_b, min_liquidity)->Ok_0
            + locked_by_deposit(pool) <= u64::MAX,
    ensures
        ({
            let minted = deposit_liquidity(
                pool,
                lp_supply,
                amount_a,
                amount_b,
                min_liquidity,
            )->Ok_0;
            withdrawal_amounts(
                pool_after_deposit(pool, amount_a, amount_b, clock),
                (lp_supply + minted + locked_by_deposit(pool)) as u64,
                minted,
                min_amount_a,
                min_amount_b,
            ) matches Ok((back_a, back_b)) ==> back_a <= amount_a && back_b <= amount_b
        }),
{
    let minted: u64 = deposit_liquidity(pool, lp_supply, amount_a, amount_b, min_liquidity)->Ok_0;
    let after: Pool = pool_after_deposit(pool, amount_a, amount_b, clock);
    let supply_after: u64 = (lp_supply + minted + locked_by_deposit(pool)) as u64;
    if pool.initialized() {
        lemma_deposit_then_withdraw_returns_no_more(
            amount_a,
            amount_b,
            pool.reserve_a,
            pool.reserve_b,
            lp_supply,
        );
    } else if 0 < minted <= supply_after {
        crate::math::lemma_amount_for_share_bounded(after.reserve_a, minted, supply_after);
        crate::math::lemma_amount_for_share_bounded(after.reserve_b, minted, supply_after);
    }
}

} // verus!
