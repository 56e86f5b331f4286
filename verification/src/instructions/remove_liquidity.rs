use vstd::prelude::*;
use crate::address::Address;
use crate::clock::Clock;
use crate::errors::AmmError;
use crate::events::LiquidityRemoved;
use crate::math::{amounts_for_liquidity, calculate_amounts_for_liquidity};
use crate::state::pool::Pool;

verus! {

/// What a withdrawal works on: who withdraws, the pool, and the shares of
/// the pool in issue.
#[derive(Clone, Copy, Debug, PartialEq, Eq)]
pub struct RemoveLiquidity {
    /// The holder of the shares.
    pub user: Address,
    /// The pool's own address.
    pub pool_key: Address,
    /// The pool's record.
    pub pool: Pool,
    /// Shares in issue, as the share ledger reports them.
    pub lp_supply: u64,
}

/// The `(amount_a, amount_b)` that a withdrawal pays, or why it is refused.
///
/// Zero shares are `AmountTooSmall`; a pool without reserves is
/// `PoolNotInitialized`; then [`amounts_for_liquidity`] decides; an amount
/// under the caller's minimum is `SlippageExceeded`. A paused pool still
/// pays out.
pub open spec fn withdrawal_amounts(
    pool: Pool,
    lp_supply: u64,
    liquidity_amount: u64,
    min_amount_a: u64,
    min_amount_b: u64,
) -> Result<(u64, u64), AmmError> {
    if liquidity_amount == 0 {
        Err(AmmError::AmountTooSmall)
    } else if !pool.initialized() {
        Err(AmmError::PoolNotInitialized)
    } else {
        match amounts_for_liquidity(liquidity_amount, pool.reserve_a, pool.reserve_b, lp_supply) {
            Err(e) => Err(e),
            Ok((amount_a, amount_b)) => {
                if amount_a < min_amount_a || amount_b < min_amount_b {
                    Err(AmmError::SlippageExceeded)
                } else {
                    Ok((amount_a, amount_b))
                }
            },
        }
    }
}

/// The pool after a withdrawal of `amount_a` and `amount_b`.
pub open spec fn pool_after_withdrawal(
    pool: Pool,
    amount_a: u64,
    amount_b: u64,
    clock: Clock,
) -> Pool {
    Pool {
        reserve_a: (pool.reserve_a - amount_a) as u64,
        reserve_b: (pool.reserve_b - amount_b) as u64,
        last_update_slot: clock.slot,
        ..pool
    }
}

/// A proper part of the supply redeems for less than the reserve.
proof fn lemma_partial_share_leaves_reserve(reserve: u64, liquidity: u64, total_supply: u64)
    requires
        0 < reserve,
        0 < liquidity < total_supply,
    ensures
        crate::math::amount_for_share(reserve, liquidity, total_supply) < reserve,
{
    let p: int = reserve as int * liquidity as int;
    let d: int = total_supply as int;
    let r: int = reserve as int;
    let q: int = p / d;
    assert(0 <= p < r * d) by (nonlinear_arith)
        requires
            p == r * liquidity as int,
            0 < liquidity as int,
            (liquidity as int) < d,
            0 < r,
    ;
    assert(q * d <= p) by (nonlinear_arith)
        requires
            q == p / d,
            0 <= p,
            0 < d,
    ;
    assert(q < r) by (nonlinear_arith)
        requires
            q * d <= p,
            p < r * d,
            0 < d,
    ;
}

/// Redeem shares of the pool for their part of both reserves.
///
/// On success the pool holds the new reserves, and the report names what to
/// move: `liquidity_burned` shares out of issue, both amounts from the pool
/// to the holder. On failure nothing has changed.
pub fn handler(
    ctx: &mut RemoveLiquidity,
    liquidity_amount: u64,
    min_amount_a: u64,
    min_amount_b: u64,
    clock: Clock,
) -> (r: Result<LiquidityRemoved, AmmError>)
    ensures
        match r {
            Ok(event) => {
                &&& withdrawal_amounts(
                    old(ctx).pool,
                    old(ctx).lp_supply,
                    liquidity_amount,
                    min_amount_a,
                    min_amount_b,
                ) == Ok::<(u64, u64), AmmError>((event.amount_a, event.amount_b))
                &&& *final(ctx) == (RemoveLiquidity {
                    pool: pool_after_withdrawal(
                        old(ctx).pool,
                        event.amount_a,
                        event.amount_b,
                        clock,
                    ),
                    ..*old(ctx)
                })
                &&& event == (LiquidityRemoved {
                    pool: old(ctx).pool_key,
                    user: old(ctx).user,
                    liquidity_burned: liquidity_amount,
                    amount_a: event.amount_a,
                    amount_b: event.amount_b,
                    reserve_a: final(ctx).pool.reserve_a,
                    reserve_b: final(ctx).pool.reserve_b,
                    timestamp: clock.unix_timestamp,
                })
            },
            Err(e) => {
                &&& withdrawal_amounts(
                    old(ctx).pool,
                    old(ctx).lp_supply,
                    liquidity_amount,
                    min_amount_a,
                    min_amount_b,
                ) == Err::<(u64, u64), AmmError>(e)
                &&& *final(ctx) == *old(ctx)
            },
        },
        r matches Ok(event) ==> {
            &&& 0 < event.amount_a <= old(ctx).pool.reserve_a
            &&& 0 < event.amount_b <= old(ctx).pool.reserve_b
            &&& event.amount_a >= min_amount_a
            &&& event.amount_b >= min_amount_b
            &&& final(ctx).pool.product() <= old(ctx).pool.product()
            &&& old(ctx).pool.well_formed() ==> final(ctx).pool.well_formed()
            &&& liquidity_amount <= old(ctx).lp_supply
            &&& final(ctx).pool.initialized() <==> liquidity_amount < old(ctx).lp_supply
            &&& final(ctx).pool.matches_supply(old(ctx).lp_supply - liquidity_amount)
        },
{
    if liquidity_amount == 0 {
        return Err(AmmError::AmountTooSmall);
    }
    if !ctx.pool.is_initialized() {
        return Err(AmmError::PoolNotInitialized);
    }
    let (amount_a, amount_b): (u64, u64) = match calculate_amounts_for_liquidity(
        liquidity_amount,
        ctx.pool.reserve_a,
        ctx.pool.reserve_b,
        ctx.lp_supply,
    ) {
        Ok(amounts) => amounts,
        Err(e) => {
            return Err(e);
        },
    };
    if amount_a < min_amount_a {
        return Err(AmmError::SlippageExceeded);
    }
    if amount_b < min_amount_b {
        return Err(AmmError::SlippageExceeded);
    }
    let new_reserve_a: u64 = match ctx.pool.reserve_a.checked_sub(amount_a) {
        Some(rest) => rest,
        None => {
            return Err(AmmError::MathOverflow);
        },
    };
    let new_reserve_b: u64 = match ctx.pool.reserve_b.checked_sub(amount_b) {
        Some(rest) => rest,
        None => {
            return Err(AmmError::MathOverflow);
        },
    };
    proof {
        let a: int = ctx.pool.reserve_a as int;
        let b: int = ctx.pool.reserve_b as int;
        assert(new_reserve_a as int * new_reserve_b as int <= a * b) by (nonlinear_arith)
            requires
                0 <= new_reserve_a as int <= a,
                0 <= new_reserve_b as int <= b,
        ;
        if liquidity_amount < ctx.lp_supply {
            lemma_partial_share_leaves_reserve(
                ctx.pool.reserve_a,
                liquidity_amount,
                ctx.lp_supply,
            );
            lemma_partial_share_leaves_reserve(
                ctx.pool.reserve_b,
                liquidity_amount,
                ctx.lp_supply,
            );
        } else {
            let d: int = ctx.lp_supply as int;
            assert((a * d) / d == a && (b * d) / d == b) by (nonlinear_arith)
                requires
                    0 < d,
            ;
        }
    }
    ctx.pool.reserve_a = new_reserve_a;
    ctx.pool.reserve_b = new_reserve_b;
    ctx.pool.last_update_slot = clock.slot;
    Ok(
        LiquidityRemoved {
            pool: ctx.pool_key,
            user: ctx.user,
            liquidity_burned: liquidity_amount,
            amount_a,
            amount_b,
            reserve_a: ctx.pool.reserve_a,
            reserve_b: ctx.pool.reserve_b,
            timestamp: clock.unix_timestamp,
        },
    )
}

} // verus!
