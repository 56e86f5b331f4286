use vstd::prelude::*;
use crate::address::Address;
use crate::clock::Clock;
use crate::constants::{MINIMUM_LIQUIDITY, MIN_INITIAL_LIQUIDITY};
use crate::errors::AmmError;
use crate::events::LiquidityAdded;
use crate::math::{
    calculate_initial_liquidity, calculate_liquidity_to_mint, initial_liquidity,
    liquidity_to_mint,
};
use crate::state::pool::Pool;

verus! {

/// What a deposit works on: who deposits, the pool, and the shares of the
/// pool in issue.
#[derive(Clone, Copy, Debug, PartialEq, Eq)]
pub struct AddLiquidity {
    /// The depositor.
    pub user: Address,
    /// The pool's own address.
    pub pool_key: Address,
    /// The pool's record.
    pub pool: Pool,
    /// Shares in issue, as the share ledger reports them.
    pub lp_supply: u64,
}

/// What a deposit comes to.
#[derive(Clone, Copy, Debug, PartialEq, Eq)]
pub struct Deposit {
    /// The report of the deposit. Its `liquidity_minted` goes to the
    /// depositor.
    pub event: LiquidityAdded,
    /// Shares to issue and lock for ever: `MINIMUM_LIQUIDITY` on the first
    /// deposit into a pool, 0 afterwards.
    pub liquidity_locked: u64,
}

/// The shares a deposit earns the depositor, or why it is refused.
///
/// A paused pool is `PoolPaused`; a zero amount is `AmountTooSmall`. Into a
/// pool without reserves the deposit earns the geometric mean of the two
/// amounts less the locked `MINIMUM_LIQUIDITY`, as [`initial_liquidity`]
/// says; into any other pool, what [`liquidity_to_mint`] says. Shares under
/// `min_liquidity` are `SlippageExceeded`; a reserve that would pass
/// `u64::MAX` is `MathOverflow`.
pub open spec fn deposit_liquidity(
    pool: Pool,
    lp_supply: u64,
    amount_a: u64,
    amount_b: u64,
    min_liquidity: u64,
) -> Result<u64, AmmError> {
    if pool.paused {
        Err(AmmError::PoolPaused)
    } else if amount_a == 0 || amount_b == 0 {
        Err(AmmError::AmountTooSmall)
    } else {
        let priced = if !pool.initialized() {
            match initial_liquidity(amount_a, amount_b) {
                Ok(liquidity) => Ok((liquidity - MINIMUM_LIQUIDITY) as u64),
                Err(e) => Err(e),
            }
        } else {
            liquidity_to_mint(amount_a, amount_b, pool.reserve_a, pool.reserve_b, lp_supply)
        };
        match priced {
            Err(e) => Err(e),
            Ok(liquidity) => {
                if liquidity < min_liquidity {
                    Err(AmmError::SlippageExceeded)
                } else if pool.reserve_a + amount_a > u64::MAX || pool.reserve_b + amount_b
                    > u64::MAX {
                    Err(AmmError::MathOverflow)
                } else {
                    Ok(liquidity)
                }
            },
        }
    }
}

/// The pool after a deposit of `amount_a` and `amount_b`.
pub open spec fn pool_after_deposit(pool: Pool, amount_a: u64, amount_b: u64, clock: Clock) -> Pool {
    Pool {
        reserve_a: (pool.reserve_a + amount_a) as u64,
        reserve_b: (pool.reserve_b + amount_b) as u64,
        last_update_slot: clock.slot,
        ..pool
    }
}

/// Add liquidity to the pool.
///
/// On success the pool holds the new reserves, and the result names what to
/// move: both amounts from the depositor to the pool, `liquidity_minted`
/// new shares to the depositor and `liquidity_locked` new shares out of
/// anyone's reach. On failure nothing has changed.
pub fn handler(
    ctx: &mut AddLiquidity,
    amount_a: u64,
    amount_b: u64,
    min_liquidity: u64,
    clock: Clock,
) -> (r: Result<Deposit, AmmError>)
    ensures
        match r {
            Ok(deposit) => {
                &&& deposit_liquidity(
                    old(ctx).pool,
                    old(ctx).lp_supply,
                    amount_a,
                    amount_b,
                    min_liquidity,
                ) == Ok::<u64, AmmError>(deposit.event.liquidity_minted)
                &&& *final(ctx) == (AddLiquidity {
                    pool: pool_after_deposit(old(ctx).pool, amount_a, amount_b, clock),
                    ..*old(ctx)
                })
                &&& deposit.event == (LiquidityAdded {
                    pool: old(ctx).pool_key,
                    user: old(ctx).user,
                    amount_a,
                    amount_b,
                    liquidity_minted: deposit.event.liquidity_minted,
                    reserve_a: final(ctx).pool.reserve_a,
                    reserve_b: final(ctx).pool.reserve_b,
                    timestamp: clock.unix_timestamp,
                })
                &&& deposit.liquidity_locked == if old(ctx).pool.initialized() {
                    0
                } else {
                    MINIMUM_LIQUIDITY
                }
            },
            Err(e) => {
                &&& deposit_liquidity(
                    old(ctx).pool,
                    old(ctx).lp_supply,
                    amount_a,
                    amount_b,
                    min_liquidity,
                ) == Err::<u64, AmmError>(e)
                &&& *final(ctx) == *old(ctx)
            },
        },
        r matches Ok(deposit) ==> {
            &&& final(ctx).pool.initialized()
            &&& final(ctx).pool.product() >= old(ctx).pool.product()
            &&& old(ctx).pool.well_formed() ==> final(ctx).pool.well_formed()
            &&& deposit.event.liquidity_minted >= min_liquidity
            &&& deposit.event.liquidity_minted + deposit.liquidity_locked > 0
            &&& final(ctx).pool.matches_supply(
                old(ctx).lp_supply + deposit.event.liquidity_minted + deposit.liquidity_locked,
            )
        },
{
    if ctx.pool.paused {
        return Err(AmmError::PoolPaused);
    }
    if amount_a == 0 || amount_b == 0 {
        return Err(AmmError::AmountTooSmall);
    }
    let first_deposit: bool = !ctx.pool.is_initialized();
    let liquidity: u64 = if first_deposit {
        if amount_a < MIN_INITIAL_LIQUIDITY || amount_b < MIN_INITIAL_LIQUIDITY {
            return Err(AmmError::InitialLiquidityTooSmall);
        }
        let total: u64 = match calculate_initial_liquidity(amount_a, amount_b) {
            Ok(total) => total,
            Err(e) => {
                return Err(e);
            },
        };
        match total.checked_sub(MINIMUM_LIQUIDITY) {
            Some(rest) => rest,
            None => {
                return Err(AmmError::MathOverflow);
            },
        }
    } else {
        match calculate_liquidity_to_mint(
            amount_a,
            amount_b,
            ctx.pool.reserve_a,
            ctx.pool.reserve_b,
            ctx.lp_supply,
        ) {
            Ok(liquidity) => liquidity,
            Err(e) => {
                return Err(e);
            },
        }
    };
    if liquidity < min_liquidity {
        return Err(AmmError::SlippageExceeded);
    }
    let new_reserve_a: u64 = match ctx.pool.reserve_a.checked_add(amount_a) {
        Some(sum) => sum,
        None => {
            return Err(AmmError::MathOverflow);
        },
    };
    let new_reserve_b: u64 = match ctx.pool.reserve_b.checked_add(amount_b) {
        Some(sum) => sum,
        None => {
            return Err(AmmError::MathOverflow);
        },
    };
    proof {
        let a: int = ctx.pool.reserve_a as int;
        let b: int = ctx.pool.reserve_b as int;
        assert(a * b <= new_reserve_a as int * new_reserve_b as int) by (nonlinear_arith)
            requires
                0 <= a <= new_reserve_a as int,
                0 <= b <= new_reserve_b as int,
        ;
    }
    ctx.pool.reserve_a = new_reserve_a;
    ctx.pool.reserve_b = new_reserve_b;
    ctx.pool.last_update_slot = clock.slot;
    let liquidity_locked: u64 = if first_deposit {
        MINIMUM_LIQUIDITY
    } else {
        0
    };
    Ok(
        Deposit {
            event: LiquidityAdded {
                pool: ctx.pool_key,
                user: ctx.user,
                amount_a,
                amount_b,
                liquidity_minted: liquidity,
                reserve_a: ctx.pool.reserve_a,
                reserve_b: ctx.pool.reserve_b,
                timestamp: clock.unix_timestamp,
            },
            liquidity_locked,
        },
    )
}

} // verus!
