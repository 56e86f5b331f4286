use vstd::prelude::*;
use crate::address::Address;
use crate::clock::Clock;
use crate::constants::MIN_SWAP_AMOUNT;
use crate::errors::AmmError;
use crate::events::SwapExecuted;
use crate::math::{calculate_swap_output, invariant_check, swap_output, verify_invariant};
use crate::state::pool::Pool;
use crate::theorems::{lemma_swap_keeps_product, lemma_swap_passes_invariant_check};

verus! {

/// What a swap works on: who trades, and the pool traded against.
#[derive(Clone, Copy, Debug, PartialEq, Eq)]
pub struct Swap {
    /// The trader.
    pub user: Address,
    /// The pool's own address.
    pub pool_key: Address,
    /// The pool's record.
    pub pool: Pool,
}

/// The reserve the input of a swap goes to.
pub open spec fn reserve_in(pool: Pool, a_to_b: bool) -> u64 {
    if a_to_b {
        pool.reserve_a
    } else {
        pool.reserve_b
    }
}

/// The reserve the output of a swap comes from.
pub open spec fn reserve_out(pool: Pool, a_to_b: bool) -> u64 {
    if a_to_b {
        pool.reserve_b
    } else {
        pool.reserve_a
    }
}

/// The `(amount_out, fee_amount)` of a swap against `pool`, or why the swap
/// is refused.
///
/// A paused pool is `PoolPaused`; an input under the dust floor is
/// `AmountTooSmall`; a pool without reserves is `PoolNotInitialized`; then
/// the curve decides as [`swap_output`] says; an output under
/// `min_amount_out` is `SlippageExceeded`; an input reserve that would pass
/// `u64::MAX` is `MathOverflow`; new reserves with a smaller product are
/// `InvariantViolation`.
pub open spec fn swap_amounts(
    pool: Pool,
    amount_in: u64,
    min_amount_out: u64,
    a_to_b: bool,
) -> Result<(u64, u64), AmmError> {
    let r_in = reserve_in(pool, a_to_b);
    let r_out = reserve_out(pool, a_to_b);
    if pool.paused {
        Err(AmmError::PoolPaused)
    } else if amount_in < MIN_SWAP_AMOUNT {
        Err(AmmError::AmountTooSmall)
    } else if !pool.initialized() {
        Err(AmmError::PoolNotInitialized)
    } else {
        match swap_output(amount_in, r_in, r_out, pool.fee_numerator, pool.fee_denominator) {
            Err(e) => Err(e),
            Ok((amount_out, fee_amount)) => {
                if amount_out < min_amount_out {
                    Err(AmmError::SlippageExceeded)
                } else if r_in + amount_in > u64::MAX {
                    Err(AmmError::MathOverflow)
                } else if invariant_check(
                    r_in,
                    r_out,
                    (r_in + amount_in) as u64,
                    (r_out - amount_out) as u64,
                ) is Err {
                    Err(AmmError::InvariantViolation)
                } else {
                    Ok((amount_out, fee_amount))
                }
            },
        }
    }
}

/// The pool after a swap of `amount_in` for `amount_out`: the whole input
/// joins one reserve, the output leaves the other, and the swap is counted.
pub open spec fn pool_after_swap(
    pool: Pool,
    amount_in: u64,
    amount_out: u64,
    fee_amount: u64,
    a_to_b: bool,
    clock: Clock,
) -> Pool {
    if a_to_b {
        pool.with_reserves(
            (pool.reserve_a + amount_in) as u64,
            (pool.reserve_b - amount_out) as u64,
        ).with_swap_recorded(
            amount_in,
            amount_out,
            fee_amount,
            0,
            clock.unix_timestamp,
            clock.slot,
        )
    } else {
        pool.with_reserves(
            (pool.reserve_a - amount_out) as u64,
            (pool.reserve_b + amount_in) as u64,
        ).with_swap_recorded(
            amount_out,
            amount_in,
            0,
            fee_amount,
            clock.unix_timestamp,
            clock.slot,
        )
    }
}

/// The report of a swap that left the pool as `pool_after`.
pub open spec fn swap_event(
    user: Address,
    pool_key: Address,
    pool_after: Pool,
    amount_in: u64,
    amount_out: u64,
    fee_amount: u64,
    a_to_b: bool,
    clock: Clock,
) -> SwapExecuted {
    SwapExecuted {
        pool: pool_key,
        user,
        token_in: if a_to_b {
            pool_after.token_a_mint
        } else {
            pool_after.token_b_mint
        },
        token_out: if a_to_b {
            pool_after.token_b_mint
        } else {
            pool_after.token_a_mint
        },
        amount_in,
        amount_out,
        fee_amount,
        reserve_a: pool_after.reserve_a,
        reserve_b: pool_after.reserve_b,
        timestamp: clock.unix_timestamp,
    }
}

/// A swap is never refused for lowering the product of the reserves, nor
/// for draining the output reserve: what the curve yields passes both tests.
pub proof fn lemma_swap_never_violates_invariant(
    pool: Pool,
    amount_in: u64,
    min_amount_out: u64,
    a_to_b: bool,
)
    ensures
        swap_amounts(pool, amount_in, min_amount_out, a_to_b) != Err::<(u64, u64), AmmError>(
            AmmError::InvariantViolation,
        ),
        swap_amounts(pool, amount_in, min_amount_out, a_to_b) != Err::<(u64, u64), AmmError>(
            AmmError::InsufficientLiquidity,
        ),
{
    let r_in = reserve_in(pool, a_to_b);
    let r_out = reserve_out(pool, a_to_b);
    crate::theorems::lemma_swap_output_below_reserve(
        amount_in,
        r_in,
        r_out,
        pool.fee_numerator,
        pool.fee_denominator,
    );
    if swap_output(amount_in, r_in, r_out, pool.fee_numerator, pool.fee_denominator) is Ok
        && r_in + amount_in <= u64::MAX {
        lemma_swap_passes_invariant_check(
            amount_in,
            r_in,
            r_out,
            pool.fee_numerator,
            pool.fee_denominator,
        );
    }
}

/// Swap `amount_in` of one asset for the other.
///
/// On success the pool holds the new reserves and statistics, and the
/// report names the amounts to move: `amount_in` from the trader to the
/// pool, `amount_out` from the pool to the trader. On failure nothing has
/// changed.
pub fn handler(
    ctx: &mut Swap,
    amount_in: u64,
    min_amount_out: u64,
    a_to_b: bool,
    clock: Clock,
) -> (r: Result<SwapExecuted, AmmError>)
    ensures
        match r {
            Ok(event) => {
                &&& swap_amounts(old(ctx).pool, amount_in, min_amount_out, a_to_b) == Ok::<
                    (u64, u64),
                    AmmError,
                >((event.amount_out, event.fee_amount))
                &&& final(ctx).pool == pool_after_swap(
                    old(ctx).pool,
                    amount_in,
                    event.amount_out,
                    event.fee_amount,
                    a_to_b,
                    clock,
                )
                &&& final(ctx).user == old(ctx).user
                &&& final(ctx).pool_key == old(ctx).pool_key
                &&& event == swap_event(
                    old(ctx).user,
                    old(ctx).pool_key,
                    final(ctx).pool,
                    amount_in,
                    event.amount_out,
                    event.fee_amount,
                    a_to_b,
                    clock,
                )
            },
            Err(e) => {
                &&& swap_amounts(old(ctx).pool, amount_in, min_amount_out, a_to_b) == Err::<
                    (u64, u64),
                    AmmError,
                >(e)
                &&& *final(ctx) == *old(ctx)
            },
        },
        r matches Ok(event) ==> {
            &&& final(ctx).pool.product() >= old(ctx).pool.product()
            &&& final(ctx).pool.initialized()
            &&& old(ctx).pool.well_formed() ==> final(ctx).pool.well_formed()
            &&& event.amount_out >= min_amount_out
            &&& 0 < event.amount_out < reserve_out(old(ctx).pool, a_to_b)
            &&& reserve_in(final(ctx).pool, a_to_b) == reserve_in(old(ctx).pool, a_to_b)
                + amount_in
            &&& reserve_out(final(ctx).pool, a_to_b) == reserve_out(old(ctx).pool, a_to_b)
                - event.amount_out
        },
        r != Err::<SwapExecuted, AmmError>(AmmError::InvariantViolation),
        r != Err::<SwapExecuted, AmmError>(AmmError::InsufficientLiquidity),
{
    proof {
        lemma_swap_never_violates_invariant(ctx.pool, amount_in, min_amount_out, a_to_b);
    }
    if ctx.pool.paused {
        return Err(AmmError::PoolPaused);
    }
    if amount_in < MIN_SWAP_AMOUNT {
        return Err(AmmError::AmountTooSmall);
    }
    if !ctx.pool.is_initialized() {
        return Err(AmmError::PoolNotInitialized);
    }
    let (r_in, r_out): (u64, u64) = if a_to_b {
        (ctx.pool.reserve_a, ctx.pool.reserve_b)
    } else {
        (ctx.pool.reserve_b, ctx.pool.reserve_a)
    };
    let (amount_out, fee_amount): (u64, u64) = match calculate_swap_output(
        amount_in,
        r_in,
        r_out,
        ctx.pool.fee_numerator,
        ctx.pool.fee_denominator,
    ) {
        Ok(amounts) => amounts,
        Err(e) => {
            return Err(e);
        },
    };
    if amount_out < min_amount_out {
        return Err(AmmError::SlippageExceeded);
    }
    let new_in: u64 = match r_in.checked_add(amount_in) {
        Some(sum) => sum,
        None => {
            return Err(AmmError::MathOverflow);
        },
    };
    let new_out: u64 = match r_out.checked_sub(amount_out) {
        Some(rest) => rest,
        None => {
            return Err(AmmError::MathOverflow);
        },
    };
    let (new_reserve_a, new_reserve_b): (u64, u64) = if a_to_b {
        (new_in, new_out)
    } else {
        (new_out, new_in)
    };
    proof {
        lemma_swap_keeps_product(
            amount_in,
            r_in,
            r_out,
            ctx.pool.fee_numerator,
            ctx.pool.fee_denominator,
        );
        lemma_swap_passes_invariant_check(
            amount_in,
            r_in,
            r_out,
            ctx.pool.fee_numerator,
            ctx.pool.fee_denominator,
        );
    }
    match verify_invariant(ctx.pool.reserve_a, ctx.pool.reserve_b, new_reserve_a, new_reserve_b) {
        Ok(()) => {},
        Err(e) => {
            return Err(e);
        },
    }
    ctx.pool.update_reserves(new_reserve_a, new_reserve_b);
    let (volume_a, volume_b, fee_a, fee_b): (u64, u64, u64, u64) = if a_to_b {
        (amount_in, amount_out, fee_amount, 0u64)
    } else {
        (amount_out, amount_in, 0u64, fee_amount)
    };
    ctx.pool.record_swap(volume_a, volume_b, fee_a, fee_b, clock.unix_timestamp, clock.slot);
    let (token_in, token_out): (Address, Address) = if a_to_b {
        (ctx.pool.token_a_mint, ctx.pool.token_b_mint)
    } else {
        (ctx.pool.token_b_mint, ctx.pool.token_a_mint)
    };
    Ok(
        SwapExecuted {
            pool: ctx.pool_key,
            user: ctx.user,
            token_in,
            token_out,
            amount_in,
            amount_out,
            fee_amount,
            reserve_a: ctx.pool.reserve_a,
            reserve_b: ctx.pool.reserve_b,
            timestamp: clock.unix_timestamp,
        },
    )
}

} // verus!
