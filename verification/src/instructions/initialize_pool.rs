use vstd::prelude::*;
use crate::address::Address;
use crate::clock::Clock;
use crate::constants::{fee_is_valid, validate_fee, PROTOCOL_VERSION};
use crate::errors::AmmError;
use crate::events::PoolCreated;
use crate::state::pool::Pool;

verus! {

/// What the creation of a pool works on: the accounts the pool is bound to.
#[derive(Clone, Copy, Debug, PartialEq, Eq)]
pub struct InitializePool {
    /// Who creates the pool.
    pub authority: Address,
    /// Asset A.
    pub token_a_mint: Address,
    /// Asset B.
    pub token_b_mint: Address,
    /// The pool's own address.
    pub pool_key: Address,
    /// Bump seed of the pool's own address.
    pub pool_bump: u8,
    /// The account that will hold the pool's asset A.
    pub token_a_vault: Address,
    /// The account that will hold the pool's asset B.
    pub token_b_vault: Address,
    /// The asset that stands for shares of the pool.
    pub lp_mint: Address,
    /// Bump seed of the address that may issue shares.
    pub lp_mint_authority_bump: u8,
}

/// The record of a pool just created: bound to the given accounts, with the
/// given fee, without reserves, not paused, and with nothing traded.
pub open spec fn new_pool(
    ctx: InitializePool,
    fee_numerator: u64,
    fee_denominator: u64,
    clock: Clock,
) -> Pool {
    Pool {
        version: PROTOCOL_VERSION,
        bump: ctx.pool_bump,
        lp_mint_authority_bump: ctx.lp_mint_authority_bump,
        token_a_mint: ctx.token_a_mint,
        token_b_mint: ctx.token_b_mint,
        token_a_vault: ctx.token_a_vault,
        token_b_vault: ctx.token_b_vault,
        lp_mint: ctx.lp_mint,
        reserve_a: 0,
        reserve_b: 0,
        fee_numerator,
        fee_denominator,
        authority: ctx.authority,
        paused: false,
        total_swaps: 0,
        cumulative_volume_a: 0,
        cumulative_volume_b: 0,
        cumulative_fees_a: 0,
        cumulative_fees_b: 0,
        created_at: clock.unix_timestamp,
        last_swap_timestamp: 0,
        last_update_slot: clock.slot,
    }
}

/// Create the record of a new pool.
///
/// The two assets must differ, else `IdenticalTokenMints`; the fee must be
/// admissible, else `InvalidFeeParameters`.
pub fn handler(ctx: &InitializePool, fee_numerator: u64, fee_denominator: u64, clock: Clock) -> (r:
    Result<(Pool, PoolCreated), AmmError>)
    ensures
        ctx.token_a_mint@ == ctx.token_b_mint@ ==> r == Err::<(Pool, PoolCreated), AmmError>(
            AmmError::IdenticalTokenMints,
        ),
        ctx.token_a_mint@ != ctx.token_b_mint@ && !fee_is_valid(fee_numerator, fee_denominator)
            ==> r == Err::<(Pool, PoolCreated), AmmError>(AmmError::InvalidFeeParameters),
        ctx.token_a_mint@ != ctx.token_b_mint@ && fee_is_valid(fee_numerator, fee_denominator)
            ==> r == Ok::<(Pool, PoolCreated), AmmError>(
            (
                new_pool(*ctx, fee_numerator, fee_denominator, clock),
                PoolCreated {
                    pool: ctx.pool_key,
                    token_a_mint: ctx.token_a_mint,
                    token_b_mint: ctx.token_b_mint,
                    fee_numerator,
                    fee_denominator,
                    timestamp: clock.unix_timestamp,
                },
            ),
        ),
        r matches Ok((pool, event)) ==> pool.well_formed() && !pool.initialized()
            && pool.matches_supply(0),
{
    if ctx.token_a_mint == ctx.token_b_mint {
        return Err(AmmError::IdenticalTokenMints);
    }
    if !validate_fee(fee_numerator, fee_denominator) {
        return Err(AmmError::InvalidFeeParameters);
    }
    let pool = Pool {
        version: PROTOCOL_VERSION,
        bump: ctx.pool_bump,
        lp_mint_authority_bump: ctx.lp_mint_authority_bump,
        token_a_mint: ctx.token_a_mint,
        token_b_mint: ctx.token_b_mint,
        token_a_vault: ctx.token_a_vault,
        token_b_vault: ctx.token_b_vault,
        lp_mint: ctx.lp_mint,
        reserve_a: 0,
        reserve_b: 0,
        fee_numerator,
        fee_denominator,
        authority: ctx.authority,
        paused: false,
        total_swaps: 0,
        cumulative_volume_a: 0,
        cumulative_volume_b: 0,
        cumulative_fees_a: 0,
        cumulative_fees_b: 0,
        created_at: clock.unix_timestamp,
        last_swap_timestamp: 0,
        last_update_slot: clock.slot,
    };
    let event = PoolCreated {
        pool: ctx.pool_key,
        token_a_mint: pool.token_a_mint,
        token_b_mint: pool.token_b_mint,
        fee_numerator,
        fee_denominator,
        timestamp: clock.unix_timestamp,
    };
    Ok((pool, event))
}

} // verus!
