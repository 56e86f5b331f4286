use vstd::prelude::*;
use crate::address::Address;

verus! {

/// Reported when a new pool is created.
#[derive(Clone, Copy, Debug, PartialEq, Eq)]
pub struct PoolCreated {
    pub pool: Address,
    pub token_a_mint: Address,
    pub token_b_mint: Address,
    pub fee_numerator: u64,
    pub fee_denominator: u64,
    pub timestamp: i64,
}

/// Reported when liquidity is added. The reserves are those after the
/// deposit.
#[derive(Clone, Copy, Debug, PartialEq, Eq)]
pub struct LiquidityAdded {
    pub pool: Address,
    pub user: Address,
    pub amount_a: u64,
    pub amount_b: u64,
    pub liquidity_minted: u64,
    pub reserve_a: u64,
    pub reserve_b: u64,
    pub timestamp: i64,
}

/// Reported when liquidity is removed. The reserves are those after the
/// withdrawal.
#[derive(Clone, Copy, Debug, PartialEq, Eq)]
pub struct LiquidityRemoved {
    pub pool: Address,
    pub user: Address,
    pub liquidity_burned: u64,
    pub amount_a: u64,
    pub amount_b: u64,
    pub reserve_a: u64,
    pub reserve_b: u64,
    pub timestamp: i64,
}

/// Reported when a swap is made. The reserves are those after the swap.
#[derive(Clone, Copy, Debug, PartialEq, Eq)]
pub struct SwapExecuted {
    pub pool: Address,
    pub user: Address,
    pub token_in: Address,
    pub token_out: Address,
    pub amount_in: u64,
    pub amount_out: u64,
    pub fee_amount: u64,
    pub reserve_a: u64,
    pub reserve_b: u64,
    pub timestamp: i64,
}

} // verus!
