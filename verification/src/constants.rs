use vstd::prelude::*;

verus! {

/// Denominator of a rate expressed in basis points (100% = 10000 bps).
pub const BPS_DENOMINATOR: u64 = 10_000;

/// Scale of the fixed-point prices a pool reports (2^64).
pub const Q64: u128 = 0x1_0000_0000_0000_0000;

/// Shares of the first deposit that stay locked for ever.
pub const MINIMUM_LIQUIDITY: u64 = 1_000;

/// Standard fee: 0.3%.
pub const STANDARD_FEE_NUMERATOR: u64 = 3;

pub const STANDARD_FEE_DENOMINATOR: u64 = 1_000;

/// Low fee: 0.05%, for closely correlated assets.
pub const LOW_FEE_NUMERATOR: u64 = 5;

pub const LOW_FEE_DENOMINATOR: u64 = 10_000;

/// High fee: 1%, for exotic pairs.
pub const HIGH_FEE_NUMERATOR: u64 = 1;

pub const HIGH_FEE_DENOMINATOR: u64 = 100;

/// Highest fee a pool may charge, in basis points (10%).
pub const MAX_FEE_BPS: u64 = 1_000;

/// Lowest fee a pool may charge, in basis points (0.01%).
pub const MIN_FEE_BPS: u64 = 1;

/// Smallest input a swap accepts (the dust floor).
pub const MIN_SWAP_AMOUNT: u64 = 100;

/// Smallest amount of either asset in the first deposit.
pub const MIN_INITIAL_LIQUIDITY: u64 = 1_000;

/// Version written into every pool record.
pub const PROTOCOL_VERSION: u8 = 1;

/// The fee rate `numerator / denominator` in basis points, rounded down.
pub open spec fn fee_rate_bps(numerator: u64, denominator: u64) -> int
    recommends
        denominator > 0,
{
    (numerator as int * BPS_DENOMINATOR as int) / (denominator as int)
}

/// Whether `numerator / denominator` is an admissible fee rate: the
/// denominator is not zero and the rate lies within
/// `[MIN_FEE_BPS, MAX_FEE_BPS]` basis points.
pub open spec fn fee_is_valid(numerator: u64, denominator: u64) -> bool {
    &&& denominator > 0
    &&& MIN_FEE_BPS as int <= fee_rate_bps(numerator, denominator) <= MAX_FEE_BPS as int
}

/// Validate fee parameters.
pub fn validate_fee(numerator: u64, denominator: u64) -> (ok: bool)
    ensures
        ok == fee_is_valid(numerator, denominator),
{
    if denominator == 0 {
        return false;
    }
    assert(numerator as int * BPS_DENOMINATOR as int <= u128::MAX as int) by (nonlinear_arith)
        requires
            numerator as int <= u64::MAX as int,
            BPS_DENOMINATOR as int == 10_000,
    ;
    let fee_bps: u128 = (numerator as u128 * BPS_DENOMINATOR as u128) / (denominator as u128);
    fee_bps >= MIN_FEE_BPS as u128 && fee_bps <= MAX_FEE_BPS as u128
}

} // verus!
