use vstd::prelude::*;
use crate::address::Address;
use crate::constants::{fee_is_valid, fee_rate_bps, BPS_DENOMINATOR, Q64};
use crate::math::{invariant_product, lemma_product_fits_u128};

verus! {

/// The record of one liquidity pool: its two reserves, its fee, and what it
/// has traded so far.
#[derive(Clone, Copy, Debug, PartialEq, Eq)]
pub struct Pool {
    /// Version of the record's format.
    pub version: u8,
    /// Bump seed of the pool's own address.
    pub bump: u8,
    /// Bump seed of the address that may issue shares.
    pub lp_mint_authority_bump: u8,
    /// Asset A.
    pub token_a_mint: Address,
    /// Asset B.
    pub token_b_mint: Address,
    /// The account that holds the pool's asset A.
    pub token_a_vault: Address,
    /// The account that holds the pool's asset B.
    pub token_b_vault: Address,
    /// The asset that stands for shares of the pool.
    pub lp_mint: Address,
    /// Reserve of asset A.
    pub reserve_a: u64,
    /// Reserve of asset B.
    pub reserve_b: u64,
    /// Fee numerator (3 for 0.3% with a denominator of 1000).
    pub fee_numerator: u64,
    /// Fee denominator.
    pub fee_denominator: u64,
    /// Who created the pool.
    pub authority: Address,
    /// Emergency stop: a paused pool takes no deposits and no swaps.
    pub paused: bool,
    /// Number of swaps made.
    pub total_swaps: u64,
    /// Asset A moved by swaps, in and out.
    pub cumulative_volume_a: u64,
    /// Asset B moved by swaps, in and out.
    pub cumulative_volume_b: u64,
    /// Fees withheld in asset A.
    pub cumulative_fees_a: u64,
    /// Fees withheld in asset B.
    pub cumulative_fees_b: u64,
    /// When the pool was created.
    pub created_at: i64,
    /// When the last swap was made.
    pub last_swap_timestamp: i64,
    /// The ledger's slot at the last change.
    pub last_update_slot: u64,
}

/// `x + y`, held at `u64::MAX` where the sum would pass it.
pub open spec fn saturating_sum(x: u64, y: u64) -> u64 {
    if x + y > u64::MAX {
        u64::MAX
    } else {
        (x + y) as u64
    }
}

/// The price of one unit of the `base` asset in units of the `quote` asset,
/// as a fixed-point number with 64 fractional bits:
/// `floor(quote * 2^64 / base)`, and 0 for an empty `base` reserve.
pub open spec fn price_q64(base_reserve: u64, quote_reserve: u64) -> int {
    if base_reserve == 0 {
        0
    } else {
        (quote_reserve as int * Q64 as int) / (base_reserve as int)
    }
}

impl Pool {
    /// A pool holds either both reserves or neither, and charges an
    /// admissible fee.
    pub open spec fn well_formed(&self) -> bool {
        &&& self.reserve_a == 0 <==> self.reserve_b == 0
        &&& fee_is_valid(self.fee_numerator, self.fee_denominator)
    }

    /// Both reserves are positive.
    pub open spec fn initialized(&self) -> bool {
        self.reserve_a > 0 && self.reserve_b > 0
    }

    /// Shares are in issue exactly while the pool holds both reserves.
    pub open spec fn matches_supply(&self, lp_supply: int) -> bool {
        lp_supply > 0 <==> self.initialized()
    }

    /// The product of the two reserves.
    pub open spec fn product(&self) -> int {
        invariant_product(self.reserve_a, self.reserve_b)
    }

    /// The fee in basis points, and 0 for a zero denominator.
    pub open spec fn fee_basis_points(&self) -> int {
        if self.fee_denominator == 0 {
            0
        } else {
            fee_rate_bps(self.fee_numerator, self.fee_denominator)
        }
    }

    /// This pool with other reserves.
    pub open spec fn with_reserves(self, reserve_a: u64, reserve_b: u64) -> Pool {
        Pool { reserve_a, reserve_b, ..self }
    }

    /// This pool after one more swap has been counted.
    pub open spec fn with_swap_recorded(
        self,
        volume_a: u64,
        volume_b: u64,
        fee_a: u64,
        fee_b: u64,
        timestamp: i64,
        slot: u64,
    ) -> Pool {
        Pool {
            total_swaps: saturating_sum(self.total_swaps, 1),
            cumulative_volume_a: saturating_sum(self.cumulative_volume_a, volume_a),
            cumulative_volume_b: saturating_sum(self.cumulative_volume_b, volume_b),
            cumulative_fees_a: saturating_sum(self.cumulative_fees_a, fee_a),
            cumulative_fees_b: saturating_sum(self.cumulative_fees_b, fee_b),
            last_swap_timestamp: timestamp,
            last_update_slot: slot,
            ..self
        }
    }

    /// Check if the pool is initialized.
    pub fn is_initialized(&self) -> (r: bool)
        ensures
            r == self.initialized(),
    {
        self.reserve_a > 0 && self.reserve_b > 0
    }

    /// Current price of asset A in asset B, with 64 fractional bits.
    pub fn price_a(&self) -> (price: u128)
        ensures
            price == price_q64(self.reserve_a, self.reserve_b),
            self.reserve_a == 0 ==> price == 0,
    {
        if self.reserve_a == 0 {
            return 0;
        }
        wide_ratio(self.reserve_b, self.reserve_a)
    }

    /// Current price of asset B in asset A, with 64 fractional bits.
    pub fn price_b(&self) -> (price: u128)
        ensures
            price == price_q64(self.reserve_b, self.reserve_a),
            self.reserve_b == 0 ==> price == 0,
    {
        if self.reserve_b == 0 {
            return 0;
        }
        wide_ratio(self.reserve_a, self.reserve_b)
    }

    /// The invariant `k = reserve_a * reserve_b`.
    pub fn k(&self) -> (k: u128)
        ensures
            k == self.product(),
    {
        proof {
            lemma_product_fits_u128(self.reserve_a, self.reserve_b);
        }
        (self.reserve_a as u128) * (self.reserve_b as u128)
    }

    /// The fee in basis points.
    pub fn fee_bps(&self) -> (bps: u64)
        requires
            self.fee_basis_points() <= u64::MAX,
        ensures
            bps == self.fee_basis_points(),
    {
        if self.fee_denominator == 0 {
            return 0;
        }
        proof {
            lemma_product_fits_u128(self.fee_numerator, BPS_DENOMINATOR);
        }
        let scaled: u128 = (self.fee_numerator as u128) * (BPS_DENOMINATOR as u128);
        let bps: u128 = scaled / (self.fee_denominator as u128);
        bps as u64
    }

    /// Whether the recorded reserves equal the balances of the two vaults.
    pub fn validate_reserves(&self, vault_a_balance: u64, vault_b_balance: u64) -> (r: bool)
        ensures
            r == (self.reserve_a == vault_a_balance && self.reserve_b == vault_b_balance),
    {
        self.reserve_a == vault_a_balance && self.reserve_b == vault_b_balance
    }

    /// Overwrite the reserves. Nothing is checked: the new values are the
    /// caller's to validate.
    pub fn update_reserves(&mut self, new_reserve_a: u64, new_reserve_b: u64)
        ensures
            *final(self) == old(self).with_reserves(new_reserve_a, new_reserve_b),
            old(self).well_formed() && (new_reserve_a == 0 <==> new_reserve_b == 0)
                ==> final(self).well_formed(),
    {
        self.reserve_a = new_reserve_a;
        self.reserve_b = new_reserve_b;
    }

    /// Count one swap in the pool's statistics. The counters stop at
    /// `u64::MAX`; the two markers are stored as given.
    pub fn record_swap(
        &mut self,
        volume_a: u64,
        volume_b: u64,
        fee_a: u64,
        fee_b: u64,
        timestamp: i64,
        slot: u64,
    )
        ensures
            *final(self) == old(self).with_swap_recorded(
                volume_a,
                volume_b,
                fee_a,
                fee_b,
                timestamp,
                slot,
            ),
            final(self).total_swaps >= old(self).total_swaps,
            final(self).cumulative_volume_a >= old(self).cumulative_volume_a,
            final(self).cumulative_volume_b >= old(self).cumulative_volume_b,
            final(self).cumulative_fees_a >= old(self).cumulative_fees_a,
            final(self).cumulative_fees_b >= old(self).cumulative_fees_b,
            final(self).well_formed() == old(self).well_formed(),
            final(self).product() == old(self).product(),
    {
        self.total_swaps = self.total_swaps.saturating_add(1);
        self.cumulative_volume_a = self.cumulative_volume_a.saturating_add(volume_a);
        self.cumulative_volume_b = self.cumulative_volume_b.saturating_add(volume_b);
        self.cumulative_fees_a = self.cumulative_fees_a.saturating_add(fee_a);
        self.cumulative_fees_b = self.cumulative_fees_b.saturating_add(fee_b);
        self.last_swap_timestamp = timestamp;
        self.last_update_slot = slot;
    }
}

/// `floor(quote * 2^64 / base)` for a positive `base`.
fn wide_ratio(quote_reserve: u64, base_reserve: u64) -> (ratio: u128)
    requires
        base_reserve > 0,
    ensures
        ratio == price_q64(base_reserve, quote_reserve),
{
    assert(0 <= quote_reserve as int * Q64 as int <= u128::MAX as int) by (nonlinear_arith)
        requires
            0 <= quote_reserve as int <= 0xffff_ffff_ffff_ffff,
            Q64 as int == 0x1_0000_0000_0000_0000,
            u128::MAX as int == 0xffff_ffff_ffff_ffff_ffff_ffff_ffff_ffff,
    ;
    let scaled: u128 = (quote_reserve as u128) * Q64;
    scaled / (base_reserve as u128)
}

} // verus!
