use vortex::address::Address;
use vortex::clock::Clock;
use vortex::errors::AmmError;
use vortex::events::{LiquidityAdded, LiquidityRemoved, PoolCreated, SwapExecuted};
use vortex::instructions::add_liquidity::Deposit;
use vortex::instructions::{add_liquidity, initialize_pool, remove_liquidity, swap};
use vortex::instructions::{AddLiquidity, InitializePool, RemoveLiquidity, Swap};
use vortex::state::Pool;

const MINT_A: u8 = 1;
const MINT_B: u8 = 2;
const POOL: u8 = 10;
const USER: u8 = 20;

fn key(tag: u8) -> Address {
    Address::new([tag; 32])
}

fn now() -> Clock {
    Clock { unix_timestamp: 1_700_000_500, slot: 900 }
}

fn creation() -> InitializePool {
    InitializePool {
        authority: key(6),
        token_a_mint: key(MINT_A),
        token_b_mint: key(MINT_B),
        pool_key: key(POOL),
        pool_bump: 254,
        token_a_vault: key(3),
        token_b_vault: key(4),
        lp_mint: key(5),
        lp_mint_authority_bump: 253,
    }
}

fn empty_pool() -> Pool {
    let clock = Clock { unix_timestamp: 1_700_000_000, slot: 42 };
    initialize_pool::handler(&creation(), 3, 1000, clock).unwrap().0
}

fn funded_pool(reserve_a: u64, reserve_b: u64) -> Pool {
    let mut pool = empty_pool();
    pool.update_reserves(reserve_a, reserve_b);
    pool
}

#[test]
fn initialize_pool_creates_an_empty_pool() {
    let clock = Clock { unix_timestamp: 1_700_000_000, slot: 42 };
    let (pool, event) = initialize_pool::handler(&creation(), 3, 1000, clock).unwrap();
    assert_eq!(
        pool,
        Pool {
            version: 1,
            bump: 254,
            lp_mint_authority_bump: 253,
            token_a_mint: key(MINT_A),
            token_b_mint: key(MINT_B),
            token_a_vault: key(3),
            token_b_vault: key(4),
            lp_mint: key(5),
            reserve_a: 0,
            reserve_b: 0,
            fee_numerator: 3,
            fee_denominator: 1000,
            authority: key(6),
            paused: false,
            total_swaps: 0,
            cumulative_volume_a: 0,
            cumulative_volume_b: 0,
            cumulative_fees_a: 0,
            cumulative_fees_b: 0,
            created_at: 1_700_000_000,
            last_swap_timestamp: 0,
            last_update_slot: 42,
        }
    );
    assert_eq!(
        event,
        PoolCreated {
            pool: key(POOL),
            token_a_mint: key(MINT_A),
            token_b_mint: key(MINT_B),
            fee_numerator: 3,
            fee_denominator: 1000,
            timestamp: 1_700_000_000,
        }
    );
    assert!(!pool.is_initialized());
}

#[test]
fn initialize_pool_rejects_identical_mints() {
    let mut ctx = creation();
    ctx.token_b_mint = key(MINT_A);
    assert_eq!(
        initialize_pool::handler(&ctx, 3, 1000, now()),
        Err(AmmError::IdenticalTokenMints)
    );
    // The mints are looked at before the fee.
    assert_eq!(initialize_pool::handler(&ctx, 1, 0, now()), Err(AmmError::IdenticalTokenMints));
}

#[test]
fn initialize_pool_rejects_an_inadmissible_fee() {
    assert_eq!(
        initialize_pool::handler(&creation(), 1, 0, now()),
        Err(AmmError::InvalidFeeParameters)
    );
    assert_eq!(
        initialize_pool::handler(&creation(), 2000, 10000, now()),
        Err(AmmError::InvalidFeeParameters)
    );
    assert_eq!(
        initialize_pool::handler(&creation(), 0, 1000, now()),
        Err(AmmError::InvalidFeeParameters)
    );
    assert!(initialize_pool::handler(&creation(), 1, 100, now()).is_ok());
}

#[test]
fn first_deposit_locks_the_minimum_liquidity() {
    let mut ctx = AddLiquidity { user: key(USER), pool_key: key(POOL), pool: empty_pool(), lp_supply: 0 };
    let deposit = add_liquidity::handler(&mut ctx, 10_000, 40_000, 0, now()).unwrap();
    assert_eq!(
        deposit,
        Deposit {
            event: LiquidityAdded {
                pool: key(POOL),
                user: key(USER),
                amount_a: 10_000,
                amount_b: 40_000,
                liquidity_minted: 19_000,
                reserve_a: 10_000,
                reserve_b: 40_000,
                timestamp: 1_700_000_500,
            },
            liquidity_locked: 1_000,
        }
    );
    assert_eq!(ctx.pool.reserve_a, 10_000);
    assert_eq!(ctx.pool.reserve_b, 40_000);
    assert_eq!(ctx.pool.last_update_slot, 900);
    assert_eq!(ctx.lp_supply, 0);
    assert!(ctx.pool.is_initialized());
    let mut expected = empty_pool();
    expected.reserve_a = 10_000;
    expected.reserve_b = 40_000;
    expected.last_update_slot = 900;
    assert_eq!(ctx.pool, expected);
}

#[test]
fn first_deposit_of_the_smallest_amounts_mints_nothing_to_the_depositor() {
    let mut ctx = AddLiquidity { user: key(USER), pool_key: key(POOL), pool: empty_pool(), lp_supply: 0 };
    let deposit = add_liquidity::handler(&mut ctx, 1_000, 1_000, 0, now()).unwrap();
    assert_eq!(deposit.event.liquidity_minted, 0);
    assert_eq!(deposit.liquidity_locked, 1_000);
}

#[test]
fn first_deposit_below_the_minimum_is_refused() {
    let before = AddLiquidity { user: key(USER), pool_key: key(POOL), pool: empty_pool(), lp_supply: 0 };
    let mut ctx = before;
    assert_eq!(
        add_liquidity::handler(&mut ctx, 999, 40_000, 0, now()),
        Err(AmmError::InitialLiquidityTooSmall)
    );
    assert_eq!(
        add_liquidity::handler(&mut ctx, 40_000, 999, 0, now()),
        Err(AmmError::InitialLiquidityTooSmall)
    );
    assert_eq!(
        add_liquidity::handler(&mut ctx, 1 << 32, 1 << 32, 0, now()),
        Err(AmmError::MathOverflow)
    );
    assert_eq!(ctx, before);
}

#[test]
fn deposit_of_nothing_is_too_small() {
    let before =
        AddLiquidity { user: key(USER), pool_key: key(POOL), pool: funded_pool(10_000, 40_000), lp_supply: 20_000 };
    let mut ctx = before;
    assert_eq!(add_liquidity::handler(&mut ctx, 0, 40_000, 0, now()), Err(AmmError::AmountTooSmall));
    assert_eq!(add_liquidity::handler(&mut ctx, 10_000, 0, 0, now()), Err(AmmError::AmountTooSmall));
    assert_eq!(ctx, before);
}

#[test]
fn deposit_into_a_paused_pool_is_refused() {
    let mut pool = funded_pool(10_000, 40_000);
    pool.paused = true;
    let before = AddLiquidity { user: key(USER), pool_key: key(POOL), pool, lp_supply: 20_000 };
    let mut ctx = before;
    assert_eq!(add_liquidity::handler(&mut ctx, 0, 0, 0, now()), Err(AmmError::PoolPaused));
    assert_eq!(add_liquidity::handler(&mut ctx, 1_000, 4_000, 0, now()), Err(AmmError::PoolPaused));
    assert_eq!(ctx, before);
}

#[test]
fn later_deposit_earns_the_smaller_share() {
    let mut ctx =
        AddLiquidity { user: key(USER), pool_key: key(POOL), pool: funded_pool(10_000, 40_000), lp_supply: 20_000 };
    let deposit = add_liquidity::handler(&mut ctx, 1_000, 8_000, 2_000, now()).unwrap();
    assert_eq!(
        deposit,
        Deposit {
            event: LiquidityAdded {
                pool: key(POOL),
                user: key(USER),
                amount_a: 1_000,
                amount_b: 8_000,
                liquidity_minted: 2_000,
                reserve_a: 11_000,
                reserve_b: 48_000,
                timestamp: 1_700_000_500,
            },
            liquidity_locked: 0,
        }
    );
    assert_eq!(ctx.pool.reserve_a, 11_000);
    assert_eq!(ctx.pool.reserve_b, 48_000);
}

#[test]
fn later_deposit_under_the_asked_minimum_exceeds_slippage() {
    let before =
        AddLiquidity { user: key(USER), pool_key: key(POOL), pool: funded_pool(10_000, 40_000), lp_supply: 20_000 };
    let mut ctx = before;
    assert_eq!(
        add_liquidity::handler(&mut ctx, 1_000, 8_000, 2_001, now()),
        Err(AmmError::SlippageExceeded)
    );
    assert_eq!(ctx, before);
}

#[test]
fn later_deposit_without_supply_or_beyond_the_reserves_is_refused() {
    let mut ctx =
        AddLiquidity { user: key(USER), pool_key: key(POOL), pool: funded_pool(10_000, 40_000), lp_supply: 0 };
    assert_eq!(
        add_liquidity::handler(&mut ctx, 1_000, 8_000, 0, now()),
        Err(AmmError::PoolNotInitialized)
    );
    ctx.lp_supply = 20_000;
    assert_eq!(
        add_liquidity::handler(&mut ctx, 1, 1, 0, now()),
        Err(AmmError::InsufficientLiquidityMinted)
    );
    ctx.pool.update_reserves(u64::MAX - 10, 40_000);
    ctx.lp_supply = u64::MAX;
    let before = ctx;
    assert_eq!(
        add_liquidity::handler(&mut ctx, 11, 40_000, 0, now()),
        Err(AmmError::MathOverflow)
    );
    assert_eq!(ctx, before);
}

#[test]
fn withdrawal_pays_the_proportional_part() {
    let mut ctx = RemoveLiquidity {
        user: key(USER),
        pool_key: key(POOL),
        pool: funded_pool(11_000, 44_000),
        lp_supply: 22_000,
    };
    let event = remove_liquidity::handler(&mut ctx, 2_000, 1_000, 4_000, now()).unwrap();
    assert_eq!(
        event,
        LiquidityRemoved {
            pool: key(POOL),
            user: key(USER),
            liquidity_burned: 2_000,
            amount_a: 1_000,
            amount_b: 4_000,
            reserve_a: 10_000,
            reserve_b: 40_000,
            timestamp: 1_700_000_500,
        }
    );
    let mut expected = funded_pool(10_000, 40_000);
    expected.last_update_slot = 900;
    assert_eq!(ctx.pool, expected);
    assert_eq!(ctx.lp_supply, 22_000);
}

#[test]
fn withdrawal_of_the_whole_supply_empties_the_pool() {
    let mut ctx = RemoveLiquidity {
        user: key(USER),
        pool_key: key(POOL),
        pool: funded_pool(11_000, 44_000),
        lp_supply: 22_000,
    };
    let event = remove_liquidity::handler(&mut ctx, 22_000, 0, 0, now()).unwrap();
    assert_eq!(event.amount_a, 11_000);
    assert_eq!(event.amount_b, 44_000);
    assert_eq!(event.reserve_a, 0);
    assert_eq!(event.reserve_b, 0);
    assert!(!ctx.pool.is_initialized());
}

#[test]
fn withdrawal_from_a_paused_pool_is_allowed() {
    let mut pool = funded_pool(11_000, 44_000);
    pool.paused = true;
    let mut ctx = RemoveLiquidity { user: key(USER), pool_key: key(POOL), pool, lp_supply: 22_000 };
    assert!(remove_liquidity::handler(&mut ctx, 2_000, 0, 0, now()).is_ok());
}

#[test]
fn withdrawal_failures_leave_the_pool_unchanged() {
    let before = RemoveLiquidity {
        user: key(USER),
        pool_key: key(POOL),
        pool: funded_pool(11_000, 44_000),
        lp_supply: 22_000,
    };
    let mut ctx = before;
    assert_eq!(remove_liquidity::handler(&mut ctx, 0, 0, 0, now()), Err(AmmError::AmountTooSmall));
    assert_eq!(
        remove_liquidity::handler(&mut ctx, 22_001, 0, 0, now()),
        Err(AmmError::InsufficientLiquidityBurned)
    );
    assert_eq!(
        remove_liquidity::handler(&mut ctx, 2_000, 1_001, 4_000, now()),
        Err(AmmError::SlippageExceeded)
    );
    assert_eq!(
        remove_liquidity::handler(&mut ctx, 2_000, 1_000, 4_001, now()),
        Err(AmmError::SlippageExceeded)
    );
    assert_eq!(
        remove_liquidity::handler(&mut ctx, 1, 0, 0, now()),
        Err(AmmError::InsufficientOutputAmount)
    );
    assert_eq!(ctx, before);
    ctx.lp_supply = 0;
    assert_eq!(
        remove_liquidity::handler(&mut ctx, 1, 0, 0, now()),
        Err(AmmError::PoolNotInitialized)
    );
    ctx.pool = empty_pool();
    ctx.lp_supply = 22_000;
    assert_eq!(
        remove_liquidity::handler(&mut ctx, 1, 0, 0, now()),
        Err(AmmError::PoolNotInitialized)
    );
}

#[test]
fn swap_a_for_b() {
    let mut ctx = Swap { user: key(USER), pool_key: key(POOL), pool: funded_pool(1_000_000, 1_000_000) };
    let event = swap::handler(&mut ctx, 1_000, 996, true, now()).unwrap();
    assert_eq!(
        event,
        SwapExecuted {
            pool: key(POOL),
            user: key(USER),
            token_in: key(MINT_A),
            token_out: key(MINT_B),
            amount_in: 1_000,
            amount_out: 996,
            fee_amount: 3,
            reserve_a: 1_001_000,
            reserve_b: 999_004,
            timestamp: 1_700_000_500,
        }
    );
    let mut expected = funded_pool(1_001_000, 999_004);
    expected.total_swaps = 1;
    expected.cumulative_volume_a = 1_000;
    expected.cumulative_volume_b = 996;
    expected.cumulative_fees_a = 3;
    expected.cumulative_fees_b = 0;
    expected.last_swap_timestamp = 1_700_000_500;
    expected.last_update_slot = 900;
    assert_eq!(ctx.pool, expected);
    assert!(ctx.pool.k() >= funded_pool(1_000_000, 1_000_000).k());
}

#[test]
fn swap_b_for_a() {
    let mut ctx = Swap { user: key(USER), pool_key: key(POOL), pool: funded_pool(1_000_000, 2_000_000) };
    let event = swap::handler(&mut ctx, 1_000, 0, false, now()).unwrap();
    // fee 3, net 997, out = floor(997 * 1_000_000 / 2_000_997) = 498
    assert_eq!(
        event,
        SwapExecuted {
            pool: key(POOL),
            user: key(USER),
            token_in: key(MINT_B),
            token_out: key(MINT_A),
            amount_in: 1_000,
            amount_out: 498,
            fee_amount: 3,
            reserve_a: 999_502,
            reserve_b: 2_001_000,
            timestamp: 1_700_000_500,
        }
    );
    assert_eq!(ctx.pool.cumulative_volume_a, 498);
    assert_eq!(ctx.pool.cumulative_volume_b, 1_000);
    assert_eq!(ctx.pool.cumulative_fees_a, 0);
    assert_eq!(ctx.pool.cumulative_fees_b, 3);
    assert_eq!(ctx.pool.total_swaps, 1);
}

#[test]
fn swap_at_the_dust_floor() {
    let mut ctx = Swap { user: key(USER), pool_key: key(POOL), pool: funded_pool(1_000_000, 1_000_000) };
    let event = swap::handler(&mut ctx, 100, 0, true, now()).unwrap();
    assert_eq!(event.amount_out, 99);
    assert_eq!(event.fee_amount, 0);
    assert_eq!(ctx.pool.reserve_a, 1_000_100);
    assert_eq!(ctx.pool.reserve_b, 999_901);
}

#[test]
fn swap_failures_leave_the_pool_unchanged() {
    let before = Swap { user: key(USER), pool_key: key(POOL), pool: funded_pool(1_000_000, 1_000_000) };
    let mut ctx = before;
    assert_eq!(swap::handler(&mut ctx, 99, 0, true, now()), Err(AmmError::AmountTooSmall));
    assert_eq!(swap::handler(&mut ctx, 1_000, 997, true, now()), Err(AmmError::SlippageExceeded));
    assert_eq!(ctx, before);

    ctx.pool.paused = true;
    assert_eq!(swap::handler(&mut ctx, 99, 0, true, now()), Err(AmmError::PoolPaused));
    assert_eq!(swap::handler(&mut ctx, 1_000, 0, true, now()), Err(AmmError::PoolPaused));

    ctx.pool = empty_pool();
    assert_eq!(swap::handler(&mut ctx, 1_000, 0, true, now()), Err(AmmError::PoolNotInitialized));
    assert_eq!(swap::handler(&mut ctx, 1_000, 0, false, now()), Err(AmmError::PoolNotInitialized));

    ctx.pool = funded_pool(1_000_000, 1);
    assert_eq!(swap::handler(&mut ctx, 100, 0, true, now()), Err(AmmError::AmountTooSmall));

    ctx.pool = funded_pool(u64::MAX - 50, 1_000_000);
    let full = ctx;
    assert_eq!(swap::handler(&mut ctx, 1 << 60, 0, true, now()), Err(AmmError::MathOverflow));
    assert_eq!(ctx, full);

    ctx.pool = funded_pool(1_000_000, 1_000_000);
    ctx.pool.fee_denominator = 0;
    assert_eq!(swap::handler(&mut ctx, 1_000, 0, true, now()), Err(AmmError::DivisionByZero));
    ctx.pool.fee_numerator = 2;
    ctx.pool.fee_denominator = 1;
    assert_eq!(swap::handler(&mut ctx, 1_000, 0, true, now()), Err(AmmError::MathOverflow));
}

#[test]
fn swaps_never_lower_k_over_a_sequence() {
    let mut ctx = Swap { user: key(USER), pool_key: key(POOL), pool: funded_pool(5_000_000, 3_000_000) };
    let mut k = ctx.pool.k();
    let amounts: [u64; 8] = [100, 101, 999, 12_345, 1_000_000, 250, 77_777, 3_000_000];
    let mut i = 0;
    while i < amounts.len() {
        let a_to_b = i % 2 == 0;
        let event = swap::handler(&mut ctx, amounts[i], 0, a_to_b, now()).unwrap();
        assert!(event.amount_out > 0);
        let k_new = ctx.pool.k();
        assert!(k_new >= k);
        k = k_new;
        i += 1;
    }
    assert_eq!(ctx.pool.total_swaps, 8);
}

#[test]
fn deposit_then_withdraw_through_the_pool() {
    let mut deposit_ctx =
        AddLiquidity { user: key(USER), pool_key: key(POOL), pool: funded_pool(10_000, 40_000), lp_supply: 20_000 };
    let deposit = add_liquidity::handler(&mut deposit_ctx, 1_000, 8_000, 0, now()).unwrap();
    let minted = deposit.event.liquidity_minted;
    let mut withdraw_ctx = RemoveLiquidity {
        user: key(USER),
        pool_key: key(POOL),
        pool: deposit_ctx.pool,
        lp_supply: 20_000 + minted + deposit.liquidity_locked,
    };
    let event = remove_liquidity::handler(&mut withdraw_ctx, minted, 0, 0, now()).unwrap();
    assert_eq!(event.amount_a, 1_000);
    assert_eq!(event.amount_b, 4_363);
    assert!(event.amount_a <= 1_000);
    assert!(event.amount_b <= 8_000);
}

#[test]
fn first_deposit_then_withdraw_through_the_pool() {
    let mut deposit_ctx =
        AddLiquidity { user: key(USER), pool_key: key(POOL), pool: empty_pool(), lp_supply: 0 };
    let deposit = add_liquidity::handler(&mut deposit_ctx, 10_000, 40_000, 0, now()).unwrap();
    let minted = deposit.event.liquidity_minted;
    assert_eq!(minted, 19_000);
    let mut withdraw_ctx = RemoveLiquidity {
        user: key(USER),
        pool_key: key(POOL),
        pool: deposit_ctx.pool,
        lp_supply: minted + deposit.liquidity_locked,
    };
    let event = remove_liquidity::handler(&mut withdraw_ctx, minted, 0, 0, now()).unwrap();
    // 19000 of 20000 shares: 95% of each reserve.
    assert_eq!(event.amount_a, 9_500);
    assert_eq!(event.amount_b, 38_000);
    assert_eq!(withdraw_ctx.pool.reserve_a, 500);
    assert_eq!(withdraw_ctx.pool.reserve_b, 2_000);
}
