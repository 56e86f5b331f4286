use vortex::constants::{
    validate_fee, BPS_DENOMINATOR, HIGH_FEE_DENOMINATOR, HIGH_FEE_NUMERATOR, LOW_FEE_DENOMINATOR,
    LOW_FEE_NUMERATOR, MAX_FEE_BPS, MINIMUM_LIQUIDITY, MIN_FEE_BPS, MIN_INITIAL_LIQUIDITY,
    MIN_SWAP_AMOUNT, PROTOCOL_VERSION, Q64, STANDARD_FEE_DENOMINATOR, STANDARD_FEE_NUMERATOR,
};

#[test]
fn constants_have_their_values() {
    assert_eq!(BPS_DENOMINATOR, 10_000);
    assert_eq!(Q64, 1u128 << 64);
    assert_eq!(MINIMUM_LIQUIDITY, 1_000);
    assert_eq!(MAX_FEE_BPS, 1_000);
    assert_eq!(MIN_FEE_BPS, 1);
    assert_eq!(MIN_SWAP_AMOUNT, 100);
    assert_eq!(MIN_INITIAL_LIQUIDITY, 1_000);
    assert_eq!(PROTOCOL_VERSION, 1);
}

#[test]
fn validate_fee_accepts_one_percent() {
    assert!(validate_fee(1, 100));
}

#[test]
fn validate_fee_rejects_a_zero_denominator() {
    assert!(!validate_fee(1, 0));
    assert!(!validate_fee(0, 0));
}

#[test]
fn validate_fee_rejects_twenty_percent() {
    assert!(!validate_fee(2000, 10000));
}

#[test]
fn validate_fee_accepts_the_named_tiers() {
    assert!(validate_fee(STANDARD_FEE_NUMERATOR, STANDARD_FEE_DENOMINATOR));
    assert!(validate_fee(LOW_FEE_NUMERATOR, LOW_FEE_DENOMINATOR));
    assert!(validate_fee(HIGH_FEE_NUMERATOR, HIGH_FEE_DENOMINATOR));
}

#[test]
fn validate_fee_at_the_edges_of_the_range() {
    assert!(validate_fee(1, 10_000));
    assert!(!validate_fee(1, 10_001));
    assert!(!validate_fee(0, 10_000));
    assert!(validate_fee(1_000, 10_000));
    assert!(validate_fee(10_009, 100_000));
    assert!(!validate_fee(1_001, 10_000));
    assert!(validate_fee(1, 10));
}

#[test]
fn validate_fee_with_numerators_beyond_64_bits_when_scaled() {
    assert!(!validate_fee(u64::MAX, u64::MAX));
    assert!(!validate_fee(u64::MAX, 1));
    assert!(!validate_fee(1 << 60, 1 << 63));
    assert!(validate_fee(1 << 60, u64::MAX));
}
