use vstd::prelude::*;

verus! {

/// Every way an operation of the market maker can be refused.
#[derive(Clone, Copy, Debug, PartialEq, Eq, Structural)]
pub enum AmmError {
    /// The fee pair is not an admissible rate.
    InvalidFeeParameters,
    /// The fee exceeds the permitted maximum.
    FeeTooHigh,
    /// The pool has been set up before.
    PoolAlreadyInitialized,
    /// Both sides of the pool name the same asset.
    IdenticalTokenMints,
    /// The pool holds no reserves yet.
    PoolNotInitialized,
    /// The first deposit is below the required minimum.
    InitialLiquidityTooSmall,
    /// The deposit would be credited with no shares.
    InsufficientLiquidityMinted,
    /// The shares offered for redemption are zero or exceed the supply.
    InsufficientLiquidityBurned,
    /// The result is below the minimum the caller asked for.
    SlippageExceeded,
    /// The input is below the dust floor, or the result rounds to zero.
    AmountTooSmall,
    /// A redemption would pay out nothing on one side.
    InsufficientOutputAmount,
    /// The trade would drain the output reserve.
    InsufficientLiquidity,
    /// The swap direction is not recognised.
    InvalidSwapDirection,
    /// The requested output exceeds the reserve.
    OutputExceedsReserves,
    /// An intermediate or final value does not fit its type.
    MathOverflow,
    /// A divisor is zero.
    DivisionByZero,
    /// The product of the reserves would decrease.
    InvariantViolation,
    /// An account names the wrong asset.
    InvalidTokenMint,
    /// An account is not the pool's vault.
    InvalidVault,
    /// The recorded reserves differ from the vault balances.
    VaultBalanceMismatch,
    /// The caller may not perform this operation.
    Unauthorized,
    /// The pool is paused.
    PoolPaused,
}

impl AmmError {
    /// The text that describes this error.
    pub open spec fn message_text(self) -> Seq<char> {
        match self {
            AmmError::InvalidFeeParameters => "Invalid fee parameters"@,
            AmmError::FeeTooHigh => "Fee too high"@,
            AmmError::PoolAlreadyInitialized => "Pool already initialized"@,
            AmmError::IdenticalTokenMints => "Token mints must be different"@,
            AmmError::PoolNotInitialized => "Pool not initialized"@,
            AmmError::InitialLiquidityTooSmall => "Initial liquidity too small"@,
            AmmError::InsufficientLiquidityMinted => "Insufficient liquidity minted"@,
            AmmError::InsufficientLiquidityBurned => "Insufficient liquidity burned"@,
            AmmError::SlippageExceeded => "Slippage tolerance exceeded"@,
            AmmError::AmountTooSmall => "Amount too small"@,
            AmmError::InsufficientOutputAmount => "Insufficient output amount"@,
            AmmError::InsufficientLiquidity => "Insufficient liquidity for swap"@,
            AmmError::InvalidSwapDirection => "Invalid swap direction"@,
            AmmError::OutputExceedsReserves => "Output exceeds reserves"@,
            AmmError::MathOverflow => "Math overflow"@,
            AmmError::DivisionByZero => "Division by zero"@,
            AmmError::InvariantViolation => "Invariant violated"@,
            AmmError::InvalidTokenMint => "Invalid token mint"@,
            AmmError::InvalidVault => "Invalid vault"@,
            AmmError::VaultBalanceMismatch => "Vault balance mismatch"@,
            AmmError::Unauthorized => "Unauthorized"@,
            AmmError::PoolPaused => "Pool paused"@,
        }
    }

    /// A short description of this error, fit to show to a user.
    pub fn message(&self) -> (text: &'static str)
        ensures
            text@ == self.message_text(),
    {
        match self {
            AmmError::InvalidFeeParameters => "Invalid fee parameters",
            AmmError::FeeTooHigh => "Fee too high",
            AmmError::PoolAlreadyInitialized => "Pool already initialized",
            AmmError::IdenticalTokenMints => "Token mints must be different",
            AmmError::PoolNotInitialized => "Pool not initialized",
            AmmError::InitialLiquidityTooSmall => "Initial liquidity too small",
            AmmError::InsufficientLiquidityMinted => "Insufficient liquidity minted",
            AmmError::InsufficientLiquidityBurned => "Insufficient liquidity burned",
            AmmError::SlippageExceeded => "Slippage tolerance exceeded",
            AmmError::AmountTooSmall => "Amount too small",
            AmmError::InsufficientOutputAmount => "Insufficient output amount",
            AmmError::InsufficientLiquidity => "Insufficient liquidity for swap",
            AmmError::InvalidSwapDirection => "Invalid swap direction",
            AmmError::OutputExceedsReserves => "Output exceeds reserves",
            AmmError::MathOverflow => "Math overflow",
            AmmError::DivisionByZero => "Division by zero",
            AmmError::InvariantViolation => "Invariant violated",
            AmmError::InvalidTokenMint => "Invalid token mint",
            AmmError::InvalidVault => "Invalid vault",
            AmmError::VaultBalanceMismatch => "Vault balance mismatch",
            AmmError::Unauthorized => "Unauthorized",
            AmmError::PoolPaused => "Pool paused",
        }
    }
}

} // verus!
