pub mod add_liquidity;
pub mod initialize_pool;
pub mod remove_liquidity;
pub mod swap;

pub use add_liquidity::AddLiquidity;
pub use initialize_pool::InitializePool;
pub use remove_liquidity::RemoveLiquidity;
pub use swap::Swap;
