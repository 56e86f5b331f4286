pub mod pool;

pub use pool::Pool;
