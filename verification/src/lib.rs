//! Pricing and accounting core of a two-asset constant-product market maker.

pub mod address;
pub mod clock;
pub mod constants;
pub mod errors;
pub mod events;
pub mod instructions;
pub mod math;
pub mod state;
pub mod theorems;
