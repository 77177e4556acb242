//! The multiplication strategies.

pub mod accelerate;
pub mod base;
pub mod simd;
