//! Constant-product trading pair: swap pricing, liquidity-share accounting,
//! slippage guards and the pair's lifecycle, with machine-checked contracts.

pub mod asset;
pub mod collaborators;
pub mod contract;
pub mod decimal;
pub mod error;
pub mod guard;
pub mod lifecycle;
pub mod liquidity;
pub mod math;
pub mod swap;
pub mod tax;
