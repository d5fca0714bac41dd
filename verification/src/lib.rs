//! Core of an automated arbitrage engine for binary-outcome prediction
//! markets: order-book maintenance, a per-market normalization state
//! machine, risk gating with an irreversible safe-mode latch, and
//! dual-leg execution with partial-fill emergency compensation.
//!
//! All monetary quantities (prices, sizes, balances, percentages) are
//! fixed-point integers in micro-units: one unit of the underlying
//! quantity equals `MICRO` micro-units.

pub mod clock;
pub mod config;
pub mod execution;
pub mod feed;
pub mod fixed;
pub mod market;
pub mod orderbook;
pub mod parse;
pub mod risk;
pub mod strategy;
pub mod types;
