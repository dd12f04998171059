//! Strategies that call the next candle up or down, and what is done about their calls.
//!
//! - `binary64`, with `rounding` and `significand` below it: numbers, bit for bit.
//! - `candle`, `statistics`, `indicators`, `meters`, `clock`: what is read off candles.
//! - `features`, `ensemble`: rules that vote on those readings.
//! - `strategy`, `strategies`, `strategy_factory`, `microstructure`: the strategies.
//! - `trading_runtime`: from a signal to an order.
//! - `trajectory`, `trajectory_index`, `trajectory_analysis`: recorded sessions.

pub mod binary64;
pub mod candle;
pub mod clock;
pub mod ensemble;
pub mod exact;
pub mod features;
pub mod indicators;
pub mod meters;
pub mod microstructure;
pub mod rounding;
pub mod significand;
pub mod statistics;
pub mod strategies;
pub mod strategy;
pub mod strategy_factory;
pub mod text;
pub mod trading_runtime;
pub mod trajectory;
pub mod trajectory_analysis;
pub mod trajectory_index;
