//! A deterministic backtesting engine for historical market data.
//!
//! The engine replays a finite sequence of market events through a trading
//! strategy and produces an audited performance report: an equity curve, the
//! realized trades, drawdown and cost-adjusted profitability. Many strategy
//! parameterizations can be swept in parallel over the same read-only data.
//!
//! All prices, money amounts and dimensionless factors are fixed-point
//! integers scaled by `fixed::SCALE` (so `10_000` is `1.0`); percentages are
//! scaled the same way (so `100_000` is `10%`). This keeps every quantity
//! exact and every computation free of rounding surprises; values that would
//! leave the representable range are treated as numeric anomalies, counted
//! and recovered from, never propagated.

pub mod benchmark;
pub mod costs;
pub mod engine;
pub mod event;
pub mod fixed;
pub mod ledger;
pub mod metrics;
pub mod strategies;
pub mod strategy;
pub mod sweep;

use vstd::prelude::*;

verus! {

/// Why a run or a construction was refused.
///
/// `Configuration` covers an invalid or missing strategy parameter and an
/// invalid run configuration; it is fatal only for the one run or strategy
/// construction it concerns. `Data` covers a malformed market event handed to
/// the engine; it is propagated to the caller of a single run.
#[derive(Clone, Copy, Debug, PartialEq, Eq, Structural)]
pub enum BacktestError {
    Configuration,
    Data,
}

} // verus!
