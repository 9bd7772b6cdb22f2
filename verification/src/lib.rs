//! Backtesting of chart-pattern trading strategies on candlestick series.
//!
//! Every price, amount and ratio is a fixed-point integer; the module
//! `fixed` names the scales. Three detectors (`patterns`, made of the scans
//! of `scans`) find double bottoms, double tops and bullish reversals in a
//! candle series. A trade factory (`strategies`) turns the detections into
//! pending trades, sized when they open (`sizing`), and a pass over the
//! series (`resolver`) settles them against the equity of the run. A sweep
//! (`backtest`) runs the strategies of a grid (`strategies_creator`) one
//! after the other and keeps their records, reporting its progress
//! (`progress`). Candles come from the exchange as decimal texts (`ingest`).

pub mod fixed;
pub mod scans;
pub mod patterns;
pub mod sizing;
pub mod strategies;
pub mod resolver;
pub mod backtest;
pub mod strategies_creator;
pub mod progress;
pub mod ingest;
