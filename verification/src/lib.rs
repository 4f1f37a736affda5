//! Fee-insights pipeline for a blockchain fee-tracking service.
//!
//! The library ingests transaction-fee samples, maintains a bounded
//! in-memory history, computes rolling averages over named time windows,
//! tracks per-period extremes, detects fee spikes, assembles insight
//! snapshots, plans webhook alert dispatches, and persists samples and
//! alert events in an in-memory repository.
//!
//! All timestamps are UTC instants measured in milliseconds since the
//! Unix epoch and are handed in by the caller, so that window-based
//! logic is deterministic and testable. Real-valued quantities
//! (averages, baselines, spike ratios) are represented exactly as
//! integer rationals.

pub mod api;
pub mod buffer;
pub mod cache;
pub mod calculator;
pub mod config;
pub mod detector;
pub mod dispatch;
pub mod engine;
pub mod errors;
pub mod horizon;
pub mod metrics;
pub mod parse;
pub mod ratio;
pub mod repository;
pub mod scheduler;
pub mod sort;
pub mod store;
pub mod tracker;
pub mod types;

pub use ratio::Ratio;
