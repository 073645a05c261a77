//! Verified core of a read-only monitor for an on-chain token-launch program.
//!
//! The crate models the monitor's logic on plain values: SOL amounts are
//! lamports (`u64`, 1 SOL = 1_000_000_000 lamports), timestamps are epoch
//! milliseconds (`i64`), and a decoded transaction is a struct of named
//! fields. The analyzers are deterministic state machines driven by events;
//! the surrounding process feeds them log events, fetched transactions,
//! balance readings and the clock, and performs the network and disk work
//! that the library decides on.

pub mod alerts;
pub mod clock;
pub mod keyed;
pub mod order;
pub mod rug_detector;
pub mod config;
pub mod counter;
pub mod dashboard;
pub mod database;
pub mod engine;
pub mod event;
pub mod stream;
pub mod text;
pub mod token_monitor;
pub mod tx;
pub mod whale_watcher;
