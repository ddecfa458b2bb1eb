//! A concurrent HTTP load-generation core.
//!
//! The library holds the verified heart of a load tester: index and delay
//! suppliers, the shared request generator that bounds the run to a fixed
//! request budget, per-worker outcome bookkeeping, the statistics merge,
//! and the report computations.  Everything that talks to the network, the
//! terminal or the command line lives outside, in the surrounding binary.

pub mod config;
pub mod draw;
pub mod report;
pub mod requestgen;
pub mod timedelay;
pub mod urlsource;
pub mod workers;
