//! Time-based expiry for a clipboard history manager.
//!
//! The library tracks how long each clipboard entry has existed across
//! repeated snapshots of an external, order-sensitive history list, decides
//! when entries expire, and computes how that external list must be rewritten
//! after removals. Pattern filtering can drop entries on sight or exempt them
//! from expiry. The binary around the library supplies snapshots, timers and
//! the transport to the external clipboard service; every decision is made
//! here, under contract.

pub mod cli;
pub mod config;
pub mod daemon;
pub mod laws;
pub mod pattern;
