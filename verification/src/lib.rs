//! Reconciliation core for deploying an ordered collection of item records
//! onto a remote ledger program.
//!
//! The library keeps a durable, crash-recoverable cache of which items have
//! been confirmed on chain, computes the delta between the desired item set
//! and the confirmed one, and drives an upload run that tolerates partial
//! failure and operator interruption. All decision logic is verified; the
//! network and filesystem edges live outside the library and exchange plain
//! values with it.

pub mod args;
pub mod cache;
pub mod chain;
pub mod cli;
pub mod collections;
pub mod config;
pub mod delta;
pub mod deploy;
pub mod errors;
pub mod mint;
pub mod setup;
pub mod upload;
