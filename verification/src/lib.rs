//! Core of a process supervisor: the registry of managed processes, the
//! restart and crash-loop policy, the supervisor tick, and the decisions of
//! the daemon's own lifecycle.
//!
//! Everything here works on plain values. Probing the operating system,
//! spawning and signalling processes, and reading or writing files are left
//! to the caller, which hands in what it observed and carries out the
//! actions that come back.

pub mod config;
pub mod daemon;
pub mod fingerprint;
pub mod policy;
pub mod registry;
pub mod supervisor;
pub mod text;
