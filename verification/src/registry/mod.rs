//! The registry of managed processes and the entries it holds.

pub mod entry;
pub mod store;
