//! Settings the supervisor is started with.

pub mod structs;
