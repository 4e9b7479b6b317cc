//! Layered configuration and secret resolution, and a cache of tool
//! permission decisions.
//!
//! The library computes on values: reading files, the process environment,
//! the system vault and the clock is the caller's part, which hands the
//! results in as plain values and writes back the texts the library returns.

pub mod config;
pub mod json;
pub mod keymap;
pub mod permission;
