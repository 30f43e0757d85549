//! A time-locked deposit ledger with tiered, progressively increasing rewards.
//!
//! The library holds the contract's decisions: which deposits are accepted, how
//! rewards accrue over the years of a lockup, when a claim or an unlock may be
//! paid out, and what each query answers. Storage, bank queries and message
//! encoding are left to the caller, who hands the library the stored values and
//! persists what it returns.

pub mod math;
pub mod state;
pub mod rewards;
pub mod error;
pub mod msg;
pub mod contract;
pub mod helpers;
pub mod laws;
