//! A resumable, compute-budget-bounded background processor for fast unstaking.
//!
//! Accounts register into a pending queue; an idle-tick scheduler promotes one
//! account at a time into an active slot, incrementally confirms that the
//! account is clean over a sliding window of eras, and finally hands the
//! account to the host's finalize-and-unstake step. Every tick respects the
//! compute budget it is given and an external busy signal.
//!
//! The host's collaborators (staking ledger lookups, per-era verification,
//! the finalize call, the busy signal, entropy for queue promotion) are
//! supplied to each operation as plain values; the state machine itself is
//! fully verified.

pub mod laws;
pub mod machine;
pub mod model;
pub mod randomness;
pub mod types;
