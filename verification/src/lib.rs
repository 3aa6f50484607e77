//! A staking reward accrual engine.
//!
//! Staked principal earns yield through a global, lazily advanced
//! "reward per share" counter: every mutating operation first converts the
//! blocks elapsed since the last touch into newly accrued reward (bounded by
//! a per-block rate, an APR ceiling and a funded capacity), folds it into the
//! per-share counter, and only then settles individual positions against
//! their snapshots of that counter.
//!
//! The host environment is expected to supply the current block and epoch,
//! to gate administrative calls, and to move actual tokens; the engine itself
//! is pure bookkeeping over plain integers.

pub mod custom_rewards;
pub mod engine;
pub mod errors;
pub mod position;
