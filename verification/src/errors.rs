//! Failure reasons surfaced by the engine.

use vstd::prelude::*;

verus! {

/// Why an operation was refused. Every refusal aborts the whole call with no
/// state change; the host is expected to roll the transaction back.
#[derive(Clone, Copy, Debug, PartialEq, Eq, Structural)]
pub enum EngineError {
    /// A zero or out-of-range amount, an unknown or already consumed
    /// position or unbond request, or mismatched position attributes.
    Validation,
    /// An unbond attempted before its unlock epoch has been reached.
    Timing,
}

} // verus!
