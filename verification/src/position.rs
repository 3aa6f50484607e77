//! Per-receipt data: a staked position and a pending unbond request.

use vstd::prelude::*;

verus! {

/// The attributes of one staking position receipt.
///
/// A position is created on stake or merge, mutated in place on claim,
/// compound and partial unstake, and destroyed on full unstake or when a
/// merge consumes it.
#[derive(Clone, Copy, Debug, PartialEq, Eq, Structural)]
pub struct PositionAttributes {
    /// The per-share counter frozen in when the position last settled; the
    /// baseline of its next reward computation.
    pub reward_per_share_at_snapshot: u128,
    /// Audit-only running total of reward ever folded back into the
    /// principal by compounding.
    pub compounded_reward: u128,
    /// The staked amount the position represents, excluding pending reward.
    pub principal_amount: u128,
    /// The account the position was minted for.
    pub original_owner: u64,
}

/// Principal waiting out the mandatory delay between an unstake request and
/// its withdrawal.
#[derive(Clone, Copy, Debug, PartialEq, Eq, Structural)]
pub struct UnbondRequest {
    /// The principal to be released.
    pub amount: u128,
    /// First epoch at which the withdrawal may go through.
    pub unlock_epoch: u64,
    /// The account the principal is released to.
    pub owner: u64,
}

} // verus!
