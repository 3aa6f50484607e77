//! The global reward ledger: per-share accrual, bounded by a per-block rate,
//! an APR ceiling and a funded capacity.
//!
//! All mutating entry points of the engine advance this ledger first, so that
//! reward is always a function of elapsed blocks and never of call order
//! within a block.

use vstd::prelude::*;

verus! {

/// Basis-point denominator for the APR ceiling.
pub const MAX_PERCENT: u64 = 10_000;

/// Seconds in a year divided by the six-second block time.
pub const BLOCKS_IN_YEAR: u64 = 31_536_000 / 6;

/// Hard protocol ceiling on the configurable unbond delay, in epochs.
pub const MAX_MIN_UNBOND_EPOCHS: u64 = 30;

/// The smaller of two mathematical integers.
pub open spec fn min_int(a: int, b: int) -> int {
    if a <= b {
        a
    } else {
        b
    }
}

/// A position's payable reward: `amount * (current_rps - initial_rps) / scale`
/// when the counter has moved past the snapshot, and zero otherwise, so the
/// result is never negative.
pub open spec fn reward_amount(amount: int, current_rps: int, initial_rps: int, scale: int) -> int
    recommends
        scale >= 1,
{
    if current_rps > initial_rps {
        amount * (current_rps - initial_rps) / scale
    } else {
        0
    }
}

/// The singleton accounting state of the reward ledger.
///
/// `reward_per_share` is a fixed-point cumulative counter scaled by
/// `division_safety_constant`; `accumulated_rewards` tracks everything ever
/// accrued and is capped by `reward_capacity`, the amount actually funded.
#[derive(Clone, Copy, Debug, PartialEq, Eq, Structural)]
pub struct GlobalRewardState {
    /// Total reward accrued since genesis, after capacity clipping.
    pub accumulated_rewards: u128,
    /// Funded ceiling: accrual above it is silently discarded.
    pub reward_capacity: u128,
    /// Cumulative scaled reward per unit of staked principal.
    pub reward_per_share: u128,
    /// Reward minted per block while production is enabled.
    pub per_block_reward_amount: u128,
    /// Annual percentage ceiling, in basis points.
    pub max_apr: u128,
    /// Block at which the ledger was last advanced.
    pub last_reward_block: u64,
    /// Whether accrual is currently switched on.
    pub produce_enabled: bool,
    /// Mandatory delay between an unstake request and its unbond, in epochs.
    pub min_unbond_epochs: u64,
    /// Total principal over all live positions.
    pub staked_supply: u128,
    /// Fixed-point scale shared by the counter and every payout computation.
    pub division_safety_constant: u128,
}

impl GlobalRewardState {
    /// Internal consistency: the scale is usable as a divisor, accrual never
    /// exceeds the funded capacity, and the unbond delay respects the
    /// protocol ceiling.
    pub open spec fn wf(self) -> bool {
        &&& self.division_safety_constant >= 1
        &&& self.accumulated_rewards <= self.reward_capacity
        &&& self.min_unbond_epochs <= MAX_MIN_UNBOND_EPOCHS
    }

    /// Whether advancing at `current_block` accrues anything at all.
    pub open spec fn accrual_active(self, current_block: u64) -> bool {
        self.produce_enabled && current_block > self.last_reward_block
    }

    /// Blocks since the last advance.
    pub open spec fn elapsed_blocks(self, current_block: u64) -> int {
        current_block - self.last_reward_block
    }

    /// Reward earned from the per-block rate alone, before any bound.
    pub open spec fn unbounded_reward(self, current_block: u64) -> int {
        self.per_block_reward_amount * self.elapsed_blocks(current_block)
    }

    /// Largest reward a single block may carry under the APR ceiling.
    pub open spec fn apr_bounded_per_block(self) -> int {
        self.staked_supply * self.max_apr / (MAX_PERCENT as int) / (BLOCKS_IN_YEAR as int)
    }

    /// Reward for the elapsed blocks: the per-block rate, bounded by the APR
    /// ceiling; zero while production is off or within the same block.
    pub open spec fn block_reward(self, current_block: u64) -> int {
        if self.accrual_active(current_block) {
            min_int(
                self.unbounded_reward(current_block),
                self.apr_bounded_per_block() * self.elapsed_blocks(current_block),
            )
        } else {
            0
        }
    }

    /// Reward still coverable by the funded capacity.
    pub open spec fn headroom(self) -> int {
        self.reward_capacity - self.accumulated_rewards
    }

    /// What an advance at `current_block` actually accrues: the block reward
    /// clipped to the remaining headroom. The clipped excess is discarded for
    /// good, never carried forward.
    pub open spec fn accrued_reward(self, current_block: u64) -> int {
        min_int(self.block_reward(current_block), self.headroom())
    }

    /// How far an advance at `current_block` moves the per-share counter:
    /// the accrued reward scaled and divided among the staked supply, or
    /// nothing when no distribution target exists.
    pub open spec fn rps_increase(self, current_block: u64) -> int {
        if self.staked_supply > 0 {
            self.accrued_reward(current_block) * self.division_safety_constant / (self.staked_supply as int)
        } else {
            0
        }
    }

    /// The per-share counter after an advance at `current_block`.
    pub open spec fn rps_after_accrual(self, current_block: u64) -> int {
        self.reward_per_share + self.rps_increase(current_block)
    }

    /// The whole ledger after an advance at `current_block`.
    pub open spec fn after_accrual(self, current_block: u64) -> GlobalRewardState {
        GlobalRewardState {
            accumulated_rewards: (self.accumulated_rewards + self.accrued_reward(current_block)) as u128,
            reward_per_share: self.rps_after_accrual(current_block) as u128,
            last_reward_block: if self.accrual_active(current_block) {
                current_block
            } else {
                self.last_reward_block
            },
            ..self
        }
    }

    /// The intermediate products of the block-reward computation stay within
    /// the machine's integer range.
    pub open spec fn reward_computation_fits(self, current_block: u64) -> bool {
        self.accrual_active(current_block) ==> {
            &&& self.unbounded_reward(current_block) <= u128::MAX
            &&& self.staked_supply * self.max_apr <= u128::MAX
            &&& self.apr_bounded_per_block() * self.elapsed_blocks(current_block) <= u128::MAX
        }
    }

    /// Every intermediate value of a full advance stays within the machine's
    /// integer range.
    pub open spec fn accrual_fits(self, current_block: u64) -> bool {
        &&& self.reward_computation_fits(current_block)
        &&& self.accrued_reward(current_block) * self.division_safety_constant <= u128::MAX
        &&& self.rps_after_accrual(current_block) <= u128::MAX
    }

    /// Whether the ledger currently mints reward each block.
    pub fn produces_per_block_rewards(&self) -> (r: bool)
        ensures
            r == self.produce_enabled,
    {
        self.produce_enabled
    }

    /// `amount` scaled down to the largest reward one block may carry for it
    /// under the APR ceiling.
    pub fn get_amount_apr_bounded(&self, amount: u128) -> (r: u128)
        requires
            amount * self.max_apr <= u128::MAX,
        ensures
            r == amount * self.max_apr / (MAX_PERCENT as int) / (BLOCKS_IN_YEAR as int),
    {
        amount * self.max_apr / (MAX_PERCENT as u128) / (BLOCKS_IN_YEAR as u128)
    }

    /// Reward earned from the per-block rate between the two block counters,
    /// before the APR bound; zero while production is off.
    pub fn calculate_per_block_rewards(
        &self,
        current_block_nonce: u64,
        last_reward_block_nonce: u64,
    ) -> (r: u128)
        requires
            self.produce_enabled && current_block_nonce > last_reward_block_nonce
                ==> self.per_block_reward_amount * (current_block_nonce - last_reward_block_nonce)
                <= u128::MAX,
        ensures
            r == if self.produce_enabled && current_block_nonce > last_reward_block_nonce {
                self.per_block_reward_amount * (current_block_nonce - last_reward_block_nonce)
            } else {
                0int
            },
    {
        if current_block_nonce <= last_reward_block_nonce || !self.produces_per_block_rewards() {
            return 0;
        }
        let per_block_reward: u128 = self.per_block_reward_amount;
        let block_nonce_diff: u64 = current_block_nonce - last_reward_block_nonce;
        per_block_reward * (block_nonce_diff as u128)
    }

    /// The block reward owed since the last advance, already bounded by the
    /// APR ceiling but not yet clipped to capacity; moves `last_reward_block`
    /// forward when anything has elapsed.
    pub fn calculate_extra_rewards_since_last_allocation(&mut self, current_block: u64) -> (r: u128)
        requires
            old(self).reward_computation_fits(current_block),
        ensures
            r == old(self).block_reward(current_block),
            *final(self) == (GlobalRewardState {
                last_reward_block: if old(self).accrual_active(current_block) {
                    current_block
                } else {
                    old(self).last_reward_block
                },
                ..*old(self)
            }),
    {
        if self.produces_per_block_rewards() && current_block > self.last_reward_block {
            let extra_rewards_unbounded: u128 =
                self.calculate_per_block_rewards(current_block, self.last_reward_block);
            let farm_token_supply: u128 = self.staked_supply;
            let extra_rewards_apr_bounded_per_block: u128 =
                self.get_amount_apr_bounded(farm_token_supply);
            let block_nonce_diff: u64 = current_block - self.last_reward_block;
            let extra_rewards_apr_bounded: u128 =
                extra_rewards_apr_bounded_per_block * (block_nonce_diff as u128);
            self.last_reward_block = current_block;
            if extra_rewards_unbounded <= extra_rewards_apr_bounded {
                extra_rewards_unbounded
            } else {
                extra_rewards_apr_bounded
            }
        } else {
            0
        }
    }

    /// The scaled per-share increase a reward brings for a given supply.
    pub fn calculate_reward_per_share_increase(
        &self,
        reward_increase: u128,
        farm_token_supply: u128,
    ) -> (r: u128)
        requires
            farm_token_supply >= 1,
            reward_increase * self.division_safety_constant <= u128::MAX,
        ensures
            r == reward_increase * self.division_safety_constant / (farm_token_supply as int),
    {
        reward_increase * self.division_safety_constant / farm_token_supply
    }

    /// Folds an already clipped reward into the per-share counter; leaves the
    /// counter untouched when nothing is staked.
    pub fn update_reward_per_share(&mut self, reward_increase: u128)
        requires
            old(self).staked_supply > 0 ==> {
                &&& reward_increase * old(self).division_safety_constant <= u128::MAX
                &&& old(self).reward_per_share + reward_increase
                    * old(self).division_safety_constant / (old(self).staked_supply as int)
                    <= u128::MAX
            },
        ensures
            *final(self) == (GlobalRewardState {
                reward_per_share: (old(self).reward_per_share + if old(self).staked_supply > 0 {
                    reward_increase * old(self).division_safety_constant
                        / (old(self).staked_supply as int)
                } else {
                    0int
                }) as u128,
                ..*old(self)
            }),
            final(self).reward_per_share >= old(self).reward_per_share,
    {
        let farm_token_supply: u128 = self.staked_supply;
        if farm_token_supply > 0 {
            let increase: u128 =
                self.calculate_reward_per_share_increase(reward_increase, farm_token_supply);
            self.reward_per_share = self.reward_per_share + increase;
        }
    }

    /// The reward owed to `amount` of principal between an old per-share
    /// snapshot and the current counter, clamped to zero when the counter
    /// has not moved past the snapshot.
    pub fn calculate_reward(
        &self,
        amount: u128,
        current_reward_per_share: u128,
        initial_reward_per_share: u128,
    ) -> (r: u128)
        requires
            self.wf(),
            current_reward_per_share > initial_reward_per_share ==> amount
                * (current_reward_per_share - initial_reward_per_share) <= u128::MAX,
        ensures
            r == reward_amount(
                amount as int,
                current_reward_per_share as int,
                initial_reward_per_share as int,
                self.division_safety_constant as int,
            ),
    {
        if current_reward_per_share > initial_reward_per_share {
            let reward_per_share_diff: u128 = current_reward_per_share - initial_reward_per_share;
            amount * reward_per_share_diff / self.division_safety_constant
        } else {
            0
        }
    }

    /// Advances the ledger to `current_block`: converts elapsed blocks into
    /// reward, discards whatever exceeds the funded capacity, accumulates the
    /// rest and folds it into the per-share counter. Changes nothing while
    /// production is off or within the same block.
    pub fn generate_aggregated_rewards(&mut self, current_block: u64)
        requires
            old(self).wf(),
            old(self).accrual_fits(current_block),
        ensures
            *final(self) == old(self).after_accrual(current_block),
            final(self).wf(),
            final(self).reward_per_share >= old(self).reward_per_share,
            final(self).accumulated_rewards <= final(self).reward_capacity,
    {
        let ghost g0: GlobalRewardState = *self;
        let mut extra_rewards: u128 =
            self.calculate_extra_rewards_since_last_allocation(current_block);
        if extra_rewards > 0 {
            let accumulated_rewards: u128 = self.accumulated_rewards;
            let reward_capacity: u128 = self.reward_capacity;
            let headroom: u128 = reward_capacity - accumulated_rewards;
            if extra_rewards > headroom {
                extra_rewards = headroom;
            }
            self.accumulated_rewards = accumulated_rewards + extra_rewards;
            self.update_reward_per_share(extra_rewards);
        } else {
            proof {
                assert(g0.accrued_reward(current_block) == 0);
                assert(g0.rps_increase(current_block) == 0) by {
                    lemma_zero_reward_zero_increase(g0, current_block);
                }
            }
        }
    }
}

/// An advance that accrues nothing moves the per-share counter by nothing.
proof fn lemma_zero_reward_zero_increase(g: GlobalRewardState, current_block: u64)
    requires
        g.accrued_reward(current_block) == 0,
    ensures
        g.rps_increase(current_block) == 0,
{
    if g.staked_supply > 0 {
        assert(g.accrued_reward(current_block) * g.division_safety_constant == 0)
            by (nonlinear_arith)
            requires
                g.accrued_reward(current_block) == 0,
        ;
        assert(0int / (g.staked_supply as int) == 0) by {
            vstd::arithmetic::div_mod::lemma_div_of0(g.staked_supply as int);
        }
    }
}

/// A payable reward is never negative: truncating division of a non-negative
/// product, or the zero clamp when the counter has not moved.
pub proof fn lemma_reward_amount_nonneg(amount: int, current_rps: int, initial_rps: int, scale: int)
    requires
        amount >= 0,
        scale >= 1,
    ensures
        reward_amount(amount, current_rps, initial_rps, scale) >= 0,
{
    if current_rps > initial_rps {
        vstd::arithmetic::mul::lemma_mul_nonnegative(amount, current_rps - initial_rps);
        vstd::arithmetic::div_mod::lemma_div_pos_is_pos(
            amount * (current_rps - initial_rps),
            scale,
        );
    }
}

/// Whatever an advance accrues is never negative, and the advanced ledger is
/// well formed again, with its counters moved as the model says.
pub proof fn lemma_after_accrual_wf(g: GlobalRewardState, current_block: u64)
    requires
        g.wf(),
        g.accrual_fits(current_block),
    ensures
        0 <= g.accrued_reward(current_block) <= g.headroom(),
        0 <= g.rps_increase(current_block),
        g.after_accrual(current_block).wf(),
        g.after_accrual(current_block).accumulated_rewards == g.accumulated_rewards
            + g.accrued_reward(current_block),
        g.after_accrual(current_block).reward_per_share == g.rps_after_accrual(current_block),
        !g.after_accrual(current_block).accrual_active(current_block),
{
    if g.accrual_active(current_block) {
        let diff = g.elapsed_blocks(current_block);
        vstd::arithmetic::mul::lemma_mul_nonnegative(g.per_block_reward_amount as int, diff);
        vstd::arithmetic::mul::lemma_mul_nonnegative(g.staked_supply as int, g.max_apr as int);
        vstd::arithmetic::div_mod::lemma_div_pos_is_pos(
            (g.staked_supply as int) * (g.max_apr as int),
            MAX_PERCENT as int,
        );
        vstd::arithmetic::div_mod::lemma_div_pos_is_pos(
            (g.staked_supply as int) * (g.max_apr as int) / (MAX_PERCENT as int),
            BLOCKS_IN_YEAR as int,
        );
        vstd::arithmetic::mul::lemma_mul_nonnegative(g.apr_bounded_per_block(), diff);
    }
    if g.staked_supply > 0 {
        vstd::arithmetic::mul::lemma_mul_nonnegative(
            g.accrued_reward(current_block),
            g.division_safety_constant as int,
        );
        vstd::arithmetic::div_mod::lemma_div_pos_is_pos(
            g.accrued_reward(current_block) * (g.division_safety_constant as int),
            g.staked_supply as int,
        );
    }
}

/// Accrual is idempotent within a block: advancing an already advanced
/// ledger at the same block changes nothing, so every call landing in one
/// block observes the same per-share counter, and a position that settled —
/// its snapshot now the advanced counter — is paid zero by a repeated claim
/// or compound there.
pub proof fn lemma_settle_idempotent_within_block(
    g: GlobalRewardState,
    current_block: u64,
    principal: u128,
)
    requires
        g.wf(),
        g.accrual_fits(current_block),
    ensures
        g.after_accrual(current_block).after_accrual(current_block) == g.after_accrual(
            current_block,
        ),
        reward_amount(
            principal as int,
            g.after_accrual(current_block).rps_after_accrual(current_block),
            g.after_accrual(current_block).reward_per_share as int,
            g.division_safety_constant as int,
        ) == 0,
{
    lemma_after_accrual_wf(g, current_block);
    lemma_no_elapsed_blocks_no_reward(g.after_accrual(current_block), current_block, principal);
}

/// Within a single block the ledger is idempotent: when no block has elapsed
/// (or production is off) an advance changes nothing, and a position whose
/// snapshot already equals the current counter — as after a claim or a
/// compound — earns zero on a repeated claim or compound.
pub proof fn lemma_no_elapsed_blocks_no_reward(g: GlobalRewardState, current_block: u64, principal: u128)
    requires
        g.wf(),
        !g.accrual_active(current_block),
    ensures
        g.after_accrual(current_block) == g,
        reward_amount(
            principal as int,
            g.rps_after_accrual(current_block),
            g.reward_per_share as int,
            g.division_safety_constant as int,
        ) == 0,
{
    assert(g.accrued_reward(current_block) == 0);
    lemma_zero_reward_zero_increase(g, current_block);
}

} // verus!
