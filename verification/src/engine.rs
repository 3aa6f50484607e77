//! The staking engine: an arena of positions and unbond requests around the
//! global reward ledger.
//!
//! Every mutating operation either completes in full or returns an error
//! having changed nothing — validation always happens before the first
//! write, so a refused call is indistinguishable from one never made.

use vstd::prelude::*;

use crate::custom_rewards::GlobalRewardState;
use crate::custom_rewards::MAX_MIN_UNBOND_EPOCHS;
use crate::custom_rewards::reward_amount;
use crate::errors::EngineError;
use crate::position::PositionAttributes;
use crate::position::UnbondRequest;

verus! {

/// The whole engine state: the reward ledger plus every live position and
/// pending unbond request, each addressed by the index it was created at.
/// A consumed slot stays `None` forever; identifiers are never reused.
pub struct StakingEngine {
    /// The global per-share reward ledger.
    pub global: GlobalRewardState,
    /// Position receipts; `None` marks one destroyed by a full unstake or a
    /// merge.
    pub positions: Vec<Option<PositionAttributes>>,
    /// Unbond requests; `None` marks one already withdrawn.
    pub unbond_requests: Vec<Option<UnbondRequest>>,
}

/// The principal a slot contributes to the staked supply: zero once consumed.
pub open spec fn position_principal(p: Option<PositionAttributes>) -> int {
    match p {
        Option::Some(attributes) => attributes.principal_amount as int,
        Option::None => 0,
    }
}

/// Total principal over a whole arena of position slots.
pub open spec fn sum_principals(s: Seq<Option<PositionAttributes>>) -> int
    decreases s.len(),
{
    if s.len() == 0 {
        0
    } else {
        sum_principals(s.drop_last()) + position_principal(s.last())
    }
}

/// Appending a slot adds exactly its principal to the arena total.
pub proof fn lemma_sum_principals_push(s: Seq<Option<PositionAttributes>>, p: Option<PositionAttributes>)
    ensures
        sum_principals(s.push(p)) == sum_principals(s) + position_principal(p),
{
    assert(s.push(p).drop_last() =~= s);
}

/// Overwriting one slot moves the arena total by the difference between the
/// new and the old contribution.
pub proof fn lemma_sum_principals_update(
    s: Seq<Option<PositionAttributes>>,
    i: int,
    p: Option<PositionAttributes>,
)
    requires
        0 <= i < s.len(),
    ensures
        sum_principals(s.update(i, p)) == sum_principals(s) - position_principal(s[i])
            + position_principal(p),
    decreases s.len(),
{
    if i == s.len() - 1 {
        assert(s.update(i, p).drop_last() =~= s.drop_last());
    } else {
        assert(s.update(i, p).drop_last() =~= s.drop_last().update(i, p));
        lemma_sum_principals_update(s.drop_last(), i, p);
    }
}

/// An arena total is never negative.
pub proof fn lemma_sum_principals_nonneg(s: Seq<Option<PositionAttributes>>)
    ensures
        sum_principals(s) >= 0,
    decreases s.len(),
{
    if s.len() > 0 {
        lemma_sum_principals_nonneg(s.drop_last());
    }
}

/// No single slot contributes more than the arena total.
pub proof fn lemma_position_le_sum(s: Seq<Option<PositionAttributes>>, i: int)
    requires
        0 <= i < s.len(),
    ensures
        position_principal(s[i]) <= sum_principals(s),
    decreases s.len(),
{
    if i == s.len() - 1 {
        lemma_sum_principals_nonneg(s.drop_last());
    } else {
        lemma_position_le_sum(s.drop_last(), i);
    }
}

/// The reward one slot would realize against an advanced per-share counter.
pub open spec fn position_payout_of(
    p: Option<PositionAttributes>,
    current_rps: int,
    scale: int,
) -> int {
    match p {
        Option::Some(attributes) => reward_amount(
            attributes.principal_amount as int,
            current_rps,
            attributes.reward_per_share_at_snapshot as int,
            scale,
        ),
        Option::None => 0,
    }
}

/// Total principal of a merge's input positions, in input order.
pub open spec fn merge_inputs_principal(s: Seq<Option<PositionAttributes>>, ids: Seq<usize>) -> int
    decreases ids.len(),
{
    if ids.len() == 0 {
        0
    } else {
        merge_inputs_principal(s, ids.drop_last()) + position_principal(s[ids.last() as int])
    }
}

/// Combined reward a merge's input positions realize against an advanced
/// per-share counter, in input order.
pub open spec fn merge_inputs_payout(
    s: Seq<Option<PositionAttributes>>,
    ids: Seq<usize>,
    current_rps: int,
    scale: int,
) -> int
    decreases ids.len(),
{
    if ids.len() == 0 {
        0
    } else {
        merge_inputs_payout(s, ids.drop_last(), current_rps, scale) + position_payout_of(
            s[ids.last() as int],
            current_rps,
            scale,
        )
    }
}

/// The arena after a merge has consumed its input positions, in input order.
pub open spec fn burn_positions(
    s: Seq<Option<PositionAttributes>>,
    ids: Seq<usize>,
) -> Seq<Option<PositionAttributes>>
    decreases ids.len(),
{
    if ids.len() == 0 {
        s
    } else {
        burn_positions(s, ids.drop_last()).update(
            ids.last() as int,
            None::<PositionAttributes>,
        )
    }
}

/// Consuming positions never changes the arena's length.
pub proof fn lemma_burn_positions_len(s: Seq<Option<PositionAttributes>>, ids: Seq<usize>)
    requires
        forall|k: int| 0 <= k < ids.len() ==> (#[trigger] ids[k]) < s.len(),
    ensures
        burn_positions(s, ids).len() == s.len(),
    decreases ids.len(),
{
    if ids.len() > 0 {
        lemma_burn_positions_len(s, ids.drop_last());
    }
}

/// A slot named by none of the consumed ids keeps its contents.
pub proof fn lemma_burn_positions_lookup(
    s: Seq<Option<PositionAttributes>>,
    ids: Seq<usize>,
    j: int,
)
    requires
        forall|k: int| 0 <= k < ids.len() ==> (#[trigger] ids[k]) < s.len(),
        0 <= j < s.len(),
        forall|k: int| 0 <= k < ids.len() ==> (#[trigger] ids[k]) != j,
    ensures
        burn_positions(s, ids)[j] == s[j],
    decreases ids.len(),
{
    if ids.len() > 0 {
        lemma_burn_positions_len(s, ids.drop_last());
        lemma_burn_positions_lookup(s, ids.drop_last(), j);
    }
}

/// After consuming, every slot either kept its contents or is empty.
pub proof fn lemma_burn_positions_cases(
    s: Seq<Option<PositionAttributes>>,
    ids: Seq<usize>,
    j: int,
)
    requires
        forall|k: int| 0 <= k < ids.len() ==> (#[trigger] ids[k]) < s.len(),
        0 <= j < s.len(),
    ensures
        burn_positions(s, ids)[j] == s[j] || burn_positions(s, ids)[j] is None,
    decreases ids.len(),
{
    if ids.len() > 0 {
        lemma_burn_positions_len(s, ids.drop_last());
        lemma_burn_positions_cases(s, ids.drop_last(), j);
    }
}

/// Consuming distinct positions removes exactly their combined principal
/// from the arena total.
pub proof fn lemma_sum_principals_burn(s: Seq<Option<PositionAttributes>>, ids: Seq<usize>)
    requires
        forall|k: int| 0 <= k < ids.len() ==> (#[trigger] ids[k]) < s.len(),
        forall|j: int, k: int| 0 <= j < k < ids.len() ==> ids[j] != ids[k],
    ensures
        sum_principals(burn_positions(s, ids)) == sum_principals(s) - merge_inputs_principal(
            s,
            ids,
        ),
    decreases ids.len(),
{
    if ids.len() > 0 {
        let prefix = ids.drop_last();
        lemma_sum_principals_burn(s, prefix);
        lemma_burn_positions_len(s, prefix);
        lemma_burn_positions_lookup(s, prefix, ids.last() as int);
        lemma_sum_principals_update(
            burn_positions(s, prefix),
            ids.last() as int,
            None::<PositionAttributes>,
        );
    }
}

/// A slot's realized reward is never negative.
pub proof fn lemma_position_payout_of_nonneg(
    p: Option<PositionAttributes>,
    current_rps: int,
    scale: int,
)
    requires
        scale >= 1,
    ensures
        position_payout_of(p, current_rps, scale) >= 0,
{
    match p {
        Option::Some(attributes) => {
            crate::custom_rewards::lemma_reward_amount_nonneg(
                attributes.principal_amount as int,
                current_rps,
                attributes.reward_per_share_at_snapshot as int,
                scale,
            );
        },
        Option::None => {},
    }
}

/// A prefix of a merge's inputs realizes no more reward than all of them.
pub proof fn lemma_merge_inputs_payout_le(
    s: Seq<Option<PositionAttributes>>,
    ids: Seq<usize>,
    m: int,
    current_rps: int,
    scale: int,
)
    requires
        0 <= m <= ids.len(),
        scale >= 1,
    ensures
        merge_inputs_payout(s, ids.take(m), current_rps, scale) <= merge_inputs_payout(
            s,
            ids,
            current_rps,
            scale,
        ),
    decreases ids.len() - m,
{
    if m == ids.len() {
        assert(ids.take(m) =~= ids);
    } else {
        assert(ids.take(m + 1).drop_last() =~= ids.take(m));
        lemma_position_payout_of_nonneg(s[ids[m] as int], current_rps, scale);
        lemma_merge_inputs_payout_le(s, ids, m + 1, current_rps, scale);
    }
}

impl StakingEngine {
    /// Internal consistency: the ledger is well formed, the staked supply is
    /// exactly the total principal over live positions, and every live
    /// position holds a positive principal with a snapshot no newer than the
    /// current per-share counter.
    pub open spec fn wf(self) -> bool {
        &&& self.global.wf()
        &&& sum_principals(self.positions@) == self.global.staked_supply
        &&& forall|i: int|
            0 <= i < self.positions@.len() ==> ((#[trigger] self.positions@[i]) matches Some(p)
                ==> p.principal_amount >= 1 && p.reward_per_share_at_snapshot
                <= self.global.reward_per_share)
    }

    /// Whether `id` names a position that still exists.
    pub open spec fn live_position(self, id: usize) -> bool {
        id < self.positions@.len() && self.positions@[id as int] is Some
    }

    /// The attributes behind a live position id.
    pub open spec fn spec_position(self, id: usize) -> PositionAttributes
        recommends
            self.live_position(id),
    {
        self.positions@[id as int]->0
    }

    /// Whether `id` names an unbond request not yet withdrawn.
    pub open spec fn live_request(self, id: usize) -> bool {
        id < self.unbond_requests@.len() && self.unbond_requests@[id as int] is Some
    }

    /// The request behind a live unbond request id.
    pub open spec fn spec_request(self, id: usize) -> UnbondRequest
        recommends
            self.live_request(id),
    {
        self.unbond_requests@[id as int]->0
    }

    /// The reward a settlement of position `id` at `current_block` pays,
    /// after the ledger has advanced.
    pub open spec fn position_payout(self, id: usize, current_block: u64) -> int
        recommends
            self.live_position(id),
    {
        reward_amount(
            self.spec_position(id).principal_amount as int,
            self.global.rps_after_accrual(current_block),
            self.spec_position(id).reward_per_share_at_snapshot as int,
            self.global.division_safety_constant as int,
        )
    }

    /// The payout computation for position `id` stays within the machine's
    /// integer range.
    pub open spec fn payout_fits(self, id: usize, current_block: u64) -> bool {
        self.live_position(id) ==> {
            let p = self.spec_position(id);
            let rps = self.global.rps_after_accrual(current_block);
            rps > p.reward_per_share_at_snapshot ==> p.principal_amount * (rps
                - p.reward_per_share_at_snapshot) <= u128::MAX
        }
    }

    /// Creates an engine with an empty arena and a zeroed ledger. Refused
    /// when the fixed-point scale or the APR ceiling is zero, or the unbond
    /// delay exceeds the protocol ceiling.
    pub fn init(division_safety_constant: u128, max_apr: u128, min_unbond_epochs: u64) -> (r:
        Result<StakingEngine, EngineError>)
        ensures
            r is Ok <==> division_safety_constant >= 1 && max_apr >= 1 && min_unbond_epochs
                <= MAX_MIN_UNBOND_EPOCHS,
            r is Err ==> r == Err::<StakingEngine, EngineError>(EngineError::Validation),
            r matches Ok(e) ==> {
                &&& e.wf()
                &&& e.global == (GlobalRewardState {
                    accumulated_rewards: 0,
                    reward_capacity: 0,
                    reward_per_share: 0,
                    per_block_reward_amount: 0,
                    max_apr,
                    last_reward_block: 0,
                    produce_enabled: false,
                    min_unbond_epochs,
                    staked_supply: 0,
                    division_safety_constant,
                })
                &&& e.positions@.len() == 0
                &&& e.unbond_requests@.len() == 0
            },
    {
        if division_safety_constant == 0 || max_apr == 0 || min_unbond_epochs
            > MAX_MIN_UNBOND_EPOCHS {
            return Err(EngineError::Validation);
        }
        let global = GlobalRewardState {
            accumulated_rewards: 0,
            reward_capacity: 0,
            reward_per_share: 0,
            per_block_reward_amount: 0,
            max_apr,
            last_reward_block: 0,
            produce_enabled: false,
            min_unbond_epochs,
            staked_supply: 0,
            division_safety_constant,
        };
        Ok(StakingEngine { global, positions: Vec::new(), unbond_requests: Vec::new() })
    }

    /// Stakes `amount` for `owner`: advances the ledger, grows the staked
    /// supply and mints a fresh position snapshotted at the advanced
    /// per-share counter. A zero amount is refused with nothing changed.
    pub fn stake(&mut self, amount: u128, owner: u64, current_block: u64) -> (r: Result<
        usize,
        EngineError,
    >)
        requires
            old(self).wf(),
            old(self).global.accrual_fits(current_block),
            amount > 0 ==> old(self).global.staked_supply + amount <= u128::MAX,
        ensures
            final(self).wf(),
            final(self).global.reward_per_share >= old(self).global.reward_per_share,
            r is Err <==> amount == 0,
            r is Err ==> r == Err::<usize, EngineError>(EngineError::Validation) && *final(self)
                == *old(self),
            r is Ok ==> {
                &&& r == Ok::<usize, EngineError>(old(self).positions@.len() as usize)
                &&& final(self).global == (GlobalRewardState {
                    staked_supply: (old(self).global.staked_supply + amount) as u128,
                    ..old(self).global.after_accrual(current_block)
                })
                &&& final(self).positions@ == old(self).positions@.push(
                    Some(
                        PositionAttributes {
                            reward_per_share_at_snapshot: old(self).global.rps_after_accrual(
                                current_block,
                            ) as u128,
                            compounded_reward: 0,
                            principal_amount: amount,
                            original_owner: owner,
                        },
                    ),
                )
                &&& final(self).unbond_requests == old(self).unbond_requests
            },
    {
        if amount == 0 {
            return Err(EngineError::Validation);
        }
        let ghost e0: StakingEngine = *self;
        self.global.generate_aggregated_rewards(current_block);
        let current_rps: u128 = self.global.reward_per_share;
        self.global.staked_supply = self.global.staked_supply + amount;
        let id: usize = self.positions.len();
        let minted = PositionAttributes {
            reward_per_share_at_snapshot: current_rps,
            compounded_reward: 0,
            principal_amount: amount,
            original_owner: owner,
        };
        self.positions.push(Some(minted));
        proof {
            lemma_sum_principals_push(e0.positions@, Some(minted));
        }
        Ok(id)
    }

    /// Settles the pending reward of position `id`: advances the ledger,
    /// computes the payout from the position's snapshot, re-snapshots the
    /// position at the advanced counter and returns the payout. The
    /// principal is untouched. An unknown or consumed id is refused with
    /// nothing changed.
    pub fn claim_rewards(&mut self, id: usize, current_block: u64) -> (r: Result<
        u128,
        EngineError,
    >)
        requires
            old(self).wf(),
            old(self).global.accrual_fits(current_block),
            old(self).payout_fits(id, current_block),
        ensures
            final(self).wf(),
            final(self).global.reward_per_share >= old(self).global.reward_per_share,
            r is Err <==> !old(self).live_position(id),
            r is Err ==> r == Err::<u128, EngineError>(EngineError::Validation) && *final(self)
                == *old(self),
            r is Ok ==> {
                &&& r == Ok::<u128, EngineError>(
                    old(self).position_payout(id, current_block) as u128,
                )
                &&& final(self).global == old(self).global.after_accrual(current_block)
                &&& final(self).positions@ == old(self).positions@.update(
                    id as int,
                    Some(
                        PositionAttributes {
                            reward_per_share_at_snapshot: old(self).global.rps_after_accrual(
                                current_block,
                            ) as u128,
                            ..old(self).spec_position(id)
                        },
                    ),
                )
                &&& final(self).unbond_requests == old(self).unbond_requests
            },
    {
        if id >= self.positions.len() {
            return Err(EngineError::Validation);
        }
        let slot: Option<PositionAttributes> = self.positions[id];
        match slot {
            None => Err(EngineError::Validation),
            Some(attributes) => {
                let ghost e0: StakingEngine = *self;
                self.global.generate_aggregated_rewards(current_block);
                let current_rps: u128 = self.global.reward_per_share;
                let reward: u128 = self.global.calculate_reward(
                    attributes.principal_amount,
                    current_rps,
                    attributes.reward_per_share_at_snapshot,
                );
                let updated = PositionAttributes {
                    reward_per_share_at_snapshot: current_rps,
                    ..attributes
                };
                self.positions[id] = Some(updated);
                proof {
                    lemma_sum_principals_update(e0.positions@, id as int, Some(updated));
                }
                Ok(reward)
            },
        }
    }

    /// The growth a compound of position `id` brings stays within the
    /// machine's integer range.
    pub open spec fn compound_fits(self, id: usize, current_block: u64) -> bool {
        self.live_position(id) ==> {
            &&& self.global.staked_supply + self.position_payout(id, current_block) <= u128::MAX
            &&& self.spec_position(id).compounded_reward + self.position_payout(id, current_block)
                <= u128::MAX
        }
    }

    /// Settles the pending reward of position `id` like a claim, but folds
    /// the payout into the position's principal (and into the staked supply)
    /// instead of paying it out; the audit accumulator records it. Returns
    /// the id of the updated position.
    pub fn compound_rewards(&mut self, id: usize, current_block: u64) -> (r: Result<
        usize,
        EngineError,
    >)
        requires
            old(self).wf(),
            old(self).global.accrual_fits(current_block),
            old(self).payout_fits(id, current_block),
            old(self).compound_fits(id, current_block),
        ensures
            final(self).wf(),
            final(self).global.reward_per_share >= old(self).global.reward_per_share,
            r is Err <==> !old(self).live_position(id),
            r is Err ==> r == Err::<usize, EngineError>(EngineError::Validation) && *final(self)
                == *old(self),
            r is Ok ==> {
                let payout = old(self).position_payout(id, current_block);
                &&& r == Ok::<usize, EngineError>(id)
                &&& final(self).global == (GlobalRewardState {
                    staked_supply: (old(self).global.staked_supply + payout) as u128,
                    ..old(self).global.after_accrual(current_block)
                })
                &&& final(self).positions@ == old(self).positions@.update(
                    id as int,
                    Some(
                        PositionAttributes {
                            reward_per_share_at_snapshot: old(self).global.rps_after_accrual(
                                current_block,
                            ) as u128,
                            compounded_reward: (old(self).spec_position(id).compounded_reward
                                + payout) as u128,
                            principal_amount: (old(self).spec_position(id).principal_amount
                                + payout) as u128,
                            original_owner: old(self).spec_position(id).original_owner,
                        },
                    ),
                )
                &&& final(self).unbond_requests == old(self).unbond_requests
            },
    {
        if id >= self.positions.len() {
            return Err(EngineError::Validation);
        }
        let slot: Option<PositionAttributes> = self.positions[id];
        match slot {
            None => Err(EngineError::Validation),
            Some(attributes) => {
                let ghost e0: StakingEngine = *self;
                proof {
                    lemma_position_le_sum(e0.positions@, id as int);
                }
                self.global.generate_aggregated_rewards(current_block);
                let current_rps: u128 = self.global.reward_per_share;
                let reward: u128 = self.global.calculate_reward(
                    attributes.principal_amount,
                    current_rps,
                    attributes.reward_per_share_at_snapshot,
                );
                self.global.staked_supply = self.global.staked_supply + reward;
                let updated = PositionAttributes {
                    reward_per_share_at_snapshot: current_rps,
                    compounded_reward: attributes.compounded_reward + reward,
                    principal_amount: attributes.principal_amount + reward,
                    original_owner: attributes.original_owner,
                };
                self.positions[id] = Some(updated);
                proof {
                    lemma_sum_principals_update(e0.positions@, id as int, Some(updated));
                }
                Ok(id)
            },
        }
    }

    /// Whether an unstake of `amount` from position `id` is acceptable: the
    /// position exists and the amount is positive and within its principal.
    pub open spec fn valid_unstake(self, id: usize, amount: u128) -> bool {
        self.live_position(id) && 1 <= amount <= self.spec_position(id).principal_amount
    }

    /// Withdraws `amount` of principal from position `id`: advances the
    /// ledger, settles the pending reward like a claim, shrinks the position
    /// and the staked supply, and parks the withdrawn principal in a fresh
    /// unbond request that unlocks `min_unbond_epochs` epochs from now. A
    /// full withdrawal destroys the position; a partial one re-snapshots the
    /// remainder. Returns the settled reward and the unbond request id.
    pub fn unstake(
        &mut self,
        id: usize,
        amount: u128,
        current_block: u64,
        current_epoch: u64,
    ) -> (r: Result<(u128, usize), EngineError>)
        requires
            old(self).wf(),
            old(self).global.accrual_fits(current_block),
            old(self).payout_fits(id, current_block),
            old(self).valid_unstake(id, amount) ==> current_epoch
                + old(self).global.min_unbond_epochs <= u64::MAX,
        ensures
            final(self).wf(),
            final(self).global.reward_per_share >= old(self).global.reward_per_share,
            r is Err <==> !old(self).valid_unstake(id, amount),
            r is Err ==> r == Err::<(u128, usize), EngineError>(EngineError::Validation)
                && *final(self) == *old(self),
            r is Ok ==> {
                let payout = old(self).position_payout(id, current_block);
                let remaining = old(self).spec_position(id).principal_amount - amount;
                &&& r == Ok::<(u128, usize), EngineError>(
                    (payout as u128, old(self).unbond_requests@.len() as usize),
                )
                &&& final(self).global == (GlobalRewardState {
                    staked_supply: (old(self).global.staked_supply - amount) as u128,
                    ..old(self).global.after_accrual(current_block)
                })
                &&& final(self).positions@ == old(self).positions@.update(
                    id as int,
                    if remaining > 0 {
                        Some(
                            PositionAttributes {
                                reward_per_share_at_snapshot: old(self).global.rps_after_accrual(
                                    current_block,
                                ) as u128,
                                principal_amount: remaining as u128,
                                ..old(self).spec_position(id)
                            },
                        )
                    } else {
                        None
                    },
                )
                &&& final(self).unbond_requests@ == old(self).unbond_requests@.push(
                    Some(
                        UnbondRequest {
                            amount,
                            unlock_epoch: (current_epoch
                                + old(self).global.min_unbond_epochs) as u64,
                            owner: old(self).spec_position(id).original_owner,
                        },
                    ),
                )
            },
    {
        if id >= self.positions.len() {
            return Err(EngineError::Validation);
        }
        let slot: Option<PositionAttributes> = self.positions[id];
        match slot {
            None => Err(EngineError::Validation),
            Some(attributes) => {
                if amount == 0 || amount > attributes.principal_amount {
                    return Err(EngineError::Validation);
                }
                let ghost e0: StakingEngine = *self;
                proof {
                    lemma_position_le_sum(e0.positions@, id as int);
                }
                self.global.generate_aggregated_rewards(current_block);
                let current_rps: u128 = self.global.reward_per_share;
                let reward: u128 = self.global.calculate_reward(
                    attributes.principal_amount,
                    current_rps,
                    attributes.reward_per_share_at_snapshot,
                );
                let remaining: u128 = attributes.principal_amount - amount;
                let new_slot: Option<PositionAttributes> = if remaining > 0 {
                    Some(
                        PositionAttributes {
                            reward_per_share_at_snapshot: current_rps,
                            principal_amount: remaining,
                            ..attributes
                        },
                    )
                } else {
                    None
                };
                self.positions[id] = new_slot;
                self.global.staked_supply = self.global.staked_supply - amount;
                let request_id: usize = self.unbond_requests.len();
                let unlock_epoch: u64 = current_epoch + self.global.min_unbond_epochs;
                self.unbond_requests.push(
                    Some(UnbondRequest { amount, unlock_epoch, owner: attributes.original_owner }),
                );
                proof {
                    lemma_sum_principals_update(e0.positions@, id as int, new_slot);
                }
                Ok((reward, request_id))
            },
        }
    }

    /// Releases the principal parked in unbond request `request_id`. Refused
    /// with a timing error while the unlock epoch has not been reached, and
    /// with a validation error for an unknown or already withdrawn request;
    /// on success the request is consumed and its amount returned. The
    /// ledger is untouched: the principal left the staked supply when the
    /// unstake was made.
    pub fn unbond(&mut self, request_id: usize, current_epoch: u64) -> (r: Result<
        u128,
        EngineError,
    >)
        requires
            old(self).wf(),
        ensures
            final(self).wf(),
            final(self).global == old(self).global,
            final(self).positions == old(self).positions,
            r is Err <==> (!old(self).live_request(request_id) || current_epoch
                < old(self).spec_request(request_id).unlock_epoch),
            !old(self).live_request(request_id) ==> r == Err::<u128, EngineError>(
                EngineError::Validation,
            ),
            old(self).live_request(request_id) && current_epoch < old(self).spec_request(
                request_id,
            ).unlock_epoch ==> r == Err::<u128, EngineError>(EngineError::Timing),
            r is Err ==> *final(self) == *old(self),
            r is Ok ==> {
                &&& r == Ok::<u128, EngineError>(old(self).spec_request(request_id).amount)
                &&& final(self).unbond_requests@ == old(self).unbond_requests@.update(
                    request_id as int,
                    None::<UnbondRequest>,
                )
            },
    {
        if request_id >= self.unbond_requests.len() {
            return Err(EngineError::Validation);
        }
        let slot: Option<UnbondRequest> = self.unbond_requests[request_id];
        match slot {
            None => Err(EngineError::Validation),
            Some(request) => {
                if current_epoch < request.unlock_epoch {
                    return Err(EngineError::Timing);
                }
                self.unbond_requests[request_id] = None;
                Ok(request.amount)
            },
        }
    }

    /// Funds more reward: grows the capacity ceiling by the payment. The
    /// ledger is deliberately not advanced first; the new headroom is
    /// visible to the next accrual. The host is responsible for only
    /// forwarding payments made in the reward token.
    pub fn top_up_rewards(&mut self, payment_amount: u128)
        requires
            old(self).wf(),
            old(self).global.reward_capacity + payment_amount <= u128::MAX,
        ensures
            final(self).wf(),
            final(self).global == (GlobalRewardState {
                reward_capacity: (old(self).global.reward_capacity + payment_amount) as u128,
                ..old(self).global
            }),
            final(self).positions == old(self).positions,
            final(self).unbond_requests == old(self).unbond_requests,
    {
        self.global.reward_capacity = self.global.reward_capacity + payment_amount;
    }

    /// Switches reward production on, starting accrual from the current
    /// block rather than retroactively. Refused when no per-block rate has
    /// been set yet or production is already on.
    pub fn start_produce_rewards(&mut self, current_block: u64) -> (r: Result<(), EngineError>)
        requires
            old(self).wf(),
        ensures
            final(self).wf(),
            r is Err <==> (old(self).global.per_block_reward_amount == 0
                || old(self).global.produce_enabled),
            r is Err ==> r == Err::<(), EngineError>(EngineError::Validation) && *final(self)
                == *old(self),
            r is Ok ==> {
                &&& final(self).global == (GlobalRewardState {
                    produce_enabled: true,
                    last_reward_block: current_block,
                    ..old(self).global
                })
                &&& final(self).positions == old(self).positions
                &&& final(self).unbond_requests == old(self).unbond_requests
            },
    {
        if self.global.per_block_reward_amount == 0 {
            return Err(EngineError::Validation);
        }
        if self.global.produce_enabled {
            return Err(EngineError::Validation);
        }
        self.global.produce_enabled = true;
        self.global.last_reward_block = current_block;
        Ok(())
    }

    /// Switches reward production off, crystallizing everything accrued up
    /// to now first.
    pub fn end_produce_rewards(&mut self, current_block: u64)
        requires
            old(self).wf(),
            old(self).global.accrual_fits(current_block),
        ensures
            final(self).wf(),
            final(self).global.reward_per_share >= old(self).global.reward_per_share,
            final(self).global == (GlobalRewardState {
                produce_enabled: false,
                ..old(self).global.after_accrual(current_block)
            }),
            final(self).positions == old(self).positions,
            final(self).unbond_requests == old(self).unbond_requests,
    {
        self.global.generate_aggregated_rewards(current_block);
        self.global.produce_enabled = false;
    }

    /// Changes the per-block reward rate, crystallizing the reward owed
    /// under the old rate first. A zero rate is refused with nothing
    /// changed.
    pub fn set_per_block_rewards(&mut self, per_block_amount: u128, current_block: u64) -> (r:
        Result<(), EngineError>)
        requires
            old(self).wf(),
            per_block_amount != 0 ==> old(self).global.accrual_fits(current_block),
        ensures
            final(self).wf(),
            final(self).global.reward_per_share >= old(self).global.reward_per_share,
            r is Err <==> per_block_amount == 0,
            r is Err ==> r == Err::<(), EngineError>(EngineError::Validation) && *final(self)
                == *old(self),
            r is Ok ==> {
                &&& final(self).global == (GlobalRewardState {
                    per_block_reward_amount: per_block_amount,
                    ..old(self).global.after_accrual(current_block)
                })
                &&& final(self).positions == old(self).positions
                &&& final(self).unbond_requests == old(self).unbond_requests
            },
    {
        if per_block_amount == 0 {
            return Err(EngineError::Validation);
        }
        self.global.generate_aggregated_rewards(current_block);
        self.global.per_block_reward_amount = per_block_amount;
        Ok(())
    }

    /// Changes the APR ceiling, crystallizing the reward owed under the old
    /// ceiling first. A zero ceiling is refused with nothing changed.
    pub fn set_max_apr(&mut self, max_apr: u128, current_block: u64) -> (r: Result<
        (),
        EngineError,
    >)
        requires
            old(self).wf(),
            max_apr != 0 ==> old(self).global.accrual_fits(current_block),
        ensures
            final(self).wf(),
            final(self).global.reward_per_share >= old(self).global.reward_per_share,
            r is Err <==> max_apr == 0,
            r is Err ==> r == Err::<(), EngineError>(EngineError::Validation) && *final(self)
                == *old(self),
            r is Ok ==> {
                &&& final(self).global == (GlobalRewardState {
                    max_apr,
                    ..old(self).global.after_accrual(current_block)
                })
                &&& final(self).positions == old(self).positions
                &&& final(self).unbond_requests == old(self).unbond_requests
            },
    {
        if max_apr == 0 {
            return Err(EngineError::Validation);
        }
        self.global.generate_aggregated_rewards(current_block);
        self.global.max_apr = max_apr;
        Ok(())
    }

    /// Changes the unbond delay. A delay above the protocol ceiling is
    /// refused with nothing changed.
    pub fn try_set_min_unbond_epochs(&mut self, min_unbond_epochs: u64) -> (r: Result<
        (),
        EngineError,
    >)
        requires
            old(self).wf(),
        ensures
            final(self).wf(),
            r is Err <==> min_unbond_epochs > MAX_MIN_UNBOND_EPOCHS,
            r is Err ==> r == Err::<(), EngineError>(EngineError::Validation) && *final(self)
                == *old(self),
            r is Ok ==> {
                &&& final(self).global == (GlobalRewardState {
                    min_unbond_epochs,
                    ..old(self).global
                })
                &&& final(self).positions == old(self).positions
                &&& final(self).unbond_requests == old(self).unbond_requests
            },
    {
        if min_unbond_epochs > MAX_MIN_UNBOND_EPOCHS {
            return Err(EngineError::Validation);
        }
        self.global.min_unbond_epochs = min_unbond_epochs;
        Ok(())
    }

    /// What a position with the given attributes and token amount would be
    /// paid if it claimed now, without changing any state: the ledger is
    /// advanced on a scratch copy only.
    pub fn calculate_rewards_for_given_position(
        &self,
        farm_token_amount: u128,
        attributes: &PositionAttributes,
        current_block: u64,
    ) -> (r: u128)
        requires
            self.global.wf(),
            self.global.accrual_fits(current_block),
            self.global.rps_after_accrual(current_block)
                > attributes.reward_per_share_at_snapshot ==> farm_token_amount
                * (self.global.rps_after_accrual(current_block)
                - attributes.reward_per_share_at_snapshot) <= u128::MAX,
        ensures
            r == reward_amount(
                farm_token_amount as int,
                self.global.rps_after_accrual(current_block),
                attributes.reward_per_share_at_snapshot as int,
                self.global.division_safety_constant as int,
            ),
    {
        let mut ledger: GlobalRewardState = self.global;
        ledger.generate_aggregated_rewards(current_block);
        ledger.calculate_reward(
            farm_token_amount,
            ledger.reward_per_share,
            attributes.reward_per_share_at_snapshot,
        )
    }

    /// Whether `ids` is an acceptable set of merge inputs: at least one,
    /// all live, pairwise distinct, and all minted for the same owner.
    pub open spec fn valid_merge(self, ids: Seq<usize>) -> bool {
        &&& ids.len() >= 1
        &&& forall|k: int| 0 <= k < ids.len() ==> self.live_position(#[trigger] ids[k])
        &&& forall|j: int, k: int| 0 <= j < k < ids.len() ==> ids[j] != ids[k]
        &&& forall|k: int|
            0 <= k < ids.len() ==> (#[trigger] self.spec_position(ids[k])).original_owner
                == self.spec_position(ids[0]).original_owner
    }

    /// The payout computation of a merge stays within the machine's integer
    /// range.
    pub open spec fn merge_fits(self, ids: Seq<usize>, current_block: u64) -> bool {
        &&& forall|k: int| 0 <= k < ids.len() ==> self.payout_fits(#[trigger] ids[k], current_block)
        &&& merge_inputs_payout(
            self.positions@,
            ids,
            self.global.rps_after_accrual(current_block),
            self.global.division_safety_constant as int,
        ) <= u128::MAX
    }

    /// Consolidates the positions named by `ids` into one: advances the
    /// ledger once, realizes each input's pending reward against its own
    /// snapshot into a side payment, destroys the inputs and mints a single
    /// position holding the summed principal, freshly snapshotted. The
    /// staked supply is unchanged. Returns the new position id and the
    /// combined side payment. Refused — with nothing changed — unless the
    /// inputs are at least one, all live, pairwise distinct and all of the
    /// same owner.
    pub fn merge_positions(&mut self, ids: &Vec<usize>, current_block: u64) -> (r: Result<
        (usize, u128),
        EngineError,
    >)
        requires
            old(self).wf(),
            old(self).global.accrual_fits(current_block),
            old(self).valid_merge(ids@) ==> old(self).merge_fits(ids@, current_block),
        ensures
            final(self).wf(),
            final(self).global.reward_per_share >= old(self).global.reward_per_share,
            r is Err <==> !old(self).valid_merge(ids@),
            r is Err ==> r == Err::<(usize, u128), EngineError>(EngineError::Validation)
                && *final(self) == *old(self),
            r is Ok ==> {
                let rps = old(self).global.rps_after_accrual(current_block);
                let scale = old(self).global.division_safety_constant as int;
                &&& r == Ok::<(usize, u128), EngineError>(
                    (
                        old(self).positions@.len() as usize,
                        merge_inputs_payout(old(self).positions@, ids@, rps, scale) as u128,
                    ),
                )
                &&& final(self).global == old(self).global.after_accrual(current_block)
                &&& final(self).positions@ == burn_positions(old(self).positions@, ids@).push(
                    Some(
                        PositionAttributes {
                            reward_per_share_at_snapshot: rps as u128,
                            compounded_reward: 0,
                            principal_amount: merge_inputs_principal(
                                old(self).positions@,
                                ids@,
                            ) as u128,
                            original_owner: old(self).spec_position(ids@[0]).original_owner,
                        },
                    ),
                )
                &&& final(self).unbond_requests == old(self).unbond_requests
            },
    {
        let n: usize = ids.len();
        if n == 0 {
            return Err(EngineError::Validation);
        }
        let id0: usize = ids[0];
        if id0 >= self.positions.len() {
            return Err(EngineError::Validation);
        }
        let owner0: u64 = match self.positions[id0] {
            None => {
                return Err(EngineError::Validation);
            },
            Some(attributes) => attributes.original_owner,
        };
        let mut k: usize = 0;
        while k < n
            invariant
                *self == *old(self),
                old(self).wf(),
                n == ids@.len(),
                0 <= k <= n,
                owner0 == self.spec_position(ids@[0]).original_owner,
                self.live_position(ids@[0]),
                forall|i: int| 0 <= i < k ==> self.live_position(#[trigger] ids@[i]),
                forall|i: int|
                    0 <= i < k ==> (#[trigger] self.spec_position(ids@[i])).original_owner
                        == owner0,
                forall|i: int, j: int| 0 <= i < j < k ==> ids@[i] != ids@[j],
            decreases n - k,
        {
            let id_k: usize = ids[k];
            if id_k >= self.positions.len() {
                return Err(EngineError::Validation);
            }
            match self.positions[id_k] {
                None => {
                    return Err(EngineError::Validation);
                },
                Some(attributes) => {
                    if attributes.original_owner != owner0 {
                        proof {
                            assert(self.spec_position(ids@[k as int]).original_owner
                                != self.spec_position(ids@[0]).original_owner);
                        }
                        return Err(EngineError::Validation);
                    }
                },
            }
            let mut j: usize = 0;
            while j < k
                invariant
                    *self == *old(self),
                    old(self).wf(),
                    n == ids@.len(),
                    0 <= j <= k < n,
                    id_k == ids@[k as int],
                    forall|i: int| 0 <= i < j ==> ids@[i] != ids@[k as int],
                decreases k - j,
            {
                if ids[j] == id_k {
                    return Err(EngineError::Validation);
                }
                j = j + 1;
            }
            k = k + 1;
        }
        // Everything validated; from here the call cannot fail.
        let ghost e0: StakingEngine = *self;
        self.global.generate_aggregated_rewards(current_block);
        let current_rps: u128 = self.global.reward_per_share;
        let ghost s0: Seq<Option<PositionAttributes>> = e0.positions@;
        let ghost advanced: GlobalRewardState = self.global;
        let ghost rps_spec: int = e0.global.rps_after_accrual(current_block);
        let ghost scale: int = e0.global.division_safety_constant as int;
        let mut side_payment: u128 = 0;
        let mut total_principal: u128 = 0;
        let mut m: usize = 0;
        proof {
            assert(ids@.take(0) =~= Seq::<usize>::empty());
        }
        while m < n
            invariant
                n == ids@.len(),
                0 <= m <= n,
                e0.valid_merge(ids@),
                e0.wf(),
                e0.merge_fits(ids@, current_block),
                current_rps == rps_spec,
                scale == e0.global.division_safety_constant as int,
                scale >= 1,
                rps_spec == e0.global.rps_after_accrual(current_block),
                s0 == e0.positions@,
                self.global == advanced,
                advanced == e0.global.after_accrual(current_block),
                self.unbond_requests == e0.unbond_requests,
                self.positions@ == burn_positions(s0, ids@.take(m as int)),
                self.positions@.len() == s0.len(),
                side_payment == merge_inputs_payout(s0, ids@.take(m as int), rps_spec, scale),
                total_principal == merge_inputs_principal(s0, ids@.take(m as int)),
                sum_principals(self.positions@) == e0.global.staked_supply - total_principal,
                m >= 1 ==> total_principal >= 1,
            decreases n - m,
        {
            let id_m: usize = ids[m];
            proof {
                assert(forall|i: int|
                    0 <= i < m ==> ids@.take(m as int)[i] == ids@[i] && ids@[i] != ids@[m as int]);
                lemma_burn_positions_lookup(s0, ids@.take(m as int), id_m as int);
            }
            let slot: Option<PositionAttributes> = self.positions[id_m];
            let attributes: PositionAttributes = match slot {
                Some(attributes) => attributes,
                None => vstd::pervasive::unreached(),
            };
            let reward: u128 = self.global.calculate_reward(
                attributes.principal_amount,
                current_rps,
                attributes.reward_per_share_at_snapshot,
            );
            self.positions[id_m] = None;
            proof {
                assert(ids@.take(m + 1).drop_last() =~= ids@.take(m as int));
                assert(ids@.take(m + 1).last() == ids@[m as int]);
                lemma_sum_principals_update(
                    burn_positions(s0, ids@.take(m as int)),
                    id_m as int,
                    None::<PositionAttributes>,
                );
                lemma_sum_principals_nonneg(self.positions@);
                lemma_position_payout_of_nonneg(s0[id_m as int], rps_spec, scale);
                lemma_merge_inputs_payout_le(s0, ids@, m + 1, rps_spec, scale);
            }
            side_payment = side_payment + reward;
            total_principal = total_principal + attributes.principal_amount;
            m = m + 1;
        }
        proof {
            assert(ids@.take(n as int) =~= ids@);
        }
        let merged = PositionAttributes {
            reward_per_share_at_snapshot: current_rps,
            compounded_reward: 0,
            principal_amount: total_principal,
            original_owner: owner0,
        };
        let new_id: usize = self.positions.len();
        self.positions.push(Some(merged));
        proof {
            lemma_sum_principals_push(burn_positions(s0, ids@), Some(merged));
            assert forall|i: int| 0 <= i < self.positions@.len() implies ((
            #[trigger] self.positions@[i]) matches Some(p) ==> p.principal_amount >= 1
                && p.reward_per_share_at_snapshot <= self.global.reward_per_share) by {
                if i < s0.len() {
                    lemma_burn_positions_cases(s0, ids@, i);
                }
            }
        }
        Ok((new_id, side_payment))
    }

    /// Current value of the per-share counter.
    pub fn get_reward_per_share(&self) -> (r: u128)
        ensures
            r == self.global.reward_per_share,
    {
        self.global.reward_per_share
    }

    /// Total reward accrued since genesis, after capacity clipping.
    pub fn get_accumulated_rewards(&self) -> (r: u128)
        ensures
            r == self.global.accumulated_rewards,
    {
        self.global.accumulated_rewards
    }

    /// Funded reward ceiling.
    pub fn get_reward_capacity(&self) -> (r: u128)
        ensures
            r == self.global.reward_capacity,
    {
        self.global.reward_capacity
    }

    /// APR ceiling, in basis points.
    pub fn get_annual_percentage_rewards(&self) -> (r: u128)
        ensures
            r == self.global.max_apr,
    {
        self.global.max_apr
    }

    /// Mandatory unbond delay, in epochs.
    pub fn get_min_unbond_epochs(&self) -> (r: u64)
        ensures
            r == self.global.min_unbond_epochs,
    {
        self.global.min_unbond_epochs
    }
}

/// In every well-formed engine state — and every operation returns one — the
/// staked supply recorded in the ledger is exactly the sum of the principal
/// over all live positions.
pub proof fn lemma_staked_supply_matches_positions(e: StakingEngine)
    requires
        e.wf(),
    ensures
        sum_principals(e.positions@) == e.global.staked_supply,
{
}

} // verus!
