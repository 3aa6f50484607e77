//! Cross-call invariants and the read-only surface.

use farm_staking::engine::StakingEngine;
use farm_staking::position::PositionAttributes;

/// Total principal over the live position slots.
fn live_principal(e: &StakingEngine) -> u128 {
    let mut total: u128 = 0;
    for slot in &e.positions {
        if let Some(p) = slot {
            total += p.principal_amount;
        }
    }
    total
}

#[test]
fn staked_supply_tracks_live_positions() {
    let mut e = StakingEngine::init(1_000_000, 1_000_000_000_000_000_000, 2).unwrap();
    e.set_per_block_rewards(100, 0).unwrap();
    e.top_up_rewards(1_000_000);
    e.start_produce_rewards(0).unwrap();
    assert_eq!(live_principal(&e), e.global.staked_supply);
    let a = e.stake(1_000, 1, 0).unwrap();
    assert_eq!(live_principal(&e), e.global.staked_supply);
    let b = e.stake(250, 1, 3).unwrap();
    assert_eq!(live_principal(&e), e.global.staked_supply);
    e.claim_rewards(a, 5).unwrap();
    assert_eq!(live_principal(&e), e.global.staked_supply);
    e.compound_rewards(b, 8).unwrap();
    assert_eq!(live_principal(&e), e.global.staked_supply);
    e.unstake(a, 400, 9, 1).unwrap();
    assert_eq!(live_principal(&e), e.global.staked_supply);
    let (_, request) = e.unstake(a, 600, 10, 1).unwrap();
    assert_eq!(live_principal(&e), e.global.staked_supply);
    e.unbond(request, 3).unwrap();
    assert_eq!(live_principal(&e), e.global.staked_supply);
    let (merged, _) = e.merge_positions(&vec![b], 12).unwrap();
    assert_eq!(live_principal(&e), e.global.staked_supply);
    e.claim_rewards(merged, 15).unwrap();
    assert_eq!(live_principal(&e), e.global.staked_supply);
}

#[test]
fn reward_per_share_never_decreases() {
    let mut e = StakingEngine::init(1_000_000, 1_000_000_000_000_000_000, 2).unwrap();
    let mut last = e.global.reward_per_share;
    let mut check = |e: &StakingEngine, last: &mut u128| {
        assert!(e.global.reward_per_share >= *last);
        *last = e.global.reward_per_share;
    };
    e.set_per_block_rewards(70, 0).unwrap();
    check(&e, &mut last);
    e.top_up_rewards(10_000);
    check(&e, &mut last);
    e.start_produce_rewards(0).unwrap();
    check(&e, &mut last);
    let a = e.stake(123, 1, 1).unwrap();
    check(&e, &mut last);
    let b = e.stake(456, 1, 4).unwrap();
    check(&e, &mut last);
    e.claim_rewards(a, 6).unwrap();
    check(&e, &mut last);
    e.compound_rewards(b, 9).unwrap();
    check(&e, &mut last);
    e.set_max_apr(5_000_000, 11).unwrap();
    check(&e, &mut last);
    e.set_per_block_rewards(30, 13).unwrap();
    check(&e, &mut last);
    e.unstake(a, 100, 15, 2).unwrap();
    check(&e, &mut last);
    e.merge_positions(&vec![a, b], 17).unwrap();
    check(&e, &mut last);
    e.end_produce_rewards(19);
    check(&e, &mut last);
}

#[test]
fn accumulated_rewards_never_exceed_capacity() {
    let mut e = StakingEngine::init(1_000_000, 1_000_000_000_000_000_000, 2).unwrap();
    e.set_per_block_rewards(1_000, 0).unwrap();
    e.top_up_rewards(2_500);
    e.start_produce_rewards(0).unwrap();
    e.stake(1_000, 1, 0).unwrap();
    for block in 1..10 {
        e.claim_rewards(0, block).unwrap();
        assert!(e.global.accumulated_rewards <= e.global.reward_capacity);
    }
    assert_eq!(e.global.accumulated_rewards, 2_500);
}

#[test]
fn view_matches_claim_without_mutating() {
    let mut e = StakingEngine::init(1_000_000, 1_000_000_000_000_000_000, 2).unwrap();
    e.set_per_block_rewards(100, 0).unwrap();
    e.top_up_rewards(1_000_000);
    e.start_produce_rewards(0).unwrap();
    let id = e.stake(1_000, 1, 0).unwrap();
    let attributes = e.positions[id].unwrap();
    let preview = e.calculate_rewards_for_given_position(1_000, &attributes, 10);
    assert_eq!(preview, 1_000);
    // The preview advanced a scratch copy only.
    assert_eq!(e.global.last_reward_block, 0);
    assert_eq!(e.global.accumulated_rewards, 0);
    assert_eq!(e.claim_rewards(id, 10).unwrap(), preview);
}

#[test]
fn view_handles_stale_snapshot() {
    // A snapshot ahead of the counter previews a zero reward, never an
    // underflow.
    let e = StakingEngine::init(1_000_000, 1_000_000_000_000_000_000, 2).unwrap();
    let attributes = PositionAttributes {
        reward_per_share_at_snapshot: 5,
        compounded_reward: 0,
        principal_amount: 1_000,
        original_owner: 1,
    };
    assert_eq!(e.calculate_rewards_for_given_position(1_000, &attributes, 10), 0);
}

#[test]
fn top_up_only_grows_capacity() {
    let mut e = StakingEngine::init(1_000_000, 1_000_000_000_000_000_000, 2).unwrap();
    e.set_per_block_rewards(100, 0).unwrap();
    e.start_produce_rewards(0).unwrap();
    e.stake(1_000, 1, 0).unwrap();
    // Topping up does not advance the ledger.
    e.top_up_rewards(777);
    assert_eq!(e.global.reward_capacity, 777);
    assert_eq!(e.global.accumulated_rewards, 0);
    assert_eq!(e.global.last_reward_block, 0);
    assert_eq!(e.global.reward_per_share, 0);
}

#[test]
fn partial_unstake_resnapshots_the_remainder() {
    let mut e = StakingEngine::init(1_000_000, 1_000_000_000_000_000_000, 2).unwrap();
    e.set_per_block_rewards(100, 0).unwrap();
    e.top_up_rewards(1_000_000);
    e.start_produce_rewards(0).unwrap();
    let id = e.stake(1_000, 4, 0).unwrap();
    let (reward, request) = e.unstake(id, 400, 10, 0).unwrap();
    // The whole pending reward is settled on the way out.
    assert_eq!(reward, 1_000);
    let p = e.positions[id].unwrap();
    assert_eq!(p.principal_amount, 600);
    assert_eq!(p.reward_per_share_at_snapshot, 1_000_000);
    assert_eq!(e.global.staked_supply, 600);
    assert_eq!(e.unbond_requests[request].unwrap().amount, 400);
    // Nothing further is owed within the same block.
    assert_eq!(e.claim_rewards(id, 10).unwrap(), 0);
}

#[test]
fn views_report_the_ledger() {
    let mut e = StakingEngine::init(1_000_000, 123_456, 7).unwrap();
    e.set_per_block_rewards(100, 0).unwrap();
    e.top_up_rewards(5_000);
    e.start_produce_rewards(0).unwrap();
    e.stake(1_000, 1, 0).unwrap();
    e.claim_rewards(0, 10).unwrap();
    assert_eq!(e.get_reward_per_share(), e.global.reward_per_share);
    assert_eq!(e.get_accumulated_rewards(), e.global.accumulated_rewards);
    assert_eq!(e.get_reward_capacity(), 5_000);
    assert_eq!(e.get_annual_percentage_rewards(), 123_456);
    assert_eq!(e.get_min_unbond_epochs(), 7);
    e.try_set_min_unbond_epochs(30).unwrap();
    assert_eq!(e.get_min_unbond_epochs(), 30);
}
