//! Every refusal, with an input that provokes it.

use farm_staking::engine::StakingEngine;
use farm_staking::errors::EngineError;

fn running_engine() -> StakingEngine {
    let mut e = StakingEngine::init(1_000_000, 1_000_000_000_000_000_000, 5).unwrap();
    e.set_per_block_rewards(100, 0).unwrap();
    e.top_up_rewards(1_000_000);
    e.start_produce_rewards(0).unwrap();
    e
}

#[test]
fn init_rejects_bad_parameters() {
    assert_eq!(StakingEngine::init(0, 1, 0).err(), Some(EngineError::Validation));
    assert_eq!(StakingEngine::init(1, 0, 0).err(), Some(EngineError::Validation));
    assert_eq!(StakingEngine::init(1, 1, 31).err(), Some(EngineError::Validation));
    assert!(StakingEngine::init(1, 1, 30).is_ok());
}

#[test]
fn zero_rate_and_zero_apr_are_rejected() {
    let mut e = running_engine();
    assert_eq!(e.set_per_block_rewards(0, 5), Err(EngineError::Validation));
    assert_eq!(e.set_max_apr(0, 5), Err(EngineError::Validation));
    // A refused setter leaves even the block cursor untouched.
    assert_eq!(e.global.last_reward_block, 0);
}

#[test]
fn unbond_delay_above_the_ceiling_is_rejected() {
    let mut e = running_engine();
    assert_eq!(e.try_set_min_unbond_epochs(31), Err(EngineError::Validation));
    assert_eq!(e.get_min_unbond_epochs(), 5);
    assert_eq!(e.try_set_min_unbond_epochs(30), Ok(()));
}

#[test]
fn start_produce_needs_a_rate_and_is_not_repeatable() {
    let mut fresh = StakingEngine::init(1_000_000, 1, 5).unwrap();
    assert_eq!(fresh.start_produce_rewards(0), Err(EngineError::Validation));
    let mut e = running_engine();
    assert_eq!(e.start_produce_rewards(3), Err(EngineError::Validation));
}

#[test]
fn zero_stake_is_rejected() {
    let mut e = running_engine();
    assert_eq!(e.stake(0, 1, 0), Err(EngineError::Validation));
    assert_eq!(e.global.staked_supply, 0);
}

#[test]
fn settling_unknown_or_consumed_positions_is_rejected() {
    let mut e = running_engine();
    assert_eq!(e.claim_rewards(0, 1), Err(EngineError::Validation));
    assert_eq!(e.compound_rewards(0, 1), Err(EngineError::Validation));
    let id = e.stake(500, 1, 0).unwrap();
    e.unstake(id, 500, 0, 0).unwrap();
    assert_eq!(e.claim_rewards(id, 1), Err(EngineError::Validation));
    assert_eq!(e.unstake(id, 1, 1, 0), Err(EngineError::Validation));
}

#[test]
fn unstake_amount_must_be_positive_and_within_principal() {
    let mut e = running_engine();
    let id = e.stake(500, 1, 0).unwrap();
    assert_eq!(e.unstake(id, 0, 1, 0), Err(EngineError::Validation));
    assert_eq!(e.unstake(id, 501, 1, 0), Err(EngineError::Validation));
    assert_eq!(e.global.staked_supply, 500);
}

#[test]
fn unbonding_unknown_or_consumed_requests_is_rejected() {
    let mut e = running_engine();
    assert_eq!(e.unbond(0, 100), Err(EngineError::Validation));
    let id = e.stake(500, 1, 0).unwrap();
    let (_, request) = e.unstake(id, 500, 0, 0).unwrap();
    assert_eq!(e.unbond(request, 5), Ok(500));
    assert_eq!(e.unbond(request, 5), Err(EngineError::Validation));
}

#[test]
fn merge_rejects_bad_input_sets() {
    let mut e = running_engine();
    let a = e.stake(100, 1, 0).unwrap();
    let b = e.stake(200, 2, 0).unwrap();
    // No inputs.
    assert_eq!(e.merge_positions(&vec![], 1), Err(EngineError::Validation));
    // A repeated input.
    assert_eq!(e.merge_positions(&vec![a, a], 1), Err(EngineError::Validation));
    // An unknown input.
    assert_eq!(e.merge_positions(&vec![a, 9], 1), Err(EngineError::Validation));
    // Mismatched owners.
    assert_eq!(e.merge_positions(&vec![a, b], 1), Err(EngineError::Validation));
    // A consumed input.
    e.unstake(a, 100, 1, 0).unwrap();
    assert_eq!(e.merge_positions(&vec![a], 1), Err(EngineError::Validation));
    // A refused merge changes nothing.
    assert_eq!(e.global.staked_supply, 200);
    assert!(e.positions[b].is_some());
}
