//! The reward ledger's arithmetic, piece by piece.

use farm_staking::custom_rewards::{GlobalRewardState, BLOCKS_IN_YEAR, MAX_PERCENT};

fn ledger() -> GlobalRewardState {
    GlobalRewardState {
        accumulated_rewards: 0,
        reward_capacity: 1_000_000,
        reward_per_share: 0,
        per_block_reward_amount: 100,
        max_apr: 1_000_000_000_000_000_000,
        last_reward_block: 0,
        produce_enabled: true,
        min_unbond_epochs: 5,
        staked_supply: 1_000,
        division_safety_constant: 1_000_000,
    }
}

#[test]
fn constants_match_the_protocol() {
    assert_eq!(MAX_PERCENT, 10_000);
    assert_eq!(BLOCKS_IN_YEAR, 5_256_000);
}

#[test]
fn apr_bound_scales_by_basis_points_and_year() {
    let mut g = ledger();
    g.max_apr = 10_000; // one hundred percent
    // A year's worth of blocks on this amount may carry the amount itself,
    // so one block carries amount / BLOCKS_IN_YEAR.
    assert_eq!(g.get_amount_apr_bounded(52_560_000_000), 10_000);
    // Small amounts truncate to a zero per-block allowance.
    assert_eq!(g.get_amount_apr_bounded(1_000), 0);
}

#[test]
fn per_block_rewards_need_production_and_elapsed_blocks() {
    let mut g = ledger();
    assert_eq!(g.calculate_per_block_rewards(10, 0), 1_000);
    assert_eq!(g.calculate_per_block_rewards(0, 0), 0);
    assert_eq!(g.calculate_per_block_rewards(0, 10), 0);
    g.produce_enabled = false;
    assert_eq!(g.calculate_per_block_rewards(10, 0), 0);
    assert!(!g.produces_per_block_rewards());
}

#[test]
fn reward_is_clamped_never_negative() {
    let g = ledger();
    // 1_000 principal across a counter move of half the scale pays 500.
    assert_eq!(g.calculate_reward(1_000, 1_500_000, 1_000_000), 500);
    // A snapshot at or ahead of the counter pays zero.
    assert_eq!(g.calculate_reward(1_000, 1_000_000, 1_000_000), 0);
    assert_eq!(g.calculate_reward(1_000, 1_000_000, 2_000_000), 0);
    // Truncation rounds down, towards the ledger.
    assert_eq!(g.calculate_reward(3, 1_500_000, 1_000_000), 1);
}

#[test]
fn per_share_increase_divides_among_the_supply() {
    let g = ledger();
    assert_eq!(g.calculate_reward_per_share_increase(1_000, 400), 2_500_000);
}

#[test]
fn advance_moves_every_counter_at_once() {
    let mut g = ledger();
    g.generate_aggregated_rewards(10);
    assert_eq!(g.accumulated_rewards, 1_000);
    assert_eq!(g.reward_per_share, 1_000_000);
    assert_eq!(g.last_reward_block, 10);
    // Advancing again within the same block changes nothing.
    let before = g;
    g.generate_aggregated_rewards(10);
    assert_eq!(g, before);
}

#[test]
fn advance_is_a_no_op_while_production_is_off() {
    let mut g = ledger();
    g.produce_enabled = false;
    let before = g;
    g.generate_aggregated_rewards(10);
    assert_eq!(g, before);
}

#[test]
fn advance_without_stakers_distributes_nothing() {
    let mut g = ledger();
    // With nothing staked the APR bound is zero, so nothing accrues and the
    // per-share counter has no distribution target.
    g.staked_supply = 0;
    g.generate_aggregated_rewards(10);
    assert_eq!(g.accumulated_rewards, 0);
    assert_eq!(g.reward_per_share, 0);
    assert_eq!(g.last_reward_block, 10);
}

#[test]
fn update_reward_per_share_skips_an_empty_supply() {
    let mut g = ledger();
    g.staked_supply = 0;
    g.update_reward_per_share(1_000);
    assert_eq!(g.reward_per_share, 0);
    g.staked_supply = 400;
    g.update_reward_per_share(1_000);
    assert_eq!(g.reward_per_share, 2_500_000);
}
