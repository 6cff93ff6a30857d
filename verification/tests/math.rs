use concentrated_liquidity::errors::ConcentratedLiquidityError as E;
use concentrated_liquidity::math::{
    accrue_position_fees, add_fee_growth, apply_liquidity_delta, cross_tick, fee_growth_inside_for_ticks,
    find_next_initialized_tick, initialize_tick_fee_growths, swap_step_amounts, tick_array_span,
    tick_array_start_index, tick_offset_in_array, update_tick_liquidity, validate_position_token_amounts,
    validate_tick_alignment, FeeGrowthInside, FeeSide, NextTickCrossing, SwapStepInput,
};
use concentrated_liquidity::pubkey::Pubkey;
use concentrated_liquidity::state::{PoolState, Position, Tick, TickArray, Q64_64_ONE, TICK_ARRAY_SIZE};

fn key(b: u8) -> Pubkey {
    Pubkey::new_from_array([b; 32])
}

fn pool(current_tick: i32, liquidity: u128, global_a: u128, global_b: u128) -> PoolState {
    PoolState {
        bump: 1,
        token_a_mint: key(1),
        token_b_mint: key(2),
        token_a_vault: key(3),
        token_b_vault: key(4),
        fee_bps: 30,
        sqrt_price_x64: Q64_64_ONE,
        current_tick,
        liquidity,
        fee_growth_global_a_x64: global_a,
        fee_growth_global_b_x64: global_b,
        tick_spacing: 100,
    }
}

fn outside(a: u128, b: u128) -> Tick {
    Tick { initialized: 1, liquidity_net: 0, liquidity_gross: 1, fee_growth_outside_a_x64: a, fee_growth_outside_b_x64: b }
}

fn position(liquidity: u128, checkpoint_a: u128, checkpoint_b: u128) -> Position {
    Position {
        bump: 0,
        position_mint: key(9),
        owner: key(8),
        pool: key(7),
        tick_lower: -100,
        tick_upper: 100,
        liquidity_amount: liquidity,
        fee_growth_checkpoint_a_x64: checkpoint_a,
        fee_growth_checkpoint_b_x64: checkpoint_b,
        fees_a_owed: 0,
        fees_b_owed: 0,
    }
}

fn empty_array(start: i32) -> TickArray {
    TickArray { pool: key(7), start_tick_index: start, bump: 0, ticks: [Tick::default(); TICK_ARRAY_SIZE] }
}

#[test]
fn span_is_spacing_times_array_size() {
    assert_eq!(tick_array_span(100), Ok(8_800));
    assert_eq!(tick_array_span(1), Ok(88));
    assert_eq!(tick_array_span(u16::MAX), Ok(65_535 * 88));
}

#[test]
fn start_index_floors_to_span() {
    assert_eq!(tick_array_start_index(9_000, 100), Ok(8_800));
    assert_eq!(tick_array_start_index(8_800, 100), Ok(8_800));
    assert_eq!(tick_array_start_index(0, 100), Ok(0));
    assert_eq!(tick_array_start_index(-1, 100), Ok(-8_800));
    assert_eq!(tick_array_start_index(-8_800, 100), Ok(-8_800));
}

#[test]
fn start_index_overflow_below_i32_min() {
    assert_eq!(tick_array_start_index(i32::MIN, 100), Err(E::TickMathOverflow));
}

#[test]
fn offset_in_array_examples_and_errors() {
    assert_eq!(tick_offset_in_array(8_800, 9_000, 100), Ok(2));
    assert_eq!(tick_offset_in_array(8_800, 8_800, 100), Ok(0));
    assert_eq!(tick_offset_in_array(8_800, 17_500, 100), Ok(87));
    assert_eq!(tick_offset_in_array(8_800, 17_600, 100), Err(E::TickIndexOutOfBounds));
    assert_eq!(tick_offset_in_array(8_800, 8_700, 100), Err(E::InvalidTickArrayStart));
    assert_eq!(tick_offset_in_array(8_800, 8_850, 100), Err(E::InvalidTickArrayStart));
    assert_eq!(tick_offset_in_array(i32::MIN, i32::MAX, 100), Err(E::TickMathOverflow));
    assert_eq!(tick_offset_in_array(10, 5, 0), Err(E::InvalidTickArrayStart));
}

#[test]
fn alignment_examples() {
    assert_eq!(validate_tick_alignment(9_000, 100), Ok(()));
    assert_eq!(validate_tick_alignment(-9_000, 100), Ok(()));
    assert_eq!(validate_tick_alignment(9_050, 100), Err(E::TickNotAligned));
    assert_eq!(validate_tick_alignment(-9_050, 100), Err(E::TickNotAligned));
    assert_eq!(validate_tick_alignment(0, 0), Err(E::TickNotAligned));
}

#[test]
fn token_amounts_match_range_side() {
    assert_eq!(validate_position_token_amounts(0, -100, 100, 1, 1), Ok(()));
    assert_eq!(validate_position_token_amounts(0, -100, 100, 1, 0), Err(E::InvalidPositionTokenAmounts));
    assert_eq!(validate_position_token_amounts(0, 100, 300, 1, 0), Ok(()));
    assert_eq!(validate_position_token_amounts(0, 100, 300, 1, 1), Err(E::InvalidPositionTokenAmounts));
    assert_eq!(validate_position_token_amounts(0, -300, -100, 0, 1), Ok(()));
    assert_eq!(validate_position_token_amounts(0, -300, 0, 0, 1), Ok(()));
    assert_eq!(validate_position_token_amounts(0, -300, -100, 1, 1), Err(E::InvalidPositionTokenAmounts));
    assert_eq!(validate_position_token_amounts(0, -100, 100, 0, 0), Err(E::ZeroLiquidityDeposit));
}

#[test]
fn fee_growth_inside_example() {
    // current tick inside the range: below and above are the ticks' outside values.
    let p = pool(0, 0, 1_000, 50);
    let inside = fee_growth_inside_for_ticks(&p, -100, &outside(200, 10), 100, &outside(100, 5));
    assert_eq!(inside, FeeGrowthInside { token_a_x64: 700, token_b_x64: 35 });
}

#[test]
fn fee_growth_inside_when_price_outside_range() {
    // current tick below the range: below = global - lower outside.
    let p = pool(-200, 0, 1_000, 0);
    let inside = fee_growth_inside_for_ticks(&p, -100, &outside(600, 0), 100, &outside(100, 0));
    assert_eq!(inside.token_a_x64, 1_000 - (1_000 - 600) - 100);
    // current tick at the upper bound counts as above the range.
    let p = pool(100, 0, 1_000, 0);
    let inside = fee_growth_inside_for_ticks(&p, -100, &outside(200, 0), 100, &outside(300, 0));
    assert_eq!(inside.token_a_x64, 1_000 - 200 - (1_000 - 300));
}

#[test]
fn fee_growth_inside_wraps() {
    let p = pool(0, 0, 10, 0);
    let inside = fee_growth_inside_for_ticks(&p, -100, &outside(20, 0), 100, &outside(0, 0));
    assert_eq!(inside.token_a_x64, 10u128.wrapping_sub(20));
}

#[test]
fn crossing_keeps_fee_growth_inside_on_concrete_ticks() {
    let before = pool(0, 0, 1_000, 400);
    let lower = outside(200, 10);
    let upper = outside(100, 5);
    let inside_before = fee_growth_inside_for_ticks(&before, -100, &lower, 100, &upper);
    // The price falls through the lower boundary.
    let mut crossed = lower;
    cross_tick(&before, &mut crossed, true).unwrap();
    let after = PoolState { current_tick: -101, ..before };
    let inside_after = fee_growth_inside_for_ticks(&after, -100, &crossed, 100, &upper);
    assert_eq!(inside_before, inside_after);
}

#[test]
fn accrue_example_and_idempotence() {
    let mut pos = position(2 * Q64_64_ONE, 500, 0);
    let inside = FeeGrowthInside { token_a_x64: 800, token_b_x64: 0 };
    assert_eq!(accrue_position_fees(&mut pos, inside), Ok(()));
    assert_eq!(pos.fees_a_owed, 600);
    assert_eq!(pos.fees_b_owed, 0);
    assert_eq!(pos.fee_growth_checkpoint_a_x64, 800);
    assert_eq!(accrue_position_fees(&mut pos, inside), Ok(()));
    assert_eq!(pos.fees_a_owed, 600);
}

#[test]
fn accrue_rounds_down_and_overflows() {
    let mut pos = position(3, 0, 0);
    assert_eq!(accrue_position_fees(&mut pos, FeeGrowthInside { token_a_x64: Q64_64_ONE / 2, token_b_x64: 0 }), Ok(()));
    assert_eq!(pos.fees_a_owed, 1);
    let mut big = position(u128::MAX, 0, 0);
    let before = big;
    assert_eq!(accrue_position_fees(&mut big, FeeGrowthInside { token_a_x64: 2, token_b_x64: 0 }), Err(E::TickMathOverflow));
    assert_eq!(big.fees_a_owed, before.fees_a_owed);
}

#[test]
fn initialize_tick_snapshots_growth_only_at_or_below_current() {
    let mut below = Tick::default();
    initialize_tick_fee_growths(&mut below, -100, 0, 11, 22);
    assert_eq!(below, Tick { initialized: 1, fee_growth_outside_a_x64: 11, fee_growth_outside_b_x64: 22, ..Tick::default() });
    let mut above = Tick::default();
    initialize_tick_fee_growths(&mut above, 100, 0, 11, 22);
    assert_eq!(above, Tick { initialized: 1, ..Tick::default() });
    let mut used = outside(5, 6);
    initialize_tick_fee_growths(&mut used, -100, 0, 11, 22);
    assert_eq!(used, outside(5, 6));
}

#[test]
fn add_fee_growth_per_unit_of_liquidity() {
    let mut p = pool(0, 4, 0, 0);
    assert_eq!(add_fee_growth(&mut p, FeeSide::TokenA, 300), Ok(()));
    assert_eq!(p.fee_growth_global_a_x64, 300 * Q64_64_ONE / 4);
    assert_eq!(p.fee_growth_global_b_x64, 0);
    assert_eq!(add_fee_growth(&mut p, FeeSide::TokenB, 8), Ok(()));
    assert_eq!(p.fee_growth_global_b_x64, 2 * Q64_64_ONE);
    let mut idle = pool(0, 0, 0, 0);
    assert_eq!(add_fee_growth(&mut idle, FeeSide::TokenA, 300), Ok(()));
    assert_eq!(idle.fee_growth_global_a_x64, 0);
    let mut full = pool(0, 1, u128::MAX, 0);
    assert_eq!(add_fee_growth(&mut full, FeeSide::TokenA, 1), Err(E::TickMathOverflow));
    assert_eq!(full.fee_growth_global_a_x64, u128::MAX);
}

#[test]
fn update_tick_liquidity_lower_and_upper() {
    let mut lower = Tick::default();
    assert_eq!(update_tick_liquidity(&mut lower, 1_000, false), Ok(()));
    assert_eq!((lower.liquidity_gross, lower.liquidity_net), (1_000, 1_000));
    let mut upper = Tick::default();
    assert_eq!(update_tick_liquidity(&mut upper, 1_000, true), Ok(()));
    assert_eq!((upper.liquidity_gross, upper.liquidity_net), (1_000, -1_000));
}

#[test]
fn update_tick_liquidity_round_trip_clears_tick() {
    let before_use = outside(7, 8);
    let mut used = before_use;
    assert_eq!(update_tick_liquidity(&mut used, 500, true), Ok(()));
    assert_eq!(update_tick_liquidity(&mut used, -500, true), Ok(()));
    assert_eq!(used, before_use);

    let mut fresh = Tick { initialized: 1, ..Tick::default() };
    assert_eq!(update_tick_liquidity(&mut fresh, 500, false), Ok(()));
    fresh.fee_growth_outside_a_x64 = 99;
    assert_eq!(update_tick_liquidity(&mut fresh, -500, false), Ok(()));
    assert_eq!(fresh, Tick::default());
}

#[test]
fn update_tick_liquidity_errors() {
    let mut tick = Tick::default();
    assert_eq!(update_tick_liquidity(&mut tick, 0, false), Err(E::ZeroLiquidity));
    assert_eq!(update_tick_liquidity(&mut tick, -1, false), Err(E::NegativeLiquidity));
    let mut full = Tick { liquidity_gross: u128::MAX, ..Tick::default() };
    assert_eq!(update_tick_liquidity(&mut full, 1, false), Err(E::TickMathOverflow));
    let mut net_full = Tick { liquidity_gross: 1, liquidity_net: i128::MAX, ..Tick::default() };
    assert_eq!(update_tick_liquidity(&mut net_full, 1, false), Err(E::TickMathOverflow));
    assert_eq!(net_full.liquidity_gross, 2);
}

#[test]
fn cross_tick_flips_outside_and_signs_net() {
    let p = pool(0, 0, 1_000, 50);
    let mut tick = Tick { liquidity_net: 300, ..outside(200, 10) };
    assert_eq!(cross_tick(&p, &mut tick, false), Ok(300));
    assert_eq!((tick.fee_growth_outside_a_x64, tick.fee_growth_outside_b_x64), (800, 40));
    assert_eq!(cross_tick(&p, &mut tick, true), Ok(-300));
    assert_eq!((tick.fee_growth_outside_a_x64, tick.fee_growth_outside_b_x64), (200, 10));
    let mut extreme = Tick { liquidity_net: i128::MIN, ..Tick::default() };
    assert_eq!(cross_tick(&p, &mut extreme, true), Err(E::TickMathOverflow));
}

#[test]
fn apply_liquidity_delta_examples() {
    assert_eq!(apply_liquidity_delta(5_000_000, -1_000_000), Ok(4_000_000));
    assert_eq!(apply_liquidity_delta(5_000_000, 1_000_000), Ok(6_000_000));
    assert_eq!(apply_liquidity_delta(1, -2), Err(E::NegativeLiquidity));
    assert_eq!(apply_liquidity_delta(u128::MAX, 1), Err(E::TickMathOverflow));
    assert_eq!(apply_liquidity_delta(apply_liquidity_delta(77, 23).unwrap(), -23), Ok(77));
    assert_eq!(apply_liquidity_delta(u128::MAX, i128::MIN), Ok(u128::MAX - (1u128 << 127)));
}

#[test]
fn swap_step_reaching_target() {
    // 30 bps fee; 10_000 input leaves 9_970 net, enough for 5_000.
    let s = swap_step_amounts(1_000, 10_000, 30, Ok(5_000)).unwrap();
    // gross = ceil(5_000 * 10_000 / 9_970) = 5_016
    assert_eq!(s, SwapStepInput { amount_in: 5_016, fee_amount: 16, net_input: 5_000, reached_target_tick: true });
}

#[test]
fn swap_step_stopping_short() {
    let s = swap_step_amounts(1_000, 10_000, 30, Ok(20_000)).unwrap();
    assert_eq!(s, SwapStepInput { amount_in: 10_000, fee_amount: 30, net_input: 9_970, reached_target_tick: false });
}

#[test]
fn swap_step_gross_capped_by_remaining() {
    // net 9_970 covers 9_970 exactly; the rounded-up gross would be 10_000.
    let s = swap_step_amounts(1, 10_000, 30, Ok(9_970)).unwrap();
    assert_eq!(s.amount_in, 10_000);
    assert_eq!(s.fee_amount, 30);
    let s = swap_step_amounts(1, 10_001, 30, Ok(9_970)).unwrap();
    assert_eq!(s.amount_in, 10_000);
}

#[test]
fn swap_step_errors() {
    assert_eq!(swap_step_amounts(0, 10, 30, Ok(1)), Err(E::NoActiveLiquidity));
    assert_eq!(swap_step_amounts(1, 10, 30, Err(E::MathConversionError)), Err(E::MathConversionError));
    assert_eq!(swap_step_amounts(1, 10, 10_001, Ok(1)), Err(E::InvalidFeeBps));
}

#[test]
fn swap_step_full_fee() {
    let s = swap_step_amounts(1, 10, 10_000, Ok(0)).unwrap();
    assert_eq!(s, SwapStepInput { amount_in: 10, fee_amount: 10, net_input: 0, reached_target_tick: true });
}

#[test]
fn next_tick_in_both_directions() {
    let mut arr = empty_array(-8_800);
    arr.ticks[87].initialized = 1; // tick -100
    let mut arr2 = empty_array(0);
    arr2.ticks[3].initialized = 1; // tick 300
    arr2.ticks[0].initialized = 1; // tick 0
    let arrays = [arr2, arr];
    assert_eq!(
        find_next_initialized_tick(&arrays, 0, 100, true),
        Some(NextTickCrossing { tick_index: 0, tick_array_list_index: 0, tick_offset: 0 })
    );
    assert_eq!(
        find_next_initialized_tick(&arrays, -1, 100, true),
        Some(NextTickCrossing { tick_index: -100, tick_array_list_index: 1, tick_offset: 87 })
    );
    assert_eq!(
        find_next_initialized_tick(&arrays, 0, 100, false),
        Some(NextTickCrossing { tick_index: 300, tick_array_list_index: 0, tick_offset: 3 })
    );
    assert_eq!(find_next_initialized_tick(&arrays, 300, 100, false), None);
    assert_eq!(find_next_initialized_tick(&arrays, -101, 100, true), None);
}

#[test]
fn next_tick_prefers_first_scanned_among_equal() {
    let mut a = empty_array(0);
    a.ticks[1].initialized = 1;
    let b = a;
    let arrays = [a, b];
    assert_eq!(
        find_next_initialized_tick(&arrays, 500, 100, true),
        Some(NextTickCrossing { tick_index: 100, tick_array_list_index: 0, tick_offset: 1 })
    );
}

#[test]
fn aligned_tick_lies_in_its_array() {
    for &(tick, spacing) in &[(9_000, 100u16), (-100, 100), (-8_800, 100), (0, 1), (-1, 1), (123 * 64, 64), (-87 * 7, 7)] {
        let start = tick_array_start_index(tick, spacing).unwrap();
        let offset = tick_offset_in_array(start, tick, spacing).unwrap();
        assert!(offset < TICK_ARRAY_SIZE);
        assert_eq!(start + offset as i32 * spacing as i32, tick);
    }
}

#[test]
fn addresses_compare_bytewise() {
    let mut bytes = [5u8; 32];
    assert!(key(5) == Pubkey::new_from_array(bytes));
    bytes[31] = 6;
    assert!(key(5) != Pubkey::new_from_array(bytes));
    assert_eq!(Pubkey::new_from_array(bytes).to_bytes(), bytes);
}
