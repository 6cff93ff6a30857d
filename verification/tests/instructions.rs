use concentrated_liquidity::errors::ConcentratedLiquidityError as E;
use concentrated_liquidity::instructions::{close_position, create_position, initialize_pool, initialize_tick_array, swap};
use concentrated_liquidity::math::{LiquidityQuote, NextTickCrossing, SwapStep};
use concentrated_liquidity::pubkey::Pubkey;
use concentrated_liquidity::state::{PoolState, Tick, TickArray, DEFAULT_TICK_SPACING, Q64_64_ONE, TICK_ARRAY_SIZE};

fn key(b: u8) -> Pubkey {
    Pubkey::new_from_array([b; 32])
}

fn new_pool() -> PoolState {
    initialize_pool::handler(255, key(1), key(2), key(3), key(4), 30, 0).unwrap()
}

fn arrays_for(pool: &PoolState, starts: &[i32]) -> Vec<TickArray> {
    starts
        .iter()
        .map(|s| initialize_tick_array::handler(pool, key(7), *s, 1).unwrap())
        .collect()
}

/// The sum of the nets of all ticks at or below `current`.
fn active_net(arrays: &[TickArray], spacing: u16, current: i32) -> i128 {
    let mut sum = 0i128;
    for a in arrays {
        for (o, t) in a.ticks.iter().enumerate() {
            if a.start_tick_index + o as i32 * spacing as i32 <= current {
                sum += t.liquidity_net;
            }
        }
    }
    sum
}

fn quote(liquidity: u128) -> Result<LiquidityQuote, E> {
    Ok(LiquidityQuote { liquidity_delta: liquidity, amount_a: 10, amount_b: 20 })
}

#[test]
fn initialize_pool_bootstrap_state() {
    let pool = new_pool();
    assert!(pool.token_a_mint == key(1));
    assert!(pool.token_b_vault == key(4));
    assert_eq!(pool.fee_bps, 30);
    assert_eq!(pool.sqrt_price_x64, Q64_64_ONE);
    assert_eq!(pool.current_tick, 0);
    assert_eq!(pool.liquidity, 0);
    assert_eq!(pool.fee_growth_global_a_x64, 0);
    assert_eq!(pool.fee_growth_global_b_x64, 0);
    assert_eq!(pool.tick_spacing, DEFAULT_TICK_SPACING);
    let custom = initialize_pool::handler(1, key(1), key(2), key(3), key(4), 10_000, 64).unwrap();
    assert_eq!(custom.tick_spacing, 64);
}

#[test]
fn initialize_pool_errors() {
    assert_eq!(
        initialize_pool::handler(1, key(1), key(1), key(3), key(4), 30, 0).unwrap_err(),
        E::IdenticalMints
    );
    assert_eq!(
        initialize_pool::handler(1, key(1), key(2), key(3), key(4), 10_001, 0).unwrap_err(),
        E::InvalidFeeBps
    );
}

#[test]
fn initialize_tick_array_requires_span_start() {
    let pool = new_pool();
    let ta = initialize_tick_array::handler(&pool, key(7), -8_800, 3).unwrap();
    assert_eq!(ta.start_tick_index, -8_800);
    assert_eq!(ta.bump, 3);
    assert!(ta.pool == key(7));
    assert!(ta.ticks.iter().all(|t| *t == Tick::default()));
    assert_eq!(
        initialize_tick_array::handler(&pool, key(7), 100, 3).unwrap_err(),
        E::InvalidTickArrayStart
    );
    assert_eq!(
        initialize_tick_array::handler(&pool, key(7), i32::MIN, 3).unwrap_err(),
        E::InvalidTickArrayStart
    );
}

#[test]
fn create_position_in_range_updates_ticks_and_pool() {
    let mut pool = new_pool();
    let mut arrays = arrays_for(&pool, &[-8_800, 0]);
    let pos = create_position::handler(
        &mut pool, key(7), &mut arrays, 0, 1, -100, 100, 10, 20, quote(1_000), key(9), key(8), 5,
    )
    .unwrap();
    assert_eq!(pos.liquidity_amount, 1_000);
    assert_eq!((pos.tick_lower, pos.tick_upper), (-100, 100));
    assert_eq!((pos.fees_a_owed, pos.fees_b_owed), (0, 0));
    assert!(pos.owner == key(8) && pos.position_mint == key(9) && pos.pool == key(7));
    assert_eq!(pool.liquidity, 1_000);
    let lower = arrays[0].ticks[87];
    let upper = arrays[1].ticks[1];
    assert_eq!((lower.initialized, lower.liquidity_gross, lower.liquidity_net), (1, 1_000, 1_000));
    assert_eq!((upper.initialized, upper.liquidity_gross, upper.liquidity_net), (1, 1_000, -1_000));
}

#[test]
fn create_position_out_of_range_keeps_pool_liquidity() {
    let mut pool = new_pool();
    let mut arrays = arrays_for(&pool, &[0]);
    create_position::handler(&mut pool, key(7), &mut arrays, 0, 0, 100, 300, 10, 0, quote(500), key(9), key(8), 5)
        .unwrap();
    assert_eq!(pool.liquidity, 0);
    assert_eq!(arrays[0].ticks[1].liquidity_net, 500);
    assert_eq!(arrays[0].ticks[3].liquidity_net, -500);
}

#[test]
fn create_position_errors_leave_state_unchanged() {
    let mut pool = new_pool();
    let mut arrays = arrays_for(&pool, &[-8_800, 0]);
    let before = arrays.clone();
    let cases: Vec<(i32, i32, u64, u64, usize, usize, Result<LiquidityQuote, E>, E)> = vec![
        (100, 100, 1, 1, 0, 1, quote(1), E::InvalidTickRange),
        (-100, 100, 0, 0, 0, 1, quote(1), E::ZeroLiquidityDeposit),
        (-100, 100, 1, 0, 0, 1, quote(1), E::InvalidPositionTokenAmounts),
        (-150, 100, 1, 1, 0, 1, quote(1), E::TickNotAligned),
        (-100, 100, 1, 1, 1, 1, quote(1), E::InvalidTickArrayStart),
        (-100, 100, 1, 1, 0, 1, Err(E::MathConversionError), E::MathConversionError),
        (-100, 100, 1, 1, 0, 1, quote(u128::MAX), E::TickMathOverflow),
        (-100, 100, 1, 1, 0, 1, quote(0), E::ZeroLiquidity),
    ];
    for (lower, upper, a, b, li, ui, q, err) in cases {
        let pool_before = pool;
        let r = create_position::handler(&mut pool, key(7), &mut arrays, li, ui, lower, upper, a, b, q, key(9), key(8), 5);
        assert_eq!(r.unwrap_err(), err);
        assert_eq!(pool.liquidity, pool_before.liquidity);
        assert!(arrays.iter().zip(before.iter()).all(|(x, y)| x.ticks == y.ticks));
    }
}

#[test]
fn close_right_after_create_restores_everything() {
    let mut pool = new_pool();
    let mut arrays = arrays_for(&pool, &[0]);
    let arrays_before = arrays.clone();
    let pool_before = pool;
    let mut pos = create_position::handler(
        &mut pool, key(7), &mut arrays, 0, 0, 0, 200, 10, 20, quote(4_000), key(9), key(8), 5,
    )
    .unwrap();
    assert_eq!(pool.liquidity, 4_000);
    let payout = close_position::handler(&mut pool, &mut arrays, 0, 0, &mut pos, Ok((11, 22))).unwrap();
    assert_eq!(payout, (11, 22));
    assert_eq!(pool.liquidity, pool_before.liquidity);
    assert!(arrays[0].ticks == arrays_before[0].ticks);
    assert_eq!((pos.fees_a_owed, pos.fees_b_owed), (0, 0));
}

#[test]
fn close_pays_fees_earned_inside_range() {
    let mut pool = new_pool();
    let mut arrays = arrays_for(&pool, &[-8_800, 0]);
    let mut pos = create_position::handler(
        &mut pool, key(7), &mut arrays, 0, 1, -100, 100, 10, 20, quote(Q64_64_ONE), key(9), key(8), 5,
    )
    .unwrap();
    // Fees arrive while the price is inside the range: 7 token A spread over 2^64 units of liquidity.
    pool.fee_growth_global_a_x64 += 7;
    let payout = close_position::handler(&mut pool, &mut arrays, 0, 1, &mut pos, Ok((100, 200))).unwrap();
    assert_eq!(payout, (107, 200));
    assert_eq!(pos.fees_a_owed, 7);
    assert_eq!(pool.liquidity, 0);
}

#[test]
fn close_errors_leave_state_unchanged() {
    let mut pool = new_pool();
    let mut arrays = arrays_for(&pool, &[0]);
    let mut pos = create_position::handler(
        &mut pool, key(7), &mut arrays, 0, 0, 0, 200, 10, 20, quote(4_000), key(9), key(8), 5,
    )
    .unwrap();
    let pos_before = pos;
    let arrays_before = arrays.clone();
    let r = close_position::handler(&mut pool, &mut arrays, 0, 0, &mut pos, Err(E::MathConversionError));
    assert_eq!(r.unwrap_err(), E::MathConversionError);
    assert_eq!(pos.liquidity_amount, pos_before.liquidity_amount);
    assert!(arrays[0].ticks == arrays_before[0].ticks);
    let r = close_position::handler(&mut pool, &mut arrays, 0, 0, &mut pos, Ok((u64::MAX, 0)));
    assert_eq!(r, Ok((u64::MAX, 0)));

    let mut pos2 = pos_before;
    pos2.tick_lower = 50;
    let r = close_position::handler(&mut pool, &mut arrays, 0, 0, &mut pos2, Ok((0, 0)));
    assert_eq!(r.unwrap_err(), E::InvalidTickArrayStart);
    let mut gone = pos_before;
    gone.liquidity_amount = 1;
    let r = close_position::handler(&mut pool, &mut arrays, 0, 0, &mut gone, Ok((0, 0)));
    assert_eq!(r.unwrap_err(), E::NegativeLiquidity);
}

#[test]
fn close_payout_must_fit_u64() {
    let mut pool = new_pool();
    let mut arrays = arrays_for(&pool, &[0]);
    let mut pos = create_position::handler(
        &mut pool, key(7), &mut arrays, 0, 0, 0, 200, 10, 20, quote(Q64_64_ONE), key(9), key(8), 5,
    )
    .unwrap();
    pool.fee_growth_global_b_x64 += 1;
    let r = close_position::handler(&mut pool, &mut arrays, 0, 0, &mut pos, Ok((0, u64::MAX)));
    assert_eq!(r.unwrap_err(), E::TickMathOverflow);
    assert_eq!(pos.fees_b_owed, 0);
}

#[test]
fn swap_begin_and_finish() {
    assert_eq!(swap::begin(0).unwrap_err(), E::ZeroAmountSpecified);
    let p = swap::begin(500).unwrap();
    assert_eq!((p.amount_in, p.amount_remaining, p.amount_out), (500, 500, 0));
    let done = swap::SwapProgress { amount_in: 500, amount_remaining: 0, amount_out: 40 };
    assert_eq!(swap::finish(&done, 40), Ok((500, 40)));
    assert_eq!(swap::finish(&done, 41).unwrap_err(), E::SlippageExceeded);
}

#[test]
fn swap_crosses_lower_boundary_and_deactivates_range() {
    let mut pool = new_pool();
    let mut arrays = arrays_for(&pool, &[-8_800, 0]);
    create_position::handler(&mut pool, key(7), &mut arrays, 0, 1, -100, 100, 10, 20, quote(1_000), key(9), key(8), 5)
        .unwrap();
    let mut progress = swap::begin(1_000).unwrap();
    let crossing = swap::next_crossing(&pool, &arrays, true).unwrap();
    assert_eq!(crossing, NextTickCrossing { tick_index: -100, tick_array_list_index: 0, tick_offset: 87 });
    let step = SwapStep {
        next_sqrt_price_x64: Q64_64_ONE - 1_000,
        amount_in: 600,
        amount_out: 550,
        fee_amount: 2,
        reached_target_tick: true,
    };
    swap::apply_step(&mut progress, &mut pool, &mut arrays, crossing, step, 0, true).unwrap();
    assert_eq!((progress.amount_remaining, progress.amount_out), (400, 550));
    assert_eq!(pool.current_tick, -101);
    assert_eq!(pool.liquidity, 0);
    assert_eq!(pool.sqrt_price_x64, Q64_64_ONE - 1_000);
    assert_eq!(pool.fee_growth_global_a_x64, 2 * Q64_64_ONE / 1_000);
    assert_eq!(arrays[0].ticks[87].fee_growth_outside_a_x64, 2 * Q64_64_ONE / 1_000);
    // Nothing is left to cross below.
    assert_eq!(swap::next_crossing(&pool, &arrays, true).unwrap_err(), E::MissingTickArrayForSwap);
}

#[test]
fn swap_partial_step_ends_input() {
    let mut pool = new_pool();
    let mut arrays = arrays_for(&pool, &[-8_800, 0]);
    create_position::handler(&mut pool, key(7), &mut arrays, 0, 1, -100, 100, 10, 20, quote(1_000), key(9), key(8), 5)
        .unwrap();
    let mut progress = swap::begin(100).unwrap();
    let crossing = swap::next_crossing(&pool, &arrays, false).unwrap();
    assert_eq!(crossing.tick_index, 100);
    let step = SwapStep { next_sqrt_price_x64: Q64_64_ONE + 5, amount_in: 100, amount_out: 90, fee_amount: 1, reached_target_tick: false };
    swap::apply_step(&mut progress, &mut pool, &mut arrays, crossing, step, 42, false).unwrap();
    assert_eq!(progress.amount_remaining, 0);
    assert_eq!(pool.current_tick, 42);
    assert_eq!(pool.liquidity, 1_000);
    assert_eq!(pool.fee_growth_global_b_x64, Q64_64_ONE / 1_000);
    let too_much = SwapStep { amount_in: 1, ..step };
    assert_eq!(
        swap::apply_step(&mut progress, &mut pool, &mut arrays, crossing, too_much, 0, false).unwrap_err(),
        E::TickMathOverflow
    );
}

#[test]
fn active_liquidity_tracks_tick_nets() {
    let mut pool = new_pool();
    let mut arrays = arrays_for(&pool, &[-8_800, 0]);
    assert_eq!(active_net(&arrays, 100, pool.current_tick), pool.liquidity as i128);
    create_position::handler(&mut pool, key(7), &mut arrays, 0, 1, -100, 100, 10, 20, quote(1_000), key(9), key(8), 5)
        .unwrap();
    create_position::handler(&mut pool, key(7), &mut arrays, 0, 1, -200, 300, 10, 20, quote(250), key(9), key(8), 5)
        .unwrap();
    let mut above = create_position::handler(&mut pool, key(7), &mut arrays, 1, 1, 100, 300, 10, 0, quote(40), key(9), key(8), 5)
        .unwrap();
    assert_eq!(pool.liquidity, 1_250);
    assert_eq!(active_net(&arrays, 100, pool.current_tick), pool.liquidity as i128);

    // Swap upward across tick 100, where the third position becomes active.
    let mut progress = swap::begin(1_000).unwrap();
    let crossing = swap::next_crossing(&pool, &arrays, false).unwrap();
    assert_eq!(crossing.tick_index, 100);
    let step = SwapStep { next_sqrt_price_x64: Q64_64_ONE + 7, amount_in: 10, amount_out: 9, fee_amount: 1, reached_target_tick: true };
    swap::apply_step(&mut progress, &mut pool, &mut arrays, crossing, step, 0, false).unwrap();
    assert_eq!(pool.current_tick, 100);
    assert_eq!(pool.liquidity, 250 + 40);
    assert_eq!(active_net(&arrays, 100, pool.current_tick), pool.liquidity as i128);

    close_position::handler(&mut pool, &mut arrays, 1, 1, &mut above, Ok((0, 0))).unwrap();
    assert_eq!(pool.liquidity, 250);
    assert_eq!(active_net(&arrays, 100, pool.current_tick), pool.liquidity as i128);
}

#[test]
fn swap_walk_down_charges_input_side_and_ends() {
    let mut pool = new_pool();
    let mut arrays = arrays_for(&pool, &[-8_800, 0]);
    create_position::handler(&mut pool, key(7), &mut arrays, 0, 1, -100, 100, 10, 20, quote(1_000), key(9), key(8), 5)
        .unwrap();
    create_position::handler(&mut pool, key(7), &mut arrays, 0, 1, -200, 300, 10, 20, quote(250), key(9), key(8), 5)
        .unwrap();
    create_position::handler(&mut pool, key(7), &mut arrays, 0, 0, -400, -300, 0, 20, quote(40), key(9), key(8), 5)
        .unwrap();
    let fee_b_before = pool.fee_growth_global_b_x64;
    let mut progress = swap::begin(1_000).unwrap();
    // Two crossings, then a step that stops short between tick -201 and
    // the next initialized tick, -300.
    let prices = [Q64_64_ONE - 100, Q64_64_ONE - 300, Q64_64_ONE - 350];
    let mut steps = 0;
    while progress.amount_remaining > 0 {
        let crossing = swap::next_crossing(&pool, &arrays, true).unwrap();
        let reached = steps < 2;
        let amount_in = if reached { 300 } else { progress.amount_remaining };
        let tick_after_step = if reached { crossing.tick_index } else { -250 };
        let step = SwapStep {
            next_sqrt_price_x64: prices[steps],
            amount_in,
            amount_out: amount_in - 10,
            fee_amount: 3,
            reached_target_tick: reached,
        };
        let fee_a_before = pool.fee_growth_global_a_x64;
        let liquidity_before = pool.liquidity;
        swap::apply_step(&mut progress, &mut pool, &mut arrays, crossing, step, tick_after_step, true).unwrap();
        if liquidity_before > 0 {
            assert_eq!(pool.fee_growth_global_a_x64, fee_a_before + 3 * Q64_64_ONE / liquidity_before);
        } else {
            assert_eq!(pool.fee_growth_global_a_x64, fee_a_before);
        }
        assert_eq!(pool.fee_growth_global_b_x64, fee_b_before);
        assert_eq!(active_net(&arrays, 100, pool.current_tick), pool.liquidity as i128);
        let in_range: u128 = [(-100, 100, 1_000u128), (-200, 300, 250), (-400, -300, 40)]
            .iter()
            .filter(|(lower, upper, _)| *lower <= pool.current_tick && pool.current_tick < *upper)
            .map(|(_, _, l)| *l)
            .sum();
        assert_eq!(pool.liquidity, in_range);
        steps += 1;
    }
    assert_eq!(steps, 3);
    assert_eq!(pool.current_tick, -250);
    assert_eq!(pool.liquidity, 0);
    assert_eq!(pool.sqrt_price_x64, Q64_64_ONE - 350);
    assert_eq!((progress.amount_in, progress.amount_out), (1_000, 970));
}

#[test]
fn swap_short_step_stays_short_of_its_target() {
    let mut pool = new_pool();
    let mut arrays = arrays_for(&pool, &[-8_800, 0]);
    create_position::handler(&mut pool, key(7), &mut arrays, 0, 1, -100, 100, 10, 20, quote(1_000), key(9), key(8), 5)
        .unwrap();
    // Going up, a step that does not reach tick 100 cannot leave the pool at 150.
    let mut progress = swap::begin(100).unwrap();
    let crossing = swap::next_crossing(&pool, &arrays, false).unwrap();
    assert_eq!(crossing.tick_index, 100);
    let step = SwapStep { next_sqrt_price_x64: Q64_64_ONE + 5, amount_in: 100, amount_out: 90, fee_amount: 0, reached_target_tick: false };
    swap::apply_step(&mut progress, &mut pool, &mut arrays, crossing, step, 150, false).unwrap();
    assert_eq!(pool.current_tick, 99);
    assert_eq!(pool.liquidity, 1_000);
    assert_eq!(active_net(&arrays, 100, pool.current_tick), pool.liquidity as i128);

    // Going down from 99, a short step toward -100 stops at -100 at the lowest.
    let mut progress = swap::begin(100).unwrap();
    let crossing = swap::next_crossing(&pool, &arrays, true).unwrap();
    assert_eq!(crossing.tick_index, -100);
    let step = SwapStep { next_sqrt_price_x64: Q64_64_ONE - 5, amount_in: 100, amount_out: 90, fee_amount: 0, reached_target_tick: false };
    swap::apply_step(&mut progress, &mut pool, &mut arrays, crossing, step, -120, true).unwrap();
    assert_eq!(pool.current_tick, -100);
    assert_eq!(pool.liquidity, 1_000);

    // A tick the step really reaches is kept as it is.
    let mut progress = swap::begin(100).unwrap();
    let crossing = swap::next_crossing(&pool, &arrays, false).unwrap();
    let step = SwapStep { next_sqrt_price_x64: Q64_64_ONE, amount_in: 100, amount_out: 90, fee_amount: 0, reached_target_tick: false };
    swap::apply_step(&mut progress, &mut pool, &mut arrays, crossing, step, 7, false).unwrap();
    assert_eq!(pool.current_tick, 7);
}
