//! A whole exact-input swap as the walk of its steps.
//!
//! The caller prices each step on the sqrt-price curve; the walk is the
//! sequence of `(crossing, step, tick of the step's end price)` it feeds to
//! `apply_step`. The laws here are over a whole walk: it terminates within
//! one step more than the number of ticks it can cross, it only ever adds
//! fees on the input side, it leaves the pool at its last step's price, and,
//! as every step aims at the nearest crossing, it keeps the pool's active
//! liquidity in line with the tick nets.

use vstd::prelude::*;

use crate::errors::ConcentratedLiquidityError;
use crate::instructions::swap::{input_side, spec_apply_step, SwapProgress};
use crate::liquidity::{
    active_net, grid_sum, law_swap_step_moves_active_liquidity_with_ticks, lemma_grid_sum_single,
    lemma_grid_sum_sub, moves_past_no_other_net, row_sum,
};
use crate::instructions::swap::law_swap_step_keeps_arrays_settled;
use crate::math::{
    crossed_tick, is_crossing_candidate, is_first_nearest, law_fee_growth_never_decreases, list_tick_index,
    reached_before, scanned_before, spec_add_fee_growth, tick_at, NextTickCrossing, SwapStep,
};
use crate::state::{arrays_settled, lemma_with_tick_read, with_tick, PoolState, TickArray, TICK_ARRAY_SIZE};

verus! {

/// The progress, pool and tick arrays after applying the steps in order,
/// or the first refusal.
pub open spec fn spec_swap_walk(
    progress: SwapProgress,
    pool: PoolState,
    arrays: Seq<TickArray>,
    steps: Seq<(NextTickCrossing, SwapStep, i32)>,
    a_to_b: bool,
) -> Result<(SwapProgress, PoolState, Seq<TickArray>), ConcentratedLiquidityError>
    decreases steps.len(),
{
    if steps.len() == 0 {
        Ok((progress, pool, arrays))
    } else {
        match spec_apply_step(progress, pool, arrays, steps[0].0, steps[0].1, steps[0].2, a_to_b) {
            Err(e) => Err(e),
            Ok(next) => spec_swap_walk(next.0, next.1, next.2, steps.drop_first(), a_to_b),
        }
    }
}

/// The walk is the swap loop: every step aims at the crossing that
/// `next_crossing` finds from the state it is applied to, is applied while
/// input remains, and a step that stops short of its target takes all the
/// remaining input.
pub open spec fn walk_follows_loop(
    progress: SwapProgress,
    pool: PoolState,
    arrays: Seq<TickArray>,
    steps: Seq<(NextTickCrossing, SwapStep, i32)>,
    a_to_b: bool,
) -> bool
    decreases steps.len(),
{
    steps.len() == 0 || {
        let crossing = steps[0].0;
        let step = steps[0].1;
        &&& is_first_nearest(arrays, crossing, pool.current_tick, pool.tick_spacing, a_to_b, arrays.len() as int, 0)
        &&& progress.amount_remaining > 0
        &&& !step.reached_target_tick ==> step.amount_in == progress.amount_remaining
        &&& match spec_apply_step(progress, pool, arrays, crossing, step, steps[0].2, a_to_b) {
            Err(_) => true,
            Ok(next) => walk_follows_loop(next.0, next.1, next.2, steps.drop_first(), a_to_b),
        }
    }
}

/// No two positions of the arrays hold the same tick index.
pub open spec fn tick_positions_distinct(arrays: Seq<TickArray>, tick_spacing: u16) -> bool {
    forall|a: int, o: int, b: int, p: int|
        0 <= a < arrays.len() && 0 <= o < TICK_ARRAY_SIZE && 0 <= b < arrays.len() && 0 <= p < TICK_ARRAY_SIZE && (a
            != b || o != p) ==> #[trigger] list_tick_index(arrays, a, o, tick_spacing) != #[trigger] list_tick_index(
            arrays,
            b,
            p,
            tick_spacing,
        )
}

/// The number of ticks a swap in direction `a_to_b` from `current_tick` can
/// still cross.
pub open spec fn crossing_candidates(arrays: Seq<TickArray>, current_tick: i32, tick_spacing: u16, a_to_b: bool) -> int {
    grid_sum(
        |b: int, p: int|
            if is_crossing_candidate(arrays, b, p, current_tick, tick_spacing, a_to_b) {
                1int
            } else {
                0int
            },
        arrays.len() as int,
    )
}

/// A row of terms between 0 and 1 sums to between 0 and its length.
proof fn lemma_row_sum_bounds(f: spec_fn(int, int) -> int, b: int, n: int)
    requires
        n >= 0,
        forall|p: int| 0 <= p < n ==> 0 <= #[trigger] f(b, p) <= 1,
    ensures
        0 <= row_sum(f, b, n) <= n,
    decreases n,
{
    if n > 0 {
        lemma_row_sum_bounds(f, b, n - 1);
    }
}

/// A grid of terms between 0 and 1 sums to between 0 and its size.
proof fn lemma_grid_sum_bounds(f: spec_fn(int, int) -> int, m: int)
    requires
        m >= 0,
        forall|b: int, p: int| 0 <= b < m && 0 <= p < TICK_ARRAY_SIZE ==> 0 <= #[trigger] f(b, p) <= 1,
    ensures
        0 <= grid_sum(f, m) <= m * TICK_ARRAY_SIZE,
    decreases m,
{
    if m > 0 {
        lemma_grid_sum_bounds(f, m - 1);
        assert forall|p: int| 0 <= p < TICK_ARRAY_SIZE implies 0 <= #[trigger] f(m - 1, p) <= 1 by {}
        lemma_row_sum_bounds(f, m - 1, TICK_ARRAY_SIZE as int);
    }
}

/// A row of non-negative terms has a non-negative sum.
proof fn lemma_row_sum_nonneg(f: spec_fn(int, int) -> int, b: int, n: int)
    requires
        forall|p: int| 0 <= p < n ==> 0 <= #[trigger] f(b, p),
    ensures
        0 <= row_sum(f, b, n),
    decreases n,
{
    if n > 0 {
        lemma_row_sum_nonneg(f, b, n - 1);
    }
}

/// A grid of non-negative terms has a non-negative sum.
proof fn lemma_grid_sum_nonneg(f: spec_fn(int, int) -> int, m: int)
    requires
        forall|b: int, p: int| 0 <= b < m && 0 <= p < TICK_ARRAY_SIZE ==> 0 <= #[trigger] f(b, p),
    ensures
        0 <= grid_sum(f, m),
    decreases m,
{
    if m > 0 {
        lemma_grid_sum_nonneg(f, m - 1);
        assert forall|p: int| 0 <= p < TICK_ARRAY_SIZE implies 0 <= #[trigger] f(m - 1, p) by {}
        lemma_row_sum_nonneg(f, m - 1, TICK_ARRAY_SIZE as int);
    }
}

/// A grid of non-negative terms sums to at least any one of them.
proof fn lemma_grid_sum_at_least_term(f: spec_fn(int, int) -> int, a: int, o: int, m: int)
    requires
        0 <= a < m,
        0 <= o < TICK_ARRAY_SIZE,
        forall|b: int, p: int| 0 <= b < m && 0 <= p < TICK_ARRAY_SIZE ==> 0 <= #[trigger] f(b, p),
    ensures
        grid_sum(f, m) >= f(a, o),
{
    let g = |b: int, p: int|
        if b == a && p == o {
            f(a, o)
        } else {
            0
        };
    let k = |b: int, p: int| f(b, p) - g(b, p);
    assert forall|b: int, p: int|
        0 <= b < m && 0 <= p < TICK_ARRAY_SIZE && (b != a || p != o) implies #[trigger] g(b, p) == 0 by {}
    lemma_grid_sum_single(g, a, o, m);
    assert forall|b: int, p: int| 0 <= b < m && 0 <= p < TICK_ARRAY_SIZE implies #[trigger] k(b, p) == f(b, p)
        - g(b, p) by {}
    lemma_grid_sum_sub(f, g, k, m);
    assert forall|b: int, p: int| 0 <= b < m && 0 <= p < TICK_ARRAY_SIZE implies 0 <= #[trigger] k(b, p) by {}
    lemma_grid_sum_nonneg(k, m);
}

/// A swap can cross at most every tick of the arrays it is given.
pub proof fn law_crossing_candidates_bounded(
    arrays: Seq<TickArray>,
    current_tick: i32,
    tick_spacing: u16,
    a_to_b: bool,
)
    ensures
        0 <= crossing_candidates(arrays, current_tick, tick_spacing, a_to_b) <= arrays.len() * TICK_ARRAY_SIZE,
{
    let f = |b: int, p: int|
        if is_crossing_candidate(arrays, b, p, current_tick, tick_spacing, a_to_b) {
            1int
        } else {
            0int
        };
    assert forall|b: int, p: int|
        0 <= b < arrays.len() && 0 <= p < TICK_ARRAY_SIZE implies 0 <= #[trigger] f(b, p) <= 1 by {}
    lemma_grid_sum_bounds(f, arrays.len() as int);
}

/// A step that reaches its target leaves strictly fewer ticks to cross: the
/// crossed tick is behind the new current tick, and no tick becomes
/// crossable that was not before.
pub proof fn law_reached_step_shrinks_crossing_candidates(
    progress: SwapProgress,
    pool: PoolState,
    arrays: Seq<TickArray>,
    crossing: NextTickCrossing,
    step: SwapStep,
    tick_after_step: i32,
    a_to_b: bool,
)
    requires
        crossing.tick_array_list_index < arrays.len(),
        crossing.tick_offset < TICK_ARRAY_SIZE,
        crossing.tick_index == list_tick_index(
            arrays,
            crossing.tick_array_list_index as int,
            crossing.tick_offset as int,
            pool.tick_spacing,
        ),
        is_crossing_candidate(
            arrays,
            crossing.tick_array_list_index as int,
            crossing.tick_offset as int,
            pool.current_tick,
            pool.tick_spacing,
            a_to_b,
        ),
        step.reached_target_tick,
        spec_apply_step(progress, pool, arrays, crossing, step, tick_after_step, a_to_b) is Ok,
    ensures
        ({
            let (_, pool_after, arrays_after) = spec_apply_step(
                progress,
                pool,
                arrays,
                crossing,
                step,
                tick_after_step,
                a_to_b,
            )->Ok_0;
            &&& arrays_after.len() == arrays.len()
            &&& pool_after.tick_spacing == pool.tick_spacing
            &&& crossing_candidates(arrays_after, pool_after.current_tick, pool.tick_spacing, a_to_b)
                < crossing_candidates(arrays, pool.current_tick, pool.tick_spacing, a_to_b)
        }),
{
    let spacing = pool.tick_spacing;
    let a = crossing.tick_array_list_index as int;
    let o = crossing.tick_offset as int;
    let fee = spec_add_fee_growth(pool, input_side(a_to_b), step.fee_amount);
    let pool1 = PoolState { sqrt_price_x64: step.next_sqrt_price_x64, ..fee.1 };
    let crossed = crossed_tick(pool1, arrays[a].ticks@[o]);
    let result = spec_apply_step(progress, pool, arrays, crossing, step, tick_after_step, a_to_b)->Ok_0;
    let arrays_after = result.2;
    let current_after = result.1.current_tick;
    let before = |b: int, p: int|
        if is_crossing_candidate(arrays, b, p, pool.current_tick, spacing, a_to_b) {
            1int
        } else {
            0int
        };
    let after = |b: int, p: int|
        if is_crossing_candidate(arrays_after, b, p, current_after, spacing, a_to_b) {
            1int
        } else {
            0int
        };
    let dropped = |b: int, p: int| before(b, p) - after(b, p);
    assert forall|b: int, p: int| 0 <= b < arrays.len() && 0 <= p < TICK_ARRAY_SIZE implies 0 <= #[trigger] dropped(
        b,
        p,
    ) by {
        lemma_with_tick_read(arrays, a, o, crossed, b, p);
    }
    lemma_with_tick_read(arrays, a, o, crossed, a, o);
    assert(dropped(a, o) == 1);
    lemma_grid_sum_at_least_term(dropped, a, o, arrays.len() as int);
    assert forall|b: int, p: int| 0 <= b < arrays.len() && 0 <= p < TICK_ARRAY_SIZE implies #[trigger] dropped(b, p)
        == before(b, p) - after(b, p) by {}
    lemma_grid_sum_sub(before, after, dropped, arrays.len() as int);
}

/// A swap walk that follows the loop takes at most one step more than the
/// number of ticks it could cross at the start, hence at most
/// `TICK_ARRAY_SIZE * arrays.len() + 1` steps: each step that reaches its
/// target removes a crossable tick, and a step that stops short uses up the
/// input and ends the loop.
pub proof fn law_swap_walk_terminates(
    progress: SwapProgress,
    pool: PoolState,
    arrays: Seq<TickArray>,
    steps: Seq<(NextTickCrossing, SwapStep, i32)>,
    a_to_b: bool,
)
    requires
        walk_follows_loop(progress, pool, arrays, steps, a_to_b),
        spec_swap_walk(progress, pool, arrays, steps, a_to_b) is Ok,
    ensures
        steps.len() <= crossing_candidates(arrays, pool.current_tick, pool.tick_spacing, a_to_b) + 1,
        steps.len() <= arrays.len() * TICK_ARRAY_SIZE + 1,
    decreases steps.len(),
{
    law_crossing_candidates_bounded(arrays, pool.current_tick, pool.tick_spacing, a_to_b);
    if steps.len() > 0 {
        let (crossing, step, tick_after_step) = steps[0];
        let next = spec_apply_step(progress, pool, arrays, crossing, step, tick_after_step, a_to_b)->Ok_0;
        let rest = steps.drop_first();
        law_swap_walk_terminates(next.0, next.1, next.2, rest, a_to_b);
        if step.reached_target_tick {
            law_reached_step_shrinks_crossing_candidates(progress, pool, arrays, crossing, step, tick_after_step, a_to_b);
        } else {
            assert(next.0.amount_remaining == 0);
            if rest.len() > 0 {
                assert(false);
            }
        }
    }
}

/// One applied step keeps the input committed, the fee and the tick
/// spacing, only shrinks the remaining input and grows the output, and grows
/// fee growth on the input token's side only.
pub proof fn lemma_apply_step_frame(
    progress: SwapProgress,
    pool: PoolState,
    arrays: Seq<TickArray>,
    crossing: NextTickCrossing,
    step: SwapStep,
    tick_after_step: i32,
    a_to_b: bool,
)
    requires
        spec_apply_step(progress, pool, arrays, crossing, step, tick_after_step, a_to_b) is Ok,
    ensures
        ({
            let (progress_after, pool_after, _) = spec_apply_step(
                progress,
                pool,
                arrays,
                crossing,
                step,
                tick_after_step,
                a_to_b,
            )->Ok_0;
            &&& progress_after.amount_in == progress.amount_in
            &&& progress_after.amount_remaining <= progress.amount_remaining
            &&& progress_after.amount_out >= progress.amount_out
            &&& pool_after.fee_bps == pool.fee_bps
            &&& pool_after.tick_spacing == pool.tick_spacing
            &&& if a_to_b {
                &&& pool_after.fee_growth_global_a_x64 >= pool.fee_growth_global_a_x64
                &&& pool_after.fee_growth_global_b_x64 == pool.fee_growth_global_b_x64
            } else {
                &&& pool_after.fee_growth_global_b_x64 >= pool.fee_growth_global_b_x64
                &&& pool_after.fee_growth_global_a_x64 == pool.fee_growth_global_a_x64
            }
        }),
{
    law_fee_growth_never_decreases(pool, input_side(a_to_b), step.fee_amount);
}

/// Over a whole walk the input committed stays the same and only shrinks as
/// remaining input; fee growth only grows, and only on the input token's
/// side; the fee and the tick spacing never change.
pub proof fn law_swap_walk_charges_input_side_only(
    progress: SwapProgress,
    pool: PoolState,
    arrays: Seq<TickArray>,
    steps: Seq<(NextTickCrossing, SwapStep, i32)>,
    a_to_b: bool,
)
    requires
        spec_swap_walk(progress, pool, arrays, steps, a_to_b) is Ok,
    ensures
        ({
            let (progress_after, pool_after, _) = spec_swap_walk(progress, pool, arrays, steps, a_to_b)->Ok_0;
            &&& progress_after.amount_in == progress.amount_in
            &&& progress_after.amount_remaining <= progress.amount_remaining
            &&& progress_after.amount_out >= progress.amount_out
            &&& pool_after.fee_bps == pool.fee_bps
            &&& pool_after.tick_spacing == pool.tick_spacing
            &&& if a_to_b {
                &&& pool_after.fee_growth_global_a_x64 >= pool.fee_growth_global_a_x64
                &&& pool_after.fee_growth_global_b_x64 == pool.fee_growth_global_b_x64
            } else {
                &&& pool_after.fee_growth_global_b_x64 >= pool.fee_growth_global_b_x64
                &&& pool_after.fee_growth_global_a_x64 == pool.fee_growth_global_a_x64
            }
        }),
    decreases steps.len(),
{
    if steps.len() > 0 {
        let (crossing, step, tick_after_step) = steps[0];
        let next = spec_apply_step(progress, pool, arrays, crossing, step, tick_after_step, a_to_b)->Ok_0;
        lemma_apply_step_frame(progress, pool, arrays, crossing, step, tick_after_step, a_to_b);
        law_swap_walk_charges_input_side_only(next.0, next.1, next.2, steps.drop_first(), a_to_b);
    }
}

/// A step aimed at the nearest crossing moves the current tick past no tick
/// with a non-zero net other than the one it crosses, when the ticks are
/// settled and no two positions hold the same tick.
pub proof fn law_nearest_step_passes_no_other_net(
    progress: SwapProgress,
    pool: PoolState,
    arrays: Seq<TickArray>,
    crossing: NextTickCrossing,
    step: SwapStep,
    tick_after_step: i32,
    a_to_b: bool,
)
    requires
        arrays_settled(arrays),
        tick_positions_distinct(arrays, pool.tick_spacing),
        is_first_nearest(arrays, crossing, pool.current_tick, pool.tick_spacing, a_to_b, arrays.len() as int, 0),
        spec_apply_step(progress, pool, arrays, crossing, step, tick_after_step, a_to_b) is Ok,
    ensures
        moves_past_no_other_net(
            pool,
            arrays,
            crossing,
            step,
            spec_apply_step(progress, pool, arrays, crossing, step, tick_after_step, a_to_b)->Ok_0.1.current_tick,
        ),
{
    let spacing = pool.tick_spacing;
    let fa = crossing.tick_array_list_index as int;
    let fo = crossing.tick_offset as int;
    let to = spec_apply_step(progress, pool, arrays, crossing, step, tick_after_step, a_to_b)->Ok_0.1.current_tick;
    assert forall|b: int, p: int|
        0 <= b < arrays.len() && 0 <= p < TICK_ARRAY_SIZE && !(step.reached_target_tick && b
            == crossing.tick_array_list_index && p == crossing.tick_offset) && #[trigger] tick_at(
            arrays,
            b,
            p,
        ).liquidity_net != 0 implies {
        let index = list_tick_index(arrays, b, p, spacing);
        !(pool.current_tick < index <= to) && !(to < index <= pool.current_tick)
    } by {
        let index = list_tick_index(arrays, b, p, spacing);
        assert(arrays[b].ticks@[p].settled());
        if (pool.current_tick < index <= to) || (to < index <= pool.current_tick) {
            assert(is_crossing_candidate(arrays, b, p, pool.current_tick, spacing, a_to_b));
            assert(scanned_before(b, p, arrays.len() as int, 0));
            assert(!reached_before(index, crossing.tick_index as int, a_to_b));
            if step.reached_target_tick {
                assert(b != fa || p != fo);
                assert(list_tick_index(arrays, b, p, spacing) != list_tick_index(arrays, fa, fo, spacing));
            }
        }
    }
}

/// Over a whole walk that follows the loop, on settled arrays in which no
/// two positions hold the same tick, the pool's active liquidity
/// changes by exactly as much as the sum of the nets at or below the current
/// tick. So a pool whose liquidity is that sum before the swap still has it
/// after.
pub proof fn law_swap_walk_moves_active_liquidity_with_ticks(
    progress: SwapProgress,
    pool: PoolState,
    arrays: Seq<TickArray>,
    steps: Seq<(NextTickCrossing, SwapStep, i32)>,
    a_to_b: bool,
)
    requires
        arrays_settled(arrays),
        tick_positions_distinct(arrays, pool.tick_spacing),
        walk_follows_loop(progress, pool, arrays, steps, a_to_b),
        spec_swap_walk(progress, pool, arrays, steps, a_to_b) is Ok,
    ensures
        ({
            let (_, pool_after, arrays_after) = spec_swap_walk(progress, pool, arrays, steps, a_to_b)->Ok_0;
            pool_after.liquidity - pool.liquidity == active_net(
                arrays_after,
                pool.tick_spacing,
                pool_after.current_tick,
            ) - active_net(arrays, pool.tick_spacing, pool.current_tick)
        }),
    decreases steps.len(),
{
    if steps.len() > 0 {
        let (crossing, step, tick_after_step) = steps[0];
        let next = spec_apply_step(progress, pool, arrays, crossing, step, tick_after_step, a_to_b)->Ok_0;
        let fa = crossing.tick_array_list_index as int;
        let fo = crossing.tick_offset as int;
        law_nearest_step_passes_no_other_net(progress, pool, arrays, crossing, step, tick_after_step, a_to_b);
        law_swap_step_moves_active_liquidity_with_ticks(progress, pool, arrays, crossing, step, tick_after_step, a_to_b);
        lemma_apply_step_frame(progress, pool, arrays, crossing, step, tick_after_step, a_to_b);
        law_swap_step_keeps_arrays_settled(progress, pool, arrays, crossing, step, tick_after_step, a_to_b);
        if step.reached_target_tick {
            let fee = spec_add_fee_growth(pool, input_side(a_to_b), step.fee_amount);
            let pool1 = PoolState { sqrt_price_x64: step.next_sqrt_price_x64, ..fee.1 };
            let crossed = crossed_tick(pool1, arrays[fa].ticks@[fo]);
            assert(next.2 == with_tick(arrays, fa, fo, crossed));
            assert forall|b: int, p: int| 0 <= b < arrays.len() && 0 <= p < TICK_ARRAY_SIZE implies #[trigger] list_tick_index(
                next.2,
                b,
                p,
                pool.tick_spacing,
            ) == list_tick_index(arrays, b, p, pool.tick_spacing) by {
                lemma_with_tick_read(arrays, fa, fo, crossed, b, p);
            }
            lemma_with_tick_read(arrays, fa, fo, crossed, fa, fo);
        }
        assert(tick_positions_distinct(next.2, next.1.tick_spacing));
        law_swap_walk_moves_active_liquidity_with_ticks(next.0, next.1, next.2, steps.drop_first(), a_to_b);
    }
}

/// A walk of at least one step leaves the pool at the end price of its last
/// step.
pub proof fn law_swap_walk_ends_at_last_step_price(
    progress: SwapProgress,
    pool: PoolState,
    arrays: Seq<TickArray>,
    steps: Seq<(NextTickCrossing, SwapStep, i32)>,
    a_to_b: bool,
)
    requires
        steps.len() > 0,
        spec_swap_walk(progress, pool, arrays, steps, a_to_b) is Ok,
    ensures
        spec_swap_walk(progress, pool, arrays, steps, a_to_b)->Ok_0.1.sqrt_price_x64 == steps.last().1.next_sqrt_price_x64,
    decreases steps.len(),
{
    let (crossing, step, tick_after_step) = steps[0];
    let next = spec_apply_step(progress, pool, arrays, crossing, step, tick_after_step, a_to_b)->Ok_0;
    let rest = steps.drop_first();
    if rest.len() > 0 {
        law_swap_walk_ends_at_last_step_price(next.0, next.1, next.2, rest, a_to_b);
        assert(rest.last() == steps.last());
    } else {
        assert(spec_swap_walk(next.0, next.1, next.2, rest, a_to_b) == Ok::<
            (SwapProgress, PoolState, Seq<TickArray>),
            ConcentratedLiquidityError,
        >(next));
        assert(next.1.sqrt_price_x64 == step.next_sqrt_price_x64);
    }
}

/// A swap walk that follows the loop keeps every tick array settled.
pub proof fn law_swap_walk_keeps_arrays_settled(
    progress: SwapProgress,
    pool: PoolState,
    arrays: Seq<TickArray>,
    steps: Seq<(NextTickCrossing, SwapStep, i32)>,
    a_to_b: bool,
)
    requires
        arrays_settled(arrays),
        walk_follows_loop(progress, pool, arrays, steps, a_to_b),
        spec_swap_walk(progress, pool, arrays, steps, a_to_b) is Ok,
    ensures
        arrays_settled(spec_swap_walk(progress, pool, arrays, steps, a_to_b)->Ok_0.2),
    decreases steps.len(),
{
    if steps.len() > 0 {
        let (crossing, step, tick_after_step) = steps[0];
        let next = spec_apply_step(progress, pool, arrays, crossing, step, tick_after_step, a_to_b)->Ok_0;
        law_swap_step_keeps_arrays_settled(progress, pool, arrays, crossing, step, tick_after_step, a_to_b);
        law_swap_walk_keeps_arrays_settled(next.0, next.1, next.2, steps.drop_first(), a_to_b);
    }
}

} // verus!
