//! Active liquidity and the tick nets.
//!
//! The pool's active liquidity is the liquidity of the positions whose range
//! holds the current tick. Each position adds `+L` to the net of its lower
//! boundary and `-L` to that of its upper one, so the active liquidity is the
//! sum of the nets of all ticks at or below the current tick. The laws below
//! show that creating and closing positions, and swap steps, change the
//! active liquidity by exactly as much as they change that sum over the tick
//! arrays they are given.

use vstd::prelude::*;

use crate::errors::ConcentratedLiquidityError;
use crate::instructions::close_position::spec_close_position;
use crate::instructions::create_position::spec_create_position;
use crate::instructions::swap::{spec_apply_step, SwapProgress};
use crate::math::{
    crossed_tick, lemma_offset_points_at_tick, list_tick_index, spec_add_fee_growth, spec_initialize_tick_fee_growths, spec_tick_offset,
    spec_update_tick_liquidity, tick_at, LiquidityQuote, NextTickCrossing, SwapStep,
};
use crate::pubkey::Pubkey;
use crate::state::{lemma_with_tick_read, with_tick, PoolState, Position, Tick, TickArray, TICK_ARRAY_SIZE};

verus! {

/// The sum of `f` over offsets `0..n` of array `b`.
pub open spec fn row_sum(f: spec_fn(int, int) -> int, b: int, n: int) -> int
    decreases n,
{
    if n <= 0 {
        0
    } else {
        row_sum(f, b, n - 1) + f(b, n - 1)
    }
}

/// The sum of `f` over every offset of arrays `0..m`.
pub open spec fn grid_sum(f: spec_fn(int, int) -> int, m: int) -> int
    decreases m,
{
    if m <= 0 {
        0
    } else {
        grid_sum(f, m - 1) + row_sum(f, m - 1, TICK_ARRAY_SIZE as int)
    }
}

/// Sums of pointwise differences are differences of sums (one array).
proof fn lemma_row_sum_sub(f: spec_fn(int, int) -> int, g: spec_fn(int, int) -> int, h: spec_fn(int, int) -> int, b: int, n: int)
    requires
        forall|p: int| 0 <= p < n ==> #[trigger] h(b, p) == f(b, p) - g(b, p),
    ensures
        row_sum(h, b, n) == row_sum(f, b, n) - row_sum(g, b, n),
    decreases n,
{
    if n > 0 {
        lemma_row_sum_sub(f, g, h, b, n - 1);
    }
}

/// Sums of pointwise differences are differences of sums.
pub proof fn lemma_grid_sum_sub(f: spec_fn(int, int) -> int, g: spec_fn(int, int) -> int, h: spec_fn(int, int) -> int, m: int)
    requires
        forall|b: int, p: int| 0 <= b < m && 0 <= p < TICK_ARRAY_SIZE ==> #[trigger] h(b, p) == f(b, p) - g(b, p),
    ensures
        grid_sum(h, m) == grid_sum(f, m) - grid_sum(g, m),
    decreases m,
{
    if m > 0 {
        lemma_grid_sum_sub(f, g, h, m - 1);
        assert forall|p: int| 0 <= p < TICK_ARRAY_SIZE implies #[trigger] h(m - 1, p) == f(m - 1, p) - g(m - 1, p) by {}
        lemma_row_sum_sub(f, g, h, m - 1, TICK_ARRAY_SIZE as int);
    }
}

/// A row whose terms vanish except possibly at `(b, o)` sums to that term.
proof fn lemma_row_sum_single(f: spec_fn(int, int) -> int, b: int, a: int, o: int, n: int)
    requires
        forall|p: int| 0 <= p < n && (b != a || p != o) ==> #[trigger] f(b, p) == 0,
    ensures
        row_sum(f, b, n) == if b == a && 0 <= o < n {
            f(a, o)
        } else {
            0
        },
    decreases n,
{
    if n > 0 {
        lemma_row_sum_single(f, b, a, o, n - 1);
    }
}

/// A grid whose terms vanish except possibly at `(a, o)` sums to that term.
pub proof fn lemma_grid_sum_single(f: spec_fn(int, int) -> int, a: int, o: int, m: int)
    requires
        0 <= o < TICK_ARRAY_SIZE,
        forall|b: int, p: int|
            0 <= b < m && 0 <= p < TICK_ARRAY_SIZE && (b != a || p != o) ==> #[trigger] f(b, p) == 0,
    ensures
        grid_sum(f, m) == if 0 <= a < m {
            f(a, o)
        } else {
            0
        },
    decreases m,
{
    if m > 0 {
        lemma_grid_sum_single(f, a, o, m - 1);
        assert forall|p: int| 0 <= p < TICK_ARRAY_SIZE && (m - 1 != a || p != o) implies #[trigger] f(m - 1, p)
            == 0 by {}
        lemma_row_sum_single(f, m - 1, a, o, TICK_ARRAY_SIZE as int);
    }
}

/// What the tick at `(b, p)` adds to the active liquidity at `current_tick`:
/// its net when it lies at or below the current tick.
pub open spec fn net_below(arrays: Seq<TickArray>, tick_spacing: u16, current_tick: i32, b: int, p: int) -> int {
    if list_tick_index(arrays, b, p, tick_spacing) <= current_tick {
        tick_at(arrays, b, p).liquidity_net as int
    } else {
        0
    }
}

/// The sum of the nets of all ticks at or below `current_tick`.
pub open spec fn active_net(arrays: Seq<TickArray>, tick_spacing: u16, current_tick: i32) -> int {
    grid_sum(|b: int, p: int| net_below(arrays, tick_spacing, current_tick, b, p), arrays.len() as int)
}

/// Replacing one tick changes the sum by the change of that tick's term.
pub proof fn lemma_active_net_with_tick(
    arrays: Seq<TickArray>,
    tick_spacing: u16,
    current_tick: i32,
    a: int,
    o: int,
    tick: Tick,
)
    requires
        0 <= a < arrays.len(),
        0 <= o < TICK_ARRAY_SIZE,
    ensures
        active_net(with_tick(arrays, a, o, tick), tick_spacing, current_tick) == active_net(
            arrays,
            tick_spacing,
            current_tick,
        ) + net_below(with_tick(arrays, a, o, tick), tick_spacing, current_tick, a, o) - net_below(
            arrays,
            tick_spacing,
            current_tick,
            a,
            o,
        ),
{
    let updated = with_tick(arrays, a, o, tick);
    let f = |b: int, p: int| net_below(updated, tick_spacing, current_tick, b, p);
    let g = |b: int, p: int| net_below(arrays, tick_spacing, current_tick, b, p);
    let h = |b: int, p: int| f(b, p) - g(b, p);
    assert forall|b: int, p: int|
        0 <= b < arrays.len() && 0 <= p < TICK_ARRAY_SIZE && (b != a || p != o) implies #[trigger] h(b, p) == 0 by {
        lemma_with_tick_read(arrays, a, o, tick, b, p);
    }
    lemma_grid_sum_single(h, a, o, arrays.len() as int);
    assert forall|b: int, p: int| 0 <= b < arrays.len() && 0 <= p < TICK_ARRAY_SIZE implies #[trigger] h(b, p)
        == f(b, p) - g(b, p) by {}
    lemma_grid_sum_sub(f, g, h, arrays.len() as int);
    assert(updated.len() == arrays.len());
}

/// Moving the current tick from `from` to `to` changes the sum by the net of
/// the only tick with a non-zero net that lies between them, if there is one:
/// added when moving up past it, removed when moving down past it.
pub proof fn lemma_active_net_move(
    arrays: Seq<TickArray>,
    tick_spacing: u16,
    from: i32,
    to: i32,
    a: int,
    o: int,
)
    requires
        0 <= o < TICK_ARRAY_SIZE,
        forall|b: int, p: int|
            0 <= b < arrays.len() && 0 <= p < TICK_ARRAY_SIZE && (b != a || p != o) && #[trigger] tick_at(
                arrays,
                b,
                p,
            ).liquidity_net != 0 ==> {
                let index = list_tick_index(arrays, b, p, tick_spacing);
                !(from < index <= to) && !(to < index <= from)
            },
    ensures
        active_net(arrays, tick_spacing, to) - active_net(arrays, tick_spacing, from) == if 0 <= a < arrays.len() {
            net_below(arrays, tick_spacing, to, a, o) - net_below(arrays, tick_spacing, from, a, o)
        } else {
            0
        },
{
    let f = |b: int, p: int| net_below(arrays, tick_spacing, to, b, p);
    let g = |b: int, p: int| net_below(arrays, tick_spacing, from, b, p);
    let h = |b: int, p: int| f(b, p) - g(b, p);
    assert forall|b: int, p: int|
        0 <= b < arrays.len() && 0 <= p < TICK_ARRAY_SIZE && (b != a || p != o) implies #[trigger] h(b, p) == 0 by {
        if tick_at(arrays, b, p).liquidity_net != 0 {
        }
    }
    lemma_grid_sum_single(h, a, o, arrays.len() as int);
    assert forall|b: int, p: int| 0 <= b < arrays.len() && 0 <= p < TICK_ARRAY_SIZE implies #[trigger] h(b, p)
        == f(b, p) - g(b, p) by {}
    lemma_grid_sum_sub(f, g, h, arrays.len() as int);
}

/// Arrays whose ticks are all zero, as new arrays are, sum to no active
/// liquidity, matching a new pool's zero liquidity.
pub proof fn law_zeroed_arrays_have_no_active_net(arrays: Seq<TickArray>, tick_spacing: u16, current_tick: i32)
    requires
        forall|b: int, p: int|
            0 <= b < arrays.len() && 0 <= p < TICK_ARRAY_SIZE ==> #[trigger] tick_at(arrays, b, p) == Tick::zeroed(),
    ensures
        active_net(arrays, tick_spacing, current_tick) == 0,
{
    let f = |b: int, p: int| net_below(arrays, tick_spacing, current_tick, b, p);
    assert forall|b: int, p: int|
        0 <= b < arrays.len() && 0 <= p < TICK_ARRAY_SIZE && (b != -1 || p != 0) implies #[trigger] f(b, p) == 0 by {
        assert(tick_at(arrays, b, p) == Tick::zeroed());
    }
    lemma_grid_sum_single(f, -1, 0, arrays.len() as int);
}

/// Creating a position changes the pool's active liquidity by exactly as much
/// as it changes the sum of the nets at or below the current tick.
pub proof fn law_create_moves_active_liquidity_with_ticks(
    pool: PoolState,
    pool_key: Pubkey,
    arrays: Seq<TickArray>,
    lower_array: int,
    upper_array: int,
    tick_lower: i32,
    tick_upper: i32,
    amount_a_max: u64,
    amount_b_max: u64,
    quote: Result<LiquidityQuote, ConcentratedLiquidityError>,
    position_mint: Pubkey,
    owner: Pubkey,
    bump: u8,
)
    requires
        0 <= lower_array < arrays.len(),
        0 <= upper_array < arrays.len(),
        spec_create_position(
            pool,
            pool_key,
            arrays,
            lower_array,
            upper_array,
            tick_lower,
            tick_upper,
            amount_a_max,
            amount_b_max,
            quote,
            position_mint,
            owner,
            bump,
        ) is Ok,
    ensures
        ({
            let (_, pool_after, arrays_after) = spec_create_position(
                pool,
                pool_key,
                arrays,
                lower_array,
                upper_array,
                tick_lower,
                tick_upper,
                amount_a_max,
                amount_b_max,
                quote,
                position_mint,
                owner,
                bump,
            )->Ok_0;
            &&& pool_after.current_tick == pool.current_tick
            &&& pool_after.tick_spacing == pool.tick_spacing
            &&& pool_after.liquidity - pool.liquidity == active_net(
                arrays_after,
                pool.tick_spacing,
                pool.current_tick,
            ) - active_net(arrays, pool.tick_spacing, pool.current_tick)
        }),
{
    let spacing = pool.tick_spacing;
    let current = pool.current_tick;
    let ga = pool.fee_growth_global_a_x64;
    let gb = pool.fee_growth_global_b_x64;
    let lower_start = arrays[lower_array].start_tick_index;
    let upper_start = arrays[upper_array].start_tick_index;
    let liquidity = quote->Ok_0.liquidity_delta as i128;
    let lo = spec_tick_offset(lower_start, tick_lower, spacing)->Ok_0 as int;
    let uo = spec_tick_offset(upper_start, tick_upper, spacing)->Ok_0 as int;
    lemma_offset_points_at_tick(lower_start, tick_lower, spacing);
    lemma_offset_points_at_tick(upper_start, tick_upper, spacing);
    assert(lower_array != upper_array || lo != uo);

    let lt1 = spec_initialize_tick_fee_growths(arrays[lower_array].ticks@[lo], tick_lower, current, ga, gb);
    let lt2 = spec_update_tick_liquidity(lt1, liquidity, false).1;
    let arrays1 = with_tick(arrays, lower_array, lo, lt2);
    lemma_with_tick_read(arrays, lower_array, lo, lt2, upper_array, uo);
    lemma_with_tick_read(arrays, lower_array, lo, lt2, lower_array, lo);
    let ut1 = spec_initialize_tick_fee_growths(arrays1[upper_array].ticks@[uo], tick_upper, current, ga, gb);
    let ut2 = spec_update_tick_liquidity(ut1, liquidity, true).1;
    let arrays2 = with_tick(arrays1, upper_array, uo, ut2);
    lemma_with_tick_read(arrays1, upper_array, uo, ut2, upper_array, uo);

    lemma_active_net_with_tick(arrays, spacing, current, lower_array, lo, lt2);
    lemma_active_net_with_tick(arrays1, spacing, current, upper_array, uo, ut2);
    assert(list_tick_index(arrays, lower_array, lo, spacing) == tick_lower);
    assert(list_tick_index(arrays1, upper_array, uo, spacing) == tick_upper);
    assert(lt2.liquidity_net == arrays[lower_array].ticks@[lo].liquidity_net + liquidity);
    assert(ut2.liquidity_net == arrays[upper_array].ticks@[uo].liquidity_net - liquidity);
}

/// Closing a position changes the pool's active liquidity by exactly as much
/// as it changes the sum of the nets at or below the current tick, provided
/// a boundary that the position leaves without gross liquidity carried only
/// this position's net (`+L` at the lower, `-L` at the upper boundary).
pub proof fn law_close_moves_active_liquidity_with_ticks(
    pool: PoolState,
    arrays: Seq<TickArray>,
    lower_array: int,
    upper_array: int,
    position: Position,
    amounts: Result<(u64, u64), ConcentratedLiquidityError>,
)
    requires
        0 <= lower_array < arrays.len(),
        0 <= upper_array < arrays.len(),
        pool.tick_spacing > 0,
        position.tick_lower < position.tick_upper,
        spec_close_position(pool, arrays, lower_array, upper_array, position, amounts) is Ok,
        ({
            let lo = spec_tick_offset(
                arrays[lower_array].start_tick_index,
                position.tick_lower,
                pool.tick_spacing,
            )->Ok_0 as int;
            let lower = arrays[lower_array].ticks@[lo];
            lower.liquidity_gross == position.liquidity_amount ==> lower.liquidity_net == position.liquidity_amount
        }),
        ({
            let uo = spec_tick_offset(
                arrays[upper_array].start_tick_index,
                position.tick_upper,
                pool.tick_spacing,
            )->Ok_0 as int;
            let upper = arrays[upper_array].ticks@[uo];
            upper.liquidity_gross == position.liquidity_amount ==> upper.liquidity_net == -position.liquidity_amount
        }),
    ensures
        ({
            let (_, _, pool_after, arrays_after) = spec_close_position(
                pool,
                arrays,
                lower_array,
                upper_array,
                position,
                amounts,
            )->Ok_0;
            &&& pool_after.current_tick == pool.current_tick
            &&& pool_after.liquidity - pool.liquidity == active_net(
                arrays_after,
                pool.tick_spacing,
                pool.current_tick,
            ) - active_net(arrays, pool.tick_spacing, pool.current_tick)
        }),
{
    let spacing = pool.tick_spacing;
    let current = pool.current_tick;
    let lower_start = arrays[lower_array].start_tick_index;
    let upper_start = arrays[upper_array].start_tick_index;
    let lo = spec_tick_offset(lower_start, position.tick_lower, spacing)->Ok_0 as int;
    let uo = spec_tick_offset(upper_start, position.tick_upper, spacing)->Ok_0 as int;
    lemma_offset_points_at_tick(lower_start, position.tick_lower, spacing);
    lemma_offset_points_at_tick(upper_start, position.tick_upper, spacing);
    let removal = (-position.liquidity_amount) as i128;
    let lt = arrays[lower_array].ticks@[lo];
    let lt2 = spec_update_tick_liquidity(lt, removal, false).1;
    let arrays1 = with_tick(arrays, lower_array, lo, lt2);
    lemma_with_tick_read(arrays, lower_array, lo, lt2, lower_array, lo);
    lemma_with_tick_read(arrays, lower_array, lo, lt2, upper_array, uo);
    let ut = arrays1[upper_array].ticks@[uo];
    let ut2 = spec_update_tick_liquidity(ut, removal, true).1;
    lemma_with_tick_read(arrays1, upper_array, uo, ut2, upper_array, uo);

    lemma_active_net_with_tick(arrays, spacing, current, lower_array, lo, lt2);
    lemma_active_net_with_tick(arrays1, spacing, current, upper_array, uo, ut2);
    assert(list_tick_index(arrays, lower_array, lo, spacing) == position.tick_lower);
    assert(list_tick_index(arrays1, upper_array, uo, spacing) == position.tick_upper);
    assert(lt2.liquidity_net == lt.liquidity_net - position.liquidity_amount);
    assert(lower_array != upper_array || lo != uo);
    assert(ut == arrays[upper_array].ticks@[uo]);
    assert(ut2.liquidity_net == ut.liquidity_net + position.liquidity_amount);
}

/// Moving the current tick from the pool's to `to` passes no tick with a
/// non-zero net, other than the tick the step crosses if it reaches it.
pub open spec fn moves_past_no_other_net(
    pool: PoolState,
    arrays: Seq<TickArray>,
    crossing: NextTickCrossing,
    step: SwapStep,
    to: i32,
) -> bool {
    forall|b: int, p: int|
        0 <= b < arrays.len() && 0 <= p < TICK_ARRAY_SIZE && !(step.reached_target_tick && b
            == crossing.tick_array_list_index && p == crossing.tick_offset) && #[trigger] tick_at(
            arrays,
            b,
            p,
        ).liquidity_net != 0 ==> {
            let index = list_tick_index(arrays, b, p, pool.tick_spacing);
            !(pool.current_tick < index <= to) && !(to < index <= pool.current_tick)
        }
}

/// A swap step changes the pool's active liquidity by exactly as much as
/// the sum of the nets at or below the current tick changes, when the step
/// moves the current tick past no tick with a net other than the one it
/// crosses.
pub proof fn law_swap_step_moves_active_liquidity_with_ticks(
    progress: SwapProgress,
    pool: PoolState,
    arrays: Seq<TickArray>,
    crossing: NextTickCrossing,
    step: SwapStep,
    tick_after_step: i32,
    a_to_b: bool,
)
    requires
        crossing.tick_array_list_index < arrays.len(),
        crossing.tick_offset < TICK_ARRAY_SIZE,
        crossing.tick_index == list_tick_index(
            arrays,
            crossing.tick_array_list_index as int,
            crossing.tick_offset as int,
            pool.tick_spacing,
        ),
        step.reached_target_tick ==> if a_to_b {
            crossing.tick_index <= pool.current_tick
        } else {
            crossing.tick_index > pool.current_tick
        },
        spec_apply_step(progress, pool, arrays, crossing, step, tick_after_step, a_to_b) is Ok,
        moves_past_no_other_net(
            pool,
            arrays,
            crossing,
            step,
            spec_apply_step(progress, pool, arrays, crossing, step, tick_after_step, a_to_b)->Ok_0.1.current_tick,
        ),
    ensures
        ({
            let (_, pool_after, arrays_after) = spec_apply_step(
                progress,
                pool,
                arrays,
                crossing,
                step,
                tick_after_step,
                a_to_b,
            )->Ok_0;
            pool_after.liquidity - pool.liquidity == active_net(
                arrays_after,
                pool.tick_spacing,
                pool_after.current_tick,
            ) - active_net(arrays, pool.tick_spacing, pool.current_tick)
        }),
{
    let spacing = pool.tick_spacing;
    let a = crossing.tick_array_list_index as int;
    let o = crossing.tick_offset as int;
    let result = spec_apply_step(progress, pool, arrays, crossing, step, tick_after_step, a_to_b)->Ok_0;
    let to = result.1.current_tick;
    if step.reached_target_tick {
        let fee = spec_add_fee_growth(pool, crate::instructions::swap::input_side(a_to_b), step.fee_amount);
        let pool1 = PoolState { sqrt_price_x64: step.next_sqrt_price_x64, ..fee.1 };
        let tick = arrays[a].ticks@[o];
        let crossed = crossed_tick(pool1, tick);
        lemma_with_tick_read(arrays, a, o, crossed, a, o);
        lemma_active_net_with_tick(arrays, spacing, to, a, o, crossed);
        lemma_active_net_move(arrays, spacing, pool.current_tick, to, a, o);
    } else {
        lemma_active_net_move(arrays, spacing, pool.current_tick, to, -1, 0);
    }
}

} // verus!
