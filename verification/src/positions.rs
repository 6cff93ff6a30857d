//! The ticks and the active liquidity as sums over the open positions.
//!
//! Each open position adds its liquidity `L` to the gross liquidity of both
//! its boundary ticks, `+L` to the net of its lower boundary and `-L` to the
//! net of its upper one, and to the pool's active liquidity while its range
//! `[tick_lower, tick_upper)` holds the current tick. `pool_matches_positions`
//! states this of a pool, its tick arrays and its open positions; the laws
//! below show that a new pool has it, and that creating a position, closing
//! one and a whole swap keep it.

use vstd::prelude::*;

use crate::errors::ConcentratedLiquidityError;
use crate::instructions::close_position::{law_close_keeps_arrays_settled, spec_close_position};
use crate::instructions::create_position::{law_create_keeps_arrays_settled, spec_create_position};
use crate::liquidity::{
    active_net, grid_sum, law_close_moves_active_liquidity_with_ticks, law_create_moves_active_liquidity_with_ticks,
    lemma_grid_sum_single, lemma_grid_sum_sub, net_below,
};
use crate::math::{
    lemma_offset_points_at_tick, list_tick_index, spec_initialize_tick_fee_growths, spec_tick_offset,
    spec_update_tick_liquidity, tick_at, LiquidityQuote,
};
use crate::pubkey::Pubkey;
use crate::state::{
    arrays_settled, lemma_with_tick_read, with_tick, PoolState, Position, Tick, TickArray, TICK_ARRAY_SIZE,
};
use crate::instructions::swap::{input_side, spec_apply_step, SwapProgress};
use crate::math::{crossed_tick, spec_add_fee_growth, NextTickCrossing, SwapStep};
use crate::swap_walk::{
    law_swap_walk_charges_input_side_only, law_swap_walk_keeps_arrays_settled, lemma_apply_step_frame,
    law_swap_walk_moves_active_liquidity_with_ticks, spec_swap_walk, tick_positions_distinct, walk_follows_loop,
};

verus! {

/// What a position adds to the gross liquidity of tick `t`.
pub open spec fn boundary_gross(position: Position, t: int) -> int {
    (if position.tick_lower == t {
        position.liquidity_amount as int
    } else {
        0
    }) + (if position.tick_upper == t {
        position.liquidity_amount as int
    } else {
        0
    })
}

/// What a position adds to the net liquidity of tick `t`.
pub open spec fn boundary_net(position: Position, t: int) -> int {
    (if position.tick_lower == t {
        position.liquidity_amount as int
    } else {
        0
    }) - (if position.tick_upper == t {
        position.liquidity_amount as int
    } else {
        0
    })
}

/// The gross liquidity that the positions put on tick `t`.
pub open spec fn gross_at(positions: Seq<Position>, t: int) -> int
    decreases positions.len(),
{
    if positions.len() == 0 {
        0
    } else {
        gross_at(positions.drop_last(), t) + boundary_gross(positions.last(), t)
    }
}

/// The net liquidity that the positions put on tick `t`.
pub open spec fn net_at(positions: Seq<Position>, t: int) -> int
    decreases positions.len(),
{
    if positions.len() == 0 {
        0
    } else {
        net_at(positions.drop_last(), t) + boundary_net(positions.last(), t)
    }
}

/// Every open position has a non-empty range and some liquidity.
pub open spec fn positions_well_formed(positions: Seq<Position>) -> bool {
    forall|i: int|
        #![trigger positions[i]]
        0 <= i < positions.len() ==> positions[i].tick_lower < positions[i].tick_upper
            && positions[i].liquidity_amount > 0
}

/// Every tick of the arrays holds the gross and net liquidity that the
/// positions put on its index.
pub open spec fn ticks_match_positions(arrays: Seq<TickArray>, tick_spacing: u16, positions: Seq<Position>) -> bool {
    forall|b: int, p: int|
        #![trigger tick_at(arrays, b, p)]
        0 <= b < arrays.len() && 0 <= p < TICK_ARRAY_SIZE ==> {
            &&& tick_at(arrays, b, p).liquidity_gross == gross_at(
                positions,
                list_tick_index(arrays, b, p, tick_spacing),
            )
            &&& tick_at(arrays, b, p).liquidity_net == net_at(positions, list_tick_index(arrays, b, p, tick_spacing))
        }
}

/// Taking one position out of the sums takes out exactly its terms.
proof fn lemma_sums_without(positions: Seq<Position>, k: int, t: int)
    requires
        0 <= k < positions.len(),
    ensures
        gross_at(positions, t) == gross_at(positions.remove(k), t) + boundary_gross(positions[k], t),
        net_at(positions, t) == net_at(positions.remove(k), t) + boundary_net(positions[k], t),
    decreases positions.len(),
{
    if k == positions.len() - 1 {
        assert(positions.remove(k) =~= positions.drop_last());
    } else {
        let rest = positions.drop_last();
        lemma_sums_without(rest, k, t);
        let removed = positions.remove(k);
        assert(removed.drop_last() =~= rest.remove(k));
        assert(removed.last() == positions.last());
    }
}

/// Appending one position adds exactly its terms to the sums.
proof fn lemma_sums_with(positions: Seq<Position>, position: Position, t: int)
    ensures
        gross_at(positions.push(position), t) == gross_at(positions, t) + boundary_gross(position, t),
        net_at(positions.push(position), t) == net_at(positions, t) + boundary_net(position, t),
{
    assert(positions.push(position).drop_last() =~= positions);
}

/// Well-formed positions that put no gross liquidity on a tick put no net
/// liquidity on it either.
proof fn lemma_no_gross_no_net(positions: Seq<Position>, t: int)
    requires
        positions_well_formed(positions),
    ensures
        gross_at(positions, t) >= 0,
        gross_at(positions, t) == 0 ==> net_at(positions, t) == 0,
    decreases positions.len(),
{
    if positions.len() > 0 {
        let rest = positions.drop_last();
        assert forall|i: int| #![trigger rest[i]] 0 <= i < rest.len() implies rest[i].tick_lower < rest[i].tick_upper
            && rest[i].liquidity_amount > 0 by {
            assert(rest[i] == positions[i]);
        }
        lemma_no_gross_no_net(rest, t);
        assert(positions[positions.len() - 1] == positions.last());
    }
}

/// Taking a position out of well-formed positions leaves them well formed.
proof fn lemma_without_well_formed(positions: Seq<Position>, k: int)
    requires
        positions_well_formed(positions),
        0 <= k < positions.len(),
    ensures
        positions_well_formed(positions.remove(k)),
{
    let rest = positions.remove(k);
    assert forall|i: int| #![trigger rest[i]] 0 <= i < rest.len() implies rest[i].tick_lower < rest[i].tick_upper
        && rest[i].liquidity_amount > 0 by {
        if i < k {
            assert(rest[i] == positions[i]);
        } else {
            assert(rest[i] == positions[i + 1]);
        }
    }
}

/// On ticks that match the positions, a boundary of an open position whose
/// gross liquidity is that position's alone carries only that position's
/// net: `+L` at its lower boundary, `-L` at its upper one.
pub proof fn law_lone_boundary_carries_only_its_net(
    arrays: Seq<TickArray>,
    tick_spacing: u16,
    positions: Seq<Position>,
    k: int,
    b: int,
    p: int,
)
    requires
        positions_well_formed(positions),
        ticks_match_positions(arrays, tick_spacing, positions),
        0 <= k < positions.len(),
        0 <= b < arrays.len(),
        0 <= p < TICK_ARRAY_SIZE,
    ensures
        ({
            let position = positions[k];
            let tick = tick_at(arrays, b, p);
            let index = list_tick_index(arrays, b, p, tick_spacing);
            &&& index == position.tick_lower && tick.liquidity_gross == position.liquidity_amount
                ==> tick.liquidity_net == position.liquidity_amount
            &&& index == position.tick_upper && tick.liquidity_gross == position.liquidity_amount
                ==> tick.liquidity_net == -position.liquidity_amount
        }),
{
    let index = list_tick_index(arrays, b, p, tick_spacing);
    assert(positions[k].tick_lower < positions[k].tick_upper);
    lemma_sums_without(positions, k, index);
    lemma_without_well_formed(positions, k);
    lemma_no_gross_no_net(positions.remove(k), index);
}

/// Closing an open position of a pool whose ticks match its open positions
/// changes the pool's active liquidity by exactly as much as it changes the
/// sum of the nets at or below the current tick.
pub proof fn law_close_of_open_position_moves_active_liquidity_with_ticks(
    pool: PoolState,
    arrays: Seq<TickArray>,
    lower_array: int,
    upper_array: int,
    positions: Seq<Position>,
    k: int,
    amounts: Result<(u64, u64), ConcentratedLiquidityError>,
)
    requires
        0 <= lower_array < arrays.len(),
        0 <= upper_array < arrays.len(),
        pool.tick_spacing > 0,
        positions_well_formed(positions),
        ticks_match_positions(arrays, pool.tick_spacing, positions),
        0 <= k < positions.len(),
        spec_close_position(pool, arrays, lower_array, upper_array, positions[k], amounts) is Ok,
    ensures
        ({
            let (_, _, pool_after, arrays_after) = spec_close_position(
                pool,
                arrays,
                lower_array,
                upper_array,
                positions[k],
                amounts,
            )->Ok_0;
            &&& pool_after.current_tick == pool.current_tick
            &&& pool_after.liquidity - pool.liquidity == active_net(
                arrays_after,
                pool.tick_spacing,
                pool.current_tick,
            ) - active_net(arrays, pool.tick_spacing, pool.current_tick)
        }),
{
    let position = positions[k];
    let spacing = pool.tick_spacing;
    let lower_start = arrays[lower_array].start_tick_index;
    let upper_start = arrays[upper_array].start_tick_index;
    assert(position.tick_lower < position.tick_upper);
    lemma_offset_points_at_tick(lower_start, position.tick_lower, spacing);
    lemma_offset_points_at_tick(upper_start, position.tick_upper, spacing);
    let lo = spec_tick_offset(lower_start, position.tick_lower, spacing)->Ok_0 as int;
    let uo = spec_tick_offset(upper_start, position.tick_upper, spacing)->Ok_0 as int;
    law_lone_boundary_carries_only_its_net(arrays, spacing, positions, k, lower_array, lo);
    law_lone_boundary_carries_only_its_net(arrays, spacing, positions, k, upper_array, uo);
    law_close_moves_active_liquidity_with_ticks(pool, arrays, lower_array, upper_array, position, amounts);
}

/// Closing an open position keeps the ticks matching the positions that
/// stay open, when no two positions of the arrays hold the same tick.
pub proof fn law_close_keeps_ticks_matching_positions(
    pool: PoolState,
    arrays: Seq<TickArray>,
    lower_array: int,
    upper_array: int,
    positions: Seq<Position>,
    k: int,
    amounts: Result<(u64, u64), ConcentratedLiquidityError>,
)
    requires
        0 <= lower_array < arrays.len(),
        0 <= upper_array < arrays.len(),
        pool.tick_spacing > 0,
        positions_well_formed(positions),
        ticks_match_positions(arrays, pool.tick_spacing, positions),
        tick_positions_distinct(arrays, pool.tick_spacing),
        0 <= k < positions.len(),
        spec_close_position(pool, arrays, lower_array, upper_array, positions[k], amounts) is Ok,
    ensures
        positions_well_formed(positions.remove(k)),
        ticks_match_positions(
            spec_close_position(pool, arrays, lower_array, upper_array, positions[k], amounts)->Ok_0.3,
            pool.tick_spacing,
            positions.remove(k),
        ),
{
    let position = positions[k];
    let rest = positions.remove(k);
    let spacing = pool.tick_spacing;
    let lower_start = arrays[lower_array].start_tick_index;
    let upper_start = arrays[upper_array].start_tick_index;
    assert(position.tick_lower < position.tick_upper && position.liquidity_amount > 0);
    lemma_offset_points_at_tick(lower_start, position.tick_lower, spacing);
    lemma_offset_points_at_tick(upper_start, position.tick_upper, spacing);
    let lo = spec_tick_offset(lower_start, position.tick_lower, spacing)->Ok_0 as int;
    let uo = spec_tick_offset(upper_start, position.tick_upper, spacing)->Ok_0 as int;
    assert(list_tick_index(arrays, lower_array, lo, spacing) == position.tick_lower);
    assert(list_tick_index(arrays, upper_array, uo, spacing) == position.tick_upper);
    let removal = (-position.liquidity_amount) as i128;
    let lt = arrays[lower_array].ticks@[lo];
    let lt2 = spec_update_tick_liquidity(lt, removal, false).1;
    let arrays1 = with_tick(arrays, lower_array, lo, lt2);
    let ut = arrays1[upper_array].ticks@[uo];
    let ut2 = spec_update_tick_liquidity(ut, removal, true).1;
    let arrays2 = with_tick(arrays1, upper_array, uo, ut2);
    assert(arrays2 == spec_close_position(pool, arrays, lower_array, upper_array, position, amounts)->Ok_0.3);
    assert(spec_update_tick_liquidity(lt, removal, false).0 is Ok);
    assert(spec_update_tick_liquidity(ut, removal, true).0 is Ok);
    lemma_without_well_formed(positions, k);
    assert(lower_array != upper_array || lo != uo);
    lemma_with_tick_read(arrays, lower_array, lo, lt2, upper_array, uo);
    assert(ut == arrays[upper_array].ticks@[uo]);
    assert forall|b: int, p: int| 0 <= b < arrays2.len() && 0 <= p < TICK_ARRAY_SIZE implies {
        &&& #[trigger] tick_at(arrays2, b, p).liquidity_gross == gross_at(rest, list_tick_index(arrays2, b, p, spacing))
        &&& tick_at(arrays2, b, p).liquidity_net == net_at(rest, list_tick_index(arrays2, b, p, spacing))
    } by {
        lemma_with_tick_read(arrays, lower_array, lo, lt2, b, p);
        lemma_with_tick_read(arrays1, upper_array, uo, ut2, b, p);
        let index = list_tick_index(arrays, b, p, spacing);
        assert(tick_at(arrays, b, p) == arrays[b].ticks@[p]);
        assert(list_tick_index(arrays2, b, p, spacing) == index);
        lemma_sums_without(positions, k, index);
        lemma_no_gross_no_net(rest, index);
        if b == upper_array && p == uo {
            assert(index == position.tick_upper);
            assert(tick_at(arrays2, b, p) == ut2);
            assert(gross_at(rest, index) == ut.liquidity_gross - position.liquidity_amount);
            assert(net_at(rest, index) == ut.liquidity_net + position.liquidity_amount);
            assert(tick_at(arrays2, b, p).liquidity_gross == gross_at(rest, index));
            assert(tick_at(arrays2, b, p).liquidity_net == net_at(rest, index));
        } else if b == lower_array && p == lo {
            assert(index == position.tick_lower);
            assert(tick_at(arrays2, b, p) == lt2);
            assert(tick_at(arrays2, b, p).liquidity_gross == gross_at(rest, index));
            assert(tick_at(arrays2, b, p).liquidity_net == net_at(rest, index));
        } else {
            assert(index != position.tick_lower);
            assert(index != position.tick_upper);
            assert(tick_at(arrays2, b, p) == tick_at(arrays, b, p));
            assert(tick_at(arrays2, b, p).liquidity_gross == gross_at(rest, index));
            assert(tick_at(arrays2, b, p).liquidity_net == net_at(rest, index));
        }
    }
    assert(ticks_match_positions(arrays2, spacing, rest));
}

/// Creating a position keeps the ticks matching the open positions, the new
/// one among them, when no two positions of the arrays hold the same tick.
pub proof fn law_create_keeps_ticks_matching_positions(
    pool: PoolState,
    pool_key: Pubkey,
    arrays: Seq<TickArray>,
    lower_array: int,
    upper_array: int,
    tick_lower: i32,
    tick_upper: i32,
    amount_a_max: u64,
    amount_b_max: u64,
    quote: Result<LiquidityQuote, ConcentratedLiquidityError>,
    position_mint: Pubkey,
    owner: Pubkey,
    bump: u8,
    positions: Seq<Position>,
)
    requires
        0 <= lower_array < arrays.len(),
        0 <= upper_array < arrays.len(),
        positions_well_formed(positions),
        ticks_match_positions(arrays, pool.tick_spacing, positions),
        tick_positions_distinct(arrays, pool.tick_spacing),
        spec_create_position(
            pool,
            pool_key,
            arrays,
            lower_array,
            upper_array,
            tick_lower,
            tick_upper,
            amount_a_max,
            amount_b_max,
            quote,
            position_mint,
            owner,
            bump,
        ) is Ok,
    ensures
        ({
            let (position, _, arrays_after) = spec_create_position(
                pool,
                pool_key,
                arrays,
                lower_array,
                upper_array,
                tick_lower,
                tick_upper,
                amount_a_max,
                amount_b_max,
                quote,
                position_mint,
                owner,
                bump,
            )->Ok_0;
            &&& positions_well_formed(positions.push(position))
            &&& ticks_match_positions(arrays_after, pool.tick_spacing, positions.push(position))
        }),
{
    let spacing = pool.tick_spacing;
    let current = pool.current_tick;
    let ga = pool.fee_growth_global_a_x64;
    let gb = pool.fee_growth_global_b_x64;
    let lower_start = arrays[lower_array].start_tick_index;
    let upper_start = arrays[upper_array].start_tick_index;
    let result = spec_create_position(
        pool,
        pool_key,
        arrays,
        lower_array,
        upper_array,
        tick_lower,
        tick_upper,
        amount_a_max,
        amount_b_max,
        quote,
        position_mint,
        owner,
        bump,
    )->Ok_0;
    let position = result.0;
    let all = positions.push(position);
    let liquidity = quote->Ok_0.liquidity_delta as i128;
    let lo = spec_tick_offset(lower_start, tick_lower, spacing)->Ok_0 as int;
    let uo = spec_tick_offset(upper_start, tick_upper, spacing)->Ok_0 as int;
    lemma_offset_points_at_tick(lower_start, tick_lower, spacing);
    lemma_offset_points_at_tick(upper_start, tick_upper, spacing);
    assert(list_tick_index(arrays, lower_array, lo, spacing) == tick_lower);
    assert(list_tick_index(arrays, upper_array, uo, spacing) == tick_upper);
    assert(lower_array != upper_array || lo != uo);
    let lt1 = spec_initialize_tick_fee_growths(arrays[lower_array].ticks@[lo], tick_lower, current, ga, gb);
    let lt2 = spec_update_tick_liquidity(lt1, liquidity, false).1;
    let arrays1 = with_tick(arrays, lower_array, lo, lt2);
    lemma_with_tick_read(arrays, lower_array, lo, lt2, upper_array, uo);
    let ut1 = spec_initialize_tick_fee_growths(arrays1[upper_array].ticks@[uo], tick_upper, current, ga, gb);
    let ut2 = spec_update_tick_liquidity(ut1, liquidity, true).1;
    let arrays2 = with_tick(arrays1, upper_array, uo, ut2);
    assert(arrays2 == result.2);
    assert(spec_update_tick_liquidity(lt1, liquidity, false).0 is Ok);
    assert(spec_update_tick_liquidity(ut1, liquidity, true).0 is Ok);
    assert(ut1 == spec_initialize_tick_fee_growths(arrays[upper_array].ticks@[uo], tick_upper, current, ga, gb));
    assert(position.tick_lower == tick_lower && position.tick_upper == tick_upper);
    assert(position.liquidity_amount > 0);
    assert forall|i: int| #![trigger all[i]] 0 <= i < all.len() implies all[i].tick_lower < all[i].tick_upper
        && all[i].liquidity_amount > 0 by {
        if i < positions.len() {
            assert(all[i] == positions[i]);
        }
    }
    assert forall|b: int, p: int| 0 <= b < arrays2.len() && 0 <= p < TICK_ARRAY_SIZE implies {
        &&& #[trigger] tick_at(arrays2, b, p).liquidity_gross == gross_at(all, list_tick_index(arrays2, b, p, spacing))
        &&& tick_at(arrays2, b, p).liquidity_net == net_at(all, list_tick_index(arrays2, b, p, spacing))
    } by {
        lemma_with_tick_read(arrays, lower_array, lo, lt2, b, p);
        lemma_with_tick_read(arrays1, upper_array, uo, ut2, b, p);
        let index = list_tick_index(arrays, b, p, spacing);
        assert(tick_at(arrays, b, p) == arrays[b].ticks@[p]);
        assert(list_tick_index(arrays2, b, p, spacing) == index);
        lemma_sums_with(positions, position, index);
        if b == upper_array && p == uo {
            assert(index == tick_upper);
            assert(tick_at(arrays2, b, p) == ut2);
            assert(ut1.liquidity_gross == tick_at(arrays, b, p).liquidity_gross);
            assert(ut1.liquidity_net == tick_at(arrays, b, p).liquidity_net);
            assert(tick_at(arrays2, b, p).liquidity_gross == gross_at(all, index));
            assert(tick_at(arrays2, b, p).liquidity_net == net_at(all, index));
        } else if b == lower_array && p == lo {
            assert(index == tick_lower);
            assert(tick_at(arrays2, b, p) == lt2);
            assert(tick_at(arrays2, b, p).liquidity_gross == gross_at(all, index));
            assert(tick_at(arrays2, b, p).liquidity_net == net_at(all, index));
        } else {
            assert(index != tick_lower);
            assert(index != tick_upper);
            assert(tick_at(arrays2, b, p) == tick_at(arrays, b, p));
            assert(boundary_gross(position, index) == 0);
            assert(tick_at(arrays2, b, p).liquidity_gross == gross_at(all, index));
            assert(tick_at(arrays2, b, p).liquidity_net == net_at(all, index));
        }
    }
    assert(ticks_match_positions(arrays2, spacing, all));
}

/// The liquidity of the positions whose range `[tick_lower, tick_upper)`
/// holds `current_tick`.
pub open spec fn in_range_liquidity(positions: Seq<Position>, current_tick: int) -> int
    decreases positions.len(),
{
    if positions.len() == 0 {
        0
    } else {
        in_range_liquidity(positions.drop_last(), current_tick) + (if positions.last().tick_lower <= current_tick
            < positions.last().tick_upper {
            positions.last().liquidity_amount as int
        } else {
            0
        })
    }
}

/// Some position of the arrays holds tick `t`.
pub open spec fn holds_tick(arrays: Seq<TickArray>, tick_spacing: u16, t: int) -> bool {
    exists|b: int, p: int|
        0 <= b < arrays.len() && 0 <= p < TICK_ARRAY_SIZE && #[trigger] list_tick_index(arrays, b, p, tick_spacing) == t
}

/// The arrays hold a tick at both boundaries of every position.
pub open spec fn positions_covered(arrays: Seq<TickArray>, tick_spacing: u16, positions: Seq<Position>) -> bool {
    forall|i: int|
        #![trigger positions[i]]
        0 <= i < positions.len() ==> holds_tick(arrays, tick_spacing, positions[i].tick_lower as int) && holds_tick(
            arrays,
            tick_spacing,
            positions[i].tick_upper as int,
        )
}

/// The pool's state agrees with its open positions: the positions are well
/// formed, the arrays hold both boundaries of each at distinct ticks, every
/// tick holds the sums the positions put on it and is settled, and the pool's active
/// liquidity is the liquidity of the positions whose range holds the current
/// tick.
pub open spec fn pool_matches_positions(pool: PoolState, arrays: Seq<TickArray>, positions: Seq<Position>) -> bool {
    &&& pool.tick_spacing > 0
    &&& arrays_settled(arrays)
    &&& positions_well_formed(positions)
    &&& tick_positions_distinct(arrays, pool.tick_spacing)
    &&& positions_covered(arrays, pool.tick_spacing, positions)
    &&& ticks_match_positions(arrays, pool.tick_spacing, positions)
    &&& pool.liquidity == in_range_liquidity(positions, pool.current_tick as int)
}

/// Grids of pointwise equal terms have equal sums.
proof fn lemma_grid_sum_ext(f: spec_fn(int, int) -> int, g: spec_fn(int, int) -> int, m: int)
    requires
        forall|b: int, p: int| 0 <= b < m && 0 <= p < TICK_ARRAY_SIZE ==> #[trigger] f(b, p) == g(b, p),
    ensures
        grid_sum(f, m) == grid_sum(g, m),
{
    let zero = |b: int, p: int| 0int;
    lemma_grid_sum_single(zero, -1, 0, m);
    assert forall|b: int, p: int| 0 <= b < m && 0 <= p < TICK_ARRAY_SIZE implies #[trigger] zero(b, p) == f(b, p)
        - g(b, p) by {}
    lemma_grid_sum_sub(f, g, zero, m);
}

/// The term a tick at `(b, p)` adds to the active liquidity at
/// `current_tick` when it holds the net that `positions` put on it.
pub open spec fn positions_net_below(
    arrays: Seq<TickArray>,
    tick_spacing: u16,
    positions: Seq<Position>,
    current_tick: int,
    b: int,
    p: int,
) -> int {
    let index = list_tick_index(arrays, b, p, tick_spacing);
    if index <= current_tick {
        net_at(positions, index)
    } else {
        0
    }
}

/// One position's boundaries, each held once by the arrays, add its
/// liquidity to the sum of the nets at or below the current tick exactly
/// when its range holds the current tick.
proof fn lemma_one_position_net_below(
    arrays: Seq<TickArray>,
    tick_spacing: u16,
    position: Position,
    current_tick: int,
)
    requires
        tick_positions_distinct(arrays, tick_spacing),
        position.tick_lower < position.tick_upper,
        holds_tick(arrays, tick_spacing, position.tick_lower as int),
        holds_tick(arrays, tick_spacing, position.tick_upper as int),
    ensures
        grid_sum(
            |b: int, p: int|
                {
                    let index = list_tick_index(arrays, b, p, tick_spacing);
                    if index <= current_tick {
                        boundary_net(position, index)
                    } else {
                        0
                    }
                },
            arrays.len() as int,
        ) == if position.tick_lower <= current_tick < position.tick_upper {
            position.liquidity_amount as int
        } else {
            0
        },
{
    let m = arrays.len() as int;
    let l = position.liquidity_amount as int;
    let (la, lo) = choose|b: int, p: int|
        0 <= b < arrays.len() && 0 <= p < TICK_ARRAY_SIZE && #[trigger] list_tick_index(arrays, b, p, tick_spacing)
            == position.tick_lower;
    let (ua, uo) = choose|b: int, p: int|
        0 <= b < arrays.len() && 0 <= p < TICK_ARRAY_SIZE && #[trigger] list_tick_index(arrays, b, p, tick_spacing)
            == position.tick_upper;
    let f = |b: int, p: int|
        {
            let index = list_tick_index(arrays, b, p, tick_spacing);
            if index <= current_tick {
                boundary_net(position, index)
            } else {
                0
            }
        };
    let lower_term = |b: int, p: int|
        if b == la && p == lo && position.tick_lower <= current_tick {
            l
        } else {
            0
        };
    let upper_term = |b: int, p: int|
        if b == ua && p == uo && position.tick_upper <= current_tick {
            -l
        } else {
            0
        };
    let rest = |b: int, p: int| f(b, p) - lower_term(b, p);
    assert forall|b: int, p: int|
        0 <= b < m && 0 <= p < TICK_ARRAY_SIZE && (b != la || p != lo) implies #[trigger] lower_term(b, p) == 0 by {}
    lemma_grid_sum_single(lower_term, la, lo, m);
    assert forall|b: int, p: int|
        0 <= b < m && 0 <= p < TICK_ARRAY_SIZE && (b != ua || p != uo) implies #[trigger] upper_term(b, p) == 0 by {}
    lemma_grid_sum_single(upper_term, ua, uo, m);
    assert forall|b: int, p: int| 0 <= b < m && 0 <= p < TICK_ARRAY_SIZE implies #[trigger] rest(b, p) == f(b, p)
        - lower_term(b, p) by {}
    lemma_grid_sum_sub(f, lower_term, rest, m);
    assert forall|b: int, p: int| 0 <= b < m && 0 <= p < TICK_ARRAY_SIZE implies #[trigger] rest(b, p) == upper_term(
        b,
        p,
    ) by {
        let index = list_tick_index(arrays, b, p, tick_spacing);
        if b != la || p != lo {
            assert(list_tick_index(arrays, b, p, tick_spacing) != list_tick_index(arrays, la, lo, tick_spacing));
        }
        if b != ua || p != uo {
            assert(list_tick_index(arrays, b, p, tick_spacing) != list_tick_index(arrays, ua, uo, tick_spacing));
        }
    }
    lemma_grid_sum_ext(rest, upper_term, m);
}

/// With every boundary held once by the arrays, the sum of the nets the
/// positions put at or below the current tick is the liquidity of the
/// positions whose range holds it.
proof fn lemma_positions_net_below(
    arrays: Seq<TickArray>,
    tick_spacing: u16,
    positions: Seq<Position>,
    current_tick: int,
)
    requires
        positions_well_formed(positions),
        tick_positions_distinct(arrays, tick_spacing),
        positions_covered(arrays, tick_spacing, positions),
    ensures
        grid_sum(
            |b: int, p: int| positions_net_below(arrays, tick_spacing, positions, current_tick, b, p),
            arrays.len() as int,
        ) == in_range_liquidity(positions, current_tick),
    decreases positions.len(),
{
    let m = arrays.len() as int;
    let all = |b: int, p: int| positions_net_below(arrays, tick_spacing, positions, current_tick, b, p);
    if positions.len() == 0 {
        assert forall|b: int, p: int|
            0 <= b < m && 0 <= p < TICK_ARRAY_SIZE && (b != -1 || p != 0) implies #[trigger] all(b, p) == 0 by {}
        lemma_grid_sum_single(all, -1, 0, m);
    } else {
        let rest = positions.drop_last();
        let last = positions.last();
        assert(last == positions[positions.len() - 1]);
        assert forall|i: int| #![trigger rest[i]] 0 <= i < rest.len() implies rest[i].tick_lower < rest[i].tick_upper
            && rest[i].liquidity_amount > 0 by {
            assert(rest[i] == positions[i]);
        }
        assert forall|i: int| #![trigger rest[i]] 0 <= i < rest.len() implies {
        &&& holds_tick(arrays, tick_spacing, rest[i].tick_lower as int)
        &&& holds_tick(arrays, tick_spacing, rest[i].tick_upper as int)
    } by {
            assert(rest[i] == positions[i]);
        }
        lemma_positions_net_below(arrays, tick_spacing, rest, current_tick);
        let before = |b: int, p: int| positions_net_below(arrays, tick_spacing, rest, current_tick, b, p);
        let added = |b: int, p: int|
            {
                let index = list_tick_index(arrays, b, p, tick_spacing);
                if index <= current_tick {
                    boundary_net(last, index)
                } else {
                    0
                }
            };
        lemma_one_position_net_below(arrays, tick_spacing, last, current_tick);
        assert forall|b: int, p: int| 0 <= b < m && 0 <= p < TICK_ARRAY_SIZE implies #[trigger] before(b, p) == all(
            b,
            p,
        ) - added(b, p) by {}
        lemma_grid_sum_sub(all, added, before, m);
    }
}

/// On arrays that hold every position's boundaries once and whose ticks
/// match the positions, the sum of the nets at or below the current tick is
/// the liquidity of the positions whose range holds the current tick.
pub proof fn law_active_net_is_liquidity_in_range(
    arrays: Seq<TickArray>,
    tick_spacing: u16,
    positions: Seq<Position>,
    current_tick: i32,
)
    requires
        positions_well_formed(positions),
        tick_positions_distinct(arrays, tick_spacing),
        positions_covered(arrays, tick_spacing, positions),
        ticks_match_positions(arrays, tick_spacing, positions),
    ensures
        active_net(arrays, tick_spacing, current_tick) == in_range_liquidity(positions, current_tick as int),
{
    let m = arrays.len() as int;
    lemma_positions_net_below(arrays, tick_spacing, positions, current_tick as int);
    let ticks = |b: int, p: int| net_below(arrays, tick_spacing, current_tick, b, p);
    let sums = |b: int, p: int| positions_net_below(arrays, tick_spacing, positions, current_tick as int, b, p);
    assert forall|b: int, p: int| 0 <= b < m && 0 <= p < TICK_ARRAY_SIZE implies #[trigger] ticks(b, p) == sums(
        b,
        p,
    ) by {
        assert(tick_at(arrays, b, p).liquidity_net == net_at(positions, list_tick_index(arrays, b, p, tick_spacing)));
    }
    lemma_grid_sum_ext(ticks, sums, m);
}

/// Arrays that differ from others only in their ticks hold every tick index
/// at the same position: distinct ticks stay distinct and covered positions
/// stay covered.
proof fn lemma_same_indices_keep_cover(
    arrays: Seq<TickArray>,
    arrays_after: Seq<TickArray>,
    tick_spacing: u16,
    positions: Seq<Position>,
)
    requires
        arrays_after.len() == arrays.len(),
        forall|b: int| 0 <= b < arrays.len() ==> #[trigger] arrays_after[b].start_tick_index == arrays[b].start_tick_index,
        tick_positions_distinct(arrays, tick_spacing),
        positions_covered(arrays, tick_spacing, positions),
    ensures
        tick_positions_distinct(arrays_after, tick_spacing),
        positions_covered(arrays_after, tick_spacing, positions),
{
    assert forall|b: int, p: int| 0 <= b < arrays.len() implies #[trigger] list_tick_index(
        arrays_after,
        b,
        p,
        tick_spacing,
    ) == list_tick_index(arrays, b, p, tick_spacing) by {
        assert(arrays_after[b].start_tick_index == arrays[b].start_tick_index);
    }
    assert forall|i: int| #![trigger positions[i]] 0 <= i < positions.len() implies {
        &&& holds_tick(arrays_after, tick_spacing, positions[i].tick_lower as int)
        &&& holds_tick(arrays_after, tick_spacing, positions[i].tick_upper as int)
    } by {
        let (lb, lp) = choose|b: int, p: int|
            0 <= b < arrays.len() && 0 <= p < TICK_ARRAY_SIZE && #[trigger] list_tick_index(arrays, b, p, tick_spacing)
                == positions[i].tick_lower;
        let (ub, up) = choose|b: int, p: int|
            0 <= b < arrays.len() && 0 <= p < TICK_ARRAY_SIZE && #[trigger] list_tick_index(arrays, b, p, tick_spacing)
                == positions[i].tick_upper;
        assert(list_tick_index(arrays_after, lb, lp, tick_spacing) == positions[i].tick_lower);
        assert(list_tick_index(arrays_after, ub, up, tick_spacing) == positions[i].tick_upper);
    }
    assert(positions_covered(arrays_after, tick_spacing, positions));
}

/// Replacing ticks keeps the start of every array.
proof fn lemma_with_tick_keeps_starts(arrays: Seq<TickArray>, a: int, o: int, tick: Tick)
    requires
        0 <= a < arrays.len(),
        0 <= o < TICK_ARRAY_SIZE,
    ensures
        with_tick(arrays, a, o, tick).len() == arrays.len(),
        forall|b: int|
            0 <= b < arrays.len() ==> #[trigger] with_tick(arrays, a, o, tick)[b].start_tick_index
                == arrays[b].start_tick_index,
{
    assert forall|b: int| 0 <= b < arrays.len() implies #[trigger] with_tick(arrays, a, o, tick)[b].start_tick_index
        == arrays[b].start_tick_index by {
        lemma_with_tick_read(arrays, a, o, tick, b, 0);
    }
}

/// Creating a position keeps the pool agreeing with its open positions, the
/// new one among them: in particular the pool's active liquidity stays the
/// liquidity of the positions whose range holds the current tick.
pub proof fn law_create_keeps_pool_matching_positions(
    pool: PoolState,
    pool_key: Pubkey,
    arrays: Seq<TickArray>,
    lower_array: int,
    upper_array: int,
    tick_lower: i32,
    tick_upper: i32,
    amount_a_max: u64,
    amount_b_max: u64,
    quote: Result<LiquidityQuote, ConcentratedLiquidityError>,
    position_mint: Pubkey,
    owner: Pubkey,
    bump: u8,
    positions: Seq<Position>,
)
    requires
        0 <= lower_array < arrays.len(),
        0 <= upper_array < arrays.len(),
        pool_matches_positions(pool, arrays, positions),
        spec_create_position(
            pool,
            pool_key,
            arrays,
            lower_array,
            upper_array,
            tick_lower,
            tick_upper,
            amount_a_max,
            amount_b_max,
            quote,
            position_mint,
            owner,
            bump,
        ) is Ok,
    ensures
        ({
            let (position, pool_after, arrays_after) = spec_create_position(
                pool,
                pool_key,
                arrays,
                lower_array,
                upper_array,
                tick_lower,
                tick_upper,
                amount_a_max,
                amount_b_max,
                quote,
                position_mint,
                owner,
                bump,
            )->Ok_0;
            pool_matches_positions(pool_after, arrays_after, positions.push(position))
        }),
{
    let spacing = pool.tick_spacing;
    let current = pool.current_tick;
    let ga = pool.fee_growth_global_a_x64;
    let gb = pool.fee_growth_global_b_x64;
    let lower_start = arrays[lower_array].start_tick_index;
    let upper_start = arrays[upper_array].start_tick_index;
    let result = spec_create_position(
        pool,
        pool_key,
        arrays,
        lower_array,
        upper_array,
        tick_lower,
        tick_upper,
        amount_a_max,
        amount_b_max,
        quote,
        position_mint,
        owner,
        bump,
    )->Ok_0;
    let (position, pool_after, arrays_after) = result;
    let all = positions.push(position);
    let liquidity = quote->Ok_0.liquidity_delta as i128;
    let lo = spec_tick_offset(lower_start, tick_lower, spacing)->Ok_0 as int;
    let uo = spec_tick_offset(upper_start, tick_upper, spacing)->Ok_0 as int;
    lemma_offset_points_at_tick(lower_start, tick_lower, spacing);
    lemma_offset_points_at_tick(upper_start, tick_upper, spacing);
    let lt1 = spec_initialize_tick_fee_growths(arrays[lower_array].ticks@[lo], tick_lower, current, ga, gb);
    let lt2 = spec_update_tick_liquidity(lt1, liquidity, false).1;
    let arrays1 = with_tick(arrays, lower_array, lo, lt2);
    let ut1 = spec_initialize_tick_fee_growths(arrays1[upper_array].ticks@[uo], tick_upper, current, ga, gb);
    let ut2 = spec_update_tick_liquidity(ut1, liquidity, true).1;
    assert(arrays_after == with_tick(arrays1, upper_array, uo, ut2));
    lemma_with_tick_keeps_starts(arrays, lower_array, lo, lt2);
    lemma_with_tick_keeps_starts(arrays1, upper_array, uo, ut2);
    lemma_same_indices_keep_cover(arrays, arrays_after, spacing, positions);
    assert(list_tick_index(arrays_after, lower_array, lo, spacing) == tick_lower);
    assert(list_tick_index(arrays_after, upper_array, uo, spacing) == tick_upper);
    assert forall|i: int| #![trigger all[i]] 0 <= i < all.len() implies {
        &&& holds_tick(arrays_after, spacing, all[i].tick_lower as int)
        &&& holds_tick(arrays_after, spacing, all[i].tick_upper as int)
    } by {
        if i < positions.len() {
            assert(all[i] == positions[i]);
        }
    }
    law_create_keeps_ticks_matching_positions(
        pool,
        pool_key,
        arrays,
        lower_array,
        upper_array,
        tick_lower,
        tick_upper,
        amount_a_max,
        amount_b_max,
        quote,
        position_mint,
        owner,
        bump,
        positions,
    );
    law_create_keeps_arrays_settled(
        pool,
        pool_key,
        arrays,
        lower_array,
        upper_array,
        tick_lower,
        tick_upper,
        amount_a_max,
        amount_b_max,
        quote,
        position_mint,
        owner,
        bump,
    );
    law_create_moves_active_liquidity_with_ticks(
        pool,
        pool_key,
        arrays,
        lower_array,
        upper_array,
        tick_lower,
        tick_upper,
        amount_a_max,
        amount_b_max,
        quote,
        position_mint,
        owner,
        bump,
    );
    law_active_net_is_liquidity_in_range(arrays, spacing, positions, current);
    law_active_net_is_liquidity_in_range(arrays_after, spacing, all, current);
}

/// Closing an open position keeps the pool agreeing with the positions that
/// stay open: in particular the pool's active liquidity stays the liquidity
/// of the positions whose range holds the current tick.
pub proof fn law_close_keeps_pool_matching_positions(
    pool: PoolState,
    arrays: Seq<TickArray>,
    lower_array: int,
    upper_array: int,
    positions: Seq<Position>,
    k: int,
    amounts: Result<(u64, u64), ConcentratedLiquidityError>,
)
    requires
        0 <= lower_array < arrays.len(),
        0 <= upper_array < arrays.len(),
        pool_matches_positions(pool, arrays, positions),
        0 <= k < positions.len(),
        spec_close_position(pool, arrays, lower_array, upper_array, positions[k], amounts) is Ok,
    ensures
        ({
            let (_, _, pool_after, arrays_after) = spec_close_position(
                pool,
                arrays,
                lower_array,
                upper_array,
                positions[k],
                amounts,
            )->Ok_0;
            pool_matches_positions(pool_after, arrays_after, positions.remove(k))
        }),
{
    let position = positions[k];
    let rest = positions.remove(k);
    let spacing = pool.tick_spacing;
    let result = spec_close_position(pool, arrays, lower_array, upper_array, position, amounts)->Ok_0;
    let arrays_after = result.3;
    let lower_start = arrays[lower_array].start_tick_index;
    let upper_start = arrays[upper_array].start_tick_index;
    let lo = spec_tick_offset(lower_start, position.tick_lower, spacing)->Ok_0 as int;
    let uo = spec_tick_offset(upper_start, position.tick_upper, spacing)->Ok_0 as int;
    lemma_offset_points_at_tick(lower_start, position.tick_lower, spacing);
    lemma_offset_points_at_tick(upper_start, position.tick_upper, spacing);
    let removal = (-position.liquidity_amount) as i128;
    let lt2 = spec_update_tick_liquidity(arrays[lower_array].ticks@[lo], removal, false).1;
    let arrays1 = with_tick(arrays, lower_array, lo, lt2);
    let ut2 = spec_update_tick_liquidity(arrays1[upper_array].ticks@[uo], removal, true).1;
    assert(arrays_after == with_tick(arrays1, upper_array, uo, ut2));
    lemma_with_tick_keeps_starts(arrays, lower_array, lo, lt2);
    lemma_with_tick_keeps_starts(arrays1, upper_array, uo, ut2);
    assert forall|i: int| #![trigger rest[i]] 0 <= i < rest.len() implies {
        &&& holds_tick(arrays, spacing, rest[i].tick_lower as int)
        &&& holds_tick(arrays, spacing, rest[i].tick_upper as int)
    } by {
        if i < k {
            assert(rest[i] == positions[i]);
        } else {
            assert(rest[i] == positions[i + 1]);
        }
    }
    lemma_same_indices_keep_cover(arrays, arrays_after, spacing, rest);
    law_close_keeps_ticks_matching_positions(pool, arrays, lower_array, upper_array, positions, k, amounts);
    law_close_keeps_arrays_settled(pool, arrays, lower_array, upper_array, position, amounts);
    law_close_of_open_position_moves_active_liquidity_with_ticks(
        pool,
        arrays,
        lower_array,
        upper_array,
        positions,
        k,
        amounts,
    );
    law_active_net_is_liquidity_in_range(arrays, spacing, positions, pool.current_tick);
    law_active_net_is_liquidity_in_range(arrays_after, spacing, rest, pool.current_tick);
}

/// A swap step changes no tick's gross or net liquidity and no tick's
/// index, so it keeps the ticks matching the positions.
proof fn lemma_step_keeps_ticks_matching(
    progress: SwapProgress,
    pool: PoolState,
    arrays: Seq<TickArray>,
    crossing: NextTickCrossing,
    step: SwapStep,
    tick_after_step: i32,
    a_to_b: bool,
    positions: Seq<Position>,
)
    requires
        crossing.tick_array_list_index < arrays.len(),
        crossing.tick_offset < TICK_ARRAY_SIZE,
        tick_positions_distinct(arrays, pool.tick_spacing),
        positions_covered(arrays, pool.tick_spacing, positions),
        ticks_match_positions(arrays, pool.tick_spacing, positions),
        spec_apply_step(progress, pool, arrays, crossing, step, tick_after_step, a_to_b) is Ok,
    ensures
        ({
            let arrays_after = spec_apply_step(progress, pool, arrays, crossing, step, tick_after_step, a_to_b)->Ok_0.2;
            &&& tick_positions_distinct(arrays_after, pool.tick_spacing)
            &&& positions_covered(arrays_after, pool.tick_spacing, positions)
            &&& ticks_match_positions(arrays_after, pool.tick_spacing, positions)
        }),
{
    let spacing = pool.tick_spacing;
    if step.reached_target_tick {
        let fa = crossing.tick_array_list_index as int;
        let fo = crossing.tick_offset as int;
        let fee = spec_add_fee_growth(pool, input_side(a_to_b), step.fee_amount);
        let pool1 = PoolState { sqrt_price_x64: step.next_sqrt_price_x64, ..fee.1 };
        let crossed = crossed_tick(pool1, arrays[fa].ticks@[fo]);
        let arrays_after = with_tick(arrays, fa, fo, crossed);
        assert(arrays_after == spec_apply_step(progress, pool, arrays, crossing, step, tick_after_step, a_to_b)->Ok_0.2);
        lemma_with_tick_keeps_starts(arrays, fa, fo, crossed);
        lemma_same_indices_keep_cover(arrays, arrays_after, spacing, positions);
        assert forall|b: int, p: int| 0 <= b < arrays_after.len() && 0 <= p < TICK_ARRAY_SIZE implies {
            &&& #[trigger] tick_at(arrays_after, b, p).liquidity_gross == gross_at(
                positions,
                list_tick_index(arrays_after, b, p, spacing),
            )
            &&& tick_at(arrays_after, b, p).liquidity_net == net_at(
                positions,
                list_tick_index(arrays_after, b, p, spacing),
            )
        } by {
            lemma_with_tick_read(arrays, fa, fo, crossed, b, p);
            assert(tick_at(arrays, b, p) == arrays[b].ticks@[p]);
            assert(list_tick_index(arrays_after, b, p, spacing) == list_tick_index(arrays, b, p, spacing));
        }
        assert(ticks_match_positions(arrays_after, spacing, positions));
    }
}

/// A swap walk keeps the ticks matching the positions, distinct, and
/// holding every boundary.
proof fn lemma_walk_keeps_ticks_matching(
    progress: SwapProgress,
    pool: PoolState,
    arrays: Seq<TickArray>,
    steps: Seq<(NextTickCrossing, SwapStep, i32)>,
    a_to_b: bool,
    positions: Seq<Position>,
)
    requires
        walk_follows_loop(progress, pool, arrays, steps, a_to_b),
        tick_positions_distinct(arrays, pool.tick_spacing),
        positions_covered(arrays, pool.tick_spacing, positions),
        ticks_match_positions(arrays, pool.tick_spacing, positions),
        spec_swap_walk(progress, pool, arrays, steps, a_to_b) is Ok,
    ensures
        ({
            let arrays_after = spec_swap_walk(progress, pool, arrays, steps, a_to_b)->Ok_0.2;
            &&& tick_positions_distinct(arrays_after, pool.tick_spacing)
            &&& positions_covered(arrays_after, pool.tick_spacing, positions)
            &&& ticks_match_positions(arrays_after, pool.tick_spacing, positions)
        }),
    decreases steps.len(),
{
    if steps.len() > 0 {
        let (crossing, step, tick_after_step) = steps[0];
        let next = spec_apply_step(progress, pool, arrays, crossing, step, tick_after_step, a_to_b)->Ok_0;
        lemma_step_keeps_ticks_matching(progress, pool, arrays, crossing, step, tick_after_step, a_to_b, positions);
        lemma_apply_step_frame(progress, pool, arrays, crossing, step, tick_after_step, a_to_b);
        lemma_walk_keeps_ticks_matching(next.0, next.1, next.2, steps.drop_first(), a_to_b, positions);
    }
}

/// A swap walk that follows the loop keeps the pool agreeing with its open
/// positions: in particular the pool's active liquidity after the swap
/// is the liquidity of the positions whose range holds the new current tick.
pub proof fn law_swap_walk_keeps_pool_matching_positions(
    progress: SwapProgress,
    pool: PoolState,
    arrays: Seq<TickArray>,
    steps: Seq<(NextTickCrossing, SwapStep, i32)>,
    a_to_b: bool,
    positions: Seq<Position>,
)
    requires
        pool_matches_positions(pool, arrays, positions),
        walk_follows_loop(progress, pool, arrays, steps, a_to_b),
        spec_swap_walk(progress, pool, arrays, steps, a_to_b) is Ok,
    ensures
        ({
            let (_, pool_after, arrays_after) = spec_swap_walk(progress, pool, arrays, steps, a_to_b)->Ok_0;
            pool_matches_positions(pool_after, arrays_after, positions)
        }),
{
    let (_, pool_after, arrays_after) = spec_swap_walk(progress, pool, arrays, steps, a_to_b)->Ok_0;
    law_swap_walk_charges_input_side_only(progress, pool, arrays, steps, a_to_b);
    lemma_walk_keeps_ticks_matching(progress, pool, arrays, steps, a_to_b, positions);
    law_swap_walk_keeps_arrays_settled(progress, pool, arrays, steps, a_to_b);
    law_swap_walk_moves_active_liquidity_with_ticks(progress, pool, arrays, steps, a_to_b);
    law_active_net_is_liquidity_in_range(arrays, pool.tick_spacing, positions, pool.current_tick);
    law_active_net_is_liquidity_in_range(arrays_after, pool.tick_spacing, positions, pool_after.current_tick);
}

/// A pool without liquidity over new, all-zero tick arrays that hold
/// distinct ticks agrees with having no open positions.
pub proof fn law_new_pool_matches_no_positions(pool: PoolState, arrays: Seq<TickArray>)
    requires
        pool.tick_spacing > 0,
        pool.liquidity == 0,
        tick_positions_distinct(arrays, pool.tick_spacing),
        forall|b: int, p: int|
            0 <= b < arrays.len() && 0 <= p < TICK_ARRAY_SIZE ==> #[trigger] tick_at(arrays, b, p) == Tick::zeroed(),
    ensures
        pool_matches_positions(pool, arrays, Seq::<Position>::empty()),
{
    assert forall|b: int, p: int| 0 <= b < arrays.len() && 0 <= p < TICK_ARRAY_SIZE implies (
    #[trigger] arrays[b].ticks@[p]).settled() by {
        assert(tick_at(arrays, b, p) == Tick::zeroed());
    }
}

} // verus!
