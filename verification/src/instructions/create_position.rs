use vstd::prelude::*;

use crate::errors::ConcentratedLiquidityError;
use crate::math::{
    array_start, fee_growth_inside_for_ticks, initialize_tick_fee_growths, spec_fee_growth_inside,
    spec_initialize_tick_fee_growths, spec_tick_offset, spec_update_tick_liquidity,
    spec_validate_position_token_amounts, tick_array_start_index, tick_offset_in_array,
    update_tick_liquidity, validate_position_token_amounts, validate_tick_alignment, LiquidityQuote,
};
use crate::pubkey::Pubkey;
use crate::state::{
    arrays_settled, lemma_with_tick_keeps_settled, store_tick, with_tick, PoolState,
    Position, TickArray,
};

verus! {

/// Whether `tick_index` is a valid boundary for the spacing.
pub open spec fn aligned(tick_index: i32, tick_spacing: u16) -> bool {
    tick_spacing > 0 && (tick_index as int) % (tick_spacing as int) == 0
}

/// The range and deposit checks made before the liquidity quote is used:
/// an ordered range, deposits matching the current price, aligned
/// boundaries, and tick arrays starting where the boundaries' arrays start.
pub open spec fn create_position_checks(
    pool: PoolState,
    lower_array_start: i32,
    upper_array_start: i32,
    tick_lower: i32,
    tick_upper: i32,
    amount_a_max: u64,
    amount_b_max: u64,
) -> Result<(), ConcentratedLiquidityError> {
    let spacing = pool.tick_spacing;
    if tick_lower >= tick_upper {
        Err(ConcentratedLiquidityError::InvalidTickRange)
    } else if spec_validate_position_token_amounts(
        pool.current_tick,
        tick_lower,
        tick_upper,
        amount_a_max,
        amount_b_max,
    ) is Err {
        spec_validate_position_token_amounts(pool.current_tick, tick_lower, tick_upper, amount_a_max, amount_b_max)
    } else if !aligned(tick_lower, spacing) || !aligned(tick_upper, spacing) {
        Err(ConcentratedLiquidityError::TickNotAligned)
    } else if array_start(tick_lower as int, spacing) < i32::MIN || array_start(tick_upper as int, spacing)
        < i32::MIN {
        Err(ConcentratedLiquidityError::TickMathOverflow)
    } else if lower_array_start != array_start(tick_lower as int, spacing) || upper_array_start != array_start(
        tick_upper as int,
        spacing,
    ) {
        Err(ConcentratedLiquidityError::InvalidTickArrayStart)
    } else {
        Ok(())
    }
}

/// The position written by `handler`, with the pool and the tick arrays
/// after it, or why it refuses.
///
/// The position's liquidity comes from the quote; both boundary ticks are
/// initialized if needed, the position checkpoints the fee growth inside its
/// range, the lower boundary gains `+L` and the upper `-L` net liquidity, and
/// the pool's active liquidity grows by `L` when the range holds the current
/// tick.
pub open spec fn spec_create_position(
    pool: PoolState,
    pool_key: Pubkey,
    arrays: Seq<TickArray>,
    lower_array: int,
    upper_array: int,
    tick_lower: i32,
    tick_upper: i32,
    amount_a_max: u64,
    amount_b_max: u64,
    quote: Result<LiquidityQuote, ConcentratedLiquidityError>,
    position_mint: Pubkey,
    owner: Pubkey,
    bump: u8,
) -> Result<(Position, PoolState, Seq<TickArray>), ConcentratedLiquidityError> {
    let spacing = pool.tick_spacing;
    let current = pool.current_tick;
    let ga = pool.fee_growth_global_a_x64;
    let gb = pool.fee_growth_global_b_x64;
    let lower_start = arrays[lower_array].start_tick_index;
    let upper_start = arrays[upper_array].start_tick_index;
    match create_position_checks(pool, lower_start, upper_start, tick_lower, tick_upper, amount_a_max, amount_b_max) {
        Err(e) => Err(e),
        Ok(_) => match quote {
            Err(e) => Err(e),
            Ok(q) => if q.liquidity_delta > i128::MAX {
                Err(ConcentratedLiquidityError::TickMathOverflow)
            } else {
                match spec_tick_offset(lower_start, tick_lower, spacing) {
                    Err(e) => Err(e),
                    Ok(lo) => match spec_tick_offset(upper_start, tick_upper, spacing) {
                        Err(e) => Err(e),
                        Ok(uo) => {
                            let liquidity = q.liquidity_delta as i128;
                            let lower_tick = spec_initialize_tick_fee_growths(
                                arrays[lower_array].ticks@[lo as int],
                                tick_lower,
                                current,
                                ga,
                                gb,
                            );
                            let upper_tick = spec_initialize_tick_fee_growths(
                                arrays[upper_array].ticks@[uo as int],
                                tick_upper,
                                current,
                                ga,
                                gb,
                            );
                            let inside = spec_fee_growth_inside(pool, tick_lower, lower_tick, tick_upper, upper_tick);
                            let position = Position {
                                bump,
                                position_mint,
                                owner,
                                pool: pool_key,
                                tick_lower,
                                tick_upper,
                                liquidity_amount: q.liquidity_delta,
                                fee_growth_checkpoint_a_x64: inside.token_a_x64,
                                fee_growth_checkpoint_b_x64: inside.token_b_x64,
                                fees_a_owed: 0,
                                fees_b_owed: 0,
                            };
                            let lower_update = spec_update_tick_liquidity(lower_tick, liquidity, false);
                            let arrays1 = with_tick(arrays, lower_array, lo as int, lower_update.1);
                            let upper_now = spec_initialize_tick_fee_growths(
                                arrays1[upper_array].ticks@[uo as int],
                                tick_upper,
                                current,
                                ga,
                                gb,
                            );
                            let upper_update = spec_update_tick_liquidity(upper_now, liquidity, true);
                            let arrays2 = with_tick(arrays1, upper_array, uo as int, upper_update.1);
                            if lower_update.0 is Err {
                                Err(lower_update.0->Err_0)
                            } else if upper_update.0 is Err {
                                Err(upper_update.0->Err_0)
                            } else if tick_lower <= current && current < tick_upper {
                                if pool.liquidity + q.liquidity_delta > u128::MAX {
                                    Err(ConcentratedLiquidityError::TickMathOverflow)
                                } else {
                                    Ok(
                                        (
                                            position,
                                            PoolState {
                                                liquidity: (pool.liquidity + q.liquidity_delta) as u128,
                                                ..pool
                                            },
                                            arrays2,
                                        ),
                                    )
                                }
                            } else {
                                Ok((position, pool, arrays2))
                            }
                        },
                    },
                }
            },
        },
    }
}

/// Creates a new LP position over `[tick_lower, tick_upper)`.
///
/// `amount_a_max` and `amount_b_max` are the LP's budgets; `quote` is the
/// liquidity they buy at the current price (or why it could not be quoted),
/// and its token amounts are what the caller transfers into the vaults. The
/// boundary ticks live in `tick_arrays[lower_array]` and
/// `tick_arrays[upper_array]`, which may be the same array. On success the
/// pool and the arrays are updated and the new position is returned; on any
/// error nothing changes.
pub fn handler(
    pool_state: &mut PoolState,
    pool_key: Pubkey,
    tick_arrays: &mut Vec<TickArray>,
    lower_array: usize,
    upper_array: usize,
    tick_lower: i32,
    tick_upper: i32,
    amount_a_max: u64,
    amount_b_max: u64,
    quote: Result<LiquidityQuote, ConcentratedLiquidityError>,
    position_mint: Pubkey,
    owner: Pubkey,
    bump: u8,
) -> (position: Result<Position, ConcentratedLiquidityError>)
    requires
        lower_array < old(tick_arrays).len(),
        upper_array < old(tick_arrays).len(),
    ensures
        match spec_create_position(
            *old(pool_state),
            pool_key,
            old(tick_arrays)@,
            lower_array as int,
            upper_array as int,
            tick_lower,
            tick_upper,
            amount_a_max,
            amount_b_max,
            quote,
            position_mint,
            owner,
            bump,
        ) {
            Ok((p, pool_after, arrays_after)) => {
                &&& position == Ok::<Position, ConcentratedLiquidityError>(p)
                &&& *final(pool_state) == pool_after
                &&& final(tick_arrays)@ == arrays_after
            },
            Err(e) => {
                &&& position == Err::<Position, ConcentratedLiquidityError>(e)
                &&& *final(pool_state) == *old(pool_state)
                &&& final(tick_arrays)@ == old(tick_arrays)@
            },
        },
{
    if !(tick_lower < tick_upper) {
        return Err(ConcentratedLiquidityError::InvalidTickRange);
    }
    let current_tick = pool_state.current_tick;
    let tick_spacing = pool_state.tick_spacing;
    let fee_growth_global_a_x64 = pool_state.fee_growth_global_a_x64;
    let fee_growth_global_b_x64 = pool_state.fee_growth_global_b_x64;

    match validate_position_token_amounts(current_tick, tick_lower, tick_upper, amount_a_max, amount_b_max) {
        Ok(()) => {},
        Err(e) => return Err(e),
    }
    match validate_tick_alignment(tick_lower, tick_spacing) {
        Ok(()) => {},
        Err(e) => return Err(e),
    }
    match validate_tick_alignment(tick_upper, tick_spacing) {
        Ok(()) => {},
        Err(e) => return Err(e),
    }
    let lower_start = match tick_array_start_index(tick_lower, tick_spacing) {
        Ok(s) => s,
        Err(e) => return Err(e),
    };
    let upper_start = match tick_array_start_index(tick_upper, tick_spacing) {
        Ok(s) => s,
        Err(e) => return Err(e),
    };
    if tick_arrays[lower_array].start_tick_index != lower_start {
        return Err(ConcentratedLiquidityError::InvalidTickArrayStart);
    }
    if tick_arrays[upper_array].start_tick_index != upper_start {
        return Err(ConcentratedLiquidityError::InvalidTickArrayStart);
    }

    let quote = match quote {
        Ok(q) => q,
        Err(e) => return Err(e),
    };
    if quote.liquidity_delta > i128::MAX as u128 {
        return Err(ConcentratedLiquidityError::TickMathOverflow);
    }
    let signed_liquidity = quote.liquidity_delta as i128;

    let lower_offset = match tick_offset_in_array(tick_arrays[lower_array].start_tick_index, tick_lower, tick_spacing) {
        Ok(o) => o,
        Err(e) => return Err(e),
    };
    let upper_offset = match tick_offset_in_array(tick_arrays[upper_array].start_tick_index, tick_upper, tick_spacing) {
        Ok(o) => o,
        Err(e) => return Err(e),
    };

    let mut lower_snapshot = tick_arrays[lower_array].ticks[lower_offset];
    initialize_tick_fee_growths(
        &mut lower_snapshot,
        tick_lower,
        current_tick,
        fee_growth_global_a_x64,
        fee_growth_global_b_x64,
    );
    let mut upper_snapshot = tick_arrays[upper_array].ticks[upper_offset];
    initialize_tick_fee_growths(
        &mut upper_snapshot,
        tick_upper,
        current_tick,
        fee_growth_global_a_x64,
        fee_growth_global_b_x64,
    );
    let fee_growth_inside = fee_growth_inside_for_ticks(
        pool_state,
        tick_lower,
        &lower_snapshot,
        tick_upper,
        &upper_snapshot,
    );

    let position = Position {
        bump,
        position_mint,
        owner,
        pool: pool_key,
        tick_lower,
        tick_upper,
        liquidity_amount: quote.liquidity_delta,
        fee_growth_checkpoint_a_x64: fee_growth_inside.token_a_x64,
        fee_growth_checkpoint_b_x64: fee_growth_inside.token_b_x64,
        fees_a_owed: 0,
        fees_b_owed: 0,
    };

    let mut arrays = tick_arrays.clone();

    let mut lower_tick = arrays[lower_array].ticks[lower_offset];
    initialize_tick_fee_growths(
        &mut lower_tick,
        tick_lower,
        current_tick,
        fee_growth_global_a_x64,
        fee_growth_global_b_x64,
    );
    match update_tick_liquidity(&mut lower_tick, signed_liquidity, false) {
        Ok(()) => {},
        Err(e) => return Err(e),
    }
    store_tick(&mut arrays, lower_array, lower_offset, lower_tick);

    let mut upper_tick = arrays[upper_array].ticks[upper_offset];
    initialize_tick_fee_growths(
        &mut upper_tick,
        tick_upper,
        current_tick,
        fee_growth_global_a_x64,
        fee_growth_global_b_x64,
    );
    match update_tick_liquidity(&mut upper_tick, signed_liquidity, true) {
        Ok(()) => {},
        Err(e) => return Err(e),
    }
    store_tick(&mut arrays, upper_array, upper_offset, upper_tick);

    if tick_lower <= current_tick && current_tick < tick_upper {
        let liquidity = match pool_state.liquidity.checked_add(quote.liquidity_delta) {
            Some(l) => l,
            None => return Err(ConcentratedLiquidityError::TickMathOverflow),
        };
        pool_state.liquidity = liquidity;
    }
    *tick_arrays = arrays;
    Ok(position)
}

/// Creating a position keeps every tick array settled: both boundaries end
/// up initialized with gross liquidity.
pub proof fn law_create_keeps_arrays_settled(
    pool: PoolState,
    pool_key: Pubkey,
    arrays: Seq<TickArray>,
    lower_array: int,
    upper_array: int,
    tick_lower: i32,
    tick_upper: i32,
    amount_a_max: u64,
    amount_b_max: u64,
    quote: Result<LiquidityQuote, ConcentratedLiquidityError>,
    position_mint: Pubkey,
    owner: Pubkey,
    bump: u8,
)
    requires
        0 <= lower_array < arrays.len(),
        0 <= upper_array < arrays.len(),
        arrays_settled(arrays),
        spec_create_position(
            pool,
            pool_key,
            arrays,
            lower_array,
            upper_array,
            tick_lower,
            tick_upper,
            amount_a_max,
            amount_b_max,
            quote,
            position_mint,
            owner,
            bump,
        ) is Ok,
    ensures
        arrays_settled(
            spec_create_position(
                pool,
                pool_key,
                arrays,
                lower_array,
                upper_array,
                tick_lower,
                tick_upper,
                amount_a_max,
                amount_b_max,
                quote,
                position_mint,
                owner,
                bump,
            )->Ok_0.2,
        ),
{
    let spacing = pool.tick_spacing;
    let current = pool.current_tick;
    let ga = pool.fee_growth_global_a_x64;
    let gb = pool.fee_growth_global_b_x64;
    let liquidity = quote->Ok_0.liquidity_delta as i128;
    let lo = spec_tick_offset(arrays[lower_array].start_tick_index, tick_lower, spacing)->Ok_0 as int;
    let uo = spec_tick_offset(arrays[upper_array].start_tick_index, tick_upper, spacing)->Ok_0 as int;
    let lt1 = spec_initialize_tick_fee_growths(arrays[lower_array].ticks@[lo], tick_lower, current, ga, gb);
    let lt2 = spec_update_tick_liquidity(lt1, liquidity, false).1;
    assert(lt2.settled());
    lemma_with_tick_keeps_settled(arrays, lower_array, lo, lt2);
    let arrays1 = with_tick(arrays, lower_array, lo, lt2);
    let ut1 = spec_initialize_tick_fee_growths(arrays1[upper_array].ticks@[uo], tick_upper, current, ga, gb);
    let ut2 = spec_update_tick_liquidity(ut1, liquidity, true).1;
    assert(ut2.settled());
    lemma_with_tick_keeps_settled(arrays1, upper_array, uo, ut2);
}

} // verus!
