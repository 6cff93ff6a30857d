use vstd::prelude::*;

use crate::errors::ConcentratedLiquidityError;
use crate::instructions::create_position::spec_create_position;
use crate::math::{
    accrue_position_fees, fee_growth_inside_for_ticks, law_tick_liquidity_round_trip,
    lemma_offset_points_at_tick, offset_defined, spec_accrue_position_fees, spec_fee_growth_inside,
    spec_initialize_tick_fee_growths, spec_tick_offset, spec_update_tick_liquidity, tick_offset_in_array,
    update_tick_liquidity, LiquidityQuote,
};
use crate::pubkey::Pubkey;
use crate::state::{
    arrays_settled, lemma_with_tick_commute, lemma_with_tick_keeps_settled, lemma_with_tick_read,
    lemma_with_tick_same, lemma_with_tick_twice, store_tick, with_tick, PoolState, Position, Tick, TickArray,
};

verus! {

/// Whether the offset lookups of closing a position are defined: the upper
/// one is only made when the lower one succeeds.
pub open spec fn close_position_offsets_defined(
    pool: PoolState,
    arrays: Seq<TickArray>,
    lower_array: int,
    upper_array: int,
    position: Position,
) -> bool {
    &&& offset_defined(arrays[lower_array].start_tick_index, position.tick_lower, pool.tick_spacing)
    &&& spec_tick_offset(arrays[lower_array].start_tick_index, position.tick_lower, pool.tick_spacing) is Ok
        ==> offset_defined(arrays[upper_array].start_tick_index, position.tick_upper, pool.tick_spacing)
}

/// The token amounts paid out by `handler`, with the position, the pool and
/// the tick arrays after it, or why it refuses.
///
/// The position first accrues the fees earned inside its range; its
/// liquidity is then removed from both boundary ticks (`-L` gross, and `-L`
/// net at the lower, `+L` net at the upper boundary) and, when the range holds
/// the current tick, from the pool's active liquidity. The payout of each token
/// is the liquidity's token amount plus the fees owed, which must fit in `u64`.
pub open spec fn spec_close_position(
    pool: PoolState,
    arrays: Seq<TickArray>,
    lower_array: int,
    upper_array: int,
    position: Position,
    amounts: Result<(u64, u64), ConcentratedLiquidityError>,
) -> Result<((u64, u64), Position, PoolState, Seq<TickArray>), ConcentratedLiquidityError> {
    let spacing = pool.tick_spacing;
    let lower_start = arrays[lower_array].start_tick_index;
    let upper_start = arrays[upper_array].start_tick_index;
    match spec_tick_offset(lower_start, position.tick_lower, spacing) {
        Err(e) => Err(e),
        Ok(lo) => match spec_tick_offset(upper_start, position.tick_upper, spacing) {
            Err(e) => Err(e),
            Ok(uo) => {
                let inside = spec_fee_growth_inside(
                    pool,
                    position.tick_lower,
                    arrays[lower_array].ticks@[lo as int],
                    position.tick_upper,
                    arrays[upper_array].ticks@[uo as int],
                );
                let accrued = spec_accrue_position_fees(position, inside);
                let liquidity = position.liquidity_amount;
                let removal = -liquidity;
                let lower_update = spec_update_tick_liquidity(
                    arrays[lower_array].ticks@[lo as int],
                    removal as i128,
                    false,
                );
                let arrays1 = with_tick(arrays, lower_array, lo as int, lower_update.1);
                let upper_update = spec_update_tick_liquidity(
                    arrays1[upper_array].ticks@[uo as int],
                    removal as i128,
                    true,
                );
                let arrays2 = with_tick(arrays1, upper_array, uo as int, upper_update.1);
                let in_range = position.tick_lower <= pool.current_tick && pool.current_tick < position.tick_upper;
                if accrued.0 is Err {
                    Err(accrued.0->Err_0)
                } else if amounts is Err {
                    Err(amounts->Err_0)
                } else if liquidity > i128::MAX {
                    Err(ConcentratedLiquidityError::TickMathOverflow)
                } else if lower_update.0 is Err {
                    Err(lower_update.0->Err_0)
                } else if upper_update.0 is Err {
                    Err(upper_update.0->Err_0)
                } else if in_range && pool.liquidity < liquidity {
                    Err(ConcentratedLiquidityError::NegativeLiquidity)
                } else {
                    let total_a = amounts->Ok_0.0 + accrued.1.fees_a_owed;
                    let total_b = amounts->Ok_0.1 + accrued.1.fees_b_owed;
                    if total_a > u64::MAX || total_b > u64::MAX {
                        Err(ConcentratedLiquidityError::TickMathOverflow)
                    } else {
                        Ok(
                            (
                                (total_a as u64, total_b as u64),
                                accrued.1,
                                if in_range {
                                    PoolState { liquidity: (pool.liquidity - liquidity) as u128, ..pool }
                                } else {
                                    pool
                                },
                                arrays2,
                            ),
                        )
                    }
                }
            },
        },
    }
}

/// Closes an LP position: accrues its fees, removes its liquidity, and
/// returns the token A and token B amounts owed to its holder.
///
/// `amounts` are the token amounts of the position's liquidity at the
/// current price (or why they could not be computed). The boundary ticks live
/// in `tick_arrays[lower_array]` and `tick_arrays[upper_array]`, which may be
/// the same array. On success the position, pool and arrays are updated; on
/// any error nothing changes.
pub fn handler(
    pool_state: &mut PoolState,
    tick_arrays: &mut Vec<TickArray>,
    lower_array: usize,
    upper_array: usize,
    position: &mut Position,
    amounts: Result<(u64, u64), ConcentratedLiquidityError>,
) -> (payout: Result<(u64, u64), ConcentratedLiquidityError>)
    requires
        lower_array < old(tick_arrays).len(),
        upper_array < old(tick_arrays).len(),
        close_position_offsets_defined(
            *old(pool_state),
            old(tick_arrays)@,
            lower_array as int,
            upper_array as int,
            *old(position),
        ),
    ensures
        match spec_close_position(
            *old(pool_state),
            old(tick_arrays)@,
            lower_array as int,
            upper_array as int,
            *old(position),
            amounts,
        ) {
            Ok((paid, position_after, pool_after, arrays_after)) => {
                &&& payout == Ok::<(u64, u64), ConcentratedLiquidityError>(paid)
                &&& *final(position) == position_after
                &&& *final(pool_state) == pool_after
                &&& final(tick_arrays)@ == arrays_after
            },
            Err(e) => {
                &&& payout == Err::<(u64, u64), ConcentratedLiquidityError>(e)
                &&& *final(position) == *old(position)
                &&& *final(pool_state) == *old(pool_state)
                &&& final(tick_arrays)@ == old(tick_arrays)@
            },
        },
{
    let current_tick = pool_state.current_tick;
    let tick_spacing = pool_state.tick_spacing;
    let position_tick_lower = position.tick_lower;
    let position_tick_upper = position.tick_upper;
    let position_liquidity = position.liquidity_amount;

    let lower_offset = match tick_offset_in_array(
        tick_arrays[lower_array].start_tick_index,
        position_tick_lower,
        tick_spacing,
    ) {
        Ok(o) => o,
        Err(e) => return Err(e),
    };
    let upper_offset = match tick_offset_in_array(
        tick_arrays[upper_array].start_tick_index,
        position_tick_upper,
        tick_spacing,
    ) {
        Ok(o) => o,
        Err(e) => return Err(e),
    };
    let lower_snapshot = tick_arrays[lower_array].ticks[lower_offset];
    let upper_snapshot = tick_arrays[upper_array].ticks[upper_offset];
    let fee_growth_inside = fee_growth_inside_for_ticks(
        pool_state,
        position_tick_lower,
        &lower_snapshot,
        position_tick_upper,
        &upper_snapshot,
    );

    let mut accrued = *position;
    match accrue_position_fees(&mut accrued, fee_growth_inside) {
        Ok(()) => {},
        Err(e) => return Err(e),
    }
    let (amount_a_liquidity, amount_b_liquidity) = match amounts {
        Ok(a) => a,
        Err(e) => return Err(e),
    };

    if position_liquidity > i128::MAX as u128 {
        return Err(ConcentratedLiquidityError::TickMathOverflow);
    }
    let signed_liquidity = -(position_liquidity as i128);

    let mut arrays = tick_arrays.clone();
    let mut lower_tick = arrays[lower_array].ticks[lower_offset];
    match update_tick_liquidity(&mut lower_tick, signed_liquidity, false) {
        Ok(()) => {},
        Err(e) => return Err(e),
    }
    store_tick(&mut arrays, lower_array, lower_offset, lower_tick);
    let mut upper_tick = arrays[upper_array].ticks[upper_offset];
    match update_tick_liquidity(&mut upper_tick, signed_liquidity, true) {
        Ok(()) => {},
        Err(e) => return Err(e),
    }
    store_tick(&mut arrays, upper_array, upper_offset, upper_tick);

    let mut pool_liquidity = pool_state.liquidity;
    if position_tick_lower <= current_tick && current_tick < position_tick_upper {
        pool_liquidity = match pool_state.liquidity.checked_sub(position_liquidity) {
            Some(l) => l,
            None => return Err(ConcentratedLiquidityError::NegativeLiquidity),
        };
    }

    let amount_a_total = match (amount_a_liquidity as u128).checked_add(accrued.fees_a_owed) {
        Some(t) => t,
        None => return Err(ConcentratedLiquidityError::TickMathOverflow),
    };
    let amount_b_total = match (amount_b_liquidity as u128).checked_add(accrued.fees_b_owed) {
        Some(t) => t,
        None => return Err(ConcentratedLiquidityError::TickMathOverflow),
    };
    if amount_a_total > u64::MAX as u128 || amount_b_total > u64::MAX as u128 {
        return Err(ConcentratedLiquidityError::TickMathOverflow);
    }

    *position = accrued;
    pool_state.liquidity = pool_liquidity;
    *tick_arrays = arrays;
    Ok((amount_a_total as u64, amount_b_total as u64))
}

/// A position closed right after it was created, with no swap in between,
/// owes no fees, pays out exactly the token amounts of its liquidity, and
/// leaves the pool and the tick arrays as they were before it existed,
/// when its two boundary ticks were settled before.
pub proof fn law_close_undoes_create(
    pool: PoolState,
    pool_key: Pubkey,
    arrays: Seq<TickArray>,
    lower_array: int,
    upper_array: int,
    tick_lower: i32,
    tick_upper: i32,
    amount_a_max: u64,
    amount_b_max: u64,
    quote: Result<LiquidityQuote, ConcentratedLiquidityError>,
    position_mint: Pubkey,
    owner: Pubkey,
    bump: u8,
    amounts: (u64, u64),
)
    requires
        0 <= lower_array < arrays.len(),
        0 <= upper_array < arrays.len(),
        arrays[lower_array].ticks@[spec_tick_offset(
            arrays[lower_array].start_tick_index,
            tick_lower,
            pool.tick_spacing,
        )->Ok_0 as int].settled(),
        arrays[upper_array].ticks@[spec_tick_offset(
            arrays[upper_array].start_tick_index,
            tick_upper,
            pool.tick_spacing,
        )->Ok_0 as int].settled(),
        spec_create_position(
            pool,
            pool_key,
            arrays,
            lower_array,
            upper_array,
            tick_lower,
            tick_upper,
            amount_a_max,
            amount_b_max,
            quote,
            position_mint,
            owner,
            bump,
        ) is Ok,
    ensures
        ({
            let (position, pool_after_create, arrays_after_create) = spec_create_position(
                pool,
                pool_key,
                arrays,
                lower_array,
                upper_array,
                tick_lower,
                tick_upper,
                amount_a_max,
                amount_b_max,
                quote,
                position_mint,
                owner,
                bump,
            )->Ok_0;
            &&& position.fees_a_owed == 0
            &&& position.fees_b_owed == 0
            &&& spec_close_position(
                pool_after_create,
                arrays_after_create,
                lower_array,
                upper_array,
                position,
                Ok(amounts),
            ) == Ok::<((u64, u64), Position, PoolState, Seq<TickArray>), ConcentratedLiquidityError>(
                (amounts, position, pool, arrays),
            )
        }),
{
    let spacing = pool.tick_spacing;
    let current = pool.current_tick;
    let ga = pool.fee_growth_global_a_x64;
    let gb = pool.fee_growth_global_b_x64;
    let lower_start = arrays[lower_array].start_tick_index;
    let upper_start = arrays[upper_array].start_tick_index;
    let q = quote->Ok_0;
    let liquidity = q.liquidity_delta as i128;
    let lo = spec_tick_offset(lower_start, tick_lower, spacing)->Ok_0 as int;
    let uo = spec_tick_offset(upper_start, tick_upper, spacing)->Ok_0 as int;

    // The two boundaries are different slots.
    lemma_offset_points_at_tick(lower_start, tick_lower, spacing);
    lemma_offset_points_at_tick(upper_start, tick_upper, spacing);
    assert(lower_array != upper_array || lo != uo);

    let lt0 = arrays[lower_array].ticks@[lo];
    let ut0 = arrays[upper_array].ticks@[uo];
    let lt1 = spec_initialize_tick_fee_growths(lt0, tick_lower, current, ga, gb);
    let ut1 = spec_initialize_tick_fee_growths(ut0, tick_upper, current, ga, gb);
    let lt2 = spec_update_tick_liquidity(lt1, liquidity, false).1;
    let arrays1 = with_tick(arrays, lower_array, lo, lt2);
    lemma_with_tick_read(arrays, lower_array, lo, lt2, upper_array, uo);
    assert(arrays1[upper_array].ticks@[uo] == ut0);
    let ut2 = spec_update_tick_liquidity(ut1, liquidity, true).1;
    let created = with_tick(arrays1, upper_array, uo, ut2);

    // Reading the boundaries back after creation.
    lemma_with_tick_read(arrays, lower_array, lo, lt2, lower_array, lo);
    lemma_with_tick_read(arrays1, upper_array, uo, ut2, lower_array, lo);
    lemma_with_tick_read(arrays1, upper_array, uo, ut2, upper_array, uo);
    lemma_with_tick_read(arrays, lower_array, lo, lt2, upper_array, uo);
    assert(created[lower_array].ticks@[lo] == lt2);
    assert(created[upper_array].ticks@[uo] == ut2);
    assert(created[lower_array].start_tick_index == lower_start);
    assert(created[upper_array].start_tick_index == upper_start);

    // The boundaries keep their fee checkpoints, so nothing was earned.
    assert(lt2.fee_growth_outside_a_x64 == lt1.fee_growth_outside_a_x64);
    assert(lt2.fee_growth_outside_b_x64 == lt1.fee_growth_outside_b_x64);
    assert(ut2.fee_growth_outside_a_x64 == ut1.fee_growth_outside_a_x64);
    assert(ut2.fee_growth_outside_b_x64 == ut1.fee_growth_outside_b_x64);

    // Removing the liquidity again restores each boundary.
    law_tick_liquidity_round_trip(lt1, liquidity, false);
    law_tick_liquidity_round_trip(ut1, liquidity, true);
    assert(lt0.settled());
    assert(ut0.settled());
    assert(lt0.liquidity_gross == 0 ==> lt0 == Tick::zeroed());
    assert(lt0.liquidity_gross > 0 ==> lt0.initialized != 0);
    assert(ut0.liquidity_gross == 0 ==> ut0 == Tick::zeroed());
    assert(ut0.liquidity_gross > 0 ==> ut0.initialized != 0);
    assert(spec_update_tick_liquidity(lt2, (-q.liquidity_delta) as i128, false) == (
    Ok::<(), ConcentratedLiquidityError>(()),
    lt0,
    ));
    let removed1 = with_tick(created, lower_array, lo, lt0);
    lemma_with_tick_read(created, lower_array, lo, lt0, upper_array, uo);
    assert(removed1[upper_array].ticks@[uo] == ut2);
    assert(spec_update_tick_liquidity(ut2, (-q.liquidity_delta) as i128, true) == (
    Ok::<(), ConcentratedLiquidityError>(()),
    ut0,
    ));

    // The arrays come back unchanged.
    lemma_with_tick_commute(arrays1, upper_array, uo, ut2, lower_array, lo, lt0);
    lemma_with_tick_twice(arrays, lower_array, lo, lt2, lt0);
    lemma_with_tick_same(arrays, lower_array, lo);
    assert(removed1 == with_tick(arrays, upper_array, uo, ut2));
    lemma_with_tick_twice(arrays, upper_array, uo, ut2, ut0);
    lemma_with_tick_same(arrays, upper_array, uo);
    assert(with_tick(removed1, upper_array, uo, ut0) == arrays);

    // The created position and pool.
    let inside = spec_fee_growth_inside(pool, tick_lower, lt1, tick_upper, ut1);
    let position = Position {
        bump,
        position_mint,
        owner,
        pool: pool_key,
        tick_lower,
        tick_upper,
        liquidity_amount: q.liquidity_delta,
        fee_growth_checkpoint_a_x64: inside.token_a_x64,
        fee_growth_checkpoint_b_x64: inside.token_b_x64,
        fees_a_owed: 0,
        fees_b_owed: 0,
    };
    let in_range = tick_lower <= current && current < tick_upper;
    let pool1 = if in_range {
        PoolState { liquidity: (pool.liquidity + q.liquidity_delta) as u128, ..pool }
    } else {
        pool
    };
    assert(spec_create_position(
        pool,
        pool_key,
        arrays,
        lower_array,
        upper_array,
        tick_lower,
        tick_upper,
        amount_a_max,
        amount_b_max,
        quote,
        position_mint,
        owner,
        bump,
    )->Ok_0 == (position, pool1, created));

    // Closing finds the same inside growth, so accrual changes nothing.
    assert(spec_fee_growth_inside(pool1, tick_lower, lt2, tick_upper, ut2) == inside);
    assert(position.liquidity_amount * 0 == 0);
    assert(spec_accrue_position_fees(position, inside) == (Ok::<(), ConcentratedLiquidityError>(()), position));
}

/// Closing a position keeps every tick array settled.
pub proof fn law_close_keeps_arrays_settled(
    pool: PoolState,
    arrays: Seq<TickArray>,
    lower_array: int,
    upper_array: int,
    position: Position,
    amounts: Result<(u64, u64), ConcentratedLiquidityError>,
)
    requires
        0 <= lower_array < arrays.len(),
        0 <= upper_array < arrays.len(),
        pool.tick_spacing > 0,
        arrays_settled(arrays),
        spec_close_position(pool, arrays, lower_array, upper_array, position, amounts) is Ok,
    ensures
        arrays_settled(spec_close_position(pool, arrays, lower_array, upper_array, position, amounts)->Ok_0.3),
{
    let spacing = pool.tick_spacing;
    let lo = spec_tick_offset(arrays[lower_array].start_tick_index, position.tick_lower, spacing)->Ok_0 as int;
    let uo = spec_tick_offset(arrays[upper_array].start_tick_index, position.tick_upper, spacing)->Ok_0 as int;
    let removal = (-position.liquidity_amount) as i128;
    let lt = arrays[lower_array].ticks@[lo];
    assert(lt.settled());
    let lt2 = spec_update_tick_liquidity(lt, removal, false).1;
    assert(lt2.settled());
    lemma_with_tick_keeps_settled(arrays, lower_array, lo, lt2);
    let arrays1 = with_tick(arrays, lower_array, lo, lt2);
    let ut = arrays1[upper_array].ticks@[uo];
    lemma_with_tick_read(arrays, lower_array, lo, lt2, upper_array, uo);
    assert(ut.settled());
    let ut2 = spec_update_tick_liquidity(ut, removal, true).1;
    assert(ut2.settled());
    lemma_with_tick_keeps_settled(arrays1, upper_array, uo, ut2);
}

} // verus!
