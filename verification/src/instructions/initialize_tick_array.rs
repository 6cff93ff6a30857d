use vstd::prelude::*;

use crate::errors::ConcentratedLiquidityError;
use crate::math::{array_start, tick_array_span, tick_array_start_index};
use crate::pubkey::Pubkey;
use crate::state::{PoolState, Tick, TickArray, TICK_ARRAY_SIZE};

verus! {

/// Initializes one tick-array account for a pool.
///
/// `start_tick_index` must be exactly the start of an array span of the
/// pool's spacing, so arrays never overlap. The new array has all ticks
/// zeroed, that is uninitialized.
pub fn handler(pool_state: &PoolState, pool_key: Pubkey, start_tick_index: i32, bump: u8) -> (tick_array:
    Result<TickArray, ConcentratedLiquidityError>)
    requires
        pool_state.tick_spacing > 0,
    ensures
        array_start(start_tick_index as int, pool_state.tick_spacing) == start_tick_index <==> tick_array is Ok,
        tick_array is Err ==> tick_array == Err::<TickArray, ConcentratedLiquidityError>(
            ConcentratedLiquidityError::InvalidTickArrayStart,
        ),
        tick_array matches Ok(ta) ==> {
            &&& ta.pool == pool_key
            &&& ta.start_tick_index == start_tick_index
            &&& ta.bump == bump
            &&& forall|o: int| 0 <= o < TICK_ARRAY_SIZE ==> #[trigger] ta.ticks@[o] == Tick::zeroed()
        },
{
    let expected = match tick_array_start_index(start_tick_index, pool_state.tick_spacing) {
        Ok(start) => start,
        Err(_) => return Err(ConcentratedLiquidityError::InvalidTickArrayStart),
    };
    if start_tick_index != expected {
        return Err(ConcentratedLiquidityError::InvalidTickArrayStart);
    }
    match tick_array_span(pool_state.tick_spacing) {
        Ok(_) => {},
        Err(_) => return Err(ConcentratedLiquidityError::TickMathOverflow),
    }
    let zero = Tick::default();
    Ok(TickArray { pool: pool_key, start_tick_index, bump, ticks: [zero; TICK_ARRAY_SIZE] })
}

} // verus!
