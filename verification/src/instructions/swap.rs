//! The decisions of an exact-input swap.
//!
//! A swap walks the price from tick to tick: it finds the next initialized
//! tick in its direction, prices one step toward it, applies that step to the
//! pool (fees, crossings, price and tick), and repeats until the input is
//! used up; the output must then meet the caller's minimum. Pricing a step
//! needs the sqrt-price curve, which the caller evaluates between the calls
//! below.

use vstd::prelude::*;

use crate::errors::ConcentratedLiquidityError;
use crate::math::{
    add_fee_growth, apply_liquidity_delta, cross_tick, crossed_tick, find_next_initialized_tick,
    is_crossing_candidate, is_first_nearest, spec_add_fee_growth, spec_apply_liquidity_delta,
    tick_indices_fit, FeeSide, NextTickCrossing, SwapStep,
};
use crate::state::{
    arrays_settled, lemma_with_tick_keeps_settled, store_tick, with_tick, PoolState, TickArray, TICK_ARRAY_SIZE,
};

verus! {

/// How far an exact-input swap has got.
#[derive(Clone, Copy, Debug, PartialEq, Eq, Structural)]
pub struct SwapProgress {
    /// Input the swapper committed to.
    pub amount_in: u64,
    /// Input not yet consumed by a step.
    pub amount_remaining: u64,
    /// Output produced so far.
    pub amount_out: u64,
}

impl SwapProgress {
    /// A swap never has more input left than it started with.
    pub open spec fn wf(self) -> bool {
        self.amount_remaining <= self.amount_in
    }
}

/// Starts a swap of exactly `amount_in`; a zero amount is refused.
pub fn begin(amount_in: u64) -> (progress: Result<SwapProgress, ConcentratedLiquidityError>)
    ensures
        progress == if amount_in == 0 {
            Err(ConcentratedLiquidityError::ZeroAmountSpecified)
        } else {
            Ok::<SwapProgress, ConcentratedLiquidityError>(
                SwapProgress { amount_in, amount_remaining: amount_in, amount_out: 0 },
            )
        },
        progress matches Ok(p) ==> p.wf(),
{
    if amount_in == 0 {
        return Err(ConcentratedLiquidityError::ZeroAmountSpecified);
    }
    Ok(SwapProgress { amount_in, amount_remaining: amount_in, amount_out: 0 })
}

/// The next initialized tick the swap reaches from the pool's current tick,
/// or `MissingTickArrayForSwap` when the supplied arrays hold none.
pub fn next_crossing(pool_state: &PoolState, tick_arrays: &[TickArray], a_to_b: bool) -> (next: Result<
    NextTickCrossing,
    ConcentratedLiquidityError,
>)
    requires
        tick_indices_fit(tick_arrays@, pool_state.tick_spacing),
    ensures
        match next {
            Err(e) => e == ConcentratedLiquidityError::MissingTickArrayForSwap && forall|a: int, o: int|
                !#[trigger] is_crossing_candidate(
                    tick_arrays@,
                    a,
                    o,
                    pool_state.current_tick,
                    pool_state.tick_spacing,
                    a_to_b,
                ),
            Ok(found) => is_first_nearest(
                tick_arrays@,
                found,
                pool_state.current_tick,
                pool_state.tick_spacing,
                a_to_b,
                tick_arrays@.len() as int,
                0,
            ),
        },
{
    match find_next_initialized_tick(tick_arrays, pool_state.current_tick, pool_state.tick_spacing, a_to_b) {
        Some(found) => Ok(found),
        None => Err(ConcentratedLiquidityError::MissingTickArrayForSwap),
    }
}

/// The token in which a swap in direction `a_to_b` pays its fee (its input).
pub open spec fn input_side(a_to_b: bool) -> FeeSide {
    if a_to_b {
        FeeSide::TokenA
    } else {
        FeeSide::TokenB
    }
}

/// Where a step that stops short of its target tick leaves the current tick:
/// the tick of the step's end price, kept between the current tick and the
/// target, the target included going down (the price stays at or above the
/// target's) and excluded going up, so that rounding in the caller's pricing
/// never carries the tick past a tick the step did not cross.
pub open spec fn stop_short_tick(current_tick: i32, target: i32, tick_after_step: i32, a_to_b: bool) -> i32 {
    if a_to_b {
        let lower = if target <= current_tick {
            target
        } else {
            current_tick
        };
        if tick_after_step > current_tick {
            current_tick
        } else if tick_after_step < lower {
            lower
        } else {
            tick_after_step
        }
    } else {
        let upper = if target > current_tick {
            (target - 1) as i32
        } else {
            current_tick
        };
        if tick_after_step < current_tick {
            current_tick
        } else if tick_after_step > upper {
            upper
        } else {
            tick_after_step
        }
    }
}

/// Computes `stop_short_tick`.
fn clamp_stop_short_tick(current_tick: i32, target: i32, tick_after_step: i32, a_to_b: bool) -> (tick: i32)
    ensures
        tick == stop_short_tick(current_tick, target, tick_after_step, a_to_b),
{
    if a_to_b {
        let lower = if target <= current_tick {
            target
        } else {
            current_tick
        };
        if tick_after_step > current_tick {
            current_tick
        } else if tick_after_step < lower {
            lower
        } else {
            tick_after_step
        }
    } else {
        let upper = if target > current_tick {
            target - 1
        } else {
            current_tick
        };
        if tick_after_step < current_tick {
            current_tick
        } else if tick_after_step > upper {
            upper
        } else {
            tick_after_step
        }
    }
}

/// The progress, pool and tick arrays after applying one priced step, or why
/// the step is refused.
///
/// The step's input leaves the remaining input and its output adds to the
/// swap's output; its fee grows the fee accumulator of the input token; the
/// price moves to the step's end price. A step that reaches its target
/// crosses the target tick, applies the tick's liquidity change to the active
/// liquidity, and leaves the current tick just below the target (going down)
/// or at it (going up); otherwise the current tick becomes `tick_after_step`,
/// the tick of the step's end price, kept short of the target
/// (`stop_short_tick`).
pub open spec fn spec_apply_step(
    progress: SwapProgress,
    pool: PoolState,
    arrays: Seq<TickArray>,
    crossing: NextTickCrossing,
    step: SwapStep,
    tick_after_step: i32,
    a_to_b: bool,
) -> Result<(SwapProgress, PoolState, Seq<TickArray>), ConcentratedLiquidityError> {
    let fee = spec_add_fee_growth(pool, input_side(a_to_b), step.fee_amount);
    let pool1 = PoolState { sqrt_price_x64: step.next_sqrt_price_x64, ..fee.1 };
    let progress1 = SwapProgress {
        amount_remaining: (progress.amount_remaining - step.amount_in) as u64,
        amount_out: (progress.amount_out + step.amount_out) as u64,
        ..progress
    };
    let a = crossing.tick_array_list_index as int;
    let o = crossing.tick_offset as int;
    let tick = arrays[a].ticks@[o];
    let net = tick.liquidity_net;
    if step.amount_in > progress.amount_remaining {
        Err(ConcentratedLiquidityError::TickMathOverflow)
    } else if progress.amount_out + step.amount_out > u64::MAX {
        Err(ConcentratedLiquidityError::TickMathOverflow)
    } else if fee.0 is Err {
        Err(fee.0->Err_0)
    } else if !step.reached_target_tick {
        Ok(
            (
                progress1,
                PoolState {
                    current_tick: stop_short_tick(pool.current_tick, crossing.tick_index, tick_after_step, a_to_b),
                    ..pool1
                },
                arrays,
            ),
        )
    } else if a_to_b && net == i128::MIN {
        Err(ConcentratedLiquidityError::TickMathOverflow)
    } else {
        let delta = if a_to_b { (-net) as i128 } else { net };
        let liquidity = spec_apply_liquidity_delta(pool1.liquidity, delta);
        if liquidity is Err {
            Err(liquidity->Err_0)
        } else if a_to_b && crossing.tick_index == i32::MIN {
            Err(ConcentratedLiquidityError::TickMathOverflow)
        } else {
            Ok(
                (
                    progress1,
                    PoolState {
                        liquidity: liquidity->Ok_0,
                        current_tick: if a_to_b {
                            (crossing.tick_index - 1) as i32
                        } else {
                            crossing.tick_index
                        },
                        ..pool1
                    },
                    with_tick(arrays, a, o, crossed_tick(pool1, tick)),
                ),
            )
        }
    }
}

/// Applies one priced swap step toward the tick found by `next_crossing`.
///
/// On success the progress, pool and arrays are updated; on any error
/// nothing changes. Each successful step either crosses its target tick,
/// moving the current tick strictly past it, or ends the swap's input.
pub fn apply_step(
    progress: &mut SwapProgress,
    pool_state: &mut PoolState,
    tick_arrays: &mut Vec<TickArray>,
    crossing: NextTickCrossing,
    step: SwapStep,
    tick_after_step: i32,
    a_to_b: bool,
) -> (r: Result<(), ConcentratedLiquidityError>)
    requires
        crossing.tick_array_list_index < old(tick_arrays).len(),
        crossing.tick_offset < TICK_ARRAY_SIZE,
    ensures
        match spec_apply_step(
            *old(progress),
            *old(pool_state),
            old(tick_arrays)@,
            crossing,
            step,
            tick_after_step,
            a_to_b,
        ) {
            Ok((progress_after, pool_after, arrays_after)) => {
                &&& r is Ok
                &&& *final(progress) == progress_after
                &&& *final(pool_state) == pool_after
                &&& final(tick_arrays)@ == arrays_after
            },
            Err(e) => {
                &&& r == Err::<(), ConcentratedLiquidityError>(e)
                &&& *final(progress) == *old(progress)
                &&& *final(pool_state) == *old(pool_state)
                &&& final(tick_arrays)@ == old(tick_arrays)@
            },
        },
        r is Ok ==> {
            &&& final(progress).amount_in == old(progress).amount_in
            &&& final(progress).amount_remaining == old(progress).amount_remaining - step.amount_in
            &&& step.reached_target_tick && a_to_b ==> final(pool_state).current_tick < crossing.tick_index
            &&& step.reached_target_tick && !a_to_b ==> final(pool_state).current_tick >= crossing.tick_index
        },
{
    if step.amount_in > progress.amount_remaining {
        return Err(ConcentratedLiquidityError::TickMathOverflow);
    }
    let amount_out = match progress.amount_out.checked_add(step.amount_out) {
        Some(v) => v,
        None => return Err(ConcentratedLiquidityError::TickMathOverflow),
    };
    let mut pool = *pool_state;
    let side = if a_to_b {
        FeeSide::TokenA
    } else {
        FeeSide::TokenB
    };
    match add_fee_growth(&mut pool, side, step.fee_amount) {
        Ok(()) => {},
        Err(e) => return Err(e),
    }
    pool.sqrt_price_x64 = step.next_sqrt_price_x64;
    let next_progress = SwapProgress {
        amount_in: progress.amount_in,
        amount_remaining: progress.amount_remaining - step.amount_in,
        amount_out,
    };

    if !step.reached_target_tick {
        pool.current_tick = clamp_stop_short_tick(pool_state.current_tick, crossing.tick_index, tick_after_step, a_to_b);
        *progress = next_progress;
        *pool_state = pool;
        return Ok(());
    }

    let a = crossing.tick_array_list_index;
    let o = crossing.tick_offset;
    let mut tick = tick_arrays[a].ticks[o];
    let delta = match cross_tick(&pool, &mut tick, a_to_b) {
        Ok(d) => d,
        Err(e) => return Err(e),
    };
    pool.liquidity = match apply_liquidity_delta(pool.liquidity, delta) {
        Ok(l) => l,
        Err(e) => return Err(e),
    };
    pool.current_tick = if a_to_b {
        match crossing.tick_index.checked_sub(1) {
            Some(t) => t,
            None => return Err(ConcentratedLiquidityError::TickMathOverflow),
        }
    } else {
        crossing.tick_index
    };
    store_tick(tick_arrays, a, o, tick);
    *progress = next_progress;
    *pool_state = pool;
    Ok(())
}

/// Ends a swap: the output must reach `minimum_amount_out`. Returns the
/// input and output amounts to transfer.
pub fn finish(progress: &SwapProgress, minimum_amount_out: u64) -> (amounts: Result<
    (u64, u64),
    ConcentratedLiquidityError,
>)
    ensures
        amounts == if progress.amount_out < minimum_amount_out {
            Err(ConcentratedLiquidityError::SlippageExceeded)
        } else {
            Ok::<(u64, u64), ConcentratedLiquidityError>((progress.amount_in, progress.amount_out))
        },
{
    if progress.amount_out < minimum_amount_out {
        return Err(ConcentratedLiquidityError::SlippageExceeded);
    }
    Ok((progress.amount_in, progress.amount_out))
}

/// A swap step that crosses an initialized tick keeps every tick array
/// settled.
pub proof fn law_swap_step_keeps_arrays_settled(
    progress: SwapProgress,
    pool: PoolState,
    arrays: Seq<TickArray>,
    crossing: NextTickCrossing,
    step: SwapStep,
    tick_after_step: i32,
    a_to_b: bool,
)
    requires
        crossing.tick_array_list_index < arrays.len(),
        crossing.tick_offset < TICK_ARRAY_SIZE,
        arrays[crossing.tick_array_list_index as int].ticks@[crossing.tick_offset as int].initialized != 0,
        arrays_settled(arrays),
        spec_apply_step(progress, pool, arrays, crossing, step, tick_after_step, a_to_b) is Ok,
    ensures
        arrays_settled(spec_apply_step(progress, pool, arrays, crossing, step, tick_after_step, a_to_b)->Ok_0.2),
{
    let a = crossing.tick_array_list_index as int;
    let o = crossing.tick_offset as int;
    let tick = arrays[a].ticks@[o];
    assert(tick.settled());
    if step.reached_target_tick {
        let fee = spec_add_fee_growth(pool, input_side(a_to_b), step.fee_amount);
        let pool1 = PoolState { sqrt_price_x64: step.next_sqrt_price_x64, ..fee.1 };
        assert(crossed_tick(pool1, tick).settled());
        lemma_with_tick_keeps_settled(arrays, a, o, crossed_tick(pool1, tick));
    }
}

} // verus!
