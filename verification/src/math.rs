use vstd::prelude::*;

use crate::errors::ConcentratedLiquidityError;
use crate::state::{PoolState, Position, Tick, TickArray, FEE_GROWTH_SCALING_FACTOR, TICK_ARRAY_SIZE};
use vstd::arithmetic::div_mod::{lemma_fundamental_div_mod, lemma_mod_multiples_basic};

verus! {

/// Which token a swap fee is paid in.
#[derive(Clone, Copy, Debug, PartialEq, Eq, Structural)]
pub enum FeeSide {
    TokenA,
    TokenB,
}

/// Fee growth accumulated inside a tick range, per token.
#[derive(Clone, Copy, Debug, Default, PartialEq, Eq, Structural)]
pub struct FeeGrowthInside {
    pub token_a_x64: u128,
    pub token_b_x64: u128,
}

/// Liquidity minted for a deposit, with the token amounts it consumes.
#[derive(Clone, Copy, Debug, PartialEq, Eq, Structural)]
pub struct LiquidityQuote {
    pub liquidity_delta: u128,
    pub amount_a: u64,
    pub amount_b: u64,
}

/// The next initialized tick a swap reaches, and where it is stored.
#[derive(Clone, Copy, Debug, PartialEq, Eq, Structural)]
pub struct NextTickCrossing {
    pub tick_index: i32,
    pub tick_array_list_index: usize,
    pub tick_offset: usize,
}

/// The outcome of one exact-input swap step.
#[derive(Clone, Copy, Debug, PartialEq, Eq, Structural)]
pub struct SwapStep {
    pub next_sqrt_price_x64: u128,
    pub amount_in: u64,
    pub amount_out: u64,
    pub fee_amount: u64,
    pub reached_target_tick: bool,
}


// ---------------------------------------------------------------------------
// Tick array helpers.

/// The tick range covered by one tick array.
pub open spec fn array_span(tick_spacing: u16) -> int {
    tick_spacing * TICK_ARRAY_SIZE
}

/// The start of the tick array containing `tick_index` (floor to a multiple
/// of the span).
pub open spec fn array_start(tick_index: int, tick_spacing: u16) -> int {
    (tick_index / array_span(tick_spacing)) * array_span(tick_spacing)
}

/// Calculates the total tick range covered by one tick array
/// (`TICK_ARRAY_SIZE * tick_spacing`).
///
/// Example: `tick_spacing = 100` => span `8_800`.
pub fn tick_array_span(tick_spacing: u16) -> (span: Result<i32, ConcentratedLiquidityError>)
    ensures
        span == Ok::<i32, ConcentratedLiquidityError>(array_span(tick_spacing) as i32),
        0 <= array_span(tick_spacing) <= i32::MAX,
{
    let spacing = tick_spacing as i32;
    match spacing.checked_mul(TICK_ARRAY_SIZE as i32) {
        Some(array_span) => Ok(array_span),
        None => Err(ConcentratedLiquidityError::TickMathOverflow),
    }
}

/// Returns the start tick index of the tick array that contains the given tick.
///
/// Example: tick `9_000`, spacing `100` => start `8_800`.
pub fn tick_array_start_index(tick_index: i32, tick_spacing: u16) -> (start: Result<
    i32,
    ConcentratedLiquidityError,
>)
    requires
        tick_spacing > 0,
    ensures
        start == if i32::MIN <= array_start(tick_index as int, tick_spacing) {
            Ok::<i32, ConcentratedLiquidityError>(array_start(tick_index as int, tick_spacing) as i32)
        } else {
            Err(ConcentratedLiquidityError::TickMathOverflow)
        },
        array_start(tick_index as int, tick_spacing) <= tick_index,
{
    let array_span = match tick_array_span(tick_spacing) {
        Ok(span) => span,
        Err(e) => return Err(e),
    };
    proof {
        assert(array_span >= 1) by (nonlinear_arith)
            requires
                array_span == tick_spacing * 88,
                tick_spacing > 0,
        ;
        lemma_fundamental_div_mod(tick_index as int, array_span as int);
        let q = (tick_index as int) / (array_span as int);
        let r = (tick_index as int) % (array_span as int);
        assert(i32::MIN <= q <= i32::MAX) by (nonlinear_arith)
            requires
                tick_index == array_span * q + r,
                0 <= r < array_span,
                array_span >= 1,
                i32::MIN <= tick_index <= i32::MAX,
        ;
    }
    let quotient = match tick_index.checked_div_euclid(array_span) {
        Some(q) => q,
        None => return Err(ConcentratedLiquidityError::TickMathOverflow),
    };
    proof {
        lemma_fundamental_div_mod(tick_index as int, array_span as int);
        assert(quotient * array_span <= tick_index) by (nonlinear_arith)
            requires
                tick_index == array_span * quotient + (tick_index as int) % (array_span as int),
                (tick_index as int) % (array_span as int) >= 0,
        ;
    }
    match quotient.checked_mul(array_span) {
        Some(start) => Ok(start),
        None => Err(ConcentratedLiquidityError::TickMathOverflow),
    }
}

/// The offset lookup divides by the spacing only when the tick is at or
/// after the array start; it is defined unless that happens with spacing 0.
pub open spec fn offset_defined(start_tick_index: i32, tick_index: i32, tick_spacing: u16) -> bool {
    let delta = tick_index - start_tick_index;
    !(i32::MIN <= delta <= i32::MAX && delta >= 0 && tick_spacing == 0)
}

/// The offset of `tick_index` inside the array starting at `start_tick_index`.
pub open spec fn spec_tick_offset(start_tick_index: i32, tick_index: i32, tick_spacing: u16) -> Result<
    usize,
    ConcentratedLiquidityError,
> {
    let delta = tick_index - start_tick_index;
    if delta < i32::MIN || delta > i32::MAX {
        Err(ConcentratedLiquidityError::TickMathOverflow)
    } else if delta < 0 || delta % (tick_spacing as int) != 0 {
        Err(ConcentratedLiquidityError::InvalidTickArrayStart)
    } else if delta / (tick_spacing as int) >= TICK_ARRAY_SIZE {
        Err(ConcentratedLiquidityError::TickIndexOutOfBounds)
    } else {
        Ok((delta / (tick_spacing as int)) as usize)
    }
}

/// Finds the array index offset of a tick within its tick array.
///
/// Example: start `8_800`, tick `9_000`, spacing `100` => offset `2`.
pub fn tick_offset_in_array(start_tick_index: i32, tick_index: i32, tick_spacing: u16) -> (offset:
    Result<usize, ConcentratedLiquidityError>)
    requires
        offset_defined(start_tick_index, tick_index, tick_spacing),
    ensures
        offset == spec_tick_offset(start_tick_index, tick_index, tick_spacing),
{
    let spacing = tick_spacing as i32;
    let delta = match tick_index.checked_sub(start_tick_index) {
        Some(d) => d,
        None => return Err(ConcentratedLiquidityError::TickMathOverflow),
    };
    if delta < 0 || delta % spacing != 0 {
        return Err(ConcentratedLiquidityError::InvalidTickArrayStart);
    }
    let offset = delta / spacing;
    if offset < 0 || offset >= TICK_ARRAY_SIZE as i32 {
        return Err(ConcentratedLiquidityError::TickIndexOutOfBounds);
    }
    Ok(offset as usize)
}

/// A successful offset lookup points back at the tick.
pub proof fn lemma_offset_points_at_tick(start_tick_index: i32, tick_index: i32, tick_spacing: u16)
    requires
        tick_spacing > 0,
        spec_tick_offset(start_tick_index, tick_index, tick_spacing) is Ok,
    ensures
        start_tick_index + spec_tick_offset(start_tick_index, tick_index, tick_spacing)->Ok_0 * tick_spacing
            == tick_index,
{
    let delta = tick_index - start_tick_index;
    let s = tick_spacing as int;
    lemma_fundamental_div_mod(delta, s);
    assert(delta == s * (delta / s));
    assert((delta / s) * s == s * (delta / s)) by (nonlinear_arith);
}

/// A multiple of `b` stays a multiple of `b` when negated.
proof fn lemma_neg_divisible(a: int, b: int)
    requires
        b > 0,
    ensures
        ((-a) % b == 0) <==> (a % b == 0),
{
    if a % b == 0 {
        lemma_fundamental_div_mod(a, b);
        let q = a / b;
        assert(-a == (-q) * b) by (nonlinear_arith)
            requires
                a == b * q + 0,
        ;
        lemma_mod_multiples_basic(-q, b);
    }
    if (-a) % b == 0 {
        lemma_fundamental_div_mod(-a, b);
        let q = (-a) / b;
        assert(a == (-q) * b) by (nonlinear_arith)
            requires
                -a == b * q + 0,
        ;
        lemma_mod_multiples_basic(-q, b);
    }
}

/// Validates that a tick index is aligned with the pool's tick spacing.
///
/// Example: spacing `100` accepts tick `9_000`, rejects tick `9_050`.
pub fn validate_tick_alignment(tick_index: i32, tick_spacing: u16) -> (r: Result<
    (),
    ConcentratedLiquidityError,
>)
    ensures
        r == if tick_spacing > 0 && (tick_index as int) % (tick_spacing as int) == 0 {
            Ok::<(), ConcentratedLiquidityError>(())
        } else {
            Err(ConcentratedLiquidityError::TickNotAligned)
        },
{
    let spacing = tick_spacing as i32;
    if spacing <= 0 {
        return Err(ConcentratedLiquidityError::TickNotAligned);
    }
    let rem = tick_index % spacing;
    proof {
        if tick_index < 0 {
            assert(rem as int == -((-(tick_index as int)) % (spacing as int)));
            lemma_neg_divisible(tick_index as int, spacing as int);
        }
    }
    if rem != 0 {
        return Err(ConcentratedLiquidityError::TickNotAligned);
    }
    Ok(())
}

// ---------------------------------------------------------------------------
// Position input validation.

/// The deposit amounts that a range needs at the current tick: token A only
/// above the price, token B only below it, both while it is active; and
/// never nothing.
pub open spec fn spec_validate_position_token_amounts(
    current_tick: i32,
    tick_lower: i32,
    tick_upper: i32,
    amount_a: u64,
    amount_b: u64,
) -> Result<(), ConcentratedLiquidityError> {
    if amount_a == 0 && amount_b == 0 {
        Err(ConcentratedLiquidityError::ZeroLiquidityDeposit)
    } else if tick_lower > current_tick {
        if amount_a == 0 || amount_b > 0 {
            Err(ConcentratedLiquidityError::InvalidPositionTokenAmounts)
        } else {
            Ok(())
        }
    } else if tick_upper <= current_tick {
        if amount_a > 0 || amount_b == 0 {
            Err(ConcentratedLiquidityError::InvalidPositionTokenAmounts)
        } else {
            Ok(())
        }
    } else if amount_a == 0 || amount_b == 0 {
        Err(ConcentratedLiquidityError::InvalidPositionTokenAmounts)
    } else {
        Ok(())
    }
}

/// Validates token deposit amounts match the position range relative to the
/// current price (below/in/above range).
///
/// Example: at tick `0`, `[-100,100)` needs A+B, `[100,300)` needs A only.
pub fn validate_position_token_amounts(
    current_tick: i32,
    tick_lower: i32,
    tick_upper: i32,
    amount_a: u64,
    amount_b: u64,
) -> (r: Result<(), ConcentratedLiquidityError>)
    ensures
        r == spec_validate_position_token_amounts(current_tick, tick_lower, tick_upper, amount_a, amount_b),
{
    if amount_a == 0 && amount_b == 0 {
        return Err(ConcentratedLiquidityError::ZeroLiquidityDeposit);
    }
    if tick_lower > current_tick {
        if amount_a == 0 || amount_b > 0 {
            return Err(ConcentratedLiquidityError::InvalidPositionTokenAmounts);
        }
    } else if tick_upper <= current_tick {
        if amount_a > 0 || amount_b == 0 {
            return Err(ConcentratedLiquidityError::InvalidPositionTokenAmounts);
        }
    } else if amount_a == 0 || amount_b == 0 {
        return Err(ConcentratedLiquidityError::InvalidPositionTokenAmounts);
    }
    Ok(())
}


// ---------------------------------------------------------------------------
// Fee accounting.

/// Subtraction modulo `2^128`, as `u128::wrapping_sub` computes it.
pub open spec fn wrap_sub(x: u128, y: u128) -> u128 {
    vstd::wrapping::u128_specs::wrapping_sub(x, y)
}

/// Fee growth below the lower boundary of a range.
pub open spec fn growth_below(global: u128, lower_outside: u128, current_tick: i32, tick_lower_index: i32) -> u128 {
    if current_tick < tick_lower_index {
        wrap_sub(global, lower_outside)
    } else {
        lower_outside
    }
}

/// Fee growth at or above the upper boundary of a range.
pub open spec fn growth_above(global: u128, upper_outside: u128, current_tick: i32, tick_upper_index: i32) -> u128 {
    if current_tick >= tick_upper_index {
        wrap_sub(global, upper_outside)
    } else {
        upper_outside
    }
}

/// Fee growth inside a range: global growth minus the growth below and above
/// it, modulo `2^128`.
pub open spec fn growth_inside(
    global: u128,
    lower_outside: u128,
    upper_outside: u128,
    current_tick: i32,
    tick_lower_index: i32,
    tick_upper_index: i32,
) -> u128 {
    wrap_sub(
        wrap_sub(global, growth_below(global, lower_outside, current_tick, tick_lower_index)),
        growth_above(global, upper_outside, current_tick, tick_upper_index),
    )
}

/// The fee growth inside `[tick_lower_index, tick_upper_index)` for both tokens.
pub open spec fn spec_fee_growth_inside(
    pool: PoolState,
    tick_lower_index: i32,
    lower_tick: Tick,
    tick_upper_index: i32,
    upper_tick: Tick,
) -> FeeGrowthInside {
    FeeGrowthInside {
        token_a_x64: growth_inside(
            pool.fee_growth_global_a_x64,
            lower_tick.fee_growth_outside_a_x64,
            upper_tick.fee_growth_outside_a_x64,
            pool.current_tick,
            tick_lower_index,
            tick_upper_index,
        ),
        token_b_x64: growth_inside(
            pool.fee_growth_global_b_x64,
            lower_tick.fee_growth_outside_b_x64,
            upper_tick.fee_growth_outside_b_x64,
            pool.current_tick,
            tick_lower_index,
            tick_upper_index,
        ),
    }
}

/// Computes fee growth inside a position's lower/upper tick range.
///
/// Example: global `1_000`, below `200`, above `100` => inside `700`.
pub fn fee_growth_inside_for_ticks(
    pool: &PoolState,
    tick_lower_index: i32,
    lower_tick: &Tick,
    tick_upper_index: i32,
    upper_tick: &Tick,
) -> (inside: FeeGrowthInside)
    ensures
        inside == spec_fee_growth_inside(*pool, tick_lower_index, *lower_tick, tick_upper_index, *upper_tick),
{
    let below_a;
    let below_b;
    if pool.current_tick < tick_lower_index {
        below_a = pool.fee_growth_global_a_x64.wrapping_sub(lower_tick.fee_growth_outside_a_x64);
        below_b = pool.fee_growth_global_b_x64.wrapping_sub(lower_tick.fee_growth_outside_b_x64);
    } else {
        below_a = lower_tick.fee_growth_outside_a_x64;
        below_b = lower_tick.fee_growth_outside_b_x64;
    }

    let above_a;
    let above_b;
    if pool.current_tick >= tick_upper_index {
        above_a = pool.fee_growth_global_a_x64.wrapping_sub(upper_tick.fee_growth_outside_a_x64);
        above_b = pool.fee_growth_global_b_x64.wrapping_sub(upper_tick.fee_growth_outside_b_x64);
    } else {
        above_a = upper_tick.fee_growth_outside_a_x64;
        above_b = upper_tick.fee_growth_outside_b_x64;
    }

    FeeGrowthInside {
        token_a_x64: pool.fee_growth_global_a_x64.wrapping_sub(below_a).wrapping_sub(above_a),
        token_b_x64: pool.fee_growth_global_b_x64.wrapping_sub(below_b).wrapping_sub(above_b),
    }
}

/// The fees that `liquidity` earned while the inside growth moved from
/// `checkpoint` to `inside`: `liquidity * (inside - checkpoint) / 2^64`,
/// with the difference taken modulo `2^128`.
pub open spec fn earned_fees(liquidity: u128, inside: u128, checkpoint: u128) -> int {
    (liquidity * wrap_sub(inside, checkpoint)) / (FEE_GROWTH_SCALING_FACTOR as int)
}

/// What accruing fees does to a position: the result and the position after it.
pub open spec fn spec_accrue_position_fees(position: Position, inside: FeeGrowthInside) -> (Result<
    (),
    ConcentratedLiquidityError,
>, Position) {
    let product_a = position.liquidity_amount * wrap_sub(inside.token_a_x64, position.fee_growth_checkpoint_a_x64);
    let product_b = position.liquidity_amount * wrap_sub(inside.token_b_x64, position.fee_growth_checkpoint_b_x64);
    let owed_a = position.fees_a_owed + earned_fees(
        position.liquidity_amount,
        inside.token_a_x64,
        position.fee_growth_checkpoint_a_x64,
    );
    let owed_b = position.fees_b_owed + earned_fees(
        position.liquidity_amount,
        inside.token_b_x64,
        position.fee_growth_checkpoint_b_x64,
    );
    if product_a > u128::MAX || product_b > u128::MAX || owed_a > u128::MAX {
        (Err(ConcentratedLiquidityError::TickMathOverflow), position)
    } else if owed_b > u128::MAX {
        (Err(ConcentratedLiquidityError::TickMathOverflow), Position { fees_a_owed: owed_a as u128, ..position })
    } else {
        (
            Ok(()),
            Position {
                fees_a_owed: owed_a as u128,
                fees_b_owed: owed_b as u128,
                fee_growth_checkpoint_a_x64: inside.token_a_x64,
                fee_growth_checkpoint_b_x64: inside.token_b_x64,
                ..position
            },
        )
    }
}

/// Accrues fees owed to a position from the difference between current
/// inside growth and its checkpoints, then moves the checkpoints.
///
/// Example: checkpoint `500`, inside `800` => accrue growth delta `300`.
pub fn accrue_position_fees(position: &mut Position, fee_growth_inside: FeeGrowthInside) -> (r: Result<
    (),
    ConcentratedLiquidityError,
>)
    ensures
        (r, *final(position)) == spec_accrue_position_fees(*old(position), fee_growth_inside),
{
    let growth_delta_a = fee_growth_inside.token_a_x64.wrapping_sub(position.fee_growth_checkpoint_a_x64);
    let growth_delta_b = fee_growth_inside.token_b_x64.wrapping_sub(position.fee_growth_checkpoint_b_x64);

    let additional_a = match position.liquidity_amount.checked_mul(growth_delta_a) {
        Some(p) => p / FEE_GROWTH_SCALING_FACTOR,
        None => return Err(ConcentratedLiquidityError::TickMathOverflow),
    };
    let additional_b = match position.liquidity_amount.checked_mul(growth_delta_b) {
        Some(p) => p / FEE_GROWTH_SCALING_FACTOR,
        None => return Err(ConcentratedLiquidityError::TickMathOverflow),
    };

    position.fees_a_owed = match position.fees_a_owed.checked_add(additional_a) {
        Some(v) => v,
        None => return Err(ConcentratedLiquidityError::TickMathOverflow),
    };
    position.fees_b_owed = match position.fees_b_owed.checked_add(additional_b) {
        Some(v) => v,
        None => return Err(ConcentratedLiquidityError::TickMathOverflow),
    };
    position.fee_growth_checkpoint_a_x64 = fee_growth_inside.token_a_x64;
    position.fee_growth_checkpoint_b_x64 = fee_growth_inside.token_b_x64;

    Ok(())
}

/// A tick after its first use as a boundary: marked initialized, and if it
/// lies at or below the current tick, all growth so far counts as outside.
pub open spec fn spec_initialize_tick_fee_growths(
    tick: Tick,
    tick_index: i32,
    current_tick: i32,
    pool_fee_growth_a_x64: u128,
    pool_fee_growth_b_x64: u128,
) -> Tick {
    if tick.initialized != 0 {
        tick
    } else if tick_index <= current_tick {
        Tick {
            initialized: 1,
            fee_growth_outside_a_x64: pool_fee_growth_a_x64,
            fee_growth_outside_b_x64: pool_fee_growth_b_x64,
            ..tick
        }
    } else {
        Tick { initialized: 1, ..tick }
    }
}

/// Initializes a tick's fee-growth-outside checkpoint when a boundary first
/// receives liquidity: a tick at or below the current tick counts all growth
/// so far as outside (below it).
///
/// Example: tick `-100` at current tick `0` snapshots current global fee growth.
pub fn initialize_tick_fee_growths(
    tick: &mut Tick,
    tick_index: i32,
    current_tick: i32,
    pool_fee_growth_a_x64: u128,
    pool_fee_growth_b_x64: u128,
)
    ensures
        *final(tick) == spec_initialize_tick_fee_growths(
            *old(tick),
            tick_index,
            current_tick,
            pool_fee_growth_a_x64,
            pool_fee_growth_b_x64,
        ),
{
    if tick.initialized == 0 {
        tick.initialized = 1;
        if tick_index <= current_tick {
            tick.fee_growth_outside_a_x64 = pool_fee_growth_a_x64;
            tick.fee_growth_outside_b_x64 = pool_fee_growth_b_x64;
        }
    }
}

/// The growth a fee adds to the global accumulator: `fee * 2^64 / liquidity`.
pub open spec fn fee_growth_delta(fee_amount: u64, liquidity: u128) -> int {
    (fee_amount * FEE_GROWTH_SCALING_FACTOR) / (liquidity as int)
}

/// What adding a swap fee does to a pool: the result and the pool after it.
pub open spec fn spec_add_fee_growth(pool: PoolState, fee_side: FeeSide, fee_amount: u64) -> (Result<
    (),
    ConcentratedLiquidityError,
>, PoolState) {
    if fee_amount == 0 || pool.liquidity == 0 {
        (Ok(()), pool)
    } else {
        let delta = fee_growth_delta(fee_amount, pool.liquidity);
        match fee_side {
            FeeSide::TokenA => if pool.fee_growth_global_a_x64 + delta > u128::MAX {
                (Err(ConcentratedLiquidityError::TickMathOverflow), pool)
            } else {
                (Ok(()), PoolState { fee_growth_global_a_x64: (pool.fee_growth_global_a_x64 + delta) as u128, ..pool })
            },
            FeeSide::TokenB => if pool.fee_growth_global_b_x64 + delta > u128::MAX {
                (Err(ConcentratedLiquidityError::TickMathOverflow), pool)
            } else {
                (Ok(()), PoolState { fee_growth_global_b_x64: (pool.fee_growth_global_b_x64 + delta) as u128, ..pool })
            },
        }
    }
}

/// Adds swap fees to the pool-wide fee-growth accumulator for the input token.
///
/// Example: A-to-B fee `300` increases `fee_growth_global_a_x64`.
pub fn add_fee_growth(pool: &mut PoolState, fee_side: FeeSide, fee_amount: u64) -> (r: Result<
    (),
    ConcentratedLiquidityError,
>)
    ensures
        (r, *final(pool)) == spec_add_fee_growth(*old(pool), fee_side, fee_amount),
{
    if fee_amount == 0 || pool.liquidity == 0 {
        return Ok(());
    }
    proof {
        assert(fee_amount * FEE_GROWTH_SCALING_FACTOR <= u128::MAX) by (nonlinear_arith)
            requires
                fee_amount <= u64::MAX,
                FEE_GROWTH_SCALING_FACTOR == 0x1_0000_0000_0000_0000u128,
        ;
    }
    let growth_delta = match (fee_amount as u128).checked_mul(FEE_GROWTH_SCALING_FACTOR) {
        Some(p) => p / pool.liquidity,
        None => return Err(ConcentratedLiquidityError::TickMathOverflow),
    };

    match fee_side {
        FeeSide::TokenA => {
            pool.fee_growth_global_a_x64 = match pool.fee_growth_global_a_x64.checked_add(growth_delta) {
                Some(v) => v,
                None => return Err(ConcentratedLiquidityError::TickMathOverflow),
            };
        },
        FeeSide::TokenB => {
            pool.fee_growth_global_b_x64 = match pool.fee_growth_global_b_x64.checked_add(growth_delta) {
                Some(v) => v,
                None => return Err(ConcentratedLiquidityError::TickMathOverflow),
            };
        },
    }

    Ok(())
}

// ---------------------------------------------------------------------------
// Tick liquidity updates.

/// What updating a boundary's liquidity does to it: the result and the tick
/// after it. A tick whose gross liquidity drops to zero is cleared.
pub open spec fn spec_update_tick_liquidity(tick: Tick, liquidity_delta: i128, is_upper_tick: bool) -> (Result<
    (),
    ConcentratedLiquidityError,
>, Tick) {
    let gross = tick.liquidity_gross + liquidity_delta;
    let net_delta = if is_upper_tick { -liquidity_delta } else { liquidity_delta as int };
    let net = tick.liquidity_net + net_delta;
    if liquidity_delta == 0 {
        (Err(ConcentratedLiquidityError::ZeroLiquidity), tick)
    } else if liquidity_delta > 0 && gross > u128::MAX {
        (Err(ConcentratedLiquidityError::TickMathOverflow), tick)
    } else if liquidity_delta < 0 && gross < 0 {
        (Err(ConcentratedLiquidityError::NegativeLiquidity), tick)
    } else if net_delta > i128::MAX || net < i128::MIN || net > i128::MAX {
        (Err(ConcentratedLiquidityError::TickMathOverflow), Tick { liquidity_gross: gross as u128, ..tick })
    } else if gross == 0 {
        (Ok(()), Tick::zeroed())
    } else {
        (Ok(()), Tick { liquidity_gross: gross as u128, liquidity_net: net as i128, ..tick })
    }
}

/// Updates one tick boundary's gross and net liquidity.
///
/// Example: lower tick adds `+L` net; upper tick adds `-L` net.
pub fn update_tick_liquidity(tick: &mut Tick, liquidity_delta: i128, is_upper_tick: bool) -> (r: Result<
    (),
    ConcentratedLiquidityError,
>)
    ensures
        (r, *final(tick)) == spec_update_tick_liquidity(*old(tick), liquidity_delta, is_upper_tick),
{
    if liquidity_delta == 0 {
        return Err(ConcentratedLiquidityError::ZeroLiquidity);
    }

    if liquidity_delta > 0 {
        tick.liquidity_gross = match tick.liquidity_gross.checked_add(liquidity_delta as u128) {
            Some(v) => v,
            None => return Err(ConcentratedLiquidityError::TickMathOverflow),
        };
    } else {
        let remove_amount = (-(liquidity_delta + 1)) as u128 + 1;
        tick.liquidity_gross = match tick.liquidity_gross.checked_sub(remove_amount) {
            Some(v) => v,
            None => return Err(ConcentratedLiquidityError::NegativeLiquidity),
        };
    }

    let signed_net_delta = if is_upper_tick {
        if liquidity_delta == i128::MIN {
            return Err(ConcentratedLiquidityError::TickMathOverflow);
        }
        -liquidity_delta
    } else {
        liquidity_delta
    };

    tick.liquidity_net = match tick.liquidity_net.checked_add(signed_net_delta) {
        Some(v) => v,
        None => return Err(ConcentratedLiquidityError::TickMathOverflow),
    };

    if tick.liquidity_gross == 0 {
        tick.initialized = 0;
        tick.liquidity_net = 0;
        tick.fee_growth_outside_a_x64 = 0;
        tick.fee_growth_outside_b_x64 = 0;
    }

    Ok(())
}

/// A tick after a swap crosses it: its fee-growth-outside checkpoints
/// become `global - outside`, modulo `2^128`.
pub open spec fn crossed_tick(pool: PoolState, tick: Tick) -> Tick {
    Tick {
        fee_growth_outside_a_x64: wrap_sub(pool.fee_growth_global_a_x64, tick.fee_growth_outside_a_x64),
        fee_growth_outside_b_x64: wrap_sub(pool.fee_growth_global_b_x64, tick.fee_growth_outside_b_x64),
        ..tick
    }
}

/// Crosses an initialized tick during swap traversal.
///
/// The fee-growth-outside checkpoints flip to `global - outside`. Crossing
/// upward returns `liquidity_net`; crossing downward returns its negation.
pub fn cross_tick(pool: &PoolState, tick: &mut Tick, a_to_b: bool) -> (delta: Result<
    i128,
    ConcentratedLiquidityError,
>)
    ensures
        *final(tick) == crossed_tick(*pool, *old(tick)),
        delta == if !a_to_b {
            Ok::<i128, ConcentratedLiquidityError>(old(tick).liquidity_net)
        } else if old(tick).liquidity_net == i128::MIN {
            Err(ConcentratedLiquidityError::TickMathOverflow)
        } else {
            Ok((-old(tick).liquidity_net) as i128)
        },
{
    tick.fee_growth_outside_a_x64 = pool.fee_growth_global_a_x64.wrapping_sub(tick.fee_growth_outside_a_x64);
    tick.fee_growth_outside_b_x64 = pool.fee_growth_global_b_x64.wrapping_sub(tick.fee_growth_outside_b_x64);

    if a_to_b {
        if tick.liquidity_net == i128::MIN {
            Err(ConcentratedLiquidityError::TickMathOverflow)
        } else {
            Ok(-tick.liquidity_net)
        }
    } else {
        Ok(tick.liquidity_net)
    }
}

/// The active liquidity after applying a signed delta.
pub open spec fn spec_apply_liquidity_delta(current_liquidity: u128, liquidity_delta: i128) -> Result<
    u128,
    ConcentratedLiquidityError,
> {
    let sum = current_liquidity + liquidity_delta;
    if liquidity_delta >= 0 && sum > u128::MAX {
        Err(ConcentratedLiquidityError::TickMathOverflow)
    } else if liquidity_delta < 0 && sum < 0 {
        Err(ConcentratedLiquidityError::NegativeLiquidity)
    } else {
        Ok(sum as u128)
    }
}

/// Applies a signed liquidity delta to current active pool liquidity.
///
/// Example: `5_000_000 + (-1_000_000)` => `4_000_000`.
pub fn apply_liquidity_delta(current_liquidity: u128, liquidity_delta: i128) -> (r: Result<
    u128,
    ConcentratedLiquidityError,
>)
    ensures
        r == spec_apply_liquidity_delta(current_liquidity, liquidity_delta),
{
    if liquidity_delta >= 0 {
        match current_liquidity.checked_add(liquidity_delta as u128) {
            Some(v) => Ok(v),
            None => Err(ConcentratedLiquidityError::TickMathOverflow),
        }
    } else {
        let remove_amount = (-(liquidity_delta + 1)) as u128 + 1;
        match current_liquidity.checked_sub(remove_amount) {
            Some(v) => Ok(v),
            None => Err(ConcentratedLiquidityError::NegativeLiquidity),
        }
    }
}


// ---------------------------------------------------------------------------
// Swap step arithmetic.

/// The input side of one exact-input swap step: what is taken from the
/// remaining input, the fee charged on it, the part that moves the price, and
/// whether the step reaches its target price.
#[derive(Clone, Copy, Debug, PartialEq, Eq, Structural)]
pub struct SwapStepInput {
    pub amount_in: u64,
    pub fee_amount: u64,
    pub net_input: u64,
    pub reached_target_tick: bool,
}

/// The input side of a swap step, given the input needed (net of fee) to
/// reach the target price.
///
/// The fee is `fee_bps / 10_000` of the gross input. When the remaining input
/// net of fee covers the target, the step takes the gross input for the
/// target (rounded up, at most the remaining input) and reaches it; otherwise
/// it takes all the remaining input and stops short of it.
pub open spec fn spec_swap_step_amounts(
    liquidity: u128,
    amount_remaining: u64,
    fee_bps: u16,
    amount_in_to_target: Result<u64, ConcentratedLiquidityError>,
) -> Result<SwapStepInput, ConcentratedLiquidityError> {
    if liquidity == 0 {
        Err(ConcentratedLiquidityError::NoActiveLiquidity)
    } else {
        match amount_in_to_target {
            Err(e) => Err(e),
            Ok(target) => if fee_bps > 10_000 {
                Err(ConcentratedLiquidityError::InvalidFeeBps)
            } else {
                let fee_denominator = 10_000 - fee_bps;
                let less_fee = amount_remaining * fee_denominator / 10_000;
                if less_fee >= target {
                    let gross = if fee_denominator == 0 {
                        amount_remaining as int
                    } else {
                        let g = (target * 10_000 + fee_denominator - 1) / fee_denominator;
                        if g > amount_remaining {
                            amount_remaining as int
                        } else {
                            g
                        }
                    };
                    Ok(
                        SwapStepInput {
                            amount_in: gross as u64,
                            fee_amount: (gross - target) as u64,
                            net_input: target,
                            reached_target_tick: true,
                        },
                    )
                } else {
                    Ok(
                        SwapStepInput {
                            amount_in: amount_remaining,
                            fee_amount: (amount_remaining - less_fee) as u64,
                            net_input: less_fee as u64,
                            reached_target_tick: false,
                        },
                    )
                }
            },
        }
    }
}

/// Splits the input of one exact-input swap step into gross input, fee and
/// price-moving input.
///
/// `amount_in_to_target` is the token input (net of fee) that moves the price
/// from the current to the target sqrt price at the given liquidity, or why it
/// could not be computed.
pub fn swap_step_amounts(
    liquidity: u128,
    amount_remaining: u64,
    fee_bps: u16,
    amount_in_to_target: Result<u64, ConcentratedLiquidityError>,
) -> (step: Result<SwapStepInput, ConcentratedLiquidityError>)
    ensures
        step == spec_swap_step_amounts(liquidity, amount_remaining, fee_bps, amount_in_to_target),
        step matches Ok(s) ==> {
            &&& s.amount_in <= amount_remaining
            &&& s.net_input + s.fee_amount == s.amount_in
            &&& s.fee_amount * 10_000 >= fee_bps * s.amount_in
            &&& s.reached_target_tick ==> amount_in_to_target == Ok::<u64, ConcentratedLiquidityError>(s.net_input)
            &&& !s.reached_target_tick ==> {
                &&& s.amount_in == amount_remaining
                &&& amount_in_to_target matches Ok(target) && s.net_input < target
            }
        },
{
    if liquidity == 0 {
        return Err(ConcentratedLiquidityError::NoActiveLiquidity);
    }
    let amount_in_to_target = match amount_in_to_target {
        Ok(target) => target,
        Err(e) => return Err(e),
    };
    let fee_denominator = match 10_000u64.checked_sub(fee_bps as u64) {
        Some(d) => d,
        None => return Err(ConcentratedLiquidityError::InvalidFeeBps),
    };
    proof {
        assert(amount_remaining * fee_denominator <= u64::MAX * 10_000) by (nonlinear_arith)
            requires
                fee_denominator <= 10_000,
        ;
        assert(amount_remaining * fee_denominator / 10_000 <= amount_remaining) by (nonlinear_arith)
            requires
                fee_denominator <= 10_000,
        ;
    }
    let amount_remaining_less_fee = ((amount_remaining as u128) * (fee_denominator as u128) / 10_000u128) as u64;

    if amount_remaining_less_fee >= amount_in_to_target {
        let gross_in = if fee_denominator == 0 {
            amount_remaining
        } else {
            let numerator = (amount_in_to_target as u128) * 10_000u128;
            let gross = match numerator.checked_add((fee_denominator as u128) - 1) {
                Some(n) => n / (fee_denominator as u128),
                None => return Err(ConcentratedLiquidityError::TickMathOverflow),
            };
            proof {
                assert(gross >= amount_in_to_target) by (nonlinear_arith)
                    requires
                        gross == (amount_in_to_target * 10_000 + fee_denominator - 1) / (
                        fee_denominator as int),
                        1 <= fee_denominator <= 10_000,
                ;
            }
            if gross > (amount_remaining as u128) {
                amount_remaining
            } else {
                gross as u64
            }
        };
        let fee_amount = match gross_in.checked_sub(amount_in_to_target) {
            Some(f) => f,
            None => return Err(ConcentratedLiquidityError::TickMathOverflow),
        };
        proof {
            let lf = amount_remaining_less_fee as int;
            let rem = amount_remaining as int;
            let den = fee_denominator as int;
            let t = amount_in_to_target as int;
            let g = gross_in as int;
            assert(lf * 10_000 <= rem * den) by (nonlinear_arith)
                requires
                    lf == rem * den / 10_000,
            ;
            if den > 0 {
                if g < rem || g == (t * 10_000 + den - 1) / den {
                    assert(g * den >= t * 10_000) by (nonlinear_arith)
                        requires
                            g == (t * 10_000 + den - 1) / den,
                            den >= 1,
                    ;
                }
                assert(g * den >= t * 10_000) by (nonlinear_arith)
                    requires
                        g == rem ==> lf * 10_000 <= rem * den,
                        g == rem ==> lf >= t,
                        g != rem ==> g * den >= t * 10_000,
                        t >= 0,
                ;
            }
            assert(g * den + g * fee_bps == g * 10_000) by (nonlinear_arith)
                requires
                    den == 10_000 - fee_bps,
            ;
            assert(fee_amount * 10_000 == g * 10_000 - t * 10_000);
        }
        Ok(
            SwapStepInput {
                amount_in: gross_in,
                fee_amount,
                net_input: amount_in_to_target,
                reached_target_tick: true,
            },
        )
    } else {
        let net_input = amount_remaining_less_fee;
        let fee_amount = match amount_remaining.checked_sub(net_input) {
            Some(f) => f,
            None => return Err(ConcentratedLiquidityError::TickMathOverflow),
        };
        proof {
            let lf = net_input as int;
            let rem = amount_remaining as int;
            let den = fee_denominator as int;
            assert(lf * 10_000 <= rem * den) by (nonlinear_arith)
                requires
                    lf == rem * den / 10_000,
            ;
            assert(rem * den + rem * fee_bps == rem * 10_000) by (nonlinear_arith)
                requires
                    den == 10_000 - fee_bps,
            ;
            assert(fee_amount * 10_000 == rem * 10_000 - lf * 10_000);
        }
        Ok(
            SwapStepInput {
                amount_in: amount_remaining,
                fee_amount,
                net_input,
                reached_target_tick: false,
            },
        )
    }
}


// ---------------------------------------------------------------------------
// Laws of the tick and fee bookkeeping.

/// Subtracting modulo `2^128` twice from the same value gives back the start.
proof fn lemma_wrap_sub_involutive(global: u128, x: u128)
    ensures
        wrap_sub(global, wrap_sub(global, x)) == x,
{
}

/// Crossing a tick twice with the same global fee growth restores it.
pub proof fn law_crossing_twice_restores_tick(pool: PoolState, tick: Tick)
    ensures
        crossed_tick(pool, crossed_tick(pool, tick)) == tick,
{
    lemma_wrap_sub_involutive(pool.fee_growth_global_a_x64, tick.fee_growth_outside_a_x64);
    lemma_wrap_sub_involutive(pool.fee_growth_global_b_x64, tick.fee_growth_outside_b_x64);
}

/// A boundary `tick` of a range after the current tick moves from
/// `current_before` to `current_after`: crossed if the move crosses it.
pub open spec fn boundary_after_move(
    pool: PoolState,
    tick_index: i32,
    tick: Tick,
    current_before: i32,
    current_after: i32,
) -> Tick {
    if (current_before < tick_index) != (current_after < tick_index) {
        crossed_tick(pool, tick)
    } else {
        tick
    }
}

/// Moving the current tick, and crossing each boundary of a range that the
/// move passes, does not change the fee growth inside the range: fees
/// earned inside a range are only earned while the price is inside it.
pub proof fn law_crossing_keeps_fee_growth_inside(
    pool: PoolState,
    tick_lower_index: i32,
    lower_tick: Tick,
    tick_upper_index: i32,
    upper_tick: Tick,
    current_after: i32,
)
    ensures
        spec_fee_growth_inside(pool, tick_lower_index, lower_tick, tick_upper_index, upper_tick)
            == spec_fee_growth_inside(
            PoolState { current_tick: current_after, ..pool },
            tick_lower_index,
            boundary_after_move(pool, tick_lower_index, lower_tick, pool.current_tick, current_after),
            tick_upper_index,
            boundary_after_move(pool, tick_upper_index, upper_tick, pool.current_tick, current_after),
        ),
{
    lemma_wrap_sub_involutive(pool.fee_growth_global_a_x64, lower_tick.fee_growth_outside_a_x64);
    lemma_wrap_sub_involutive(pool.fee_growth_global_b_x64, lower_tick.fee_growth_outside_b_x64);
    lemma_wrap_sub_involutive(pool.fee_growth_global_a_x64, upper_tick.fee_growth_outside_a_x64);
    lemma_wrap_sub_involutive(pool.fee_growth_global_b_x64, upper_tick.fee_growth_outside_b_x64);
}

/// Applying a liquidity change and then its opposite restores the active
/// liquidity.
pub proof fn law_liquidity_delta_round_trip(current_liquidity: u128, liquidity_delta: i128)
    requires
        liquidity_delta != i128::MIN,
        spec_apply_liquidity_delta(current_liquidity, liquidity_delta) is Ok,
    ensures
        spec_apply_liquidity_delta(
            spec_apply_liquidity_delta(current_liquidity, liquidity_delta)->Ok_0,
            (-liquidity_delta) as i128,
        ) == Ok::<u128, ConcentratedLiquidityError>(current_liquidity),
{
}

/// Adding liquidity to a boundary and removing it again restores the
/// boundary's liquidity; a boundary that had none is left cleared.
pub proof fn law_tick_liquidity_round_trip(tick: Tick, liquidity: i128, is_upper_tick: bool)
    requires
        liquidity > 0,
        spec_update_tick_liquidity(tick, liquidity, is_upper_tick).0 is Ok,
    ensures
        spec_update_tick_liquidity(
            spec_update_tick_liquidity(tick, liquidity, is_upper_tick).1,
            (-liquidity) as i128,
            is_upper_tick,
        ) == (Ok::<(), ConcentratedLiquidityError>(()), if tick.liquidity_gross == 0 {
            Tick::zeroed()
        } else {
            tick
        }),
{
}

/// Accruing fees twice with the same inside growth earns nothing the
/// second time: a position is only paid for growth after its checkpoint.
pub proof fn law_accrual_is_idempotent(position: Position, inside: FeeGrowthInside)
    requires
        spec_accrue_position_fees(position, inside).0 is Ok,
    ensures
        spec_accrue_position_fees(spec_accrue_position_fees(position, inside).1, inside) == (
        Ok::<(), ConcentratedLiquidityError>(()),
        spec_accrue_position_fees(position, inside).1,
    ),
{
    let after = spec_accrue_position_fees(position, inside).1;
    assert(wrap_sub(inside.token_a_x64, after.fee_growth_checkpoint_a_x64) == 0);
    assert(wrap_sub(inside.token_b_x64, after.fee_growth_checkpoint_b_x64) == 0);
    assert(after.liquidity_amount * 0 == 0);
}

/// Adding a swap fee never lowers either global fee growth accumulator.
pub proof fn law_fee_growth_never_decreases(pool: PoolState, fee_side: FeeSide, fee_amount: u64)
    ensures
        spec_add_fee_growth(pool, fee_side, fee_amount).1.fee_growth_global_a_x64 >= pool.fee_growth_global_a_x64,
        spec_add_fee_growth(pool, fee_side, fee_amount).1.fee_growth_global_b_x64 >= pool.fee_growth_global_b_x64,
{
    if fee_amount != 0 && pool.liquidity != 0 {
        assert(fee_growth_delta(fee_amount, pool.liquidity) >= 0) by (nonlinear_arith)
            requires
                pool.liquidity > 0,
        ;
    }
}

/// An aligned tick is found in the tick array that starts where
/// `tick_array_start_index` says: its offset there is in bounds and points
/// back at the tick.
pub proof fn law_tick_lies_in_its_array(tick_index: i32, tick_spacing: u16)
    requires
        tick_spacing > 0,
        (tick_index as int) % (tick_spacing as int) == 0,
        i32::MIN <= array_start(tick_index as int, tick_spacing),
    ensures
        spec_tick_offset(array_start(tick_index as int, tick_spacing) as i32, tick_index, tick_spacing) is Ok,
        tick_index_at(
            array_start(tick_index as int, tick_spacing) as i32,
            spec_tick_offset(array_start(tick_index as int, tick_spacing) as i32, tick_index, tick_spacing)->Ok_0 as int,
            tick_spacing,
        ) == tick_index,
{
    let span = array_span(tick_spacing);
    let t = tick_index as int;
    let s = tick_spacing as int;
    assert(span == s * 88);
    assert(span > 0) by (nonlinear_arith)
        requires
            span == s * 88,
            s > 0,
    ;
    lemma_fundamental_div_mod(t, span);
    let q = t / span;
    let r = t % span;
    let start = array_start(t, tick_spacing);
    assert(start == q * span);
    assert(t - start == r) by (nonlinear_arith)
        requires
            t == span * q + r,
            start == q * span,
    ;
    lemma_fundamental_div_mod(t, s);
    let k = t / s;
    assert(t == s * k);
    assert(r == s * (k - q * 88)) by (nonlinear_arith)
        requires
            t == s * k,
            t - start == r,
            start == q * span,
            span == s * 88,
    ;
    lemma_mod_multiples_basic(k - q * 88, s);
    assert(r % s == 0) by {
        assert((k - q * 88) * s == s * (k - q * 88)) by (nonlinear_arith);
    }
    vstd::arithmetic::div_mod::lemma_div_multiples_vanish(k - q * 88, s);
    assert(r / s == k - q * 88) by {
        assert(s * (k - q * 88) == r);
    }
    assert(r / s < 88) by (nonlinear_arith)
        requires
            r < span,
            span == s * 88,
            r == s * (r / s),
            s > 0,
    ;
    assert(r / s >= 0) by (nonlinear_arith)
        requires
            r >= 0,
            r == s * (r / s),
            s > 0,
    ;
    assert(start + (r / s) * s == t) by (nonlinear_arith)
        requires
            r == s * (r / s),
            t - start == r,
    ;
}

// ---------------------------------------------------------------------------
// Tick traversal.

/// The tick index stored at `offset` of an array starting at `start`.
pub open spec fn tick_index_at(start: i32, offset: int, tick_spacing: u16) -> int {
    start + offset * tick_spacing
}

/// The tick stored at position `(a, o)` of a list of tick arrays.
pub open spec fn tick_at(arrays: Seq<TickArray>, a: int, o: int) -> Tick {
    arrays[a].ticks@[o]
}

/// The index of the tick stored at position `(a, o)` of a list of tick arrays.
pub open spec fn list_tick_index(arrays: Seq<TickArray>, a: int, o: int, tick_spacing: u16) -> int {
    tick_index_at(arrays[a].start_tick_index, o, tick_spacing)
}

/// Whether a swap in direction `a_to_b` from `current_tick` can cross the
/// tick stored at `(a, o)`: it is initialized and lies at or below the current
/// tick (price going down) or strictly above it (price going up).
pub open spec fn is_crossing_candidate(
    arrays: Seq<TickArray>,
    a: int,
    o: int,
    current_tick: i32,
    tick_spacing: u16,
    a_to_b: bool,
) -> bool {
    &&& 0 <= a < arrays.len()
    &&& 0 <= o < TICK_ARRAY_SIZE
    &&& tick_at(arrays, a, o).initialized != 0
    &&& if a_to_b {
        list_tick_index(arrays, a, o, tick_spacing) <= current_tick
    } else {
        list_tick_index(arrays, a, o, tick_spacing) > current_tick
    }
}

/// Tick `x` is reached before tick `y` when moving in direction `a_to_b`.
pub open spec fn reached_before(x: int, y: int, a_to_b: bool) -> bool {
    if a_to_b {
        x > y
    } else {
        x < y
    }
}

/// Position `(a, o)` comes before `(b, p)` in the order the arrays are scanned.
pub open spec fn scanned_before(a: int, o: int, b: int, p: int) -> bool {
    a < b || (a == b && o < p)
}

/// Every initialized tick of every array has an index that fits in `i32`.
pub open spec fn tick_indices_fit(arrays: Seq<TickArray>, tick_spacing: u16) -> bool {
    forall|a: int, o: int|
        0 <= a < arrays.len() && 0 <= o < TICK_ARRAY_SIZE && #[trigger] tick_at(arrays, a, o).initialized
            != 0 ==> i32::MIN <= list_tick_index(arrays, a, o, tick_spacing) <= i32::MAX
}

/// `found` is the crossing the scan settles on among the positions scanned
/// before `(end_a, end_o)`: a candidate that no other candidate is reached
/// before, and that every earlier-scanned candidate is reached strictly after.
pub open spec fn is_first_nearest(
    arrays: Seq<TickArray>,
    found: NextTickCrossing,
    current_tick: i32,
    tick_spacing: u16,
    a_to_b: bool,
    end_a: int,
    end_o: int,
) -> bool {
    let fa = found.tick_array_list_index as int;
    let fo = found.tick_offset as int;
    &&& is_crossing_candidate(arrays, fa, fo, current_tick, tick_spacing, a_to_b)
    &&& scanned_before(fa, fo, end_a, end_o)
    &&& found.tick_index == list_tick_index(arrays, fa, fo, tick_spacing)
    &&& forall|a: int, o: int|
        #![trigger tick_at(arrays, a, o)]
        is_crossing_candidate(arrays, a, o, current_tick, tick_spacing, a_to_b) && scanned_before(
            a,
            o,
            end_a,
            end_o,
        ) ==> !reached_before(
            list_tick_index(arrays, a, o, tick_spacing),
            found.tick_index as int,
            a_to_b,
        )
    &&& forall|a: int, o: int|
        #![trigger tick_at(arrays, a, o)]
        is_crossing_candidate(arrays, a, o, current_tick, tick_spacing, a_to_b) && scanned_before(
            a,
            o,
            fa,
            fo,
        ) ==> reached_before(
            found.tick_index as int,
            list_tick_index(arrays, a, o, tick_spacing),
            a_to_b,
        )
}

/// Finds the next initialized tick in the swap direction from the supplied
/// tick arrays.
///
/// Going down (`a_to_b`), the candidates are initialized ticks at or below the
/// current tick and the highest wins; going up, they are those strictly above
/// and the lowest wins. Among equal indices the first one scanned wins.
pub fn find_next_initialized_tick(
    tick_arrays: &[TickArray],
    current_tick: i32,
    tick_spacing: u16,
    a_to_b: bool,
) -> (next: Option<NextTickCrossing>)
    requires
        tick_indices_fit(tick_arrays@, tick_spacing),
    ensures
        match next {
            None => forall|a: int, o: int|
                !#[trigger] is_crossing_candidate(
                    tick_arrays@,
                    a,
                    o,
                    current_tick,
                    tick_spacing,
                    a_to_b,
                ),
            Some(found) => is_first_nearest(
                tick_arrays@,
                found,
                current_tick,
                tick_spacing,
                a_to_b,
                tick_arrays@.len() as int,
                0,
            ),
        },
{
    let mut best: Option<NextTickCrossing> = None;
    let n = tick_arrays.len();
    let mut ai: usize = 0;
    while ai < n
        invariant
            n == tick_arrays@.len(),
            ai <= n,
            tick_indices_fit(tick_arrays@, tick_spacing),
            match best {
                None => forall|a: int, o: int|
                    #![trigger tick_at(tick_arrays@, a, o)]
                    scanned_before(a, o, ai as int, 0) ==> !is_crossing_candidate(
                        tick_arrays@,
                        a,
                        o,
                        current_tick,
                        tick_spacing,
                        a_to_b,
                    ),
                Some(found) => is_first_nearest(
                    tick_arrays@,
                    found,
                    current_tick,
                    tick_spacing,
                    a_to_b,
                    ai as int,
                    0,
                ),
            },
        decreases n - ai,
    {
        let mut oi: usize = 0;
        while oi < TICK_ARRAY_SIZE
            invariant
                n == tick_arrays@.len(),
                ai < n,
                oi <= TICK_ARRAY_SIZE,
                tick_indices_fit(tick_arrays@, tick_spacing),
                match best {
                    None => forall|a: int, o: int|
                        #![trigger tick_at(tick_arrays@, a, o)]
                        scanned_before(a, o, ai as int, oi as int) ==> !is_crossing_candidate(
                            tick_arrays@,
                            a,
                            o,
                            current_tick,
                            tick_spacing,
                            a_to_b,
                        ),
                    Some(found) => is_first_nearest(
                        tick_arrays@,
                        found,
                        current_tick,
                        tick_spacing,
                        a_to_b,
                        ai as int,
                        oi as int,
                    ),
                },
            decreases TICK_ARRAY_SIZE - oi,
        {
            let tick = tick_arrays[ai].ticks[oi];
            proof {
                assert(tick == tick_at(tick_arrays@, ai as int, oi as int));
            }
            if tick.initialized != 0 {
                proof {
                    assert(i32::MIN <= list_tick_index(tick_arrays@, ai as int, oi as int, tick_spacing)
                        <= i32::MAX);
                    assert(0 <= oi * tick_spacing <= 87 * 65535) by (nonlinear_arith)
                        requires
                            oi < 88,
                            tick_spacing <= 65535,
                    ;
                }
                let tick_index = tick_arrays[ai].start_tick_index + (oi as i32 * tick_spacing as i32);
                let is_candidate = if a_to_b {
                    tick_index <= current_tick
                } else {
                    tick_index > current_tick
                };
                if is_candidate {
                    let replace = match best {
                        None => true,
                        Some(existing) => if a_to_b {
                            tick_index > existing.tick_index
                        } else {
                            tick_index < existing.tick_index
                        },
                    };
                    if replace {
                        best = Some(
                            NextTickCrossing {
                                tick_index,
                                tick_array_list_index: ai,
                                tick_offset: oi,
                            },
                        );
                    }
                }
            }
            oi = oi + 1;
        }
        ai = ai + 1;
    }
    best
}

} // verus!
