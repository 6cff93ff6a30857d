use vstd::prelude::*;

use crate::pubkey::Pubkey;

verus! {

/// Default tick spacing: 100 ticks, roughly 1% price distance between initialized ticks.
pub const DEFAULT_TICK_SPACING: u16 = 100;

/// Number of initializable tick boundaries stored in one `TickArray`.
pub const TICK_ARRAY_SIZE: usize = 88;

/// Q64.64 representation of `1.0`, that is `2^64`.
pub const Q64_64_ONE: u128 = 0x1_0000_0000_0000_0000;

/// Scale used to store cumulative fee growth as token amount per unit of liquidity.
pub const FEE_GROWTH_SCALING_FACTOR: u128 = Q64_64_ONE;

/// One potential liquidity boundary in a `TickArray`.
///
/// A tick stores how the pool's active liquidity changes when the price
/// crosses it, and the fee-growth checkpoint that separates the fees earned
/// on its two sides.
#[derive(Clone, Copy, Debug, PartialEq, Eq, Structural)]
pub struct Tick {
    /// Non-zero while at least one position uses this tick as a boundary.
    pub initialized: u8,
    /// Signed change of active liquidity when crossing toward higher prices.
    pub liquidity_net: i128,
    /// Sum of the liquidity of all positions bounded by this tick.
    pub liquidity_gross: u128,
    /// Token A fee growth on the side of this boundary considered outside.
    pub fee_growth_outside_a_x64: u128,
    /// Token B fee growth on the side of this boundary considered outside.
    pub fee_growth_outside_b_x64: u128,
}

impl Tick {
    /// The all-zero, uninitialized tick.
    pub open spec fn zeroed() -> Tick {
        Tick {
            initialized: 0,
            liquidity_net: 0,
            liquidity_gross: 0,
            fee_growth_outside_a_x64: 0,
            fee_growth_outside_b_x64: 0,
        }
    }

    /// A tick is settled when it is all zero without gross liquidity and
    /// initialized with it.
    pub open spec fn settled(self) -> bool {
        &&& self.liquidity_gross == 0 ==> self == Tick::zeroed()
        &&& self.liquidity_gross > 0 ==> self.initialized != 0
    }
}

impl Default for Tick {
    fn default() -> (tick: Tick)
        ensures
            tick == Tick::zeroed(),
    {
        Tick {
            initialized: 0,
            liquidity_net: 0,
            liquidity_gross: 0,
            fee_growth_outside_a_x64: 0,
            fee_growth_outside_b_x64: 0,
        }
    }
}

/// Pool state storing metadata, price and aggregate liquidity for a token pair.
#[derive(Clone, Copy, Debug)]
pub struct PoolState {
    /// Address-derivation bump of the pool account.
    pub bump: u8,
    /// Mint address of token A.
    pub token_a_mint: Pubkey,
    /// Mint address of token B.
    pub token_b_mint: Pubkey,
    /// Token account holding the pool's token A reserves.
    pub token_a_vault: Pubkey,
    /// Token account holding the pool's token B reserves.
    pub token_b_vault: Pubkey,
    /// Trading fee in basis points (e.g. 30 = 0.30%).
    pub fee_bps: u16,
    /// Current sqrt price in Q64.64 fixed point.
    pub sqrt_price_x64: u128,
    /// Discrete tick deciding which half-open ranges are active.
    pub current_tick: i32,
    /// Sum of liquidity of positions with `lower <= current_tick < upper`.
    pub liquidity: u128,
    /// Cumulative token A fees per unit of active liquidity, Q64.64.
    pub fee_growth_global_a_x64: u128,
    /// Cumulative token B fees per unit of active liquidity, Q64.64.
    pub fee_growth_global_b_x64: u128,
    /// Minimum spacing between valid ticks.
    pub tick_spacing: u16,
}

impl PoolState {
    /// What every initialized pool satisfies: a fee of at most 100% and a
    /// positive tick spacing.
    pub open spec fn wf(self) -> bool {
        &&& self.fee_bps <= 10_000
        &&& self.tick_spacing > 0
    }
}

/// Fixed-size chunk of consecutive initializable ticks.
///
/// `ticks[offset]` is the tick `start_tick_index + offset * tick_spacing`.
#[derive(Clone, Copy, Debug)]
pub struct TickArray {
    /// Pool whose spacing and price give these ticks meaning.
    pub pool: Pubkey,
    /// Tick index represented by `ticks[0]`.
    pub start_tick_index: i32,
    /// Address-derivation bump of the tick-array account.
    pub bump: u8,
    /// Consecutive tick boundary records.
    pub ticks: [Tick; TICK_ARRAY_SIZE],
}

/// Every tick of every array is settled. New arrays are, and the
/// instructions keep them so.
pub open spec fn arrays_settled(arrays: Seq<TickArray>) -> bool {
    forall|a: int, o: int|
        0 <= a < arrays.len() && 0 <= o < TICK_ARRAY_SIZE ==> (#[trigger] arrays[a].ticks@[o]).settled()
}

/// A list of tick arrays with the tick at `(a, o)` replaced by `tick`.
pub open spec fn with_tick(arrays: Seq<TickArray>, a: int, o: int, tick: Tick) -> Seq<TickArray> {
    arrays.update(a, TickArray { ticks: vstd::array::spec_array_update(arrays[a].ticks, o, tick), ..arrays[a] })
}

/// Reading a tick after replacing one: the replaced position gives the new
/// tick, every other position what it held before.
pub proof fn lemma_with_tick_read(arrays: Seq<TickArray>, a: int, o: int, tick: Tick, b: int, p: int)
    requires
        0 <= a < arrays.len(),
        0 <= o < TICK_ARRAY_SIZE,
        0 <= b < arrays.len(),
        0 <= p < TICK_ARRAY_SIZE,
    ensures
        with_tick(arrays, a, o, tick).len() == arrays.len(),
        with_tick(arrays, a, o, tick)[b].start_tick_index == arrays[b].start_tick_index,
        with_tick(arrays, a, o, tick)[b].ticks@[p] == if a == b && o == p {
            tick
        } else {
            arrays[b].ticks@[p]
        },
{
}

/// Replacing a tick by the tick already there changes nothing.
pub proof fn lemma_with_tick_same(arrays: Seq<TickArray>, a: int, o: int)
    requires
        0 <= a < arrays.len(),
        0 <= o < TICK_ARRAY_SIZE,
    ensures
        with_tick(arrays, a, o, arrays[a].ticks@[o]) == arrays,
{
    let updated = vstd::array::spec_array_update(arrays[a].ticks, o, arrays[a].ticks@[o]);
    assert(updated =~= arrays[a].ticks);
    assert(with_tick(arrays, a, o, arrays[a].ticks@[o]) =~= arrays);
}

/// Replacing the same tick twice keeps only the second replacement.
pub proof fn lemma_with_tick_twice(arrays: Seq<TickArray>, a: int, o: int, first: Tick, second: Tick)
    requires
        0 <= a < arrays.len(),
        0 <= o < TICK_ARRAY_SIZE,
    ensures
        with_tick(with_tick(arrays, a, o, first), a, o, second) == with_tick(arrays, a, o, second),
{
    let once = with_tick(arrays, a, o, first);
    let lhs = vstd::array::spec_array_update(once[a].ticks, o, second);
    let rhs = vstd::array::spec_array_update(arrays[a].ticks, o, second);
    assert(lhs =~= rhs);
    assert(with_tick(once, a, o, second) =~= with_tick(arrays, a, o, second));
}

/// Replacements at different positions can be made in either order.
pub proof fn lemma_with_tick_commute(
    arrays: Seq<TickArray>,
    a: int,
    o: int,
    first: Tick,
    b: int,
    p: int,
    second: Tick,
)
    requires
        0 <= a < arrays.len(),
        0 <= o < TICK_ARRAY_SIZE,
        0 <= b < arrays.len(),
        0 <= p < TICK_ARRAY_SIZE,
        a != b || o != p,
    ensures
        with_tick(with_tick(arrays, a, o, first), b, p, second) == with_tick(
            with_tick(arrays, b, p, second),
            a,
            o,
            first,
        ),
{
    let lhs = with_tick(with_tick(arrays, a, o, first), b, p, second);
    let rhs = with_tick(with_tick(arrays, b, p, second), a, o, first);
    assert forall|i: int| 0 <= i < arrays.len() implies lhs[i] == rhs[i] by {
        if i == a || i == b {
            assert(lhs[i].ticks =~= rhs[i].ticks);
        }
    }
    assert(lhs =~= rhs);
}

/// Storing a settled tick keeps the arrays settled.
pub proof fn lemma_with_tick_keeps_settled(arrays: Seq<TickArray>, a: int, o: int, tick: Tick)
    requires
        0 <= a < arrays.len(),
        0 <= o < TICK_ARRAY_SIZE,
        arrays_settled(arrays),
        tick.settled(),
    ensures
        arrays_settled(with_tick(arrays, a, o, tick)),
{
    let updated = with_tick(arrays, a, o, tick);
    assert forall|b: int, p: int| 0 <= b < updated.len() && 0 <= p < TICK_ARRAY_SIZE implies (
    #[trigger] updated[b].ticks@[p]).settled() by {
        lemma_with_tick_read(arrays, a, o, tick, b, p);
    }
}

/// Stores `tick` at offset `o` of the `a`-th tick array.
pub fn store_tick(arrays: &mut Vec<TickArray>, a: usize, o: usize, tick: Tick)
    requires
        a < old(arrays).len(),
        o < TICK_ARRAY_SIZE,
    ensures
        final(arrays)@ == with_tick(old(arrays)@, a as int, o as int, tick),
{
    let mut tick_array = arrays[a];
    tick_array.ticks[o] = tick;
    proof {
        assert(tick_array.ticks =~= vstd::array::spec_array_update(old(arrays)@[a as int].ticks, o as int, tick));
    }
    arrays.set(a, tick_array);
}

/// An LP's liquidity deposit in one tick range of a pool.
#[derive(Clone, Copy, Debug)]
pub struct Position {
    /// Address-derivation bump of the position account.
    pub bump: u8,
    /// Mint of the ownership token of this position.
    pub position_mint: Pubkey,
    /// Owner recorded at creation.
    pub owner: Pubkey,
    /// Pool this position belongs to.
    pub pool: Pubkey,
    /// Lower tick bound (inclusive).
    pub tick_lower: i32,
    /// Upper tick bound (exclusive).
    pub tick_upper: i32,
    /// Liquidity provided by this position.
    pub liquidity_amount: u128,
    /// Token A fee growth inside the range at the last accrual.
    pub fee_growth_checkpoint_a_x64: u128,
    /// Token B fee growth inside the range at the last accrual.
    pub fee_growth_checkpoint_b_x64: u128,
    /// Token A fees accrued but not yet withdrawn.
    pub fees_a_owed: u128,
    /// Token B fees accrued but not yet withdrawn.
    pub fees_b_owed: u128,
}

} // verus!
