use vstd::prelude::*;

use crate::errors::ConcentratedLiquidityError;
use crate::pubkey::Pubkey;
use crate::state::{PoolState, DEFAULT_TICK_SPACING, Q64_64_ONE};

verus! {

/// The pool state that `handler` writes, or why it refuses.
pub open spec fn spec_initialize_pool(
    bump: u8,
    token_a_mint: Pubkey,
    token_b_mint: Pubkey,
    token_a_vault: Pubkey,
    token_b_vault: Pubkey,
    fee_bps: u16,
    tick_spacing: u16,
) -> Result<PoolState, ConcentratedLiquidityError> {
    if token_a_mint@ == token_b_mint@ {
        Err(ConcentratedLiquidityError::IdenticalMints)
    } else if fee_bps > 10_000 {
        Err(ConcentratedLiquidityError::InvalidFeeBps)
    } else {
        Ok(
            PoolState {
                bump,
                token_a_mint,
                token_b_mint,
                token_a_vault,
                token_b_vault,
                fee_bps,
                sqrt_price_x64: Q64_64_ONE,
                current_tick: 0,
                liquidity: 0,
                fee_growth_global_a_x64: 0,
                fee_growth_global_b_x64: 0,
                tick_spacing: if tick_spacing == 0 {
                    DEFAULT_TICK_SPACING
                } else {
                    tick_spacing
                },
            },
        )
    }
}

/// Initializes a concentrated-liquidity pool for an ordered token pair.
///
/// The pool starts at sqrt price `1.0` (`Q64_64_ONE`), `current_tick = 0`,
/// zero active liquidity and zero global fee growth. `fee_bps` must not exceed
/// 100%; `tick_spacing = 0` selects `DEFAULT_TICK_SPACING`.
pub fn handler(
    bump: u8,
    token_a_mint: Pubkey,
    token_b_mint: Pubkey,
    token_a_vault: Pubkey,
    token_b_vault: Pubkey,
    fee_bps: u16,
    tick_spacing: u16,
) -> (pool: Result<PoolState, ConcentratedLiquidityError>)
    ensures
        pool == spec_initialize_pool(
            bump,
            token_a_mint,
            token_b_mint,
            token_a_vault,
            token_b_vault,
            fee_bps,
            tick_spacing,
        ),
        pool matches Ok(p) ==> p.wf(),
{
    if token_a_mint == token_b_mint {
        return Err(ConcentratedLiquidityError::IdenticalMints);
    }
    if !(fee_bps <= 10_000) {
        return Err(ConcentratedLiquidityError::InvalidFeeBps);
    }
    Ok(
        PoolState {
            bump,
            token_a_mint,
            token_b_mint,
            token_a_vault,
            token_b_vault,
            fee_bps,
            sqrt_price_x64: Q64_64_ONE,
            current_tick: 0,
            liquidity: 0,
            fee_growth_global_a_x64: 0,
            fee_growth_global_b_x64: 0,
            tick_spacing: if tick_spacing == 0 {
                DEFAULT_TICK_SPACING
            } else {
                tick_spacing
            },
        },
    )
}

/// A pool is created exactly when the two mints differ and the fee is at
/// most 100%. It keeps the requested tick spacing, whatever its size; only a
/// spacing of 0 selects `DEFAULT_TICK_SPACING`. It starts at price 1.0 and
/// tick 0, with no liquidity and no fee growth, and records the accounts and
/// fee it was given.
pub proof fn law_initialize_pool_keeps_requested_settings(
    bump: u8,
    token_a_mint: Pubkey,
    token_b_mint: Pubkey,
    token_a_vault: Pubkey,
    token_b_vault: Pubkey,
    fee_bps: u16,
    tick_spacing: u16,
)
    ensures
        ({
            let created = spec_initialize_pool(
                bump,
                token_a_mint,
                token_b_mint,
                token_a_vault,
                token_b_vault,
                fee_bps,
                tick_spacing,
            );
            &&& created is Ok <==> (token_a_mint@ != token_b_mint@ && fee_bps <= 10_000)
            &&& created matches Ok(pool) ==> {
                &&& tick_spacing != 0 ==> pool.tick_spacing == tick_spacing
                &&& tick_spacing == 0 ==> pool.tick_spacing == DEFAULT_TICK_SPACING
                &&& pool.bump == bump
                &&& pool.token_a_mint == token_a_mint
                &&& pool.token_b_mint == token_b_mint
                &&& pool.token_a_vault == token_a_vault
                &&& pool.token_b_vault == token_b_vault
                &&& pool.fee_bps == fee_bps
                &&& pool.sqrt_price_x64 == Q64_64_ONE
                &&& pool.current_tick == 0
                &&& pool.liquidity == 0
                &&& pool.fee_growth_global_a_x64 == 0
                &&& pool.fee_growth_global_b_x64 == 0
            }
        }),
{
}

} // verus!
