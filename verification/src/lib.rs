//! Verified core of two Solana programs: a time-locked lamport wallet and a
//! concentrated-liquidity pool. Account plumbing, token transfers and the
//! floating-point price math live in the surrounding application; everything
//! here is plain state and integer arithmetic with proved contracts.

pub mod pubkey;
pub mod time_locked_wallet;
pub mod errors;
pub mod state;
pub mod math;
pub mod instructions;
pub mod liquidity;
pub mod swap_walk;
pub mod positions;
