//! The state transitions of the pool's instructions. Each takes the account
//! state it reads as plain values and returns or updates the state it writes.

pub mod initialize_pool;
pub mod initialize_tick_array;
pub mod create_position;
pub mod close_position;
pub mod swap;
