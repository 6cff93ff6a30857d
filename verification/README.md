# concentrated_liquidity

Verified core of two Solana programs written with Anchor:

* a **time-locked wallet** that locks lamports for a receiver until a
  timestamp, with an optional authority holding a rights bitmask;
* a **concentrated-liquidity pool** (Uniswap-v3 style): tick arrays, LP
  positions over half-open tick ranges, lazy fee accounting with
  fee-growth checkpoints, and exact-input swaps that cross initialized ticks.

## Layout

* `src/` — the library, with a proof of each contract and law.
  * `pubkey.rs` — 32-byte addresses.
  * `time_locked_wallet.rs` — vault life cycle and its laws.
  * `errors.rs`, `state.rs` — pool errors and state (ticks, pools, tick arrays, positions).
  * `math.rs` — tick-array indexing, validation, fee growth, tick liquidity,
    crossing, the integer split of a swap step, tick traversal, and their laws.
  * `instructions/` — the state transitions of `initialize_pool`,
    `initialize_tick_array`, `create_position`, `close_position` and the
    steps of `swap`.
  * `liquidity.rs` — active liquidity as the sum of tick nets, and the laws
    tying each instruction's change of active liquidity to its tick updates.
  * `swap_walk.rs` — a whole swap as the sequence of its steps: it ends within
    one step more than the ticks it can cross, charges fees on the input side
    only, and keeps active liquidity in line with the tick nets.
  * `positions.rs` — ticks and active liquidity as sums over the open
    positions, and the laws that creating, closing and swapping keep them so.
* `tests/` — tests of the library on concrete values.
* `app/` — the Anchor program, which serves both the pool and the wallet:
  account validation, SPL token and lamport transfers, the clock, logging,
  and the floating-point sqrt-price curve.
