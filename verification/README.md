# cube_amm

A verified connector between a routing engine and Cube pools: it decodes pool
accounts, quotes swaps and builds swap instructions.

- `src/` is the library. Every function states what it does in `requires` and
  `ensures` clauses that Verus proves; the `law_` functions state what holds of
  the library as a whole.
  - `amm` — the connector for one pool
  - `quote` — what a pool offers for an amount, and the laws of quotes
  - `state`, `bytes`, `accounts` — pool accounts and their layout
  - `math` — fixed-point numbers, the swap fee, the selloff cap
  - `ix` — the swap instruction
  - `address`, `pubkey`, `program` — addresses and what they are derived from
- `app/` implements the engine's `Amm` trait on top of the library.
- `tests/` runs the library on hand-built accounts.

Two things are left to whoever uses the library. The pricing curve is a function
that `CubeAmm::quote` takes: from the terms of a swap to the amount paid out, or
nothing where the curve refuses. A `PoolProgram` says which deployment of the
pool program is meant: its address, its seeds and its account and instruction
tags.

Two calls are trusted rather than proved: `try_find_program_address` of
`solana_sdk`, and `get_associated_token_address_with_program_id` of
`spl_associated_token_account`. Both stand in `src/address.rs` with what is
claimed of them.
