//! Numbers that the pool program fixes.

use vstd::prelude::*;

verus! {

/// One, in fixed point with eighteen decimals.
pub const ONE: u128 = 1_000_000_000_000_000_000;

/// What the swap fee rate counts in: a rate of `10_000` is one per cent.
pub const FEE_DENOMINATOR: u64 = 1_000_000;

/// Length in bytes of a pool account in the v4 layout.
pub const POOL_V4_LEN: usize = 1683;

/// Where the token slots of a pool account begin.
pub const TOKEN_BASE: usize = 179;

/// Length in bytes of one token slot.
pub const SLOT_SIZE: usize = 144;

/// How many token slots a pool account has room for.
pub const MAX_TOKENS: usize = 10;

/// How many accounts a swap is routed with: the program itself and the ten that
/// its swap instruction takes.
pub const SWAP_ACCOUNTS_LEN: usize = 11;

/// The associated token program,
/// `ATokenGPvbdGVxr1b2hvZbsiqW5xWH25efTNsLJA8knL`.
pub const ASSOCIATED_TOKEN_PROGRAM_ID: [u8; 32] = [
    140, 151, 37, 143, 78, 36, 137, 241, 187, 61, 16, 41, 20, 142, 13, 131, 11, 90, 19, 153, 218,
    255, 16, 132, 4, 142, 123, 216, 219, 233, 248, 89,
];

} // verus!
