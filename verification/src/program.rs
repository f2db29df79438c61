//! What identifies a deployment of the pool program.

use crate::pubkey::Pubkey;
use vstd::prelude::*;

verus! {

/// The eight-byte tags of the pool program.
#[derive(Clone, Copy, Debug)]
pub struct Discriminators {
    /// What a pool account begins with.
    pub pool: [u8; 8],
    /// What the data of a swap instruction begins with.
    pub swap: [u8; 8],
}

/// A deployment of the pool program.
pub struct PoolProgram {
    pub id: Pubkey,
    /// The first seed of a pool address.
    pub pool_seed: Vec<u8>,
    /// The first seed of the address of a pool's share mint.
    pub bpt_mint_seed: Vec<u8>,
    pub discriminators: Discriminators,
}

} // verus!
