//! Connector between a routing engine and Cube pools.
//!
//! The public surface:
//!   - `CubeAmm`, the connector for one pool
//!   - `state::PoolState` for decoding pool accounts by hand
//!   - `ix::{encode_swap_ix_data, build_swap_account_metas, SwapAccounts}` for
//!     building swap instructions by hand
//!   - `math::fixed_point::FixedPoint` for arithmetic with eighteen decimals
//!
//! The pricing curve is a parameter of `CubeAmm::quote`, and what identifies a
//! deployment of the pool program is a `program::PoolProgram`.

pub mod accounts;
pub mod address;
pub mod amm;
pub mod bytes;
pub mod constants;
pub mod error;
pub mod ix;
pub mod math;
pub mod program;
pub mod pubkey;
pub mod quote;
pub mod state;

pub use amm::CubeAmm;
