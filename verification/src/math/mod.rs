//! The arithmetic of a swap.

pub mod fee;
pub mod fixed_point;
pub mod selloff;
