//! A constant-product automated market maker: the pool arithmetic and the
//! decisions of each instruction, as plain values.

pub mod curve;
pub mod error;
pub mod instructions;
pub mod state;
pub mod laws;
