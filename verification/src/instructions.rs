//! The decisions of each instruction. Each instruction's accounts are read into
//! plain values; the instruction answers with the token movements to perform,
//! or with the error that refuses the request.

pub mod collect_fees;
pub mod deposit;
pub mod initialize;
pub mod lock;
pub mod swap;
pub mod withdraw;
