//! Differential testing of two 256-bit arithmetic oracles: the operand codec,
//! the variant generator, the operation registry and the comparator that runs
//! both oracles over every variant and reports the first divergence.

pub mod codec;
pub mod compare;
pub mod foreign;
pub mod operand;
pub mod ops;
pub mod variants;
