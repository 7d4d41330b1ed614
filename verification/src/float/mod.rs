//! Raw IEEE 754 single-precision words taken apart and put back
//! together: field extraction into components, and bit-depth reduction
//! on the mantissa.

pub mod bit_manipulation;
pub mod conversion;

pub use bit_manipulation::{bit_reduce_exp, bit_reduce_exp_unchecked, BitReductionError};
pub use conversion::{F32Components, FromF32Components, ToF32Components};
