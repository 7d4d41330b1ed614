//! Fixed-point approximations computed entirely in integer arithmetic.

pub mod math;
