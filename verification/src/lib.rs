//! Real-time, allocation-free audio building blocks: a bounds-checked sample
//! buffer with circular and interpolated access, a delay line with
//! read-before-write tick semantics, feedback filters built on it, and a
//! multi-stage envelope generator.
//!
//! Samples are carried as raw IEEE 754 single-precision words (`u32`); the
//! [`sample`] module gives the bit-level value model that every contract in
//! the crate speaks of.

pub mod all_pass;
pub mod comb;
pub mod delay_line;
pub mod dynamics;
pub mod envelope;
pub mod fixed_point;
pub mod float;
pub mod interpolation;
pub mod memory;
pub mod sample;

pub use all_pass::AllPass;
pub use comb::Comb;
pub use delay_line::DelayLine;
pub use dynamics::ff_comp::FFCompressor;
pub use envelope::adsr::AudioRateADSR;
pub use sample::SampleWord;
