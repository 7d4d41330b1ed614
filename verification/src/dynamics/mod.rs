//! Dynamics processors built on the envelope machines.

pub mod ff_comp;
