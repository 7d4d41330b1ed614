use embedded_audio_tools::float::bit_manipulation::BitReductionError;
use embedded_audio_tools::float::{
    bit_reduce_exp, bit_reduce_exp_unchecked, F32Components, FromF32Components, ToF32Components,
};

use embedded_audio_tools::fixed_point::math::sin_i16;

use core::f32::consts::PI;

#[test]
fn conversion_conversion() {
    const RAW_PI: u32 = 0x40490fdb;
    const COMPONENTS_OF_PI: F32Components = F32Components {
        sign: false,
        exponent: 128,
        mantissa: 4788187,
    };

    assert_eq!(PI.to_bits(), RAW_PI);
    assert_eq!(f32::from_bits(RAW_PI), PI);
    assert_eq!(RAW_PI.to_f32_components(), COMPONENTS_OF_PI);
    assert_eq!(u32::from_f32_components(COMPONENTS_OF_PI), RAW_PI);
}

#[test]
fn exponential_reduction() {
    assert_eq!(bit_reduce_exp_unchecked(PI.to_bits(), 0), PI.to_bits());
    assert_eq!(bit_reduce_exp_unchecked(PI.to_bits(), 4), 0x40490fd0);
}

#[test]
fn over_bit_reduction_is_refused() {
    assert_eq!(
        bit_reduce_exp(1.0f32.to_bits(), 24),
        Err(BitReductionError::OverBitReduction)
    );
    assert_eq!(bit_reduce_exp(1.0f32.to_bits(), 0), Ok(1.0f32.to_bits()));
    assert_eq!(
        bit_reduce_exp(PI.to_bits(), 4),
        Ok(0x40490fd0)
    );
}

#[test]
fn fixed_point_sine_values() {
    assert_eq!(sin_i16(0, 4), 0);
    assert_eq!(sin_i16(i16::MAX, 4), 32766);
    assert_eq!(sin_i16(i16::MIN, 4), -32768);
    assert_eq!(sin_i16(16384, 4), 23170);
    assert_eq!(sin_i16(-16384, 4), -23171);
    assert_eq!(sin_i16(1000, 4), 1570);
    // degrees above four are capped at four
    assert_eq!(sin_i16(1000, 9), sin_i16(1000, 4));
}
