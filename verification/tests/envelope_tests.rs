use embedded_audio_tools::envelope::ar::{ARPhase, AttackRelease};
use embedded_audio_tools::envelope::multi_stage::MultiStageEnvelope;
use embedded_audio_tools::FFCompressor;
use micromath::F32Ext;

fn bits(x: f32) -> u32 {
    x.to_bits()
}

// Two-stage attack over eight samples: the output climbs strictly inside
// `[0, target]` for seven ticks and reaches the target exactly on the
// eighth.
#[test]
fn attack_reaches_target_exactly() {
    let mut ar = AttackRelease::new(bits(0.0));
    // half a second at sixteen ticks per second: an increment of exactly 1/8
    ar.set_all(ARPhase::ATTACK, bits(0.5), bits(1.0), bits(0.0), bits(16.0));
    ar.set_all(ARPhase::RELEASE, bits(0.5), bits(0.0), bits(0.0), bits(16.0));

    ar.trigger();
    assert_eq!(ar.get_stage(), ARPhase::ATTACK);

    for k in 1..8 {
        let out = f32::from_bits(ar.tick());
        assert_eq!(out, k as f32 / 8.0);
        assert!(out > 0.0 && out < 1.0, "tick {}: {}", k, out);
        assert_eq!(ar.get_stage(), ARPhase::ATTACK);
    }

    assert_eq!(ar.tick(), bits(1.0));
    assert_eq!(ar.get_stage(), ARPhase::RELEASE);
}

// A release mid-attack re-anchors smoothly: the first tick after the
// release differs from the pre-release output by less than one stage
// step.
#[test]
fn release_mid_attack_is_smooth() {
    let mut ar = AttackRelease::new(bits(0.0));
    ar.set_all(ARPhase::ATTACK, bits(0.5), bits(1.0), bits(0.0), bits(16.0));
    ar.set_all(ARPhase::RELEASE, bits(0.5), bits(0.0), bits(0.0), bits(16.0));

    ar.trigger();
    ar.tick();
    ar.tick();
    let before = f32::from_bits(ar.tick());
    assert_eq!(before, 0.375);

    ar.release();
    assert_eq!(ar.get_stage(), ARPhase::RELEASE);
    assert_eq!(ar.get_current_env_val(), bits(0.375));

    let after = f32::from_bits(ar.tick());
    assert_eq!(after, 0.328125);
    assert!((before - after).abs() < 0.125);
}

// The curved path goes through the library's exponential: one tick of a
// slope-two attack equals the normalized exponential computed directly.
#[test]
fn curved_attack_matches_normalized_exponential() {
    let mut ar = AttackRelease::new(bits(0.0));
    ar.set_all(ARPhase::ATTACK, bits(0.5), bits(1.0), bits(2.0), bits(16.0));
    ar.trigger();
    let out = ar.tick();

    let nexp = (F32Ext::exp(2.0f32 * 0.125f32) - 1.0) / (F32Ext::exp(2.0f32) - 1.0);
    let expected = 1.0f32 * nexp + 0.0;
    assert_eq!(out, bits(expected));
}

// Three stages: the machine holds after the penultimate stage until an
// explicit release, reaches idle after the final stage, and accepts a
// fresh trigger.
#[test]
fn three_stage_hold_release_idle() {
    let mut env: MultiStageEnvelope<3> = MultiStageEnvelope::new(bits(0.0));
    // half a second at eight ticks per second: an increment of exactly 1/4
    env.set_all(0, bits(0.5), bits(0.5), bits(0.0), bits(8.0));
    env.set_all(1, bits(0.5), bits(0.8), bits(0.0), bits(8.0));
    env.set_all(2, bits(0.5), bits(0.0), bits(0.0), bits(8.0));

    env.trigger();
    assert_eq!(env.get_stage(), 0);

    for _ in 0..3 {
        env.tick();
        assert_eq!(env.get_stage(), 0);
    }
    assert_eq!(env.tick(), bits(0.5));
    assert_eq!(env.get_stage(), 1);

    for _ in 0..3 {
        env.tick();
        assert_eq!(env.get_stage(), 1);
    }
    assert_eq!(env.tick(), bits(0.8));
    assert_eq!(env.get_stage(), -2);

    for _ in 0..5 {
        assert_eq!(env.tick(), bits(0.8));
        assert_eq!(env.get_stage(), -2);
    }

    env.release();
    assert_eq!(env.get_stage(), 2);
    for _ in 0..3 {
        env.tick();
        assert_eq!(env.get_stage(), 2);
    }
    assert_eq!(env.tick(), bits(0.0));
    assert_eq!(env.get_stage(), -1);

    env.trigger();
    assert_eq!(env.get_stage(), 0);
}

#[test]
fn okay() {
    let mut comp = FFCompressor::new(bits(0.2), bits(2.0), bits(1.0));

    for i in 0..25 {
        let sample = if i < 5 || i > 15 { bits(0.0) } else { bits(1.0) };
        println!("out: {:.7}", f32::from_bits(comp.tick(sample)));
    }

    for i in 0..25 {
        let sample = if i < 5 || i > 15 { bits(0.0) } else { bits(1.0) };
        println!("out: {:.7}", f32::from_bits(comp.tick(sample)));
    }
}

#[test]
fn compressor_parameter_clamps() {
    let mut comp = FFCompressor::new(bits(0.2), bits(2.0), bits(1.0));
    comp.set_threshold(bits(2.0));
    assert_eq!(comp.get_current_threshold(), bits(1.0));
    comp.set_threshold(bits(0.0));
    assert_eq!(comp.get_current_threshold(), bits(f32::EPSILON));
    comp.set_ratio(bits(0.5));
    comp.set_makeup_gain(bits(0.5));

    // the detector reports its stage as a signed byte
    assert_eq!(comp.get_current_env_stage(), -1);
    comp.tick(bits(1.0));
    assert_eq!(comp.get_current_env_stage(), 0);
    comp.tick(bits(0.0));
    assert_eq!(comp.get_current_env_stage(), 1);
}
