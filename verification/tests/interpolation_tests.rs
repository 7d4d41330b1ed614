use embedded_audio_tools::interpolation::InterpolationError::{
    InputInfinite, InputNaN, InterpolationRange,
};
use embedded_audio_tools::interpolation::{lagrange, lagrange_only_4_elements, lerp, lerp_unchecked};

fn bits(x: f32) -> u32 {
    x.to_bits()
}

#[test]
fn interpolate_unchecked() {
    assert_eq!(lerp_unchecked(bits(0.0), bits(1.0), bits(0.5)), bits(0.5));
}

#[test]
fn interpolate_checked() {
    assert_eq!(lerp(bits(f32::NAN), bits(0.0), bits(0.0)), Err(InputNaN));
    assert_eq!(lerp(bits(0.0), bits(f32::NAN), bits(0.0)), Err(InputNaN));
    assert_eq!(
        lerp(bits(f32::INFINITY), bits(0.0), bits(0.0)),
        Err(InputInfinite)
    );
    assert_eq!(
        lerp(bits(0.0), bits(f32::INFINITY), bits(0.0)),
        Err(InputInfinite)
    );
    assert_eq!(
        lerp(bits(0.0), bits(0.0), bits(-1.0)),
        Err(InterpolationRange)
    );
    assert_eq!(
        lerp(bits(0.0), bits(0.0), bits(2.0)),
        Err(InterpolationRange)
    );
    assert_eq!(lerp(bits(0.0), bits(1.0), bits(0.5)).unwrap(), bits(0.5));
}

// The four-point unrolled form and the general form agree word for word
// on the same four samples and offset.
#[test]
fn lagrange_four_point_matches_general() {
    let sample_sets: [[f32; 4]; 5] = [
        [0.0, 1.0, 2.0, 3.0],
        [1.0, -1.0, 1.0, -1.0],
        [0.25, 0.75, -0.5, 0.125],
        [100.0, -3.5, 7.25, 0.001],
        [-0.1, 0.2, -0.3, 0.4],
    ];
    let offsets: [f32; 4] = [0.25, 1.5, 2.75, 3.0];
    let mut combos = 0;
    for set in sample_sets.iter() {
        let words: Vec<u32> = set.iter().map(|v| v.to_bits()).collect();
        for x in offsets.iter() {
            let general = lagrange(&words, bits(*x));
            let unrolled = lagrange_only_4_elements(&words, bits(*x));
            assert_eq!(general, unrolled, "samples {:?} at {}", set, x);
            combos += 1;
        }
    }
    assert_eq!(combos, 20);
}

#[test]
fn lagrange_hits_the_samples() {
    let words: Vec<u32> = [2.0f32, 4.0, 8.0, 16.0].iter().map(|v| v.to_bits()).collect();
    for k in 0..4 {
        let out = f32::from_bits(lagrange(&words, bits(k as f32)));
        let expected = f32::from_bits(words[k]);
        assert!(
            (out - expected).abs() < 1e-4,
            "at {}: {} vs {}",
            k,
            out,
            expected
        );
    }
}
