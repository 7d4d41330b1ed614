use embedded_audio_tools::memory::memory_slice::from_slice_mut;
use embedded_audio_tools::{AllPass, Comb, DelayLine};

fn bits(x: f32) -> u32 {
    x.to_bits()
}

#[test]
fn write_and_advance() {
    let buffer = vec![bits(0.0); 24];
    let mut delay_line = DelayLine::new(from_slice_mut(buffer));

    for i in 0..24 {
        delay_line.write_and_advance(bits(i as f32));
        assert_eq!(delay_line.buffer.as_slice_mut()[i], bits(i as f32));
    }
}

#[test]
fn read() {
    let buffer: Vec<u32> = (0..24).map(|i| bits(i as f32)).collect();
    let mut delay_line = DelayLine::new(from_slice_mut(buffer));

    for i in 0..24 {
        assert_eq!(bits(i as f32), delay_line.read());
        delay_line.index += 1;
    }
}

// The value read at tick `n` is the value written at tick `n - L`; before
// `L` writes it is the line's initial content.
#[test]
fn delay_of_exactly_buffer_length() {
    const L: usize = 5;
    let initial: Vec<u32> = (0..L).map(|i| bits(-(i as f32) - 1.0)).collect();
    let mut delay_line = DelayLine::new(from_slice_mut(initial.clone()));

    for n in 0..20 {
        let out = delay_line.read();
        if n < L {
            assert_eq!(out, initial[n], "pre-fill at tick {}", n);
        } else {
            assert_eq!(out, bits((n - L) as f32 * 10.0), "delayed at tick {}", n);
        }
        delay_line.write_and_advance(bits(n as f32 * 10.0));
    }
}

#[test]
fn all_pass_basic_ticking() {
    let buffer = vec![bits(0.0); 2];
    let mut allpass = AllPass::new(from_slice_mut(buffer));
    assert_eq!(allpass.tick(bits(1.0)), bits(-1.0));
    assert_eq!(allpass.tick(bits(0.0)), bits(0.0));
    assert_eq!(allpass.tick(bits(0.0)), bits(1.0));
    assert_eq!(allpass.tick(bits(0.0)), bits(0.0));
    assert_eq!(allpass.tick(bits(0.0)), bits(0.5));
    assert_eq!(allpass.tick(bits(0.0)), bits(0.0));
    assert_eq!(allpass.tick(bits(0.0)), bits(0.25));
}

#[test]
fn comb_basic_ticking() {
    let buffer = vec![bits(0.0); 2];
    let mut comb = Comb::new(from_slice_mut(buffer));
    assert_eq!(comb.tick(bits(1.0)), bits(0.0));
    assert_eq!(comb.tick(bits(0.0)), bits(0.0));
    assert_eq!(comb.tick(bits(0.0)), bits(1.0));
    assert_eq!(comb.tick(bits(0.0)), bits(0.0));
    assert_eq!(comb.tick(bits(0.0)), bits(0.25));
    assert_eq!(comb.tick(bits(0.0)), bits(0.125));
    assert_eq!(comb.tick(bits(0.0)), bits(0.125));
    assert_eq!(comb.tick(bits(0.0)), bits(0.09375));
}

#[test]
fn delay_line_interpolated_reads() {
    let buffer: Vec<u32> = (0..8).map(|i| bits(i as f32)).collect();
    let delay_line = DelayLine::new(from_slice_mut(buffer));

    // halfway between cells zero and one
    assert_eq!(delay_line.read_lerp_wrapped_at(bits(0.5)), bits(0.5));
    // a whole-cell offset wraps around
    assert_eq!(delay_line.read_wrapped_at(-1), bits(7.0));
    assert_eq!(delay_line.read_wrapped_at(9), bits(1.0));
}
