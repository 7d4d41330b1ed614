use embedded_audio_tools::memory::memory_slice::{from_slice, from_slice_mut};
use embedded_audio_tools::memory::mut_mem_slice;
use embedded_audio_tools::memory::MemSliceError::{IndexOutOfBound, LengthOutOfBound};

fn bits(x: f32) -> u32 {
    x.to_bits()
}

fn ramp(n: usize) -> Vec<u32> {
    (0..n).map(|i| bits(i as f32)).collect()
}

#[test]
fn memory_slice_assign_value() {
    let buffer = vec![bits(0.0); 24];
    let mut ptr_buffer = from_slice_mut(buffer);

    let value = bits(42.0);
    let index = 10;

    ptr_buffer.assign(index, value).unwrap();
    ptr_buffer.assign(index + 1, value).unwrap();
    ptr_buffer.assign(index + 2, value).unwrap();

    assert_eq!(value, ptr_buffer.as_slice()[index]);
    assert_eq!(value, ptr_buffer.as_slice()[index + 1]);
    assert_eq!(value, ptr_buffer.as_slice()[index + 2]);

    let len = ptr_buffer.len();
    assert_eq!(ptr_buffer.assign(len + 1, value), Err(IndexOutOfBound));
}

#[test]
fn memory_slice_get_value() {
    let ptr_buffer = from_slice(ramp(24));

    assert_eq!(ptr_buffer.get(0), Ok(bits(0.0)));
    assert_eq!(ptr_buffer.get(5), Ok(bits(5.0)));
    let len = ptr_buffer.len();
    assert_eq!(ptr_buffer.get(len + 1), Err(IndexOutOfBound));
}

#[test]
fn memory_slice_get_value_wrapped() {
    const SIZE: usize = 24;
    let ptr_buffer = from_slice(ramp(SIZE));

    for i in 0..6 * SIZE {
        let index = i as isize - (3 * SIZE) as isize;
        assert_eq!(
            ptr_buffer.get_wrapped(index),
            bits((i % SIZE) as f32),
            "at index: {}",
            index
        );
    }
}

#[test]
fn memory_slice_unchecked_lerp() {
    let ptr_buffer = from_slice(ramp(24));
    assert_eq!(ptr_buffer.lerp_unchecked(bits(5.5)), bits(5.5));
}

#[test]
fn memory_slice_checked_lerp() {
    const SIZE: usize = 24;
    let ptr_buffer = from_slice(ramp(SIZE));

    assert_eq!(ptr_buffer.lerp(bits(-f32::EPSILON)), Err(IndexOutOfBound));
    assert_eq!(ptr_buffer.lerp(bits(0.0)), Ok(bits(0.0)));

    let close_under = (SIZE - 1) as f32 - 10.0 * f32::EPSILON;
    assert_ne!(close_under, (SIZE - 1) as f32);
    assert_eq!(ptr_buffer.lerp(bits(close_under)), Ok(bits(close_under)));
    assert_eq!(
        ptr_buffer.lerp(bits((SIZE - 1) as f32)),
        Ok(bits((SIZE - 1) as f32))
    );

    assert_eq!(
        ptr_buffer.lerp(bits((SIZE - 1) as f32 + 9.0 * f32::EPSILON)),
        Err(IndexOutOfBound)
    );
}

#[test]
fn memory_slice_lerp_wrapped() {
    const SIZE: usize = 24;
    let ptr_buffer = from_slice(ramp(SIZE));

    assert_eq!(ptr_buffer.lerp_wrapped(bits(-1.0)), bits((SIZE - 1) as f32));
    assert_eq!(
        ptr_buffer.lerp_wrapped(bits(-0.5)),
        bits(((SIZE - 1) as f32) / 2.0)
    );
    assert_eq!(ptr_buffer.lerp_wrapped(bits(0.0)), bits(0.0));
    assert_eq!(ptr_buffer.lerp_wrapped(bits(0.5)), bits(0.5));
    assert_eq!(
        ptr_buffer.lerp_wrapped(bits(SIZE as f32 - 0.5)),
        bits(((SIZE - 1) as f32) / 2.0)
    );
    assert_eq!(ptr_buffer.lerp_wrapped(bits(SIZE as f32)), bits(0.0));
    assert_eq!(ptr_buffer.lerp_wrapped(bits(SIZE as f32 + 0.5)), bits(0.5));
}

#[test]
fn memory_slice_lagrange_wrapped() {
    let buffer = vec![bits(0.0), bits(-1.0), bits(1.0), bits(0.4)];
    let ptr_buffer = from_slice(buffer);
    for i in -10..10 {
        let out = f32::from_bits(ptr_buffer.lagrange_wrapped(bits(i as f32), 4));
        assert!(out.is_finite());
    }
}

#[test]
fn memory_slice_sub_slice_bounds() {
    let ptr_buffer = from_slice(ramp(8));
    assert_eq!(
        ptr_buffer.get_sub_slice(9, 1).err(),
        Some(IndexOutOfBound)
    );
    assert_eq!(
        ptr_buffer.get_sub_slice(4, 4).err(),
        Some(LengthOutOfBound)
    );
    let sub = ptr_buffer.get_sub_slice(2, 3).unwrap();
    assert_eq!(sub.len(), 3);
    assert_eq!(sub.get(0), Ok(bits(2.0)));
    assert_eq!(sub.get(2), Ok(bits(4.0)));
}

// The circular read is a true Euclidean modulo, also far below zero.
#[test]
fn memory_slice_wrap_is_true_modulo() {
    const SIZE: usize = 7;
    let ptr_buffer = from_slice(ramp(SIZE));
    for i in -100_isize..100 {
        let expected = ((i % SIZE as isize) + SIZE as isize) % SIZE as isize;
        assert_eq!(ptr_buffer.get_wrapped(i), bits(expected as f32));
    }
}

// The wrapped interpolation is continuous at integer boundaries: at an
// integer index it returns exactly the wrapped sample there.
#[test]
fn memory_slice_lerp_wrapped_integer_boundaries() {
    const SIZE: usize = 12;
    let buffer: Vec<u32> = (0..SIZE).map(|i| bits(0.25 * i as f32 - 1.0)).collect();
    let ptr_buffer = from_slice(buffer);
    for k in 0..SIZE {
        assert_eq!(
            ptr_buffer.lerp_wrapped(bits(k as f32)),
            ptr_buffer.get_wrapped(k as isize)
        );
    }
}

#[test]
fn mut_mem_slice_assign_value() {
    let buffer = vec![bits(0.0); 24];
    let mut ptr_buffer = mut_mem_slice::from_slice(buffer);

    let value = bits(42.0);
    let index = 10;

    ptr_buffer.assign(index, value).unwrap();
    ptr_buffer.assign(index + 1, value).unwrap();
    ptr_buffer.assign(index + 2, value).unwrap();

    assert_eq!(value, ptr_buffer.as_slice()[index]);
    assert_eq!(value, ptr_buffer.as_slice()[index + 1]);
    assert_eq!(value, ptr_buffer.as_slice()[index + 2]);

    assert_eq!(
        ptr_buffer.assign(ptr_buffer.length + 1, value),
        Err(IndexOutOfBound)
    );
}

#[test]
fn mut_mem_slice_get_value() {
    let ptr_buffer = mut_mem_slice::from_slice(ramp(24));

    assert_eq!(ptr_buffer.get(0), Ok(bits(0.0)));
    assert_eq!(ptr_buffer.get(5), Ok(bits(5.0)));
    assert_eq!(ptr_buffer.get(ptr_buffer.length + 1), Err(IndexOutOfBound));
}

#[test]
fn mut_mem_slice_get_value_wrapped() {
    const SIZE: usize = 24;
    let ptr_buffer = mut_mem_slice::from_slice(ramp(SIZE));

    for i in 0..6 * SIZE {
        let index = i as isize - (3 * SIZE) as isize;
        assert_eq!(
            ptr_buffer.get_wrapped(index),
            bits((i % SIZE) as f32),
            "at index: {}",
            index
        );
    }
}

#[test]
fn mut_mem_slice_unchecked_lerp() {
    let ptr_buffer = mut_mem_slice::from_slice(ramp(24));
    assert_eq!(ptr_buffer.lerp_unchecked(bits(5.5)), bits(5.5));
}

#[test]
fn mut_mem_slice_checked_lerp() {
    const SIZE: usize = 24;
    let ptr_buffer = mut_mem_slice::from_slice(ramp(SIZE));

    assert_eq!(ptr_buffer.lerp(bits(-f32::EPSILON)), Err(IndexOutOfBound));
    assert_eq!(ptr_buffer.lerp(bits(0.0)), Ok(bits(0.0)));

    let close_under = (SIZE - 1) as f32 - 10.0 * f32::EPSILON;
    assert_ne!(close_under, (SIZE - 1) as f32);
    assert_eq!(ptr_buffer.lerp(bits(close_under)), Ok(bits(close_under)));
    assert_eq!(
        ptr_buffer.lerp(bits((SIZE - 1) as f32)),
        Ok(bits((SIZE - 1) as f32))
    );

    assert_eq!(
        ptr_buffer.lerp(bits((SIZE - 1) as f32 + 9.0 * f32::EPSILON)),
        Err(IndexOutOfBound)
    );
}

#[test]
fn mut_mem_slice_lerp_wrapped() {
    const SIZE: usize = 24;
    let ptr_buffer = mut_mem_slice::from_slice(ramp(SIZE));

    assert_eq!(ptr_buffer.lerp_wrapped(bits(-1.0)), bits((SIZE - 1) as f32));
    assert_eq!(
        ptr_buffer.lerp_wrapped(bits(-0.5)),
        bits(((SIZE - 1) as f32) / 2.0)
    );
    assert_eq!(ptr_buffer.lerp_wrapped(bits(0.0)), bits(0.0));
    assert_eq!(ptr_buffer.lerp_wrapped(bits(0.5)), bits(0.5));
    assert_eq!(
        ptr_buffer.lerp_wrapped(bits(SIZE as f32 - 0.5)),
        bits(((SIZE - 1) as f32) / 2.0)
    );
    assert_eq!(ptr_buffer.lerp_wrapped(bits(SIZE as f32)), bits(0.0));
    assert_eq!(ptr_buffer.lerp_wrapped(bits(SIZE as f32 + 0.5)), bits(0.5));
}

#[test]
fn mut_mem_slice_lagrange_wrapped() {
    let buffer = vec![bits(0.0), bits(-1.0), bits(1.0), bits(0.4)];
    let ptr_buffer = mut_mem_slice::from_slice(buffer);
    for i in -10..10 {
        let out = f32::from_bits(ptr_buffer.lagrange_wrapped(bits(i as f32), 4));
        assert!(out.is_finite());
    }
}

#[test]
fn read_write_view_narrows_to_read_only() {
    let mut rw = from_slice_mut(ramp(4));
    rw.assign(0, bits(9.0)).unwrap();
    let ro = rw.read_only();
    assert_eq!(ro.get(0), Ok(bits(9.0)));
    assert_eq!(ro.get(3), Ok(bits(3.0)));
}

#[test]
fn single_cell_lerp_edge() {
    let one = from_slice(vec![bits(7.0)]);
    // an index standing exactly on the only cell resolves inside the
    // tolerance instead of reading a missing neighbor
    assert_eq!(one.lerp(bits(0.0)), Ok(bits(7.0)));
    assert_eq!(one.lerp(bits(0.5)), Err(IndexOutOfBound));
}

#[test]
fn empty_slices_have_no_cells() {
    let none = embedded_audio_tools::memory::memory_slice::null();
    assert_eq!(none.len(), 0);
    assert_eq!(none.get(0), Err(IndexOutOfBound));
    let none_mut = embedded_audio_tools::memory::mut_mem_slice::MutMemSlice::null();
    assert_eq!(none_mut.length, 0);
    assert_eq!(none_mut.get(0), Err(IndexOutOfBound));
}

// The four-point kernel reads the window at the index's floor and
// evaluates at the fractional offset.
#[test]
fn four_point_window_uses_fractional_offset() {
    let ptr_buffer = from_slice(ramp(8));
    let window: Vec<u32> = (2..6).map(|i| bits(i as f32)).collect();
    assert_eq!(
        ptr_buffer.lagrange_four_points_wrapped(bits(2.5)),
        embedded_audio_tools::interpolation::lagrange(&window, bits(0.5))
    );
}
