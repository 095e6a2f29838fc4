use simd_iter::integer::SimdIntegerIterExt;
use simd_iter::num::SimdNumIterExt;
use simd_iter::ord::SimdOrdIterExt;
use simd_iter::SimdIterable;

/// A small deterministic generator, so that every run sees the same inputs.
fn next_word(state: &mut u64) -> u64 {
    *state ^= *state << 13;
    *state ^= *state >> 7;
    *state ^= *state << 17;
    *state
}

fn words(seed: u64, len: usize) -> Vec<u64> {
    let mut state = seed | 1;
    (0..len).map(|_| next_word(&mut state)).collect()
}

#[test]
fn sum_of_one_to_five() {
    assert_eq!(15, [1i32, 2, 3, 4, 5].simd_iter().scalar_sum());
    assert_eq!(15, [1u8, 2, 3, 4, 5].simd_iter_with_width::<2>().scalar_sum());
    assert_eq!(15, [1i64, 2, 3, 4, 5].simd_iter_with_width::<5>().scalar_sum());
}

#[test]
fn product_of_one_to_five() {
    assert_eq!(120, [1i32, 2, 3, 4, 5].simd_iter().scalar_product());
    assert_eq!(120, [1u16, 2, 3, 4, 5].simd_iter_with_width::<4>().scalar_product());
    assert_eq!(120, [1usize, 2, 3, 4, 5].simd_iter_with_width::<1>().scalar_product());
}

#[test]
fn min_and_max_of_mixed_signs() {
    assert_eq!(Some(-7), [-1i32, 1, -2, 3, -7, 5].simd_iter().scalar_min());
    assert_eq!(Some(5), [-1i32, 1, -2, 3, -7, 5].simd_iter().scalar_max());
    assert_eq!(Some(-7), [-1i8, 1, -2, 3, -7, 5].simd_iter_with_width::<4>().scalar_min());
    assert_eq!(Some(5), [-1i16, 1, -2, 3, -7, 5].simd_iter_with_width::<4>().scalar_max());
}

#[test]
fn bitwise_reductions_of_three_words() {
    assert_eq!(Some(0b100), [0b111i32, 0b110, 0b101].simd_iter().scalar_reduce_and());
    assert_eq!(Some(0b110), [0b000i32, 0b110, 0b100].simd_iter().scalar_reduce_or());
    assert_eq!(Some(0b100), [0b111i32, 0b110, 0b101].simd_iter().scalar_reduce_xor());
    assert_eq!(Some(0b100), [0b111u8, 0b110, 0b101].simd_iter_with_width::<2>().scalar_reduce_and());
    assert_eq!(Some(0b110), [0b000u64, 0b110, 0b100].simd_iter_with_width::<2>().scalar_reduce_or());
    assert_eq!(Some(0b100), [0b111isize, 0b110, 0b101].simd_iter_with_width::<2>().scalar_reduce_xor());
}

#[test]
fn empty_input_gives_identity_or_nothing() {
    let none: [i32; 0] = [];
    assert_eq!(0, none.simd_iter().scalar_sum());
    assert_eq!(1, none.simd_iter().scalar_product());
    assert_eq!(None, none.simd_iter().scalar_min());
    assert_eq!(None, none.simd_iter().scalar_max());
    assert_eq!(None, none.simd_iter().scalar_reduce_and());
    assert_eq!(None, none.simd_iter().scalar_reduce_or());
    assert_eq!(None, none.simd_iter().scalar_reduce_xor());
    let none: [u64; 0] = [];
    assert_eq!(0, none.simd_iter_with_width::<1>().scalar_sum());
    assert_eq!(1, none.simd_iter_with_width::<1>().scalar_product());
    assert_eq!(None, none.simd_iter_with_width::<1>().scalar_min());
}

#[test]
fn padding_does_not_show_in_the_result() {
    // Six elements: width 4 leaves a tail of two, width 8 makes all of them a
    // head, widths 1, 2, 3 and 6 divide the length.
    let xs = [-1i32, 1, -2, 3, -7, 5];
    assert_eq!(-1, xs.simd_iter_with_width::<4>().scalar_sum());
    assert_eq!(-1, xs.simd_iter_with_width::<8>().scalar_sum());
    assert_eq!(-1, xs.simd_iter_with_width::<3>().scalar_sum());
    assert_eq!(-210, xs.simd_iter_with_width::<4>().scalar_product());
    assert_eq!(-210, xs.simd_iter_with_width::<8>().scalar_product());
    assert_eq!(-210, xs.simd_iter_with_width::<6>().scalar_product());
    assert_eq!(Some(-7), xs.simd_iter_with_width::<4>().scalar_min());
    assert_eq!(Some(-7), xs.simd_iter_with_width::<8>().scalar_min());
    assert_eq!(Some(5), xs.simd_iter_with_width::<4>().scalar_max());
    assert_eq!(Some(5), xs.simd_iter_with_width::<8>().scalar_max());
    let all = xs.iter().cloned().reduce(|a, b| a & b);
    let any = xs.iter().cloned().reduce(|a, b| a | b);
    let odd = xs.iter().cloned().reduce(|a, b| a ^ b);
    assert_eq!(all, xs.simd_iter_with_width::<4>().scalar_reduce_and());
    assert_eq!(all, xs.simd_iter_with_width::<8>().scalar_reduce_and());
    assert_eq!(all, xs.simd_iter_with_width::<2>().scalar_reduce_and());
    assert_eq!(any, xs.simd_iter_with_width::<4>().scalar_reduce_or());
    assert_eq!(any, xs.simd_iter_with_width::<8>().scalar_reduce_or());
    assert_eq!(odd, xs.simd_iter_with_width::<4>().scalar_reduce_xor());
    assert_eq!(odd, xs.simd_iter_with_width::<8>().scalar_reduce_xor());
}

#[test]
fn min_of_only_greatest_values_is_the_greatest_value() {
    assert_eq!(Some(u8::MAX), [u8::MAX; 5].simd_iter_with_width::<4>().scalar_min());
    assert_eq!(Some(i32::MIN), [i32::MIN; 3].simd_iter_with_width::<8>().scalar_max());
}

#[test]
fn sum_and_product_wrap_around() {
    assert_eq!(44u8, [100u8, 100, 100].simd_iter_with_width::<2>().scalar_sum());
    assert_eq!(i8::MIN, [127i8, 1].simd_iter_with_width::<4>().scalar_sum());
    assert_eq!(0u8, [16u8, 16, 3].simd_iter_with_width::<2>().scalar_product());
    assert_eq!(-128i8, [64i8, 2].simd_iter().scalar_product());
    assert_eq!(
        u64::MAX.wrapping_mul(3),
        [u64::MAX, 3].simd_iter_with_width::<2>().scalar_product()
    );
}

#[test]
fn test_scalar_sum_wrapping() {
    for len in 0..100usize {
        let xs: Vec<u32> = words(len as u64 + 11, len).into_iter().map(|w| w as u32).collect();
        let expected = xs.iter().fold(0u32, |a, b| a.wrapping_add(*b));
        assert_eq!(expected, xs.simd_iter().scalar_sum());
        assert_eq!(expected, xs.simd_iter_with_width::<4>().scalar_sum());
        assert_eq!(expected, xs.simd_iter_with_width::<7>().scalar_sum());
    }
}

#[test]
fn test_scalar_product_wrapping() {
    for len in 0..100usize {
        let xs: Vec<i64> = words(len as u64 + 5, len).into_iter().map(|w| (w | 1) as i64).collect();
        let expected = xs.iter().fold(1i64, |a, b| a.wrapping_mul(*b));
        assert_eq!(expected, xs.simd_iter().scalar_product());
        assert_eq!(expected, xs.simd_iter_with_width::<8>().scalar_product());
        assert_eq!(expected, xs.simd_iter_with_width::<3>().scalar_product());
    }
}

#[test]
fn test_scalar_min() {
    for len in 0..100usize {
        let xs: Vec<u32> = words(len as u64 + 1, len).into_iter().map(|w| w as u32).collect();
        assert_eq!(xs.iter().cloned().min(), xs.simd_iter().scalar_min());
        assert_eq!(xs.iter().cloned().min(), xs.simd_iter_with_width::<4>().scalar_min());
    }
}

#[test]
fn test_scalar_max() {
    for len in 0..100usize {
        let xs: Vec<i64> = words(len as u64 + 2, len).into_iter().map(|w| w as i64).collect();
        assert_eq!(xs.iter().cloned().max(), xs.simd_iter().scalar_max());
        assert_eq!(xs.iter().cloned().max(), xs.simd_iter_with_width::<16>().scalar_max());
    }
}

#[test]
fn test_scalar_reduce_and() {
    for len in 0..100usize {
        let xs: Vec<i8> = words(len as u64 + 3, len).into_iter().map(|w| w as i8).collect();
        let expected = xs.iter().cloned().reduce(core::ops::BitAnd::bitand);
        assert_eq!(expected, xs.simd_iter().scalar_reduce_and());
        assert_eq!(expected, xs.simd_iter_with_width::<2>().scalar_reduce_and());
    }
}

#[test]
fn test_scalar_reduce_or() {
    for len in 0..100usize {
        let xs: Vec<i16> = words(len as u64 + 4, len).into_iter().map(|w| w as i16).collect();
        let expected = xs.iter().cloned().reduce(core::ops::BitOr::bitor);
        assert_eq!(expected, xs.simd_iter().scalar_reduce_or());
        assert_eq!(expected, xs.simd_iter_with_width::<64>().scalar_reduce_or());
    }
}

#[test]
fn test_scalar_reduce_xor() {
    for len in (0..1000usize).step_by(7) {
        let xs: Vec<i32> = words(len as u64 + 6, len).into_iter().map(|w| w as i32).collect();
        let expected = xs.iter().cloned().reduce(core::ops::BitXor::bitxor);
        assert_eq!(expected, xs.simd_iter().scalar_reduce_xor());
        assert_eq!(expected, xs.simd_iter_with_width::<5>().scalar_reduce_xor());
    }
}

#[test]
fn reductions_of_what_is_left_after_a_step() {
    let xs = [1u32, 2, 3, 4, 5, 6, 7];
    let mut iter = xs.simd_iter_with_width::<2>();
    let first = iter.next().unwrap();
    assert_eq!([1, 2], first.to_array());
    assert_eq!(3 + 4 + 5 + 6 + 7, iter.scalar_sum());
}

#[test]
fn padded_walk_reduces_over_the_pad_lanes_too() {
    // With a pad that is not neutral the pad lanes count: 1 + 2 + 3 and one
    // lane of 10.
    let xs = [1u32, 2, 3];
    assert_eq!(16, xs.simd_iter_with_width::<2>().padded_with(10).scalar_sum());
    assert_eq!(Some(0), xs.simd_iter_with_width::<2>().padded_with(0).scalar_min());
    assert_eq!(Some(9), xs.simd_iter_with_width::<4>().padded_with(9).scalar_max());
    assert_eq!(Some(0), xs.simd_iter_with_width::<2>().padded_with(0).scalar_reduce_and());
    assert_eq!(Some(11), xs.simd_iter_with_width::<2>().padded_with(8).scalar_reduce_or());
    assert_eq!(Some(8), xs.simd_iter_with_width::<2>().padded_with(8).scalar_reduce_xor());
    assert_eq!(0, xs.simd_iter_with_width::<2>().padded_with(0).scalar_product());
}
