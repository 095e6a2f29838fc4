use simd_iter::integer::SimdInteger;
use simd_iter::min_max_identities::MinMaxIdentities;
use simd_iter::num::SimdNum;
use simd_iter::ord::SimdOrdOrFloat;
use simd_iter::vector::{Mask, Simd, Vector};

#[test]
fn splat_fills_every_lane() {
    assert_eq!([7u8; 4], Simd::<u8, 4>::splat(7).to_array());
}

#[test]
fn from_slice_takes_the_first_lanes() {
    assert_eq!([1, 2, 3], Simd::<i32, 3>::from_slice(&[1, 2, 3, 4, 5]).to_array());
    assert_eq!([1, 2], Simd::<i32, 2>::from_array([1, 2]).to_array());
}

#[test]
fn from_slice_padded_fills_the_lanes_beyond_the_values() {
    assert_eq!([1, 2, 0, 0], Simd::<i32, 4>::from_slice_padded(&[1, 2], 0).to_array());
    assert_eq!([9, 9, 9], Simd::<i32, 3>::from_slice_padded(&[], 9).to_array());
    assert_eq!([1, 2, 3], Simd::<i32, 3>::from_slice_padded(&[1, 2, 3], 9).to_array());
    assert_eq!([1, 2], Simd::<i32, 2>::from_slice_padded(&[1, 2, 3], 9).to_array());
}

#[test]
fn lane_wise_arithmetic_wraps() {
    let a = Simd::<u8, 3>::from_array([250, 1, 16]);
    let b = Simd::<u8, 3>::from_array([10, 2, 16]);
    assert_eq!([4, 3, 32], a.simd_add(b).to_array());
    assert_eq!([196, 2, 0], a.simd_mul(b).to_array());
    let c = Simd::<i8, 2>::from_array([127, -128]);
    let d = Simd::<i8, 2>::from_array([1, -1]);
    assert_eq!([-128, 127], c.simd_add(d).to_array());
    assert_eq!([127, -128], c.simd_mul(d).to_array());
}

#[test]
fn lane_wise_min_and_max() {
    let a = Simd::<i16, 3>::from_array([-5, 4, 0]);
    let b = Simd::<i16, 3>::from_array([3, -4, 0]);
    assert_eq!([-5, -4, 0], a.simd_min(b).to_array());
    assert_eq!([3, 4, 0], a.simd_max(b).to_array());
}

#[test]
fn lane_wise_bit_operations() {
    let a = Simd::<u16, 2>::from_array([0b1100, 0xffff]);
    let b = Simd::<u16, 2>::from_array([0b1010, 0x0f0f]);
    assert_eq!([0b1000, 0x0f0f], a.simd_and(b).to_array());
    assert_eq!([0b1110, 0xffff], a.simd_or(b).to_array());
    assert_eq!([0b0110, 0xf0f0], a.simd_xor(b).to_array());
}

#[test]
fn horizontal_reductions() {
    let v = Simd::<i32, 4>::from_array([3, -1, 4, 2]);
    assert_eq!(8, v.reduce_sum());
    assert_eq!(-24, v.reduce_product());
    assert_eq!(-1, v.reduce_min());
    assert_eq!(4, v.reduce_max());
    let w = Simd::<u8, 3>::from_array([0b111, 0b110, 0b101]);
    assert_eq!(0b100, w.reduce_and());
    assert_eq!(0b111, w.reduce_or());
    assert_eq!(0b100, w.reduce_xor());
    assert_eq!(44, Simd::<u8, 3>::from_array([100, 100, 100]).reduce_sum());
}

#[test]
fn identities_are_the_bounds_of_the_type() {
    assert_eq!(i8::MAX, <i8 as MinMaxIdentities>::min_identity());
    assert_eq!(i8::MIN, <i8 as MinMaxIdentities>::max_identity());
    assert_eq!(u64::MAX, <u64 as MinMaxIdentities>::min_identity());
    assert_eq!(0, <u64 as MinMaxIdentities>::max_identity());
    assert_eq!(isize::MAX, <isize as MinMaxIdentities>::min_identity());
    assert_eq!(usize::MIN, <usize as MinMaxIdentities>::max_identity());
}

#[test]
fn mask_marks_the_first_lanes() {
    assert_eq!([true, true, false, false], Mask::<4>::first(2).lanes);
    assert_eq!([false, false, false], Mask::<3>::first(0).lanes);
    assert_eq!([true, true], Mask::<2>::first(5).lanes);
}

#[test]
fn select_picks_lane_by_lane() {
    let mask = Mask::<4>::first(3);
    let a = Simd::<i32, 4>::from_array([1, 2, 3, 4]);
    let b = Simd::<i32, 4>::splat(-1);
    assert_eq!([1, 2, 3, -1], mask.select(a, b).to_array());
    assert_eq!([-1, -1, -1, 4], mask.select(b, a).to_array());
}
