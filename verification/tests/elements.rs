use num_traits::{Bounded, One, WrappingAdd, WrappingMul, Zero};
use simd_iter::element::{IntElement, NumElement, OrdElement};
use simd_iter::min_max_identities::MinMaxIdentities;

#[test]
fn zero_and_one_are_those_of_num_traits() {
    assert_eq!(<u8 as Zero>::zero(), <u8 as NumElement>::zero());
    assert_eq!(<u16 as Zero>::zero(), <u16 as NumElement>::zero());
    assert_eq!(<u32 as Zero>::zero(), <u32 as NumElement>::zero());
    assert_eq!(<u64 as Zero>::zero(), <u64 as NumElement>::zero());
    assert_eq!(<usize as Zero>::zero(), <usize as NumElement>::zero());
    assert_eq!(<i8 as Zero>::zero(), <i8 as NumElement>::zero());
    assert_eq!(<i16 as Zero>::zero(), <i16 as NumElement>::zero());
    assert_eq!(<i32 as Zero>::zero(), <i32 as NumElement>::zero());
    assert_eq!(<i64 as Zero>::zero(), <i64 as NumElement>::zero());
    assert_eq!(<isize as Zero>::zero(), <isize as NumElement>::zero());
    assert_eq!(<u8 as One>::one(), <u8 as NumElement>::one());
    assert_eq!(<u16 as One>::one(), <u16 as NumElement>::one());
    assert_eq!(<u32 as One>::one(), <u32 as NumElement>::one());
    assert_eq!(<u64 as One>::one(), <u64 as NumElement>::one());
    assert_eq!(<usize as One>::one(), <usize as NumElement>::one());
    assert_eq!(<i8 as One>::one(), <i8 as NumElement>::one());
    assert_eq!(<i16 as One>::one(), <i16 as NumElement>::one());
    assert_eq!(<i32 as One>::one(), <i32 as NumElement>::one());
    assert_eq!(<i64 as One>::one(), <i64 as NumElement>::one());
    assert_eq!(<isize as One>::one(), <isize as NumElement>::one());
}

#[test]
fn identities_of_min_and_max_are_the_bounds_of_num_traits() {
    assert_eq!(<u8 as Bounded>::max_value(), <u8 as MinMaxIdentities>::min_identity());
    assert_eq!(<u8 as Bounded>::min_value(), <u8 as MinMaxIdentities>::max_identity());
    assert_eq!(<i16 as Bounded>::max_value(), <i16 as MinMaxIdentities>::min_identity());
    assert_eq!(<i16 as Bounded>::min_value(), <i16 as MinMaxIdentities>::max_identity());
    assert_eq!(<u32 as Bounded>::max_value(), <u32 as MinMaxIdentities>::min_identity());
    assert_eq!(<i32 as Bounded>::min_value(), <i32 as MinMaxIdentities>::max_identity());
    assert_eq!(<i64 as Bounded>::max_value(), <i64 as MinMaxIdentities>::min_identity());
    assert_eq!(<u64 as Bounded>::min_value(), <u64 as MinMaxIdentities>::max_identity());
    assert_eq!(<isize as Bounded>::max_value(), <isize as MinMaxIdentities>::min_identity());
    assert_eq!(<usize as Bounded>::min_value(), <usize as MinMaxIdentities>::max_identity());
}

#[test]
fn all_bits_is_the_complement_of_zero() {
    assert_eq!(!<u8 as Zero>::zero(), <u8 as IntElement>::all_bits());
    assert_eq!(!<i8 as Zero>::zero(), <i8 as IntElement>::all_bits());
    assert_eq!(-1, <i32 as IntElement>::all_bits());
    assert_eq!(u64::MAX, <u64 as IntElement>::all_bits());
    assert_eq!(usize::MAX, <usize as IntElement>::all_bits());
    assert_eq!(-1, <isize as IntElement>::all_bits());
    assert_eq!(0, <u16 as IntElement>::no_bits());
    assert_eq!(0, <i64 as IntElement>::no_bits());
}

#[test]
fn lane_arithmetic_wraps_as_num_traits_does() {
    assert_eq!(WrappingAdd::wrapping_add(&200u8, &100), 200u8.lane_add(100));
    assert_eq!(44, 200u8.lane_add(100));
    assert_eq!(WrappingAdd::wrapping_add(&i32::MAX, &1), i32::MAX.lane_add(1));
    assert_eq!(i32::MIN, i32::MAX.lane_add(1));
    assert_eq!(WrappingMul::wrapping_mul(&200u8, &3), 200u8.lane_mul(3));
    assert_eq!(88, 200u8.lane_mul(3));
    assert_eq!(WrappingMul::wrapping_mul(&i64::MIN, &-1), i64::MIN.lane_mul(-1));
    assert_eq!(i64::MIN, i64::MIN.lane_mul(-1));
    assert_eq!(u64::MAX - 1, u64::MAX.lane_mul(2));
    assert_eq!(0, usize::MAX.lane_add(1));
    assert_eq!(isize::MIN, isize::MAX.lane_add(1));
}

#[test]
fn lane_order_and_bits() {
    assert_eq!(-3, (-3i16).lane_min(2));
    assert_eq!(2, (-3i16).lane_max(2));
    assert_eq!(5, 5u64.lane_min(5));
    assert_eq!(0, 0u8.lane_min(255));
    assert_eq!(255, 0u8.lane_max(255));
    assert_eq!(0b1000, 0b1100u32.lane_and(0b1010));
    assert_eq!(0b1110, 0b1100u32.lane_or(0b1010));
    assert_eq!(0b0110, 0b1100u32.lane_xor(0b1010));
    assert_eq!(-4, (-2i8).lane_and(-3));
    assert_eq!(-1, (-2i8).lane_or(-3));
    assert_eq!(3, (-2i8).lane_xor(-3));
}
