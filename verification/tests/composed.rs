use simd_iter::integer::SimdIntegerIterExt;
use simd_iter::num::{SimdNum, SimdNumIterExt};
use simd_iter::ord::SimdOrdIterExt;
use simd_iter::vector::Simd;
use simd_iter::SimdIterable;

#[test]
fn dot_product_by_lanes() {
    let xs = [1i32, 2, 3, 4, 5, 6, 7];
    let ys = [7i32, 6, 5, 4, 3, 2, 1];
    let mut left = xs.simd_iter_with_width::<4>().padded_with(0);
    let mut right = ys.simd_iter_with_width::<4>().padded_with(0);
    let mut products = Vec::new();
    while let (Some(a), Some(b)) = (left.next(), right.next()) {
        products.push(a.simd_mul(b));
    }
    assert_eq!(2, products.len());
    let expected: i32 = xs.iter().zip(ys.iter()).map(|(x, y)| x * y).sum();
    assert_eq!(84, expected);
    assert_eq!(expected, products.as_slice().scalar_sum());
}

#[test]
fn reductions_of_a_run_of_groups() {
    let groups = [
        Simd::<u8, 2>::from_array([1, 2]),
        Simd::<u8, 2>::from_array([3, 4]),
        Simd::<u8, 2>::from_array([5, 6]),
    ];
    assert_eq!(21, (&groups[..]).scalar_sum());
    assert_eq!(208, (&groups[..]).scalar_product());
    assert_eq!(Some(1), (&groups[..]).scalar_min());
    assert_eq!(Some(6), (&groups[..]).scalar_max());
    assert_eq!(Some(0), (&groups[..]).scalar_reduce_and());
    assert_eq!(Some(7), (&groups[..]).scalar_reduce_or());
    assert_eq!(Some(7), (&groups[..]).scalar_reduce_xor());
}

#[test]
fn reductions_of_no_groups() {
    let groups: [Simd<i64, 4>; 0] = [];
    assert_eq!(0, (&groups[..]).scalar_sum());
    assert_eq!(1, (&groups[..]).scalar_product());
    assert_eq!(None, (&groups[..]).scalar_min());
    assert_eq!(None, (&groups[..]).scalar_max());
    assert_eq!(None, (&groups[..]).scalar_reduce_and());
    assert_eq!(None, (&groups[..]).scalar_reduce_or());
    assert_eq!(None, (&groups[..]).scalar_reduce_xor());
}
