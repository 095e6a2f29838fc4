use simd_iter::{SimdIter, SimdIterable};

fn collect<const N: usize>(mut iter: SimdIter<'_, i32, N>) -> (Vec<i32>, Vec<[i32; N]>, Vec<i32>) {
    let prefix = iter.prefix().to_vec();
    let postfix = iter.postfix().to_vec();
    let mut groups = Vec::new();
    while let Some(group) = iter.next() {
        groups.push(group.to_array());
    }
    (prefix, groups, postfix)
}

fn check_partition<const N: usize>(data: &[i32]) {
    let (prefix, groups, postfix) = collect(data.simd_iter_with_width::<N>());
    assert!(prefix.len() < N);
    assert!(postfix.len() < N);
    let mut flat = prefix.clone();
    for group in &groups {
        flat.extend_from_slice(group);
    }
    flat.extend_from_slice(&postfix);
    assert_eq!(data, &flat[..]);
    let again = collect(flat.simd_iter_with_width::<N>());
    assert_eq!((prefix, groups, postfix), again);
}

#[test]
fn partition_gives_the_input_back() {
    let data: Vec<i32> = (0..200).collect();
    for len in 0..data.len() {
        check_partition::<1>(&data[..len]);
        check_partition::<2>(&data[..len]);
        check_partition::<3>(&data[..len]);
        check_partition::<4>(&data[..len]);
        check_partition::<8>(&data[..len]);
        check_partition::<32>(&data[..len]);
        check_partition::<64>(&data[..len]);
    }
}

#[test]
fn short_input_goes_to_the_prefix() {
    let (prefix, groups, postfix) = collect([1, 2, 3].simd_iter_with_width::<4>());
    assert_eq!(vec![1, 2, 3], prefix);
    assert!(groups.is_empty());
    assert!(postfix.is_empty());
}

#[test]
fn full_groups_come_first_and_the_rest_is_the_postfix() {
    let (prefix, groups, postfix) = collect([1, 2, 3, 4, 5, 6, 7].simd_iter_with_width::<3>());
    assert!(prefix.is_empty());
    assert_eq!(vec![[1, 2, 3], [4, 5, 6]], groups);
    assert_eq!(vec![7], postfix);
}

#[test]
fn exact_multiple_leaves_no_remainder() {
    let (prefix, groups, postfix) = collect([1, 2, 3, 4].simd_iter_with_width::<2>());
    assert!(prefix.is_empty());
    assert_eq!(vec![[1, 2], [3, 4]], groups);
    assert!(postfix.is_empty());
}

#[test]
fn empty_input_has_no_parts() {
    let none: [i32; 0] = [];
    let (prefix, groups, postfix) = collect(none.simd_iter());
    assert!(prefix.is_empty());
    assert!(groups.is_empty());
    assert!(postfix.is_empty());
}

#[test]
fn default_width_is_thirty_two() {
    let data: Vec<i32> = (0..70).collect();
    let mut iter = data.simd_iter();
    assert_eq!(2, iter.len());
    assert_eq!((2, Some(2)), iter.size_hint());
    let first = iter.next().unwrap().to_array();
    assert_eq!(32, first.len());
    assert_eq!(0, first[0]);
    assert_eq!(31, first[31]);
    assert_eq!(6, iter.postfix().len());
    assert_eq!(1, iter.len());
}

#[test]
fn next_walks_the_groups_once() {
    let data = [1, 2, 3, 4, 5];
    let mut iter = data.simd_iter_with_width::<2>();
    assert_eq!(Some([1, 2]), iter.next().map(|g| g.to_array()));
    assert_eq!(Some([3, 4]), iter.next().map(|g| g.to_array()));
    assert!(iter.next().is_none());
    assert!(iter.next().is_none());
    assert_eq!(&[5], iter.postfix());
}

#[test]
fn nth_skips_ahead() {
    let data: Vec<i32> = (0..10).collect();
    let mut iter = data.simd_iter_with_width::<2>();
    assert_eq!(Some([4, 5]), iter.nth(2).map(|g| g.to_array()));
    assert_eq!(2, iter.len());
    assert_eq!(Some([6, 7]), iter.nth(0).map(|g| g.to_array()));
    assert_eq!(Some([8, 9]), iter.next().map(|g| g.to_array()));
    assert_eq!(0, iter.len());
}

#[test]
fn nth_is_the_same_as_stepping() {
    let data: Vec<i32> = (0..24).collect();
    for k in 0..10usize {
        let mut jump = data.simd_iter_with_width::<3>();
        let mut step = data.simd_iter_with_width::<3>();
        let jumped = jump.nth(k).map(|g| g.to_array());
        let mut stepped = None;
        for _ in 0..=k {
            stepped = step.next().map(|g| g.to_array());
        }
        assert_eq!(stepped, jumped);
        assert_eq!(step.len(), jump.len());
    }
}

#[test]
fn nth_beyond_the_end_stops_at_the_end() {
    let data: Vec<i32> = (0..7).collect();
    let mut iter = data.simd_iter_with_width::<2>();
    assert!(iter.nth(3).is_none());
    assert_eq!(0, iter.len());
    assert!(iter.next().is_none());
    assert_eq!(&[6], iter.postfix());
    let mut iter = data.simd_iter_with_width::<2>();
    assert!(iter.nth(usize::MAX).is_none());
    assert_eq!((0, Some(0)), iter.size_hint());
}

#[test]
fn padded_walk_fills_the_remainders() {
    let data = [1, 2, 3, 4, 5];
    let mut padded = data.simd_iter_with_width::<2>().padded_with(-1);
    assert_eq!((3, Some(3)), padded.size_hint());
    assert_eq!(Some([1, 2]), padded.next().map(|g| g.to_array()));
    assert_eq!(Some([3, 4]), padded.next().map(|g| g.to_array()));
    assert_eq!((1, Some(1)), padded.size_hint());
    assert_eq!(Some([5, -1]), padded.next().map(|g| g.to_array()));
    assert!(padded.next().is_none());
    assert_eq!((0, Some(0)), padded.size_hint());
}

#[test]
fn padded_walk_of_a_short_input_is_one_group() {
    let data = [7, 8, 9];
    let mut padded = data.simd_iter_with_width::<8>().padded_with(0);
    assert_eq!((1, Some(1)), padded.size_hint());
    assert_eq!(Some([7, 8, 9, 0, 0, 0, 0, 0]), padded.next().map(|g| g.to_array()));
    assert!(padded.next().is_none());
}

#[test]
fn padded_walk_of_whole_groups_adds_nothing() {
    let data = [1, 2, 3, 4];
    let mut padded = data.simd_iter_with_width::<2>().padded_with(9);
    assert_eq!((2, Some(2)), padded.size_hint());
    assert_eq!(Some([1, 2]), padded.next().map(|g| g.to_array()));
    assert_eq!(Some([3, 4]), padded.next().map(|g| g.to_array()));
    assert!(padded.next().is_none());
}
